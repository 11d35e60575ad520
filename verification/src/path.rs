//! Paths address one node of the document from the root: an ordered sequence
//! of segments, each a mapping key or a sequence index. A path's "dot string"
//! (`name.0.child`) is the stable identity used for expand-state and search
//! sets. Keys containing the separator character are not escaped, so such
//! keys can collide in the dot string; this is a known open edge case of the
//! format and is deliberately left as it is.
use vstd::prelude::*;

use crate::errors::ModelError;
use crate::strutil::append_chars;
use crate::strutil::push_char;
use crate::strutil::spec_dec;
use crate::strutil::usize_dec_chars;

verus! {

#[derive(Debug, PartialEq, Eq, Hash)]
pub enum PathSegment {
    Key(String),
    Index(usize),
}

/// The mathematical value of one path segment.
pub ghost enum SegV {
    Key(Seq<char>),
    Index(int),
}

/// The segment sequence a vector of segments stands for.
pub open spec fn segs_model(v: Seq<PathSegment>) -> Seq<SegV> {
    v.map_values(|s: PathSegment| s.model())
}

impl PathSegment {
    pub open spec fn model(&self) -> SegV {
        match self {
            PathSegment::Key(k) => SegV::Key(k@),
            PathSegment::Index(i) => SegV::Index(*i as int),
        }
    }
}

impl Clone for PathSegment {
    fn clone(&self) -> (r: Self)
        ensures
            r.model() == self.model(),
    {
        match self {
            PathSegment::Key(k) => PathSegment::Key(k.clone()),
            PathSegment::Index(i) => PathSegment::Index(*i),
        }
    }
}

#[derive(Debug, PartialEq, Eq, Hash)]
pub struct NodePath(pub Vec<PathSegment>);

impl NodePath {
    /// The mathematical value of the path: its segment sequence.
    pub open spec fn model(&self) -> Seq<SegV> {
        segs_model(self.0@)
    }

    pub fn root() -> (r: NodePath)
        ensures
            r.model() == Seq::<SegV>::empty(),
    {
        let r = NodePath(Vec::new());
        proof {
            assert(r.model() =~= Seq::<SegV>::empty());
        }
        r
    }

    /// The number of segments.
    pub fn depth(&self) -> (r: usize)
        ensures
            r == self.model().len(),
    {
        self.0.len()
    }

    /// The path extended by one key segment; non-mutating.
    pub fn child_key(&self, key: &str) -> (r: Self)
        ensures
            r.model() == self.model().push(SegV::Key(key@)),
    {
        let mut next = clone_segs(&self.0);
        next.push(PathSegment::Key(key.to_owned()));
        let r = NodePath(next);
        proof {
            assert(r.model() =~= self.model().push(SegV::Key(key@)));
        }
        r
    }

    /// The path extended by one index segment; non-mutating.
    pub fn child_index(&self, index: usize) -> (r: Self)
        ensures
            r.model() == self.model().push(SegV::Index(index as int)),
    {
        let mut next = clone_segs(&self.0);
        next.push(PathSegment::Index(index));
        let r = NodePath(next);
        proof {
            assert(r.model() =~= self.model().push(SegV::Index(index as int)));
        }
        r
    }

    /// The segments joined with a dot: keys verbatim, indices in decimal.
    pub fn dot_path(&self) -> (r: String)
        ensures
            r@ == spec_dot_path(self.model()),
    {
        let mut out = String::new();
        let mut i: usize = 0;
        while i < self.0.len()
            invariant
                i <= self.0@.len(),
                self.model().len() == self.0@.len(),
                out@ == spec_dot_path(self.model().take(i as int)),
            decreases self.0@.len() - i,
        {
            if i > 0 {
                push_char(&mut out, '.');
            }
            let cs = seg_chars(&self.0[i]);
            append_chars(&mut out, &cs);
            proof {
                let m = self.model();
                assert(m.take(i + 1 as int).drop_last() =~= m.take(i as int));
                assert(m.take(i + 1 as int).last() == m[i as int]);
                assert(self.0@[i as int].model() == m[i as int]);
                if i == 0 {
                    assert(Seq::<char>::empty() + seg_string(m[0]) =~= seg_string(m[0]));
                }
                assert(out@ =~= spec_dot_path(m.take(i + 1 as int)));
            }
            i = i + 1;
        }
        proof {
            assert(self.model().take(self.0@.len() as int) =~= self.model());
        }
        out
    }
}

impl Clone for NodePath {
    fn clone(&self) -> (r: Self)
        ensures
            r.model() == self.model(),
    {
        let r = NodePath(clone_segs(&self.0));
        proof {
            assert(r.model() =~= self.model());
        }
        r
    }
}

/// The text of one segment inside a dot string.
pub open spec fn seg_string(s: SegV) -> Seq<char> {
    match s {
        SegV::Key(k) => k,
        SegV::Index(i) => spec_dec(i as nat),
    }
}

/// The dot string of a path: segment texts joined with a dot.
pub open spec fn spec_dot_path(p: Seq<SegV>) -> Seq<char>
    decreases p.len(),
{
    if p.len() == 0 {
        Seq::empty()
    } else if p.len() == 1 {
        seg_string(p[0])
    } else {
        spec_dot_path(p.drop_last()) + seq!['.'] + seg_string(p.last())
    }
}

fn seg_chars(s: &PathSegment) -> (r: Vec<char>)
    ensures
        r@ == seg_string(s.model()),
{
    match s {
        PathSegment::Key(k) => crate::strutil::str_chars(k.as_str()),
        PathSegment::Index(i) => usize_dec_chars(*i),
    }
}

pub(crate) fn clone_segs(v: &Vec<PathSegment>) -> (r: Vec<PathSegment>)
    ensures
        segs_model(r@) == segs_model(v@),
{
    let mut r: Vec<PathSegment> = Vec::new();
    let mut i: usize = 0;
    while i < v.len()
        invariant
            i <= v@.len(),
            r@.len() == i,
            segs_model(r@) == segs_model(v@).take(i as int),
        decreases v@.len() - i,
    {
        let ghost pre = r@;
        let c = v[i].clone();
        proof {
            assert(c.model() == v@[i as int].model());
        }
        r.push(c);
        proof {
            assert(r@.len() == i + 1);
            assert(r@[i as int].model() == v@[i as int].model());
            assert(forall|k: int| 0 <= k < i ==> r@[k] == pre[k]);
            assert(segs_model(r@) =~= segs_model(v@).take(i + 1 as int));
        }
        i = i + 1;
    }
    proof {
        assert(segs_model(v@).take(v@.len() as int) =~= segs_model(v@));
    }
    r
}

/// Two segments address the same place.
pub fn seg_eq(a: &PathSegment, b: &PathSegment) -> (r: bool)
    ensures
        r == (a.model() == b.model()),
{
    match (a, b) {
        (PathSegment::Key(x), PathSegment::Key(y)) => crate::strutil::string_eq(
            x.as_str(),
            y.as_str(),
        ),
        (PathSegment::Index(x), PathSegment::Index(y)) => x == y,
        _ => false,
    }
}

/// Two paths are equal exactly when their segment sequences are equal.
pub fn path_eq(a: &NodePath, b: &NodePath) -> (r: bool)
    ensures
        r == (a.model() == b.model()),
{
    if a.0.len() != b.0.len() {
        proof {
            assert(a.model().len() != b.model().len());
        }
        return false;
    }
    let mut i: usize = 0;
    while i < a.0.len()
        invariant
            i <= a.0@.len(),
            a.0@.len() == b.0@.len(),
            a.model().len() == a.0@.len(),
            b.model().len() == b.0@.len(),
            forall|k: int| 0 <= k < i ==> a.model()[k] == b.model()[k],
        decreases a.0@.len() - i,
    {
        if !seg_eq(&a.0[i], &b.0[i]) {
            proof {
                assert(a.model()[i as int] != b.model()[i as int]);
            }
            return false;
        }
        i = i + 1;
    }
    proof {
        assert(a.model() =~= b.model());
    }
    true
}

/// Splits a non-root path into its parent and its last segment.
pub fn split_parent(path: &NodePath) -> (r: (NodePath, PathSegment))
    requires
        path.model().len() > 0,
    ensures
        r.0.model() == path.model().drop_last(),
        r.1.model() == path.model().last(),
{
    let mut segs = clone_segs(&path.0);
    let last = segs.pop().unwrap();
    let parent = NodePath(segs);
    proof {
        assert(parent.model() =~= path.model().drop_last());
    }
    (parent, last)
}

/// Splits a non-root path whose last segment is a mapping key into its parent
/// and that key; any other last segment is an invalid target.
pub fn split_parent_key(path: &NodePath) -> (r: Result<(NodePath, String), ModelError>)
    requires
        path.model().len() > 0,
    ensures
        match r {
            Ok(pk) => path.model().last() == SegV::Key(pk.1@) && pk.0.model()
                == path.model().drop_last(),
            Err(e) => e == ModelError::InvalidTarget && !(path.model().last() is Key),
        },
{
    let (parent, last) = split_parent(path);
    match last {
        PathSegment::Key(key) => Ok((parent, key)),
        _ => Err(ModelError::InvalidTarget),
    }
}

} // verus!
