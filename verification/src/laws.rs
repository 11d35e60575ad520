//! The laws of the document model and the visibility engine: what a
//! path-addressed mutation leaves reachable afterwards, that failed
//! operations change nothing beyond their stated error, and how searching
//! shapes the visible rows. Each law is proved against the same spec
//! functions the executable functions' contracts use.
use vstd::prelude::*;

use crate::doc::apply_local;
use crate::doc::doc_get;
use crate::doc::has_key;
use crate::doc::key_index;
use crate::doc::lemma_key_index;
use crate::doc::spec_apply;
use crate::doc::spec_delete;
use crate::doc::spec_rename;
use crate::doc::DocV;
use crate::doc::OpV;
use crate::errors::ModelError;
use crate::path::SegV;
use crate::tree::TreeV;
use crate::visible::spec_flatten;
use crate::visible::spec_walk;
use crate::visible::spec_walk_children;
use crate::visible::subtree_match;
use crate::visible::RowV;

verus! {

/// One resolution step: what a single segment addresses inside a node.
pub open spec fn get_step(t: DocV, seg: SegV) -> Option<DocV> {
    match t {
        DocV::Mapping(es) => match seg {
            SegV::Key(k) => {
                let j = key_index(es, k);
                if j >= 0 {
                    Some(es[j].1)
                } else {
                    Option::<DocV>::None
                }
            },
            _ => Option::<DocV>::None,
        },
        DocV::Sequence(vs) => match seg {
            SegV::Index(i) => if 0 <= i < vs.len() {
                Some(vs[i])
            } else {
                Option::<DocV>::None
            },
            _ => Option::<DocV>::None,
        },
        _ => Option::<DocV>::None,
    }
}

/// Resolving a path extended by one segment resolves the path, then takes
/// one more step.
pub proof fn lemma_get_push(d: DocV, p: Seq<SegV>, seg: SegV)
    ensures
        doc_get(d, p.push(seg)) == (match doc_get(d, p) {
            Some(t) => get_step(t, seg),
            None => Option::<DocV>::None,
        }),
    decreases p.len(),
{
    if p.len() == 0 {
        assert(p.push(seg)[0] == seg);
        assert(p.push(seg).drop_first() =~= Seq::<SegV>::empty());
        assert(doc_get(d, p) == Some(d));
        match d {
            DocV::Mapping(es) => {
                if seg is Key {
                    let j = key_index(es, seg->Key_0);
                    if j >= 0 {
                        assert(doc_get(es[j].1, p.push(seg).drop_first()) == Some(es[j].1));
                    }
                }
            },
            DocV::Sequence(vs) => {
                if seg is Index {
                    let i = seg->Index_0;
                    if 0 <= i < vs.len() {
                        assert(doc_get(vs[i], p.push(seg).drop_first()) == Some(vs[i]));
                    }
                }
            },
            _ => {},
        }
    } else {
        assert(p.push(seg)[0] == p[0]);
        assert(p.push(seg).drop_first() =~= p.drop_first().push(seg));
        match d {
            DocV::Mapping(es) => {
                if p[0] is Key {
                    let j = key_index(es, p[0]->Key_0);
                    if j >= 0 {
                        lemma_get_push(es[j].1, p.drop_first(), seg);
                        assert(doc_get(d, p.push(seg)) == doc_get(
                            es[j].1,
                            p.drop_first().push(seg),
                        ));
                        assert(doc_get(d, p) == doc_get(es[j].1, p.drop_first()));
                    }
                }
            },
            DocV::Sequence(vs) => {
                if p[0] is Index {
                    let i = p[0]->Index_0;
                    if 0 <= i < vs.len() {
                        lemma_get_push(vs[i], p.drop_first(), seg);
                        assert(doc_get(d, p.push(seg)) == doc_get(
                            vs[i],
                            p.drop_first().push(seg),
                        ));
                        assert(doc_get(d, p) == doc_get(vs[i], p.drop_first()));
                    }
                }
            },
            _ => {},
        }
    }
}

/// Two entry sequences with the same keys in the same places index every key
/// identically.
proof fn lemma_key_index_same_keys(
    es1: Seq<(Seq<char>, DocV)>,
    es2: Seq<(Seq<char>, DocV)>,
    k: Seq<char>,
)
    requires
        es1.len() == es2.len(),
        forall|l: int| 0 <= l < es1.len() ==> es1[l].0 == es2[l].0,
    ensures
        key_index(es1, k) == key_index(es2, k),
    decreases es1.len(),
{
    if es1.len() > 0 {
        if es1[0].0 != k {
            assert(forall|l: int|
                0 <= l < es1.len() - 1 ==> es1.drop_first()[l] == es1[l + 1]);
            assert(forall|l: int|
                0 <= l < es2.len() - 1 ==> es2.drop_first()[l] == es2[l + 1]);
            lemma_key_index_same_keys(es1.drop_first(), es2.drop_first(), k);
        }
    }
}

/// The bridge between applying at a path and resolving that path: an
/// operation succeeds exactly when the path resolves and the local operation
/// succeeds on the target, the new document resolves the same path to the
/// locally changed target, and a path that does not resolve fails with
/// `NotFound`.
pub proof fn lemma_apply_get(d: DocV, p: Seq<SegV>, op: OpV)
    ensures
        spec_apply(d, p, op) matches Ok(pr) ==> (doc_get(d, p) matches Some(t) && (apply_local(
            t,
            op,
        ) matches Ok(lr) && lr.1 == pr.1 && doc_get(pr.0, p) == Some(lr.0))),
        (doc_get(d, p) is Some && apply_local(doc_get(d, p)->0, op) is Ok) ==> ({
            let lr = apply_local(doc_get(d, p)->0, op)->Ok_0;
            spec_apply(d, p, op) matches Ok(pr3) && pr3.1 == lr.1 && doc_get(pr3.0, p) == Some(
                lr.0,
            )
        }),
        (doc_get(d, p) is Some && apply_local(doc_get(d, p)->0, op) is Err) ==> spec_apply(
            d,
            p,
            op,
        ) == Err::<(DocV, Option<int>), ModelError>(apply_local(doc_get(d, p)->0, op)->Err_0),
        doc_get(d, p) is None ==> spec_apply(d, p, op) == Err::<
            (DocV, Option<int>),
            ModelError,
        >(ModelError::NotFound),
    decreases p.len(),
{
    if p.len() == 0 {
    } else {
        match d {
            DocV::Mapping(es) => {
                if p[0] is Key {
                    let k = p[0]->Key_0;
                    let j = key_index(es, k);
                    if j >= 0 {
                        lemma_key_index(es, k);
                        lemma_apply_get(es[j].1, p.drop_first(), op);
                        match spec_apply(es[j].1, p.drop_first(), op) {
                            Ok(pr) => {
                                let es2 = es.update(j, (es[j].0, pr.0));
                                assert(es2.len() == es.len());
                                assert(forall|l: int|
                                    0 <= l < es.len() ==> es2[l].0 == es[l].0);
                                lemma_key_index_same_keys(es2, es, k);
                                assert(es2[j].1 == pr.0);
                            },
                            Err(_) => {},
                        }
                    }
                }
            },
            DocV::Sequence(vs) => {
                if p[0] is Index {
                    let i = p[0]->Index_0;
                    if 0 <= i < vs.len() {
                        lemma_apply_get(vs[i], p.drop_first(), op);
                        match spec_apply(vs[i], p.drop_first(), op) {
                            Ok(pr) => {
                                assert(vs.update(i, pr.0)[i] == pr.0);
                            },
                            Err(_) => {},
                        }
                    }
                }
            },
            _ => {},
        }
    }
}

/// Inserting a fresh key into the mapping at `p` makes `p` extended by that
/// key resolve to the inserted value; inserting the same key again fails
/// with `DuplicateKey`, whatever value it carries.
pub proof fn lemma_add_mapping_child(d: DocV, p: Seq<SegV>, k: Seq<char>, v: DocV, v2: DocV)
    requires
        doc_get(d, p) matches Some(t) && t is Mapping && !has_key(t->Mapping_0, k),
    ensures
        spec_apply(d, p, OpV::AddMapChild(k, v)) matches Ok(pr) && doc_get(
            pr.0,
            p.push(SegV::Key(k)),
        ) == Some(v),
        spec_apply(d, p, OpV::AddMapChild(k, v)) matches Ok(pr2) ==> spec_apply(
            pr2.0,
            p,
            OpV::AddMapChild(k, v2),
        ) == Err::<(DocV, Option<int>), ModelError>(ModelError::DuplicateKey),
{
    let t = doc_get(d, p)->0;
    let es = t->Mapping_0;
    let es2 = es.push((k, v));
    lemma_apply_get(d, p, OpV::AddMapChild(k, v));
    let pr = spec_apply(d, p, OpV::AddMapChild(k, v))->Ok_0;
    assert(doc_get(pr.0, p) == Some(DocV::Mapping(es2)));
    lemma_get_push(pr.0, p, SegV::Key(k));
    lemma_key_index(es, k);
    assert(es2[es.len() as int].0 == k);
    crate::doc::lemma_key_index_at(es2, k, es.len() as int);
    assert(es2[key_index(es2, k)].1 == v);
    lemma_key_index(es2, k);
    assert(has_key(es2, k));
    lemma_apply_get(pr.0, p, OpV::AddMapChild(k, v2));
}

/// Deleting the root always fails with `InvalidTarget`.
pub proof fn lemma_delete_root(d: DocV)
    ensures
        spec_delete(d, Seq::empty()) == Err::<DocV, ModelError>(ModelError::InvalidTarget),
{
}

/// After a successful delete of a mapping entry whose siblings carry
/// distinct keys, the deleted path no longer resolves. After a successful
/// delete of a sequence element, the old last index no longer resolves, and
/// every later sibling's old path resolves to the value that followed it:
/// stale paths shift onto the shifted content.
pub proof fn lemma_delete_node(d: DocV, p: Seq<SegV>)
    requires
        p.len() > 0,
    ensures
        (spec_delete(d, p) is Ok && p.last() is Key && distinct_keys(
            doc_get(d, p.drop_last())->0->Mapping_0,
        )) ==> doc_get(spec_delete(d, p)->Ok_0, p) is None,
        (spec_delete(d, p) is Ok && p.last() is Index) ==> ({
            let nd = spec_delete(d, p)->Ok_0;
            let vs = doc_get(d, p.drop_last())->0->Sequence_0;
            let i = p.last()->Index_0;
            &&& doc_get(nd, p.drop_last().push(SegV::Index(vs.len() - 1))) is None
            &&& forall|idx: int|
                i <= idx < vs.len() - 1 ==> doc_get(
                    nd,
                    p.drop_last().push(SegV::Index(idx)),
                ) == Some(vs[idx + 1])
        }),
{
    let parent = p.drop_last();
    assert(parent.push(p.last()) =~= p);
    match p.last() {
        SegV::Key(k) => {
            let op = OpV::RemoveKey(k);
            lemma_apply_get(d, parent, op);
            if spec_delete(d, p) is Ok {
                let nd = spec_delete(d, p)->Ok_0;
                let t = doc_get(d, parent)->0;
                let es = t->Mapping_0;
                if distinct_keys(es) {
                    lemma_key_index(es, k);
                    let j = key_index(es, k);
                    let es2 = if j >= 0 {
                        es.remove(j)
                    } else {
                        es
                    };
                    assert(doc_get(nd, parent) == Some(DocV::Mapping(es2)));
                    lemma_get_push(nd, parent, SegV::Key(k));
                    if j >= 0 {
                        assert(forall|l: int|
                            0 <= l < es2.len() ==> es2[l].0 != k) by {
                            assert(forall|l: int|
                                0 <= l < j ==> es2[l] == es[l]);
                            assert(forall|l: int|
                                j <= l < es2.len() ==> es2[l] == es[l + 1]);
                        }
                        crate::doc::lemma_key_index_at(es2, k, es2.len() as int);
                    } else {
                        crate::doc::lemma_key_index_at(es2, k, es2.len() as int);
                    }
                }
            }
        },
        SegV::Index(i) => {
            let op = OpV::RemoveIndex(i);
            lemma_apply_get(d, parent, op);
            if spec_delete(d, p) is Ok {
                let nd = spec_delete(d, p)->Ok_0;
                let t = doc_get(d, parent)->0;
                let vs = t->Sequence_0;
                let vs2 = vs.remove(i);
                assert(doc_get(nd, parent) == Some(DocV::Sequence(vs2)));
                lemma_get_push(nd, parent, SegV::Index(vs.len() - 1));
                assert forall|idx: int|
                    i <= idx < vs.len() - 1 implies doc_get(
                    nd,
                    parent.push(SegV::Index(idx)),
                ) == Some(vs[idx + 1]) by {
                    lemma_get_push(nd, parent, SegV::Index(idx));
                    assert(vs2[idx] == vs[idx + 1]);
                }
            }
        },
    }
}

/// No two entries carry the same key.
pub open spec fn distinct_keys(es: Seq<(Seq<char>, DocV)>) -> bool {
    forall|i: int, j: int| 0 <= i < j < es.len() ==> es[i].0 != es[j].0
}

/// Renaming to a name that collides with a sibling fails with
/// `DuplicateKey`; a successful rename makes the parent path extended by the
/// new name resolve to the value the old path resolved to.
pub proof fn lemma_rename_key(d: DocV, p: Seq<SegV>, new_key: Seq<char>)
    requires
        p.len() > 0,
        p.last() is Key,
    ensures
        (doc_get(d, p.drop_last()) matches Some(t) && t is Mapping && has_key(
            t->Mapping_0,
            new_key,
        )) ==> spec_rename(d, p, new_key) == Err::<DocV, ModelError>(ModelError::DuplicateKey),
        spec_rename(d, p, new_key) is Ok ==> doc_get(
            spec_rename(d, p, new_key)->Ok_0,
            p.drop_last().push(SegV::Key(new_key)),
        ) == doc_get(d, p) && doc_get(d, p) is Some,
{
    let parent = p.drop_last();
    let old_key = p.last()->Key_0;
    let op = OpV::RenameKey(old_key, new_key);
    assert(parent.push(p.last()) =~= p);
    lemma_apply_get(d, parent, op);
    if doc_get(d, parent) matches Some(t) && t is Mapping && has_key(t->Mapping_0, new_key) {
    }
    if spec_rename(d, p, new_key) is Ok {
        let nd = spec_rename(d, p, new_key)->Ok_0;
        let t = doc_get(d, parent)->0;
        let es = t->Mapping_0;
        lemma_key_index(es, old_key);
        lemma_key_index(es, new_key);
        let j = key_index(es, old_key);
        let es2 = es.remove(j).push((new_key, es[j].1));
        assert(doc_get(nd, parent) == Some(DocV::Mapping(es2)));
        lemma_get_push(nd, parent, SegV::Key(new_key));
        lemma_get_push(d, parent, SegV::Key(old_key));
        assert(forall|l: int|
            0 <= l < es.remove(j).len() ==> es.remove(j)[l].0 != new_key) by {
            assert(forall|l: int| 0 <= l < j ==> es.remove(j)[l] == es[l]);
            assert(forall|l: int|
                j <= l < es.remove(j).len() ==> es.remove(j)[l] == es[l + 1]);
        }
        assert(es2[es2.len() - 1].0 == new_key);
        crate::doc::lemma_key_index_at(es2, new_key, es2.len() - 1);
        assert(es2[key_index(es2, new_key)].1 == es[j].1);
    }
}

/// An expand-state with one path toggled.
pub open spec fn toggle(ex: Set<Seq<char>>, dot: Seq<char>) -> Set<Seq<char>> {
    if ex.contains(dot) {
        ex.remove(dot)
    } else {
        ex.insert(dot)
    }
}

/// Flattening is a pure function of its inputs, so flattening the same tree
/// under the same expand-state and query twice yields identical rows; and
/// toggling one container's expand-state twice restores the rows exactly.
pub proof fn lemma_visibility_idempotent(
    t: TreeV,
    ex: Set<Seq<char>>,
    q: Option<Seq<char>>,
    dot: Seq<char>,
)
    ensures
        spec_flatten(t, ex, q) == spec_flatten(t, ex, q),
        spec_flatten(t, toggle(toggle(ex, dot), dot), q) == spec_flatten(t, ex, q),
{
    if ex.contains(dot) {
        assert(toggle(toggle(ex, dot), dot) =~= ex);
    } else {
        assert(toggle(toggle(ex, dot), dot) =~= ex);
    }
}

/// The node reached by a sequence of child indices.
pub open spec fn node_at(t: TreeV, idx: Seq<int>) -> Option<TreeV>
    decreases idx.len(),
{
    if idx.len() == 0 {
        Some(t)
    } else if 0 <= idx[0] < t.children.len() {
        node_at(t.children[idx[0]], idx.drop_first())
    } else {
        Option::<TreeV>::None
    }
}

/// Every strict descendant of the node has a non-empty path, as every tree
/// built from a document has.
pub open spec fn nonroot_paths(t: TreeV) -> bool
    decreases t,
{
    forall|i: int|
        0 <= i < t.children.len() ==> (#[trigger] t.children[i]).path.len() > 0 && nonroot_paths(
            t.children[i],
        )
}

/// Trees built from a document value have non-empty paths everywhere below
/// their root.
pub proof fn lemma_build_nonroot(d: DocV, p: Seq<SegV>, k: Seq<char>)
    ensures
        nonroot_paths(crate::tree::spec_build(d, p, k)),
    decreases d,
{
    let t = crate::tree::spec_build(d, p, k);
    match d {
        DocV::Mapping(es) => {
            assert forall|i: int|
                0 <= i < t.children.len() implies (#[trigger] t.children[i]).path.len() > 0
                && nonroot_paths(t.children[i]) by {
                lemma_build_nonroot(es[i].1, p.push(SegV::Key(es[i].0)), es[i].0);
            }
        },
        DocV::Sequence(vs) => {
            assert forall|i: int|
                0 <= i < t.children.len() implies (#[trigger] t.children[i]).path.len() > 0
                && nonroot_paths(t.children[i]) by {
                lemma_build_nonroot(
                    vs[i],
                    p.push(SegV::Index(i)),
                    crate::tree::spec_display_key(vs[i]),
                );
            }
        },
        _ => {},
    }
}

/// A match anywhere under an indexed descendant is a match under the node.
proof fn lemma_subtree_up(t: TreeV, idx: Seq<int>, q: Seq<char>)
    requires
        node_at(t, idx) is Some,
        subtree_match(node_at(t, idx)->0, q),
    ensures
        subtree_match(t, q),
    decreases idx.len(),
{
    if idx.len() > 0 {
        let c = t.children[idx[0]];
        lemma_subtree_up(c, idx.drop_first(), q);
        assert(0 <= idx[0] < t.children.len() && subtree_match(t.children[idx[0]], q));
    }
}

/// Some row carries this path.
pub open spec fn has_row_with_path(rows: Seq<RowV>, p: Seq<SegV>) -> bool {
    exists|j: int| 0 <= j < rows.len() && rows[j].path == p
}

proof fn lemma_has_row_concat(a: Seq<RowV>, b: Seq<RowV>, p: Seq<SegV>)
    ensures
        has_row_with_path(a + b, p) == (has_row_with_path(a, p) || has_row_with_path(b, p)),
{
    if has_row_with_path(a, p) {
        let j = choose|j: int| 0 <= j < a.len() && a[j].path == p;
        assert((a + b)[j].path == p);
    }
    if has_row_with_path(b, p) {
        let j = choose|j: int| 0 <= j < b.len() && b[j].path == p;
        assert((a + b)[a.len() + j].path == p);
    }
    if has_row_with_path(a + b, p) {
        let j = choose|j: int| 0 <= j < (a + b).len() && (a + b)[j].path == p;
        if j < a.len() {
            assert(a[j].path == p);
        } else {
            assert(b[j - a.len()].path == p);
        }
    }
}

/// A row of one child's walk appears in the walk of all the children.
proof fn lemma_walk_children_member(
    ts: Seq<TreeV>,
    ex: Set<Seq<char>>,
    q: Option<Seq<char>>,
    i: int,
    p: Seq<SegV>,
)
    requires
        0 <= i < ts.len(),
        has_row_with_path(spec_walk(ts[i], ex, q), p),
    ensures
        has_row_with_path(spec_walk_children(ts, ex, q), p),
    decreases ts.len(),
{
    let front = spec_walk_children(ts.drop_last(), ex, q);
    let back = spec_walk(ts.last(), ex, q);
    lemma_has_row_concat(front, back, p);
    if i == ts.len() - 1 {
    } else {
        assert(ts.drop_last()[i] == ts[i]);
        lemma_walk_children_member(ts.drop_last(), ex, q, i, p);
    }
}

/// Search ancestor inclusion: under a query, every non-root node whose
/// subtree holds a match is visible, whatever the manual expand-state says.
/// In particular every ancestor of a match is visible, because the match
/// sits in its subtree.
pub proof fn lemma_search_inclusion(
    t: TreeV,
    ex: Set<Seq<char>>,
    q: Seq<char>,
    idx: Seq<int>,
)
    requires
        idx.len() > 0,
        node_at(t, idx) is Some,
        subtree_match(node_at(t, idx)->0, q),
        nonroot_paths(t),
    ensures
        has_row_with_path(spec_walk(t, ex, Some(q)), node_at(t, idx)->0.path),
    decreases idx.len(),
{
    let n = node_at(t, idx)->0;
    let c = t.children[idx[0]];
    lemma_subtree_up(c, idx.drop_first(), q);
    lemma_subtree_up(t, idx, q);
    let crows = spec_walk(c, ex, Some(q));
    if idx.len() == 1 {
        assert(n == c);
        assert(c.path.len() > 0);
        assert(crows[0] == crate::visible::row_of(c));
        assert(has_row_with_path(crows, n.path));
    } else {
        assert(nonroot_paths(c));
        lemma_search_inclusion(c, ex, q, idx.drop_first());
    }
    lemma_walk_children_member(t.children, ex, Some(q), idx[0], n.path);
    let own = if t.path.len() == 0 {
        if crate::tree::is_container_type(t.node_type) {
            seq![crate::visible::root_row(t)]
        } else {
            Seq::<RowV>::empty()
        }
    } else {
        if subtree_match(t, q) {
            seq![crate::visible::row_of(t)]
        } else {
            Seq::<RowV>::empty()
        }
    };
    assert(spec_walk(t, ex, Some(q)) == own + spec_walk_children(t.children, ex, Some(q)));
    lemma_has_row_concat(own, spec_walk_children(t.children, ex, Some(q)), n.path);
}

/// Search exclusion: under a query, every row other than the walked root's
/// own row is the row of an actual indexed node of the tree whose subtree
/// holds a match; a sibling subtree with no matching descendant contributes
/// nothing.
pub proof fn lemma_search_exclusion(t: TreeV, ex: Set<Seq<char>>, q: Seq<char>)
    requires
        nonroot_paths(t),
    ensures
        forall|j: int|
            0 <= j < spec_walk(t, ex, Some(q)).len() ==> ((t.path.len() == 0 && #[trigger]
            spec_walk(t, ex, Some(q))[j] == crate::visible::root_row(t)) || exists|idx: Seq<int>|
                node_at(t, idx) is Some && spec_walk(t, ex, Some(q))[j] == crate::visible::row_of(
                    node_at(t, idx)->0,
                ) && subtree_match(node_at(t, idx)->0, q)),
    decreases t,
{
    let rows = spec_walk(t, ex, Some(q));
    let kid_rows = spec_walk_children(t.children, ex, Some(q));
    lemma_search_exclusion_children(t.children, ex, q);
    assert forall|j: int|
        0 <= j < rows.len() implies ((t.path.len() == 0 && #[trigger] rows[j]
        == crate::visible::root_row(t)) || exists|idx: Seq<int>|
        node_at(t, idx) is Some && rows[j] == crate::visible::row_of(node_at(t, idx)->0)
            && subtree_match(node_at(t, idx)->0, q)) by {
        let own_len = if t.path.len() == 0 {
            if crate::tree::is_container_type(t.node_type) {
                1int
            } else {
                0int
            }
        } else {
            if subtree_match(t, q) {
                1int
            } else {
                0int
            }
        };
        if j < own_len {
            if t.path.len() > 0 {
                assert(node_at(t, Seq::empty()) == Some(t));
                assert(rows[j] == crate::visible::row_of(t));
                assert(exists|idx: Seq<int>|
                    node_at(t, idx) is Some && rows[j] == crate::visible::row_of(
                        node_at(t, idx)->0,
                    ) && subtree_match(node_at(t, idx)->0, q));
            }
        } else {
            assert(rows[j] == kid_rows[j - own_len]);
            let (i, idx) = choose|i: int, idx: Seq<int>|
                0 <= i < t.children.len() && node_at(t.children[i], idx) is Some
                    && kid_rows[j - own_len] == crate::visible::row_of(
                    node_at(t.children[i], idx)->0,
                ) && subtree_match(node_at(t.children[i], idx)->0, q);
            lemma_node_at_cons(t, i, idx);
            assert(node_at(t, seq![i] + idx) is Some && rows[j] == crate::visible::row_of(
                node_at(t, seq![i] + idx)->0,
            ) && subtree_match(node_at(t, seq![i] + idx)->0, q));
        }
    }
}

proof fn lemma_node_at_cons(t: TreeV, i: int, idx: Seq<int>)
    requires
        0 <= i < t.children.len(),
    ensures
        node_at(t, seq![i] + idx) == node_at(t.children[i], idx),
{
    assert((seq![i] + idx)[0] == i);
    assert((seq![i] + idx).drop_first() =~= idx);
}

proof fn lemma_search_exclusion_children(ts: Seq<TreeV>, ex: Set<Seq<char>>, q: Seq<char>)
    requires
        forall|i: int|
            0 <= i < ts.len() ==> (#[trigger] ts[i]).path.len() > 0 && nonroot_paths(ts[i]),
    ensures
        forall|j: int|
            0 <= j < spec_walk_children(ts, ex, Some(q)).len() ==> exists|i: int, idx: Seq<int>|
                0 <= i < ts.len() && node_at(ts[i], idx) is Some && #[trigger] spec_walk_children(
                    ts,
                    ex,
                    Some(q),
                )[j] == crate::visible::row_of(node_at(ts[i], idx)->0) && subtree_match(
                    node_at(ts[i], idx)->0,
                    q,
                ),
    decreases ts,
{
    if ts.len() > 0 {
        let front = spec_walk_children(ts.drop_last(), ex, Some(q));
        let c = ts.last();
        let back = spec_walk(c, ex, Some(q));
        assert(forall|i: int| 0 <= i < ts.len() - 1 ==> ts.drop_last()[i] == ts[i]);
        lemma_search_exclusion_children(ts.drop_last(), ex, q);
        lemma_search_exclusion(c, ex, q);
        assert forall|j: int|
            0 <= j < spec_walk_children(ts, ex, Some(q)).len() implies exists|
            i: int,
            idx: Seq<int>,
        |
            0 <= i < ts.len() && node_at(ts[i], idx) is Some && #[trigger] spec_walk_children(
                ts,
                ex,
                Some(q),
            )[j] == crate::visible::row_of(node_at(ts[i], idx)->0) && subtree_match(
                node_at(ts[i], idx)->0,
                q,
            ) by {
            if j < front.len() {
                assert(spec_walk_children(ts, ex, Some(q))[j] == front[j]);
                let (i, idx) = choose|i: int, idx: Seq<int>|
                    0 <= i < ts.drop_last().len() && node_at(ts.drop_last()[i], idx) is Some
                        && front[j] == crate::visible::row_of(node_at(ts.drop_last()[i], idx)->0)
                        && subtree_match(node_at(ts.drop_last()[i], idx)->0, q);
                assert(ts.drop_last()[i] == ts[i]);
                assert(0 <= i < ts.len() && node_at(ts[i], idx) is Some && spec_walk_children(
                    ts,
                    ex,
                    Some(q),
                )[j] == crate::visible::row_of(node_at(ts[i], idx)->0) && subtree_match(
                    node_at(ts[i], idx)->0,
                    q,
                ));
            } else {
                assert(spec_walk_children(ts, ex, Some(q))[j] == back[j - front.len()]);
                assert((c.path.len() == 0 && back[j - front.len()]
                    == crate::visible::root_row(c)) || exists|idx: Seq<int>|
                    node_at(c, idx) is Some && back[j - front.len()] == crate::visible::row_of(
                        node_at(c, idx)->0,
                    ) && subtree_match(node_at(c, idx)->0, q));
                assert(c.path.len() > 0);
                let idx = choose|idx: Seq<int>|
                    node_at(c, idx) is Some && back[j - front.len()] == crate::visible::row_of(
                        node_at(c, idx)->0,
                    ) && subtree_match(node_at(c, idx)->0, q);
                let i = ts.len() - 1;
                assert(ts[i] == c);
                assert(0 <= i < ts.len() && node_at(ts[i], idx) is Some && spec_walk_children(
                    ts,
                    ex,
                    Some(q),
                )[j] == crate::visible::row_of(node_at(ts[i], idx)->0) && subtree_match(
                    node_at(ts[i], idx)->0,
                    q,
                ));
            }
        }
    }
}

/// The tree holds a node with this path, kind and preview.
pub open spec fn tree_has(t: TreeV, p: Seq<SegV>, nt: crate::tree::NodeType, pv: Seq<char>) -> bool
    decreases t,
{
    (t.path == p && t.node_type == nt && t.preview == pv) || exists|i: int|
        0 <= i < t.children.len() && tree_has(#[trigger] t.children[i], p, nt, pv)
}

/// Whatever a path resolves to in the document, the shadow tree built from
/// that document holds a node at that path with the value's kind and preview:
/// the tree reflects the document exactly.
pub proof fn lemma_build_reflects_get(d: DocV, base: Seq<SegV>, k: Seq<char>, p: Seq<SegV>)
    requires
        doc_get(d, p) is Some,
    ensures
        tree_has(
            crate::tree::spec_build(d, base, k),
            base + p,
            crate::tree::spec_node_type(doc_get(d, p)->0),
            crate::tree::spec_preview(doc_get(d, p)->0),
        ),
    decreases p.len(),
{
    let t = crate::tree::spec_build(d, base, k);
    if p.len() == 0 {
        assert(base + p =~= base);
        assert(t.path == base);
        match d {
            DocV::Mapping(_) => {
                assert(t.node_type == crate::tree::spec_node_type(d));
                assert(t.preview =~= crate::tree::spec_preview(d));
            },
            DocV::Sequence(_) => {
                assert(t.preview =~= crate::tree::spec_preview(d));
            },
            _ => {},
        }
    } else {
        match d {
            DocV::Mapping(es) => {
                let kk = p[0]->Key_0;
                let j = key_index(es, kk);
                lemma_key_index(es, kk);
                let child_base = base.push(SegV::Key(es[j].0));
                lemma_build_reflects_get(es[j].1, child_base, es[j].0, p.drop_first());
                assert(child_base + p.drop_first() =~= base + p);
                assert(t.children[j] == crate::tree::spec_build(
                    es[j].1,
                    child_base,
                    es[j].0,
                ));
                assert(0 <= j < t.children.len() && tree_has(
                    t.children[j],
                    base + p,
                    crate::tree::spec_node_type(doc_get(d, p)->0),
                    crate::tree::spec_preview(doc_get(d, p)->0),
                ));
            },
            DocV::Sequence(vs) => {
                let i = p[0]->Index_0;
                let child_base = base.push(SegV::Index(i));
                lemma_build_reflects_get(
                    vs[i],
                    child_base,
                    crate::tree::spec_display_key(vs[i]),
                    p.drop_first(),
                );
                assert(child_base + p.drop_first() =~= base + p);
                assert(t.children[i] == crate::tree::spec_build(
                    vs[i],
                    child_base,
                    crate::tree::spec_display_key(vs[i]),
                ));
                assert(0 <= i < t.children.len() && tree_has(
                    t.children[i],
                    base + p,
                    crate::tree::spec_node_type(doc_get(d, p)->0),
                    crate::tree::spec_preview(doc_get(d, p)->0),
                ));
            },
            _ => {},
        }
    }
}

/// Every mapping in the document carries distinct keys, as an ordered
/// mapping implies. Documents built by the mutation API from an empty model
/// keep this; a parsed document can break it only where several non-string
/// mapping keys share the one placeholder label.
pub open spec fn doc_wf(d: DocV) -> bool
    decreases d,
{
    match d {
        DocV::Mapping(es) => distinct_keys(es) && forall|i: int|
            0 <= i < es.len() ==> doc_wf(#[trigger] es[i].1),
        DocV::Sequence(vs) => forall|i: int| 0 <= i < vs.len() ==> doc_wf(#[trigger] vs[i]),
        _ => true,
    }
}

/// The values an operation carries are themselves well formed; operations
/// built from scalars always are.
pub open spec fn op_wf(op: OpV) -> bool {
    match op {
        OpV::SetValue(v) => doc_wf(v),
        OpV::AddMapChild(_, v) => doc_wf(v),
        OpV::AddSeqValue(v) => doc_wf(v),
        _ => true,
    }
}

/// A scalar's document value is always well formed.
pub proof fn lemma_scal_doc_wf(s: crate::scalar::ScalV)
    ensures
        doc_wf(crate::doc::scal_doc(s)),
{
}

/// The node a path resolves to inside a well-formed document is well formed.
pub proof fn lemma_wf_get(d: DocV, p: Seq<SegV>)
    requires
        doc_wf(d),
        doc_get(d, p) is Some,
    ensures
        doc_wf(doc_get(d, p)->0),
    decreases p.len(),
{
    if p.len() > 0 {
        match d {
            DocV::Mapping(es) => {
                let j = key_index(es, p[0]->Key_0);
                lemma_key_index(es, p[0]->Key_0);
                lemma_wf_get(es[j].1, p.drop_first());
            },
            DocV::Sequence(vs) => {
                lemma_wf_get(vs[p[0]->Index_0], p.drop_first());
            },
            _ => {},
        }
    }
}

proof fn lemma_distinct_remove(es: Seq<(Seq<char>, DocV)>, j: int)
    requires
        distinct_keys(es),
        0 <= j < es.len(),
    ensures
        distinct_keys(es.remove(j)),
{
    assert forall|a: int, b: int|
        0 <= a < b < es.remove(j).len() implies es.remove(j)[a].0 != es.remove(j)[b].0 by {
        let ra = if a < j { a } else { a + 1 };
        let rb = if b < j { b } else { b + 1 };
        assert(es.remove(j)[a] == es[ra]);
        assert(es.remove(j)[b] == es[rb]);
    }
}

/// A successful operation on a well-formed document, carrying well-formed
/// values, yields a well-formed document: in particular every mapping keeps
/// its keys distinct.
pub proof fn lemma_apply_preserves_wf(d: DocV, p: Seq<SegV>, op: OpV)
    requires
        doc_wf(d),
        op_wf(op),
        spec_apply(d, p, op) is Ok,
    ensures
        doc_wf(spec_apply(d, p, op)->Ok_0.0),
    decreases p.len(),
{
    if p.len() == 0 {
        match op {
            OpV::AddMapChild(k, v) => {
                let es = d->Mapping_0;
                lemma_key_index(es, k);
                let es2 = es.push((k, v));
                assert forall|i: int|
                    0 <= i < es2.len() implies doc_wf(#[trigger] es2[i].1) by {
                    if i < es.len() {
                        assert(es2[i] == es[i]);
                    }
                }
                assert(distinct_keys(es2)) by {
                    assert(forall|l: int| 0 <= l < es.len() ==> #[trigger] es2[l] == es[l]);
                }
            },
            OpV::AddSeqValue(v) => {
                let vs = d->Sequence_0;
                assert(forall|i: int|
                    0 <= i < vs.len() ==> #[trigger] vs.push(v)[i] == vs[i]);
            },
            OpV::AddSeqEmptyMap => {
                let vs = d->Sequence_0;
                let e = DocV::Mapping(Seq::empty());
                assert(doc_wf(e));
                assert(forall|i: int|
                    0 <= i < vs.len() ==> #[trigger] vs.push(e)[i] == vs[i]);
            },
            OpV::RemoveKey(k) => {
                let es = d->Mapping_0;
                let j = key_index(es, k);
                if j >= 0 {
                    lemma_key_index(es, k);
                    lemma_distinct_remove(es, j);
                    assert forall|i: int|
                        0 <= i < es.remove(j).len() implies doc_wf(
                        #[trigger] es.remove(j)[i].1,
                    ) by {
                        if i < j {
                            assert(es.remove(j)[i] == es[i]);
                        } else {
                            assert(es.remove(j)[i] == es[i + 1]);
                        }
                    }
                }
            },
            OpV::RemoveIndex(i) => {
                let vs = d->Sequence_0;
                assert forall|l: int|
                    0 <= l < vs.remove(i).len() implies doc_wf(#[trigger] vs.remove(i)[l]) by {
                    if l < i {
                        assert(vs.remove(i)[l] == vs[l]);
                    } else {
                        assert(vs.remove(i)[l] == vs[l + 1]);
                    }
                }
            },
            OpV::RenameKey(old_k, new_k) => {
                let es = d->Mapping_0;
                lemma_key_index(es, old_k);
                lemma_key_index(es, new_k);
                let j = key_index(es, old_k);
                lemma_distinct_remove(es, j);
                let es2 = es.remove(j).push((new_k, es[j].1));
                assert forall|i: int|
                    0 <= i < es2.len() implies doc_wf(#[trigger] es2[i].1) by {
                    if i < es2.len() - 1 {
                        assert(es2[i] == es.remove(j)[i]);
                        if i < j {
                            assert(es.remove(j)[i] == es[i]);
                        } else {
                            assert(es.remove(j)[i] == es[i + 1]);
                        }
                    }
                }
                assert forall|a: int, b: int|
                    0 <= a < b < es2.len() implies es2[a].0 != es2[b].0 by {
                    if b < es2.len() - 1 {
                        assert(es2[a] == es.remove(j)[a] && es2[b] == es.remove(j)[b]);
                    } else {
                        assert(es2[a] == es.remove(j)[a]);
                        if a < j {
                            assert(es.remove(j)[a] == es[a]);
                        } else {
                            assert(es.remove(j)[a] == es[a + 1]);
                        }
                    }
                }
            },
            _ => {},
        }
    } else {
        match d {
            DocV::Mapping(es) => {
                let k = p[0]->Key_0;
                let j = key_index(es, k);
                lemma_key_index(es, k);
                lemma_apply_preserves_wf(es[j].1, p.drop_first(), op);
                let nd = spec_apply(es[j].1, p.drop_first(), op)->Ok_0.0;
                let es2 = es.update(j, (es[j].0, nd));
                assert forall|i: int|
                    0 <= i < es2.len() implies doc_wf(#[trigger] es2[i].1) by {
                    if i != j {
                        assert(es2[i] == es[i]);
                    }
                }
                assert(distinct_keys(es2)) by {
                    assert(forall|l: int| 0 <= l < es.len() ==> es2[l].0 == es[l].0);
                }
            },
            DocV::Sequence(vs) => {
                let i = p[0]->Index_0;
                lemma_apply_preserves_wf(vs[i], p.drop_first(), op);
                let nd = spec_apply(vs[i], p.drop_first(), op)->Ok_0.0;
                assert forall|l: int|
                    0 <= l < vs.len() implies doc_wf(#[trigger] vs.update(i, nd)[l]) by {
                    if l != i {
                        assert(vs.update(i, nd)[l] == vs[l]);
                    }
                }
            },
            _ => {},
        }
    }
}

/// On a well-formed document, deleting a mapping entry leaves its path
/// unresolvable, unconditionally: the distinct-keys assumption of
/// `lemma_delete_node` is discharged by well-formedness.
pub proof fn lemma_delete_node_wf(d: DocV, p: Seq<SegV>)
    requires
        doc_wf(d),
        p.len() > 0,
        p.last() is Key,
        spec_delete(d, p) is Ok,
    ensures
        doc_get(spec_delete(d, p)->Ok_0, p) is None,
{
    let parent = p.drop_last();
    assert(parent.push(p.last()) =~= p);
    lemma_apply_get(d, parent, OpV::RemoveKey(p.last()->Key_0));
    lemma_wf_get(d, parent);
    lemma_delete_node(d, p);
}

/// Every indexed node of a built tree carries the build's base path as a
/// prefix; the node below child `i` carries that child's segment right after
/// it.
pub proof fn lemma_build_paths(d: DocV, base: Seq<SegV>, k: Seq<char>, idx: Seq<int>)
    requires
        node_at(crate::tree::spec_build(d, base, k), idx) is Some,
    ensures
        ({
            let n = node_at(crate::tree::spec_build(d, base, k), idx)->0;
            &&& n.path.len() >= base.len()
            &&& n.path.take(base.len() as int) == base
            &&& (idx.len() == 0 ==> n.path == base)
            &&& (idx.len() > 0 ==> n.path.len() > base.len() && (match d {
                DocV::Mapping(es) => n.path[base.len() as int] == SegV::Key(es[idx[0]].0),
                DocV::Sequence(vs) => n.path[base.len() as int] == SegV::Index(idx[0]),
                _ => false,
            }))
        }),
    decreases idx.len(),
{
    let t = crate::tree::spec_build(d, base, k);
    if idx.len() == 0 {
        assert(t.path == base);
        assert(base.take(base.len() as int) =~= base);
    } else {
        match d {
            DocV::Mapping(es) => {
                let i = idx[0];
                let cb = base.push(SegV::Key(es[i].0));
                assert(t.children[i] == crate::tree::spec_build(es[i].1, cb, es[i].0));
                lemma_build_paths(es[i].1, cb, es[i].0, idx.drop_first());
                let n = node_at(t, idx)->0;
                assert(n == node_at(t.children[i], idx.drop_first())->0);
                assert(n.path.take(cb.len() as int) == cb);
                assert(n.path.take(base.len() as int) =~= base) by {
                    assert(forall|l: int|
                        0 <= l < cb.len() ==> n.path.take(cb.len() as int)[l] == n.path[l]);
                }
                assert(n.path[base.len() as int] == cb[base.len() as int]);
            },
            DocV::Sequence(vs) => {
                let i = idx[0];
                let cb = base.push(SegV::Index(i));
                assert(t.children[i] == crate::tree::spec_build(
                    vs[i],
                    cb,
                    crate::tree::spec_display_key(vs[i]),
                ));
                lemma_build_paths(vs[i], cb, crate::tree::spec_display_key(vs[i]), idx.drop_first());
                let n = node_at(t, idx)->0;
                assert(n == node_at(t.children[i], idx.drop_first())->0);
                assert(n.path.take(cb.len() as int) == cb);
                assert(n.path.take(base.len() as int) =~= base) by {
                    assert(forall|l: int|
                        0 <= l < cb.len() ==> n.path.take(cb.len() as int)[l] == n.path[l]);
                }
                assert(n.path[base.len() as int] == cb[base.len() as int]);
            },
            _ => {
                assert(t.children.len() == 0);
            },
        }
    }
}

/// In a tree built from a well-formed document, two indexed nodes with the
/// same path are the same node: paths are distinct identities.
pub proof fn lemma_build_distinct_paths(
    d: DocV,
    base: Seq<SegV>,
    k: Seq<char>,
    i1: Seq<int>,
    i2: Seq<int>,
)
    requires
        doc_wf(d),
        node_at(crate::tree::spec_build(d, base, k), i1) is Some,
        node_at(crate::tree::spec_build(d, base, k), i2) is Some,
        node_at(crate::tree::spec_build(d, base, k), i1)->0.path == node_at(
            crate::tree::spec_build(d, base, k),
            i2,
        )->0.path,
    ensures
        i1 == i2,
    decreases i1.len(),
{
    let t = crate::tree::spec_build(d, base, k);
    lemma_build_paths(d, base, k, i1);
    lemma_build_paths(d, base, k, i2);
    if i1.len() == 0 && i2.len() == 0 {
        assert(i1 =~= i2);
    } else if i1.len() == 0 || i2.len() == 0 {
        assert(false);
    } else {
        match d {
            DocV::Mapping(es) => {
                assert(es[i1[0]].0 == es[i2[0]].0);
                if i1[0] != i2[0] {
                    assert(distinct_keys(es));
                    assert(false);
                }
                let i = i1[0];
                let cb = base.push(SegV::Key(es[i].0));
                assert(t.children[i] == crate::tree::spec_build(es[i].1, cb, es[i].0));
                assert(doc_wf(es[i].1));
                assert(node_at(t, i1) == node_at(t.children[i], i1.drop_first()));
                assert(node_at(t, i2) == node_at(t.children[i], i2.drop_first()));
                lemma_build_distinct_paths(
                    es[i].1,
                    cb,
                    es[i].0,
                    i1.drop_first(),
                    i2.drop_first(),
                );
                assert(i1.len() == i2.len());
                assert forall|l: int| 0 <= l < i1.len() implies i1[l] == i2[l] by {
                    if l > 0 {
                        assert(i1.drop_first()[l - 1] == i1[l]);
                        assert(i2.drop_first()[l - 1] == i2[l]);
                    }
                }
                assert(i1 =~= i2);
            },
            DocV::Sequence(vs) => {
                assert(i1[0] == i2[0]);
                let i = i1[0];
                let cb = base.push(SegV::Index(i));
                assert(t.children[i] == crate::tree::spec_build(
                    vs[i],
                    cb,
                    crate::tree::spec_display_key(vs[i]),
                ));
                assert(doc_wf(vs[i]));
                assert(node_at(t, i1) == node_at(t.children[i], i1.drop_first()));
                assert(node_at(t, i2) == node_at(t.children[i], i2.drop_first()));
                lemma_build_distinct_paths(
                    vs[i],
                    cb,
                    crate::tree::spec_display_key(vs[i]),
                    i1.drop_first(),
                    i2.drop_first(),
                );
                assert(i1.len() == i2.len());
                assert forall|l: int| 0 <= l < i1.len() implies i1[l] == i2[l] by {
                    if l > 0 {
                        assert(i1.drop_first()[l - 1] == i1[l]);
                        assert(i2.drop_first()[l - 1] == i2[l]);
                    }
                }
                assert(i1 =~= i2);
            },
            _ => {
                assert(false);
            },
        }
    }
}

/// The per-path form of search exclusion: in the tree built from a
/// well-formed document, a non-root node whose subtree holds no match leaves
/// no row with its path, whatever the expand-state.
pub proof fn lemma_search_excludes_path(
    d: DocV,
    k: Seq<char>,
    ex: Set<Seq<char>>,
    q: Seq<char>,
    idx: Seq<int>,
)
    requires
        doc_wf(d),
        idx.len() > 0,
        node_at(crate::tree::spec_build(d, Seq::empty(), k), idx) is Some,
        !subtree_match(node_at(crate::tree::spec_build(d, Seq::empty(), k), idx)->0, q),
    ensures
        !has_row_with_path(
            spec_walk(crate::tree::spec_build(d, Seq::empty(), k), ex, Some(q)),
            node_at(crate::tree::spec_build(d, Seq::empty(), k), idx)->0.path,
        ),
{
    let t = crate::tree::spec_build(d, Seq::empty(), k);
    let n = node_at(t, idx)->0;
    let rows = spec_walk(t, ex, Some(q));
    lemma_build_nonroot(d, Seq::empty(), k);
    lemma_search_exclusion(t, ex, q);
    lemma_build_paths(d, Seq::empty(), k, idx);
    if has_row_with_path(rows, n.path) {
        let j = choose|j: int| 0 <= j < rows.len() && rows[j].path == n.path;
        if t.path.len() == 0 && rows[j] == crate::visible::root_row(t) {
            assert(n.path.len() > 0);
            assert(false);
        } else {
            let idx2 = choose|idx2: Seq<int>|
                node_at(t, idx2) is Some && rows[j] == crate::visible::row_of(
                    node_at(t, idx2)->0,
                ) && subtree_match(node_at(t, idx2)->0, q);
            assert(node_at(t, idx2)->0.path == n.path);
            lemma_build_distinct_paths(d, Seq::empty(), k, idx, idx2);
            assert(false);
        }
    }
}

} // verus!
