//! The visibility engine: flattens the shadow tree into the ordered list of
//! addressable rows, in depth-first pre-order. Without a search query a
//! container's children show only when its dot path is in the expand-state
//! (the root is always expanded); with a query a node shows exactly when its
//! subtree holds a match, so a search never hides its own matches behind a
//! collapsed ancestor.
use vstd::prelude::*;

use crate::path::spec_dot_path;
use crate::path::NodePath;
use crate::path::SegV;
use crate::strset::StrSet;
use crate::strutil::chars_contains;
use crate::strutil::contains_seq;
use crate::strutil::lower_chars;
use crate::strutil::spec_lower;
use crate::strutil::str_chars;
use crate::tree::is_container_type;
use crate::tree::NodeType;
use crate::tree::TreeNode;
use crate::tree::TreeV;

verus! {

#[derive(Debug)]
pub struct VisibleRow {
    pub path: NodePath,
    pub depth: usize,
    pub display_key: String,
    pub display_value_preview: String,
    pub node_type: NodeType,
    pub is_container: bool,
}

/// The mathematical value of one visible row.
pub ghost struct RowV {
    pub path: Seq<SegV>,
    pub depth: int,
    pub key: Seq<char>,
    pub preview: Seq<char>,
    pub node_type: NodeType,
    pub is_container: bool,
}

impl VisibleRow {
    pub open spec fn model(&self) -> RowV {
        RowV {
            path: self.path.model(),
            depth: self.depth as int,
            key: self.display_key@,
            preview: self.display_value_preview@,
            node_type: self.node_type,
            is_container: self.is_container,
        }
    }
}

pub open spec fn empty_rowv() -> RowV {
    RowV {
        path: Seq::empty(),
        depth: 0,
        key: Seq::empty(),
        preview: Seq::empty(),
        node_type: NodeType::Unknown,
        is_container: false,
    }
}

/// The row sequence a row vector stands for.
pub open spec fn rows_model(rs: Seq<VisibleRow>) -> Seq<RowV> {
    Seq::new(
        rs.len(),
        |i: int|
            if 0 <= i < rs.len() {
                rs[i].model()
            } else {
                empty_rowv()
            },
    )
}

/// A node matches a lowercased query when its dot path or its display key
/// contains it, case-insensitively (ASCII case folding).
pub open spec fn spec_matches(t: TreeV, q: Seq<char>) -> bool {
    contains_seq(spec_lower(spec_dot_path(t.path)), q) || contains_seq(spec_lower(t.key), q)
}

/// The node or some descendant matches the lowercased query.
pub open spec fn subtree_match(t: TreeV, q: Seq<char>) -> bool
    decreases t,
{
    spec_matches(t, q) || exists|i: int|
        0 <= i < t.children.len() && subtree_match(t.children[i], q)
}

/// The row a non-root node contributes; its depth is the path's length.
pub open spec fn row_of(t: TreeV) -> RowV {
    RowV {
        path: t.path,
        depth: t.path.len() as int,
        key: t.key,
        preview: t.preview,
        node_type: t.node_type,
        is_container: is_container_type(t.node_type),
    }
}

/// The row the root contributes when it is a container: a fixed label, so an
/// empty document is still addressable.
pub open spec fn root_row(t: TreeV) -> RowV {
    RowV {
        path: t.path,
        depth: 0,
        key: "(root)"@,
        preview: Seq::empty(),
        node_type: t.node_type,
        is_container: true,
    }
}

/// The rows of one node in depth-first pre-order. Without a query, descent
/// needs the node to be the root or its dot path to be expanded; with a
/// query, descent and the row itself need a match in the subtree.
pub open spec fn spec_walk(t: TreeV, ex: Set<Seq<char>>, q: Option<Seq<char>>) -> Seq<RowV>
    decreases t, 1int,
{
    let own = if t.path.len() == 0 {
        if is_container_type(t.node_type) {
            seq![root_row(t)]
        } else {
            Seq::<RowV>::empty()
        }
    } else {
        match q {
            Some(qq) => if subtree_match(t, qq) {
                seq![row_of(t)]
            } else {
                Seq::<RowV>::empty()
            },
            None => seq![row_of(t)],
        }
    };
    let expand = match q {
        Some(qq) => t.path.len() == 0 || subtree_match(t, qq),
        None => t.path.len() == 0 || ex.contains(spec_dot_path(t.path)),
    };
    if expand {
        own + spec_walk_children(t.children, ex, q)
    } else {
        own
    }
}

pub open spec fn spec_walk_children(ts: Seq<TreeV>, ex: Set<Seq<char>>, q: Option<Seq<char>>) -> Seq<
    RowV,
>
    decreases ts, 0int,
{
    if ts.len() == 0 {
        Seq::empty()
    } else {
        spec_walk_children(ts.drop_last(), ex, q) + spec_walk(ts.last(), ex, q)
    }
}

/// The visible rows of a tree under an expand-state and an optional query;
/// the query is folded to lower case once.
pub open spec fn spec_flatten(t: TreeV, ex: Set<Seq<char>>, filter: Option<Seq<char>>) -> Seq<
    RowV,
> {
    spec_walk(
        t,
        ex,
        match filter {
            Some(f) => Some(spec_lower(f)),
            None => None,
        },
    )
}

fn node_matches_q(node: &TreeNode, q: &Vec<char>) -> (r: bool)
    ensures
        r == spec_matches(node.model(), q@),
{
    let dot = node.path.dot_path();
    let dc = str_chars(dot.as_str());
    let dl = lower_chars(&dc);
    if chars_contains(&dl, q) {
        return true;
    }
    let kc = str_chars(node.key.as_str());
    let kl = lower_chars(&kc);
    chars_contains(&kl, q)
}

fn subtree_matches(node: &TreeNode, q: &Vec<char>) -> (r: bool)
    ensures
        r == subtree_match(node.model(), q@),
    decreases *node,
{
    if node_matches_q(node, q) {
        return true;
    }
    let ghost kids = node.model().children;
    let mut i: usize = 0;
    while i < node.children.len()
        invariant
            i <= node.children@.len(),
            kids == crate::tree::kids_model(node.children@),
            kids.len() == node.children@.len(),
            forall|k: int| 0 <= k < i ==> !subtree_match(kids[k], q@),
            !spec_matches(node.model(), q@),
        decreases node.children@.len() - i,
    {
        proof {
            assert(kids[i as int] == node.children@[i as int].model());
        }
        if subtree_matches(&node.children[i], q) {
            proof {
                assert(subtree_match(node.model(), q@)) by {
                    assert(0 <= (i as int) < node.model().children.len() && subtree_match(
                        node.model().children[i as int],
                        q@,
                    ));
                }
            }
            return true;
        }
        i = i + 1;
    }
    false
}

#[verifier::loop_isolation(false)]
fn walk_visible(
    node: &TreeNode,
    expanded: &StrSet,
    query: &Option<Vec<char>>,
    rows: &mut Vec<VisibleRow>,
)
    ensures
        rows_model(final (rows)@) == rows_model(old(rows)@) + spec_walk(
            node.model(),
            expanded.model(),
            qmodel(*query),
        ),
    decreases *node,
{
    let ghost t = node.model();
    let ghost base = rows_model(rows@);
    let is_root = node.path.0.len() == 0;
    let nt = node.node_type;
    let is_cont = match nt {
        NodeType::Mapping => true,
        NodeType::Sequence => true,
        _ => false,
    };
    let mut expand: bool;
    if is_root {
        if is_cont {
            let row = VisibleRow {
                path: node.path.clone(),
                depth: 0,
                display_key: "(root)".to_owned(),
                display_value_preview: String::new(),
                node_type: nt,
                is_container: true,
            };
            rows.push(row);
        }
        expand = true;
        proof {
            assert(t.path.len() == 0);
            if is_cont {
                assert(rows_model(rows@) =~= base + seq![root_row(t)]);
            } else {
                assert(rows_model(rows@) =~= base + Seq::<RowV>::empty());
            }
        }
    } else {
        let show: bool;
        match query {
            Some(q) => {
                show = subtree_matches(node, q);
                expand = show;
            },
            None => {
                show = true;
                let dot = node.path.dot_path();
                expand = expanded.contains(dot.as_str());
            },
        }
        if show {
            let row = VisibleRow {
                path: node.path.clone(),
                depth: node.path.0.len(),
                display_key: node.key.clone(),
                display_value_preview: node.value_preview.clone(),
                node_type: nt,
                is_container: is_cont,
            };
            proof {
                assert(t.path.len() == node.path.0@.len());
                assert(row.model() == row_of(t));
            }
            rows.push(row);
            proof {
                assert(rows_model(rows@) =~= base + seq![row_of(t)]);
            }
        } else {
            proof {
                assert(rows_model(rows@) =~= base + Seq::<RowV>::empty());
            }
        }
    }
    let ghost after_own = rows_model(rows@);
    if expand {
        let ghost kids = t.children;
        let mut i: usize = 0;
        while i < node.children.len()
            invariant
                i <= node.children@.len(),
                kids == crate::tree::kids_model(node.children@),
                kids.len() == node.children@.len(),
                rows_model(rows@) == after_own + spec_walk_children(
                    kids.take(i as int),
                    expanded.model(),
                    qmodel(*query),
                ),
            decreases node.children@.len() - i,
        {
            proof {
                assert(kids[i as int] == node.children@[i as int].model());
            }
            walk_visible(&node.children[i], expanded, query, rows);
            proof {
                assert(kids.take(i + 1 as int).drop_last() =~= kids.take(i as int));
                assert(kids.take(i + 1 as int).last() == kids[i as int]);
                assert(rows_model(rows@) =~= after_own + spec_walk_children(
                    kids.take(i + 1 as int),
                    expanded.model(),
                    qmodel(*query),
                ));
            }
            i = i + 1;
        }
        proof {
            assert(kids.take(kids.len() as int) =~= kids);
            assert(rows_model(rows@) =~= base + spec_walk(
                t,
                expanded.model(),
                qmodel(*query),
            ));
        }
    } else {
        proof {
            assert(rows_model(rows@) =~= base + spec_walk(t, expanded.model(), qmodel(*query)));
        }
    }
}

/// The lowercased-query model of an optional query.
pub open spec fn qmodel(q: Option<Vec<char>>) -> Option<Seq<char>> {
    match q {
        Some(v) => Some(v@),
        None => None,
    }
}

/// Flattens the shadow tree into the ordered visible-row list under the
/// expand-state and the optional search query.
pub fn flatten_visible(node: &TreeNode, expanded: &StrSet, filter: Option<&str>) -> (r: Vec<
    VisibleRow,
>)
    ensures
        rows_model(r@) == spec_flatten(
            node.model(),
            expanded.model(),
            match filter {
                Some(f) => Some(f@),
                None => None,
            },
        ),
{
    let q: Option<Vec<char>> = match filter {
        Some(f) => {
            let cs = str_chars(f);
            Some(lower_chars(&cs))
        },
        None => None,
    };
    let mut rows: Vec<VisibleRow> = Vec::new();
    proof {
        assert(rows_model(rows@) =~= Seq::<RowV>::empty());
    }
    walk_visible(node, expanded, &q, &mut rows);
    proof {
        assert(Seq::<RowV>::empty() + spec_walk(node.model(), expanded.model(), qmodel(q))
            =~= spec_walk(node.model(), expanded.model(), qmodel(q)));
    }
    rows
}

/// The first row whose path equals the given path, if any: the re-resolution
/// step that keeps selection stable across rebuilds.
pub fn visible_row_by_path(rows: &Vec<VisibleRow>, path: &NodePath) -> (r: Option<usize>)
    ensures
        match r {
            Some(i) => i < rows@.len() && rows@[i as int].model().path == path.model() && (forall|
                k: int,
            |
                0 <= k < i ==> rows@[k].model().path != path.model()),
            None => forall|k: int|
                0 <= k < rows@.len() ==> rows@[k].model().path != path.model(),
        },
{
    let mut i: usize = 0;
    while i < rows.len()
        invariant
            i <= rows@.len(),
            forall|k: int| 0 <= k < i ==> rows@[k].model().path != path.model(),
        decreases rows@.len() - i,
    {
        if crate::path::path_eq(&rows[i].path, path) {
            return Some(i);
        }
        i = i + 1;
    }
    None
}

} // verus!
