//! The shadow tree: a read-only view derived in full from the document value
//! after every mutation, annotating each node with its path, display key,
//! kind and scalar preview. It is a pure function of the document value,
//! which keeps every consumer consistent by construction.
use vstd::prelude::*;

use crate::doc::DocV;
use crate::doc::DocValue;
use crate::doc::YamlModel;
use crate::path::NodePath;
use crate::path::SegV;
use crate::scalar::spec_escape;
use crate::strutil::append_chars;
use crate::strutil::chars_string;
use crate::strutil::i64_dec_chars;
use crate::strutil::push_char;
use crate::strutil::spec_dec_i64;
use crate::strutil::str_chars;

verus! {

#[derive(Debug, Clone, Copy, PartialEq, Eq)]
pub enum NodeType {
    Mapping,
    Sequence,
    String,
    Number,
    Bool,
    Null,
    Unknown,
}

impl NodeType {
    /// The short label of this kind, as shown in the status line.
    pub fn label(&self) -> (r: &'static str)
        ensures
            r@ == self.spec_label(),
    {
        match self {
            NodeType::Mapping => "map",
            NodeType::Sequence => "seq",
            NodeType::String => "string",
            NodeType::Number => "number",
            NodeType::Bool => "bool",
            NodeType::Null => "null",
            NodeType::Unknown => "unknown",
        }
    }

    pub open spec fn spec_label(&self) -> Seq<char> {
        match self {
            NodeType::Mapping => "map"@,
            NodeType::Sequence => "seq"@,
            NodeType::String => "string"@,
            NodeType::Number => "number"@,
            NodeType::Bool => "bool"@,
            NodeType::Null => "null"@,
            NodeType::Unknown => "unknown"@,
        }
    }
}

/// A container kind: a mapping or a sequence.
pub open spec fn is_container_type(t: NodeType) -> bool {
    t == NodeType::Mapping || t == NodeType::Sequence
}

/// The kind of a document node.
pub open spec fn spec_node_type(d: DocV) -> NodeType {
    match d {
        DocV::Mapping(_) => NodeType::Mapping,
        DocV::Sequence(_) => NodeType::Sequence,
        DocV::String(_) => NodeType::String,
        DocV::Integer(_) => NodeType::Number,
        DocV::Real(_) => NodeType::Number,
        DocV::Boolean(_) => NodeType::Bool,
        DocV::Null => NodeType::Null,
    }
}

pub fn yaml_node_type(node: &DocValue) -> (r: NodeType)
    ensures
        r == spec_node_type(node.model()),
{
    match node {
        DocValue::Mapping(_) => NodeType::Mapping,
        DocValue::Sequence(_) => NodeType::Sequence,
        DocValue::String(_) => NodeType::String,
        DocValue::Integer(_) => NodeType::Number,
        DocValue::Real(_) => NodeType::Number,
        DocValue::Boolean(_) => NodeType::Bool,
        DocValue::Null => NodeType::Null,
    }
}

/// The one-line preview of a scalar: strings are quoted with escapes,
/// numbers and booleans render in their textual form, null as `null`, and
/// containers have an empty preview.
pub open spec fn spec_preview(d: DocV) -> Seq<char> {
    match d {
        DocV::String(s) => seq!['"'] + spec_escape(s) + seq!['"'],
        DocV::Integer(n) => spec_dec_i64(n),
        DocV::Real(r) => r,
        DocV::Boolean(b) => if b {
            "true"@
        } else {
            "false"@
        },
        DocV::Null => "null"@,
        _ => Seq::empty(),
    }
}

pub fn scalar_preview(node: &DocValue) -> (r: String)
    ensures
        r@ == spec_preview(node.model()),
{
    match node {
        DocValue::String(s) => {
            let mut out = String::new();
            push_char(&mut out, '"');
            let cs = str_chars(s.as_str());
            let es = crate::scalar::escape_chars(&cs);
            append_chars(&mut out, &es);
            push_char(&mut out, '"');
            proof {
                assert(out@ =~= seq!['"'] + spec_escape(s@) + seq!['"']);
            }
            out
        },
        DocValue::Integer(n) => {
            let cs = i64_dec_chars(*n);
            chars_string(&cs)
        },
        DocValue::Real(r) => r.clone(),
        DocValue::Boolean(b) => {
            if *b {
                "true".to_owned()
            } else {
                "false".to_owned()
            }
        },
        DocValue::Null => "null".to_owned(),
        DocValue::Mapping(_) => String::new(),
        DocValue::Sequence(_) => String::new(),
    }
}

/// The preview truncated for use as a display label.
pub open spec fn spec_truncated_preview(d: DocV) -> Seq<char> {
    let p = spec_preview(d);
    if p.len() > 40 {
        p.take(39).push('\u{2026}')
    } else {
        p
    }
}

/// The display label of a sequence element: a mapping shows its first key
/// (`{}` when empty), a sequence defers to its first element (`[]` when
/// empty), and a scalar shows its truncated preview.
pub open spec fn spec_display_key(d: DocV) -> Seq<char>
    decreases d,
{
    match d {
        DocV::Mapping(es) => if es.len() > 0 {
            es[0].0
        } else {
            "{}"@
        },
        DocV::Sequence(vs) => if vs.len() > 0 {
            spec_display_key(vs[0])
        } else {
            "[]"@
        },
        _ => spec_truncated_preview(d),
    }
}

pub fn display_key_for_value(node: &DocValue) -> (r: String)
    ensures
        r@ == spec_display_key(node.model()),
    decreases *node,
{
    match node {
        DocValue::Mapping(es) => {
            if es.len() > 0 {
                proof {
                    assert(node.model()->Mapping_0[0].0 == es@[0].0@);
                }
                es[0].0.clone()
            } else {
                "{}".to_owned()
            }
        },
        DocValue::Sequence(vs) => {
            if vs.len() > 0 {
                proof {
                    assert(node.model()->Sequence_0[0] == vs@[0].model());
                }
                display_key_for_value(&vs[0])
            } else {
                "[]".to_owned()
            }
        },
        _ => {
            let p = scalar_preview(node);
            let cs = str_chars(p.as_str());
            if cs.len() > 40 {
                let mut t: Vec<char> = Vec::new();
                let mut i: usize = 0;
                while i < 39
                    invariant
                        i <= 39,
                        cs@.len() > 40,
                        t@ == cs@.take(i as int),
                    decreases 39 - i,
                {
                    t.push(cs[i]);
                    proof {
                        assert(t@ =~= cs@.take(i + 1 as int));
                    }
                    i = i + 1;
                }
                t.push('\u{2026}');
                proof {
                    assert(t@ =~= cs@.take(39).push('\u{2026}'));
                }
                chars_string(&t)
            } else {
                p
            }
        },
    }
}

#[derive(Debug)]
pub struct TreeNode {
    pub path: NodePath,
    pub key: String,
    pub node_type: NodeType,
    pub value_preview: String,
    pub children: Vec<TreeNode>,
}

/// The mathematical value of a shadow tree node.
pub ghost struct TreeV {
    pub path: Seq<SegV>,
    pub key: Seq<char>,
    pub node_type: NodeType,
    pub preview: Seq<char>,
    pub children: Seq<TreeV>,
}

pub open spec fn view_tree(t: TreeNode) -> TreeV
    decreases t,
{
    TreeV {
        path: t.path.model(),
        key: t.key@,
        node_type: t.node_type,
        preview: t.value_preview@,
        children: kids_model(t.children@),
    }
}

pub open spec fn kids_model(ts: Seq<TreeNode>) -> Seq<TreeV>
    decreases ts,
{
    Seq::new(
        ts.len(),
        |i: int|
            if 0 <= i < ts.len() {
                view_tree(ts[i])
            } else {
                empty_treev()
            },
    )
}

pub open spec fn empty_treev() -> TreeV {
    TreeV {
        path: Seq::empty(),
        key: Seq::empty(),
        node_type: NodeType::Unknown,
        preview: Seq::empty(),
        children: Seq::empty(),
    }
}

impl TreeNode {
    pub open spec fn model(&self) -> TreeV {
        view_tree(*self)
    }
}

/// The shadow tree of a document node at a path, with a given display key.
pub open spec fn spec_build(d: DocV, path: Seq<SegV>, key: Seq<char>) -> TreeV
    decreases d,
{
    match d {
        DocV::Mapping(es) => TreeV {
            path,
            key,
            node_type: NodeType::Mapping,
            preview: Seq::empty(),
            children: build_map_children(es, path),
        },
        DocV::Sequence(vs) => TreeV {
            path,
            key,
            node_type: NodeType::Sequence,
            preview: Seq::empty(),
            children: build_seq_children(vs, path),
        },
        _ => TreeV {
            path,
            key,
            node_type: spec_node_type(d),
            preview: spec_preview(d),
            children: Seq::empty(),
        },
    }
}

pub open spec fn build_map_children(es: Seq<(Seq<char>, DocV)>, path: Seq<SegV>) -> Seq<TreeV>
    decreases es,
{
    Seq::new(
        es.len(),
        |i: int|
            if 0 <= i < es.len() {
                spec_build(es[i].1, path.push(SegV::Key(es[i].0)), es[i].0)
            } else {
                empty_treev()
            },
    )
}

pub open spec fn build_seq_children(vs: Seq<DocV>, path: Seq<SegV>) -> Seq<TreeV>
    decreases vs,
{
    Seq::new(
        vs.len(),
        |i: int|
            if 0 <= i < vs.len() {
                spec_build(vs[i], path.push(SegV::Index(i)), spec_display_key(vs[i]))
            } else {
                empty_treev()
            },
    )
}

/// Builds the shadow tree node of a document node: a full recursive rebuild,
/// total over every document value.
#[verifier::loop_isolation(false)]
pub fn build_tree_node(path: &NodePath, key: String, node: &DocValue) -> (r: TreeNode)
    ensures
        r.model() == spec_build(node.model(), path.model(), key@),
    decreases *node,
{
    let ghost gk = key@;
    match node {
        DocValue::Mapping(es) => {
            let ghost em = node.model()->Mapping_0;
            let mut children: Vec<TreeNode> = Vec::new();
            let mut i: usize = 0;
            while i < es.len()
                invariant
                    i <= es@.len(),
                    em == crate::doc::entries_model(es@),
                    em.len() == es@.len(),
                    kids_model(children@) == build_map_children(em, path.model()).take(i as int),
                    children@.len() == i,
                decreases es@.len() - i,
            {
                proof {
                    assert(em[i as int] == (es@[i as int].0@, es@[i as int].1.model()));
                }
                let key_str = es[i].0.clone();
                let child_path = path.child_key(key_str.as_str());
                let child = build_tree_node(&child_path, key_str, &es[i].1);
                children.push(child);
                proof {
                    assert(kids_model(children@) =~= build_map_children(em, path.model()).take(
                        i + 1 as int,
                    ));
                }
                i = i + 1;
            }
            proof {
                assert(build_map_children(em, path.model()).take(es@.len() as int)
                    =~= build_map_children(em, path.model()));
            }
            let r = TreeNode {
                path: path.clone(),
                key,
                node_type: NodeType::Mapping,
                value_preview: String::new(),
                children,
            };
            proof {
                assert(r.model().path == path.model());
                assert(r.model().key == gk);
                assert(r.model().preview =~= Seq::<char>::empty());
                assert(r.model().children == spec_build(node.model(), path.model(), gk).children);
                assert(r.model() == spec_build(node.model(), path.model(), gk));
            }
            r
        },
        DocValue::Sequence(vs) => {
            let ghost vm = node.model()->Sequence_0;
            let mut children: Vec<TreeNode> = Vec::new();
            let mut i: usize = 0;
            while i < vs.len()
                invariant
                    i <= vs@.len(),
                    vm == crate::doc::items_model(vs@),
                    vm.len() == vs@.len(),
                    kids_model(children@) == build_seq_children(vm, path.model()).take(i as int),
                    children@.len() == i,
                decreases vs@.len() - i,
            {
                proof {
                    assert(vm[i as int] == vs@[i as int].model());
                }
                let child_path = path.child_index(i);
                let display_key = display_key_for_value(&vs[i]);
                let child = build_tree_node(&child_path, display_key, &vs[i]);
                children.push(child);
                proof {
                    assert(kids_model(children@) =~= build_seq_children(vm, path.model()).take(
                        i + 1 as int,
                    ));
                }
                i = i + 1;
            }
            proof {
                assert(build_seq_children(vm, path.model()).take(vs@.len() as int)
                    =~= build_seq_children(vm, path.model()));
            }
            let r = TreeNode {
                path: path.clone(),
                key,
                node_type: NodeType::Sequence,
                value_preview: String::new(),
                children,
            };
            proof {
                assert(r.model().preview =~= Seq::<char>::empty());
                assert(r.model() == spec_build(node.model(), path.model(), gk));
            }
            r
        },
        _ => {
            let nt = yaml_node_type(node);
            let pv = scalar_preview(node);
            let r = TreeNode {
                path: path.clone(),
                key,
                node_type: nt,
                value_preview: pv,
                children: Vec::new(),
            };
            proof {
                assert(r.model().children =~= Seq::<TreeV>::empty());
            }
            r
        },
    }
}

impl YamlModel {
    /// The shadow tree of the whole document: a full rebuild, never failing.
    pub fn build_tree(&self) -> (r: TreeNode)
        ensures
            r.model() == spec_build(self.model(), Seq::empty(), Seq::empty()),
    {
        let root_path = NodePath::root();
        build_tree_node(&root_path, String::new(), self.root())
    }
}

} // verus!
