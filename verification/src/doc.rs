//! The document tree model: a recursive value of mappings (ordered by
//! insertion, string keys), sequences and scalars, owned by `YamlModel`,
//! together with the path-addressed mutation operations. Every mutation
//! validates before it writes: on failure the value is unchanged.
//!
//! The on-disk syntax is an opaque parser/emitter boundary (yaml-rust2);
//! only the logical value tree is modelled.
use vstd::prelude::*;

use crate::errors::ModelError;
use crate::path::segs_model;
use crate::path::NodePath;
use crate::path::PathSegment;
use crate::path::SegV;
use crate::scalar::ScalV;
use crate::scalar::ScalarNumber;
use crate::scalar::ScalarValue;
use crate::strutil::string_eq;

verus! {

#[derive(Debug, PartialEq)]
pub enum DocValue {
    Mapping(Vec<(String, DocValue)>),
    Sequence(Vec<DocValue>),
    String(String),
    Integer(i64),
    Real(String),
    Boolean(bool),
    Null,
}

/// The mathematical value of a document tree.
pub ghost enum DocV {
    Mapping(Seq<(Seq<char>, DocV)>),
    Sequence(Seq<DocV>),
    String(Seq<char>),
    Integer(int),
    Real(Seq<char>),
    Boolean(bool),
    Null,
}

pub open spec fn view_doc(d: DocValue) -> DocV
    decreases d,
{
    match d {
        DocValue::Mapping(es) => DocV::Mapping(entries_model(es@)),
        DocValue::Sequence(vs) => DocV::Sequence(items_model(vs@)),
        DocValue::String(s) => DocV::String(s@),
        DocValue::Integer(n) => DocV::Integer(n as int),
        DocValue::Real(r) => DocV::Real(r@),
        DocValue::Boolean(b) => DocV::Boolean(b),
        DocValue::Null => DocV::Null,
    }
}

pub open spec fn entries_model(es: Seq<(String, DocValue)>) -> Seq<(Seq<char>, DocV)>
    decreases es,
{
    Seq::new(
        es.len(),
        |i: int|
            if 0 <= i < es.len() {
                (es[i].0@, view_doc(es[i].1))
            } else {
                (Seq::empty(), DocV::Null)
            },
    )
}

pub open spec fn items_model(vs: Seq<DocValue>) -> Seq<DocV>
    decreases vs,
{
    Seq::new(
        vs.len(),
        |i: int|
            if 0 <= i < vs.len() {
                view_doc(vs[i])
            } else {
                DocV::Null
            },
    )
}

impl DocValue {
    pub open spec fn model(&self) -> DocV {
        view_doc(*self)
    }
}

/// The index of the first entry with the given key, or `-1`.
pub open spec fn key_index(es: Seq<(Seq<char>, DocV)>, k: Seq<char>) -> int
    decreases es.len(),
{
    if es.len() == 0 {
        -1
    } else if es[0].0 == k {
        0
    } else {
        let r = key_index(es.drop_first(), k);
        if r < 0 {
            -1
        } else {
            r + 1
        }
    }
}

/// The key exists among the entries.
pub open spec fn has_key(es: Seq<(Seq<char>, DocV)>, k: Seq<char>) -> bool {
    key_index(es, k) >= 0
}

pub proof fn lemma_key_index(es: Seq<(Seq<char>, DocV)>, k: Seq<char>)
    ensures
        key_index(es, k) == -1 ==> forall|l: int| 0 <= l < es.len() ==> es[l].0 != k,
        key_index(es, k) >= 0 ==> 0 <= key_index(es, k) < es.len() && es[key_index(es, k)].0 == k
            && forall|l: int| 0 <= l < key_index(es, k) ==> es[l].0 != k,
    decreases es.len(),
{
    if es.len() > 0 && es[0].0 != k {
        lemma_key_index(es.drop_first(), k);
        if key_index(es, k) == -1 {
            assert forall|l: int| 0 <= l < es.len() implies es[l].0 != k by {
                if l > 0 {
                    assert(es.drop_first()[l - 1] == es[l]);
                }
            }
        } else {
            let j = key_index(es, k);
            assert(es.drop_first()[j - 1] == es[j]);
            assert forall|l: int| 0 <= l < j implies es[l].0 != k by {
                if l > 0 {
                    assert(es.drop_first()[l - 1] == es[l]);
                }
            }
        }
    }
}

pub proof fn lemma_key_index_at(es: Seq<(Seq<char>, DocV)>, k: Seq<char>, j: int)
    requires
        0 <= j <= es.len(),
        forall|l: int| 0 <= l < j ==> es[l].0 != k,
        j < es.len() ==> es[j].0 == k,
    ensures
        key_index(es, k) == if j < es.len() {
            j
        } else {
            -1int
        },
    decreases j,
{
    if j == 0 {
    } else {
        assert(forall|l: int| 0 <= l < es.len() - 1 ==> es.drop_first()[l] == es[l + 1]);
        lemma_key_index_at(es.drop_first(), k, j - 1);
    }
}

/// One mutation operation, applied at the node a path resolves to.
pub enum DocOp {
    /// Replace the node with a value.
    SetValue(DocValue),
    /// Insert a new key into a mapping, at the end of its order.
    AddMapChild(String, DocValue),
    /// Append a value to a sequence.
    AddSeqValue(DocValue),
    /// Append an empty mapping to a sequence; yields the new index.
    AddSeqEmptyMap,
    /// Replace the node with an empty mapping.
    ConvertEmptyMap,
    /// Remove a key from a mapping; absent keys are silently kept absent.
    RemoveKey(String),
    /// Remove a sequence element; later elements shift down by one.
    RemoveIndex(usize),
    /// Remove a key and re-insert its value under a new name, at the end of
    /// the mapping's order.
    RenameKey(String, String),
}

/// The mathematical value of a mutation operation.
pub ghost enum OpV {
    SetValue(DocV),
    AddMapChild(Seq<char>, DocV),
    AddSeqValue(DocV),
    AddSeqEmptyMap,
    ConvertEmptyMap,
    RemoveKey(Seq<char>),
    RemoveIndex(int),
    RenameKey(Seq<char>, Seq<char>),
}

impl DocOp {
    pub open spec fn model(&self) -> OpV {
        match self {
            DocOp::SetValue(v) => OpV::SetValue(v.model()),
            DocOp::AddMapChild(k, v) => OpV::AddMapChild(k@, v.model()),
            DocOp::AddSeqValue(v) => OpV::AddSeqValue(v.model()),
            DocOp::AddSeqEmptyMap => OpV::AddSeqEmptyMap,
            DocOp::ConvertEmptyMap => OpV::ConvertEmptyMap,
            DocOp::RemoveKey(k) => OpV::RemoveKey(k@),
            DocOp::RemoveIndex(i) => OpV::RemoveIndex(*i as int),
            DocOp::RenameKey(a, b) => OpV::RenameKey(a@, b@),
        }
    }
}

/// What one operation does to the node it addresses. The index in the result
/// is the position of a newly appended element, where the operation creates
/// one.
pub open spec fn apply_local(d: DocV, op: OpV) -> Result<(DocV, Option<int>), ModelError> {
    match op {
        OpV::SetValue(v) => Ok((v, Option::<int>::None)),
        OpV::AddMapChild(k, v) => match d {
            DocV::Mapping(es) => if has_key(es, k) {
                Err(ModelError::DuplicateKey)
            } else {
                Ok((DocV::Mapping(es.push((k, v))), Option::<int>::None))
            },
            _ => Err(ModelError::InvalidTarget),
        },
        OpV::AddSeqValue(v) => match d {
            DocV::Sequence(vs) => Ok((DocV::Sequence(vs.push(v)), Option::<int>::None)),
            _ => Err(ModelError::InvalidTarget),
        },
        OpV::AddSeqEmptyMap => match d {
            DocV::Sequence(vs) => Ok(
                (
                    DocV::Sequence(vs.push(DocV::Mapping(Seq::empty()))),
                    Some(vs.len() as int),
                ),
            ),
            _ => Err(ModelError::InvalidTarget),
        },
        OpV::ConvertEmptyMap => Ok((DocV::Mapping(Seq::empty()), Option::<int>::None)),
        OpV::RemoveKey(k) => match d {
            DocV::Mapping(es) => {
                let j = key_index(es, k);
                if j >= 0 {
                    Ok((DocV::Mapping(es.remove(j)), Option::<int>::None))
                } else {
                    Ok((DocV::Mapping(es), Option::<int>::None))
                }
            },
            _ => Err(ModelError::InvalidTarget),
        },
        OpV::RemoveIndex(i) => match d {
            DocV::Sequence(vs) => if 0 <= i < vs.len() {
                Ok((DocV::Sequence(vs.remove(i)), Option::<int>::None))
            } else {
                Err(ModelError::NotFound)
            },
            _ => Err(ModelError::InvalidTarget),
        },
        OpV::RenameKey(old_k, new_k) => match d {
            DocV::Mapping(es) => if has_key(es, new_k) {
                Err(ModelError::DuplicateKey)
            } else {
                let j = key_index(es, old_k);
                if j >= 0 {
                    Ok((DocV::Mapping(es.remove(j).push((new_k, es[j].1))), Option::<int>::None))
                } else {
                    Err(ModelError::NotFound)
                }
            },
            _ => Err(ModelError::InvalidTarget),
        },
    }
}

/// Resolves the path from the node and applies the operation at its target;
/// any resolution failure is `NotFound` and leaves the value as it was.
pub open spec fn spec_apply(d: DocV, p: Seq<SegV>, op: OpV) -> Result<
    (DocV, Option<int>),
    ModelError,
>
    decreases p.len(),
{
    if p.len() == 0 {
        apply_local(d, op)
    } else {
        match d {
            DocV::Mapping(es) => match p[0] {
                SegV::Key(k) => {
                    let j = key_index(es, k);
                    if j >= 0 {
                        match spec_apply(es[j].1, p.drop_first(), op) {
                            Ok(pr) => Ok(
                                (DocV::Mapping(es.update(j, (es[j].0, pr.0))), pr.1),
                            ),
                            Err(e) => Err(e),
                        }
                    } else {
                        Err(ModelError::NotFound)
                    }
                },
                _ => Err(ModelError::NotFound),
            },
            DocV::Sequence(vs) => match p[0] {
                SegV::Index(i) => if 0 <= i < vs.len() {
                    match spec_apply(vs[i], p.drop_first(), op) {
                        Ok(pr) => Ok((DocV::Sequence(vs.update(i, pr.0)), pr.1)),
                        Err(e) => Err(e),
                    }
                } else {
                    Err(ModelError::NotFound)
                },
                _ => Err(ModelError::NotFound),
            },
            _ => Err(ModelError::NotFound),
        }
    }
}

/// The node a path resolves to, if any.
pub open spec fn doc_get(d: DocV, p: Seq<SegV>) -> Option<DocV>
    decreases p.len(),
{
    if p.len() == 0 {
        Some(d)
    } else {
        match d {
            DocV::Mapping(es) => match p[0] {
                SegV::Key(k) => {
                    let j = key_index(es, k);
                    if j >= 0 {
                        doc_get(es[j].1, p.drop_first())
                    } else {
                        Option::<DocV>::None
                    }
                },
                _ => Option::<DocV>::None,
            },
            DocV::Sequence(vs) => match p[0] {
                SegV::Index(i) => if 0 <= i < vs.len() {
                    doc_get(vs[i], p.drop_first())
                } else {
                    Option::<DocV>::None
                },
                _ => Option::<DocV>::None,
            },
            _ => Option::<DocV>::None,
        }
    }
}

proof fn lemma_remove_insert<T>(s: Seq<T>, j: int, x: T)
    requires
        0 <= j < s.len(),
    ensures
        s.remove(j).insert(j, x) =~= s.update(j, x),
{
}

/// A created element's index comes back exactly from the one operation that
/// creates an element.
pub proof fn lemma_apply_idx(d: DocV, p: Seq<SegV>, op: OpV)
    ensures
        spec_apply(d, p, op) matches Ok(pr) ==> (pr.1 is Some <==> op is AddSeqEmptyMap),
    decreases p.len(),
{
    if p.len() == 0 {
    } else {
        match d {
            DocV::Mapping(es) => {
                if p[0] is Key {
                    let j = key_index(es, p[0]->Key_0);
                    if j >= 0 {
                        lemma_apply_idx(es[j].1, p.drop_first(), op);
                    }
                }
            },
            DocV::Sequence(vs) => {
                if p[0] is Index {
                    let i = p[0]->Index_0;
                    if 0 <= i < vs.len() {
                        lemma_apply_idx(vs[i], p.drop_first(), op);
                    }
                }
            },
            _ => {},
        }
    }
}

fn find_key(es: &Vec<(String, DocValue)>, k: &str) -> (r: Option<usize>)
    ensures
        match r {
            Some(j) => j < es@.len() && key_index(entries_model(es@), k@) == j as int,
            None => key_index(entries_model(es@), k@) == -1,
        },
{
    let ghost em = entries_model(es@);
    let mut l: usize = 0;
    while l < es.len()
        invariant
            l <= es@.len(),
            em == entries_model(es@),
            em.len() == es@.len(),
            forall|x: int| 0 <= x < l ==> em[x].0 != k@,
        decreases es@.len() - l,
    {
        if string_eq(es[l].0.as_str(), k) {
            proof {
                assert(em[l as int].0 == es@[l as int].0@);
                lemma_key_index_at(em, k@, l as int);
            }
            return Some(l);
        }
        proof {
            assert(em[l as int].0 == es@[l as int].0@);
        }
        l = l + 1;
    }
    proof {
        lemma_key_index_at(em, k@, es@.len() as int);
    }
    None
}

/// Applies one operation at the target of `segs[i..]` under `d`, owning the
/// value: the returned tree is the mutated one on success and the original
/// one on failure.
fn apply_at(d: DocValue, segs: &Vec<PathSegment>, i: usize, op: DocOp) -> (res: (
    DocValue,
    Result<Option<usize>, ModelError>,
))
    requires
        i <= segs@.len(),
    ensures
        ({
            let sp = spec_apply(d.model(), segs_model(segs@).skip(i as int), op.model());
            match res.1 {
                Ok(idx) => sp matches Ok(pr) && res.0.model() == pr.0 && (match idx {
                    Some(x) => pr.1 == Some(x as int),
                    None => pr.1 is None,
                }),
                Err(e) => sp == Err::<(DocV, Option<int>), ModelError>(e) && res.0.model()
                    == d.model(),
            }
        }),
    decreases segs@.len() - i,
{
    let ghost p = segs_model(segs@).skip(i as int);
    proof {
        assert(segs_model(segs@).len() == segs@.len());
    }
    if i == segs.len() {
        proof {
            assert(p.len() == 0);
        }
        return apply_local_exec(d, op);
    }
    proof {
        assert(p[0] == segs@[i as int].model());
        assert(p.drop_first() =~= segs_model(segs@).skip(i + 1 as int));
    }
    match d {
        DocValue::Mapping(mut es) => {
            let ghost em = entries_model(es@);
            match &segs[i] {
                PathSegment::Key(k) => {
                    match find_key(&es, k.as_str()) {
                        Some(j) => {
                            let ghost old_es = es@;
                            let (name, child) = es.remove(j);
                            let (nc, r) = apply_at(child, segs, i + 1, op);
                            es.insert(j, (name, nc));
                            proof {
                                lemma_remove_insert(old_es, j as int, (name, nc));
                                assert(es@ == old_es.update(j as int, (name, nc)));
                                assert(entries_model(es@) =~= em.update(
                                    j as int,
                                    (em[j as int].0, nc.model()),
                                ));
                                if r is Err {
                                    assert(nc.model() == child.model());
                                    assert(em.update(
                                        j as int,
                                        (em[j as int].0, child.model()),
                                    ) =~= em);
                                }
                            }
                            (DocValue::Mapping(es), r)
                        },
                        None => (DocValue::Mapping(es), Err(ModelError::NotFound)),
                    }
                },
                PathSegment::Index(_) => (DocValue::Mapping(es), Err(ModelError::NotFound)),
            }
        },
        DocValue::Sequence(mut vs) => {
            let ghost vm = items_model(vs@);
            match &segs[i] {
                PathSegment::Index(ix) => {
                    let ix = *ix;
                    if ix < vs.len() {
                        let ghost old_vs = vs@;
                        let child = vs.remove(ix);
                        let (nc, r) = apply_at(child, segs, i + 1, op);
                        vs.insert(ix, nc);
                        proof {
                            lemma_remove_insert(old_vs, ix as int, nc);
                            assert(vs@ == old_vs.update(ix as int, nc));
                            assert(items_model(vs@) =~= vm.update(ix as int, nc.model()));
                            if r is Err {
                                assert(nc.model() == child.model());
                                assert(vm.update(ix as int, child.model()) =~= vm);
                            }
                        }
                        (DocValue::Sequence(vs), r)
                    } else {
                        (DocValue::Sequence(vs), Err(ModelError::NotFound))
                    }
                },
                PathSegment::Key(_) => (DocValue::Sequence(vs), Err(ModelError::NotFound)),
            }
        },
        other => (other, Err(ModelError::NotFound)),
    }
}

fn apply_local_exec(d: DocValue, op: DocOp) -> (res: (
    DocValue,
    Result<Option<usize>, ModelError>,
))
    ensures
        ({
            let sp = apply_local(d.model(), op.model());
            match res.1 {
                Ok(idx) => sp matches Ok(pr) && res.0.model() == pr.0 && (match idx {
                    Some(x) => pr.1 == Some(x as int),
                    None => pr.1 is None,
                }),
                Err(e) => sp == Err::<(DocV, Option<int>), ModelError>(e) && res.0.model()
                    == d.model(),
            }
        }),
{
    match op {
        DocOp::SetValue(v) => (v, Ok(None)),
        DocOp::AddMapChild(k, v) => match d {
            DocValue::Mapping(mut es) => {
                if find_key(&es, k.as_str()).is_some() {
                    (DocValue::Mapping(es), Err(ModelError::DuplicateKey))
                } else {
                    let ghost em = entries_model(es@);
                    es.push((k, v));
                    proof {
                        assert(entries_model(es@) =~= em.push((k@, v.model())));
                    }
                    (DocValue::Mapping(es), Ok(None))
                }
            },
            other => (other, Err(ModelError::InvalidTarget)),
        },
        DocOp::AddSeqValue(v) => match d {
            DocValue::Sequence(mut vs) => {
                let ghost vm = items_model(vs@);
                vs.push(v);
                proof {
                    assert(items_model(vs@) =~= vm.push(v.model()));
                }
                (DocValue::Sequence(vs), Ok(None))
            },
            other => (other, Err(ModelError::InvalidTarget)),
        },
        DocOp::AddSeqEmptyMap => match d {
            DocValue::Sequence(mut vs) => {
                let ghost vm = items_model(vs@);
                let n = vs.len();
                vs.push(DocValue::Mapping(Vec::new()));
                proof {
                    assert(entries_model(Seq::<(String, DocValue)>::empty()) =~= Seq::<
                        (Seq<char>, DocV),
                    >::empty());
                    assert(items_model(vs@) =~= vm.push(DocV::Mapping(Seq::empty())));
                }
                (DocValue::Sequence(vs), Ok(Some(n)))
            },
            other => (other, Err(ModelError::InvalidTarget)),
        },
        DocOp::ConvertEmptyMap => {
            proof {
                assert(entries_model(Seq::<(String, DocValue)>::empty()) =~= Seq::<
                    (Seq<char>, DocV),
                >::empty());
            }
            (DocValue::Mapping(Vec::new()), Ok(None))
        },
        DocOp::RemoveKey(k) => match d {
            DocValue::Mapping(mut es) => {
                let ghost em = entries_model(es@);
                match find_key(&es, k.as_str()) {
                    Some(j) => {
                        es.remove(j);
                        proof {
                            assert(entries_model(es@) =~= em.remove(j as int));
                        }
                        (DocValue::Mapping(es), Ok(None))
                    },
                    None => (DocValue::Mapping(es), Ok(None)),
                }
            },
            other => (other, Err(ModelError::InvalidTarget)),
        },
        DocOp::RemoveIndex(i) => match d {
            DocValue::Sequence(mut vs) => {
                if i < vs.len() {
                    let ghost vm = items_model(vs@);
                    vs.remove(i);
                    proof {
                        assert(items_model(vs@) =~= vm.remove(i as int));
                    }
                    (DocValue::Sequence(vs), Ok(None))
                } else {
                    (DocValue::Sequence(vs), Err(ModelError::NotFound))
                }
            },
            other => (other, Err(ModelError::InvalidTarget)),
        },
        DocOp::RenameKey(old_k, new_k) => match d {
            DocValue::Mapping(mut es) => {
                if find_key(&es, new_k.as_str()).is_some() {
                    (DocValue::Mapping(es), Err(ModelError::DuplicateKey))
                } else {
                    match find_key(&es, old_k.as_str()) {
                        Some(j) => {
                            let ghost em = entries_model(es@);
                            let (_, value) = es.remove(j);
                            es.push((new_k, value));
                            proof {
                                assert(entries_model(es@) =~= em.remove(j as int).push(
                                    (new_k@, em[j as int].1),
                                ));
                            }
                            (DocValue::Mapping(es), Ok(None))
                        },
                        None => (DocValue::Mapping(es), Err(ModelError::NotFound)),
                    }
                }
            },
            other => (other, Err(ModelError::InvalidTarget)),
        },
    }
}

/// Converts a parsed scalar into a document value.
pub fn scalar_to_value(value: ScalarValue) -> (r: DocValue)
    ensures
        r.model() == scal_doc(value.model()),
{
    match value {
        ScalarValue::String(s) => DocValue::String(s),
        ScalarValue::Bool(b) => DocValue::Boolean(b),
        ScalarValue::Null => DocValue::Null,
        ScalarValue::Number(ScalarNumber::Integer(n)) => DocValue::Integer(n),
        ScalarValue::Number(ScalarNumber::Float(f)) => DocValue::Real(f),
    }
}

/// The document value a scalar denotes.
pub open spec fn scal_doc(s: ScalV) -> DocV {
    match s {
        ScalV::String(t) => DocV::String(t),
        ScalV::Bool(b) => DocV::Boolean(b),
        ScalV::Null => DocV::Null,
        ScalV::Integer(n) => DocV::Integer(n),
        ScalV::Float(t) => DocV::Real(t),
    }
}

#[verifier::external_type_specification]
#[verifier::external_body]
pub struct ExYaml(yaml_rust2::Yaml);

/// What parsing a document text yields: the value tree of its first
/// document (an empty stream reads as an empty mapping, so an empty
/// document stays addressable), or nothing when the text does not scan.
/// Deterministic in the text alone.
pub uninterp spec fn parse_outcome(text: Seq<char>) -> Option<DocV>;

/// The text the emitter writes for a document value. The emitter reads only
/// the structure and scalar contents of the value, so the text is
/// deterministic in the value's model alone.
pub uninterp spec fn emitted_of(d: DocV) -> Seq<char>;

/// Relies on the shape of `yaml_rust2::Yaml`: a mapping key's display text,
/// one arm per variant; only string keys carry their own text.
#[verifier::external_body]
fn yaml_key_label(k: &yaml_rust2::Yaml) -> String {
    match k {
        yaml_rust2::Yaml::String(s) => s.clone(),
        _ => "<non-string>".to_string(),
    }
}

/// Relies on the shape of `yaml_rust2::Yaml`: each variant moves to the
/// corresponding document value, one arm for one variant; aliases and bad
/// values read as null.
#[verifier::external_body]
fn yaml_to_doc(y: &yaml_rust2::Yaml) -> DocValue {
    match y {
        yaml_rust2::Yaml::Hash(m) => DocValue::Mapping(
            m.iter().map(|(k, v)| (yaml_key_label(k), yaml_to_doc(v))).collect(),
        ),
        yaml_rust2::Yaml::Array(a) => DocValue::Sequence(a.iter().map(yaml_to_doc).collect()),
        yaml_rust2::Yaml::String(s) => DocValue::String(s.clone()),
        yaml_rust2::Yaml::Integer(n) => DocValue::Integer(*n),
        yaml_rust2::Yaml::Real(r) => DocValue::Real(r.clone()),
        yaml_rust2::Yaml::Boolean(b) => DocValue::Boolean(*b),
        _ => DocValue::Null,
    }
}

/// Relies on the shape of `yaml_rust2::Yaml`: the inverse move, one variant
/// for one variant.
#[verifier::external_body]
fn doc_to_yaml(d: &DocValue) -> yaml_rust2::Yaml {
    match d {
        DocValue::Mapping(es) => yaml_rust2::Yaml::Hash(
            es.iter().map(|(k, v)| (yaml_rust2::Yaml::String(k.clone()), doc_to_yaml(v))).collect(),
        ),
        DocValue::Sequence(vs) => yaml_rust2::Yaml::Array(vs.iter().map(doc_to_yaml).collect()),
        DocValue::String(s) => yaml_rust2::Yaml::String(s.clone()),
        DocValue::Integer(n) => yaml_rust2::Yaml::Integer(*n),
        DocValue::Real(r) => yaml_rust2::Yaml::Real(r.clone()),
        DocValue::Boolean(b) => yaml_rust2::Yaml::Boolean(*b),
        DocValue::Null => yaml_rust2::Yaml::Null,
    }
}

/// Relies on `yaml_rust2::YamlEmitter::dump`: writes the document in YAML
/// text form, reading only the value's structure and scalar contents; an
/// emit error surfaces as its message.
#[verifier::external_body]
fn emit_document(d: &DocValue) -> (r: Result<String, String>)
    ensures
        r matches Ok(t) ==> t@ == emitted_of(d.model()),
{
    let y = doc_to_yaml(d);
    let mut out = String::new();
    let mut emitter = yaml_rust2::YamlEmitter::new(&mut out);
    match emitter.dump(&y) {
        Ok(()) => Ok(out),
        Err(e) => Err(e.to_string()),
    }
}

/// Parses document text at the parser boundary. Relies on
/// `yaml_rust2::YamlLoader::load_from_str`: whether a text scans, and the
/// value tree of its first document, depend on the text alone; the first
/// document is taken, an empty stream reads as an empty mapping so that an
/// empty document is addressable, and a scan error surfaces as its message.
#[verifier::external_body]
pub fn parse_document(text: &str) -> (r: Result<DocValue, String>)
    ensures
        match r {
            Ok(d) => parse_outcome(text@) == Some(d.model()),
            Err(_) => parse_outcome(text@) is None,
        },
{
    match yaml_rust2::YamlLoader::load_from_str(text) {
        Ok(docs) => match docs.into_iter().next() {
            Some(y) => Ok(yaml_to_doc(&y)),
            None => Ok(DocValue::Mapping(Vec::new())),
        },
        Err(e) => Err(e.to_string()),
    }
}

/// Owns the document value being edited and the identity of its backing file.
pub struct YamlModel {
    doc: DocValue,
    path: String,
}

impl YamlModel {
    /// The logical value tree.
    pub closed spec fn model(&self) -> DocV {
        self.doc.model()
    }

    /// The identity of the backing file.
    pub closed spec fn spec_path(&self) -> Seq<char> {
        self.path@
    }

    /// An empty model with no file loaded: an empty document is an empty
    /// mapping, so it stays addressable and can take its first key.
    pub fn empty() -> (r: Self)
        ensures
            r.model() == DocV::Mapping(Seq::empty()),
            r.spec_path().len() == 0,
    {
        let r = YamlModel { doc: DocValue::Mapping(Vec::new()), path: String::new() };
        proof {
            assert(entries_model(Seq::<(String, DocValue)>::empty()) =~= Seq::<
                (Seq<char>, DocV),
            >::empty());
        }
        r
    }

    /// A model built from document text: a text that parses loads its value
    /// tree; on a parse failure the document is null and the parser's
    /// message and the raw text are handed back so the file can still be
    /// edited.
    pub fn from_text(path: String, text: &str) -> (r: (Self, Option<String>, Option<String>))
        ensures
            r.0.spec_path() == path@,
            (r.1 is Some) == (r.2 is Some),
            (r.1 is None) == (parse_outcome(text@) is Some),
            r.1 is None ==> r.0.model() == parse_outcome(text@)->0,
            r.1 is Some ==> r.0.model() == DocV::Null && (r.2 matches Some(raw) && raw@
                == text@),
    {
        match parse_document(text) {
            Ok(doc) => (YamlModel { doc, path }, None, None),
            Err(e) => (
                YamlModel { doc: DocValue::Null, path },
                Some(e),
                Some(text.to_owned()),
            ),
        }
    }

    /// Path of the currently loaded file.
    pub fn file_path(&self) -> (r: &str)
        ensures
            r@ == self.spec_path(),
    {
        self.path.as_str()
    }

    pub fn root(&self) -> (r: &DocValue)
        ensures
            r.model() == self.model(),
    {
        &self.doc
    }

    /// The document serialized back to its text form at the emitter
    /// boundary.
    pub fn serialize(&self) -> (r: Result<String, String>)
        ensures
            r matches Ok(t) ==> t@ == emitted_of(self.model()),
    {
        emit_document(&self.doc)
    }

    fn apply(&mut self, segs: &Vec<PathSegment>, op: DocOp) -> (r: Result<
        Option<usize>,
        ModelError,
    >)
        ensures
            final (self).spec_path() == old(self).spec_path(),
            ({
                let sp = spec_apply(old(self).model(), segs_model(segs@), op.model());
                match r {
                    Ok(idx) => sp matches Ok(pr) && final (self).model() == pr.0 && (match idx {
                        Some(x) => pr.1 == Some(x as int),
                        None => pr.1 is None,
                    }),
                    Err(e) => sp == Err::<(DocV, Option<int>), ModelError>(e) && final (
                    self).model() == old(self).model(),
                }
            }),
    {
        let mut d = DocValue::Null;
        core::mem::swap(&mut self.doc, &mut d);
        proof {
            assert(segs_model(segs@).skip(0) =~= segs_model(segs@));
        }
        let (nd, r) = apply_at(d, segs, 0, op);
        self.doc = nd;
        r
    }

    /// Replaces the node at `path` with a scalar value; `NotFound` when some
    /// segment does not resolve.
    pub fn edit_value(&mut self, path: &NodePath, value: ScalarValue) -> (r: Result<
        (),
        ModelError,
    >)
        ensures
            final (self).spec_path() == old(self).spec_path(),
            ({
                let sp = spec_apply(
                    old(self).model(),
                    path.model(),
                    OpV::SetValue(scal_doc(value.model())),
                );
                match r {
                    Ok(_) => sp matches Ok(pr) && final (self).model() == pr.0,
                    Err(e) => sp == Err::<(DocV, Option<int>), ModelError>(e) && final (
                    self).model() == old(self).model(),
                }
            }),
    {
        let v = scalar_to_value(value);
        match self.apply(&path.0, DocOp::SetValue(v)) {
            Ok(_) => Ok(()),
            Err(e) => Err(e),
        }
    }

    /// Renames the mapping key `path` addresses: `InvalidTarget` on the root
    /// or a sequence element, `DuplicateKey` when the new name collides with
    /// a sibling, `NotFound` when the path does not resolve. The renamed
    /// entry moves to the end of the mapping's order.
    pub fn rename_key(&mut self, path: &NodePath, new_key: &str) -> (r: Result<(), ModelError>)
        ensures
            final (self).spec_path() == old(self).spec_path(),
            ({
                let sp = spec_rename(old(self).model(), path.model(), new_key@);
                match r {
                    Ok(_) => sp matches Ok(nd) && final (self).model() == nd,
                    Err(e) => sp == Err::<DocV, ModelError>(e) && final (self).model() == old(
                        self,
                    ).model(),
                }
            }),
    {
        if path.0.len() == 0 {
            return Err(ModelError::InvalidTarget);
        }
        let (parent, last) = crate::path::split_parent(path);
        match last {
            PathSegment::Key(old_k) => {
                proof {
                    assert(path.model().drop_last() == parent.model());
                }
                match self.apply(
                    &parent.0,
                    DocOp::RenameKey(old_k, new_key.to_owned()),
                ) {
                    Ok(_) => Ok(()),
                    Err(e) => Err(e),
                }
            },
            PathSegment::Index(_) => Err(ModelError::InvalidTarget),
        }
    }

    /// Inserts `key` into the mapping at `path`, at the end of its order:
    /// `DuplicateKey` when the key exists, `InvalidTarget` when the node is
    /// not a mapping, `NotFound` when the path does not resolve.
    pub fn add_mapping_child(&mut self, path: &NodePath, key: &str, value: ScalarValue) -> (r:
        Result<(), ModelError>)
        ensures
            final (self).spec_path() == old(self).spec_path(),
            ({
                let sp = spec_apply(
                    old(self).model(),
                    path.model(),
                    OpV::AddMapChild(key@, scal_doc(value.model())),
                );
                match r {
                    Ok(_) => sp matches Ok(pr) && final (self).model() == pr.0,
                    Err(e) => sp == Err::<(DocV, Option<int>), ModelError>(e) && final (
                    self).model() == old(self).model(),
                }
            }),
    {
        let v = scalar_to_value(value);
        match self.apply(&path.0, DocOp::AddMapChild(key.to_owned(), v)) {
            Ok(_) => Ok(()),
            Err(e) => Err(e),
        }
    }

    /// Appends a value to the sequence at `path`: `InvalidTarget` when the
    /// node is not a sequence, `NotFound` when the path does not resolve.
    pub fn add_sequence_value(&mut self, path: &NodePath, value: ScalarValue) -> (r: Result<
        (),
        ModelError,
    >)
        ensures
            final (self).spec_path() == old(self).spec_path(),
            ({
                let sp = spec_apply(
                    old(self).model(),
                    path.model(),
                    OpV::AddSeqValue(scal_doc(value.model())),
                );
                match r {
                    Ok(_) => sp matches Ok(pr) && final (self).model() == pr.0,
                    Err(e) => sp == Err::<(DocV, Option<int>), ModelError>(e) && final (
                    self).model() == old(self).model(),
                }
            }),
    {
        let v = scalar_to_value(value);
        match self.apply(&path.0, DocOp::AddSeqValue(v)) {
            Ok(_) => Ok(()),
            Err(e) => Err(e),
        }
    }

    /// Appends an empty mapping to the sequence at `path` and returns the new
    /// element's path, enabling immediate key entry on it.
    pub fn add_sequence_empty_map(&mut self, path: &NodePath) -> (r: Result<NodePath, ModelError>)
        ensures
            final (self).spec_path() == old(self).spec_path(),
            ({
                let sp = spec_apply(old(self).model(), path.model(), OpV::AddSeqEmptyMap);
                match r {
                    Ok(np) => sp matches Ok(pr) && final (self).model() == pr.0 && (
                    pr.1 matches Some(ix) && np.model() == path.model().push(SegV::Index(ix))),
                    Err(e) => sp == Err::<(DocV, Option<int>), ModelError>(e) && final (
                    self).model() == old(self).model(),
                }
            }),
    {
        match self.apply(&path.0, DocOp::AddSeqEmptyMap) {
            Ok(Some(ix)) => Ok(path.child_index(ix)),
            Ok(None) => {
                proof {
                    lemma_apply_idx(old(self).model(), path.model(), OpV::AddSeqEmptyMap);
                    assert(false);
                }
                Err(ModelError::InvalidTarget)
            },
            Err(e) => Err(e),
        }
    }

    /// Unconditionally replaces the node at `path` with an empty mapping, so
    /// that child keys can be added; `NotFound` when the path does not
    /// resolve.
    pub fn convert_to_empty_map(&mut self, path: &NodePath) -> (r: Result<(), ModelError>)
        ensures
            final (self).spec_path() == old(self).spec_path(),
            ({
                let sp = spec_apply(old(self).model(), path.model(), OpV::ConvertEmptyMap);
                match r {
                    Ok(_) => sp matches Ok(pr) && final (self).model() == pr.0,
                    Err(e) => sp == Err::<(DocV, Option<int>), ModelError>(e) && final (
                    self).model() == old(self).model(),
                }
            }),
    {
        match self.apply(&path.0, DocOp::ConvertEmptyMap) {
            Ok(_) => Ok(()),
            Err(e) => Err(e),
        }
    }

    /// Removes the entry or element the path's last segment names from its
    /// parent: `InvalidTarget` on the root, `NotFound` when the parent does
    /// not resolve or a sequence index is out of range. Later sequence
    /// siblings shift down: their old paths address the shifted content.
    pub fn delete_node(&mut self, path: &NodePath) -> (r: Result<(), ModelError>)
        ensures
            final (self).spec_path() == old(self).spec_path(),
            ({
                let sp = spec_delete(old(self).model(), path.model());
                match r {
                    Ok(_) => sp matches Ok(nd) && final (self).model() == nd,
                    Err(e) => sp == Err::<DocV, ModelError>(e) && final (self).model() == old(
                        self,
                    ).model(),
                }
            }),
    {
        if path.0.len() == 0 {
            return Err(ModelError::InvalidTarget);
        }
        let (parent, last) = crate::path::split_parent(path);
        proof {
            assert(path.model().drop_last() == parent.model());
        }
        let op = match last {
            PathSegment::Key(k) => DocOp::RemoveKey(k),
            PathSegment::Index(ix) => DocOp::RemoveIndex(ix),
        };
        match self.apply(&parent.0, op) {
            Ok(_) => Ok(()),
            Err(e) => Err(e),
        }
    }
}

/// What renaming the key at a path does to the document.
pub open spec fn spec_rename(d: DocV, p: Seq<SegV>, new_key: Seq<char>) -> Result<
    DocV,
    ModelError,
> {
    if p.len() == 0 || !(p.last() is Key) {
        Err(ModelError::InvalidTarget)
    } else {
        match spec_apply(d, p.drop_last(), OpV::RenameKey(p.last()->Key_0, new_key)) {
            Ok(pr) => Ok(pr.0),
            Err(e) => Err(e),
        }
    }
}

/// What deleting the node at a path does to the document.
pub open spec fn spec_delete(d: DocV, p: Seq<SegV>) -> Result<DocV, ModelError> {
    if p.len() == 0 {
        Err(ModelError::InvalidTarget)
    } else {
        let op = match p.last() {
            SegV::Key(k) => OpV::RemoveKey(k),
            SegV::Index(i) => OpV::RemoveIndex(i),
        };
        match spec_apply(d, p.drop_last(), op) {
            Ok(pr) => Ok(pr.0),
            Err(e) => Err(e),
        }
    }
}

} // verus!
