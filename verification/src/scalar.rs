//! The scalar codec: turns a user-typed token into a typed scalar value and
//! escapes/unescapes quoted string content. Parsing is total; the precedence
//! is: empty, quoted string, boolean, null, integer, float, bare string.
use vstd::prelude::*;

use crate::strutil::chars_eq;
use crate::strutil::chars_string;
use crate::strutil::lower_chars;
use crate::strutil::parse_i64_chars;
use crate::strutil::spec_lower;
use crate::strutil::spec_parse_i64;
use crate::strutil::spec_trim;
use crate::strutil::str_chars;
use crate::strutil::trim_chars;

verus! {

#[derive(Debug, Clone, PartialEq)]
pub enum ScalarValue {
    String(String),
    Bool(bool),
    Null,
    Number(ScalarNumber),
}

/// Numbers keep integers exactly; a floating-point token is kept as its
/// trimmed text, verbatim, as the document value also stores reals as text.
#[derive(Debug, Clone, PartialEq)]
pub enum ScalarNumber {
    Integer(i64),
    Float(String),
}

/// The mathematical value of a scalar.
pub ghost enum ScalV {
    String(Seq<char>),
    Bool(bool),
    Null,
    Integer(int),
    Float(Seq<char>),
}

impl ScalarValue {
    pub open spec fn model(&self) -> ScalV {
        match self {
            ScalarValue::String(s) => ScalV::String(s@),
            ScalarValue::Bool(b) => ScalV::Bool(*b),
            ScalarValue::Null => ScalV::Null,
            ScalarValue::Number(ScalarNumber::Integer(n)) => ScalV::Integer(*n as int),
            ScalarValue::Number(ScalarNumber::Float(f)) => ScalV::Float(f@),
        }
    }
}

/// What one character contributes to an escaped string.
pub open spec fn esc_char(c: char) -> Seq<char> {
    if c == '\\' {
        seq!['\\', '\\']
    } else if c == '"' {
        seq!['\\', '"']
    } else if c == '\n' {
        seq!['\\', 'n']
    } else if c == '\t' {
        seq!['\\', 't']
    } else {
        seq![c]
    }
}

/// The escaped form of string content: backslash, double quote, newline and
/// tab become two-character escapes; everything else is verbatim.
pub open spec fn spec_escape(s: Seq<char>) -> Seq<char>
    decreases s.len(),
{
    if s.len() == 0 {
        Seq::empty()
    } else {
        esc_char(s[0]) + spec_escape(s.drop_first())
    }
}

/// The decoded form of escaped string content: `\n`, `\t`, `\"` and `\\` are
/// decoded; a backslash before any other character, or at the end, stays.
pub open spec fn spec_unescape(s: Seq<char>) -> Seq<char>
    decreases s.len(),
{
    if s.len() == 0 {
        Seq::empty()
    } else if s[0] == '\\' && s.len() >= 2 {
        let d = s[1];
        let out = if d == 'n' {
            seq!['\n']
        } else if d == 't' {
            seq!['\t']
        } else if d == '"' {
            seq!['"']
        } else if d == '\\' {
            seq!['\\']
        } else {
            seq!['\\', d]
        };
        out + spec_unescape(s.skip(2))
    } else {
        seq![s[0]] + spec_unescape(s.skip(1))
    }
}

pub fn escape_chars(v: &Vec<char>) -> (r: Vec<char>)
    ensures
        r@ == spec_escape(v@),
{
    let mut r: Vec<char> = Vec::new();
    let mut i: usize = 0;
    proof {
        assert(v@.skip(0) =~= v@);
        assert(Seq::<char>::empty() + spec_escape(v@) =~= spec_escape(v@));
    }
    while i < v.len()
        invariant
            i <= v@.len(),
            r@ + spec_escape(v@.skip(i as int)) == spec_escape(v@),
        decreases v@.len() - i,
    {
        let ghost pre = r@;
        let c = v[i];
        if c == '\\' {
            r.push('\\');
            r.push('\\');
        } else if c == '"' {
            r.push('\\');
            r.push('"');
        } else if c == '\n' {
            r.push('\\');
            r.push('n');
        } else if c == '\t' {
            r.push('\\');
            r.push('t');
        } else {
            r.push(c);
        }
        proof {
            let rest = v@.skip(i as int);
            assert(rest[0] == v@[i as int]);
            assert(rest.drop_first() =~= v@.skip(i + 1 as int));
            assert(spec_escape(rest) == esc_char(rest[0]) + spec_escape(rest.drop_first()));
            assert(r@ =~= pre + esc_char(v@[i as int]));
            assert(r@ + spec_escape(v@.skip(i + 1 as int)) =~= pre + spec_escape(rest));
        }
        i = i + 1;
    }
    proof {
        assert(v@.skip(v@.len() as int) =~= Seq::<char>::empty());
        assert(r@ + Seq::<char>::empty() =~= r@);
    }
    r
}

/// Escapes string content for display inside double quotes.
pub fn escape_yaml_string(value: &str) -> (r: String)
    ensures
        r@ == spec_escape(value@),
{
    let v = str_chars(value);
    let e = escape_chars(&v);
    chars_string(&e)
}

pub fn unescape_chars(v: &Vec<char>) -> (r: Vec<char>)
    ensures
        r@ == spec_unescape(v@),
{
    let mut r: Vec<char> = Vec::new();
    let mut i: usize = 0;
    proof {
        assert(v@.skip(0) =~= v@);
        assert(Seq::<char>::empty() + spec_unescape(v@) =~= spec_unescape(v@));
    }
    while i < v.len()
        invariant
            i <= v@.len(),
            r@ + spec_unescape(v@.skip(i as int)) == spec_unescape(v@),
        decreases v@.len() - i,
    {
        let ghost pre = r@;
        let ghost rest = v@.skip(i as int);
        let c = v[i];
        let mut step: usize = 1;
        if c == '\\' && i + 1 < v.len() {
            let d = v[i + 1];
            if d == 'n' {
                r.push('\n');
            } else if d == 't' {
                r.push('\t');
            } else if d == '"' {
                r.push('"');
            } else if d == '\\' {
                r.push('\\');
            } else {
                r.push('\\');
                r.push(d);
            }
            step = 2;
            proof {
                assert(rest[0] == '\\' && rest.len() >= 2 && rest[1] == v@[i + 1]);
                assert(rest.skip(2) =~= v@.skip(i + 2));
                assert(spec_unescape(rest) == (if v@[i + 1] == 'n' {
                    seq!['\n']
                } else if v@[i + 1] == 't' {
                    seq!['\t']
                } else if v@[i + 1] == '"' {
                    seq!['"']
                } else if v@[i + 1] == '\\' {
                    seq!['\\']
                } else {
                    seq!['\\', v@[i + 1]]
                }) + spec_unescape(v@.skip(i + 2)));
                assert(r@ + spec_unescape(v@.skip(i + 2)) =~= pre + spec_unescape(rest));
            }
        } else {
            r.push(c);
            proof {
                assert(rest[0] == v@[i as int]);
                if rest[0] == '\\' {
                    assert(rest.len() == 1);
                }
                assert(rest.skip(1) =~= v@.skip(i + 1));
                assert(spec_unescape(rest) == seq![rest[0]] + spec_unescape(v@.skip(i + 1)));
                assert(r@ + spec_unescape(v@.skip(i + 1)) =~= pre + spec_unescape(rest));
            }
        }
        i = i + step;
    }
    proof {
        assert(v@.skip(v@.len() as int) =~= Seq::<char>::empty());
        assert(r@ + Seq::<char>::empty() =~= r@);
    }
    r
}

/// Decoding undoes encoding: unescaping an escaped string gives the string
/// back, for every string.
pub proof fn lemma_unescape_escape(s: Seq<char>)
    ensures
        spec_unescape(spec_escape(s)) == s,
    decreases s.len(),
{
    if s.len() == 0 {
        assert(spec_unescape(spec_escape(s)) =~= s);
    } else {
        let c = s[0];
        let rest = s.drop_first();
        lemma_unescape_escape(rest);
        let e = spec_escape(s);
        assert(e == esc_char(c) + spec_escape(rest));
        if c == '\\' || c == '"' || c == '\n' || c == '\t' {
            assert(esc_char(c).len() == 2 && esc_char(c)[0] == '\\');
            assert(e[0] == '\\' && e.len() >= 2 && e[1] == esc_char(c)[1]);
            assert(e.skip(2) =~= spec_escape(rest));
            assert(spec_unescape(e) == seq![c] + spec_unescape(spec_escape(rest)));
            assert(seq![c] + rest =~= s);
        } else {
            assert(esc_char(c) == seq![c]);
            assert(e[0] == c && c != '\\');
            assert(e.skip(1) =~= spec_escape(rest));
            assert(spec_unescape(e) == seq![c] + spec_unescape(spec_escape(rest)));
            assert(seq![c] + rest =~= s);
        }
    }
}

/// Decodes backslash escapes inside quoted string content.
pub fn unescape_yaml_string(value: &str) -> (r: String)
    ensures
        r@ == spec_unescape(value@),
{
    let v = str_chars(value);
    let u = unescape_chars(&v);
    chars_string(&u)
}

/// Whether the token reads as a floating-point scalar.
pub uninterp spec fn is_float_token(s: Seq<char>) -> bool;

/// Relies on `yaml_rust2::Yaml::from_str`: which variant it classifies a
/// token as depends on the token's characters alone; `Real` is its
/// floating-point class. This is the YAML scalar grammar, not Rust's float
/// grammar: `.inf`, `-.inf` and `.nan` are floats here, while bare `inf` and
/// `nan` (floats to Rust's parser) read as strings.
#[verifier::external_body]
fn token_is_float(s: &str) -> (r: bool)
    ensures
        r == is_float_token(s@),
{
    matches!(yaml_rust2::Yaml::from_str(s), yaml_rust2::Yaml::Real(_))
}

/// The scalar a user-typed token denotes.
pub open spec fn spec_parse_scalar(s: Seq<char>) -> ScalV {
    let t = spec_trim(s);
    if t.len() == 0 {
        ScalV::Null
    } else if t.len() >= 2 && t[0] == '"' && t.last() == '"' {
        ScalV::String(spec_unescape(t.subrange(1, t.len() - 1)))
    } else if spec_lower(t) == "true"@ {
        ScalV::Bool(true)
    } else if spec_lower(t) == "false"@ {
        ScalV::Bool(false)
    } else if spec_lower(t) == "null"@ {
        ScalV::Null
    } else if spec_parse_i64(t) is Some {
        ScalV::Integer(spec_parse_i64(t)->0 as int)
    } else if is_float_token(t) {
        ScalV::Float(t)
    } else {
        ScalV::String(t)
    }
}

/// Parses a user-typed token into a scalar: empty or whitespace is null; a
/// fully double-quoted token is a string with escapes decoded; `true`,
/// `false` and `null` match case-insensitively; then integer, then float;
/// anything else is the trimmed text as a bare string. Total: never fails.
pub fn parse_scalar_input(input: &str) -> (r: ScalarValue)
    ensures
        r.model() == spec_parse_scalar(input@),
{
    let cs = str_chars(input);
    let t = trim_chars(&cs);
    if t.len() == 0 {
        return ScalarValue::Null;
    }
    if t.len() >= 2 && t[0] == '"' && t[t.len() - 1] == '"' {
        proof {
            assert(t@.last() == t@[t@.len() - 1]);
        }
        let mut inner: Vec<char> = Vec::new();
        let mut i: usize = 1;
        while i < t.len() - 1
            invariant
                1 <= i <= t@.len() - 1,
                t@.len() >= 2,
                inner@ == t@.subrange(1, i as int),
            decreases t@.len() - i,
        {
            inner.push(t[i]);
            proof {
                assert(inner@ =~= t@.subrange(1, i + 1 as int));
            }
            i = i + 1;
        }
        let u = unescape_chars(&inner);
        return ScalarValue::String(chars_string(&u));
    }
    let low = lower_chars(&t);
    let tru = str_chars("true");
    let fal = str_chars("false");
    let nul = str_chars("null");
    if chars_eq(&low, &tru) {
        return ScalarValue::Bool(true);
    }
    if chars_eq(&low, &fal) {
        return ScalarValue::Bool(false);
    }
    if chars_eq(&low, &nul) {
        return ScalarValue::Null;
    }
    match parse_i64_chars(&t) {
        Some(n) => {
            return ScalarValue::Number(ScalarNumber::Integer(n));
        },
        None => {},
    }
    let ts = chars_string(&t);
    if token_is_float(ts.as_str()) {
        ScalarValue::Number(ScalarNumber::Float(ts))
    } else {
        ScalarValue::String(ts)
    }
}

} // verus!
