//! Character-level string utilities the editor core is built on: case folding,
//! substring search, trimming, line splitting/joining, and decimal
//! rendering/parsing of integers. All operate on `Seq<char>` views.
use vstd::prelude::*;
use vstd::string::StrSliceExecFns;
use vstd::string::StringExecFns;

verus! {

/// ASCII case folding of one character; non-ASCII characters are left as
/// they are, so matching is case-insensitive for ASCII text only.
pub open spec fn lower_char(c: char) -> char {
    if 'A' <= c && c <= 'Z' {
        ((c as u8) + 32) as char
    } else {
        c
    }
}

/// ASCII case folding of a character sequence.
pub open spec fn spec_lower(s: Seq<char>) -> Seq<char> {
    s.map_values(|c: char| lower_char(c))
}

pub fn to_lower_char(c: char) -> (r: char)
    ensures
        r == lower_char(c),
{
    if 'A' <= c && c <= 'Z' {
        ((c as u8) + 32) as char
    } else {
        c
    }
}

pub fn lower_chars(v: &Vec<char>) -> (r: Vec<char>)
    ensures
        r@ == spec_lower(v@),
{
    let mut r: Vec<char> = Vec::new();
    let mut i: usize = 0;
    while i < v.len()
        invariant
            i <= v@.len(),
            r@ == spec_lower(v@).take(i as int),
        decreases v@.len() - i,
    {
        r.push(to_lower_char(v[i]));
        proof {
            assert(r@ =~= spec_lower(v@).take(i + 1 as int));
        }
        i = i + 1;
    }
    proof {
        assert(spec_lower(v@).take(v@.len() as int) =~= spec_lower(v@));
    }
    r
}

/// The characters of a string slice, in order.
pub fn str_chars(s: &str) -> (r: Vec<char>)
    ensures
        r@ == s@,
{
    let n = s.unicode_len();
    let mut r: Vec<char> = Vec::new();
    let mut i: usize = 0;
    while i < n
        invariant
            i <= n,
            n == s@.len(),
            r@ == s@.take(i as int),
        decreases n - i,
    {
        r.push(s.get_char(i));
        proof {
            assert(r@ =~= s@.take(i + 1 as int));
        }
        i = i + 1;
    }
    proof {
        assert(s@.take(n as int) =~= s@);
    }
    r
}

/// Relies on std's `String::push`: appends one character to the end.
#[verifier::external_body]
pub(crate) fn push_char(s: &mut String, c: char)
    ensures
        final (s)@ == old(s)@.push(c),
{
    s.push(c);
}

pub fn append_chars(s: &mut String, v: &Vec<char>)
    ensures
        final (s)@ == old(s)@ + v@,
{
    let mut i: usize = 0;
    while i < v.len()
        invariant
            i <= v@.len(),
            s@ == old(s)@ + v@.take(i as int),
        decreases v@.len() - i,
    {
        push_char(s, v[i]);
        proof {
            assert(s@ =~= old(s)@ + v@.take(i + 1 as int));
        }
        i = i + 1;
    }
    proof {
        assert(old(s)@ + v@.take(v@.len() as int) =~= old(s)@ + v@);
    }
}

pub fn chars_string(v: &Vec<char>) -> (r: String)
    ensures
        r@ == v@,
{
    let mut r = String::new();
    append_chars(&mut r, v);
    proof {
        assert(Seq::<char>::empty() + v@ =~= v@);
    }
    r
}

pub fn chars_eq(a: &Vec<char>, b: &Vec<char>) -> (r: bool)
    ensures
        r == (a@ == b@),
{
    if a.len() != b.len() {
        return false;
    }
    let mut i: usize = 0;
    while i < a.len()
        invariant
            i <= a@.len(),
            a@.len() == b@.len(),
            forall|k: int| 0 <= k < i ==> a@[k] == b@[k],
        decreases a@.len() - i,
    {
        if a[i] != b[i] {
            return false;
        }
        i = i + 1;
    }
    proof {
        assert(a@ =~= b@);
    }
    true
}

pub fn string_eq(a: &str, b: &str) -> (r: bool)
    ensures
        r == (a@ == b@),
{
    let va = str_chars(a);
    let vb = str_chars(b);
    chars_eq(&va, &vb)
}

/// The needle occurs in the haystack starting at position `i`.
pub open spec fn contains_at(h: Seq<char>, n: Seq<char>, i: int) -> bool {
    0 <= i && i + n.len() <= h.len() && h.subrange(i, i + n.len()) == n
}

/// The needle occurs somewhere in the haystack.
pub open spec fn contains_seq(h: Seq<char>, n: Seq<char>) -> bool {
    exists|i: int| contains_at(h, n, i)
}

pub fn chars_contains(h: &Vec<char>, n: &Vec<char>) -> (r: bool)
    ensures
        r == contains_seq(h@, n@),
{
    if n.len() > h.len() {
        proof {
            assert(forall|i: int| !contains_at(h@, n@, i));
        }
        return false;
    }
    if n.len() == 0 {
        proof {
            assert(h@.subrange(0, 0) =~= n@);
            assert(contains_at(h@, n@, 0));
        }
        return true;
    }
    let mut i: usize = 0;
    while i <= h.len() - n.len()
        invariant
            h@.len() <= usize::MAX,
            1 <= n@.len() <= h@.len(),
            i <= h@.len() - n@.len() + 1,
            forall|k: int| 0 <= k < i ==> !contains_at(h@, n@, k),
        decreases h@.len() - n@.len() + 1 - i,
    {
        let mut j: usize = 0;
        let mut mismatch = false;
        while j < n.len()
            invariant
                h@.len() <= usize::MAX,
                n@.len() <= h@.len(),
                i + n@.len() <= h@.len(),
                j <= n@.len(),
                !mismatch ==> forall|k: int| 0 <= k < j ==> h@[i + k] == n@[k],
                mismatch ==> !contains_at(h@, n@, i as int),
            decreases n@.len() - j,
        {
            if h[i + j] != n[j] {
                proof {
                    assert(h@.subrange(i as int, i + n@.len()) != n@) by {
                        assert(h@.subrange(i as int, i + n@.len())[j as int] == h@[i + j]);
                    }
                }
                mismatch = true;
                j = n.len();
            } else {
                j = j + 1;
            }
        }
        if !mismatch {
            proof {
                assert(h@.subrange(i as int, i + n@.len()) =~= n@);
                assert(contains_at(h@, n@, i as int));
            }
            return true;
        }
        i = i + 1;
    }
    proof {
        assert(forall|k: int| 0 <= k < i ==> !contains_at(h@, n@, k));
        assert(forall|k: int| !contains_at(h@, n@, k));
    }
    false
}

/// The Unicode White_Space code points.
pub open spec fn is_space_char(c: char) -> bool {
    c == ' ' || c == '\t' || c == '\n' || c == '\r' || c == '\u{000b}' || c == '\u{000c}' || c
        == '\u{0085}' || c == '\u{00a0}' || c == '\u{1680}' || ('\u{2000}' <= c && c <= '\u{200a}')
        || c == '\u{2028}' || c == '\u{2029}' || c == '\u{202f}' || c == '\u{205f}' || c
        == '\u{3000}'
}

pub fn is_space(c: char) -> (r: bool)
    ensures
        r == is_space_char(c),
{
    c == ' ' || c == '\t' || c == '\n' || c == '\r' || c == '\u{000b}' || c == '\u{000c}' || c
        == '\u{0085}' || c == '\u{00a0}' || c == '\u{1680}' || ('\u{2000}' <= c && c <= '\u{200a}')
        || c == '\u{2028}' || c == '\u{2029}' || c == '\u{202f}' || c == '\u{205f}' || c
        == '\u{3000}'
}

pub open spec fn trim_front(s: Seq<char>) -> Seq<char>
    decreases s.len(),
{
    if s.len() > 0 && is_space_char(s[0]) {
        trim_front(s.drop_first())
    } else {
        s
    }
}

pub open spec fn trim_back(s: Seq<char>) -> Seq<char>
    decreases s.len(),
{
    if s.len() > 0 && is_space_char(s.last()) {
        trim_back(s.drop_last())
    } else {
        s
    }
}

/// The sequence with leading and trailing whitespace removed.
pub open spec fn spec_trim(s: Seq<char>) -> Seq<char> {
    trim_back(trim_front(s))
}

proof fn lemma_trim_front_range(s: Seq<char>, a: int)
    requires
        0 <= a <= s.len(),
        forall|k: int| 0 <= k < a ==> is_space_char(s[k]),
        a < s.len() ==> !is_space_char(s[a]),
    ensures
        trim_front(s) == s.subrange(a, s.len() as int),
    decreases a,
{
    if a == 0 {
        assert(s.subrange(0, s.len() as int) =~= s);
    } else {
        let t = s.drop_first();
        assert(trim_front(s) == trim_front(t));
        lemma_trim_front_range(t, a - 1);
        assert(t.subrange(a - 1, t.len() as int) =~= s.subrange(a, s.len() as int));
    }
}

proof fn lemma_trim_back_range(s: Seq<char>, b: int)
    requires
        0 <= b <= s.len(),
        forall|k: int| b <= k < s.len() ==> is_space_char(s[k]),
        b > 0 ==> !is_space_char(s[b - 1]),
    ensures
        trim_back(s) == s.subrange(0, b),
    decreases s.len() - b,
{
    if b == s.len() {
        assert(s.subrange(0, b) =~= s);
    } else {
        let t = s.drop_last();
        assert(trim_back(s) == trim_back(t));
        lemma_trim_back_range(t, b);
        assert(t.subrange(0, b) =~= s.subrange(0, b));
    }
}

pub fn trim_chars(v: &Vec<char>) -> (r: Vec<char>)
    ensures
        r@ == spec_trim(v@),
{
    let n = v.len();
    let mut a: usize = 0;
    while a < n && is_space(v[a])
        invariant
            n == v@.len(),
            a <= n,
            forall|k: int| 0 <= k < a ==> is_space_char(v@[k]),
        decreases n - a,
    {
        a = a + 1;
    }
    proof {
        lemma_trim_front_range(v@, a as int);
    }
    let mut b: usize = n;
    while b > a && is_space(v[b - 1])
        invariant
            n == v@.len(),
            a <= b <= n,
            forall|k: int| b <= k < n ==> is_space_char(v@[k]),
        decreases b,
    {
        b = b - 1;
    }
    let ghost tf = trim_front(v@);
    proof {
        assert(tf == v@.subrange(a as int, n as int));
        assert(forall|k: int| b - a <= k < tf.len() ==> is_space_char(tf[k]));
        if b > a {
            assert(tf[b - a - 1] == v@[b - 1]);
        }
        lemma_trim_back_range(tf, b - a);
    }
    let mut r: Vec<char> = Vec::new();
    let mut i: usize = a;
    while i < b
        invariant
            a <= i <= b <= v@.len(),
            r@ == v@.subrange(a as int, i as int),
        decreases b - i,
    {
        r.push(v[i]);
        proof {
            assert(r@ =~= v@.subrange(a as int, i + 1 as int));
        }
        i = i + 1;
    }
    proof {
        assert(tf.subrange(0, b - a) =~= v@.subrange(a as int, b as int));
    }
    r
}

/// The decimal digit character for a value below ten.
pub open spec fn dec_digit(d: int) -> char {
    ((48 + d) as u8) as char
}

/// Decimal rendering of a natural number, most significant digit first.
pub open spec fn spec_dec(n: nat) -> Seq<char>
    decreases n,
{
    if n < 10 {
        seq![dec_digit(n as int)]
    } else {
        spec_dec(n / 10).push(dec_digit((n % 10) as int))
    }
}

/// Decimal rendering of a signed number, with a leading minus sign.
pub open spec fn spec_dec_i64(n: int) -> Seq<char> {
    if n >= 0 {
        spec_dec(n as nat)
    } else {
        seq!['-'] + spec_dec((-n) as nat)
    }
}

fn digit_char(d: u8) -> (r: char)
    requires
        d < 10,
    ensures
        r == dec_digit(d as int),
{
    (48 + d) as char
}

pub fn u64_dec_chars(n: u64) -> (r: Vec<char>)
    ensures
        r@ == spec_dec(n as nat),
    decreases n,
{
    if n < 10 {
        let mut r: Vec<char> = Vec::new();
        r.push(digit_char(n as u8));
        proof {
            assert(r@ =~= spec_dec(n as nat));
        }
        r
    } else {
        let mut r = u64_dec_chars(n / 10);
        r.push(digit_char((n % 10) as u8));
        r
    }
}

pub fn i64_dec_chars(n: i64) -> (r: Vec<char>)
    ensures
        r@ == spec_dec_i64(n as int),
{
    if n >= 0 {
        u64_dec_chars(n as u64)
    } else {
        let m: u64 = if n == i64::MIN {
            9223372036854775808u64
        } else {
            (-n) as u64
        };
        let mut r: Vec<char> = Vec::new();
        r.push('-');
        let d = u64_dec_chars(m);
        let mut i: usize = 0;
        while i < d.len()
            invariant
                i <= d@.len(),
                r@ == seq!['-'] + d@.take(i as int),
            decreases d@.len() - i,
        {
            r.push(d[i]);
            proof {
                assert(r@ =~= seq!['-'] + d@.take(i + 1 as int));
            }
            i = i + 1;
        }
        proof {
            assert(seq!['-'] + d@.take(d@.len() as int) =~= seq!['-'] + d@);
        }
        r
    }
}

pub fn usize_dec_chars(n: usize) -> (r: Vec<char>)
    ensures
        r@ == spec_dec(n as nat),
{
    u64_dec_chars(n as u64)
}

/// A decimal digit character.
pub open spec fn is_digit(c: char) -> bool {
    '0' <= c && c <= '9'
}

pub open spec fn digit_val(c: char) -> int {
    c as int - 48
}

pub open spec fn all_digits(s: Seq<char>) -> bool {
    forall|k: int| 0 <= k < s.len() ==> is_digit(s[k])
}

/// The value of a sequence of decimal digit characters.
pub open spec fn digits_value(s: Seq<char>) -> int
    decreases s.len(),
{
    if s.len() == 0 {
        0
    } else {
        digits_value(s.drop_last()) * 10 + digit_val(s.last())
    }
}

/// Signed decimal parsing with the grammar of `i64::from_str`: an optional
/// sign, then one or more digits; rejects anything else and values outside
/// the `i64` range.
pub open spec fn spec_parse_i64(s: Seq<char>) -> Option<i64> {
    let ds = if s.len() > 0 && (s[0] == '-' || s[0] == '+') {
        s.drop_first()
    } else {
        s
    };
    let neg = s.len() > 0 && s[0] == '-';
    if ds.len() > 0 && all_digits(ds) {
        let v = if neg {
            -digits_value(ds)
        } else {
            digits_value(ds)
        };
        if i64::MIN <= v <= i64::MAX {
            Some(v as i64)
        } else {
            None
        }
    } else {
        None
    }
}

proof fn lemma_digits_nonneg(s: Seq<char>)
    requires
        all_digits(s),
    ensures
        digits_value(s) >= 0,
    decreases s.len(),
{
    if s.len() > 0 {
        lemma_digits_nonneg(s.drop_last());
    }
}

proof fn lemma_digits_extend(s: Seq<char>, j: int)
    requires
        0 <= j < s.len(),
    ensures
        digits_value(s.take(j + 1)) == digits_value(s.take(j)) * 10 + digit_val(s[j]),
{
    assert(s.take(j + 1).drop_last() =~= s.take(j));
    assert(s.take(j + 1).last() == s[j]);
}

proof fn lemma_digits_grow(s: Seq<char>, j: int)
    requires
        all_digits(s),
        0 <= j <= s.len(),
    ensures
        digits_value(s.take(j)) <= digits_value(s),
    decreases s.len() - j,
{
    if j == s.len() {
        assert(s.take(j) =~= s);
    } else {
        lemma_digits_extend(s, j);
        assert(all_digits(s.take(j))) by {
            assert(forall|k: int| 0 <= k < j ==> s.take(j)[k] == s[k]);
        }
        lemma_digits_nonneg(s.take(j));
        lemma_digits_grow(s, j + 1);
    }
}

pub fn parse_i64_chars(v: &Vec<char>) -> (r: Option<i64>)
    ensures
        r == spec_parse_i64(v@),
{
    let n = v.len();
    let mut start: usize = 0;
    let mut neg = false;
    if n > 0 && (v[0] == '-' || v[0] == '+') {
        start = 1;
        neg = v[0] == '-';
    }
    let ghost ds = if v@.len() > 0 && (v@[0] == '-' || v@[0] == '+') {
        v@.drop_first()
    } else {
        v@
    };
    proof {
        assert(ds =~= v@.subrange(start as int, n as int));
    }
    if start == n {
        return None;
    }
    let mut acc: u128 = 0;
    let mut i: usize = start;
    while i < n
        invariant
            start <= i <= n,
            n == v@.len(),
            start < n,
            ds == v@.subrange(start as int, n as int),
            ds == (if v@.len() > 0 && (v@[0] == '-' || v@[0] == '+') {
                v@.drop_first()
            } else {
                v@
            }),
            neg == (v@.len() > 0 && v@[0] == '-'),
            all_digits(ds.take(i - start)),
            acc == digits_value(ds.take(i - start)),
            acc <= 9223372036854775808u128,
        decreases n - i,
    {
        let c = v[i];
        if !('0' <= c && c <= '9') {
            proof {
                assert(ds[i - start] == c);
                assert(!all_digits(ds));
            }
            return None;
        }
        let d: u128 = (c as u8 - 48) as u128;
        proof {
            assert(d == digit_val(c));
            lemma_digits_extend(ds, i - start);
        }
        acc = acc * 10 + d;
        i = i + 1;
        proof {
            assert(all_digits(ds.take(i - start))) by {
                assert(forall|k: int|
                    0 <= k < i - start ==> ds.take((i - start) as int)[k] == ds[k]);
            }
        }
        if acc > 9223372036854775808u128 {
            proof {
                if all_digits(ds) {
                    lemma_digits_grow(ds, i - start);
                    assert(digits_value(ds) >= acc);
                }
            }
            return None;
        }
    }
    proof {
        assert(ds.take((n - start) as int) =~= ds);
    }
    if neg {
        if acc == 9223372036854775808u128 {
            Some(i64::MIN)
        } else {
            Some(-(acc as i64))
        }
    } else {
        if acc == 9223372036854775808u128 {
            None
        } else {
            Some(acc as i64)
        }
    }
}

/// The position of the first newline at or after `i`, or the length.
pub open spec fn first_nl_from(s: Seq<char>, i: int) -> int
    decreases s.len() - i,
{
    if i < 0 || i >= s.len() {
        s.len() as int
    } else if s[i] == '\n' {
        i
    } else {
        first_nl_from(s, i + 1)
    }
}

/// One line with a trailing carriage return removed.
pub open spec fn strip_cr(l: Seq<char>) -> Seq<char> {
    if l.len() > 0 && l.last() == '\r' {
        l.drop_last()
    } else {
        l
    }
}

/// The lines of a text, split as std's `str::lines` does: terminated or
/// separated by `\n`, with a trailing `\r` removed from each line.
pub open spec fn spec_lines_from(s: Seq<char>, i: int) -> Seq<Seq<char>>
    decreases s.len() + 1 - i,
    via spec_lines_from_dec
{
    if i < 0 || i >= s.len() {
        Seq::empty()
    } else {
        let j = first_nl_from(s, i);
        seq![strip_cr(s.subrange(i, j))] + spec_lines_from(s, j + 1)
    }
}

#[via_fn]
proof fn spec_lines_from_dec(s: Seq<char>, i: int) {
    if 0 <= i < s.len() {
        lemma_first_nl_bounds(s, i);
    }
}

pub open spec fn spec_lines(s: Seq<char>) -> Seq<Seq<char>> {
    spec_lines_from(s, 0)
}

proof fn lemma_first_nl_bounds(s: Seq<char>, i: int)
    requires
        0 <= i <= s.len(),
    ensures
        i <= first_nl_from(s, i) <= s.len(),
        forall|k: int| i <= k < first_nl_from(s, i) ==> s[k] != '\n',
        first_nl_from(s, i) < s.len() ==> s[first_nl_from(s, i)] == '\n',
    decreases s.len() - i,
{
    if i < s.len() && s[i] != '\n' {
        lemma_first_nl_bounds(s, i + 1);
    }
}

proof fn lemma_first_nl_at(s: Seq<char>, i: int, j: int)
    requires
        0 <= i <= j <= s.len(),
        forall|k: int| i <= k < j ==> s[k] != '\n',
        j < s.len() ==> s[j] == '\n',
    ensures
        first_nl_from(s, i) == j,
    decreases j - i,
{
    if i < j {
        lemma_first_nl_at(s, i + 1, j);
    }
}

fn line_slice(v: &Vec<char>, a: usize, b: usize) -> (r: String)
    requires
        a <= b <= v@.len(),
    ensures
        r@ == strip_cr(v@.subrange(a as int, b as int)),
{
    let mut e = b;
    if b > a && v[b - 1] == '\r' {
        e = b - 1;
    }
    let mut r: Vec<char> = Vec::new();
    let mut i: usize = a;
    while i < e
        invariant
            a <= i <= e <= v@.len(),
            r@ == v@.subrange(a as int, i as int),
        decreases e - i,
    {
        r.push(v[i]);
        proof {
            assert(r@ =~= v@.subrange(a as int, i + 1 as int));
        }
        i = i + 1;
    }
    proof {
        if b > a && v@[b - 1] == '\r' {
            assert(v@.subrange(a as int, b as int).last() == v@[b - 1]);
            assert(v@.subrange(a as int, b - 1) =~= v@.subrange(a as int, b as int).drop_last());
        }
    }
    chars_string(&r)
}

/// The text split into lines, as `str::lines` splits it.
pub fn split_lines(text: &str) -> (r: Vec<String>)
    ensures
        r.deep_view() == spec_lines(text@),
{
    let v = str_chars(text);
    let n = v.len();
    let mut r: Vec<String> = Vec::new();
    let mut i: usize = 0;
    while i < n
        invariant
            i <= n + 1,
            n == v@.len(),
            v@ == text@,
            r.deep_view() + spec_lines_from(v@, i as int) == spec_lines(v@),
        decreases n + 1 - i,
    {
        let mut j: usize = i;
        while j < n && v[j] != '\n'
            invariant
                i <= j <= n,
                n == v@.len(),
                forall|k: int| i <= k < j ==> v@[k] != '\n',
            decreases n - j,
        {
            j = j + 1;
        }
        proof {
            lemma_first_nl_at(v@, i as int, j as int);
        }
        let line = line_slice(&v, i, j);
        let ghost old_rs = r.deep_view();
        r.push(line);
        proof {
            assert(r.deep_view() =~= old_rs + seq![line@]);
            assert(old_rs + (seq![strip_cr(v@.subrange(i as int, j as int))] + spec_lines_from(
                v@,
                j + 1,
            )) =~= (old_rs + seq![line@]) + spec_lines_from(v@, j + 1));
        }
        if j == n {
            proof {
                assert(spec_lines_from(v@, j + 1) =~= spec_lines_from(v@, n as int));
            }
            i = n;
        } else {
            i = j + 1;
        }
    }
    proof {
        assert(r.deep_view() + spec_lines_from(v@, i as int) =~= r.deep_view());
    }
    r
}

/// Lines joined with a newline separator between them.
pub open spec fn spec_join(ls: Seq<Seq<char>>) -> Seq<char>
    decreases ls.len(),
{
    if ls.len() == 0 {
        Seq::empty()
    } else if ls.len() == 1 {
        ls[0]
    } else {
        spec_join(ls.drop_last()) + seq!['\n'] + ls.last()
    }
}

pub fn join_lines(ls: &Vec<String>) -> (r: String)
    ensures
        r@ == spec_join(ls.deep_view()),
{
    let mut r = String::new();
    let mut i: usize = 0;
    while i < ls.len()
        invariant
            i <= ls@.len(),
            ls.deep_view().len() == ls@.len(),
            r@ == spec_join(ls.deep_view().take(i as int)),
        decreases ls@.len() - i,
    {
        if i > 0 {
            push_char(&mut r, '\n');
        }
        let cs = str_chars(ls[i].as_str());
        append_chars(&mut r, &cs);
        proof {
            let dv = ls.deep_view();
            assert(ls[i as int]@ == dv[i as int]);
            assert(dv.take(i + 1 as int).drop_last() =~= dv.take(i as int));
            assert(dv.take(i + 1 as int).last() == dv[i as int]);
            if i == 0 {
                assert(spec_join(dv.take(1)) == dv[0]);
                assert(Seq::<char>::empty() + dv[0] =~= dv[0]);
            } else {
                assert(spec_join(dv.take(i + 1 as int)) == spec_join(dv.take(i as int))
                    + seq!['\n'] + dv[i as int]);
            }
        }
        i = i + 1;
    }
    proof {
        assert(ls.deep_view().take(ls@.len() as int) =~= ls.deep_view());
    }
    r
}

} // verus!
