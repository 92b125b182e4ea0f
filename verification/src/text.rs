//! Strings as sequences of characters: the small toolkit that the rest of the
//! crate parses and renders with.

use vstd::prelude::*;

verus! {

broadcast use {vstd::utf8::encode_utf8_decode_utf8, vstd::slice::axiom_spec_len};

// ---------------------------------------------------------------------------
// Characters
// ---------------------------------------------------------------------------

/// `c` is one of `0` to `9`.
pub open spec fn is_digit(c: char) -> bool {
    '0' <= c && c <= '9'
}

/// `c` is one of `a` to `z`.
pub open spec fn is_lower(c: char) -> bool {
    'a' <= c && c <= 'z'
}

/// `c` is one of `A` to `Z`.
pub open spec fn is_upper(c: char) -> bool {
    'A' <= c && c <= 'Z'
}

/// Every character of `s` is a digit.
pub open spec fn all_digits(s: Seq<char>) -> bool {
    forall|i: int| 0 <= i < s.len() ==> is_digit(#[trigger] s[i])
}

/// The ASCII lower-case form of one character; anything but `A` to `Z` is kept.
pub open spec fn lower_char(c: char) -> char {
    if is_upper(c) {
        ((c as u32) + 32) as char
    } else {
        c
    }
}

/// The ASCII lower-case form of a text.
pub open spec fn lower(s: Seq<char>) -> Seq<char> {
    Seq::new(s.len(), |i: int| lower_char(s[i]))
}

/// The Unicode `White_Space` property.
pub open spec fn is_white(c: char) -> bool {
    let u = c as u32;
    ||| 0x9 <= u <= 0xD
    ||| u == 0x20 || u == 0x85 || u == 0xA0 || u == 0x1680
    ||| 0x2000 <= u <= 0x200A
    ||| u == 0x2028 || u == 0x2029 || u == 0x202F || u == 0x205F || u == 0x3000
}

/// Length of `s` in bytes, encoded as UTF-8.
pub open spec fn byte_len(s: Seq<char>) -> nat {
    vstd::utf8::encode_utf8(s).len()
}

pub fn is_digit_char(c: char) -> (r: bool)
    ensures
        r == is_digit(c),
{
    '0' <= c && c <= '9'
}

pub fn is_lower_char(c: char) -> (r: bool)
    ensures
        r == is_lower(c),
{
    'a' <= c && c <= 'z'
}

pub fn is_upper_char(c: char) -> (r: bool)
    ensures
        r == is_upper(c),
{
    'A' <= c && c <= 'Z'
}

pub fn to_lower_char(c: char) -> (r: char)
    ensures
        r == lower_char(c),
{
    if 'A' <= c && c <= 'Z' {
        (c as u8 + 32) as char
    } else {
        c
    }
}

/// Appends one character.
///
/// Stands for `String::push`, which appends the given character to the end of
/// the string.
pub assume_specification[ String::push ](s: &mut String, c: char)
    ensures
        final(s)@ == old(s)@.push(c),
;

/// The characters of `s`, in order.
pub fn chars_of(s: &str) -> (r: Vec<char>)
    ensures
        r@ == s@,
{
    let mut out: Vec<char> = Vec::new();
    for c in it: s.chars()
        invariant
            out@ == s@.take(it.index()),
            it.seq() == s@,
    {
        out.push(c);
    }
    out
}

/// The string made of the given characters.
pub fn string_of(s: &[char]) -> (r: String)
    ensures
        r@ == s@,
{
    let mut out = String::new();
    let mut i: usize = 0;
    while i < s.len()
        invariant
            i <= s.len(),
            out@ == s@.take(i as int),
        decreases s.len() - i,
    {
        out.push(s[i]);
        i += 1;
    }
    out
}

/// Whether two texts are equal.
pub fn same(a: &str, b: &str) -> (r: bool)
    ensures
        r == (a@ == b@),
{
    let x = a.as_bytes();
    let y = b.as_bytes();
    if x.len() != y.len() {
        assert(a@ != b@);
        return false;
    }
    let mut i: usize = 0;
    while i < x.len()
        invariant
            i <= x.len(),
            x.len() == y.len(),
            x@ == vstd::utf8::encode_utf8(a@),
            y@ == vstd::utf8::encode_utf8(b@),
            forall|j: int| 0 <= j < i ==> x@[j] == y@[j],
        decreases x.len() - i,
    {
        if x[i] != y[i] {
            assert(a@ != b@);
            return false;
        }
        i += 1;
    }
    assert(x@ =~= y@);
    assert(vstd::utf8::decode_utf8(vstd::utf8::encode_utf8(a@)) == a@);
    assert(vstd::utf8::decode_utf8(vstd::utf8::encode_utf8(b@)) == b@);
    true
}

/// Whether two character runs are equal.
pub fn same_chars(a: &[char], b: &[char]) -> (r: bool)
    ensures
        r == (a@ == b@),
{
    if a.len() != b.len() {
        return false;
    }
    let mut i: usize = 0;
    while i < a.len()
        invariant
            i <= a.len(),
            a.len() == b.len(),
            forall|j: int| 0 <= j < i ==> a@[j] == b@[j],
        decreases a.len() - i,
    {
        if a[i] != b[i] {
            return false;
        }
        i += 1;
    }
    assert(a@ =~= b@);
    true
}

/// Length of a text in bytes.
pub fn byte_len_of(s: &str) -> (r: usize)
    ensures
        r == byte_len(s@),
{
    s.as_bytes().len()
}

/// Whether every character is a digit.
pub fn are_digits(s: &[char]) -> (r: bool)
    ensures
        r == all_digits(s@),
{
    let mut i: usize = 0;
    while i < s.len()
        invariant
            i <= s.len(),
            forall|j: int| 0 <= j < i ==> is_digit(#[trigger] s@[j]),
        decreases s.len() - i,
    {
        if !is_digit_char(s[i]) {
            assert(!is_digit(s@[i as int]));
            return false;
        }
        i += 1;
    }
    true
}

/// The ASCII lower-case form of the given characters.
pub fn lower_chars(s: &[char]) -> (r: Vec<char>)
    ensures
        r@ == lower(s@),
{
    let mut out: Vec<char> = Vec::new();
    let mut i: usize = 0;
    while i < s.len()
        invariant
            i <= s.len(),
            out@.len() == i,
            forall|j: int| 0 <= j < i ==> out@[j] == lower_char(s@[j]),
        decreases s.len() - i,
    {
        out.push(to_lower_char(s[i]));
        i += 1;
    }
    assert(out@ =~= lower(s@));
    out
}

/// The ASCII lower-case form of a text.
pub fn lower_of(s: &str) -> (r: String)
    ensures
        r@ == lower(s@),
{
    string_of(lower_chars(chars_of(s).as_slice()).as_slice())
}

// ---------------------------------------------------------------------------
// Searching
// ---------------------------------------------------------------------------

/// Position of the first `c` in `s`; `s.len()` where there is none.
pub open spec fn first_at(s: Seq<char>, c: char) -> int
    decreases s.len(),
{
    if s.len() == 0 || s[0] == c {
        0
    } else {
        1 + first_at(s.drop_first(), c)
    }
}

/// What follows the last `c` of `s`; all of `s` where there is none.
pub open spec fn after_last(s: Seq<char>, c: char) -> Seq<char>
    decreases s.len(),
{
    if s.len() == 0 || s.last() == c {
        Seq::empty()
    } else {
        after_last(s.drop_last(), c).push(s.last())
    }
}

/// `p` stands in `s` at position `i`.
pub open spec fn text_at(s: Seq<char>, p: Seq<char>, i: int) -> bool {
    &&& 0 <= i <= s.len() - p.len()
    &&& s.subrange(i, i + p.len()) == p
}

/// `p` stands somewhere in `s`.
pub open spec fn contains_text(s: Seq<char>, p: Seq<char>) -> bool {
    exists|i: int| text_at(s, p, i)
}

/// The first `c` is at `k`, or `k` is the length and there is none.
pub proof fn lemma_first_at(s: Seq<char>, c: char, k: int)
    requires
        0 <= k <= s.len(),
        forall|j: int| 0 <= j < k ==> s[j] != c,
        k < s.len() ==> s[k] == c,
    ensures
        first_at(s, c) == k,
    decreases s.len(),
{
    if s.len() > 0 && s[0] != c {
        let t = s.drop_first();
        assert forall|j: int| 0 <= j < k - 1 implies t[j] != c by {
            assert(t[j] == s[j + 1]);
        }
        lemma_first_at(t, c, k - 1);
    }
}

/// What `first_at` says of the characters before it and at it.
pub proof fn lemma_first_at_is_first(s: Seq<char>, c: char)
    ensures
        0 <= first_at(s, c) <= s.len(),
        forall|j: int| 0 <= j < first_at(s, c) ==> s[j] != c,
        first_at(s, c) < s.len() ==> s[first_at(s, c)] == c,
        first_at(s, c) < s.len() <==> s.contains(c),
    decreases s.len(),
{
    if s.len() > 0 && s[0] != c {
        let t = s.drop_first();
        lemma_first_at_is_first(t, c);
        assert forall|j: int| 0 <= j < first_at(s, c) implies s[j] != c by {
            if j > 0 {
                assert(t[j - 1] == s[j]);
            }
        }
    }
    assert(first_at(s, c) < s.len() ==> s.contains(c));
    if s.contains(c) {
        let i = choose|i: int| 0 <= i < s.len() && s[i] == c;
        if first_at(s, c) >= s.len() {
            assert(s[i] != c);
        }
    }
}

/// Position of the first `c`; the length where there is none.
pub fn find_char(s: &[char], c: char) -> (r: usize)
    ensures
        r == first_at(s@, c),
        r <= s@.len(),
        forall|j: int| 0 <= j < r ==> s@[j] != c,
        r < s@.len() ==> s@[r as int] == c,
{
    let mut i: usize = 0;
    while i < s.len() && s[i] != c
        invariant
            i <= s.len(),
            forall|j: int| 0 <= j < i ==> s@[j] != c,
        decreases s.len() - i,
    {
        i += 1;
    }
    proof {
        lemma_first_at(s@, c, i as int);
    }
    i
}

proof fn lemma_after_last(s: Seq<char>, c: char, k: int)
    requires
        0 <= k <= s.len(),
        forall|j: int| k <= j < s.len() ==> s[j] != c,
        k > 0 ==> s[k - 1] == c,
    ensures
        after_last(s, c) == s.skip(k),
    decreases s.len(),
{
    if s.len() > 0 && s.last() != c {
        if k == s.len() {
            assert(s[k - 1] == c);
        }
        lemma_after_last(s.drop_last(), c, k);
        assert(s.skip(k) =~= s.drop_last().skip(k).push(s.last()));
    } else {
        if s.len() > 0 && k < s.len() {
            assert(s[s.len() - 1] != c);
        }
        assert(s.skip(k) =~= Seq::<char>::empty());
    }
}

/// Position just past the last `c`; 0 where there is none.
pub fn find_past_last(s: &[char], c: char) -> (r: usize)
    ensures
        r <= s@.len(),
        s@.skip(r as int) == after_last(s@, c),
        forall|j: int| r <= j < s@.len() ==> s@[j] != c,
        r > 0 ==> s@[r - 1] == c,
{
    let mut i: usize = s.len();
    while i > 0 && s[i - 1] != c
        invariant
            i <= s.len(),
            forall|j: int| i <= j < s.len() ==> s@[j] != c,
        decreases i,
    {
        i -= 1;
    }
    proof {
        lemma_after_last(s@, c, i as int);
    }
    i
}

/// The text after the last `c`; the whole text where there is none.
pub fn text_after_last(s: &str, c: char) -> (r: String)
    ensures
        r@ == after_last(s@, c),
{
    let v = chars_of(s);
    let k = find_past_last(v.as_slice(), c);
    string_of(vstd::slice::slice_subrange(v.as_slice(), k, v.len()))
}

/// Whether `p` stands in `s` at `i`.
pub fn stands_at(s: &[char], p: &[char], i: usize) -> (r: bool)
    ensures
        r == text_at(s@, p@, i as int),
{
    if p.len() > s.len() || i > s.len() - p.len() {
        return false;
    }
    same_chars(vstd::slice::slice_subrange(s, i, i + p.len()), p)
}

/// Whether `s` begins with `p`.
pub fn starts_with(s: &[char], p: &[char]) -> (r: bool)
    ensures
        r == p@.is_prefix_of(s@),
{
    stands_at(s, p, 0)
}

/// Whether `s` ends with `p`.
pub fn ends_with(s: &[char], p: &[char]) -> (r: bool)
    ensures
        r == p@.is_suffix_of(s@),
{
    if p.len() > s.len() {
        return false;
    }
    stands_at(s, p, s.len() - p.len())
}

/// Whether `p` stands somewhere in `s`.
pub fn has_text(s: &str, p: &str) -> (r: bool)
    ensures
        r == contains_text(s@, p@),
{
    let v = chars_of(s);
    let w = chars_of(p);
    if w.len() > v.len() {
        return false;
    }
    let mut i: usize = 0;
    while i <= v.len() - w.len()
        invariant
            v@ == s@,
            w@ == p@,
            w.len() <= v.len(),
            i <= v.len() - w.len() + 1,
            forall|j: int| 0 <= j < i ==> !text_at(s@, p@, j),
        decreases v.len() - w.len() + 1 - i,
    {
        if stands_at(v.as_slice(), w.as_slice(), i) {
            return true;
        }
        if i == v.len() - w.len() {
            return false;
        }
        i += 1;
    }
    false
}

/// Position of the first `p` in `s`, if there is one.
pub open spec fn first_text(s: Seq<char>, p: Seq<char>) -> Option<int>
    decreases s.len(),
{
    if p.is_prefix_of(s) {
        Some(0)
    } else if s.len() == 0 {
        None
    } else {
        match first_text(s.drop_first(), p) {
            Some(k) => Some(k + 1),
            None => None,
        }
    }
}

/// A text stands first where it stands and its first character does not occur
/// before.
pub proof fn lemma_first_text(s: Seq<char>, p: Seq<char>, k: int)
    requires
        p.len() > 0,
        text_at(s, p, k),
        forall|i: int| 0 <= i < k ==> #[trigger] s[i] != p[0],
    ensures
        first_text(s, p) == Some(k),
    decreases k,
{
    if k == 0 {
        assert(p.is_prefix_of(s));
    } else {
        assert(s[0] != p[0]);
        assert(!p.is_prefix_of(s)) by {
            if p.is_prefix_of(s) {
                assert(s.subrange(0, p.len() as int)[0] == p[0]);
            }
        }
        let d = s.drop_first();
        assert(d.subrange(k - 1, k - 1 + p.len()) =~= s.subrange(k, k + p.len()));
        assert forall|i: int| 0 <= i < k - 1 implies #[trigger] d[i] != p[0] by {
            assert(d[i] == s[i + 1]);
        }
        lemma_first_text(d, p, k - 1);
    }
}

/// What stands in front of the first character that stops the text.
pub open spec fn text_until(s: Seq<char>, stops: spec_fn(char) -> bool) -> Seq<char>
    decreases s.len(),
{
    if s.len() == 0 || stops(s[0]) {
        Seq::empty()
    } else {
        seq![s[0]] + text_until(s.drop_first(), stops)
    }
}

/// Where the text is stopped.
pub proof fn lemma_text_until(s: Seq<char>, stops: spec_fn(char) -> bool, k: int)
    requires
        0 <= k <= s.len(),
        forall|i: int| 0 <= i < k ==> !stops(#[trigger] s[i]),
        k < s.len() ==> stops(s[k]),
    ensures
        text_until(s, stops) == s.take(k),
    decreases s.len(),
{
    if k == 0 {
        assert(s.take(0) =~= Seq::<char>::empty());
    } else {
        let d = s.drop_first();
        assert(!stops(s[0]));
        assert forall|i: int| 0 <= i < k - 1 implies !stops(#[trigger] d[i]) by {
            assert(d[i] == s[i + 1]);
        }
        lemma_text_until(d, stops, k - 1);
        assert(seq![s[0]] + d.take(k - 1) =~= s.take(k));
    }
}

/// Position of the first `p` in `s`, if there is one.
pub fn find_text(s: &[char], p: &[char]) -> (r: Option<usize>)
    ensures
        match first_text(s@, p@) {
            Some(k) => r is Some && r->Some_0 == k && k + p@.len() <= s@.len(),
            None => r is None,
        },
{
    assert(s@.skip(0) =~= s@);
    let mut i: usize = 0;
    loop
        invariant
            i <= s@.len(),
            first_text(s@, p@) == (match first_text(s@.skip(i as int), p@) {
                Some(k) => Some(k + i),
                None => None,
            }),
        decreases s@.len() - i,
    {
        let rest = vstd::slice::slice_subrange(s, i, s.len());
        assert(rest@ =~= s@.skip(i as int));
        if starts_with(rest, p) {
            return Some(i);
        }
        if i == s.len() {
            return None;
        }
        assert(rest@.drop_first() =~= s@.skip(i + 1));
        i += 1;
    }
}

// ---------------------------------------------------------------------------
// Trimming
// ---------------------------------------------------------------------------

/// `s` without its leading white space.
pub open spec fn trim_start(s: Seq<char>) -> Seq<char>
    decreases s.len(),
{
    if s.len() > 0 && is_white(s[0]) {
        trim_start(s.drop_first())
    } else {
        s
    }
}

/// `s` without its trailing white space.
pub open spec fn trim_end(s: Seq<char>) -> Seq<char>
    decreases s.len(),
{
    if s.len() > 0 && is_white(s.last()) {
        trim_end(s.drop_last())
    } else {
        s
    }
}

/// `s` without leading and trailing white space.
pub open spec fn trim(s: Seq<char>) -> Seq<char> {
    trim_end(trim_start(s))
}

pub fn is_white_char(c: char) -> (r: bool)
    ensures
        r == is_white(c),
{
    let u = c as u32;
    (0x9 <= u && u <= 0xD) || u == 0x20 || u == 0x85 || u == 0xA0 || u == 0x1680
        || (0x2000 <= u && u <= 0x200A) || u == 0x2028 || u == 0x2029 || u == 0x202F
        || u == 0x205F || u == 0x3000
}

/// `s` without leading and trailing white space.
pub fn trim_of(s: &str) -> (r: String)
    ensures
        r@ == trim(s@),
{
    let v = chars_of(s);
    assert(s@.skip(0) =~= s@);
    let mut a: usize = 0;
    while a < v.len() && is_white_char(v[a])
        invariant
            v@ == s@,
            a <= v.len(),
            trim_start(s@) == trim_start(s@.skip(a as int)),
        decreases v.len() - a,
    {
        assert(s@.skip(a as int).drop_first() =~= s@.skip(a + 1));
        a += 1;
    }
    assert(trim_start(s@) == s@.skip(a as int));
    let mut b: usize = v.len();
    assert(s@.skip(a as int) =~= s@.subrange(a as int, b as int));
    while b > a && is_white_char(v[b - 1])
        invariant
            v@ == s@,
            a <= b <= v.len(),
            trim(s@) == trim_end(s@.subrange(a as int, b as int)),
        decreases b,
    {
        assert(s@.subrange(a as int, b as int).drop_last() =~= s@.subrange(a as int, b - 1));
        b -= 1;
    }
    string_of(vstd::slice::slice_subrange(v.as_slice(), a, b))
}

// ---------------------------------------------------------------------------
// Numbers and lists
// ---------------------------------------------------------------------------

/// The character of a decimal digit.
pub open spec fn digit_char(d: nat) -> char {
    (48 + d) as char
}

/// `n` in decimal, without leading zeros.
pub open spec fn decimal(n: nat) -> Seq<char>
    decreases n,
{
    if n < 10 {
        seq![digit_char(n)]
    } else {
        decimal(n / 10).push(digit_char(n % 10))
    }
}

/// `n` in decimal, with a minus sign where it is negative.
pub open spec fn decimal_int(n: int) -> Seq<char> {
    if n < 0 {
        seq!['-'] + decimal((-n) as nat)
    } else {
        decimal(n as nat)
    }
}

/// `n` in decimal, with a minus sign where it is negative.
pub fn decimal_int_of(n: i64) -> (r: String)
    ensures
        r@ == decimal_int(n as int),
{
    if n < 0 {
        let mut out = String::new();
        out.push('-');
        let m: u64 = (-(n as i128)) as u64;
        out.append(decimal_of(m).as_str());
        assert(out@ =~= decimal_int(n as int));
        out
    } else {
        decimal_of(n as u64)
    }
}

/// `n` in decimal, without leading zeros.
pub fn decimal_of(n: u64) -> (r: String)
    ensures
        r@ == decimal(n as nat),
    decreases n,
{
    if n < 10 {
        let mut out = String::new();
        out.push((48 + n as u8) as char);
        assert(out@ =~= decimal(n as nat));
        out
    } else {
        let mut out = decimal_of(n / 10);
        out.push((48 + (n % 10) as u8) as char);
        out
    }
}

/// The number that a run of digits stands for.
pub open spec fn decimal_value(s: Seq<char>) -> nat
    decreases s.len(),
{
    if s.len() == 0 {
        0
    } else {
        (decimal_value(s.drop_last()) * 10 + (s.last() as nat - 48)) as nat
    }
}

/// The number that a text stands for: an optional `+` and one or more digits,
/// not above the largest 64-bit number.
pub open spec fn unsigned_of(s: Seq<char>) -> Option<u64> {
    let d = if s.len() > 0 && s[0] == '+' {
        s.skip(1)
    } else {
        s
    };
    if d.len() > 0 && all_digits(d) && decimal_value(d) <= u64::MAX {
        Some(decimal_value(d) as u64)
    } else {
        None
    }
}

proof fn lemma_decimal_value_grows(s: Seq<char>, k: int)
    requires
        0 <= k <= s.len(),
        all_digits(s),
    ensures
        decimal_value(s.take(k)) <= decimal_value(s),
    decreases s.len() - k,
{
    if k < s.len() {
        lemma_decimal_value_grows(s, k + 1);
        let t = s.take(k + 1);
        assert(t.drop_last() =~= s.take(k));
        assert(is_digit(s[k]));
    } else {
        assert(s.take(k) =~= s);
    }
}

/// Reads an unsigned number.
pub fn parse_unsigned(s: &str) -> (r: Option<u64>)
    ensures
        r == unsigned_of(s@),
{
    let v = chars_of(s);
    let from: usize = if v.len() > 0 && v[0] == '+' {
        1
    } else {
        0
    };
    let d = vstd::slice::slice_subrange(v.as_slice(), from, v.len());
    let ghost rest = if s@.len() > 0 && s@[0] == '+' {
        s@.skip(1)
    } else {
        s@
    };
    assert(d@ =~= rest);
    if d.len() == 0 || !are_digits(d) {
        return None;
    }
    let mut n: u64 = 0;
    let mut i: usize = 0;
    while i < d.len()
        invariant
            i <= d.len(),
            d@ == rest,
            all_digits(rest),
            n == decimal_value(rest.take(i as int)),
            rest.len() > 0,
            unsigned_of(s@) == (if decimal_value(rest) <= u64::MAX {
                Some(decimal_value(rest) as u64)
            } else {
                None
            }),
        decreases d.len() - i,
    {
        assert(is_digit(rest[i as int]));
        let digit = d[i] as u64 - 48;
        proof {
            assert(rest.take(i + 1).drop_last() =~= rest.take(i as int));
            lemma_decimal_value_grows(rest, i + 1);
        }
        if n > (u64::MAX - digit) / 10 {
            assert(decimal_value(rest.take(i + 1)) > u64::MAX);
            return None;
        }
        n = n * 10 + digit;
        i += 1;
    }
    assert(rest.take(i as int) =~= rest);
    Some(n)
}

/// The texts one after another, with `sep` between neighbours.
pub open spec fn join(parts: Seq<Seq<char>>, sep: Seq<char>) -> Seq<char>
    decreases parts.len(),
{
    if parts.len() == 0 {
        Seq::empty()
    } else if parts.len() == 1 {
        parts[0]
    } else {
        join(parts.drop_last(), sep) + sep + parts.last()
    }
}

/// The contents of a list of strings.
pub open spec fn views(v: Seq<String>) -> Seq<Seq<char>> {
    Seq::new(v.len(), |i: int| v[i]@)
}

/// The content of an optional string.
pub open spec fn opt_view(o: Option<String>) -> Option<Seq<char>> {
    match o {
        Some(s) => Some(s@),
        None => None,
    }
}

/// The texts one after another, with `sep` between neighbours.
pub fn join_of(parts: &[String], sep: &str) -> (r: String)
    ensures
        r@ == join(views(parts@), sep@),
{
    let mut out = String::new();
    let mut i: usize = 0;
    while i < parts.len()
        invariant
            i <= parts.len(),
            out@ == join(views(parts@).take(i as int), sep@),
        decreases parts.len() - i,
    {
        let ghost before = out@;
        if i > 0 {
            out.append(sep);
        }
        out.append(parts[i].as_str());
        proof {
            let t = views(parts@).take(i + 1);
            assert(t.drop_last() =~= views(parts@).take(i as int));
            assert(t.last() == parts@[i as int]@);
            if i == 0 {
                assert(before =~= Seq::<char>::empty());
                assert(out@ =~= t[0]);
            }
        }
        i += 1;
    }
    assert(views(parts@).take(i as int) =~= views(parts@));
    out
}

/// Copies a list of strings.
pub fn copy_strings(v: &Vec<String>) -> (r: Vec<String>)
    ensures
        r@ == v@,
{
    let mut out: Vec<String> = Vec::new();
    let mut i: usize = 0;
    while i < v.len()
        invariant
            i <= v.len(),
            out@ == v@.take(i as int),
        decreases v.len() - i,
    {
        out.push(v[i].clone());
        i += 1;
    }
    assert(v@.take(i as int) =~= v@);
    out
}

/// Lower-casing twice is lower-casing once.
pub proof fn lemma_lower_idempotent(s: Seq<char>)
    ensures
        lower(lower(s)) == lower(s),
{
    assert forall|i: int| 0 <= i < s.len() implies lower(lower(s))[i] == lower(s)[i] by {
        let c = s[i];
        if is_upper(c) {
            assert(!is_upper(lower_char(c)));
        }
    }
    assert(lower(lower(s)) =~= lower(s));
}

/// Trimming what was trimmed changes nothing.
pub proof fn lemma_trim_idempotent(s: Seq<char>)
    ensures
        trim(trim(s)) == trim(s),
{
    lemma_trim_ends(s);
    let t = trim_start(s);
    lemma_trim_end_keeps_front(t);
}

proof fn lemma_trim_ends(s: Seq<char>)
    ensures
        trim_start(s).len() > 0 ==> !is_white(trim_start(s)[0]),
    decreases s.len(),
{
    if s.len() > 0 && is_white(s[0]) {
        lemma_trim_ends(s.drop_first());
    }
}

proof fn lemma_trim_end_keeps_front(s: Seq<char>)
    ensures
        trim_end(s).len() <= s.len(),
        trim_end(s).len() > 0 ==> trim_end(s)[0] == s[0] && !is_white(trim_end(s).last()),
    decreases s.len(),
{
    if s.len() > 0 && is_white(s.last()) {
        lemma_trim_end_keeps_front(s.drop_last());
    }
}

// ---------------------------------------------------------------------------
// Laws
// ---------------------------------------------------------------------------

/// What follows the last of a character is what stands behind it, and the whole
/// text where the character does not occur.
pub proof fn law_after_last_is_the_rest(a: Seq<char>, c: char, b: Seq<char>)
    requires
        !b.contains(c),
    ensures
        after_last(a.push(c) + b, c) == b,
        after_last(b, c) == b,
{
    assert forall|j: int| 0 <= j < b.len() implies b[j] != c by {
        assert(b.contains(b[j]));
    }
    let s = a.push(c) + b;
    let k = a.len() + 1int;
    assert forall|j: int| k <= j < s.len() implies s[j] != c by {
        assert(s[j] == b[j - k]);
    }
    assert(s[k - 1] == c);
    lemma_after_last(s, c, k);
    assert(s.skip(k) =~= b);
    lemma_after_last(b, c, 0);
    assert(b.skip(0) =~= b);
}

/// Lower case changes `A` to `Z` and nothing else.
pub proof fn law_lower_case_changes_capitals_only(s: Seq<char>)
    ensures
        lower(s).len() == s.len(),
        forall|i: int|
            0 <= i < s.len() ==> if 'A' <= s[i] && s[i] <= 'Z' {
                #[trigger] lower(s)[i] as int == s[i] as int + 32
            } else {
                lower(s)[i] == s[i]
            },
{
}

/// Trimming takes white space off both ends and nothing else: the text is what
/// is left with white space in front of it and behind it, and what is left
/// neither begins nor ends with any.
pub proof fn law_trimming_takes_white_space_only(s: Seq<char>) -> (r: (Seq<char>, Seq<char>))
    ensures
        s == r.0 + trim(s) + r.1,
        forall|i: int| 0 <= i < r.0.len() ==> is_white(#[trigger] r.0[i]),
        forall|i: int| 0 <= i < r.1.len() ==> is_white(#[trigger] r.1[i]),
        trim(s).len() > 0 ==> !is_white(trim(s)[0]) && !is_white(trim(s).last()),
{
    let t = trim_start(s);
    let u = trim_end(t);
    lemma_trim_ends(s);
    lemma_trim_end_keeps_front(t);
    let a = lemma_trimmed_front(s);
    let b = lemma_trimmed_back(t);
    assert(s =~= a + u + b);
    (a, b)
}

proof fn lemma_trimmed_front(s: Seq<char>) -> (a: Seq<char>)
    ensures
        s == a + trim_start(s),
        forall|i: int| 0 <= i < a.len() ==> is_white(#[trigger] a[i]),
    decreases s.len(),
{
    if s.len() > 0 && is_white(s[0]) {
        let b = lemma_trimmed_front(s.drop_first());
        let a = seq![s[0]] + b;
        let d = s.drop_first();
        assert(d == b + trim_start(d));
        assert(s =~= seq![s[0]] + d);
        assert(s =~= a + trim_start(d));
        assert forall|i: int| 0 <= i < a.len() implies is_white(#[trigger] a[i]) by {
            if i > 0 {
                assert(a[i] == b[i - 1]);
            }
        }
        a
    } else {
        assert(s =~= Seq::<char>::empty() + trim_start(s));
        Seq::empty()
    }
}

proof fn lemma_trimmed_back(s: Seq<char>) -> (b: Seq<char>)
    ensures
        s == trim_end(s) + b,
        forall|i: int| 0 <= i < b.len() ==> is_white(#[trigger] b[i]),
    decreases s.len(),
{
    if s.len() > 0 && is_white(s.last()) {
        let a = lemma_trimmed_back(s.drop_last());
        let b = a.push(s.last());
        let d = s.drop_last();
        assert(d == trim_end(d) + a);
        assert(s =~= d.push(s.last()));
        assert(s =~= trim_end(d) + b);
        b
    } else {
        assert(s =~= trim_end(s) + Seq::<char>::empty());
        Seq::empty()
    }
}

/// White space is what Unicode calls so: the tab to the carriage return, the
/// space, the two separators and the other spaces.
pub proof fn law_white_space_is_that_of_unicode(c: char)
    ensures
        is_white(c) <==> (9 <= c as int <= 13) || (0x2000 <= c as int <= 0x200A) || set![
            0x20int,
            0x85int,
            0xA0int,
            0x1680int,
            0x2028int,
            0x2029int,
            0x202Fint,
            0x205Fint,
            0x3000int,
        ].contains(c as int),
{
}

proof fn lemma_decimal_parts(n: nat)
    ensures
        decimal_value(decimal(n)) == n,
        decimal(n).len() > 0,
        all_digits(decimal(n)),
        n > 0 ==> decimal(n)[0] != '0',
    decreases n,
{
    if n < 10 {
        let s = seq![digit_char(n)];
        assert(s.drop_last() =~= Seq::<char>::empty());
        assert(decimal_value(s.drop_last()) == 0);
        assert(s.last() as nat - 48 == n);
    } else {
        lemma_decimal_parts(n / 10);
        let t = decimal(n / 10);
        let s = t.push(digit_char(n % 10));
        assert(s.drop_last() =~= t);
        assert(s.last() as nat - 48 == n % 10);
        assert(s[0] == t[0]);
        assert forall|i: int| 0 <= i < s.len() implies is_digit(#[trigger] s[i]) by {
            if i < t.len() {
                assert(s[i] == t[i]);
            }
        }
    }
}

/// A number in decimal reads back as that number; it is made of digits, the
/// first of which is zero for zero alone.
pub proof fn law_decimal_reads_back(n: nat)
    ensures
        n <= u64::MAX ==> unsigned_of(decimal(n)) == Some(n as u64),
        decimal(n).len() > 0,
        forall|i: int| 0 <= i < decimal(n).len() ==> '0' <= #[trigger] decimal(n)[i] && decimal(
            n,
        )[i] <= '9',
        n > 0 ==> decimal(n)[0] != '0',
        n < 10 ==> decimal(n).len() == 1 && decimal(n)[0] as int == '0' as int + n,
        n >= 10 ==> decimal(n) == decimal(n / 10) + decimal(n % 10),
{
    lemma_decimal_parts(n);
    let d = decimal(n);
    assert forall|i: int| 0 <= i < d.len() implies '0' <= #[trigger] d[i] && d[i] <= '9' by {
        assert(is_digit(d[i]));
    }
    assert(is_digit(d[0]));
    if n >= 10 {
        assert(decimal(n) =~= decimal(n / 10) + decimal(n % 10));
    }
}

/// Digits stand for a number by their places: one more digit counts for itself,
/// and those in front of it for ten times as much.
pub proof fn law_digits_count_by_their_places(s: Seq<char>, d: char)
    requires
        '0' <= d && d <= '9',
    ensures
        decimal_value(s.push(d)) == 10 * decimal_value(s) + (d as int - '0' as int),
        decimal_value(Seq::empty()) == 0,
{
    assert(s.push(d).drop_last() =~= s);
}

/// Digits are read as the number that they stand for, behind a plus or not, as
/// far as 64 bits hold it; nothing else is read as a number.
pub proof fn law_only_digits_are_numbers(t: Seq<char>)
    ensures
        ({
            let digits = t.len() > 0 && forall|i: int|
                0 <= i < t.len() ==> '0' <= #[trigger] t[i] && t[i] <= '9';
            let n = decimal_value(t);
            &&& digits && n <= u64::MAX ==> unsigned_of(t) == Some(n as u64) && unsigned_of(
                seq!['+'] + t,
            ) == Some(n as u64)
            &&& !(digits && n <= u64::MAX) ==> unsigned_of(seq!['+'] + t) is None
            &&& !(digits && n <= u64::MAX) && !(t.len() > 0 && t[0] == '+') ==> unsigned_of(
                t,
            ) is None
        }),
{
    let digits = t.len() > 0 && forall|i: int|
        0 <= i < t.len() ==> '0' <= #[trigger] t[i] && t[i] <= '9';
    assert((seq!['+'] + t).skip(1) =~= t);
    if digits {
        assert forall|i: int| 0 <= i < t.len() implies is_digit(#[trigger] t[i]) by {}
        assert(is_digit(t[0]));
    } else if t.len() > 0 {
        let i = choose|i: int| 0 <= i < t.len() && !('0' <= #[trigger] t[i] && t[i] <= '9');
        assert(!is_digit(t[i]));
    }
}

/// Joining puts the separator between two parts and nowhere else: no parts give
/// nothing, one gives itself, and one more adds the separator and itself.
pub proof fn law_joining_separates_the_parts(
    parts: Seq<Seq<char>>,
    part: Seq<char>,
    sep: Seq<char>,
)
    ensures
        join(Seq::empty(), sep) == Seq::<char>::empty(),
        join(seq![part], sep) == part,
        parts.len() > 0 ==> join(parts.push(part), sep) == join(parts, sep) + sep + part,
{
    assert(parts.push(part).drop_last() =~= parts);
}

/// The first place of a text in another is the least place at which it stands.
pub proof fn law_the_first_place_is_the_least(s: Seq<char>, p: Seq<char>, k: int)
    requires
        p.len() > 0,
        forall|j: int| 0 <= j < k ==> !#[trigger] text_at(s, p, j),
    ensures
        text_at(s, p, k) ==> first_text(s, p) == Some(k),
        k > s.len() ==> first_text(s, p) is None,
    decreases s.len(),
{
    if p.is_prefix_of(s) {
        assert(s.subrange(0, p.len() as int) =~= p);
        assert(text_at(s, p, 0));
        if k > 0 {
            assert(!text_at(s, p, 0));
        }
    } else if s.len() > 0 {
        let d = s.drop_first();
        if k > 0 {
            assert forall|j: int| 0 <= j < k - 1 implies !#[trigger] text_at(d, p, j) by {
                if text_at(d, p, j) {
                    assert(s.subrange(j + 1, j + 1 + p.len()) =~= d.subrange(j, j + p.len()));
                    assert(text_at(s, p, j + 1));
                }
            }
            if text_at(s, p, k) {
                assert(d.subrange(k - 1, k - 1 + p.len()) =~= s.subrange(k, k + p.len()));
                assert(text_at(d, p, k - 1));
            }
            law_the_first_place_is_the_least(d, p, k - 1);
        } else if k == 0 && text_at(s, p, 0) {
            assert(s.subrange(0, p.len() as int) =~= p);
        }
    }
}

/// An integer below zero is written as a minus sign and its distance from zero.
pub proof fn law_negative_integers_have_a_sign(n: nat)
    ensures
        decimal_int(n as int) == decimal(n),
        n > 0 ==> decimal_int(-(n as int)) == seq!['-'] + decimal(n),
{
}

/// A text contains every text that stands somewhere in it, and no other.
pub proof fn law_containing_texts(a: Seq<char>, p: Seq<char>, b: Seq<char>)
    ensures
        contains_text(a + p + b, p),
        contains_text(a, p) ==> exists|x: Seq<char>, y: Seq<char>| a == #[trigger] (x + p + y),
{
    let s = a + p + b;
    assert(s.subrange(a.len() as int, (a.len() + p.len()) as int) =~= p);
    assert(text_at(s, p, a.len() as int));
    if contains_text(a, p) {
        let i = choose|i: int| text_at(a, p, i);
        let x = a.take(i);
        let y = a.skip(i + p.len());
        assert(a =~= x + p + y);
    }
}

} // verus!
