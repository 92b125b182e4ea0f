//! Filesystem-safe keys for references.

use crate::digest;
use crate::refs;
use crate::refs::Ref;
use crate::refs::RefModel;
use crate::text;
use vstd::prelude::*;

verus! {

/// Keys up to this many characters are kept whole.
pub const SAFEKEY_MAX_LEN: usize = 192;

/// A filesystem-safe key, derived from a reference by [`Ref::safekey`].
#[derive(Debug, PartialEq, Eq, Hash)]
pub struct Safekey(pub(crate) String);

impl View for Safekey {
    type V = Seq<char>;

    closed spec fn view(&self) -> Seq<char> {
        self.0@
    }
}

/// The characters that a key may hold: `[A-Za-z0-9._-]`.
pub open spec fn key_char(c: char) -> bool {
    text::is_upper(c) || text::is_lower(c) || text::is_digit(c) || c == '.' || c == '-' || c == '_'
}

/// A character as it stands in a key.
pub open spec fn escape_char(c: char) -> char {
    if key_char(c) {
        c
    } else {
        '_'
    }
}

/// A text with every unsafe character replaced by `_`.
pub open spec fn escape(s: Seq<char>) -> Seq<char> {
    Seq::new(s.len(), |i: int| escape_char(s[i]))
}

/// A text with each run of `_` shortened to one.
pub open spec fn collapse(s: Seq<char>) -> Seq<char>
    decreases s.len(),
{
    if s.len() == 0 {
        s
    } else if s.last() == '_' && s.len() >= 2 && s[s.len() - 2] == '_' {
        collapse(s.drop_last())
    } else {
        collapse(s.drop_last()).push(s.last())
    }
}

/// A text without its leading `_`.
pub open spec fn trim_left(s: Seq<char>) -> Seq<char>
    decreases s.len(),
{
    if s.len() > 0 && s[0] == '_' {
        trim_left(s.drop_first())
    } else {
        s
    }
}

/// A text without its trailing `_`.
pub open spec fn trim_right(s: Seq<char>) -> Seq<char>
    decreases s.len(),
{
    if s.len() > 0 && s.last() == '_' {
        trim_right(s.drop_last())
    } else {
        s
    }
}

/// The kind and the identifier of a reference in one text.
pub open spec fn raw_key(m: RefModel) -> Seq<char> {
    match m {
        RefModel::Doi(s) => "doi_"@ + s,
        RefModel::Arxiv(s) => "arxiv_"@ + s,
    }
}

/// The safe form of a text, whatever its length.
pub open spec fn safe_form(raw: Seq<char>) -> Seq<char> {
    trim_right(trim_left(collapse(escape(raw))))
}

/// The key of a text: its safe form, or where that is longer than
/// [`SAFEKEY_MAX_LEN`] its head, `_` and the first 4 bytes of the SHA-256 of
/// the text in hexadecimal.
pub open spec fn key_of_text(raw: Seq<char>) -> Seq<char> {
    let t = safe_form(raw);
    if t.len() > SAFEKEY_MAX_LEN {
        t.take(SAFEKEY_MAX_LEN as int) + "_"@ + digest::hex_text(
            digest::sha256(vstd::utf8::encode_utf8(raw))@.take(4),
        )
    } else {
        t
    }
}

impl Safekey {
    /// The key as a string.
    pub fn as_str(&self) -> (r: &str)
        ensures
            r@ == self@,
    {
        self.0.as_str()
    }
}

impl Clone for Safekey {
    fn clone(&self) -> (r: Self)
        ensures
            r == *self,
    {
        Safekey(self.0.clone())
    }
}

fn is_key_char(c: char) -> (r: bool)
    ensures
        r == key_char(c),
{
    text::is_upper_char(c) || text::is_lower_char(c) || text::is_digit_char(c) || c == '.' || c
        == '-' || c == '_'
}

fn escaped(s: &[char]) -> (r: Vec<char>)
    ensures
        r@ == escape(s@),
{
    let mut out: Vec<char> = Vec::new();
    let mut i: usize = 0;
    while i < s.len()
        invariant
            i <= s.len(),
            out@ =~= escape(s@).take(i as int),
        decreases s.len() - i,
    {
        let c = s[i];
        out.push(
            if is_key_char(c) {
                c
            } else {
                '_'
            },
        );
        i += 1;
    }
    assert(out@ =~= escape(s@));
    out
}

fn collapsed(s: &[char]) -> (r: Vec<char>)
    ensures
        r@ == collapse(s@),
{
    let mut out: Vec<char> = Vec::new();
    let mut i: usize = 0;
    while i < s.len()
        invariant
            i <= s.len(),
            out@ == collapse(s@.take(i as int)),
        decreases s.len() - i,
    {
        proof {
            assert(s@.take(i + 1).drop_last() =~= s@.take(i as int));
        }
        if !(s[i] == '_' && i > 0 && s[i - 1] == '_') {
            out.push(s[i]);
        }
        i += 1;
    }
    assert(s@.take(i as int) =~= s@);
    out
}

fn trimmed(s: &[char]) -> (r: Vec<char>)
    ensures
        r@ == trim_right(trim_left(s@)),
{
    assert(s@.skip(0) =~= s@);
    let mut a: usize = 0;
    while a < s.len() && s[a] == '_'
        invariant
            a <= s.len(),
            trim_left(s@) == trim_left(s@.skip(a as int)),
        decreases s.len() - a,
    {
        assert(s@.skip(a as int).drop_first() =~= s@.skip(a + 1));
        a += 1;
    }
    assert(trim_left(s@) == s@.skip(a as int));
    let mut b: usize = s.len();
    assert(s@.skip(a as int) =~= s@.subrange(a as int, b as int));
    while b > a && s[b - 1] == '_'
        invariant
            a <= b <= s.len(),
            trim_right(trim_left(s@)) == trim_right(s@.subrange(a as int, b as int)),
        decreases b,
    {
        assert(s@.subrange(a as int, b as int).drop_last() =~= s@.subrange(a as int, b - 1));
        b -= 1;
    }
    vstd::slice::slice_to_vec(vstd::slice::slice_subrange(s, a, b))
}

/// The key of a text.
pub fn safekey_of_text(raw: &str) -> (r: Safekey)
    ensures
        r@ == key_of_text(raw@),
{
    let chars = text::chars_of(raw);
    let t = trimmed(collapsed(escaped(chars.as_slice()).as_slice()).as_slice());
    if t.len() > SAFEKEY_MAX_LEN {
        let sum = digest::sha256_of(raw.as_bytes());
        let head = vstd::slice::slice_subrange(sum.as_slice(), 0, 4);
        assert(head@ =~= digest::sha256(vstd::utf8::encode_utf8(raw@))@.take(4));
        let mut key = text::string_of(
            vstd::slice::slice_subrange(t.as_slice(), 0, SAFEKEY_MAX_LEN),
        );
        key.append("_");
        key.append(digest::hex_of(head).as_str());
        assert(key@ =~= key_of_text(raw@));
        Safekey(key)
    } else {
        Safekey(text::string_of(t.as_slice()))
    }
}

impl Ref {
    /// Derives a deterministic, filesystem-safe key from this reference.
    pub fn safekey(&self) -> (r: Safekey)
        ensures
            r@ == key_of_text(raw_key(self@)),
    {
        let mut raw = String::new();
        match self {
            Ref::Doi(d) => {
                raw.append("doi_");
                raw.append(d.as_str());
            },
            Ref::Arxiv(a) => {
                raw.append("arxiv_");
                raw.append(a.as_str());
            },
        }
        assert(raw@ =~= raw_key(self@));
        safekey_of_text(raw.as_str())
    }
}

// ---------------------------------------------------------------------------
// Laws
// ---------------------------------------------------------------------------

/// Every character may stand in a key.
pub open spec fn all_key_chars(s: Seq<char>) -> bool {
    forall|i: int| 0 <= i < s.len() ==> key_char(#[trigger] s[i])
}

/// No two neighbours are both `_`.
pub open spec fn no_double_underscore(s: Seq<char>) -> bool {
    forall|i: int| 0 < i < s.len() ==> !(#[trigger] s[i] == '_' && s[i - 1] == '_')
}

proof fn lemma_collapse(s: Seq<char>)
    ensures
        collapse(s).len() <= s.len(),
        no_double_underscore(collapse(s)),
        all_key_chars(s) ==> all_key_chars(collapse(s)),
        s.len() > 0 ==> collapse(s).len() > 0 && collapse(s).last() == s.last(),
    decreases s.len(),
{
    if s.len() > 0 {
        let d = s.drop_last();
        lemma_collapse(d);
        if d.len() > 0 {
            assert(d.last() == s[s.len() - 2]);
        }
        assert forall|i: int| 0 < i < collapse(s).len() implies !(#[trigger] collapse(s)[i] == '_'
            && collapse(s)[i - 1] == '_') by {
            if i < collapse(d).len() {
                assert(collapse(s)[i] == collapse(d)[i]);
            }
        }
        if all_key_chars(s) {
            assert forall|i: int| 0 <= i < d.len() implies key_char(#[trigger] d[i]) by {
                assert(d[i] == s[i]);
            }
            assert(key_char(s[s.len() - 1]));
        }
    }
}

/// A prefix without doubled `_` outlives the collapse.
proof fn lemma_collapse_keeps_prefix(s: Seq<char>, p: Seq<char>)
    requires
        p.is_prefix_of(s),
        no_double_underscore(p),
    ensures
        p.is_prefix_of(collapse(s)),
    decreases s.len(),
{
    if s.len() == p.len() {
        assert(s =~= p);
        if s.len() > 0 {
            let d = s.drop_last();
            assert forall|i: int| 0 < i < d.len() implies !(#[trigger] d[i] == '_' && d[i - 1]
                == '_') by {
                assert(d[i] == s[i]);
            }
            assert(d.is_prefix_of(d));
            lemma_collapse_keeps_prefix(d, d);
            lemma_collapse(d);
            assert(collapse(d) =~= d);
            assert(!(s[s.len() - 1] == '_' && s.len() >= 2 && s[s.len() - 2] == '_'));
            assert(collapse(s) =~= s);
        }
    } else {
        let d = s.drop_last();
        assert(p.is_prefix_of(d)) by {
            assert(d.subrange(0, p.len() as int) =~= s.subrange(0, p.len() as int));
        }
        lemma_collapse_keeps_prefix(d, p);
        let c = collapse(d);
        assert(collapse(s) == c || collapse(s) == c.push(s.last()));
        assert(c.push(s.last()).subrange(0, p.len() as int) =~= c.subrange(0, p.len() as int));
    }
}

proof fn lemma_trim_right(s: Seq<char>, p: Seq<char>)
    requires
        p.is_prefix_of(s),
        p.len() > 0,
        p.last() != '_',
    ensures
        p.is_prefix_of(trim_right(s)),
        trim_right(s).is_prefix_of(s),
        trim_right(s).last() != '_',
    decreases s.len(),
{
    assert(s.subrange(0, p.len() as int)[p.len() - 1] == p.last());
    if s.last() == '_' {
        let d = s.drop_last();
        assert(p.len() < s.len());
        assert(d.subrange(0, p.len() as int) =~= s.subrange(0, p.len() as int));
        lemma_trim_right(d, p);
        let t = trim_right(d);
        assert(t.is_prefix_of(s)) by {
            assert(s.subrange(0, t.len() as int) =~= d.subrange(0, t.len() as int));
        }
    } else {
        assert(s.subrange(0, s.len() as int) =~= s);
    }
}

/// What the safe form of a text keeps of it, given a prefix that begins and
/// ends with a safe character other than `_`.
proof fn lemma_safe_form(raw: Seq<char>, p: Seq<char>)
    requires
        p.is_prefix_of(raw),
        p.len() > 0,
        p[0] != '_',
        p.last() != '_',
        all_key_chars(p),
        no_double_underscore(p),
    ensures
        p.is_prefix_of(safe_form(raw)),
        all_key_chars(safe_form(raw)),
        no_double_underscore(safe_form(raw)),
        safe_form(raw).len() <= raw.len(),
        safe_form(raw).last() != '_',
{
    let e = escape(raw);
    assert(all_key_chars(e));
    assert(p.is_prefix_of(e)) by {
        assert forall|i: int| 0 <= i < p.len() implies e[i] == #[trigger] p[i] by {
            assert(raw.subrange(0, p.len() as int)[i] == p[i]);
        }
        assert(e.subrange(0, p.len() as int) =~= p);
    }
    lemma_collapse(e);
    lemma_collapse_keeps_prefix(e, p);
    let c = collapse(e);
    assert(c.subrange(0, p.len() as int)[0] == p[0]);
    assert(trim_left(c) == c);
    lemma_trim_right(c, p);
    let t = trim_right(c);
    assert forall|i: int| 0 <= i < t.len() implies key_char(#[trigger] t[i]) by {
        assert(c.subrange(0, t.len() as int)[i] == c[i]);
    }
    assert forall|i: int| 0 < i < t.len() implies !(#[trigger] t[i] == '_' && t[i - 1] == '_') by {
        assert(c.subrange(0, t.len() as int)[i] == c[i]);
        assert(c.subrange(0, t.len() as int)[i - 1] == c[i - 1]);
    }
}

/// The head that every key of a reference of this kind has.
pub open spec fn key_head(m: RefModel) -> Seq<char> {
    match m {
        RefModel::Doi(_) => "doi_10."@,
        RefModel::Arxiv(_) => "arxiv_"@,
    }
}

/// A prefix of the raw key that the safe form keeps.
spec fn kept_head(m: RefModel) -> Seq<char> {
    raw_key(m).take(7)
}

proof fn lemma_kept_head(m: RefModel)
    requires
        m.valid(),
    ensures
        raw_key(m).len() >= 7,
        kept_head(m).is_prefix_of(raw_key(m)),
        key_head(m).is_prefix_of(kept_head(m)),
        kept_head(m)[0] != '_',
        kept_head(m).last() != '_',
        all_key_chars(kept_head(m)),
        no_double_underscore(kept_head(m)),
{
    reveal_strlit("doi_");
    reveal_strlit("arxiv_");
    reveal_strlit("doi_10.");
    reveal_strlit("10.");
    let raw = raw_key(m);
    let h = kept_head(m);
    match m {
        RefModel::Doi(s) => {
            refs::lemma_doi_has_no_scheme(s);
            assert(s.subrange(0, 3) == "10."@);
            assert(s[0] == s.subrange(0, 3)[0]);
            assert(s[1] == s.subrange(0, 3)[1]);
            assert(s[2] == s.subrange(0, 3)[2]);
            assert(h =~= "doi_10."@);
            assert(h.subrange(0, 7) =~= h);
        },
        RefModel::Arxiv(s) => {
            refs::lemma_arxiv_chars(s);
            lemma_arxiv_first(s);
            assert(h[6] == s[0]);
            assert(h.subrange(0, 6) =~= "arxiv_"@);
        },
    }
    assert(raw.subrange(0, 7) =~= h);
}

proof fn lemma_arxiv_first(s: Seq<char>)
    requires
        refs::arxiv_defect(s) is None,
    ensures
        s.len() > 0,
        text::is_digit(s[0]) || text::is_lower(s[0]),
{
    if refs::new_style_arxiv(s) {
        assert(text::is_digit(s.take(4)[0]));
    } else {
        let k = choose|k: int| refs::old_style_at(s, k);
        let c = s.take(k);
        if refs::class_core(c) {
            assert(c[0] == s[0]);
        } else {
            let t = c.take(c.len() - 3);
            assert(t[0] == s[0]);
        }
    }
}

/// A key names one file in any directory: it is not empty, holds safe
/// characters only, is at most 201 characters long, and begins with the head
/// of its kind, so that it is neither `.` nor `..` nor hidden.
pub proof fn law_keys_are_safe(m: RefModel)
    requires
        m.valid(),
    ensures
        all_key_chars(key_of_text(raw_key(m))),
        key_head(m).is_prefix_of(key_of_text(raw_key(m))),
        key_of_text(raw_key(m)).len() <= SAFEKEY_MAX_LEN + 9,
{
    let raw = raw_key(m);
    let t = safe_form(raw);
    let key = key_of_text(raw);
    reveal_strlit("_");
    reveal_strlit("doi_10.");
    reveal_strlit("arxiv_");
    lemma_kept_head(m);
    let h = kept_head(m);
    lemma_safe_form(raw, h);
    let k = key_head(m);
    assert(k.is_prefix_of(t)) by {
        assert forall|i: int| 0 <= i < k.len() implies t[i] == #[trigger] k[i] by {
            assert(h.subrange(0, k.len() as int)[i] == k[i]);
            assert(t.subrange(0, h.len() as int)[i] == h[i]);
        }
        assert(t.subrange(0, k.len() as int) =~= k);
    }
    if t.len() > SAFEKEY_MAX_LEN {
        let sum = digest::sha256(vstd::utf8::encode_utf8(raw))@.take(4);
        let x = digest::hex_text(sum);
        digest::lemma_hex_text(sum);
        assert(sum.len() == 4);
        assert forall|i: int| 0 <= i < key.len() implies key_char(#[trigger] key[i]) by {
            if i < SAFEKEY_MAX_LEN {
                assert(key[i] == t[i]);
            } else if i > SAFEKEY_MAX_LEN {
                assert(key[i] == x[i - SAFEKEY_MAX_LEN - 1]);
            }
        }
        assert(key.subrange(0, k.len() as int) =~= t.subrange(0, k.len() as int));
    }
}

/// A key that was not cut neither ends with `_` nor holds two in a row.
pub proof fn law_whole_keys_are_tidy(m: RefModel)
    requires
        m.valid(),
        safe_form(raw_key(m)).len() <= SAFEKEY_MAX_LEN,
    ensures
        no_double_underscore(key_of_text(raw_key(m))),
        key_of_text(raw_key(m)).last() != '_',
{
    lemma_kept_head(m);
    lemma_safe_form(raw_key(m), kept_head(m));
}

/// The key of a DOI is never the key of an arXiv id.
pub proof fn law_kinds_never_share_a_key(doi: Seq<char>, arxiv: Seq<char>)
    requires
        RefModel::Doi(doi).valid(),
        RefModel::Arxiv(arxiv).valid(),
    ensures
        key_of_text(raw_key(RefModel::Doi(doi))) != key_of_text(raw_key(RefModel::Arxiv(arxiv))),
{
    let a = key_of_text(raw_key(RefModel::Doi(doi)));
    let b = key_of_text(raw_key(RefModel::Arxiv(arxiv)));
    law_keys_are_safe(RefModel::Doi(doi));
    law_keys_are_safe(RefModel::Arxiv(arxiv));
    reveal_strlit("doi_10.");
    reveal_strlit("arxiv_");
    assert(a.subrange(0, 7)[0] == 'd');
    assert(b.subrange(0, 6)[0] == 'a');
}

proof fn lemma_collapse_tidy(s: Seq<char>)
    requires
        no_double_underscore(s),
    ensures
        collapse(s) == s,
    decreases s.len(),
{
    if s.len() > 0 {
        let d = s.drop_last();
        assert forall|i: int| 0 < i < d.len() implies !(#[trigger] d[i] == '_' && d[i - 1] == '_') by {
            assert(d[i] == s[i] && d[i - 1] == s[i - 1]);
        }
        lemma_collapse_tidy(d);
        assert(!(s[s.len() - 1] == '_' && s.len() >= 2 && s[s.len() - 2] == '_'));
        assert(d.push(s.last()) =~= s);
    }
}

/// A text of letters, digits, dots, hyphens and underscores, with no underscore at
/// either end nor beside another, is its own key where it is no longer than a key
/// may be.
pub proof fn law_tidy_texts_are_their_own_keys(raw: Seq<char>)
    requires
        forall|i: int|
            0 <= i < raw.len() ==> {
                ||| 'A' <= #[trigger] raw[i] && raw[i] <= 'Z'
                ||| 'a' <= raw[i] && raw[i] <= 'z'
                ||| '0' <= raw[i] && raw[i] <= '9'
                ||| raw[i] == '.' || raw[i] == '-' || raw[i] == '_'
            },
        forall|i: int| 0 < i < raw.len() ==> !(#[trigger] raw[i] == '_' && raw[i - 1] == '_'),
        0 < raw.len() <= 192,
        raw[0] != '_',
        raw.last() != '_',
    ensures
        key_of_text(raw) == raw,
{
    assert forall|i: int| 0 <= i < raw.len() implies key_char(#[trigger] raw[i]) by {}
    assert(escape(raw) =~= raw);
    lemma_collapse_tidy(raw);
}

proof fn lemma_collapse_run(a: Seq<char>, b: Seq<char>)
    ensures
        collapse(a.push('_').push('_') + b) == collapse(a.push('_') + b),
    decreases b.len(),
{
    let x = a.push('_').push('_') + b;
    let y = a.push('_') + b;
    if b.len() == 0 {
        assert(x =~= a.push('_').push('_'));
        assert(y =~= a.push('_'));
        assert(x.drop_last() =~= y);
    } else {
        let d = b.drop_last();
        lemma_collapse_run(a, d);
        assert(x.drop_last() =~= a.push('_').push('_') + d);
        assert(y.drop_last() =~= a.push('_') + d);
        assert(x.last() == b.last() && y.last() == b.last());
        assert(x[x.len() - 2] == y[y.len() - 2]) by {
            if b.len() >= 2 {
                assert(x[x.len() - 2] == b[b.len() - 2]);
                assert(y[y.len() - 2] == b[b.len() - 2]);
            }
        }
    }
}

proof fn lemma_collapse_front(s: Seq<char>)
    ensures
        collapse(seq!['_'] + s) == if s.len() > 0 && s[0] == '_' {
            collapse(s)
        } else {
            seq!['_'] + collapse(s)
        },
    decreases s.len(),
{
    let x = seq!['_'] + s;
    if s.len() == 0 {
        assert(x =~= seq!['_']);
        assert(x.drop_last() =~= Seq::<char>::empty());
        assert(collapse(x.drop_last()) =~= Seq::<char>::empty());
        assert(collapse(s) == s);
        assert(collapse(x) =~= seq!['_'] + collapse(s));
    } else {
        let d = s.drop_last();
        lemma_collapse_front(d);
        assert(x.drop_last() =~= seq!['_'] + d);
        assert(x.last() == s.last());
        if s.len() == 1 {
            assert(d =~= Seq::<char>::empty());
            assert(collapse(d) == d);
            assert(collapse(s) =~= s);
            assert(collapse(x.drop_last()) =~= seq!['_']);
            assert(x[x.len() - 2] == '_');
            if s[0] == '_' {
                assert(collapse(x) =~= s);
            } else {
                assert(collapse(x) =~= seq!['_'] + collapse(s));
            }
        } else {
            assert(d[0] == s[0]);
            assert(x[x.len() - 2] == s[s.len() - 2]);
            if s[0] != '_' {
                assert(collapse(x) =~= seq!['_'] + collapse(s));
            }
        }
    }
}

proof fn lemma_trimmed_end(x: Seq<char>)
    ensures
        trim_right(trim_left(x.push('_'))) == trim_right(trim_left(x)),
    decreases x.len(),
{
    let y = x.push('_');
    if x.len() == 0 {
        assert(y.drop_first() =~= x);
        assert(y[0] == '_');
    } else if x[0] == '_' {
        assert(y.drop_first() =~= x.drop_first().push('_'));
        lemma_trimmed_end(x.drop_first());
        assert(y[0] == '_');
    } else {
        assert(y[0] == x[0]);
        assert(trim_left(y) == y && trim_left(x) == x);
        assert(y.drop_last() =~= x);
    }
}

/// A key knows only letters, digits, dots, hyphens and single underscores in
/// between: every other character counts as an underscore, two underscores count
/// as one, and those at the ends do not count.
pub proof fn law_other_characters_are_underscores(a: Seq<char>, c: char, b: Seq<char>)
    ensures
        !('A' <= c && c <= 'Z' || 'a' <= c && c <= 'z' || '0' <= c && c <= '9' || c == '.' || c
            == '-') ==> safe_form(a.push(c) + b) == safe_form(a.push('_') + b),
        safe_form(a.push('_').push('_') + b) == safe_form(a.push('_') + b),
        safe_form(seq!['_'] + b) == safe_form(b),
        safe_form(a.push('_')) == safe_form(a),
{
    if !('A' <= c && c <= 'Z' || 'a' <= c && c <= 'z' || '0' <= c && c <= '9' || c == '.' || c
        == '-') {
        assert(escape(a.push(c) + b) =~= escape(a.push('_') + b));
    }
    let ea = escape(a);
    let eb = escape(b);
    assert(escape(a.push('_').push('_') + b) =~= ea.push('_').push('_') + eb);
    assert(escape(a.push('_') + b) =~= ea.push('_') + eb);
    lemma_collapse_run(ea, eb);
    assert(escape(seq!['_'] + b) =~= seq!['_'] + eb);
    lemma_collapse_front(eb);
    if !(eb.len() > 0 && eb[0] == '_') {
        let x = seq!['_'] + collapse(eb);
        assert(x[0] == '_');
        assert(x.drop_first() =~= collapse(eb));
    }
    assert(escape(a.push('_')) =~= ea.push('_'));
    let y = ea.push('_');
    assert(y.drop_last() =~= ea);
    if y.len() >= 2 {
        assert(y[y.len() - 2] == ea.last());
    }
    if ea.len() > 0 && ea.last() == '_' {
        assert(collapse(y) == collapse(ea));
    } else {
        assert(collapse(y) == collapse(ea).push('_'));
        lemma_trimmed_end(collapse(ea));
    }
}

/// A key that would be too long is cut after a hundred and ninety-two characters,
/// and what it was made of is told by eight hexadecimal digits behind them.
pub proof fn law_long_keys_are_cut(raw: Seq<char>)
    ensures
        safe_form(raw).len() <= 192 ==> key_of_text(raw) == safe_form(raw),
        safe_form(raw).len() > 192 ==> {
            let key = key_of_text(raw);
            &&& key.len() == 201
            &&& key.take(192) == safe_form(raw).take(192)
            &&& key[192] == '_'
            &&& key.skip(193) == digest::hex_text(
                digest::sha256(vstd::utf8::encode_utf8(raw))@.take(4),
            )
        },
{
    reveal_strlit("_");
    if safe_form(raw).len() > 192 {
        let h = digest::hex_text(digest::sha256(vstd::utf8::encode_utf8(raw))@.take(4));
        digest::lemma_hex_text(digest::sha256(vstd::utf8::encode_utf8(raw))@.take(4));
        let key = key_of_text(raw);
        assert(key.take(192) =~= safe_form(raw).take(192));
        assert(key.skip(193) =~= h);
    }
}

/// The key of a reference is the key of its kind and its text.
pub proof fn law_keys_tell_kind_and_text(s: Seq<char>)
    ensures
        raw_key(RefModel::Doi(s)) == "doi_"@ + s,
        raw_key(RefModel::Arxiv(s)) == "arxiv_"@ + s,
{
}

} // verus!
