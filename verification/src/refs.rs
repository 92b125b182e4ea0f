//! DOI and arXiv references: the accepted shapes and their parsers.

use crate::errors::ErrorCode;
use crate::text;
use vstd::prelude::*;

verus! {

/// Maximum DOI suffix length accepted at validation, in bytes.
pub const DOI_SUFFIX_MAX_LEN: usize = 256;

// ---------------------------------------------------------------------------
// Errors
// ---------------------------------------------------------------------------

/// Reasons why [`Doi::parse`], [`ArxivId::parse`] or [`Ref::parse`] refuses an
/// input. Every one of them is [`ErrorCode::InvalidRef`] towards callers.
#[derive(Debug, Clone, Copy, PartialEq, Eq, Structural)]
#[non_exhaustive]
pub enum RefParseError {
    /// Input was empty.
    Empty,
    /// Input did not begin with the literal `10.` once its scheme was dropped.
    MissingDoiPrefix,
    /// Input started with `10.` but no `/` parts registrant and suffix.
    MissingDoiSuffixSeparator,
    /// Registrant was not 4 to 9 ASCII digits.
    InvalidDoiRegistrant,
    /// DOI suffix was empty.
    EmptyDoiSuffix,
    /// DOI suffix exceeded `DOI_SUFFIX_MAX_LEN` bytes.
    DoiSuffixTooLong {
        /// Observed suffix length, in bytes.
        len: usize,
        /// Hard upper bound, always [`DOI_SUFFIX_MAX_LEN`].
        max: usize,
    },
    /// DOI suffix contained a character outside `[A-Za-z0-9._/()-]`.
    InvalidDoiSuffixChar {
        /// The first offending character.
        ch: char,
    },
    /// Input matched neither the new-style nor the old-style arXiv shape.
    InvalidArxivShape,
}

/// How `{:?}` shows a character: in single quotes, escaped where needed.
pub uninterp spec fn char_debug(c: char) -> Seq<char>;

/// Formats a character with `{:?}`, that is through `char`'s `Debug` impl. The
/// result is a function of the character alone.
#[verifier::external_body]
fn debug_char(c: char) -> (r: String)
    ensures
        r@ == char_debug(c),
{
    format!("{c:?}")
}

impl RefParseError {
    /// The one-line text of the error.
    pub open spec fn spec_message(&self) -> Seq<char> {
        match *self {
            RefParseError::Empty => "empty input"@,
            RefParseError::MissingDoiPrefix => "DOI must begin with '10.'"@,
            RefParseError::MissingDoiSuffixSeparator =>
                "DOI must contain '/' between registrant and suffix"@,
            RefParseError::InvalidDoiRegistrant => "DOI registrant must be 4–9 ASCII digits"@,
            RefParseError::EmptyDoiSuffix => "DOI suffix is empty"@,
            RefParseError::DoiSuffixTooLong { len, max } => "DOI suffix is "@ + text::decimal(
                len as nat,
            ) + " bytes; maximum is "@ + text::decimal(max as nat),
            RefParseError::InvalidDoiSuffixChar { ch } => "DOI suffix contains invalid character "@
                + char_debug(ch),
            RefParseError::InvalidArxivShape => "input does not match any known arXiv id shape"@,
        }
    }

    /// Renders the error as one line.
    pub fn message(&self) -> (r: String)
        ensures
            r@ == self.spec_message(),
    {
        match *self {
            RefParseError::Empty => "empty input".to_string(),
            RefParseError::MissingDoiPrefix => "DOI must begin with '10.'".to_string(),
            RefParseError::MissingDoiSuffixSeparator =>
                "DOI must contain '/' between registrant and suffix".to_string(),
            RefParseError::InvalidDoiRegistrant =>
                "DOI registrant must be 4–9 ASCII digits".to_string(),
            RefParseError::EmptyDoiSuffix => "DOI suffix is empty".to_string(),
            RefParseError::DoiSuffixTooLong { len, max } => "DOI suffix is ".to_string().concat(
                text::decimal_of(len as u64).as_str(),
            ).concat(" bytes; maximum is ").concat(text::decimal_of(max as u64).as_str()),
            RefParseError::InvalidDoiSuffixChar { ch } =>
                "DOI suffix contains invalid character ".to_string().concat(
                    debug_char(ch).as_str(),
                ),
            RefParseError::InvalidArxivShape =>
                "input does not match any known arXiv id shape".to_string(),
        }
    }
}

impl From<RefParseError> for ErrorCode {
    fn from(_e: RefParseError) -> (r: Self) {
        ErrorCode::InvalidRef
    }
}

impl vstd::std_specs::convert::FromSpecImpl<RefParseError> for ErrorCode {
    open spec fn obeys_from_spec() -> bool {
        true
    }

    open spec fn from_spec(_e: RefParseError) -> Self {
        ErrorCode::InvalidRef
    }
}

// ---------------------------------------------------------------------------
// Shapes
// ---------------------------------------------------------------------------

/// `s` begins with `scheme` (given in lower case), in any mix of cases.
pub open spec fn has_scheme(s: Seq<char>, scheme: Seq<char>) -> bool {
    s.len() >= scheme.len() && text::lower(s.take(scheme.len() as int)) == scheme
}

/// `s` without a leading `scheme`.
pub open spec fn strip_scheme(s: Seq<char>, scheme: Seq<char>) -> Seq<char> {
    if has_scheme(s, scheme) {
        s.skip(scheme.len() as int)
    } else {
        s
    }
}

/// The characters a DOI suffix may hold: `[A-Za-z0-9._/()-]`.
pub open spec fn doi_suffix_char(c: char) -> bool {
    ||| text::is_upper(c) || text::is_lower(c) || text::is_digit(c)
    ||| c == '.' || c == '_' || c == '/' || c == '(' || c == ')' || c == '-'
}

/// Position of the first character that no DOI suffix may hold; the length
/// where every character is fine.
pub open spec fn first_bad_suffix_char(s: Seq<char>) -> int
    decreases s.len(),
{
    if s.len() == 0 || !doi_suffix_char(s[0]) {
        0
    } else {
        1 + first_bad_suffix_char(s.drop_first())
    }
}

/// What stands between the `10.` of a DOI and its first `/`.
pub open spec fn doi_registrant(s: Seq<char>) -> Seq<char> {
    s.skip(3).take(text::first_at(s.skip(3), '/'))
}

/// What follows the first `/` of a DOI.
pub open spec fn doi_suffix(s: Seq<char>) -> Seq<char> {
    s.skip(3).skip(text::first_at(s.skip(3), '/') + 1)
}

/// Why `s`, with no scheme, is no DOI; `None` where it is one.
pub open spec fn doi_defect(s: Seq<char>) -> Option<RefParseError> {
    if s.len() == 0 {
        Some(RefParseError::Empty)
    } else if !"10."@.is_prefix_of(s) {
        Some(RefParseError::MissingDoiPrefix)
    } else if !s.skip(3).contains('/') {
        Some(RefParseError::MissingDoiSuffixSeparator)
    } else if !(4 <= doi_registrant(s).len() <= 9 && text::all_digits(doi_registrant(s))) {
        Some(RefParseError::InvalidDoiRegistrant)
    } else if doi_suffix(s).len() == 0 {
        Some(RefParseError::EmptyDoiSuffix)
    } else if text::byte_len(doi_suffix(s)) > DOI_SUFFIX_MAX_LEN {
        Some(
            RefParseError::DoiSuffixTooLong {
                len: text::byte_len(doi_suffix(s)) as usize,
                max: DOI_SUFFIX_MAX_LEN,
            },
        )
    } else if first_bad_suffix_char(doi_suffix(s)) < doi_suffix(s).len() {
        Some(
            RefParseError::InvalidDoiSuffixChar {
                ch: doi_suffix(s)[first_bad_suffix_char(doi_suffix(s))],
            },
        )
    } else {
        None
    }
}

/// Nothing, or `v` and one or more digits.
pub open spec fn version_suffix(s: Seq<char>) -> bool {
    s.len() == 0 || (s.len() >= 2 && s[0] == 'v' && text::all_digits(s.skip(1)))
}

/// Four digits, a dot, `n` digits, and an optional version.
pub open spec fn new_style_of(s: Seq<char>, n: int) -> bool {
    &&& s.len() >= 5 + n
    &&& text::all_digits(s.take(4))
    &&& s[4] == '.'
    &&& text::all_digits(s.subrange(5, 5 + n))
    &&& version_suffix(s.skip(5 + n))
}

/// A new-style arXiv id, `YYMM.NNNN[N][vN]`.
pub open spec fn new_style_arxiv(s: Seq<char>) -> bool {
    new_style_of(s, 4) || new_style_of(s, 5)
}

/// `[a-z]([a-z-]*[a-z])?`.
pub open spec fn class_core(s: Seq<char>) -> bool {
    &&& s.len() > 0
    &&& forall|i: int| 0 <= i < s.len() ==> text::is_lower(#[trigger] s[i]) || s[i] == '-'
    &&& s[0] != '-'
    &&& s.last() != '-'
}

/// A core, with an optional dot and two upper-case letters behind it.
pub open spec fn subject_class(s: Seq<char>) -> bool {
    ||| class_core(s)
    ||| {
        &&& s.len() > 3
        &&& class_core(s.take(s.len() - 3))
        &&& s[s.len() - 3] == '.'
        &&& text::is_upper(s[s.len() - 2])
        &&& text::is_upper(s[s.len() - 1])
    }
}

/// Seven digits and an optional version.
pub open spec fn old_number(s: Seq<char>) -> bool {
    s.len() >= 7 && text::all_digits(s.take(7)) && version_suffix(s.skip(7))
}

/// A subject class, a slash at `k` and a number.
pub open spec fn old_style_at(s: Seq<char>, k: int) -> bool {
    &&& 0 <= k < s.len()
    &&& subject_class(s.take(k))
    &&& s[k] == '/'
    &&& old_number(s.skip(k + 1))
}

/// An old-style arXiv id, `subject-class/YYMMNNN[vN]`.
pub open spec fn old_style_arxiv(s: Seq<char>) -> bool {
    exists|k: int| old_style_at(s, k)
}

/// Why `s`, with no scheme, is no arXiv id; `None` where it is one.
pub open spec fn arxiv_defect(s: Seq<char>) -> Option<RefParseError> {
    if s.len() == 0 {
        Some(RefParseError::Empty)
    } else if new_style_arxiv(s) || old_style_arxiv(s) {
        None
    } else {
        Some(RefParseError::InvalidArxivShape)
    }
}

// ---------------------------------------------------------------------------
// Validation
// ---------------------------------------------------------------------------

fn scheme_leads(s: &str, scheme: &str) -> (r: bool)
    ensures
        r == has_scheme(s@, scheme@),
{
    let v = text::chars_of(s);
    let w = text::chars_of(scheme);
    if v.len() < w.len() {
        return false;
    }
    let head = vstd::slice::slice_subrange(v.as_slice(), 0, w.len());
    assert(head@ =~= s@.take(scheme@.len() as int));
    let low = text::lower_chars(head);
    text::same_chars(low.as_slice(), w.as_slice())
}

/// Whether the input begins with `doi:`, in any mix of cases.
pub fn has_doi_scheme(s: &str) -> (r: bool)
    ensures
        r == has_scheme(s@, "doi:"@),
{
    scheme_leads(s, "doi:")
}

/// Whether the input begins with `arxiv:`, in any mix of cases.
pub fn has_arxiv_scheme(s: &str) -> (r: bool)
    ensures
        r == has_scheme(s@, "arxiv:"@),
{
    scheme_leads(s, "arxiv:")
}

/// The input without a leading `doi:`.
pub fn strip_doi_scheme(s: &str) -> (r: &str)
    ensures
        r@ == strip_scheme(s@, "doi:"@),
{
    if has_doi_scheme(s) {
        proof {
            reveal_strlit("doi:");
        }
        s.substring_char(4, s.unicode_len())
    } else {
        s
    }
}

/// The input without a leading `arxiv:`.
pub fn strip_arxiv_scheme(s: &str) -> (r: &str)
    ensures
        r@ == strip_scheme(s@, "arxiv:"@),
{
    if has_arxiv_scheme(s) {
        proof {
            reveal_strlit("arxiv:");
        }
        s.substring_char(6, s.unicode_len())
    } else {
        s
    }
}

/// Whether a DOI suffix may hold `c`.
pub fn is_doi_suffix_char(c: char) -> (r: bool)
    ensures
        r == doi_suffix_char(c),
{
    text::is_upper_char(c) || text::is_lower_char(c) || text::is_digit_char(c) || c == '.' || c
        == '_' || c == '/' || c == '(' || c == ')' || c == '-'
}

proof fn lemma_first_bad(s: Seq<char>, k: int)
    requires
        0 <= k <= s.len(),
        forall|j: int| 0 <= j < k ==> doi_suffix_char(#[trigger] s[j]),
        k < s.len() ==> !doi_suffix_char(s[k]),
    ensures
        first_bad_suffix_char(s) == k,
    decreases s.len(),
{
    if s.len() > 0 && doi_suffix_char(s[0]) {
        let t = s.drop_first();
        assert forall|j: int| 0 <= j < k - 1 implies doi_suffix_char(#[trigger] t[j]) by {
            assert(t[j] == s[j + 1]);
        }
        lemma_first_bad(t, k - 1);
    }
}

/// What [`first_bad_suffix_char`] says of the characters before it and at it.
pub proof fn lemma_first_bad_is_first(s: Seq<char>)
    ensures
        0 <= first_bad_suffix_char(s) <= s.len(),
        forall|j: int| 0 <= j < first_bad_suffix_char(s) ==> doi_suffix_char(#[trigger] s[j]),
        first_bad_suffix_char(s) < s.len() ==> !doi_suffix_char(s[first_bad_suffix_char(s)]),
    decreases s.len(),
{
    if s.len() > 0 && doi_suffix_char(s[0]) {
        let t = s.drop_first();
        lemma_first_bad_is_first(t);
        assert forall|j: int| 0 <= j < first_bad_suffix_char(s) implies doi_suffix_char(
            #[trigger] s[j],
        ) by {
            if j > 0 {
                assert(t[j - 1] == s[j]);
            }
        }
    }
}

/// Validates a DOI whose scheme was dropped.
pub fn validate_doi(s: &str) -> (r: Result<(), RefParseError>)
    ensures
        match doi_defect(s@) {
            Some(e) => r == Err::<(), RefParseError>(e),
            None => r is Ok,
        },
{
    let v = text::chars_of(s);
    let n = v.len();
    if n == 0 {
        return Err(RefParseError::Empty);
    }
    proof {
        reveal_strlit("10.");
    }
    let ten = text::chars_of("10.");
    if !text::starts_with(v.as_slice(), ten.as_slice()) {
        return Err(RefParseError::MissingDoiPrefix);
    }
    let rest = vstd::slice::slice_subrange(v.as_slice(), 3, n);
    assert(rest@ =~= s@.skip(3));
    let slash = text::find_char(rest, '/');
    proof {
        text::lemma_first_at_is_first(rest@, '/');
    }
    if slash == rest.len() {
        return Err(RefParseError::MissingDoiSuffixSeparator);
    }
    let registrant = vstd::slice::slice_subrange(rest, 0, slash);
    let suffix = vstd::slice::slice_subrange(rest, slash + 1, rest.len());
    assert(registrant@ =~= doi_registrant(s@));
    assert(suffix@ =~= doi_suffix(s@));
    if registrant.len() < 4 || registrant.len() > 9 || !text::are_digits(registrant) {
        return Err(RefParseError::InvalidDoiRegistrant);
    }
    if suffix.len() == 0 {
        return Err(RefParseError::EmptyDoiSuffix);
    }
    let suffix_text = text::string_of(suffix);
    let len = text::byte_len_of(suffix_text.as_str());
    if len > DOI_SUFFIX_MAX_LEN {
        return Err(RefParseError::DoiSuffixTooLong { len, max: DOI_SUFFIX_MAX_LEN });
    }
    let mut i: usize = 0;
    while i < suffix.len()
        invariant
            i <= suffix.len(),
            forall|j: int| 0 <= j < i ==> doi_suffix_char(#[trigger] suffix@[j]),
            suffix@ == doi_suffix(s@),
            forall|k: int|
                0 <= k < suffix@.len() && first_bad_suffix_char(doi_suffix(s@)) == k
                    ==> doi_defect(s@) == Some(
                    RefParseError::InvalidDoiSuffixChar { ch: #[trigger] suffix@[k] },
                ),
        decreases suffix.len() - i,
    {
        if !is_doi_suffix_char(suffix[i]) {
            proof {
                lemma_first_bad(suffix@, i as int);
            }
            return Err(RefParseError::InvalidDoiSuffixChar { ch: suffix[i] });
        }
        i += 1;
    }
    proof {
        lemma_first_bad(suffix@, i as int);
    }
    Ok(())
}

/// Number of digits at the start of `s`.
fn digit_run(s: &[char]) -> (r: usize)
    ensures
        r <= s@.len(),
        text::all_digits(s@.take(r as int)),
        r < s@.len() ==> !text::is_digit(s@[r as int]),
{
    let mut i: usize = 0;
    while i < s.len() && text::is_digit_char(s[i])
        invariant
            i <= s.len(),
            forall|j: int| 0 <= j < i ==> text::is_digit(#[trigger] s@[j]),
        decreases s.len() - i,
    {
        i += 1;
    }
    i
}

fn is_version_suffix(s: &[char]) -> (r: bool)
    ensures
        r == version_suffix(s@),
{
    if s.len() == 0 {
        return true;
    }
    if s.len() < 2 || s[0] != 'v' {
        return false;
    }
    let tail = vstd::slice::slice_subrange(s, 1, s.len());
    assert(tail@ =~= s@.skip(1));
    text::are_digits(tail)
}

/// New-style arXiv id: `YYMM.NNNN[N][vN]`.
pub fn validate_arxiv_new(s: &str) -> (r: Result<(), ()>)
    ensures
        r is Ok <==> new_style_arxiv(s@),
{
    let v = text::chars_of(s);
    let n = v.len();
    let dot = text::find_char(v.as_slice(), '.');
    if dot == n || dot != 4 {
        proof {
            assert forall|m: int| 0 <= m && new_style_of(s@, m) implies false by {
                assert(v@[4] == '.');
                if dot < 4 {
                    assert(text::is_digit(s@.take(4)[dot as int]));
                }
            }
        }
        return Err(());
    }
    let head = vstd::slice::slice_subrange(v.as_slice(), 0, 4);
    assert(head@ =~= s@.take(4));
    if !text::are_digits(head) {
        return Err(());
    }
    let tail = vstd::slice::slice_subrange(v.as_slice(), 5, n);
    assert(tail@ =~= s@.skip(5));
    let d = digit_run(tail);
    proof {
        assert forall|m: int| 4 <= m <= 5 && new_style_of(s@, m) implies m == d by {
            if m > d {
                assert(text::is_digit(s@.subrange(5, 5 + m)[d as int]));
            } else if m < d {
                assert(tail@[m] == s@.skip(5 + m)[0]);
                assert(text::is_digit(tail@.take(d as int)[m]));
                assert(text::is_digit(s@.skip(5 + m)[0]));
            }
        }
    }
    if d < 4 || d > 5 {
        return Err(());
    }
    let rest = vstd::slice::slice_subrange(tail, d, tail.len());
    assert(rest@ =~= s@.skip(5 + d));
    assert(tail@.take(d as int) =~= s@.subrange(5, 5 + d));
    if is_version_suffix(rest) {
        assert(new_style_of(s@, d as int));
        Ok(())
    } else {
        Err(())
    }
}

fn is_class_core(s: &[char]) -> (r: bool)
    ensures
        r == class_core(s@),
{
    if s.len() == 0 {
        return false;
    }
    let mut i: usize = 0;
    while i < s.len()
        invariant
            i <= s.len(),
            forall|j: int| 0 <= j < i ==> text::is_lower(#[trigger] s@[j]) || s@[j] == '-',
        decreases s.len() - i,
    {
        if !text::is_lower_char(s[i]) && s[i] != '-' {
            assert(!(text::is_lower(s@[i as int]) || s@[i as int] == '-'));
            return false;
        }
        i += 1;
    }
    s[0] != '-' && s[s.len() - 1] != '-'
}

fn is_subject_class(s: &[char]) -> (r: bool)
    ensures
        r == subject_class(s@),
{
    let dot = text::find_char(s, '.');
    if dot == s.len() {
        proof {
            if s@.len() > 3 && s@[s@.len() - 3] == '.' {
                assert(false);
            }
        }
        return is_class_core(s);
    }
    let core = vstd::slice::slice_subrange(s, 0, dot);
    assert(core@ =~= s@.take(dot as int));
    assert(!class_core(s@)) by {
        if class_core(s@) {
            assert(text::is_lower(s@[dot as int]) || s@[dot as int] == '-');
        }
    }
    if s.len() - dot != 3 {
        assert(!subject_class(s@)) by {
            if subject_class(s@) {
                let m = s@.len() - 3;
                assert(s@[m] == '.');
                if dot < m {
                    assert(text::is_lower(s@.take(m)[dot as int]) || s@.take(m)[dot as int] == '-');
                } else {
                    assert(text::is_upper(s@[s@.len() - 2]));
                    assert(text::is_upper(s@[s@.len() - 1]));
                }
            }
        }
        return false;
    }
    is_class_core(core) && text::is_upper_char(s[dot + 1]) && text::is_upper_char(s[dot + 2])
}

fn is_old_number(s: &[char]) -> (r: bool)
    ensures
        r == old_number(s@),
{
    if s.len() < 7 {
        return false;
    }
    let head = vstd::slice::slice_subrange(s, 0, 7);
    let tail = vstd::slice::slice_subrange(s, 7, s.len());
    assert(head@ =~= s@.take(7));
    assert(tail@ =~= s@.skip(7));
    text::are_digits(head) && is_version_suffix(tail)
}

/// A subject class holds no slash.
proof fn lemma_class_has_no_slash(s: Seq<char>)
    requires
        subject_class(s),
    ensures
        forall|i: int| 0 <= i < s.len() ==> s[i] != '/',
{
    assert forall|i: int| 0 <= i < s.len() implies s[i] != '/' by {
        if class_core(s) {
            assert(text::is_lower(s[i]) || s[i] == '-');
        } else if i < s.len() - 3 {
            let t = s.take(s.len() - 3);
            assert(text::is_lower(t[i]) || t[i] == '-');
        }
    }
}

/// Old-style arXiv id: `subject-class/YYMMNNN[vN]`.
pub fn validate_arxiv_old(s: &str) -> (r: Result<(), ()>)
    ensures
        r is Ok <==> old_style_arxiv(s@),
{
    let v = text::chars_of(s);
    let n = v.len();
    let slash = text::find_char(v.as_slice(), '/');
    proof {
        assert forall|k: int| old_style_at(s@, k) implies k == slash by {
            lemma_class_has_no_slash(s@.take(k));
            if slash < k {
                assert(s@.take(k)[slash as int] != '/');
            }
        }
    }
    if slash == n {
        return Err(());
    }
    let class = vstd::slice::slice_subrange(v.as_slice(), 0, slash);
    let id = vstd::slice::slice_subrange(v.as_slice(), slash + 1, n);
    assert(class@ =~= s@.take(slash as int));
    assert(id@ =~= s@.skip(slash + 1));
    if is_subject_class(class) && is_old_number(id) {
        assert(old_style_at(s@, slash as int));
        Ok(())
    } else {
        Err(())
    }
}

/// Validates an arXiv id whose scheme was dropped.
pub fn validate_arxiv(s: &str) -> (r: Result<(), RefParseError>)
    ensures
        match arxiv_defect(s@) {
            Some(e) => r == Err::<(), RefParseError>(e),
            None => r is Ok,
        },
{
    if s.is_empty() {
        return Err(RefParseError::Empty);
    }
    if validate_arxiv_new(s).is_ok() || validate_arxiv_old(s).is_ok() {
        return Ok(());
    }
    Err(RefParseError::InvalidArxivShape)
}

// ---------------------------------------------------------------------------
// Identifiers
// ---------------------------------------------------------------------------

/// A validated DOI, without a scheme. Only [`Doi::parse`] makes one.
#[derive(Debug, PartialEq, Eq, Hash)]
pub struct Doi(pub(crate) String);

/// A validated arXiv id, without a scheme. Only [`ArxivId::parse`] makes one.
#[derive(Debug, PartialEq, Eq, Hash)]
pub struct ArxivId(pub(crate) String);

/// A reference to a paper, by DOI or by arXiv id.
#[derive(Debug, PartialEq, Eq, Hash)]
pub enum Ref {
    /// A DOI, such as `10.1234/example`.
    Doi(Doi),
    /// An arXiv id, such as `2401.12345`.
    Arxiv(ArxivId),
}

impl Clone for Doi {
    fn clone(&self) -> (r: Self)
        ensures
            r == *self,
    {
        proof {
            use_type_invariant(self);
        }
        Doi(self.0.clone())
    }
}

impl Clone for ArxivId {
    fn clone(&self) -> (r: Self)
        ensures
            r == *self,
    {
        proof {
            use_type_invariant(self);
        }
        ArxivId(self.0.clone())
    }
}

impl Clone for Ref {
    fn clone(&self) -> (r: Self)
        ensures
            r == *self,
    {
        match self {
            Ref::Doi(d) => Ref::Doi(d.clone()),
            Ref::Arxiv(a) => Ref::Arxiv(a.clone()),
        }
    }
}

/// What a [`Ref`] stands for: its kind and its bare identifier.
pub enum RefModel {
    Doi(Seq<char>),
    Arxiv(Seq<char>),
}

impl View for Doi {
    type V = Seq<char>;

    closed spec fn view(&self) -> Seq<char> {
        self.0@
    }
}

impl View for ArxivId {
    type V = Seq<char>;

    closed spec fn view(&self) -> Seq<char> {
        self.0@
    }
}

impl View for Ref {
    type V = RefModel;

    open spec fn view(&self) -> RefModel {
        match *self {
            Ref::Doi(d) => RefModel::Doi(d@),
            Ref::Arxiv(a) => RefModel::Arxiv(a@),
        }
    }
}

impl RefModel {
    /// The bare identifier.
    pub open spec fn id(self) -> Seq<char> {
        match self {
            RefModel::Doi(s) => s,
            RefModel::Arxiv(s) => s,
        }
    }

    /// The identifier has the shape that its kind asks for.
    pub open spec fn valid(self) -> bool {
        match self {
            RefModel::Doi(s) => doi_defect(s) is None,
            RefModel::Arxiv(s) => arxiv_defect(s) is None,
        }
    }
}

/// The identifier in front of a DOI's first `/`.
pub open spec fn doi_prefix(s: Seq<char>) -> Seq<char> {
    s.take(text::first_at(s, '/'))
}

impl Doi {
    #[verifier::type_invariant]
    closed spec fn wf(&self) -> bool {
        doi_defect(self.0@) is None
    }

    /// The DOI as a string.
    pub fn as_str(&self) -> (r: &str)
        ensures
            r@ == self@,
            doi_defect(self@) is None,
    {
        proof {
            use_type_invariant(self);
        }
        self.0.as_str()
    }

    /// Parses a DOI, with or without the `doi:` scheme.
    pub fn parse(s: &str) -> (r: Result<Doi, RefParseError>)
        ensures
            match doi_defect(strip_scheme(s@, "doi:"@)) {
                Some(e) => r == Err::<Doi, RefParseError>(e),
                None => r is Ok && r->Ok_0@ == strip_scheme(s@, "doi:"@),
            },
    {
        let stripped = strip_doi_scheme(s);
        match validate_doi(stripped) {
            Err(e) => Err(e),
            Ok(()) => Ok(Doi(stripped.to_string())),
        }
    }

    /// The registrant part with its `10.`, such as `10.1103`.
    pub fn prefix(&self) -> (r: String)
        ensures
            r@ == doi_prefix(self@),
    {
        let v = text::chars_of(self.0.as_str());
        let k = text::find_char(v.as_slice(), '/');
        text::string_of(vstd::slice::slice_subrange(v.as_slice(), 0, k))
    }
}

impl ArxivId {
    #[verifier::type_invariant]
    closed spec fn wf(&self) -> bool {
        arxiv_defect(self.0@) is None
    }

    /// The arXiv id as a string.
    pub fn as_str(&self) -> (r: &str)
        ensures
            r@ == self@,
            arxiv_defect(self@) is None,
    {
        proof {
            use_type_invariant(self);
        }
        self.0.as_str()
    }

    /// Parses an arXiv id, with or without the `arxiv:` scheme.
    pub fn parse(s: &str) -> (r: Result<ArxivId, RefParseError>)
        ensures
            match arxiv_defect(strip_scheme(s@, "arxiv:"@)) {
                Some(e) => r == Err::<ArxivId, RefParseError>(e),
                None => r is Ok && r->Ok_0@ == strip_scheme(s@, "arxiv:"@),
            },
    {
        let stripped = strip_arxiv_scheme(s);
        match validate_arxiv(stripped) {
            Err(e) => Err(e),
            Ok(()) => Ok(ArxivId(stripped.to_string())),
        }
    }
}

/// The text is taken for a DOI: it has the `doi:` scheme, or it has no
/// `arxiv:` scheme and begins with `10.`.
pub open spec fn read_as_doi(s: Seq<char>) -> bool {
    has_scheme(s, "doi:"@) || (!has_scheme(s, "arxiv:"@) && "10."@.is_prefix_of(s))
}

/// What [`Ref::parse`] makes of a text.
pub open spec fn parse_ref(s: Seq<char>) -> Result<RefModel, RefParseError> {
    if s.len() == 0 {
        Err(RefParseError::Empty)
    } else if read_as_doi(s) {
        match doi_defect(strip_scheme(s, "doi:"@)) {
            Some(e) => Err(e),
            None => Ok(RefModel::Doi(strip_scheme(s, "doi:"@))),
        }
    } else {
        match arxiv_defect(strip_scheme(s, "arxiv:"@)) {
            Some(e) => Err(e),
            None => Ok(RefModel::Arxiv(strip_scheme(s, "arxiv:"@))),
        }
    }
}

impl Ref {
    /// Parses a reference. A `doi:` or `arxiv:` scheme decides the kind; a bare
    /// text that begins with `10.` is read as a DOI, any other as an arXiv id.
    pub fn parse(s: &str) -> (r: Result<Ref, RefParseError>)
        ensures
            match parse_ref(s@) {
                Err(e) => r == Err::<Ref, RefParseError>(e),
                Ok(m) => r is Ok && r->Ok_0@ == m,
            },
    {
        if s.is_empty() {
            return Err(RefParseError::Empty);
        }
        let v = text::chars_of(s);
        let ten = text::chars_of("10.");
        if has_doi_scheme(s) || (!has_arxiv_scheme(s) && text::starts_with(
            v.as_slice(),
            ten.as_slice(),
        )) {
            return match Doi::parse(s) {
                Ok(d) => Ok(Ref::Doi(d)),
                Err(e) => Err(e),
            };
        }
        match ArxivId::parse(s) {
            Ok(a) => Ok(Ref::Arxiv(a)),
            Err(e) => Err(e),
        }
    }

    /// The bare identifier, without a scheme.
    pub fn as_input_str(&self) -> (r: &str)
        ensures
            r@ == self@.id(),
            self@.valid(),
    {
        match self {
            Ref::Doi(d) => d.as_str(),
            Ref::Arxiv(a) => a.as_str(),
        }
    }
}

// ---------------------------------------------------------------------------
// Laws
// ---------------------------------------------------------------------------

/// A text with a scheme has the scheme's last character in it.
proof fn lemma_scheme_has_colon(s: Seq<char>, scheme: Seq<char>)
    requires
        has_scheme(s, scheme),
        scheme.len() > 0,
        scheme.last() == ':',
    ensures
        s[scheme.len() - 1] == ':',
{
    let t = s.take(scheme.len() as int);
    let k = scheme.len() - 1;
    assert(text::lower(t)[k] == text::lower_char(t[k]));
    assert(t[k] == s[k]);
}

/// A DOI begins with `10.`, so it has neither scheme.
pub proof fn lemma_doi_has_no_scheme(s: Seq<char>)
    requires
        doi_defect(s) is None,
    ensures
        !has_scheme(s, "doi:"@),
        !has_scheme(s, "arxiv:"@),
        s.len() > 3,
{
    reveal_strlit("10.");
    reveal_strlit("doi:");
    reveal_strlit("arxiv:");
    assert(s.subrange(0, 3)[0] == '1');
    assert(s[0] == '1');
    if has_scheme(s, "doi:"@) {
        assert(text::lower(s.take(4))[0] == text::lower_char(s[0]));
    }
    if has_scheme(s, "arxiv:"@) {
        assert(text::lower(s.take(6))[0] == text::lower_char(s[0]));
    }
    text::lemma_first_at_is_first(s.skip(3), '/');
}

/// Every character of a DOI may stand in a DOI suffix.
pub proof fn lemma_doi_chars(s: Seq<char>)
    requires
        doi_defect(s) is None,
    ensures
        forall|i: int| 0 <= i < s.len() ==> doi_suffix_char(#[trigger] s[i]),
{
    reveal_strlit("10.");
    let rest = s.skip(3);
    let k = text::first_at(rest, '/');
    text::lemma_first_at_is_first(rest, '/');
    lemma_first_bad_is_first(doi_suffix(s));
    assert forall|i: int| 0 <= i < s.len() implies doi_suffix_char(#[trigger] s[i]) by {
        if i < 3 {
            assert(s.subrange(0, 3)[i] == s[i]);
        } else if i < 3 + k {
            assert(doi_registrant(s)[i - 3] == s[i]);
        } else if i > 3 + k {
            assert(doi_suffix(s)[i - 4 - k] == s[i]);
        } else {
            assert(rest[k] == s[i]);
        }
    }
}

/// No arXiv id holds a colon, so it has neither scheme.
pub proof fn lemma_arxiv_has_no_scheme(s: Seq<char>)
    requires
        arxiv_defect(s) is None,
    ensures
        !has_scheme(s, "doi:"@),
        !has_scheme(s, "arxiv:"@),
        !"10."@.is_prefix_of(s),
{
    reveal_strlit("10.");
    reveal_strlit("doi:");
    reveal_strlit("arxiv:");
    lemma_arxiv_chars(s);
    if has_scheme(s, "doi:"@) {
        lemma_scheme_has_colon(s, "doi:"@);
    }
    if has_scheme(s, "arxiv:"@) {
        lemma_scheme_has_colon(s, "arxiv:"@);
    }
    if "10."@.is_prefix_of(s) {
        assert(s.subrange(0, 3)[0] == '1');
        assert(s.subrange(0, 3)[2] == '.');
        if new_style_arxiv(s) {
            assert(text::is_digit(s.take(4)[2]));
        } else {
            let k = choose|k: int| old_style_at(s, k);
            let c = s.take(k);
            if class_core(c) {
                assert(c[0] == s[0]);
            } else {
                let t = c.take(c.len() - 3);
                assert(t[0] == s[0]);
            }
        }
    }
}

/// Every character of an arXiv id is a digit, a letter, `.`, `-` or `/`.
pub proof fn lemma_arxiv_chars(s: Seq<char>)
    requires
        arxiv_defect(s) is None,
    ensures
        forall|i: int|
            0 <= i < s.len() ==> text::is_digit(#[trigger] s[i]) || text::is_lower(s[i])
                || text::is_upper(s[i]) || s[i] == '.' || s[i] == '-' || s[i] == '/',
{
    if new_style_arxiv(s) {
        let n: int = if new_style_of(s, 4) {
            4
        } else {
            5
        };
        lemma_version_chars(s.skip(5 + n));
        assert forall|i: int| 0 <= i < s.len() implies text::is_digit(#[trigger] s[i])
            || text::is_lower(s[i]) || text::is_upper(s[i]) || s[i] == '.' || s[i] == '-' || s[i]
            == '/' by {
            if i < 4 {
                assert(text::is_digit(s.take(4)[i]));
            } else if 5 <= i < 5 + n {
                assert(text::is_digit(s.subrange(5, 5 + n)[i - 5]));
            } else if i >= 5 + n {
                assert(s.skip(5 + n)[i - 5 - n] == s[i]);
            }
        }
    } else {
        let k = choose|k: int| old_style_at(s, k);
        let c = s.take(k);
        let d = s.skip(k + 1);
        lemma_version_chars(d.skip(7));
        assert forall|i: int| 0 <= i < s.len() implies text::is_digit(#[trigger] s[i])
            || text::is_lower(s[i]) || text::is_upper(s[i]) || s[i] == '.' || s[i] == '-' || s[i]
            == '/' by {
            if i < k {
                assert(c[i] == s[i]);
                if class_core(c) {
                } else if i < k - 3 {
                    assert(c.take(c.len() - 3)[i] == s[i]);
                }
            } else if i > k {
                assert(d[i - k - 1] == s[i]);
                if i - k - 1 < 7 {
                    assert(text::is_digit(d.take(7)[i - k - 1]));
                } else {
                    assert(d.skip(7)[i - k - 8] == s[i]);
                }
            }
        }
    }
}

proof fn lemma_version_chars(s: Seq<char>)
    requires
        version_suffix(s),
    ensures
        forall|i: int| 0 <= i < s.len() ==> text::is_digit(#[trigger] s[i]) || text::is_lower(s[i]),
{
    assert forall|i: int| 0 <= i < s.len() implies text::is_digit(#[trigger] s[i])
        || text::is_lower(s[i]) by {
        if i > 0 {
            assert(text::is_digit(s.skip(1)[i - 1]));
        }
    }
}

/// No text is both a DOI and an arXiv id.
pub proof fn law_shapes_are_disjoint(s: Seq<char>)
    ensures
        doi_defect(s) is Some || arxiv_defect(s) is Some,
{
    if arxiv_defect(s) is None {
        lemma_arxiv_has_no_scheme(s);
    }
}

/// What a parse gives back is a valid bare identifier of its kind, and parsing
/// it again gives the same reference.
pub proof fn law_parse_is_idempotent(s: Seq<char>)
    requires
        parse_ref(s) is Ok,
    ensures
        parse_ref(s)->Ok_0.valid(),
        parse_ref(parse_ref(s)->Ok_0.id()) == parse_ref(s),
{
    law_bare_identifiers_parse(parse_ref(s)->Ok_0);
}

/// Every valid bare identifier parses to itself, under its own kind.
pub proof fn law_bare_identifiers_parse(m: RefModel)
    requires
        m.valid(),
    ensures
        parse_ref(m.id()) == Ok::<RefModel, RefParseError>(m),
{
    match m {
        RefModel::Doi(s) => {
            lemma_doi_has_no_scheme(s);
        },
        RefModel::Arxiv(s) => {
            lemma_arxiv_has_no_scheme(s);
        },
    }
}

/// A scheme is dropped: the text with it and the text without it parse alike,
/// as long as the bare text is of the scheme's kind and carries no scheme.
pub proof fn law_schemes_are_dropped(s: Seq<char>)
    ensures
        doi_defect(s) is None ==> parse_ref("doi:"@ + s) == parse_ref(s),
        arxiv_defect(s) is None ==> parse_ref("arxiv:"@ + s) == parse_ref(s),
{
    reveal_strlit("doi:");
    reveal_strlit("arxiv:");
    if doi_defect(s) is None {
        let t = "doi:"@ + s;
        assert(t.take(4) =~= "doi:"@);
        assert(text::lower("doi:"@) =~= "doi:"@);
        assert(t.skip(4) =~= s);
        law_bare_identifiers_parse(RefModel::Doi(s));
    }
    if arxiv_defect(s) is None {
        let t = "arxiv:"@ + s;
        assert(t.take(6) =~= "arxiv:"@);
        assert(text::lower("arxiv:"@) =~= "arxiv:"@);
        assert(t.skip(6) =~= s);
        assert(!has_scheme(t, "doi:"@)) by {
            if has_scheme(t, "doi:"@) {
                assert(text::lower(t.take(4))[0] == text::lower_char(t[0]));
            }
        }
        assert(!"10."@.is_prefix_of(t)) by {
            reveal_strlit("10.");
            if "10."@.is_prefix_of(t) {
                assert(t.subrange(0, 3)[0] == '1');
            }
        }
        law_bare_identifiers_parse(RefModel::Arxiv(s));
    }
}

/// The text has the shape of a DOI: `10.`, four to nine digits, a slash, and one
/// to 256 characters of `[A-Za-z0-9._/()-]`.
pub open spec fn written_as_doi(s: Seq<char>, registrant: Seq<char>, suffix: Seq<char>) -> bool {
    &&& s == "10."@ + registrant + "/"@ + suffix
    &&& 4 <= registrant.len() <= 9
    &&& forall|i: int|
        0 <= i < registrant.len() ==> '0' <= #[trigger] registrant[i] && registrant[i] <= '9'
    &&& 1 <= suffix.len() <= 256
    &&& forall|i: int| 0 <= i < suffix.len() ==> allowed_in_suffix(#[trigger] suffix[i])
}

/// The characters `[A-Za-z0-9._/()-]`.
pub open spec fn allowed_in_suffix(c: char) -> bool {
    ||| 'A' <= c && c <= 'Z'
    ||| 'a' <= c && c <= 'z'
    ||| '0' <= c && c <= '9'
    ||| "._/()-"@.contains(c)
}

proof fn lemma_allowed(c: char)
    ensures
        allowed_in_suffix(c) == doi_suffix_char(c),
{
    reveal_strlit("._/()-");
    let t = "._/()-"@;
    assert(t[0] == '.' && t[1] == '_' && t[2] == '/' && t[3] == '(' && t[4] == ')' && t[5] == '-');
    if t.contains(c) {
        let i = choose|i: int| 0 <= i < t.len() && t[i] == c;
        assert(i == 0 || i == 1 || i == 2 || i == 3 || i == 4 || i == 5);
    }
}

proof fn lemma_ascii_len(s: Seq<char>)
    requires
        forall|i: int| 0 <= i < s.len() ==> '\0' <= #[trigger] s[i] && s[i] <= '\u{7f}',
    ensures
        text::byte_len(s) == s.len(),
{
    assert(vstd::utf8::is_ascii_chars(s));
    vstd::utf8::is_ascii_chars_encode_utf8(s);
}

proof fn lemma_doi_parts(s: Seq<char>, r: Seq<char>, t: Seq<char>)
    requires
        s == "10."@ + r + "/"@ + t,
        !r.contains('/'),
    ensures
        s.len() == 4 + r.len() + t.len(),
        "10."@.is_prefix_of(s),
        s.skip(3).contains('/'),
        doi_registrant(s) == r,
        doi_suffix(s) == t,
        doi_prefix(s) == "10."@ + r,
{
    reveal_strlit("10.");
    reveal_strlit("/");
    assert(s.subrange(0, 3) =~= "10."@);
    let rest = s.skip(3);
    let k = r.len() as int;
    assert(rest =~= r + "/"@ + t);
    assert(rest[k] == '/');
    assert forall|j: int| 0 <= j < k implies rest[j] != '/' by {
        assert(rest[j] == r[j]);
        assert(r.contains(r[j]));
    }
    text::lemma_first_at(rest, '/', k);
    assert(rest.take(k) =~= r);
    assert(rest.skip(k + 1) =~= t);
    assert forall|j: int| 0 <= j < k + 3 implies s[j] != '/' by {
        if j >= 3 {
            assert(s[j] == rest[j - 3]);
        } else {
            assert(s[j] == "10."@[j]);
        }
    }
    assert(s[k + 3] == '/');
    text::lemma_first_at(s, '/', k + 3);
    assert(s.take(k + 3) =~= "10."@ + r);
}

/// Every text of the shape of a DOI parses as that DOI, and what stands in
/// front of its first slash is its prefix.
pub proof fn law_dois_parse(s: Seq<char>, registrant: Seq<char>, suffix: Seq<char>)
    requires
        written_as_doi(s, registrant, suffix),
    ensures
        parse_ref(s) == Ok::<RefModel, RefParseError>(RefModel::Doi(s)),
        doi_prefix(s) == "10."@ + registrant,
{
    assert(!registrant.contains('/')) by {
        if registrant.contains('/') {
            let i = choose|i: int| 0 <= i < registrant.len() && registrant[i] == '/';
            assert('0' <= registrant[i]);
        }
    }
    lemma_doi_parts(s, registrant, suffix);
    assert forall|i: int| 0 <= i < suffix.len() implies doi_suffix_char(#[trigger] suffix[i]) by {
        lemma_allowed(suffix[i]);
    }
    lemma_first_bad(suffix, suffix.len() as int);
    lemma_ascii_len(suffix);
    assert(doi_defect(s) is None);
    law_bare_identifiers_parse(RefModel::Doi(s));
}

/// What parses as a DOI has the shape of one, and stood in the text bare or
/// behind `doi:` in any mix of cases.
pub proof fn law_parsed_dois_have_their_shape(s: Seq<char>, doi: Seq<char>)
    requires
        parse_ref(s) == Ok::<RefModel, RefParseError>(RefModel::Doi(doi)),
    ensures
        exists|registrant: Seq<char>, suffix: Seq<char>|
            #[trigger] written_as_doi(doi, registrant, suffix),
        s == doi || (s.len() == 4 + doi.len() && s.skip(4) == doi && scheme_written(
            s.take(4),
            "doi:"@,
        )),
{
    reveal_strlit("10.");
    reveal_strlit("/");
    reveal_strlit("doi:");
    let r = doi_registrant(doi);
    let t = doi_suffix(doi);
    let rest = doi.skip(3);
    let k = text::first_at(rest, '/');
    text::lemma_first_at_is_first(rest, '/');
    assert(doi.subrange(0, 3) =~= "10."@);
    assert(doi =~= "10."@ + r + "/"@ + t) by {
        assert(rest =~= r + "/"@ + t);
    }
    lemma_first_bad_is_first(t);
    assert forall|i: int| 0 <= i < t.len() implies allowed_in_suffix(#[trigger] t[i]) by {
        lemma_allowed(t[i]);
    }
    lemma_ascii_len(t);
    assert(written_as_doi(doi, r, t));
    if s != doi {
        assert(has_scheme(s, "doi:"@));
        lemma_scheme_written(s.take(4), "doi:"@);
    }
}

/// The text is the scheme, which is given in lower case, in any mix of cases.
pub open spec fn scheme_written(s: Seq<char>, scheme: Seq<char>) -> bool {
    s.len() == scheme.len() && forall|i: int|
        0 <= i < s.len() ==> #[trigger] s[i] == scheme[i] || ('A' <= s[i] && s[i] <= 'Z'
            && s[i] as int + 32 == scheme[i] as int)
}

proof fn lemma_scheme_written(s: Seq<char>, scheme: Seq<char>)
    requires
        forall|i: int|
            0 <= i < scheme.len() ==> !('A' <= #[trigger] scheme[i] && scheme[i] <= 'Z'),
    ensures
        scheme_written(s, scheme) <==> text::lower(s) == scheme,
{
    if text::lower(s) == scheme {
        assert forall|i: int| 0 <= i < s.len() implies #[trigger] s[i] == scheme[i] || ('A' <= s[i]
            && s[i] <= 'Z' && s[i] as int + 32 == scheme[i] as int) by {
            assert(text::lower(s)[i] == text::lower_char(s[i]));
        }
    }
    if scheme_written(s, scheme) {
        assert forall|i: int| 0 <= i < s.len() implies text::lower(s)[i] == scheme[i] by {
            assert(s[i] == scheme[i] || ('A' <= s[i] && s[i] <= 'Z' && s[i] as int + 32
                == scheme[i] as int));
            assert(!('A' <= scheme[i] && scheme[i] <= 'Z'));
        }
        assert(text::lower(s) =~= scheme);
    }
}

/// `doi:` in any mix of cases makes a text a DOI or nothing: what stands behind
/// it parses as it does bare where it begins with `10.`, and is refused else.
pub proof fn law_doi_scheme_decides(scheme: Seq<char>, s: Seq<char>)
    requires
        scheme_written(scheme, "doi:"@),
    ensures
        "10."@.is_prefix_of(s) ==> parse_ref(scheme + s) == parse_ref(s),
        s.len() == 0 ==> parse_ref(scheme + s) == Err::<RefModel, RefParseError>(
            RefParseError::Empty,
        ),
        s.len() > 0 && !"10."@.is_prefix_of(s) ==> parse_ref(scheme + s) == Err::<
            RefModel,
            RefParseError,
        >(RefParseError::MissingDoiPrefix),
{
    reveal_strlit("doi:");
    reveal_strlit("arxiv:");
    reveal_strlit("10.");
    let t = scheme + s;
    assert(t.take(4) =~= scheme);
    assert(t.skip(4) =~= s);
    lemma_scheme_written(scheme, "doi:"@);
    if "10."@.is_prefix_of(s) {
        assert(s.subrange(0, 3)[0] == '1');
        assert(s[0] == '1');
        if has_scheme(s, "doi:"@) {
            assert(text::lower(s.take(4))[0] == text::lower_char(s[0]));
        }
        if has_scheme(s, "arxiv:"@) {
            assert(text::lower(s.take(6))[0] == text::lower_char(s[0]));
        }
    }
}

/// Each error of a text that begins with `10.` comes where it should: no slash,
/// a registrant that is not four to nine digits, an empty suffix, one of more
/// than 256 bytes, and else the first character that no suffix may hold.
pub proof fn law_doi_errors_name_the_defect(r: Seq<char>, t: Seq<char>, k: int)
    requires
        !r.contains('/'),
    ensures
        parse_ref("10."@ + r) == Err::<RefModel, RefParseError>(
            RefParseError::MissingDoiSuffixSeparator,
        ),
        ({
            let s = "10."@ + r + "/"@ + t;
            let fit = 4 <= r.len() <= 9 && forall|i: int|
                0 <= i < r.len() ==> '0' <= #[trigger] r[i] && r[i] <= '9';
            &&& !fit ==> parse_ref(s) == Err::<RefModel, RefParseError>(
                RefParseError::InvalidDoiRegistrant,
            )
            &&& fit && t.len() == 0 ==> parse_ref(s) == Err::<RefModel, RefParseError>(
                RefParseError::EmptyDoiSuffix,
            )
            &&& fit && vstd::utf8::encode_utf8(t).len() > 256 ==> (parse_ref(s) matches Err(
                RefParseError::DoiSuffixTooLong { len, max },
            ) && len == vstd::utf8::encode_utf8(t).len() as usize && max == 256)
            &&& fit && vstd::utf8::encode_utf8(t).len() <= 256 && 0 <= k < t.len()
                && !allowed_in_suffix(t[k]) && (forall|i: int|
                0 <= i < k ==> allowed_in_suffix(#[trigger] t[i])) ==> parse_ref(s) == Err::<
                RefModel,
                RefParseError,
            >(RefParseError::InvalidDoiSuffixChar { ch: t[k] })
        }),
{
    reveal_strlit("10.");
    reveal_strlit("/");
    reveal_strlit("doi:");
    reveal_strlit("arxiv:");
    let bare = "10."@ + r;
    let s = "10."@ + r + "/"@ + t;
    lemma_doi_parts(s, r, t);
    assert(bare.skip(3) =~= r);
    assert(bare.subrange(0, 3) =~= "10."@);
    lemma_ten_has_no_scheme(bare);
    lemma_ten_has_no_scheme(s);
    if t.len() == 0 {
        assert(t =~= Seq::<char>::empty());
    }
    if vstd::utf8::encode_utf8(t).len() > 256 {
        assert(t.len() > 0) by {
            if t.len() == 0 {
                assert(t =~= Seq::<char>::empty());
                assert(vstd::utf8::encode_utf8(Seq::<char>::empty()).len() == 0);
            }
        }
    }
    if 0 <= k < t.len() && !allowed_in_suffix(t[k]) && (forall|i: int|
        0 <= i < k ==> allowed_in_suffix(#[trigger] t[i])) {
        lemma_allowed(t[k]);
        assert forall|i: int| 0 <= i < k implies doi_suffix_char(#[trigger] t[i]) by {
            lemma_allowed(t[i]);
        }
        lemma_first_bad(t, k);
    }
}

proof fn lemma_ten_has_no_scheme(s: Seq<char>)
    requires
        "10."@.is_prefix_of(s),
    ensures
        !has_scheme(s, "doi:"@),
        !has_scheme(s, "arxiv:"@),
        s.len() >= 3,
{
    reveal_strlit("10.");
    reveal_strlit("doi:");
    reveal_strlit("arxiv:");
    assert(s.subrange(0, 3)[0] == '1');
    assert(s[0] == '1');
    if has_scheme(s, "doi:"@) {
        assert(text::lower(s.take(4))[0] == text::lower_char(s[0]));
    }
    if has_scheme(s, "arxiv:"@) {
        assert(text::lower(s.take(6))[0] == text::lower_char(s[0]));
    }
}

/// Every character is a decimal digit.
pub open spec fn in_digits(s: Seq<char>) -> bool {
    forall|i: int| 0 <= i < s.len() ==> '0' <= #[trigger] s[i] && s[i] <= '9'
}

/// Nothing, or `v` with at least one digit.
pub open spec fn written_version(s: Seq<char>) -> bool {
    s.len() == 0 || exists|n: Seq<char>| n.len() > 0 && in_digits(n) && s == #[trigger] ("v"@ + n)
}

/// The text has the shape of a new-style arXiv id: four digits, a dot, four or
/// five digits, and a version that may be missing.
pub open spec fn written_as_new_arxiv(
    s: Seq<char>,
    month: Seq<char>,
    number: Seq<char>,
    version: Seq<char>,
) -> bool {
    &&& s == month + "."@ + number + version
    &&& month.len() == 4 && in_digits(month)
    &&& (number.len() == 4 || number.len() == 5) && in_digits(number)
    &&& written_version(version)
}

/// The text names a subject class: lower-case letters and inner hyphens, with
/// `.XX` behind them or not.
pub open spec fn written_class(core: Seq<char>, group: Seq<char>) -> bool {
    &&& core.len() > 0
    &&& forall|i: int|
        0 <= i < core.len() ==> ('a' <= #[trigger] core[i] && core[i] <= 'z') || core[i] == '-'
    &&& core[0] != '-' && core[core.len() - 1] != '-'
    &&& group.len() == 0 || (group.len() == 3 && group[0] == '.' && 'A' <= group[1] && group[1]
        <= 'Z' && 'A' <= group[2] && group[2] <= 'Z')
}

/// The text has the shape of an old-style arXiv id: a subject class, a slash,
/// seven digits, and a version that may be missing.
pub open spec fn written_as_old_arxiv(
    s: Seq<char>,
    core: Seq<char>,
    group: Seq<char>,
    number: Seq<char>,
    version: Seq<char>,
) -> bool {
    &&& s == core + group + "/"@ + number + version
    &&& written_class(core, group)
    &&& number.len() == 7 && in_digits(number)
    &&& written_version(version)
}

proof fn lemma_written_version(s: Seq<char>)
    ensures
        written_version(s) == version_suffix(s),
{
    reveal_strlit("v");
    if written_version(s) && s.len() > 0 {
        let n = choose|n: Seq<char>| n.len() > 0 && in_digits(n) && s == #[trigger] ("v"@ + n);
        assert(s.skip(1) =~= n);
        assert forall|i: int| 0 <= i < n.len() implies text::is_digit(#[trigger] n[i]) by {}
    }
    if version_suffix(s) && s.len() > 0 {
        let n = s.skip(1);
        assert(in_digits(n)) by {
            assert forall|i: int| 0 <= i < n.len() implies '0' <= #[trigger] n[i] && n[i]
                <= '9' by {
                assert(text::is_digit(n[i]));
            }
        }
        assert(s =~= "v"@ + n);
    }
}

proof fn lemma_in_digits(s: Seq<char>)
    ensures
        in_digits(s) == text::all_digits(s),
{
    if in_digits(s) {
        assert forall|i: int| 0 <= i < s.len() implies text::is_digit(#[trigger] s[i]) by {}
    }
    if text::all_digits(s) {
        assert forall|i: int| 0 <= i < s.len() implies '0' <= #[trigger] s[i] && s[i] <= '9' by {
            assert(text::is_digit(s[i]));
        }
    }
}

/// Every text of the shape of a new-style arXiv id parses as that id.
pub proof fn law_new_arxiv_ids_parse(
    s: Seq<char>,
    month: Seq<char>,
    number: Seq<char>,
    version: Seq<char>,
)
    requires
        written_as_new_arxiv(s, month, number, version),
    ensures
        parse_ref(s) == Ok::<RefModel, RefParseError>(RefModel::Arxiv(s)),
{
    reveal_strlit(".");
    let n = number.len() as int;
    assert(s.take(4) =~= month);
    assert(s.subrange(5, 5 + n) =~= number);
    assert(s.skip(5 + n) =~= version);
    lemma_in_digits(month);
    lemma_in_digits(number);
    lemma_written_version(version);
    assert(new_style_of(s, n));
    law_bare_identifiers_parse(RefModel::Arxiv(s));
}

/// Every text of the shape of an old-style arXiv id parses as that id.
pub proof fn law_old_arxiv_ids_parse(
    s: Seq<char>,
    core: Seq<char>,
    group: Seq<char>,
    number: Seq<char>,
    version: Seq<char>,
)
    requires
        written_as_old_arxiv(s, core, group, number, version),
    ensures
        parse_ref(s) == Ok::<RefModel, RefParseError>(RefModel::Arxiv(s)),
{
    reveal_strlit("/");
    let class = core + group;
    let k = class.len() as int;
    assert(s.take(k) =~= class);
    assert(s[k] == '/');
    assert(s.skip(k + 1) =~= number + version);
    assert(class_core(core)) by {
        assert forall|i: int| 0 <= i < core.len() implies text::is_lower(#[trigger] core[i])
            || core[i] == '-' by {
            assert(('a' <= core[i] && core[i] <= 'z') || core[i] == '-');
        }
    }
    if group.len() == 0 {
        assert(class =~= core);
    } else {
        assert(class.take(class.len() - 3) =~= core);
        assert(class[class.len() - 3] == group[0]);
        assert(class[class.len() - 2] == group[1]);
        assert(class[class.len() - 1] == group[2]);
    }
    assert((number + version).take(7) =~= number);
    assert((number + version).skip(7) =~= version);
    lemma_in_digits(number);
    lemma_written_version(version);
    assert(old_style_at(s, k));
    law_bare_identifiers_parse(RefModel::Arxiv(s));
}

/// What parses as an arXiv id has one of the two shapes, and stood in the text
/// bare or behind `arxiv:` in any mix of cases.
pub proof fn law_parsed_arxiv_ids_have_their_shape(s: Seq<char>, id: Seq<char>)
    requires
        parse_ref(s) == Ok::<RefModel, RefParseError>(RefModel::Arxiv(id)),
    ensures
        (exists|month: Seq<char>, number: Seq<char>, version: Seq<char>|
            #[trigger] written_as_new_arxiv(id, month, number, version)) || (exists|
            core: Seq<char>,
            group: Seq<char>,
            number: Seq<char>,
            version: Seq<char>,
        |
            #[trigger] written_as_old_arxiv(id, core, group, number, version)),
        s == id || (s.len() == 6 + id.len() && s.skip(6) == id && scheme_written(
            s.take(6),
            "arxiv:"@,
        )),
{
    reveal_strlit(".");
    reveal_strlit("/");
    reveal_strlit("arxiv:");
    if new_style_arxiv(id) {
        let n: int = if new_style_of(id, 4) {
            4
        } else {
            5
        };
        let (a, b, c) = (id.take(4), id.subrange(5, 5 + n), id.skip(5 + n));
        lemma_in_digits(a);
        lemma_in_digits(b);
        lemma_written_version(c);
        assert(id =~= a + "."@ + b + c);
        assert(written_as_new_arxiv(id, a, b, c));
    } else {
        let k = choose|k: int| old_style_at(id, k);
        let class = id.take(k);
        let tail = id.skip(k + 1);
        let (core, group) = if class_core(class) {
            (class, Seq::<char>::empty())
        } else {
            (class.take(class.len() - 3), class.skip(class.len() - 3))
        };
        assert(class =~= core + group);
        assert forall|i: int| 0 <= i < core.len() implies ('a' <= #[trigger] core[i] && core[i]
            <= 'z') || core[i] == '-' by {
            assert(text::is_lower(core[i]) || core[i] == '-');
        }
        let (number, version) = (tail.take(7), tail.skip(7));
        lemma_in_digits(number);
        lemma_written_version(version);
        assert(id =~= core + group + "/"@ + number + version);
        assert(written_class(core, group));
        assert(written_as_old_arxiv(id, core, group, number, version));
    }
    if s != id {
        assert(has_scheme(s, "arxiv:"@));
        lemma_scheme_written(s.take(6), "arxiv:"@);
    }
}

/// `arxiv:` in any mix of cases makes a text an arXiv id or nothing: what stands
/// behind it parses as it does bare where that is an arXiv id, and is refused
/// else.
pub proof fn law_arxiv_scheme_decides(scheme: Seq<char>, s: Seq<char>)
    requires
        scheme_written(scheme, "arxiv:"@),
    ensures
        s.len() == 0 ==> parse_ref(scheme + s) == Err::<RefModel, RefParseError>(
            RefParseError::Empty,
        ),
        s.len() > 0 ==> parse_ref(scheme + s) == (match parse_ref(s) {
            Ok(RefModel::Arxiv(id)) => if id == s {
                Ok::<RefModel, RefParseError>(RefModel::Arxiv(s))
            } else {
                Err(RefParseError::InvalidArxivShape)
            },
            _ => Err(RefParseError::InvalidArxivShape),
        }),
{
    reveal_strlit("doi:");
    reveal_strlit("arxiv:");
    reveal_strlit("10.");
    let t = scheme + s;
    assert(t.take(6) =~= scheme);
    assert(t.skip(6) =~= s);
    lemma_scheme_written(scheme, "arxiv:"@);
    assert(scheme[0] == "arxiv:"@[0] || scheme[0] as int + 32 == "arxiv:"@[0] as int);
    assert(t[0] == scheme[0]);
    assert(!has_scheme(t, "doi:"@)) by {
        if has_scheme(t, "doi:"@) {
            assert(text::lower(t.take(4))[0] == text::lower_char(t[0]));
        }
    }
    if arxiv_defect(s) is None {
        law_bare_identifiers_parse(RefModel::Arxiv(s));
    } else if s.len() > 0 {
        if let Ok(RefModel::Arxiv(id)) = parse_ref(s) {
            if id == s {
                assert(arxiv_defect(id) is None);
            }
        }
    }
}

/// A bare text is a DOI or nothing where it begins with `10.`, and an arXiv id
/// or nothing else; only the empty text is told to be empty.
pub proof fn law_bare_texts_are_told_apart(s: Seq<char>)
    requires
        !has_scheme(s, "doi:"@),
        !has_scheme(s, "arxiv:"@),
    ensures
        parse_ref(s) matches Err(RefParseError::Empty) <==> s.len() == 0,
        "10."@.is_prefix_of(s) ==> !(parse_ref(s) matches Ok(RefModel::Arxiv(_))) && !(parse_ref(
            s,
        ) matches Err(RefParseError::InvalidArxivShape)),
        s.len() > 0 && !"10."@.is_prefix_of(s) ==> parse_ref(s) == Ok::<RefModel, RefParseError>(
            RefModel::Arxiv(s),
        ) || parse_ref(s) == Err::<RefModel, RefParseError>(RefParseError::InvalidArxivShape),
{
    reveal_strlit("10.");
}

/// The prefix of a DOI is what stands in front of its first slash.
pub proof fn law_prefixes_end_at_the_first_slash(s: Seq<char>, registrant: Seq<char>, suffix: Seq<char>)
    requires
        written_as_doi(s, registrant, suffix),
    ensures
        doi_prefix(s) == "10."@ + registrant,
{
    reveal_strlit("10.");
    reveal_strlit("/");
    let p = "10."@ + registrant;
    let k = p.len() as int;
    assert(s[k] == '/');
    assert forall|j: int| 0 <= j < k implies s[j] != '/' by {
        if j >= 3 {
            assert(s[j] == registrant[j - 3]);
            assert('0' <= registrant[j - 3] && registrant[j - 3] <= '9');
        } else {
            assert(s[j] == "10."@[j]);
        }
    }
    text::lemma_first_at(s, '/', k);
    assert(s.take(k) =~= p);
}

} // verus!
