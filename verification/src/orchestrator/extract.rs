//! What is read out of the records of the metadata sources. A field that is
//! missing or of another shape is left out, never guessed.

use crate::json;
use crate::json::Json;
use crate::text;
use crate::urls;
use crate::urls::UrlModel;
use crate::urls::WebUrl;
use vstd::prelude::*;

verus! {

// ---------------------------------------------------------------------------
// Walking a record
// ---------------------------------------------------------------------------

/// The first item, where this is an array that has one.
pub open spec fn first_item(v: Option<Json>) -> Option<Json> {
    match json::opt_items(v) {
        Some(items) => if items.len() > 0 {
            Some(items[0])
        } else {
            None
        },
        None => None,
    }
}

fn first_of(v: Option<&Json>) -> (r: Option<&Json>)
    ensures
        json::borrowed(
            r,
            first_item(
                match v {
                    Some(j) => Some(*j),
                    None => None,
                },
            ),
        ),
{
    match v {
        Some(j) => match j.as_items() {
            Some(items) => if items.len() > 0 {
                Some(&items[0])
            } else {
                None
            },
            None => None,
        },
        None => None,
    }
}

/// The text of the first item of a member.
pub open spec fn first_text_of(v: Json, name: Seq<char>) -> Option<Seq<char>> {
    json::opt_text(first_item(v.member(name)))
}

pub(crate) fn first_text(v: &Json, name: &str) -> (r: Option<String>)
    ensures
        text::opt_view(r) == first_text_of(*v, name@),
{
    match first_of(v.get(name)) {
        Some(j) => json::owned_text(j.as_text()),
        None => None,
    }
}

/// The text of a member.
pub open spec fn text_of(v: Json, name: Seq<char>) -> Option<Seq<char>> {
    json::opt_text(v.member(name))
}

pub(crate) fn text_copy(v: &Json, name: &str) -> (r: Option<String>)
    ensures
        text::opt_view(r) == text_of(*v, name@),
{
    json::owned_text(v.text_at(name))
}

/// A number, where 32 bits hold it.
pub open spec fn narrow(n: Option<i64>) -> Option<i32> {
    match n {
        Some(x) => if i32::MIN <= x <= i32::MAX {
            Some(x as i32)
        } else {
            None
        },
        None => None,
    }
}

fn narrow_of(n: Option<i64>) -> (r: Option<i32>)
    ensures
        r == narrow(n),
{
    match n {
        Some(x) => if i32::MIN as i64 <= x && x <= i32::MAX as i64 {
            Some(x as i32)
        } else {
            None
        },
        None => None,
    }
}

// ---------------------------------------------------------------------------
// Names
// ---------------------------------------------------------------------------

/// How the names of authors stand in a record.
#[derive(Debug, Clone, Copy, PartialEq, Eq, Structural)]
pub enum NameStyle {
    /// A list of texts.
    Plain,
    /// Objects; the family name comes first.
    FamilyFirst,
    /// Objects; the given name comes first, or there is a whole name.
    GivenFirst,
    /// Objects with a whole name, or with its two parts.
    WholeFirst,
}

/// The text, or none.
pub open spec fn or_empty(o: Option<Seq<char>>) -> Seq<char> {
    match o {
        Some(s) => s,
        None => Seq::empty(),
    }
}

/// The name that an item gives.
pub open spec fn name_in(style: NameStyle, v: Json) -> Option<Seq<char>> {
    match style {
        NameStyle::Plain => v.text(),
        NameStyle::FamilyFirst => match (text_of(v, "family"@), text_of(v, "given"@)) {
            (Some(f), Some(g)) => Some(f + ", "@ + g),
            (Some(f), None) => Some(f),
            (None, Some(g)) => Some(g),
            (None, None) => None,
        },
        NameStyle::GivenFirst => {
            let both = text::trim(
                or_empty(text_of(v, "given"@)) + " "@ + or_empty(text_of(v, "family"@)),
            );
            if both.len() == 0 {
                text_of(v, "name"@)
            } else {
                Some(both)
            }
        },
        NameStyle::WholeFirst => match text_of(v, "name"@) {
            Some(n) => Some(n),
            None => match (text_of(v, "givenName"@), text_of(v, "familyName"@)) {
                (Some(g), Some(f)) => Some(g + " "@ + f),
                (None, Some(f)) => Some(f),
                _ => None,
            },
        },
    }
}

fn name_from(style: NameStyle, v: &Json) -> (r: Option<String>)
    ensures
        text::opt_view(r) == name_in(style, *v),
{
    match style {
        NameStyle::Plain => json::owned_text(v.as_text()),
        NameStyle::FamilyFirst => match (text_copy(v, "family"), text_copy(v, "given")) {
            (Some(f), Some(g)) => Some(f.concat(", ").concat(g.as_str())),
            (Some(f), None) => Some(f),
            (None, Some(g)) => Some(g),
            (None, None) => None,
        },
        NameStyle::GivenFirst => {
            let given = match text_copy(v, "given") {
                Some(g) => g,
                None => String::new(),
            };
            let family = match text_copy(v, "family") {
                Some(f) => f,
                None => String::new(),
            };
            assert(given@ == or_empty(text_of(*v, "given"@)));
            assert(family@ == or_empty(text_of(*v, "family"@)));
            let both = text::trim_of(given.concat(" ").concat(family.as_str()).as_str());
            if both.as_str().is_empty() {
                text_copy(v, "name")
            } else {
                Some(both)
            }
        },
        NameStyle::WholeFirst => match text_copy(v, "name") {
            Some(n) => Some(n),
            None => match (text_copy(v, "givenName"), text_copy(v, "familyName")) {
                (Some(g), Some(f)) => Some(g.concat(" ").concat(f.as_str())),
                (None, Some(f)) => Some(f),
                _ => None,
            },
        },
    }
}

/// The names that the items give, in their order.
pub open spec fn names_in(style: NameStyle, items: Seq<Json>) -> Seq<Seq<char>>
    decreases items.len(),
{
    if items.len() == 0 {
        Seq::empty()
    } else {
        let before = names_in(style, items.drop_last());
        match name_in(style, items.last()) {
            Some(n) => before.push(n),
            None => before,
        }
    }
}

/// The names of an array member.
pub open spec fn names_at(style: NameStyle, v: Json, name: Seq<char>) -> Seq<Seq<char>> {
    match json::opt_items(v.member(name)) {
        Some(items) => names_in(style, items),
        None => Seq::empty(),
    }
}

fn names_of(style: NameStyle, v: &Json, name: &str) -> (r: Vec<String>)
    ensures
        text::views(r@) == names_at(style, *v, name@),
{
    let mut out: Vec<String> = Vec::new();
    assert(text::views(out@) =~= Seq::empty());
    match v.items_at(name) {
        Some(items) => {
            let mut i: usize = 0;
            while i < items.len()
                invariant
                    i <= items.len(),
                    text::views(out@) == names_in(style, items@.take(i as int)),
                decreases items.len() - i,
            {
                assert(items@.take(i + 1).drop_last() =~= items@.take(i as int));
                let ghost before = out@;
                match name_from(style, &items[i]) {
                    Some(n) => {
                        let ghost shown = n@;
                        out.push(n);
                        assert(text::views(out@) =~= text::views(before).push(shown));
                    },
                    None => {},
                }
                i += 1;
            }
            assert(items@.take(i as int) =~= items@);
        },
        None => {},
    }
    out
}

/// The authors of a record of any source: a list of texts, else objects under
/// either of two members.
pub open spec fn authors_in(meta: Json) -> Seq<Seq<char>> {
    let plain = names_at(NameStyle::Plain, meta, "authors"@);
    let author = names_at(NameStyle::GivenFirst, meta, "author"@);
    if plain.len() > 0 {
        plain
    } else if author.len() > 0 {
        author
    } else {
        names_at(NameStyle::GivenFirst, meta, "z_authors"@)
    }
}

/// The authors of a record of any source.
pub fn extract_metadata_authors(meta: &Json) -> (r: Vec<String>)
    ensures
        text::views(r@) == authors_in(*meta),
{
    let plain = names_of(NameStyle::Plain, meta, "authors");
    if plain.len() > 0 {
        return plain;
    }
    let author = names_of(NameStyle::GivenFirst, meta, "author");
    if author.len() > 0 {
        return author;
    }
    names_of(NameStyle::GivenFirst, meta, "z_authors")
}

/// The subject categories of an arXiv record, the primary one first.
pub fn extract_arxiv_categories(atom: &Json) -> (r: Vec<String>)
    ensures
        text::views(r@) == names_at(NameStyle::Plain, *atom, "categories"@),
{
    names_of(NameStyle::Plain, atom, "categories")
}

// ---------------------------------------------------------------------------
// Titles
// ---------------------------------------------------------------------------

/// The first text that is not blank, without the white space around it.
pub open spec fn first_nonblank(items: Seq<Json>) -> Option<Seq<char>>
    decreases items.len(),
{
    if items.len() == 0 {
        None
    } else {
        match items[0].text() {
            Some(s) => if text::trim(s).len() > 0 {
                Some(text::trim(s))
            } else {
                first_nonblank(items.drop_first())
            },
            None => first_nonblank(items.drop_first()),
        }
    }
}

/// The title of a record: a text, or the first text of a list that is not
/// blank. A blank title is none.
pub open spec fn title_in(meta: Json) -> Option<Seq<char>> {
    match meta.member("title"@) {
        Some(t) => match t.text() {
            Some(s) => if text::trim(s).len() > 0 {
                Some(text::trim(s))
            } else {
                None
            },
            None => match t.items() {
                Some(items) => first_nonblank(items),
                None => None,
            },
        },
        None => None,
    }
}

/// The title of a record of any source.
pub fn extract_metadata_title(meta: &Json) -> (r: Option<String>)
    ensures
        text::opt_view(r) == title_in(*meta),
{
    let t = match meta.get("title") {
        Some(t) => t,
        None => return None,
    };
    match t.as_text() {
        Some(s) => {
            let trimmed = text::trim_of(s.as_str());
            if trimmed.as_str().is_empty() {
                None
            } else {
                Some(trimmed)
            }
        },
        None => match t.as_items() {
            Some(items) => {
                assert(items@.skip(0) =~= items@);
                let mut i: usize = 0;
                while i < items.len()
                    invariant
                        i <= items.len(),
                        title_in(*meta) == first_nonblank(items@.skip(i as int)),
                    decreases items.len() - i,
                {
                    assert(items@.skip(i as int)[0] == items@[i as int]);
                    assert(items@.skip(i as int).drop_first() =~= items@.skip(i + 1));
                    match items[i].as_text() {
                        Some(s) => {
                            let trimmed = text::trim_of(s.as_str());
                            if !trimmed.as_str().is_empty() {
                                return Some(trimmed);
                            }
                        },
                        None => {},
                    }
                    i += 1;
                }
                None
            },
            None => None,
        },
    }
}

// ---------------------------------------------------------------------------
// Bibliographic fields
// ---------------------------------------------------------------------------

/// The bibliographic fields of a record.
#[derive(Debug, Clone, PartialEq, Eq)]
pub struct CrossrefFields {
    /// Title.
    pub title: Option<String>,
    /// Authors.
    pub authors: Vec<String>,
    /// Year of publication.
    pub year: Option<i32>,
    /// Where it was published.
    pub venue: Option<String>,
    /// Volume.
    pub volume: Option<String>,
    /// Issue.
    pub issue: Option<String>,
    /// Pages, a range with two hyphens.
    pub pages: Option<String>,
    /// Kind of work.
    pub type_: Option<String>,
}

/// What the fields hold.
pub struct FieldsModel {
    pub title: Option<Seq<char>>,
    pub authors: Seq<Seq<char>>,
    pub year: Option<i32>,
    pub venue: Option<Seq<char>>,
    pub volume: Option<Seq<char>>,
    pub issue: Option<Seq<char>>,
    pub pages: Option<Seq<char>>,
    pub type_: Option<Seq<char>>,
}

impl View for CrossrefFields {
    type V = FieldsModel;

    open spec fn view(&self) -> FieldsModel {
        FieldsModel {
            title: text::opt_view(self.title),
            authors: text::views(self.authors@),
            year: self.year,
            venue: text::opt_view(self.venue),
            volume: text::opt_view(self.volume),
            issue: text::opt_view(self.issue),
            pages: text::opt_view(self.pages),
            type_: text::opt_view(self.type_),
        }
    }
}

/// No fields at all.
pub open spec fn no_fields() -> FieldsModel {
    FieldsModel {
        title: None,
        authors: Seq::empty(),
        year: None,
        venue: None,
        volume: None,
        issue: None,
        pages: None,
        type_: None,
    }
}

impl Default for CrossrefFields {
    fn default() -> (r: Self)
        ensures
            r@ == no_fields(),
    {
        let r = CrossrefFields {
            title: None,
            authors: Vec::new(),
            year: None,
            venue: None,
            volume: None,
            issue: None,
            pages: None,
            type_: None,
        };
        assert(r@.authors =~= Seq::<Seq<char>>::empty());
        r
    }
}

/// `s` with every hyphen doubled.
pub open spec fn doubled_hyphens(s: Seq<char>) -> Seq<char>
    decreases s.len(),
{
    if s.len() == 0 {
        Seq::empty()
    } else if s.last() == '-' {
        doubled_hyphens(s.drop_last()).push('-').push('-')
    } else {
        doubled_hyphens(s.drop_last()).push(s.last())
    }
}

/// A page range with two hyphens; what has two already, or none, stays.
pub open spec fn page_range(s: Seq<char>) -> Seq<char> {
    if text::contains_text(s, "--"@) {
        s
    } else {
        doubled_hyphens(s)
    }
}

/// A page range with two hyphens.
pub fn normalize_page_range(page: &str) -> (r: String)
    ensures
        r@ == page_range(page@),
{
    if text::has_text(page, "--") {
        return page.to_string();
    }
    let v = text::chars_of(page);
    let mut out: Vec<char> = Vec::new();
    let mut i: usize = 0;
    while i < v.len()
        invariant
            i <= v.len(),
            out@ == doubled_hyphens(v@.take(i as int)),
        decreases v.len() - i,
    {
        assert(v@.take(i + 1).drop_last() =~= v@.take(i as int));
        if v[i] == '-' {
            out.push('-');
            out.push('-');
        } else {
            out.push(v[i]);
        }
        i += 1;
    }
    assert(v@.take(i as int) =~= v@);
    text::string_of(out.as_slice())
}

/// The first number of the first list of a list.
pub open spec fn year_in(msg: Json) -> Option<i32> {
    narrow(
        match first_item(first_item(json::opt_member(msg.member("issued"@), "date-parts"@))) {
            Some(v) => v.signed(),
            None => None,
        },
    )
}

/// The fields of a Crossref record.
pub open spec fn crossref_fields(msg: Json) -> FieldsModel {
    FieldsModel {
        title: first_text_of(msg, "title"@),
        authors: names_at(NameStyle::FamilyFirst, msg, "author"@),
        year: year_in(msg),
        venue: first_text_of(msg, "container-title"@),
        volume: text_of(msg, "volume"@),
        issue: text_of(msg, "issue"@),
        pages: match text_of(msg, "page"@) {
            Some(p) => Some(page_range(p)),
            None => None,
        },
        type_: text_of(msg, "type"@),
    }
}

/// Reads the fields of a Crossref record.
pub fn extract_crossref_fields(msg: &Json) -> (r: CrossrefFields)
    ensures
        r@ == crossref_fields(*msg),
{
    let year = narrow_of(
        match first_of(first_of(msg.get_in("issued", "date-parts"))) {
            Some(v) => v.as_signed(),
            None => None,
        },
    );
    let pages = match msg.text_at("page") {
        Some(p) => Some(normalize_page_range(p.as_str())),
        None => None,
    };
    CrossrefFields {
        title: first_text(msg, "title"),
        authors: names_of(NameStyle::FamilyFirst, msg, "author"),
        year,
        venue: first_text(msg, "container-title"),
        volume: text_copy(msg, "volume"),
        issue: text_copy(msg, "issue"),
        pages,
        type_: text_copy(msg, "type"),
    }
}

/// The publisher of a DataCite record: a text, or the name of an object.
pub open spec fn datacite_publisher(attributes: Json) -> Option<Seq<char>> {
    match attributes.member("publisher"@) {
        Some(v) => match v.text() {
            Some(s) => Some(s),
            None => text_of(v, "name"@),
        },
        None => None,
    }
}

/// The fields of a DataCite record.
pub open spec fn datacite_fields(attributes: Json) -> FieldsModel {
    FieldsModel {
        title: json::opt_text(
            json::opt_member(first_item(attributes.member("titles"@)), "title"@),
        ),
        authors: names_at(NameStyle::WholeFirst, attributes, "creators"@),
        year: narrow(
            match attributes.member("publicationYear"@) {
                Some(v) => v.signed(),
                None => None,
            },
        ),
        venue: datacite_publisher(attributes),
        volume: None,
        issue: None,
        pages: None,
        type_: json::opt_text(
            json::opt_member(attributes.member("types"@), "resourceTypeGeneral"@),
        ),
    }
}

/// Reads the fields of a DataCite record.
pub fn extract_datacite_fields(attributes: &Json) -> (r: CrossrefFields)
    ensures
        r@ == datacite_fields(*attributes),
{
    let title = match first_of(attributes.get("titles")) {
        Some(t) => text_copy(t, "title"),
        None => None,
    };
    let year = narrow_of(
        match attributes.get("publicationYear") {
            Some(v) => v.as_signed(),
            None => None,
        },
    );
    let venue = match attributes.get("publisher") {
        Some(v) => match v.as_text() {
            Some(s) => Some(s.clone()),
            None => text_copy(v, "name"),
        },
        None => None,
    };
    CrossrefFields {
        title,
        authors: names_of(NameStyle::WholeFirst, attributes, "creators"),
        year,
        venue,
        volume: None,
        issue: None,
        pages: None,
        type_: json::owned_text(attributes.text_in("types", "resourceTypeGeneral")),
    }
}

/// The fields of a record of an optional source: only DataCite's have a known
/// place.
pub open spec fn optional_fields(source: Seq<char>, meta: Json) -> FieldsModel {
    if source == "datacite"@ {
        datacite_fields(meta)
    } else {
        no_fields()
    }
}

/// Reads the fields of a record of an optional source.
pub fn extract_optional_fields(source: &str, meta: &Json) -> (r: CrossrefFields)
    ensures
        r@ == optional_fields(source@, *meta),
{
    if text::same(source, "datacite") {
        extract_datacite_fields(meta)
    } else {
        CrossrefFields::default()
    }
}

// ---------------------------------------------------------------------------
// Years
// ---------------------------------------------------------------------------

/// The year of an RFC 3339 time, in the offset that it gives; none where the
/// text is no such time.
pub uninterp spec fn rfc3339_year(s: Seq<char>) -> Option<i32>;

/// Reads the time with `chrono::DateTime::parse_from_rfc3339` and its year with
/// `chrono::Datelike::year`; both depend on the text alone.
#[verifier::external_body]
fn parse_rfc3339_year(s: &str) -> (r: Option<i32>)
    ensures
        r == rfc3339_year(s@),
{
    chrono::DateTime::parse_from_rfc3339(s).ok().map(|t| chrono::Datelike::year(&t))
}

/// The year in which an arXiv record was published.
pub open spec fn published_year(atom: Json) -> Option<i32> {
    match text_of(atom, "published"@) {
        Some(s) => rfc3339_year(s),
        None => None,
    }
}

/// The year in which an arXiv record was published.
pub fn extract_published_year(atom: &Json) -> (r: Option<i32>)
    ensures
        r == published_year(*atom),
{
    match atom.text_at("published") {
        Some(s) => parse_rfc3339_year(s.as_str()),
        None => None,
    }
}

// ---------------------------------------------------------------------------
// Open-access locations
// ---------------------------------------------------------------------------

/// The first link that is not empty.
pub open spec fn first_link(items: Seq<Json>) -> Option<Seq<char>>
    decreases items.len(),
{
    if items.len() == 0 {
        None
    } else {
        match text_of(items[0], "URL"@) {
            Some(s) => if s.len() > 0 {
                Some(s)
            } else {
                first_link(items.drop_first())
            },
            None => first_link(items.drop_first()),
        }
    }
}

/// The open-access link of a Crossref record.
pub open spec fn crossref_oa_url(msg: Json) -> Option<Seq<char>> {
    match json::opt_items(msg.member("link"@)) {
        Some(items) => first_link(items),
        None => None,
    }
}

/// The open-access link of a Crossref record.
pub fn extract_crossref_oa_url(msg: &Json) -> (r: Option<String>)
    ensures
        text::opt_view(r) == crossref_oa_url(*msg),
{
    match msg.items_at("link") {
        Some(items) => {
            assert(items@.skip(0) =~= items@);
            let mut i: usize = 0;
            while i < items.len()
                invariant
                    i <= items.len(),
                    crossref_oa_url(*msg) == first_link(items@.skip(i as int)),
                decreases items.len() - i,
            {
                assert(items@.skip(i as int)[0] == items@[i as int]);
                assert(items@.skip(i as int).drop_first() =~= items@.skip(i + 1));
                match items[i].text_at("URL") {
                    Some(s) => {
                        if !s.as_str().is_empty() {
                            return Some(s.clone());
                        }
                    },
                    None => {},
                }
                i += 1;
            }
            None
        },
        None => None,
    }
}

/// The address that a location gives: that of the document, else that of the
/// page.
pub open spec fn location_text(loc: Json) -> Option<Seq<char>> {
    match text_of(loc, "url_for_pdf"@) {
        Some(s) => Some(s),
        None => text_of(loc, "url"@),
    }
}

fn location_copy(loc: &Json) -> (r: Option<String>)
    ensures
        text::opt_view(r) == location_text(*loc),
{
    match text_copy(loc, "url_for_pdf") {
        Some(s) => Some(s),
        None => text_copy(loc, "url"),
    }
}

/// The open-access link of an Unpaywall record.
pub open spec fn unpaywall_oa_url(meta: Json) -> Option<Seq<char>> {
    match meta.member("best_oa_location"@) {
        Some(loc) => location_text(loc),
        None => None,
    }
}

/// The open-access link of an Unpaywall record.
pub fn extract_unpaywall_oa_url(meta: &Json) -> (r: Option<String>)
    ensures
        text::opt_view(r) == unpaywall_oa_url(*meta),
{
    match meta.get("best_oa_location") {
        Some(loc) => location_copy(loc),
        None => None,
    }
}

/// The open-access status of an Unpaywall record; an empty one is none.
pub open spec fn unpaywall_oa_status(meta: Json) -> Option<Seq<char>> {
    match text_of(meta, "oa_status"@) {
        Some(s) => if s.len() > 0 {
            Some(s)
        } else {
            None
        },
        None => None,
    }
}

/// The open-access status of an Unpaywall record.
pub fn extract_unpaywall_oa_status(meta: &Json) -> (r: Option<String>)
    ensures
        text::opt_view(r) == unpaywall_oa_status(*meta),
{
    match text_copy(meta, "oa_status") {
        Some(s) => if s.as_str().is_empty() {
            None
        } else {
            Some(s)
        },
        None => None,
    }
}

/// The URL of a location; none where its address is no URL.
pub open spec fn location_url(loc: Json) -> Option<UrlModel> {
    match location_text(loc) {
        Some(s) => match urls::url_of(s) {
            Ok(u) => Some(u),
            Err(_) => None,
        },
        None => None,
    }
}

/// The URL of a location.
pub fn pull_oa_url_from_location(loc: &Json) -> (r: Option<WebUrl>)
    ensures
        match location_url(*loc) {
            Some(u) => r is Some && r->Some_0@ == u,
            None => r is None,
        },
{
    match location_copy(loc) {
        Some(s) => match WebUrl::parse(s.as_str()) {
            Ok(u) => Some(u),
            Err(_) => None,
        },
        None => None,
    }
}

/// Whether a URL stands in the list.
pub open spec fn listed(v: Seq<UrlModel>, href: Seq<char>) -> bool {
    exists|i: int| 0 <= i < v.len() && (#[trigger] v[i]).href == href
}

/// The list with a URL at its end, unless it is listed already.
pub open spec fn with_url(v: Seq<UrlModel>, u: Option<UrlModel>) -> Seq<UrlModel> {
    match u {
        Some(x) => if listed(v, x.href) {
            v
        } else {
            v.push(x)
        },
        None => v,
    }
}

/// The list with the URLs of the locations at its end.
pub open spec fn with_locations(v: Seq<UrlModel>, locs: Seq<Json>) -> Seq<UrlModel>
    decreases locs.len(),
{
    if locs.len() == 0 {
        v
    } else {
        with_url(with_locations(v, locs.drop_last()), location_url(locs.last()))
    }
}

/// The URLs at which an open copy may be: that of the best location, then those
/// of all others, none twice.
pub open spec fn oa_chain(meta: Option<Json>) -> Seq<UrlModel> {
    match meta {
        None => Seq::empty(),
        Some(m) => {
            let first = match m.member("best_oa_location"@) {
                Some(best) => with_url(Seq::empty(), location_url(best)),
                None => Seq::empty(),
            };
            match json::opt_items(m.member("oa_locations"@)) {
                Some(locs) => with_locations(first, locs),
                None => first,
            }
        },
    }
}

/// What a list of URLs holds.
pub open spec fn url_views(v: Seq<WebUrl>) -> Seq<UrlModel> {
    Seq::new(v.len(), |i: int| v[i]@)
}

fn push_unique(out: &mut Vec<WebUrl>, u: Option<WebUrl>)
    ensures
        url_views(final(out)@) == with_url(
            url_views(old(out)@),
            match u {
                Some(x) => Some(x@),
                None => None,
            },
        ),
{
    let ghost before = out@;
    match u {
        Some(x) => {
            let mut i: usize = 0;
            while i < out.len()
                invariant
                    i <= out.len(),
                    out@ == before,
                    before == old(out)@,
                    u == Some(x),
                    forall|j: int| 0 <= j < i ==> (#[trigger] out@[j])@.href != x@.href,
                decreases out.len() - i,
            {
                if text::same(out[i].href(), x.href()) {
                    assert(url_views(before)[i as int].href == x@.href);
                    return;
                }
                i += 1;
            }
            let ghost shown = x@;
            assert forall|j: int| 0 <= j < url_views(before).len() implies (
            #[trigger] url_views(before)[j]).href != shown.href by {
                assert(out@[j]@.href != x@.href);
            }
            out.push(x);
            assert(url_views(out@) =~= url_views(before).push(shown));
        },
        None => {},
    }
}

/// The URLs at which an open copy may be, in the order in which they are to be
/// tried.
pub fn extract_oa_url_chain(meta: Option<&Json>) -> (r: Vec<WebUrl>)
    ensures
        url_views(r@) == oa_chain(
            match meta {
                Some(m) => Some(*m),
                None => None,
            },
        ),
{
    let mut out: Vec<WebUrl> = Vec::new();
    assert(url_views(out@) =~= Seq::<UrlModel>::empty());
    let m = match meta {
        Some(m) => m,
        None => return out,
    };
    match m.get("best_oa_location") {
        Some(best) => {
            push_unique(&mut out, pull_oa_url_from_location(best));
        },
        None => {},
    }
    let ghost first = url_views(out@);
    match m.items_at("oa_locations") {
        Some(locs) => {
            let mut i: usize = 0;
            assert(locs@.take(0) =~= Seq::<Json>::empty());
            while i < locs.len()
                invariant
                    i <= locs.len(),
                    url_views(out@) == with_locations(first, locs@.take(i as int)),
                decreases locs.len() - i,
            {
                assert(locs@.take(i + 1).drop_last() =~= locs@.take(i as int));
                push_unique(&mut out, pull_oa_url_from_location(&locs[i]));
                i += 1;
            }
            assert(locs@.take(i as int) =~= locs@);
        },
        None => {},
    }
    out
}

// ---------------------------------------------------------------------------
// arXiv ids
// ---------------------------------------------------------------------------

/// An id without its version: a `v` between a digit and nothing but digits.
pub open spec fn without_version(id: Seq<char>) -> Seq<char> {
    let tail = text::after_last(id, 'v');
    let k = id.len() - tail.len() - 1;
    if k >= 1 && text::is_digit(id[k - 1]) && tail.len() > 0 && text::all_digits(tail) {
        id.take(k)
    } else {
        id
    }
}

/// An id without its version.
pub fn strip_arxiv_version(id: &str) -> (r: String)
    ensures
        r@ == without_version(id@),
{
    let v = text::chars_of(id);
    let p = text::find_past_last(v.as_slice(), 'v');
    let n = v.len();
    let tail = vstd::slice::slice_subrange(v.as_slice(), p, n);
    assert(tail@ =~= v@.skip(p as int));
    if p >= 2 && text::is_digit_char(v[p - 2]) && p < n && text::are_digits(tail) {
        let head = vstd::slice::slice_subrange(v.as_slice(), 0, p - 1);
        assert(head@ =~= id@.take(p - 1));
        text::string_of(head)
    } else {
        id.to_string()
    }
}

/// The hosts of arXiv.
pub open spec fn arxiv_host(h: Seq<char>) -> bool {
    h == "arxiv.org"@ || h == "www.arxiv.org"@ || h == "export.arxiv.org"@ || h
        == "e-print.arxiv.org"@
}

/// The id in an arXiv path: what follows `/pdf/`, without the extension, or
/// what follows `/abs/`.
pub open spec fn id_in_path(path: Seq<char>) -> Option<Seq<char>> {
    if "/pdf/"@.is_prefix_of(path) {
        let s = path.skip(5);
        Some(
            if ".pdf"@.is_suffix_of(s) {
                s.take(s.len() - 4)
            } else {
                s
            },
        )
    } else if "/abs/"@.is_prefix_of(path) {
        Some(path.skip(5))
    } else {
        None
    }
}

/// The arXiv id that a URL names, without its version.
pub open spec fn arxiv_id_of(u: UrlModel) -> Option<Seq<char>> {
    match u.host_text {
        Some(h) => if arxiv_host(h) {
            match id_in_path(u.path) {
                Some(raw) => Some(without_version(raw)),
                None => None,
            }
        } else {
            None
        },
        None => None,
    }
}

/// The arXiv id that a URL names, without its version.
pub fn extract_arxiv_id_from_url(url: &WebUrl) -> (r: Option<String>)
    ensures
        text::opt_view(r) == arxiv_id_of(url@),
{
    match url.host_str() {
        Some(h) => {
            let h = h.as_str();
            if !(text::same(h, "arxiv.org") || text::same(h, "www.arxiv.org") || text::same(
                h,
                "export.arxiv.org",
            ) || text::same(h, "e-print.arxiv.org")) {
                return None;
            }
        },
        None => return None,
    }
    proof {
        reveal_strlit("/pdf/");
        reveal_strlit("/abs/");
        reveal_strlit(".pdf");
    }
    let path = text::chars_of(url.path());
    let n = path.len();
    let pdf = text::chars_of("/pdf/");
    let abs = text::chars_of("/abs/");
    if text::starts_with(path.as_slice(), pdf.as_slice()) {
        let s = vstd::slice::slice_subrange(path.as_slice(), 5, n);
        assert(s@ =~= path@.skip(5));
        let m = s.len();
        let ext = text::chars_of(".pdf");
        if text::ends_with(s, ext.as_slice()) {
            let raw = vstd::slice::slice_subrange(s, 0, m - 4);
            assert(raw@ =~= s@.take(s@.len() - 4));
            Some(strip_arxiv_version(text::string_of(raw).as_str()))
        } else {
            Some(strip_arxiv_version(text::string_of(s).as_str()))
        }
    } else if text::starts_with(path.as_slice(), abs.as_slice()) {
        let s = vstd::slice::slice_subrange(path.as_slice(), 5, n);
        assert(s@ =~= path@.skip(5));
        Some(strip_arxiv_version(text::string_of(s).as_str()))
    } else {
        None
    }
}

// ---------------------------------------------------------------------------
// Laws
// ---------------------------------------------------------------------------

/// No URL stands in the list twice.
pub open spec fn distinct(v: Seq<UrlModel>) -> bool {
    forall|i: int, j: int|
        0 <= i < j < v.len() ==> (#[trigger] v[i]).href != (#[trigger] v[j]).href
}

proof fn lemma_with_url(v: Seq<UrlModel>, u: Option<UrlModel>)
    requires
        distinct(v),
    ensures
        distinct(with_url(v, u)),
        v.is_prefix_of(with_url(v, u)),
        u is Some ==> listed(with_url(v, u), u->Some_0.href),
{
    let w = with_url(v, u);
    if u is Some && !listed(v, u->Some_0.href) {
        assert(w[v.len() as int].href == u->Some_0.href);
        assert forall|i: int, j: int| 0 <= i < j < w.len() implies (#[trigger] w[i]).href != (
        #[trigger] w[j]).href by {
            assert(w[i] == v[i]);
        }
    }
    assert(w.take(v.len() as int) =~= v);
}

proof fn lemma_with_locations(v: Seq<UrlModel>, locs: Seq<Json>)
    requires
        distinct(v),
    ensures
        distinct(with_locations(v, locs)),
        v.is_prefix_of(with_locations(v, locs)),
    decreases locs.len(),
{
    if locs.len() > 0 {
        let before = with_locations(v, locs.drop_last());
        lemma_with_locations(v, locs.drop_last());
        lemma_with_url(before, location_url(locs.last()));
        let after = with_locations(v, locs);
        assert(after.take(v.len() as int) =~= before.take(v.len() as int));
    }
}

/// The best location is tried first, and no URL is tried twice.
pub proof fn law_best_location_comes_first(meta: Json)
    ensures
        distinct(oa_chain(Some(meta))),
        meta.member("best_oa_location"@) matches Some(best) && location_url(best) is Some ==> {
            &&& oa_chain(Some(meta)).len() > 0
            &&& oa_chain(Some(meta))[0] == location_url(
                meta.member("best_oa_location"@)->Some_0,
            )->Some_0
        },
{
    let first = match meta.member("best_oa_location"@) {
        Some(best) => with_url(Seq::empty(), location_url(best)),
        None => Seq::empty(),
    };
    assert(distinct(Seq::<UrlModel>::empty()));
    match meta.member("best_oa_location"@) {
        Some(best) => {
            lemma_with_url(Seq::empty(), location_url(best));
        },
        None => {},
    }
    match json::opt_items(meta.member("oa_locations"@)) {
        Some(locs) => {
            lemma_with_locations(first, locs);
            if first.len() > 0 {
                assert(oa_chain(Some(meta)).take(first.len() as int)[0] == first[0]);
            }
        },
        None => {},
    }
}

/// A title that is found is neither blank nor padded.
pub proof fn law_titles_are_not_blank(meta: Json)
    ensures
        title_in(meta) matches Some(t) ==> t.len() > 0 && text::trim(t) == t,
{
    match meta.member("title"@) {
        Some(t) => match t.text() {
            Some(s) => {
                text::lemma_trim_idempotent(s);
            },
            None => match t.items() {
                Some(items) => {
                    lemma_first_nonblank(items);
                },
                None => {},
            },
        },
        None => {},
    }
}

proof fn lemma_first_nonblank(items: Seq<Json>)
    ensures
        first_nonblank(items) matches Some(t) ==> t.len() > 0 && text::trim(t) == t,
    decreases items.len(),
{
    if items.len() > 0 {
        match items[0].text() {
            Some(s) => {
                text::lemma_trim_idempotent(s);
            },
            None => {},
        }
        lemma_first_nonblank(items.drop_first());
    }
}

proof fn lemma_names_in(style: NameStyle, a: Seq<Json>, b: Seq<Json>)
    ensures
        names_in(style, a + b) == names_in(style, a) + names_in(style, b),
    decreases b.len(),
{
    if b.len() == 0 {
        assert(a + b =~= a);
        assert(names_in(style, a) + names_in(style, b) =~= names_in(style, a));
    } else {
        lemma_names_in(style, a, b.drop_last());
        assert((a + b).drop_last() =~= a + b.drop_last());
        assert((a + b).last() == b.last());
        assert(names_in(style, a + b) =~= names_in(style, a) + names_in(style, b));
    }
}

/// Every item that gives a name is listed, in their order: the names of two lists
/// one behind the other are those of the first and those of the second, and
/// where every item gives a name there is one for each.
pub proof fn law_every_name_is_listed(style: NameStyle, a: Seq<Json>, b: Seq<Json>, item: Json)
    ensures
        names_in(style, a + b) == names_in(style, a) + names_in(style, b),
        name_in(style, item) matches Some(n) ==> names_in(style, seq![item]) == seq![n],
        name_in(style, item) is None ==> names_in(style, seq![item]).len() == 0,
        (forall|i: int| 0 <= i < a.len() ==> name_in(style, #[trigger] a[i]) is Some) ==> names_in(
            style,
            a,
        ).len() == a.len() && forall|i: int|
            0 <= i < a.len() ==> Some(#[trigger] names_in(style, a)[i]) == name_in(style, a[i]),
    decreases a.len(),
{
    lemma_names_in(style, a, b);
    let one = seq![item];
    assert(one.drop_last() =~= Seq::<Json>::empty());
    assert(one.last() == item);
    assert(names_in(style, Seq::<Json>::empty()) =~= Seq::<Seq<char>>::empty());
    match name_in(style, item) {
        Some(n) => {
            assert(names_in(style, one) =~= seq![n]);
        },
        None => {},
    }
    if a.len() > 0 {
        let d = a.drop_last();
        law_every_name_is_listed(style, d, b, item);
        if forall|i: int| 0 <= i < a.len() ==> name_in(style, #[trigger] a[i]) is Some {
            assert forall|i: int| 0 <= i < d.len() implies name_in(
                style,
                #[trigger] d[i],
            ) is Some by {
                assert(name_in(style, a[i]) is Some);
            }
            assert(name_in(style, a[a.len() - 1]) is Some);
            assert forall|i: int| 0 <= i < a.len() implies Some(#[trigger] names_in(style, a)[i])
                == name_in(style, a[i]) by {
                if i < d.len() {
                    assert(names_in(style, a)[i] == names_in(style, d)[i]);
                    assert(d[i] == a[i]);
                }
            }
        }
    }
}

/// The text of a member, given as such.
pub open spec fn says(v: Json, name: Seq<char>, s: Seq<char>) -> bool {
    v.member(name) matches Some(Json::Text(t)) && t@ == s
}

/// No text stands in the member.
pub open spec fn silent_on(v: Json, name: Seq<char>) -> bool {
    !(v.member(name) matches Some(Json::Text(_)))
}

/// A name is put together as its style asks: a citation puts the family name, a
/// comma and the given name, or the one that is there; a display puts the given
/// name and the family name, or else the whole name; a registry the whole name,
/// or else the given name and the family name.
pub proof fn law_names_are_written_in_their_style(
    v: Json,
    family: Seq<char>,
    given: Seq<char>,
    whole: Seq<char>,
)
    ensures
        says(v, "family"@, family) && says(v, "given"@, given) ==> name_in(
            NameStyle::FamilyFirst,
            v,
        ) == Some(family + ", "@ + given),
        says(v, "family"@, family) && silent_on(v, "given"@) ==> name_in(NameStyle::FamilyFirst, v)
            == Some(family),
        silent_on(v, "family"@) && says(v, "given"@, given) ==> name_in(NameStyle::FamilyFirst, v)
            == Some(given),
        silent_on(v, "family"@) && silent_on(v, "given"@) ==> name_in(
            NameStyle::FamilyFirst,
            v,
        ) is None,
        says(v, "family"@, family) && says(v, "given"@, given) && text::trim(
            given + " "@ + family,
        ).len() > 0 ==> name_in(NameStyle::GivenFirst, v) == Some(
            text::trim(given + " "@ + family),
        ),
        says(v, "family"@, family) && silent_on(v, "given"@) && text::trim(" "@ + family).len() > 0
            ==> name_in(NameStyle::GivenFirst, v) == Some(text::trim(" "@ + family)),
        silent_on(v, "family"@) && silent_on(v, "given"@) && says(v, "name"@, whole) ==> name_in(
            NameStyle::GivenFirst,
            v,
        ) == Some(whole),
        silent_on(v, "family"@) && silent_on(v, "given"@) && silent_on(v, "name"@) ==> name_in(
            NameStyle::GivenFirst,
            v,
        ) is None,
        says(v, "name"@, whole) ==> name_in(NameStyle::WholeFirst, v) == Some(whole),
        silent_on(v, "name"@) && says(v, "givenName"@, given) && says(v, "familyName"@, family)
            ==> name_in(NameStyle::WholeFirst, v) == Some(given + " "@ + family),
        silent_on(v, "name"@) && silent_on(v, "givenName"@) && says(v, "familyName"@, family)
            ==> name_in(NameStyle::WholeFirst, v) == Some(family),
        silent_on(v, "name"@) && silent_on(v, "familyName"@) ==> name_in(
            NameStyle::WholeFirst,
            v,
        ) is None,
        v matches Json::Text(t) ==> name_in(NameStyle::Plain, v) == Some(t@),
        !(v is Text) ==> name_in(NameStyle::Plain, v) is None,
{
    reveal_strlit(" ");
    let e = Seq::<char>::empty();
    assert(e + " "@ + family =~= " "@ + family);
    let blank = e + " "@ + e;
    assert(blank =~= seq![' ']);
    assert(text::is_white(' '));
    assert(blank.drop_first() =~= e);
    assert(text::trim_start(blank) =~= text::trim_start(e));
    assert(text::trim(blank) =~= e);
}

/// The authors of a record are the plain texts of `authors`, or else the names in
/// `author`, or else those in `z_authors`: the first list that gives any.
pub proof fn law_authors_come_from_the_first_list(
    meta: Json,
    texts: Vec<Json>,
    names: Vec<Json>,
    others: Vec<Json>,
)
    requires
        meta.member("authors"@) == Some(Json::Array(texts)) || (texts@.len() == 0 && meta.member(
            "authors"@,
        ) is None),
        meta.member("author"@) == Some(Json::Array(names)) || (names@.len() == 0 && meta.member(
            "author"@,
        ) is None),
        meta.member("z_authors"@) == Some(Json::Array(others)) || (others@.len() == 0
            && meta.member("z_authors"@) is None),
    ensures
        ({
            let a = names_in(NameStyle::Plain, texts@);
            let b = names_in(NameStyle::GivenFirst, names@);
            let c = names_in(NameStyle::GivenFirst, others@);
            authors_in(meta) == if a.len() > 0 {
                a
            } else if b.len() > 0 {
                b
            } else {
                c
            }
        }),
{
    if meta.member("z_authors"@) is None {
        assert(names_in(NameStyle::GivenFirst, others@) =~= Seq::<Seq<char>>::empty());
    }
}

/// The title of a record is its text without white space around it, or the first
/// of its texts that is not blank.
pub proof fn law_titles_are_the_first_that_is_not_blank(meta: Json, k: int)
    ensures
        meta.member("title"@) matches Some(Json::Text(t)) ==> title_in(meta) == if text::trim(
            t@,
        ).len() > 0 {
            Some(text::trim(t@))
        } else {
            None
        },
        meta.member("title"@) matches Some(Json::Array(v)) ==> (0 <= k < v@.len() && v@[k] is Text
            && text::trim(v@[k]->Text_0@).len() > 0 && (forall|i: int|
            0 <= i < k && (#[trigger] v@[i]) is Text ==> text::trim(v@[i]->Text_0@).len() == 0)
            ==> title_in(meta) == Some(text::trim(v@[k]->Text_0@))),
        meta.member("title"@) is None ==> title_in(meta) is None,
{
    match meta.member("title"@) {
        Some(Json::Array(v)) => {
            if 0 <= k < v@.len() && v@[k] is Text && text::trim(v@[k]->Text_0@).len() > 0 && (
            forall|i: int|
                0 <= i < k && (#[trigger] v@[i]) is Text ==> text::trim(v@[i]->Text_0@).len()
                    == 0) {
                lemma_first_nonblank_at(v@, k);
            }
        },
        _ => {},
    }
}

proof fn lemma_first_nonblank_at(items: Seq<Json>, k: int)
    requires
        0 <= k < items.len(),
        items[k] is Text,
        text::trim(items[k]->Text_0@).len() > 0,
        forall|i: int|
            0 <= i < k && (#[trigger] items[i]) is Text ==> text::trim(items[i]->Text_0@).len()
                == 0,
    ensures
        first_nonblank(items) == Some(text::trim(items[k]->Text_0@)),
    decreases items.len(),
{
    if k > 0 {
        let d = items.drop_first();
        assert(items[0] is Text ==> text::trim(items[0]->Text_0@).len() == 0);
        assert forall|i: int| 0 <= i < k - 1 && (#[trigger] d[i]) is Text implies text::trim(
            d[i]->Text_0@,
        ).len() == 0 by {
            assert(d[i] == items[i + 1]);
        }
        lemma_first_nonblank_at(d, k - 1);
    }
}

/// A Crossref record gives each field from its own member: the first title and
/// container title, the authors in the style of a citation, the first number of
/// the first date, volume, issue and type as they are, and the pages.
pub proof fn law_crossref_records_give_their_fields(
    msg: Json,
    titles: Vec<Json>,
    venues: Vec<Json>,
    authors: Vec<Json>,
    dates: Vec<Json>,
    date: Vec<Json>,
    s: Seq<char>,
)
    ensures
        ({
            let f = crossref_fields(msg);
            &&& msg.member("title"@) == Some(Json::Array(titles)) && titles@.len() > 0
                && titles@[0] is Text ==> f.title == Some(titles@[0]->Text_0@)
            &&& msg.member("title"@) is None ==> f.title is None
            &&& msg.member("container-title"@) == Some(Json::Array(venues)) && venues@.len() > 0
                && venues@[0] is Text ==> f.venue == Some(venues@[0]->Text_0@)
            &&& msg.member("container-title"@) is None ==> f.venue is None
            &&& msg.member("author"@) == Some(Json::Array(authors)) ==> f.authors == names_in(
                NameStyle::FamilyFirst,
                authors@,
            )
            &&& msg.member("author"@) is None ==> f.authors.len() == 0
            &&& json::opt_member(msg.member("issued"@), "date-parts"@) == Some(Json::Array(dates))
                && dates@.len() > 0 && dates@[0] == Json::Array(date) && date@.len() > 0 ==> (
            date@[0] matches Json::Number(json::JsonNumber::Unsigned(y)) ==> f.year == if y
                <= 0x7FFF_FFFF {
                Some(y as i32)
            } else {
                None
            })
            &&& msg.member("issued"@) is None ==> f.year is None
            &&& says(msg, "volume"@, s) ==> f.volume == Some(s)
            &&& silent_on(msg, "volume"@) ==> f.volume is None
            &&& says(msg, "issue"@, s) ==> f.issue == Some(s)
            &&& silent_on(msg, "issue"@) ==> f.issue is None
            &&& says(msg, "type"@, s) ==> f.type_ == Some(s)
            &&& silent_on(msg, "type"@) ==> f.type_ is None
            &&& says(msg, "page"@, s) ==> f.pages == Some(page_range(s))
            &&& silent_on(msg, "page"@) ==> f.pages is None
        }),
{
}

proof fn lemma_doubled_hyphens(a: Seq<char>, b: Seq<char>)
    ensures
        doubled_hyphens(a + b) == doubled_hyphens(a) + doubled_hyphens(b),
    decreases b.len(),
{
    if b.len() == 0 {
        assert(a + b =~= a);
        assert(doubled_hyphens(a) + doubled_hyphens(b) =~= doubled_hyphens(a));
    } else {
        lemma_doubled_hyphens(a, b.drop_last());
        assert((a + b).drop_last() =~= a + b.drop_last());
        assert((a + b).last() == b.last());
        assert(doubled_hyphens(a + b) =~= doubled_hyphens(a) + doubled_hyphens(b));
    }
}

proof fn lemma_no_hyphens(s: Seq<char>)
    requires
        !s.contains('-'),
    ensures
        doubled_hyphens(s) == s,
    decreases s.len(),
{
    if s.len() > 0 {
        let d = s.drop_last();
        assert(s.contains(s[s.len() - 1]));
        assert(!d.contains('-')) by {
            if d.contains('-') {
                let i = choose|i: int| 0 <= i < d.len() && d[i] == '-';
                assert(s[i] == '-');
            }
        }
        lemma_no_hyphens(d);
        assert(doubled_hyphens(s) =~= s);
    }
}

/// A range of pages is written with two hyphens: one hyphen becomes two, and a
/// text with two in a row, or with none, is left as it is.
pub proof fn law_page_ranges_have_two_hyphens(a: Seq<char>, b: Seq<char>, s: Seq<char>, i: int)
    ensures
        !a.contains('-') && !b.contains('-') ==> page_range(a + "-"@ + b) == a + "--"@ + b,
        !s.contains('-') ==> page_range(s) == s,
        0 <= i < s.len() - 1 && s[i] == '-' && s[i + 1] == '-' ==> page_range(s) == s,
{
    reveal_strlit("-");
    reveal_strlit("--");
    if !a.contains('-') && !b.contains('-') {
        let t = a + "-"@ + b;
        lemma_doubled_hyphens(a + "-"@, b);
        lemma_doubled_hyphens(a, "-"@);
        lemma_no_hyphens(a);
        lemma_no_hyphens(b);
        assert("-"@.drop_last() =~= Seq::<char>::empty());
        assert(doubled_hyphens(Seq::<char>::empty()) =~= Seq::<char>::empty());
        assert(doubled_hyphens("-"@) =~= "--"@);
        assert(!text::contains_text(t, "--"@)) by {
            if text::contains_text(t, "--"@) {
                let k = choose|k: int| text::text_at(t, "--"@, k);
                assert(t.subrange(k, k + 2)[0] == '-' && t.subrange(k, k + 2)[1] == '-');
                assert(t[k] == '-' && t[k + 1] == '-');
                if k < a.len() {
                    assert(a[k] == '-');
                } else {
                    assert(b[k - a.len()] == t[k + 1]);
                    assert(b.contains('-'));
                }
            }
        }
    }
    if !s.contains('-') {
        lemma_no_hyphens(s);
    }
    if 0 <= i < s.len() - 1 && s[i] == '-' && s[i + 1] == '-' {
        assert(s.subrange(i, i + 2) =~= "--"@);
        assert(text::text_at(s, "--"@, i));
    }
}

/// A DataCite record gives the title of its first entry, its creators by their
/// whole names, its year, its publisher by text or by name, and its type.
pub proof fn law_datacite_records_give_their_fields(
    v: Json,
    titles: Vec<Json>,
    creators: Vec<Json>,
    s: Seq<char>,
)
    ensures
        ({
            let f = datacite_fields(v);
            &&& v.member("titles"@) == Some(Json::Array(titles)) && titles@.len() > 0 && says(
                titles@[0],
                "title"@,
                s,
            ) ==> f.title == Some(s)
            &&& v.member("titles"@) is None ==> f.title is None
            &&& v.member("creators"@) == Some(Json::Array(creators)) ==> f.authors == names_in(
                NameStyle::WholeFirst,
                creators@,
            )
            &&& v.member("creators"@) is None ==> f.authors.len() == 0
            &&& v.member("publicationYear"@) matches Some(Json::Number(
                json::JsonNumber::Unsigned(y),
            )) ==> f.year == if y <= 0x7FFF_FFFF {
                Some(y as i32)
            } else {
                None
            }
            &&& says(v, "publisher"@, s) ==> f.venue == Some(s)
            &&& v.member("publisher"@) matches Some(p) ==> (p is Object && says(p, "name"@, s)
                ==> f.venue == Some(s))
            &&& v.member("publisher"@) is None ==> f.venue is None
            &&& v.member("types"@) matches Some(t) ==> (says(t, "resourceTypeGeneral"@, s)
                ==> f.type_ == Some(s))
            &&& f.volume is None && f.issue is None && f.pages is None
            &&& optional_fields("datacite"@, v) == f
        }),
{
}

/// A source whose records have no known fields gives none.
pub proof fn law_other_sources_give_no_fields(source: Seq<char>, v: Json)
    requires
        source != "datacite"@,
    ensures
        ({
            let f = optional_fields(source, v);
            &&& f.title is None && f.authors.len() == 0 && f.year is None && f.venue is None
            &&& f.volume is None && f.issue is None && f.pages is None && f.type_ is None
        }),
{
}

/// The open link of a Crossref record is its first that is not empty.
pub proof fn law_the_first_link_is_taken(msg: Json, links: Vec<Json>, k: int, s: Seq<char>)
    requires
        msg.member("link"@) == Some(Json::Array(links)),
        0 <= k < links@.len(),
        says(links@[k], "URL"@, s),
        s.len() > 0,
        forall|i: int|
            0 <= i < k ==> silent_on(#[trigger] links@[i], "URL"@) || says(
                links@[i],
                "URL"@,
                Seq::empty(),
            ),
    ensures
        crossref_oa_url(msg) == Some(s),
{
    lemma_first_link(links@, k, s);
}

proof fn lemma_first_link(items: Seq<Json>, k: int, s: Seq<char>)
    requires
        0 <= k < items.len(),
        says(items[k], "URL"@, s),
        s.len() > 0,
        forall|i: int|
            0 <= i < k ==> silent_on(#[trigger] items[i], "URL"@) || says(
                items[i],
                "URL"@,
                Seq::empty(),
            ),
    ensures
        first_link(items) == Some(s),
    decreases items.len(),
{
    if k > 0 {
        let d = items.drop_first();
        assert(silent_on(items[0], "URL"@) || says(items[0], "URL"@, Seq::empty()));
        assert forall|i: int| 0 <= i < k - 1 implies silent_on(#[trigger] d[i], "URL"@) || says(
            d[i],
            "URL"@,
            Seq::empty(),
        ) by {
            assert(d[i] == items[i + 1]);
        }
        lemma_first_link(d, k - 1, s);
    }
}

/// A location is tried at its PDF link, and at its page where it has none; the
/// open-access status and the open link of a record are told where they are
/// there.
pub proof fn law_locations_prefer_the_pdf(loc: Json, meta: Json, pdf: Seq<char>, page: Seq<char>)
    ensures
        says(loc, "url_for_pdf"@, pdf) ==> location_text(loc) == Some(pdf) && (urls::url_of(
            pdf,
        ) matches Ok(u) ==> location_url(loc) == Some(u)),
        silent_on(loc, "url_for_pdf"@) && says(loc, "url"@, page) ==> location_text(loc) == Some(
            page,
        ) && (urls::url_of(page) matches Ok(u) ==> location_url(loc) == Some(u)),
        silent_on(loc, "url_for_pdf"@) && silent_on(loc, "url"@) ==> location_url(loc) is None,
        meta.member("best_oa_location"@) == Some(loc) ==> unpaywall_oa_url(meta) == location_text(
            loc,
        ),
        says(meta, "oa_status"@, page) && page.len() > 0 ==> unpaywall_oa_status(meta) == Some(
            page,
        ),
        silent_on(meta, "oa_status"@) ==> unpaywall_oa_status(meta) is None,
{
}

proof fn lemma_locations(v: Seq<UrlModel>, locs: Seq<Json>)
    requires
        distinct(v),
    ensures
        forall|i: int|
            0 <= i < locs.len() && location_url(#[trigger] locs[i]) is Some ==> listed(
                with_locations(v, locs),
                location_url(locs[i])->Some_0.href,
            ),
        forall|k: int|
            v.len() <= k < with_locations(v, locs).len() ==> exists|i: int|
                0 <= i < locs.len() && location_url(#[trigger] locs[i]) == Some(
                    #[trigger] with_locations(v, locs)[k],
                ),
        v.is_prefix_of(with_locations(v, locs)),
    decreases locs.len(),
{
    lemma_with_locations(v, locs);
    if locs.len() > 0 {
        let d = locs.drop_last();
        lemma_locations(v, d);
        lemma_with_locations(v, d);
        let before = with_locations(v, d);
        let after = with_locations(v, locs);
        lemma_with_url(before, location_url(locs.last()));
        assert(after.take(before.len() as int) =~= before);
        assert forall|i: int| 0 <= i < locs.len() && location_url(
            #[trigger] locs[i],
        ) is Some implies listed(after, location_url(locs[i])->Some_0.href) by {
            if i < d.len() {
                assert(d[i] == locs[i]);
                let href = location_url(locs[i])->Some_0.href;
                assert(listed(before, href));
                let k = choose|k: int| 0 <= k < before.len() && (#[trigger] before[k]).href == href;
                assert(after.take(before.len() as int)[k] == after[k]);
            }
        }
        assert forall|k: int| v.len() <= k < after.len() implies exists|i: int|
            0 <= i < locs.len() && location_url(#[trigger] locs[i]) == Some(#[trigger] after[k]) by {
            if k < before.len() {
                assert(after.take(before.len() as int)[k] == after[k]);
                let i = choose|i: int|
                    0 <= i < d.len() && location_url(#[trigger] d[i]) == Some(before[k]);
                assert(locs[i] == d[i]);
                assert(location_url(locs[i]) == Some(after[k]));
            } else {
                assert(location_url(locs[locs.len() - 1]) == Some(after[k]));
            }
        }
    }
}

proof fn lemma_locations_grow(v: Seq<UrlModel>, locs: Seq<Json>, k: int)
    requires
        distinct(v),
        0 <= k <= locs.len(),
    ensures
        with_locations(v, locs.take(k)).is_prefix_of(with_locations(v, locs)),
    decreases locs.len(),
{
    if k == locs.len() {
        assert(locs.take(k) =~= locs);
    } else {
        let d = locs.drop_last();
        lemma_locations_grow(v, d, k);
        assert(d.take(k) =~= locs.take(k));
        lemma_with_locations(v, d);
        let a = with_locations(v, locs.take(k));
        let b = with_locations(v, d);
        let c = with_locations(v, locs);
        lemma_with_url(b, location_url(locs.last()));
        assert(c.take(a.len() as int) =~= b.take(a.len() as int));
    }
}

/// Every location of a record that has a URL is tried, none but these are, and a
/// location that is listed further on is not tried any earlier.
pub proof fn law_every_location_is_tried_in_order(meta: Json, locs: Vec<Json>, i: int, k: int)
    requires
        meta.member("oa_locations"@) == Some(Json::Array(locs)),
    ensures
        0 <= i < locs@.len() && location_url(locs@[i]) is Some ==> listed(
            oa_chain(Some(meta)),
            location_url(locs@[i])->Some_0.href,
        ),
        0 <= k < oa_chain(Some(meta)).len() ==> (meta.member("best_oa_location"@) matches Some(b)
            && location_url(b) == Some(oa_chain(Some(meta))[k])) || exists|j: int|
            0 <= j < locs@.len() && location_url(#[trigger] locs@[j]) == Some(
                oa_chain(Some(meta))[k],
            ),
        0 <= k <= locs@.len() ==> with_locations(
            match meta.member("best_oa_location"@) {
                Some(best) => with_url(Seq::empty(), location_url(best)),
                None => Seq::empty(),
            },
            locs@.take(k),
        ).is_prefix_of(oa_chain(Some(meta))),
        oa_chain(None).len() == 0,
{
    let first = match meta.member("best_oa_location"@) {
        Some(best) => with_url(Seq::empty(), location_url(best)),
        None => Seq::empty(),
    };
    let none = Seq::<UrlModel>::empty();
    assert(distinct(none));
    match meta.member("best_oa_location"@) {
        Some(best) => {
            lemma_with_url(none, location_url(best));
        },
        None => {},
    }
    lemma_locations(first, locs@);
    let all = oa_chain(Some(meta));
    if 0 <= k < first.len() {
        assert(all.take(first.len() as int)[k] == all[k]);
    }
    if 0 <= k <= locs@.len() {
        lemma_locations_grow(first, locs@, k);
    }
}

/// The version of an arXiv id goes: `v` and digits behind a digit. An id without
/// one is left as it is.
pub proof fn law_versions_are_dropped(id: Seq<char>, version: Seq<char>)
    ensures
        id.len() > 0 && '0' <= id.last() && id.last() <= '9' && version.len() > 0 && (forall|i: int|
            0 <= i < version.len() ==> '0' <= #[trigger] version[i] && version[i] <= '9')
            ==> without_version(id + "v"@ + version) == id,
        !id.contains('v') ==> without_version(id) == id,
{
    reveal_strlit("v");
    if id.len() > 0 && '0' <= id.last() && id.last() <= '9' && version.len() > 0 && (forall|i: int|
        0 <= i < version.len() ==> '0' <= #[trigger] version[i] && version[i] <= '9') {
        let s = id + "v"@ + version;
        assert(!version.contains('v')) by {
            if version.contains('v') {
                let i = choose|i: int| 0 <= i < version.len() && version[i] == 'v';
                assert(version[i] <= '9');
            }
        }
        text::law_after_last_is_the_rest(id, 'v', version);
        assert(id.push('v') + version =~= s);
        let k = id.len() as int;
        assert(s[k - 1] == id.last());
        assert forall|i: int| 0 <= i < version.len() implies text::is_digit(
            #[trigger] version[i],
        ) by {}
        assert(s.take(k) =~= id);
    }
    if !id.contains('v') {
        text::law_after_last_is_the_rest(id, 'v', id);
    }
}

/// The URL of an arXiv page or document names its id, whatever version and
/// ending it has; other hosts and paths name none.
pub proof fn law_arxiv_urls_name_their_id(u: UrlModel, raw: Seq<char>)
    ensures
        u.host_text is None ==> arxiv_id_of(u) is None,
        u.host_text matches Some(h) ==> {
            let known = h == "arxiv.org"@ || h == "www.arxiv.org"@ || h == "export.arxiv.org"@ || h
                == "e-print.arxiv.org"@;
            &&& !known ==> arxiv_id_of(u) is None
            &&& known && u.path == "/abs/"@ + raw ==> arxiv_id_of(u) == Some(without_version(raw))
            &&& known && u.path == "/pdf/"@ + raw + ".pdf"@ ==> arxiv_id_of(u) == Some(
                without_version(raw),
            )
            &&& known && u.path == "/pdf/"@ + raw && !".pdf"@.is_suffix_of(raw) ==> arxiv_id_of(u)
                == Some(without_version(raw))
            &&& !"/abs/"@.is_prefix_of(u.path) && !"/pdf/"@.is_prefix_of(u.path) ==> arxiv_id_of(
                u,
            ) is None
        },
{
    reveal_strlit("/abs/");
    reveal_strlit("/pdf/");
    reveal_strlit(".pdf");
    let a = "/abs/"@ + raw;
    assert(a.subrange(0, 5) =~= "/abs/"@);
    assert(a.skip(5) =~= raw);
    if "/pdf/"@.is_prefix_of(a) {
        assert(a.subrange(0, 5)[1] == 'p');
    }
    let p = "/pdf/"@ + raw;
    assert(p.subrange(0, 5) =~= "/pdf/"@);
    assert(p.skip(5) =~= raw);
    let q = "/pdf/"@ + raw + ".pdf"@;
    assert(q.subrange(0, 5) =~= "/pdf/"@);
    let s = q.skip(5);
    assert(s =~= raw + ".pdf"@);
    assert(s.subrange(s.len() - 4, s.len() as int) =~= ".pdf"@);
    assert(s.take(s.len() - 4) =~= raw);
}

/// A `v` that no digit stands in front of, or that has more than digits behind
/// it, starts no version.
pub proof fn law_other_ids_are_kept(id: Seq<char>, tail: Seq<char>)
    requires
        !tail.contains('v'),
        id.len() == 0 || !('0' <= id.last() && id.last() <= '9') || tail.len() == 0 || exists|i: int|
            0 <= i < tail.len() && !('0' <= #[trigger] tail[i] && tail[i] <= '9'),
    ensures
        without_version(id + "v"@ + tail) == id + "v"@ + tail,
{
    reveal_strlit("v");
    let s = id + "v"@ + tail;
    text::law_after_last_is_the_rest(id, 'v', tail);
    assert(id.push('v') + tail =~= s);
    let k = id.len() as int;
    if k >= 1 {
        assert(s[k - 1] == id.last());
    }
    if text::all_digits(tail) {
        assert forall|i: int| 0 <= i < tail.len() implies '0' <= #[trigger] tail[i] && tail[i]
            <= '9' by {
            assert(text::is_digit(tail[i]));
        }
    }
}

/// A year is taken as far as it can be told: every one of thirty-two bits, before
/// year one too.
pub proof fn law_years_are_taken_as_they_are(n: i64)
    ensures
        -0x8000_0000 <= n <= 0x7FFF_FFFF ==> narrow(Some(n)) == Some(n as i32),
        !(-0x8000_0000 <= n <= 0x7FFF_FFFF) ==> narrow(Some(n)) is None,
        narrow(None) is None,
{
}

/// A record of arXiv was published in the year of the time that it gives.
pub proof fn law_published_years_are_told(atom: Json, time: Seq<char>)
    ensures
        says(atom, "published"@, time) ==> published_year(atom) == rfc3339_year(time),
        silent_on(atom, "published"@) ==> published_year(atom) is None,
{
}

} // verus!
