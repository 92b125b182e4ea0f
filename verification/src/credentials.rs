//! `credentials.toml`: the API keys for text and data mining, by publisher.
//!
//! The file may carry a key; the agreement that goes with it is never read
//! from the file, only reported.

use crate::paths;
use crate::text;
use vstd::prelude::*;

verus! {

/// Something worth telling the user that does not stop the rest of the file
/// from being used.
#[derive(Debug, PartialEq, Eq)]
#[non_exhaustive]
pub enum Advisory {
    /// The file can be read beyond its owner.
    InsecurePermissions {
        /// The file.
        path: String,
        /// Its permission bits.
        mode: u32,
    },
    /// A table names a publisher that is not known.
    UnknownPublisher {
        /// The name.
        publisher: String,
    },
    /// A table sets `agreed`, which is not read.
    AgreedIgnored {
        /// The publisher.
        publisher: String,
    },
    /// A table sets a blank key, which cannot authenticate.
    BlankKey {
        /// The publisher.
        publisher: String,
    },
}

/// What an advisory holds.
pub enum AdvisoryModel {
    InsecurePermissions { path: Seq<char>, mode: u32 },
    UnknownPublisher { publisher: Seq<char> },
    AgreedIgnored { publisher: Seq<char> },
    BlankKey { publisher: Seq<char> },
}

impl View for Advisory {
    type V = AdvisoryModel;

    open spec fn view(&self) -> AdvisoryModel {
        match *self {
            Advisory::InsecurePermissions { path, mode } => AdvisoryModel::InsecurePermissions {
                path: path@,
                mode,
            },
            Advisory::UnknownPublisher { publisher } => AdvisoryModel::UnknownPublisher {
                publisher: publisher@,
            },
            Advisory::AgreedIgnored { publisher } => AdvisoryModel::AgreedIgnored {
                publisher: publisher@,
            },
            Advisory::BlankKey { publisher } => AdvisoryModel::BlankKey { publisher: publisher@ },
        }
    }
}

/// A text in upper case.
pub uninterp spec fn uppercase(s: Seq<char>) -> Seq<char>;

/// Converts with `str::to_uppercase`; the result depends on the text alone.
#[verifier::external_body]
fn upper_of(s: &str) -> (r: String)
    ensures
        r@ == uppercase(s@),
{
    s.to_uppercase()
}

/// A text in quotes, with what cannot be shown escaped.
pub uninterp spec fn quoted(s: Seq<char>) -> Seq<char>;

/// Renders with the `Debug` of `str`: the text in quotes, escaped, which depends
/// on the text alone.
#[verifier::external_body]
fn quoted_of(s: &str) -> (r: String)
    ensures
        r@ == quoted(s@),
{
    format!("{s:?}")
}

/// `n` in octal, at least `width` digits.
pub open spec fn octal(n: nat, width: nat) -> Seq<char>
    decreases n, width,
{
    if n == 0 && width == 0 {
        Seq::empty()
    } else {
        octal(
            n / 8,
            if width > 0 {
                (width - 1) as nat
            } else {
                0
            },
        ).push(text::digit_char(n % 8))
    }
}

fn octal_of(n: u32, width: u32) -> (r: String)
    ensures
        r@ == octal(n as nat, width as nat),
    decreases n, width,
{
    if n == 0 && width == 0 {
        String::new()
    } else {
        let mut out = octal_of(
            n / 8,
            if width > 0 {
                width - 1
            } else {
                0
            },
        );
        out.push((48 + (n % 8) as u8) as char);
        out
    }
}

/// The one-line text of an advisory.
pub open spec fn advisory_text(a: AdvisoryModel) -> Seq<char> {
    match a {
        AdvisoryModel::InsecurePermissions { path, mode } =>
            "credentials.toml is readable beyond its owner (mode "@ + octal(mode as nat, 4)
            + "); it holds publisher API keys. Run: chmod 600 "@ + path,
        AdvisoryModel::UnknownPublisher { publisher } => "credentials.toml has [tdm."@ + publisher
            + "], which is not a publisher doiget knows; expected one of [\"elsevier\", \"aps\", \"springer\", \"ieee\"]"@,
        AdvisoryModel::AgreedIgnored { publisher } => "credentials.toml sets [tdm."@ + publisher
            + "] agreed, which doiget does NOT read. The per-publisher agreement is environment-only (DOIGET_AGREE_TDM_"@
            + uppercase(publisher)
            + "=1) so that it is an act taken in the session that runs the fetch — docs/LEGAL.md §6a.2. Only api_key is read from this file."@,
        AdvisoryModel::BlankKey { publisher } => "credentials.toml sets [tdm."@ + publisher
            + "] api_key to a blank value, which cannot authenticate and is treated as unset. Remove the line or give it a key."@,
    }
}

/// An advisory as it may be logged.
pub open spec fn advisory_debug(a: AdvisoryModel) -> Seq<char> {
    match a {
        AdvisoryModel::InsecurePermissions { path, mode } => "InsecurePermissions { path: "@
            + quoted(path) + ", mode: "@ + text::decimal(mode as nat) + " }"@,
        AdvisoryModel::UnknownPublisher { publisher } => "UnknownPublisher { publisher: "@
            + quoted(publisher) + " }"@,
        AdvisoryModel::AgreedIgnored { publisher } => "AgreedIgnored { publisher: "@ + quoted(
            publisher,
        ) + " }"@,
        AdvisoryModel::BlankKey { publisher } => "BlankKey { publisher: "@ + quoted(publisher)
            + " }"@,
    }
}

impl Clone for Advisory {
    fn clone(&self) -> (r: Self)
        ensures
            r@ == self@,
    {
        match self {
            Advisory::InsecurePermissions { path, mode } => Advisory::InsecurePermissions {
                path: path.clone(),
                mode: *mode,
            },
            Advisory::UnknownPublisher { publisher } => Advisory::UnknownPublisher {
                publisher: publisher.clone(),
            },
            Advisory::AgreedIgnored { publisher } => Advisory::AgreedIgnored {
                publisher: publisher.clone(),
            },
            Advisory::BlankKey { publisher } => Advisory::BlankKey {
                publisher: publisher.clone(),
            },
        }
    }
}

impl Advisory {
    /// This advisory as it may be logged.
    pub fn debug_text(&self) -> (r: String)
        ensures
            r@ == advisory_debug(self@),
    {
        match self {
            Advisory::InsecurePermissions { path, mode } =>
                "InsecurePermissions { path: ".to_string().concat(
                quoted_of(path.as_str()).as_str(),
            ).concat(", mode: ").concat(text::decimal_of(*mode as u64).as_str()).concat(" }"),
            Advisory::UnknownPublisher { publisher } =>
                "UnknownPublisher { publisher: ".to_string().concat(
                quoted_of(publisher.as_str()).as_str(),
            ).concat(" }"),
            Advisory::AgreedIgnored { publisher } =>
                "AgreedIgnored { publisher: ".to_string().concat(
                quoted_of(publisher.as_str()).as_str(),
            ).concat(" }"),
            Advisory::BlankKey { publisher } => "BlankKey { publisher: ".to_string().concat(
                quoted_of(publisher.as_str()).as_str(),
            ).concat(" }"),
        }
    }

    /// Renders the advisory as one line.
    pub fn message(&self) -> (r: String)
        ensures
            r@ == advisory_text(self@),
    {
        match self {
            Advisory::InsecurePermissions { path, mode } =>
                "credentials.toml is readable beyond its owner (mode ".to_string().concat(
                    octal_of(*mode, 4).as_str(),
                ).concat("); it holds publisher API keys. Run: chmod 600 ").concat(path.as_str()),
            Advisory::UnknownPublisher { publisher } =>
                "credentials.toml has [tdm.".to_string().concat(publisher.as_str()).concat(
                    "], which is not a publisher doiget knows; expected one of [\"elsevier\", \"aps\", \"springer\", \"ieee\"]",
                ),
            Advisory::AgreedIgnored { publisher } =>
                "credentials.toml sets [tdm.".to_string().concat(publisher.as_str()).concat(
                    "] agreed, which doiget does NOT read. The per-publisher agreement is environment-only (DOIGET_AGREE_TDM_",
                ).concat(upper_of(publisher.as_str()).as_str()).concat(
                    "=1) so that it is an act taken in the session that runs the fetch — docs/LEGAL.md §6a.2. Only api_key is read from this file.",
                ),
            Advisory::BlankKey { publisher } =>
                "credentials.toml sets [tdm.".to_string().concat(publisher.as_str()).concat(
                    "] api_key to a blank value, which cannot authenticate and is treated as unset. Remove the line or give it a key.",
                ),
        }
    }
}

/// Why the file could not be used.
#[derive(Debug, PartialEq, Eq)]
#[non_exhaustive]
pub enum CredentialsError {
    /// The file is there but could not be read.
    Io {
        /// The file.
        path: String,
        /// What the filesystem says.
        message: String,
    },
    /// The file is not valid. The error names the place and quotes nothing of
    /// the file, which holds keys.
    Parse {
        /// The file.
        path: String,
        /// Line of the failure, from 1.
        line: usize,
        /// Column of the failure, from 1, in characters.
        column: usize,
        /// What the parser says.
        message: String,
    },
}

impl CredentialsError {
    /// The one-line text of the error.
    pub open spec fn spec_message(&self) -> Seq<char> {
        match *self {
            CredentialsError::Io { path, message } => path@ + ": "@ + message@,
            CredentialsError::Parse { path, line, column, message } => path@ + ":"@
                + text::decimal(line as nat) + ":"@ + text::decimal(column as nat) + ": "@
                + message@,
        }
    }

    /// Renders the error as one line.
    pub fn message(&self) -> (r: String)
        ensures
            r@ == self.spec_message(),
    {
        match self {
            CredentialsError::Io { path, message } => path.clone().concat(": ").concat(
                message.as_str(),
            ),
            CredentialsError::Parse { path, line, column, message } => path.clone().concat(
                ":",
            ).concat(text::decimal_of(*line as u64).as_str()).concat(":").concat(
                text::decimal_of(*column as u64).as_str(),
            ).concat(": ").concat(message.as_str()),
        }
    }
}

/// A table `[tdm.<publisher>]` of the file.
#[derive(Clone)]
pub struct RawEntry {
    /// The key, where the table sets one.
    pub api_key: Option<String>,
    /// The agreement, where the table sets one.
    pub agreed: Option<bool>,
}

/// Why a text is no valid file.
#[derive(Clone)]
pub struct TomlFault {
    /// Byte offset of the failure, where the parser knows it.
    pub offset: Option<usize>,
    /// What the parser says.
    pub message: String,
}

/// What the file gives: keys by publisher, and what is worth telling.
#[non_exhaustive]
pub struct Credentials {
    pub(crate) keys: Vec<(String, String)>,
    pub(crate) advisories: Vec<Advisory>,
}

/// What credentials hold.
pub struct CredentialsModel {
    pub keys: Seq<(Seq<char>, Seq<char>)>,
    pub advisories: Seq<AdvisoryModel>,
}

/// What a list of advisories holds.
pub open spec fn advisory_views(v: Seq<Advisory>) -> Seq<AdvisoryModel> {
    Seq::new(v.len(), |i: int| v[i]@)
}

impl View for Credentials {
    type V = CredentialsModel;

    closed spec fn view(&self) -> CredentialsModel {
        CredentialsModel {
            keys: crate::urls::pair_views(self.keys@),
            advisories: advisory_views(self.advisories@),
        }
    }
}

/// The key of a publisher: that of the first pair with its name.
pub open spec fn key_for(keys: Seq<(Seq<char>, Seq<char>)>, publisher: Seq<char>) -> Option<
    Seq<char>,
>
    decreases keys.len(),
{
    if keys.len() == 0 {
        None
    } else if keys[0].0 == publisher {
        Some(keys[0].1)
    } else {
        key_for(keys.drop_first(), publisher)
    }
}

/// Each pair is that of another known publisher.
pub open spec fn one_key_each(keys: Seq<(Seq<char>, Seq<char>)>) -> bool {
    &&& forall|i: int| 0 <= i < keys.len() ==> known_publisher((#[trigger] keys[i]).0)
    &&& forall|i: int, j: int|
        0 <= i < j < keys.len() ==> (#[trigger] keys[i]).0 != (#[trigger] keys[j]).0
}

/// 1 where a publisher has a key, else 0.
pub open spec fn keys_held(keys: Seq<(Seq<char>, Seq<char>)>, publisher: Seq<char>) -> nat {
    if key_for(keys, publisher) is Some {
        1
    } else {
        0
    }
}

/// Number of known publishers with a key.
pub open spec fn publishers_with_key(keys: Seq<(Seq<char>, Seq<char>)>) -> nat {
    keys_held(keys, "elsevier"@) + keys_held(keys, "aps"@) + keys_held(keys, "springer"@)
        + keys_held(keys, "ieee"@)
}

impl Default for Credentials {
    fn default() -> (r: Self)
        ensures
            r@.keys == Seq::<(Seq<char>, Seq<char>)>::empty(),
            r@.advisories == Seq::<AdvisoryModel>::empty(),
    {
        let r = Credentials { keys: Vec::new(), advisories: Vec::new() };
        assert(r@.keys =~= Seq::<(Seq<char>, Seq<char>)>::empty());
        assert(r@.advisories =~= Seq::<AdvisoryModel>::empty());
        r
    }
}

impl Clone for Credentials {
    fn clone(&self) -> (r: Self)
        ensures
            r@ == self@,
    {
        proof {
            use_type_invariant(self);
        }
        let mut keys: Vec<(String, String)> = Vec::new();
        let mut i: usize = 0;
        while i < self.keys.len()
            invariant
                i <= self.keys.len(),
                keys@.len() == i,
                forall|j: int|
                    0 <= j < i ==> (#[trigger] keys@[j]).0@ == self.keys@[j].0@ && keys@[j].1@
                        == self.keys@[j].1@,
            decreases self.keys.len() - i,
        {
            keys.push((self.keys[i].0.clone(), self.keys[i].1.clone()));
            i += 1;
        }
        let mut advisories: Vec<Advisory> = Vec::new();
        let mut k: usize = 0;
        while k < self.advisories.len()
            invariant
                k <= self.advisories.len(),
                advisories@.len() == k,
                forall|j: int|
                    0 <= j < k ==> (#[trigger] advisories@[j])@ == self.advisories@[j]@,
            decreases self.advisories.len() - k,
        {
            advisories.push(self.advisories[k].clone());
            k += 1;
        }
        assert(crate::urls::pair_views(keys@) =~= self@.keys);
        assert(advisory_views(advisories@) =~= self@.advisories);
        Credentials { keys, advisories }
    }
}

impl Credentials {
    #[verifier::type_invariant]
    closed spec fn wf(&self) -> bool {
        one_key_each(self@.keys)
    }

    /// The key of a publisher.
    pub fn api_key(&self, publisher: &str) -> (r: Option<&str>)
        ensures
            match key_for(self@.keys, publisher@) {
                Some(k) => r is Some && r->Some_0@ == k,
                None => r is None,
            },
    {
        let ghost keys = self@.keys;
        assert(keys.skip(0) =~= keys);
        let mut i: usize = 0;
        while i < self.keys.len()
            invariant
                i <= self.keys.len(),
                keys == self@.keys,
                key_for(keys, publisher@) == key_for(keys.skip(i as int), publisher@),
            decreases self.keys.len() - i,
        {
            assert(keys.skip(i as int)[0] == (self.keys@[i as int].0@, self.keys@[i as int].1@));
            assert(keys.skip(i as int).drop_first() =~= keys.skip(i + 1));
            if text::same(self.keys[i].0.as_str(), publisher) {
                return Some(self.keys[i].1.as_str());
            }
            i += 1;
        }
        None
    }

    /// Whether there is no key at all.
    pub fn is_empty(&self) -> (r: bool)
        ensures
            r == (self@.keys.len() == 0),
            r == (publishers_with_key(self@.keys) == 0),
    {
        proof {
            use_type_invariant(self);
            law_keys_are_counted_by_publisher(self@.keys);
        }
        self.keys.len() == 0
    }

    /// Number of publishers with a key, four at most.
    pub fn len(&self) -> (r: usize)
        ensures
            r == self@.keys.len(),
            r == publishers_with_key(self@.keys),
            r <= 4,
    {
        proof {
            use_type_invariant(self);
            law_keys_are_counted_by_publisher(self@.keys);
        }
        self.keys.len()
    }

    /// What is worth telling the user.
    pub fn advisories(&self) -> (r: &[Advisory])
        ensures
            advisory_views(r@) == self@.advisories,
    {
        self.advisories.as_slice()
    }

    /// The credentials as they may be logged: the publishers are named, their
    /// keys are not.
    pub fn debug_text(&self) -> (r: String)
        ensures
            r@ == credentials_debug(self@),
    {
        let mut keys: Vec<String> = Vec::new();
        let mut i: usize = 0;
        while i < self.keys.len()
            invariant
                i <= self.keys.len(),
                keys@.len() == i,
                forall|j: int|
                    0 <= j < i ==> (#[trigger] keys@[j])@ == quoted(
                        self.keys@[j].0@ + ": <redacted>"@,
                    ),
            decreases self.keys.len() - i,
        {
            let shown = self.keys[i].0.clone().concat(": <redacted>");
            keys.push(quoted_of(shown.as_str()));
            i += 1;
        }
        let mut advisories: Vec<String> = Vec::new();
        let mut k: usize = 0;
        while k < self.advisories.len()
            invariant
                k <= self.advisories.len(),
                advisories@.len() == k,
                forall|j: int|
                    0 <= j < k ==> (#[trigger] advisories@[j])@ == advisory_debug(
                        self.advisories@[j]@,
                    ),
            decreases self.advisories.len() - k,
        {
            advisories.push(self.advisories[k].debug_text());
            k += 1;
        }
        assert(text::views(keys@) =~= shown_keys(self@.keys));
        assert(text::views(advisories@) =~= shown_advisories(self@.advisories));
        "Credentials { keys: [".to_string().concat(
            text::join_of(keys.as_slice(), ", ").as_str(),
        ).concat("], advisories: [").concat(
            text::join_of(advisories.as_slice(), ", ").as_str(),
        ).concat("] }")
    }
}

/// The keys as they may be logged.
pub open spec fn shown_keys(keys: Seq<(Seq<char>, Seq<char>)>) -> Seq<Seq<char>> {
    Seq::new(keys.len(), |i: int| quoted(keys[i].0 + ": <redacted>"@))
}

/// The advisories as they may be logged.
pub open spec fn shown_advisories(v: Seq<AdvisoryModel>) -> Seq<Seq<char>> {
    Seq::new(v.len(), |i: int| advisory_debug(v[i]))
}

/// Credentials as they may be logged.
pub open spec fn credentials_debug(c: CredentialsModel) -> Seq<char> {
    "Credentials { keys: ["@ + text::join(shown_keys(c.keys), ", "@) + "], advisories: ["@
        + text::join(shown_advisories(c.advisories), ", "@) + "] }"@
}

/// Where the file is kept: below the user's directory of configurations.
pub fn path(config_dir: &str) -> (r: String)
    ensures
        r@ == paths::joined(paths::joined(config_dir@, "doiget"@), "credentials.toml"@),
{
    let dir = paths::join_path(config_dir, "doiget");
    paths::join_path(dir.as_str(), "credentials.toml")
}

/// The publishers that the file may name.
pub open spec fn known_publisher(p: Seq<char>) -> bool {
    p == "elsevier"@ || p == "aps"@ || p == "springer"@ || p == "ieee"@
}

fn is_known(p: &str) -> (r: bool)
    ensures
        r == known_publisher(p@),
{
    text::same(p, "elsevier") || text::same(p, "aps") || text::same(p, "springer") || text::same(
        p,
        "ieee",
    )
}

/// The key that a table gives, without the white space around it: none for a
/// publisher that is not known, and none where it is blank.
pub open spec fn table_keys(publisher: Seq<char>, entry: RawEntry) -> Seq<(Seq<char>, Seq<char>)> {
    if known_publisher(publisher) && entry.api_key is Some && text::trim(
        entry.api_key->Some_0@,
    ).len() > 0 {
        seq![(publisher, text::trim(entry.api_key->Some_0@))]
    } else {
        Seq::empty()
    }
}

/// What a table gives rise to tell.
pub open spec fn table_advisories(publisher: Seq<char>, entry: RawEntry) -> Seq<AdvisoryModel> {
    if !known_publisher(publisher) {
        seq![AdvisoryModel::UnknownPublisher { publisher }]
    } else {
        (if entry.agreed is Some {
            seq![AdvisoryModel::AgreedIgnored { publisher }]
        } else {
            Seq::empty()
        }) + (if entry.api_key is Some && text::trim(entry.api_key->Some_0@).len() == 0 {
            seq![AdvisoryModel::BlankKey { publisher }]
        } else {
            Seq::empty()
        })
    }
}

/// Position of the pair of a publisher, or the length where it has none.
pub open spec fn key_position(keys: Seq<(Seq<char>, Seq<char>)>, publisher: Seq<char>) -> int
    decreases keys.len(),
{
    if keys.len() == 0 || keys[0].0 == publisher {
        0
    } else {
        1 + key_position(keys.drop_first(), publisher)
    }
}

/// The keys with that of a table: it takes the place of an earlier one of the
/// same publisher.
pub open spec fn with_keys(
    keys: Seq<(Seq<char>, Seq<char>)>,
    more: Seq<(Seq<char>, Seq<char>)>,
) -> Seq<(Seq<char>, Seq<char>)> {
    if more.len() == 0 {
        keys
    } else if key_position(keys, more[0].0) < keys.len() {
        keys.update(key_position(keys, more[0].0), more[0])
    } else {
        keys.push(more[0])
    }
}

/// What all tables give, in their order.
pub open spec fn credentials_of(tables: Seq<(String, RawEntry)>) -> CredentialsModel
    decreases tables.len(),
{
    if tables.len() == 0 {
        CredentialsModel { keys: Seq::empty(), advisories: Seq::empty() }
    } else {
        let before = credentials_of(tables.drop_last());
        let (p, e) = tables.last();
        CredentialsModel {
            keys: with_keys(before.keys, table_keys(p@, e)),
            advisories: before.advisories + table_advisories(p@, e),
        }
    }
}

proof fn lemma_key_position(keys: Seq<(Seq<char>, Seq<char>)>, publisher: Seq<char>)
    ensures
        0 <= key_position(keys, publisher) <= keys.len(),
        key_position(keys, publisher) < keys.len() ==> keys[key_position(keys, publisher)].0
            == publisher,
        forall|i: int|
            0 <= i < key_position(keys, publisher) ==> (#[trigger] keys[i]).0 != publisher,
    decreases keys.len(),
{
    if keys.len() > 0 && keys[0].0 != publisher {
        let d = keys.drop_first();
        lemma_key_position(d, publisher);
        assert forall|i: int| 0 <= i < key_position(keys, publisher) implies (
        #[trigger] keys[i]).0 != publisher by {
            if i > 0 {
                assert(d[i - 1] == keys[i]);
            }
        }
    }
}

proof fn lemma_one_key_each(
    keys: Seq<(Seq<char>, Seq<char>)>,
    publisher: Seq<char>,
    entry: RawEntry,
)
    requires
        one_key_each(keys),
    ensures
        one_key_each(with_keys(keys, table_keys(publisher, entry))),
{
    lemma_key_position(keys, publisher);
    let more = table_keys(publisher, entry);
    let all = with_keys(keys, more);
    if more.len() > 0 && key_position(keys, publisher) < keys.len() {
        let k = key_position(keys, publisher);
        assert forall|i: int| 0 <= i < all.len() implies (#[trigger] all[i]).0 == keys[i].0 by {
            if i == k {
                assert(all[i] == more[0]);
            }
        }
    }
}

fn put_key(keys: &mut Vec<(String, String)>, publisher: &String, key: String)
    ensures
        crate::urls::pair_views(final(keys)@) == with_keys(
            crate::urls::pair_views(old(keys)@),
            seq![(publisher@, key@)],
        ),
{
    let ghost all = crate::urls::pair_views(keys@);
    let ghost pair = (publisher@, key@);
    assert(all.skip(0) =~= all);
    let mut i: usize = 0;
    while i < keys.len() && !text::same(keys[i].0.as_str(), publisher.as_str())
        invariant
            i <= keys.len(),
            all == crate::urls::pair_views(keys@),
            key_position(all, publisher@) == i + key_position(all.skip(i as int), publisher@),
        decreases keys.len() - i,
    {
        assert(all.skip(i as int)[0] == all[i as int]);
        assert(all.skip(i as int).drop_first() =~= all.skip(i + 1));
        i += 1;
    }
    if i < keys.len() {
        assert(all.skip(i as int)[0] == all[i as int]);
        keys.set(i, (publisher.clone(), key));
        assert(crate::urls::pair_views(keys@) =~= all.update(i as int, pair));
    } else {
        keys.push((publisher.clone(), key));
        assert(crate::urls::pair_views(keys@) =~= all.push(pair));
    }
}

/// Reads the tables of a file.
pub fn read_tables(tables: &Vec<(String, RawEntry)>) -> (r: Credentials)
    ensures
        r@ == credentials_of(tables@),
{
    let mut keys: Vec<(String, String)> = Vec::new();
    let mut advisories: Vec<Advisory> = Vec::new();
    let mut i: usize = 0;
    assert(crate::urls::pair_views(keys@) =~= Seq::<(Seq<char>, Seq<char>)>::empty());
    assert(advisory_views(advisories@) =~= Seq::<AdvisoryModel>::empty());
    while i < tables.len()
        invariant
            i <= tables.len(),
            crate::urls::pair_views(keys@) == credentials_of(tables@.take(i as int)).keys,
            advisory_views(advisories@) == credentials_of(tables@.take(i as int)).advisories,
            one_key_each(crate::urls::pair_views(keys@)),
        decreases tables.len() - i,
    {
        let ghost t = tables@.take(i + 1);
        let ghost before = credentials_of(tables@.take(i as int));
        assert(t.drop_last() =~= tables@.take(i as int));
        let (publisher, entry) = &tables[i];
        assert(t.last() == tables@[i as int]);
        proof {
            lemma_one_key_each(before.keys, publisher@, *entry);
        }
        if !is_known(publisher.as_str()) {
            advisories.push(Advisory::UnknownPublisher { publisher: publisher.clone() });
        } else {
            match &entry.agreed {
                Some(_) => {
                    advisories.push(Advisory::AgreedIgnored { publisher: publisher.clone() });
                },
                None => {},
            }
            match &entry.api_key {
                Some(raw) => {
                    let key = text::trim_of(raw.as_str());
                    if key.as_str().is_empty() {
                        advisories.push(Advisory::BlankKey { publisher: publisher.clone() });
                    } else {
                        assert(table_keys(publisher@, *entry) =~= seq![(publisher@, key@)]);
                        put_key(&mut keys, publisher, key);
                    }
                },
                None => {},
            }
        }
        assert(advisory_views(advisories@) =~= before.advisories + table_advisories(
            publisher@,
            *entry,
        ));
        i += 1;
    }
    assert(tables@.take(i as int) =~= tables@);
    Credentials { keys, advisories }
}

/// Number of line feeds among the bytes.
pub open spec fn newlines(b: Seq<u8>) -> nat
    decreases b.len(),
{
    if b.len() == 0 {
        0
    } else {
        newlines(b.drop_last()) + if b.last() == 0x0A {
            1nat
        } else {
            0nat
        }
    }
}

/// Number of characters behind the last line feed, each counted by the byte
/// that it starts with.
pub open spec fn chars_in_line(b: Seq<u8>) -> nat
    decreases b.len(),
{
    if b.len() == 0 || b.last() == 0x0A {
        0
    } else {
        chars_in_line(b.drop_last()) + if vstd::utf8::is_continuation_byte(b.last()) {
            0nat
        } else {
            1nat
        }
    }
}

/// The bytes of the text in front of an offset; all of them where the offset
/// lies behind the text.
pub open spec fn bytes_before(s: Seq<char>, offset: nat) -> Seq<u8> {
    let b = vstd::utf8::encode_utf8(s);
    if offset <= b.len() {
        b.take(offset as int)
    } else {
        b
    }
}

/// The error names the place of the failure and what the parser says.
pub open spec fn located(
    e: CredentialsError,
    path: Seq<char>,
    s: Seq<char>,
    fault: TomlFault,
) -> bool {
    let before = bytes_before(
        s,
        match fault.offset {
            Some(o) => o as nat,
            None => 0,
        },
    );
    e matches CredentialsError::Parse { path: p, line, column, message } && p@ == path && line
        == newlines(before) + 1 && column == chars_in_line(before) + 1 && message@
        == fault.message@
}

/// The error for a text that is no valid file. It says where the failure is
/// and what the parser says, and holds nothing of the text.
pub fn redacted_parse_error(path: &str, s: &str, fault: &TomlFault) -> (r: CredentialsError)
    requires
        text::byte_len(s@) < usize::MAX,
    ensures
        located(r, path@, s@, *fault),
{
    let b = s.as_bytes();
    let offset = match fault.offset {
        Some(o) => o,
        None => 0,
    };
    let end = if offset <= b.len() {
        offset
    } else {
        b.len()
    };
    let ghost before = bytes_before(
        s@,
        match fault.offset {
            Some(o) => o as nat,
            None => 0,
        },
    );
    assert(b@.take(end as int) =~= before);
    let mut line: usize = 0;
    let mut column: usize = 0;
    let mut i: usize = 0;
    while i < end
        invariant
            i <= end <= b.len(),
            b@.len() < usize::MAX,
            line == newlines(b@.take(i as int)),
            column == chars_in_line(b@.take(i as int)),
            line <= i,
            column <= i,
        decreases end - i,
    {
        assert(b@.take(i + 1).drop_last() =~= b@.take(i as int));
        if b[i] == 0x0A {
            line = line + 1;
            column = 0;
        } else if !(0x80 <= b[i] && b[i] <= 0xBF) {
            column = column + 1;
        }
        i += 1;
    }
    CredentialsError::Parse {
        path: path.to_string(),
        line: line + 1,
        column: column + 1,
        message: fault.message.clone(),
    }
}

/// Reads a file, given what its text was parsed to: the tables below `tdm`,
/// nothing where there is no `tdm`, or what is wrong with the text.
pub fn parse(
    s: &str,
    path: &str,
    parsed: Result<Option<Vec<(String, RawEntry)>>, TomlFault>,
) -> (r: Result<Credentials, CredentialsError>)
    requires
        text::byte_len(s@) < usize::MAX,
    ensures
        match parsed {
            Ok(None) => r is Ok && r->Ok_0@ == credentials_of(Seq::empty()),
            Ok(Some(tables)) => r is Ok && r->Ok_0@ == credentials_of(tables@),
            Err(fault) => r is Err && located(r->Err_0, path@, s@, fault),
        },
{
    match parsed {
        Ok(None) => Ok(Credentials::default()),
        Ok(Some(tables)) => Ok(read_tables(&tables)),
        Err(fault) => Err(redacted_parse_error(path, s, &fault)),
    }
}

/// The advisory that a file with these permission bits calls for: anything
/// beyond its owner.
pub open spec fn permission_model(path: Seq<char>, mode: u32) -> Option<AdvisoryModel> {
    if mode % 64 != 0 {
        Some(AdvisoryModel::InsecurePermissions { path, mode: (mode % 512) as u32 })
    } else {
        None
    }
}

/// Reports a file that group or others can access.
pub fn permission_advisory(path: &str, mode: u32) -> (r: Option<Advisory>)
    ensures
        match permission_model(path@, mode) {
            Some(m) => r is Some && r->Some_0@ == m,
            None => r is None,
        },
{
    let masked = mode % 512;
    if masked % 64 != 0 {
        Some(Advisory::InsecurePermissions { path: path.to_string(), mode: masked })
    } else {
        None
    }
}

/// What the filesystem gave for the file.
pub enum FileOutcome {
    /// There is no such file.
    Missing,
    /// The file could not be read.
    Failed {
        /// What the filesystem says.
        message: String,
    },
    /// The text of the file, what it was parsed to, and the permission bits
    /// where the system has them.
    Read {
        /// The text.
        text: String,
        /// What it was parsed to.
        parsed: Result<Option<Vec<(String, RawEntry)>>, TomlFault>,
        /// The permission bits.
        mode: Option<u32>,
    },
}

/// The advisories of a file: the permissions first, as the gravest of them.
pub open spec fn loaded_model(
    path: Seq<char>,
    tables: Seq<(String, RawEntry)>,
    mode: Option<u32>,
) -> CredentialsModel {
    let c = credentials_of(tables);
    let perm = match mode {
        Some(m) => permission_model(path, m),
        None => None,
    };
    match perm {
        Some(a) => CredentialsModel { keys: c.keys, advisories: seq![a] + c.advisories },
        None => c,
    }
}

/// The tables that a parse gave, none where there is no `tdm`.
pub open spec fn tables_of(parsed: Option<Vec<(String, RawEntry)>>) -> Seq<(String, RawEntry)> {
    match parsed {
        Some(t) => t@,
        None => Seq::empty(),
    }
}

/// Reads the file, given what the filesystem gave for it. A missing file gives
/// no keys.
pub fn load(path: &str, file: FileOutcome) -> (r: Result<Credentials, CredentialsError>)
    requires
        file matches FileOutcome::Read { text: t, .. } ==> text::byte_len(t@) < usize::MAX,
    ensures
        match file {
            FileOutcome::Missing => r is Ok && r->Ok_0@ == credentials_of(Seq::empty()),
            FileOutcome::Failed { message } => r matches Err(
                CredentialsError::Io { path: p, message: m },
            ) && p@ == path@ && m@ == message@,
            FileOutcome::Read { text: t, parsed, mode } => match parsed {
                Ok(tables) => r is Ok && r->Ok_0@ == loaded_model(path@, tables_of(tables), mode),
                Err(fault) => r is Err && located(r->Err_0, path@, t@, fault),
            },
        },
{
    let (t, parsed, mode) = match file {
        FileOutcome::Missing => return Ok(Credentials::default()),
        FileOutcome::Failed { message } => return Err(
            CredentialsError::Io { path: path.to_string(), message },
        ),
        FileOutcome::Read { text, parsed, mode } => (text, parsed, mode),
    };
    let c = match parse(t.as_str(), path, parsed) {
        Ok(c) => c,
        Err(e) => return Err(e),
    };
    let ghost before = c@;
    proof {
        use_type_invariant(&c);
    }
    let perm = match mode {
        Some(m) => permission_advisory(path, m),
        None => None,
    };
    let Credentials { keys, advisories } = c;
    let mut advisories = advisories;
    match perm {
        Some(a) => {
            let ghost x = a@;
            advisories.insert(0, a);
            assert(advisory_views(advisories@) =~= seq![x] + before.advisories);
        },
        None => {},
    }
    Ok(Credentials { keys, advisories })
}

/// The credentials that a fetch uses: those of the file, or none at all where
/// there is no place for the file or it cannot be used.
pub fn load_or_default(loaded: Option<Result<Credentials, CredentialsError>>) -> (r: Credentials)
    ensures
        match loaded {
            Some(Ok(c)) => r@ == c@,
            _ => r@ == credentials_of(Seq::empty()),
        },
{
    match loaded {
        Some(Ok(c)) => c,
        _ => Credentials::default(),
    }
}

// ---------------------------------------------------------------------------
// Laws
// ---------------------------------------------------------------------------

/// Every key belongs to a known publisher and is neither blank nor padded.
pub proof fn law_keys_are_usable(tables: Seq<(String, RawEntry)>)
    ensures
        forall|i: int|
            0 <= i < credentials_of(tables).keys.len() ==> {
                let k = #[trigger] credentials_of(tables).keys[i];
                known_publisher(k.0) && k.1.len() > 0 && text::trim(k.1) == k.1
            },
    decreases tables.len(),
{
    if tables.len() > 0 {
        law_keys_are_usable(tables.drop_last());
        let before = credentials_of(tables.drop_last()).keys;
        let keys = credentials_of(tables).keys;
        let more = table_keys(tables.last().0@, tables.last().1);
        lemma_key_position(before, tables.last().0@);
        assert forall|i: int| 0 <= i < keys.len() implies known_publisher(
            (#[trigger] keys[i]).0,
        ) && keys[i].1.len() > 0 && text::trim(keys[i].1) == keys[i].1 by {
            if more.len() > 0 && keys[i] == more[0] {
                text::lemma_trim_idempotent(tables.last().1.api_key->Some_0@);
            } else {
                assert(keys[i] == before[i]);
            }
        }
    }
}

/// What the file says of agreements grants nothing: the keys, and the answer of
/// every lookup, are the same whatever it says.
pub proof fn law_agreement_in_the_file_grants_nothing(
    a: Seq<(String, RawEntry)>,
    b: Seq<(String, RawEntry)>,
)
    requires
        a.len() == b.len(),
        forall|i: int|
            0 <= i < a.len() ==> (#[trigger] a[i]).0@ == b[i].0@ && text::opt_view(a[i].1.api_key)
                == text::opt_view(b[i].1.api_key),
    ensures
        credentials_of(a).keys == credentials_of(b).keys,
        forall|publisher: Seq<char>|
            #[trigger] key_for(credentials_of(a).keys, publisher) == key_for(
                credentials_of(b).keys,
                publisher,
            ),
    decreases a.len(),
{
    if a.len() > 0 {
        assert forall|i: int| 0 <= i < a.len() - 1 implies (#[trigger] a.drop_last()[i]).0@
            == b.drop_last()[i].0@ && text::opt_view(a.drop_last()[i].1.api_key) == text::opt_view(
            b.drop_last()[i].1.api_key,
        ) by {
            assert(a[i].0@ == b[i].0@);
        }
        law_agreement_in_the_file_grants_nothing(a.drop_last(), b.drop_last());
        assert(a[a.len() - 1].0@ == b[b.len() - 1].0@);
    }
}

/// The advisory tells of the publisher.
pub open spec fn tells_of(a: AdvisoryModel, publisher: Seq<char>) -> bool {
    match a {
        AdvisoryModel::InsecurePermissions { .. } => false,
        AdvisoryModel::UnknownPublisher { publisher: p } => p == publisher,
        AdvisoryModel::AgreedIgnored { publisher: p } => p == publisher,
        AdvisoryModel::BlankKey { publisher: p } => p == publisher,
    }
}

/// Nothing is dropped in silence: a table whose key is not used, or which sets
/// an agreement, is told of.
pub proof fn law_nothing_is_dropped_in_silence(tables: Seq<(String, RawEntry)>, i: int)
    requires
        0 <= i < tables.len(),
        tables[i].1.agreed is Some || !known_publisher(tables[i].0@) || (
        tables[i].1.api_key is Some && table_keys(tables[i].0@, tables[i].1).len() == 0),
    ensures
        exists|j: int|
            0 <= j < credentials_of(tables).advisories.len() && tells_of(
                #[trigger] credentials_of(tables).advisories[j],
                tables[i].0@,
            ),
    decreases tables.len(),
{
    let before = credentials_of(tables.drop_last()).advisories;
    let all = credentials_of(tables).advisories;
    if i < tables.len() - 1 {
        law_nothing_is_dropped_in_silence(tables.drop_last(), i);
        let j = choose|j: int|
            0 <= j < before.len() && tells_of(#[trigger] before[j], tables[i].0@);
        assert(all[j] == before[j]);
    } else {
        let own = table_advisories(tables[i].0@, tables[i].1);
        assert(all[before.len() as int] == own[0]);
    }
}

proof fn lemma_key_for_absent(keys: Seq<(Seq<char>, Seq<char>)>, publisher: Seq<char>)
    requires
        forall|i: int| 0 <= i < keys.len() ==> (#[trigger] keys[i]).0 != publisher,
    ensures
        key_for(keys, publisher) is None,
    decreases keys.len(),
{
    if keys.len() > 0 {
        assert(keys[0].0 != publisher);
        let d = keys.drop_first();
        assert forall|i: int| 0 <= i < d.len() implies (#[trigger] d[i]).0 != publisher by {
            assert(d[i] == keys[i + 1]);
        }
        lemma_key_for_absent(d, publisher);
    }
}

/// The keys are as many as there are known publishers with a key, so four at
/// most.
pub proof fn law_keys_are_counted_by_publisher(keys: Seq<(Seq<char>, Seq<char>)>)
    requires
        one_key_each(keys),
    ensures
        keys.len() == publishers_with_key(keys),
        keys.len() <= 4,
    decreases keys.len(),
{
    if keys.len() > 0 {
        let d = keys.drop_first();
        let p = keys[0].0;
        assert forall|i: int| 0 <= i < d.len() implies (#[trigger] d[i]).0 != p && known_publisher(
            d[i].0,
        ) by {
            assert(d[i] == keys[i + 1]);
        }
        assert forall|i: int, j: int| 0 <= i < j < d.len() implies (#[trigger] d[i]).0 != (
        #[trigger] d[j]).0 by {
            assert(d[i] == keys[i + 1]);
            assert(d[j] == keys[j + 1]);
        }
        law_keys_are_counted_by_publisher(d);
        lemma_key_for_absent(d, p);
        reveal_strlit("elsevier");
        reveal_strlit("aps");
        reveal_strlit("springer");
        reveal_strlit("ieee");
        assert("elsevier"@[0] != "springer"@[0]);
        assert("elsevier"@.len() == 8 && "springer"@.len() == 8);
        assert("aps"@.len() == 3 && "ieee"@.len() == 4);
        assert(known_publisher(keys[0].0));
    }
}

/// The table gives the publisher, which is known, the key: its own without the
/// white space around it, of which something is left.
pub open spec fn table_gives(
    table: (String, RawEntry),
    publisher: Seq<char>,
    key: Seq<char>,
) -> bool {
    &&& table.0@ == publisher
    &&& known_publisher(publisher)
    &&& table.1.api_key is Some
    &&& key == text::trim(table.1.api_key->Some_0@)
    &&& key.len() > 0
}

proof fn lemma_key_for(keys: Seq<(Seq<char>, Seq<char>)>, publisher: Seq<char>)
    ensures
        ({
            let k = key_position(keys, publisher);
            key_for(keys, publisher) == if k < keys.len() {
                Some(keys[k].1)
            } else {
                None
            }
        }),
    decreases keys.len(),
{
    if keys.len() > 0 && keys[0].0 != publisher {
        let d = keys.drop_first();
        lemma_key_for(d, publisher);
        lemma_key_position(d, publisher);
        let k = key_position(d, publisher);
        if k < d.len() {
            assert(d[k] == keys[k + 1]);
        }
    }
}

proof fn lemma_first_pair(keys: Seq<(Seq<char>, Seq<char>)>, publisher: Seq<char>, k: int)
    requires
        0 <= k <= keys.len(),
        k < keys.len() ==> keys[k].0 == publisher,
        forall|i: int| 0 <= i < k ==> (#[trigger] keys[i]).0 != publisher,
    ensures
        key_for(keys, publisher) == if k < keys.len() {
            Some(keys[k].1)
        } else {
            None
        },
{
    lemma_key_for(keys, publisher);
    lemma_key_position(keys, publisher);
    let p = key_position(keys, publisher);
    if p < k {
        assert(keys[p].0 != publisher);
    }
}

proof fn lemma_lookup(
    keys: Seq<(Seq<char>, Seq<char>)>,
    table: (String, RawEntry),
    publisher: Seq<char>,
)
    ensures
        ({
            let more = table_keys(table.0@, table.1);
            key_for(with_keys(keys, more), publisher) == if more.len() > 0 && table.0@
                == publisher {
                Some(more[0].1)
            } else {
                key_for(keys, publisher)
            }
        }),
{
    let more = table_keys(table.0@, table.1);
    if more.len() > 0 {
        let at = key_position(keys, table.0@);
        let all = with_keys(keys, more);
        lemma_key_position(keys, table.0@);
        lemma_key_position(keys, publisher);
        lemma_key_for(keys, publisher);
        let k = key_position(keys, publisher);
        if table.0@ == publisher {
            assert forall|i: int| 0 <= i < at implies (#[trigger] all[i]).0 != publisher by {
                assert(all[i] == keys[i]);
            }
            lemma_first_pair(all, publisher, at);
        } else {
            assert forall|i: int| 0 <= i < k implies (#[trigger] all[i]).0 != publisher by {
                assert(i != at ==> all[i] == keys[i]);
            }
            if k < keys.len() {
                assert(all[k] == keys[k]);
                lemma_first_pair(all, publisher, k);
            } else {
                assert forall|i: int| 0 <= i < all.len() implies (#[trigger] all[i]).0
                    != publisher by {
                    if i < k {
                        assert(all[i].0 != publisher);
                    }
                }
                lemma_first_pair(all, publisher, all.len() as int);
            }
        }
    }
}

/// A lookup answers from the file: where no two tables have one name, it gives a
/// key if and only if the publisher is known and its table holds that key and
/// not a blank one.
pub proof fn law_lookups_answer_from_the_file(
    tables: Seq<(String, RawEntry)>,
    publisher: Seq<char>,
    key: Seq<char>,
)
    requires
        forall|i: int, j: int|
            0 <= i < j < tables.len() ==> (#[trigger] tables[i]).0@ != (#[trigger] tables[j]).0@,
    ensures
        key_for(credentials_of(tables).keys, publisher) == Some(key) <==> exists|i: int|
            0 <= i < tables.len() && #[trigger] table_gives(tables[i], publisher, key),
    decreases tables.len(),
{
    if tables.len() > 0 {
        let before = tables.drop_last();
        let last = tables.last();
        let n = tables.len() - 1;
        assert forall|i: int, j: int| 0 <= i < j < before.len() implies (#[trigger] before[i]).0@
            != (#[trigger] before[j]).0@ by {
            assert(before[i] == tables[i] && before[j] == tables[j]);
        }
        law_lookups_answer_from_the_file(before, publisher, key);
        lemma_lookup(credentials_of(before).keys, last, publisher);
        let given = key_for(credentials_of(tables).keys, publisher) == Some(key);
        let more = table_keys(last.0@, last.1);
        if more.len() > 0 && last.0@ == publisher {
            if given {
                assert(table_gives(tables[n], publisher, key));
            }
            if exists|i: int| 0 <= i < tables.len() && #[trigger] table_gives(
                tables[i],
                publisher,
                key,
            ) {
                let i = choose|i: int|
                    0 <= i < tables.len() && #[trigger] table_gives(tables[i], publisher, key);
                if i < n {
                    assert(tables[i].0@ != tables[n].0@);
                }
            }
        } else {
            if given {
                let i = choose|i: int|
                    0 <= i < before.len() && #[trigger] table_gives(before[i], publisher, key);
                assert(table_gives(tables[i], publisher, key));
            }
            if exists|i: int| 0 <= i < tables.len() && #[trigger] table_gives(
                tables[i],
                publisher,
                key,
            ) {
                let i = choose|i: int|
                    0 <= i < tables.len() && #[trigger] table_gives(tables[i], publisher, key);
                assert(i < n);
                assert(table_gives(before[i], publisher, key));
            }
        }
    }
}

/// Whatever a file holds, each key is that of another known publisher.
pub proof fn law_files_give_one_key_each(tables: Seq<(String, RawEntry)>)
    ensures
        one_key_each(credentials_of(tables).keys),
        credentials_of(tables).keys.len() == publishers_with_key(credentials_of(tables).keys),
        credentials_of(tables).keys.len() <= 4,
    decreases tables.len(),
{
    if tables.len() > 0 {
        law_files_give_one_key_each(tables.drop_last());
        lemma_one_key_each(
            credentials_of(tables.drop_last()).keys,
            tables.last().0@,
            tables.last().1,
        );
    }
    law_keys_are_counted_by_publisher(credentials_of(tables).keys);
}

/// What is logged of credentials does not depend on the keys, only on whose
/// they are.
pub proof fn law_logs_hide_the_keys(a: CredentialsModel, b: CredentialsModel)
    requires
        a.advisories == b.advisories,
        a.keys.len() == b.keys.len(),
        forall|i: int| 0 <= i < a.keys.len() ==> (#[trigger] a.keys[i]).0 == b.keys[i].0,
    ensures
        credentials_debug(a) == credentials_debug(b),
{
    assert(shown_keys(a.keys) =~= shown_keys(b.keys)) by {
        assert forall|i: int| 0 <= i < a.keys.len() implies shown_keys(a.keys)[i] == shown_keys(
            b.keys,
        )[i] by {
            assert(a.keys[i].0 == b.keys[i].0);
        }
    }
}

proof fn lemma_newlines(a: Seq<u8>, b: Seq<u8>)
    ensures
        newlines(a + b) == newlines(a) + newlines(b),
    decreases b.len(),
{
    if b.len() == 0 {
        assert(a + b =~= a);
    } else {
        lemma_newlines(a, b.drop_last());
        assert((a + b).drop_last() =~= a + b.drop_last());
        assert((a + b).last() == b.last());
    }
}

proof fn lemma_one_line(b: Seq<u8>)
    requires
        forall|i: int| 0 <= i < b.len() ==> #[trigger] b[i] != 0x0A,
    ensures
        newlines(b) == 0,
    decreases b.len(),
{
    if b.len() > 0 {
        let d = b.drop_last();
        assert forall|i: int| 0 <= i < d.len() implies #[trigger] d[i] != 0x0A by {
            assert(d[i] == b[i]);
        }
        lemma_one_line(d);
        assert(b[b.len() - 1] != 0x0A);
    }
}

/// A line feed ends a line and starts the count of characters anew; any other
/// byte stays in its line, and counts where it starts a character.
pub proof fn law_positions_count_lines_and_characters(a: Seq<u8>, b: Seq<u8>, c: u8)
    requires
        forall|i: int| 0 <= i < b.len() ==> #[trigger] b[i] != 0x0A,
    ensures
        newlines(b) == 0,
        newlines(a.push(0x0A) + b) == newlines(a) + 1,
        chars_in_line(a.push(0x0A)) == 0,
        c != 0x0A && !vstd::utf8::is_continuation_byte(c) ==> chars_in_line(a.push(c))
            == chars_in_line(a) + 1,
        c != 0x0A && vstd::utf8::is_continuation_byte(c) ==> chars_in_line(a.push(c))
            == chars_in_line(a),
        chars_in_line(Seq::empty()) == 0,
{
    lemma_one_line(b);
    lemma_newlines(a.push(0x0A), b);
    assert(a.push(0x0A).drop_last() =~= a);
    assert(a.push(c).drop_last() =~= a);
}

/// A fault is told at the line and column where its offset lies, counted from
/// one; one without an offset lies at the start.
pub proof fn law_faults_are_told_where_they_lie(
    e: CredentialsError,
    path: Seq<char>,
    s: Seq<char>,
    fault: TomlFault,
)
    requires
        located(e, path, s, fault),
    ensures
        e matches CredentialsError::Parse { path: p, line, column, message } && {
            let b = vstd::utf8::encode_utf8(s);
            &&& p@ == path && message@ == fault.message@
            &&& fault.offset is None ==> line == 1 && column == 1
            &&& fault.offset matches Some(o) ==> (o <= b.len() ==> line == newlines(
                b.take(o as int),
            ) + 1 && column == chars_in_line(b.take(o as int)) + 1)
        },
{
    let b = vstd::utf8::encode_utf8(s);
    if fault.offset is None {
        assert(b.take(0) =~= Seq::<u8>::empty());
    }
}

/// A file is told about where its group or anyone else has some right to it, with
/// its nine permission bits.
pub proof fn law_open_files_are_told_about(path: Seq<char>, mode: u32)
    ensures
        mode % 0o100 == 0 ==> permission_model(path, mode) is None,
        mode % 0o100 != 0 ==> permission_model(path, mode) == Some(
            AdvisoryModel::InsecurePermissions { path, mode: (mode % 0o1000) as u32 },
        ),
{
}

/// Permissions are written in octal, with four digits at least.
pub proof fn law_modes_are_written_in_octal(n: nat, width: nat)
    ensures
        octal(0, 0).len() == 0,
        n > 0 || width > 0 ==> octal(n, width) == octal(
            n / 8,
            if width > 0 {
                (width - 1) as nat
            } else {
                0
            },
        ).push(((48 + n % 8) as int) as char),
        octal(n, width).len() >= width,
    decreases n, width,
{
    if n > 0 || width > 0 {
        let w = if width > 0 {
            (width - 1) as nat
        } else {
            0
        };
        law_modes_are_written_in_octal(n / 8, w);
    }
}

/// Every table is read on its own: a known publisher with a key that is not blank
/// gives that key without the white space around it, and nothing else does; a
/// blank key, an agreement and an unknown publisher are each told.
pub proof fn law_tables_are_read_for_their_key(publisher: Seq<char>, entry: RawEntry)
    ensures
        ({
            let known = publisher == "elsevier"@ || publisher == "aps"@ || publisher == "springer"@
                || publisher == "ieee"@;
            let keys = table_keys(publisher, entry);
            let told = table_advisories(publisher, entry);
            &&& !known ==> keys.len() == 0 && told == seq![
                AdvisoryModel::UnknownPublisher { publisher },
            ]
            &&& known && entry.api_key is None ==> keys.len() == 0
            &&& known ==> (entry.api_key matches Some(k) ==> {
                &&& text::trim(k@).len() > 0 ==> keys == seq![(publisher, text::trim(k@))]
                &&& text::trim(k@).len() == 0 ==> keys.len() == 0 && told.contains(
                    AdvisoryModel::BlankKey { publisher },
                )
            })
            &&& known && entry.agreed is Some ==> told.contains(
                AdvisoryModel::AgreedIgnored { publisher },
            )
            &&& known && entry.agreed is None && (entry.api_key is None || text::trim(
                entry.api_key->Some_0@,
            ).len() > 0) ==> told.len() == 0
        }),
{
    let told = table_advisories(publisher, entry);
    if known_publisher(publisher) {
        if entry.agreed is Some {
            assert(told[0] == (AdvisoryModel::AgreedIgnored { publisher }));
        }
        if entry.api_key is Some && text::trim(entry.api_key->Some_0@).len() == 0 {
            assert(told.last() == (AdvisoryModel::BlankKey { publisher }));
        }
    }
}

/// Every table is told about: the advisories of a file are those of its tables,
/// in order, behind the one about the file.
pub proof fn law_every_table_is_told_about(
    a: Seq<(String, RawEntry)>,
    b: Seq<(String, RawEntry)>,
    path: Seq<char>,
    mode: Option<u32>,
)
    ensures
        credentials_of(a + b).advisories == credentials_of(a).advisories + credentials_of(
            b,
        ).advisories,
        loaded_model(path, a, mode).keys == credentials_of(a).keys,
        mode is None ==> loaded_model(path, a, mode) == credentials_of(a),
        mode matches Some(m) ==> {
            &&& m % 0o100 == 0 ==> loaded_model(path, a, mode) == credentials_of(a)
            &&& m % 0o100 != 0 ==> loaded_model(path, a, mode).advisories == seq![
                AdvisoryModel::InsecurePermissions { path, mode: (m % 0o1000) as u32 },
            ] + credentials_of(a).advisories
        },
    decreases b.len(),
{
    if b.len() == 0 {
        assert(a + b =~= a);
        assert(credentials_of(a).advisories + credentials_of(b).advisories
            =~= credentials_of(a).advisories);
    } else {
        law_every_table_is_told_about(a, b.drop_last(), path, mode);
        assert((a + b).drop_last() =~= a + b.drop_last());
        assert((a + b).last() == b.last());
        assert(credentials_of(a + b).advisories =~= credentials_of(a).advisories + credentials_of(
            b,
        ).advisories);
    }
}

} // verus!
