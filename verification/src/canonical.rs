//! Audit identity of a fetched paper: which identifier, through which
//! resolver, in which version.

use crate::digest;
use crate::json;
use crate::json::Json;
use crate::json::JsonModel;
use crate::refs;
use crate::refs::Ref;
use crate::refs::RefModel;
use crate::text;
use vstd::prelude::*;

verus! {

/// Identifier class of a [`CanonicalRef`].
#[derive(Debug, Clone, Copy, PartialEq, Eq, Hash, Structural)]
#[non_exhaustive]
pub enum SourceType {
    /// DOI source class.
    Doi,
    /// arXiv source class.
    Arxiv,
}

impl SourceType {
    /// The token of the class in the digest input.
    pub open spec fn token(self) -> Seq<char> {
        match self {
            SourceType::Doi => "doi"@,
            SourceType::Arxiv => "arxiv"@,
        }
    }

    /// The lower-case token of the class.
    pub fn as_wire_str(&self) -> (r: &'static str)
        ensures
            r@ == self.token(),
    {
        match self {
            SourceType::Doi => "doi",
            SourceType::Arxiv => "arxiv",
        }
    }
}

/// The four-part audit identity of a fetched paper.
#[derive(Debug, Clone, PartialEq, Eq, Hash)]
#[non_exhaustive]
pub struct CanonicalRef {
    /// Identifier class.
    pub source_type: SourceType,
    /// Bare identifier.
    pub source_id: String,
    /// Key of the resolver that produced this identity.
    pub resolver_profile: String,
    /// Version, such as arXiv's `v2`.
    pub version: Option<String>,
}

/// The content of an optional text, nothing where there is none.
pub open spec fn or_empty(o: Option<Seq<char>>) -> Seq<char> {
    match o {
        Some(s) => s,
        None => Seq::empty(),
    }
}

/// The bytes that are hashed: the four parts in UTF-8, a zero byte between
/// neighbours, and nothing for a missing version.
pub open spec fn digest_input(
    source_type: SourceType,
    source_id: Seq<char>,
    resolver: Seq<char>,
    version: Option<Seq<char>>,
) -> Seq<u8> {
    vstd::utf8::encode_utf8(source_type.token()) + seq![0u8] + vstd::utf8::encode_utf8(source_id)
        + seq![0u8] + vstd::utf8::encode_utf8(resolver) + seq![0u8] + vstd::utf8::encode_utf8(
        or_empty(version),
    )
}

/// An identity as JSON.
pub open spec fn identity_json(c: CanonicalRef) -> JsonModel {
    JsonModel::Object(
        seq![
            ("source_type"@, JsonModel::Text(c.source_type.token())),
            ("source_id"@, JsonModel::Text(c.source_id@)),
            ("resolver_profile"@, JsonModel::Text(c.resolver_profile@)),
            ("version"@, json::text_or_null(text::opt_view(c.version))),
        ],
    )
}

/// The class that a token stands for.
pub open spec fn class_named(token: Option<Seq<char>>) -> Option<SourceType> {
    match token {
        Some(t) => if t == "doi"@ {
            Some(SourceType::Doi)
        } else if t == "arxiv"@ {
            Some(SourceType::Arxiv)
        } else {
            None
        },
        None => None,
    }
}

/// What [`CanonicalRef::from_value`] makes of a value: an identity where the
/// class is known, the identifier and the resolver are there, and no field is
/// of a wrong kind. The version may be missing; other members do not matter.
pub open spec fn identity_read(v: Json, r: Option<CanonicalRef>) -> bool {
    let class = class_named(json::opt_text(v.member("source_type"@)));
    let id = json::opt_text(v.member("source_id"@));
    let profile = json::opt_text(v.member("resolver_profile"@));
    let version = json::optional_field(v.member("version"@));
    if class is Some && id is Some && profile is Some && version is Ok {
        r matches Some(c) && {
            &&& c.source_type == class->Some_0
            &&& c.source_id@ == id->Some_0
            &&& c.resolver_profile@ == profile->Some_0
            &&& text::opt_view(c.version) == version->Ok_0
        }
    } else {
        r is None
    }
}

fn push_bytes(out: &mut Vec<u8>, s: &str)
    ensures
        final(out)@ == old(out)@ + vstd::utf8::encode_utf8(s@),
{
    let b = s.as_bytes();
    let mut i: usize = 0;
    while i < b.len()
        invariant
            i <= b.len(),
            b@ == vstd::utf8::encode_utf8(s@),
            out@ == old(out)@ + b@.take(i as int),
        decreases b.len() - i,
    {
        out.push(b[i]);
        i += 1;
    }
    assert(b@.take(i as int) =~= b@);
}

impl CanonicalRef {
    /// The bytes that [`CanonicalRef::digest`] hashes.
    pub open spec fn spec_input(&self) -> Seq<u8> {
        digest_input(
            self.source_type,
            self.source_id@,
            self.resolver_profile@,
            text::opt_view(self.version),
        )
    }

    /// The identity as JSON.
    pub fn to_value(&self) -> (r: Json)
        ensures
            r@ == identity_json(*self),
    {
        let mut m: Vec<(String, Json)> = Vec::new();
        json::put(&mut m, "source_type", json::text_value(self.source_type.as_wire_str()));
        json::put(&mut m, "source_id", json::text_value(self.source_id.as_str()));
        json::put(&mut m, "resolver_profile", json::text_value(self.resolver_profile.as_str()));
        json::put(&mut m, "version", json::text_or_null_value(&self.version));
        assert(json::members_model(m@) =~= identity_json(*self)->Object_0);
        json::object(m)
    }

    /// Reads an identity from JSON.
    pub fn from_value(value: &Json) -> (r: Option<CanonicalRef>)
        ensures
            identity_read(*value, r),
    {
        let source_type = match value.text_at("source_type") {
            Some(t) => if text::same(t.as_str(), "doi") {
                SourceType::Doi
            } else if text::same(t.as_str(), "arxiv") {
                SourceType::Arxiv
            } else {
                return None;
            },
            None => return None,
        };
        let id = json::owned_text(value.text_at("source_id"));
        let profile = json::owned_text(value.text_at("resolver_profile"));
        let version = json::read_optional_field(value.get("version"));
        match (id, profile, version) {
            (Some(source_id), Some(resolver_profile), Ok(version)) => Some(
                CanonicalRef { source_type, source_id, resolver_profile, version },
            ),
            _ => None,
        }
    }

    /// Makes an identity from its four parts.
    pub fn new(
        source_type: SourceType,
        source_id: &str,
        resolver_profile: &str,
        version: Option<String>,
    ) -> (r: CanonicalRef)
        ensures
            r.source_type == source_type,
            r.source_id@ == source_id@,
            r.resolver_profile@ == resolver_profile@,
            r.version == version,
    {
        CanonicalRef {
            source_type,
            source_id: source_id.to_string(),
            resolver_profile: resolver_profile.to_string(),
            version,
        }
    }

    /// SHA-256 of the four parts with a zero byte between neighbours.
    pub fn digest(&self) -> (r: [u8; 32])
        ensures
            r == digest::sha256(self.spec_input()),
    {
        let mut buf: Vec<u8> = Vec::new();
        push_bytes(&mut buf, self.source_type.as_wire_str());
        buf.push(0);
        push_bytes(&mut buf, self.source_id.as_str());
        buf.push(0);
        push_bytes(&mut buf, self.resolver_profile.as_str());
        buf.push(0);
        match &self.version {
            Some(v) => {
                push_bytes(&mut buf, v.as_str());
            },
            None => {},
        }
        assert(buf@ =~= self.spec_input());
        digest::sha256_of(buf.as_slice())
    }

    /// The digest in hexadecimal: 64 lower-case digits.
    pub fn digest_hex(&self) -> (r: String)
        ensures
            r@ == digest::hex_text(digest::sha256(self.spec_input())@),
            r@.len() == 64,
            forall|i: int| 0 <= i < 64 ==> digest::is_lower_hex(#[trigger] r@[i]),
    {
        let d = self.digest();
        proof {
            digest::lemma_hex_text(d@);
        }
        digest::hex_of(d.as_slice())
    }
}

/// The class of a reference.
pub open spec fn class_of(m: RefModel) -> SourceType {
    match m {
        RefModel::Doi(_) => SourceType::Doi,
        RefModel::Arxiv(_) => SourceType::Arxiv,
    }
}

impl Ref {
    /// The audit identity of this reference under a resolver and a version.
    pub fn promote(&self, resolver_profile: &str, version: Option<&str>) -> (r: CanonicalRef)
        ensures
            r.source_type == class_of(self@),
            r.source_id@ == self@.id(),
            r.resolver_profile@ == resolver_profile@,
            text::opt_view(r.version) == (match version {
                Some(v) => Some(v@),
                None => None,
            }),
    {
        let (source_type, source_id) = match self {
            Ref::Doi(d) => (SourceType::Doi, d.as_str()),
            Ref::Arxiv(a) => (SourceType::Arxiv, a.as_str()),
        };
        let version = match version {
            Some(v) => Some(v.to_string()),
            None => None,
        };
        CanonicalRef::new(source_type, source_id, resolver_profile, version)
    }
}

// ---------------------------------------------------------------------------
// Laws
// ---------------------------------------------------------------------------

/// No version and an empty version are hashed alike.
pub proof fn law_empty_version_is_no_version(
    source_type: SourceType,
    source_id: Seq<char>,
    resolver: Seq<char>,
)
    ensures
        digest_input(source_type, source_id, resolver, None) == digest_input(
            source_type,
            source_id,
            resolver,
            Some(Seq::empty()),
        ),
{
}

/// The characters of the hashed bytes.
spec fn input_chars(t: Seq<char>, i: Seq<char>, r: Seq<char>, v: Seq<char>) -> Seq<char> {
    t + seq!['\0'] + i + seq!['\0'] + r + seq!['\0'] + v
}

proof fn lemma_encode_concat(a: Seq<char>, b: Seq<char>)
    ensures
        vstd::utf8::encode_utf8(a + b) == vstd::utf8::encode_utf8(a) + vstd::utf8::encode_utf8(b),
    decreases a.len(),
{
    if a.len() == 0 {
        assert(a + b =~= b);
        assert(vstd::utf8::encode_utf8(a) + vstd::utf8::encode_utf8(b)
            =~= vstd::utf8::encode_utf8(b));
    } else {
        assert((a + b).drop_first() =~= a.drop_first() + b);
        lemma_encode_concat(a.drop_first(), b);
        let e = vstd::utf8::encode_scalar(a[0] as u32);
        assert(e + (vstd::utf8::encode_utf8(a.drop_first()) + vstd::utf8::encode_utf8(b)) =~= (e
            + vstd::utf8::encode_utf8(a.drop_first())) + vstd::utf8::encode_utf8(b));
    }
}

proof fn lemma_zero_byte()
    ensures
        vstd::utf8::encode_utf8(seq!['\0']) == seq![0u8],
{
    let s = seq!['\0'];
    reveal_with_fuel(vstd::utf8::encode_utf8, 2);
    assert(s.drop_first().len() == 0);
    assert(0u32 & 0x7F == 0) by (bit_vector);
    assert(vstd::utf8::encode_utf8(s) =~= seq![0u8]);
}

proof fn lemma_input_is_text(
    source_type: SourceType,
    source_id: Seq<char>,
    resolver: Seq<char>,
    version: Option<Seq<char>>,
)
    ensures
        digest_input(source_type, source_id, resolver, version) == vstd::utf8::encode_utf8(
            input_chars(source_type.token(), source_id, resolver, or_empty(version)),
        ),
{
    let z = seq!['\0'];
    let t = source_type.token();
    let v = or_empty(version);
    lemma_zero_byte();
    lemma_encode_concat(t, z);
    lemma_encode_concat(t + z, source_id);
    lemma_encode_concat(t + z + source_id, z);
    lemma_encode_concat(t + z + source_id + z, resolver);
    lemma_encode_concat(t + z + source_id + z + resolver, z);
    lemma_encode_concat(t + z + source_id + z + resolver + z, v);
}

/// `s` holds no zero character.
pub open spec fn no_nul(s: Seq<char>) -> bool {
    forall|i: int| 0 <= i < s.len() ==> #[trigger] s[i] != '\0'
}

/// A part without zero characters and what follows the next zero character can
/// be told apart again.
proof fn lemma_split(a: Seq<char>, x: Seq<char>, b: Seq<char>, y: Seq<char>)
    requires
        no_nul(a),
        no_nul(b),
        a + seq!['\0'] + x == b + seq!['\0'] + y,
    ensures
        a == b,
        x == y,
{
    let s = a + seq!['\0'] + x;
    let t = b + seq!['\0'] + y;
    assert(s[a.len() as int] == '\0');
    assert(t[b.len() as int] == '\0');
    if a.len() < b.len() {
        assert(t[a.len() as int] == b[a.len() as int]);
    } else if b.len() < a.len() {
        assert(s[b.len() as int] == a[b.len() as int]);
    }
    assert(a =~= s.take(a.len() as int));
    assert(b =~= t.take(b.len() as int));
    assert(x =~= s.skip(a.len() as int + 1));
    assert(y =~= t.skip(b.len() as int + 1));
}

/// Two identities are hashed from the same bytes only where class, identifier,
/// resolver and version agree, a missing version counting as an empty one.
pub proof fn law_digest_input_tells_identities_apart(
    t1: SourceType,
    i1: Seq<char>,
    r1: Seq<char>,
    v1: Option<Seq<char>>,
    t2: SourceType,
    i2: Seq<char>,
    r2: Seq<char>,
    v2: Option<Seq<char>>,
)
    requires
        no_nul(i1),
        no_nul(r1),
        no_nul(i2),
        no_nul(r2),
        digest_input(t1, i1, r1, v1) == digest_input(t2, i2, r2, v2),
    ensures
        t1 == t2,
        i1 == i2,
        r1 == r2,
        or_empty(v1) == or_empty(v2),
{
    broadcast use vstd::utf8::encode_utf8_decode_utf8;

    let z = seq!['\0'];
    let a1 = or_empty(v1);
    let a2 = or_empty(v2);
    lemma_input_is_text(t1, i1, r1, v1);
    lemma_input_is_text(t2, i2, r2, v2);
    let s1 = input_chars(t1.token(), i1, r1, a1);
    let s2 = input_chars(t2.token(), i2, r2, a2);
    assert(vstd::utf8::decode_utf8(vstd::utf8::encode_utf8(s1)) == s1);
    assert(vstd::utf8::decode_utf8(vstd::utf8::encode_utf8(s2)) == s2);
    assert(s1 == s2);
    reveal_strlit("doi");
    reveal_strlit("arxiv");
    let x1 = i1 + z + (r1 + z + a1);
    let x2 = i2 + z + (r2 + z + a2);
    assert(s1 =~= t1.token() + z + x1);
    assert(s2 =~= t2.token() + z + x2);
    lemma_split(t1.token(), x1, t2.token(), x2);
    assert(t1.token().len() == t2.token().len());
    lemma_split(i1, r1 + z + a1, i2, r2 + z + a2);
    lemma_split(r1, a1, r2, a2);
}

/// A valid identifier holds no zero character.
pub proof fn law_identifiers_hold_no_nul(m: RefModel)
    requires
        m.valid(),
    ensures
        no_nul(m.id()),
{
    match m {
        RefModel::Doi(s) => {
            refs::lemma_doi_chars(s);
        },
        RefModel::Arxiv(s) => {
            refs::lemma_arxiv_chars(s);
        },
    }
}

/// An identity that was written is read back.
pub proof fn law_identities_are_read_back(c: CanonicalRef, v: Json, r: Option<CanonicalRef>)
    requires
        v@ == identity_json(c),
        identity_read(v, r),
    ensures
        r is Some,
        r->Some_0.source_type == c.source_type,
        r->Some_0.source_id@ == c.source_id@,
        r->Some_0.resolver_profile@ == c.resolver_profile@,
        text::opt_view(r->Some_0.version) == text::opt_view(c.version),
{
    reveal_strlit("source_type");
    reveal_strlit("source_id");
    reveal_strlit("resolver_profile");
    reveal_strlit("version");
    reveal_strlit("doi");
    reveal_strlit("arxiv");
    let m = v->Object_0@;
    let w = identity_json(c)->Object_0;
    assert(json::json_model(v)->Object_0.len() == m.len());
    assert forall|i: int| 0 <= i < 4 implies (#[trigger] m[i]).0@ == w[i].0 && m[i].1@
        == w[i].1 by {
        assert(json::json_model(v)->Object_0[i] == w[i]);
    }
    let d1 = m.drop_first();
    let d2 = d1.drop_first();
    let d3 = d2.drop_first();
    assert(d1[0] == m[1] && d2[0] == m[2] && d3[0] == m[3]);
    reveal_with_fuel(json::find_member, 5);
    assert("source_type"@.len() == 11 && "source_id"@.len() == 9);
    assert("resolver_profile"@.len() == 16 && "version"@.len() == 7);
    assert("doi"@.len() == 3 && "arxiv"@.len() == 5);
    assert(v.member("source_type"@) == Some(m[0].1));
    assert(v.member("source_id"@) == Some(m[1].1));
    assert(v.member("resolver_profile"@) == Some(m[2].1));
    assert(v.member("version"@) == Some(m[3].1));
}

/// What is hashed of an identity is one text: its kind, its identifier, its
/// resolver and its version, in this order, with a NUL between any two.
pub proof fn law_digest_inputs_are_laid_out(
    m: RefModel,
    resolver: Seq<char>,
    version: Seq<char>,
)
    ensures
        m matches RefModel::Doi(d) ==> digest_input(class_of(m), m.id(), resolver, Some(version))
            == vstd::utf8::encode_utf8(
            "doi"@ + seq!['\0'] + d + seq!['\0'] + resolver + seq!['\0'] + version,
        ),
        m matches RefModel::Arxiv(a) ==> digest_input(class_of(m), m.id(), resolver, Some(version))
            == vstd::utf8::encode_utf8(
            "arxiv"@ + seq!['\0'] + a + seq!['\0'] + resolver + seq!['\0'] + version,
        ),
{
    lemma_input_is_text(class_of(m), m.id(), resolver, Some(version));
}

} // verus!
