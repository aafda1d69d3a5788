//! Intelligence artifacts found in collected text: addresses, hashes,
//! identifiers and the like.

use vstd::prelude::*;
use crate::field::{lemma_filter_members, lemma_filter_step};
use crate::text::{
    begins, chars_of, distinct, ends, ends_with, holds, lowercase, names, push_chars, push_str,
    starts_with, string_of, to_lowercase,
};
use crate::units::{clamp_unit, spec_clamp_unit, UNIT};

verus! {

/// The kinds of artifact.
#[derive(Debug, Clone, PartialEq, Eq, Hash)]
pub enum ArtifactType {
    /// IPv4 address
    Ipv4,
    /// IPv6 address
    Ipv6,
    /// Domain name
    Domain,
    /// Onion address
    OnionAddress,
    /// Email address
    Email,
    /// MD5 hash
    Md5,
    /// SHA-1 hash
    Sha1,
    /// SHA-256 hash
    Sha256,
    /// Bitcoin address
    Bitcoin,
    /// Ethereum address
    Ethereum,
    /// Monero address
    Monero,
    /// CVE identifier
    Cve,
    /// MITRE ATT&CK technique
    MitreAttack,
    /// Threat actor name or alias
    ThreatActor,
    /// Malware name
    Malware,
    /// URL
    Url,
    /// User name or handle
    Username,
    /// Phone number
    Phone,
    /// Credit card number
    CreditCard,
    /// Anything else, by name
    Custom(String),
}

/// An artifact with where it was found and how sure the finder is.
#[derive(Debug, Clone)]
pub struct Artifact {
    /// Kind of artifact
    pub artifact_type: ArtifactType,
    /// The text that was found
    pub value: String,
    /// Surrounding text
    pub context: Option<String>,
    /// Confidence in millionths, at most [`UNIT`]
    pub confidence: u64,
    /// URL of the page it was found on
    pub source: Option<String>,
}

/// The text of an optional string.
pub open spec fn opt_text(o: Option<String>) -> Option<Seq<char>> {
    match o {
        Some(s) => Some(s@),
        None => None,
    }
}

impl ArtifactType {
    /// The name of the kind, as it is written in keys and reports: the
    /// variant's name, and `Custom("..")` around a custom name.
    pub open spec fn label(self) -> Seq<char> {
        match self {
            ArtifactType::Ipv4 => "Ipv4"@,
            ArtifactType::Ipv6 => "Ipv6"@,
            ArtifactType::Domain => "Domain"@,
            ArtifactType::OnionAddress => "OnionAddress"@,
            ArtifactType::Email => "Email"@,
            ArtifactType::Md5 => "Md5"@,
            ArtifactType::Sha1 => "Sha1"@,
            ArtifactType::Sha256 => "Sha256"@,
            ArtifactType::Bitcoin => "Bitcoin"@,
            ArtifactType::Ethereum => "Ethereum"@,
            ArtifactType::Monero => "Monero"@,
            ArtifactType::Cve => "Cve"@,
            ArtifactType::MitreAttack => "MitreAttack"@,
            ArtifactType::ThreatActor => "ThreatActor"@,
            ArtifactType::Malware => "Malware"@,
            ArtifactType::Url => "Url"@,
            ArtifactType::Username => "Username"@,
            ArtifactType::Phone => "Phone"@,
            ArtifactType::CreditCard => "CreditCard"@,
            ArtifactType::Custom(name) => "Custom("@ + crate::canonical::json_string(name@) + ")"@,
        }
    }

    /// The name of the kind as a text.
    pub fn label_text(&self) -> (r: Vec<char>)
        ensures
            r@ == self.label(),
    {
        match self {
            ArtifactType::Ipv4 => chars_of("Ipv4"),
            ArtifactType::Ipv6 => chars_of("Ipv6"),
            ArtifactType::Domain => chars_of("Domain"),
            ArtifactType::OnionAddress => chars_of("OnionAddress"),
            ArtifactType::Email => chars_of("Email"),
            ArtifactType::Md5 => chars_of("Md5"),
            ArtifactType::Sha1 => chars_of("Sha1"),
            ArtifactType::Sha256 => chars_of("Sha256"),
            ArtifactType::Bitcoin => chars_of("Bitcoin"),
            ArtifactType::Ethereum => chars_of("Ethereum"),
            ArtifactType::Monero => chars_of("Monero"),
            ArtifactType::Cve => chars_of("Cve"),
            ArtifactType::MitreAttack => chars_of("MitreAttack"),
            ArtifactType::ThreatActor => chars_of("ThreatActor"),
            ArtifactType::Malware => chars_of("Malware"),
            ArtifactType::Url => chars_of("Url"),
            ArtifactType::Username => chars_of("Username"),
            ArtifactType::Phone => chars_of("Phone"),
            ArtifactType::CreditCard => chars_of("CreditCard"),
            ArtifactType::Custom(name) => {
                let mut r = chars_of("Custom(");
                let q = crate::canonical::quote(name.as_str());
                push_chars(&mut r, &q);
                push_str(&mut r, ")");
                r
            },
        }
    }

    /// A copy of the kind.
    pub fn duplicate(&self) -> (r: ArtifactType)
        ensures
            r == *self,
    {
        match self {
            ArtifactType::Ipv4 => ArtifactType::Ipv4,
            ArtifactType::Ipv6 => ArtifactType::Ipv6,
            ArtifactType::Domain => ArtifactType::Domain,
            ArtifactType::OnionAddress => ArtifactType::OnionAddress,
            ArtifactType::Email => ArtifactType::Email,
            ArtifactType::Md5 => ArtifactType::Md5,
            ArtifactType::Sha1 => ArtifactType::Sha1,
            ArtifactType::Sha256 => ArtifactType::Sha256,
            ArtifactType::Bitcoin => ArtifactType::Bitcoin,
            ArtifactType::Ethereum => ArtifactType::Ethereum,
            ArtifactType::Monero => ArtifactType::Monero,
            ArtifactType::Cve => ArtifactType::Cve,
            ArtifactType::MitreAttack => ArtifactType::MitreAttack,
            ArtifactType::ThreatActor => ArtifactType::ThreatActor,
            ArtifactType::Malware => ArtifactType::Malware,
            ArtifactType::Url => ArtifactType::Url,
            ArtifactType::Username => ArtifactType::Username,
            ArtifactType::Phone => ArtifactType::Phone,
            ArtifactType::CreditCard => ArtifactType::CreditCard,
            ArtifactType::Custom(name) => ArtifactType::Custom(name.clone()),
        }
    }
}

/// What an artifact says, apart from how its texts are stored.
pub struct ArtifactModel {
    pub kind: ArtifactType,
    pub value: Seq<char>,
    pub context: Option<Seq<char>>,
    pub confidence: nat,
    pub source: Option<Seq<char>>,
}

/// The model of each artifact of a list.
pub open spec fn models(v: Seq<Artifact>) -> Seq<ArtifactModel> {
    v.map_values(|a: Artifact| a.model())
}

impl Artifact {
    /// What the artifact says.
    pub open spec fn model(&self) -> ArtifactModel {
        ArtifactModel {
            kind: self.artifact_type,
            value: self.value@,
            context: opt_text(self.context),
            confidence: self.confidence as nat,
            source: opt_text(self.source),
        }
    }

    /// The confidence is at most one.
    pub open spec fn wf(&self) -> bool {
        self.confidence <= UNIT
    }

    /// An artifact of full confidence, without context or source.
    pub fn new(artifact_type: ArtifactType, value: String) -> (a: Artifact)
        ensures
            a == (Artifact { artifact_type, value, context: None, confidence: UNIT, source: None }),
            a.wf(),
    {
        Artifact { artifact_type, value, context: None, confidence: UNIT, source: None }
    }

    /// The same artifact with `context` as its surrounding text.
    pub fn with_context(self, context: &str) -> (a: Artifact)
        ensures
            opt_text(a.context) == Some(context@),
            a == (Artifact { context: a.context, ..self }),
    {
        Artifact { context: Some(context.to_owned()), ..self }
    }

    /// The same artifact with `confidence`, limited to one.
    pub fn with_confidence(self, confidence: u64) -> (a: Artifact)
        ensures
            a == (Artifact { confidence: spec_clamp_unit(confidence as nat) as u64, ..self }),
            a.wf(),
    {
        Artifact { confidence: clamp_unit(confidence), ..self }
    }

    /// The same artifact with `source` as the page it was found on.
    pub fn with_source(self, source: &str) -> (a: Artifact)
        ensures
            opt_text(a.source) == Some(source@),
            a == (Artifact { source: a.source, ..self }),
    {
        Artifact { source: Some(source.to_owned()), ..self }
    }

    /// A copy of the artifact.
    pub fn duplicate(&self) -> (a: Artifact)
        ensures
            a == *self,
    {
        Artifact {
            artifact_type: self.artifact_type.duplicate(),
            value: self.value.clone(),
            context: copy_opt(&self.context),
            confidence: self.confidence,
            source: copy_opt(&self.source),
        }
    }
}

/// A copy of an optional text.
pub fn copy_opt(o: &Option<String>) -> (r: Option<String>)
    ensures
        r == *o,
{
    match o {
        Some(s) => Some(s.clone()),
        None => None,
    }
}

/// Onion addresses.
pub const ONION_PATTERN: &'static str = r"\b[a-z2-7]{16,56}\.onion\b";

/// URLs.
pub const URL_PATTERN: &'static str = r#"https?://[^\s<>"']+"#;

/// Bitcoin addresses.
pub const BITCOIN_PATTERN: &'static str = r"\b(?:bc1|[13])[a-zA-HJ-NP-Z0-9]{25,39}\b";

/// Ethereum addresses.
pub const ETHEREUM_PATTERN: &'static str = r"\b0x[a-fA-F0-9]{40}\b";

/// Monero addresses.
pub const MONERO_PATTERN: &'static str = r"\b4[0-9AB][1-9A-HJ-NP-Za-km-z]{93}\b";

/// SHA-256 digests in hexadecimal.
pub const SHA256_PATTERN: &'static str = r"\b[a-fA-F0-9]{64}\b";

/// SHA-1 digests in hexadecimal.
pub const SHA1_PATTERN: &'static str = r"\b[a-fA-F0-9]{40}\b";

/// MD5 digests in hexadecimal.
pub const MD5_PATTERN: &'static str = r"\b[a-fA-F0-9]{32}\b";

/// CVE identifiers.
pub const CVE_PATTERN: &'static str = r"\bCVE-\d{4}-\d{4,}\b";

/// MITRE ATT&CK technique and software identifiers.
pub const MITRE_PATTERN: &'static str = r"\b[TS]\d{4}(?:\.\d{3})?\b";

/// Email addresses.
pub const EMAIL_PATTERN: &'static str = r"\b[A-Za-z0-9._%+-]+@[A-Za-z0-9.-]+\.[A-Za-z]{2,}\b";

/// IPv4 addresses.
pub const IPV4_PATTERN: &'static str =
    r"\b(?:(?:25[0-5]|2[0-4][0-9]|[01]?[0-9][0-9]?)\.){3}(?:25[0-5]|2[0-4][0-9]|[01]?[0-9][0-9]?)\b";

/// Domain names.
pub const DOMAIN_PATTERN: &'static str =
    r"\b(?:[a-zA-Z0-9](?:[a-zA-Z0-9-]{0,61}[a-zA-Z0-9])?\.)+[a-zA-Z]{2,}\b";

/// The matches of a regular expression in a text, from the left and
/// without overlap, as `regex::Regex::find_iter` yields them; `None` where
/// `regex::Regex::new` refuses the pattern.
pub uninterp spec fn regex_matches(pattern: Seq<char>, text: Seq<char>) -> Option<Seq<Seq<char>>>;

/// Compiles `pattern` with `regex::Regex::new` and collects the texts of
/// the matches that `find_iter` yields in `text`. Both depend on their
/// arguments alone.
#[verifier::external_body]
pub(crate) fn find_all(pattern: &str, text: &str) -> (r: Option<Vec<String>>)
    ensures
        match r {
            Some(v) => regex_matches(pattern@, text@) == Some(names(v@)),
            None => regex_matches(pattern@, text@) is None,
        },
{
    regex::Regex::new(pattern).ok().map(
        |re| re.find_iter(text).map(|m| m.as_str().to_string()).collect(),
    )
}

/// The matches of `pattern` in `text`; none where the pattern is refused.
pub open spec fn matches_of(pattern: Seq<char>, text: Seq<char>) -> Seq<Seq<char>> {
    match regex_matches(pattern, text) {
        Some(m) => m,
        None => Seq::empty(),
    }
}

/// The matches of `pattern` in `text`; none where the pattern is refused.
pub fn matches_in(pattern: &str, text: &str) -> (r: Vec<String>)
    ensures
        names(r@) == matches_of(pattern@, text@),
{
    match find_all(pattern, text) {
        Some(v) => v,
        None => {
            let v: Vec<String> = Vec::new();
            assert(names(v@) =~= Seq::<Seq<char>>::empty());
            v
        },
    }
}

/// Whether `domain` ends with one of the well-known domains that are of no
/// interest.
pub open spec fn is_common(domain: Seq<char>) -> bool {
    ||| ends_with(domain, "google.com"@)
    ||| ends_with(domain, "facebook.com"@)
    ||| ends_with(domain, "twitter.com"@)
    ||| ends_with(domain, "github.com"@)
    ||| ends_with(domain, "microsoft.com"@)
    ||| ends_with(domain, "apple.com"@)
    ||| ends_with(domain, "amazon.com"@)
    ||| ends_with(domain, "youtube.com"@)
    ||| ends_with(domain, "linkedin.com"@)
    ||| ends_with(domain, "instagram.com"@)
    ||| ends_with(domain, "wikipedia.org"@)
    ||| ends_with(domain, "reddit.com"@)
}

/// Whether `domain` is one of the well-known domains or lies under one.
pub fn is_common_domain(domain: &str) -> (r: bool)
    ensures
        r == is_common(domain@),
{
    let d = chars_of(domain);
    ends(&d, "google.com") || ends(&d, "facebook.com") || ends(&d, "twitter.com") || ends(
        &d,
        "github.com",
    ) || ends(&d, "microsoft.com") || ends(&d, "apple.com") || ends(&d, "amazon.com") || ends(
        &d,
        "youtube.com",
    ) || ends(&d, "linkedin.com") || ends(&d, "instagram.com") || ends(&d, "wikipedia.org")
        || ends(&d, "reddit.com")
}

/// What a match has to pass besides its pattern.
#[derive(Debug, Clone, Copy, PartialEq, Eq, Structural)]
pub enum Rule {
    /// Nothing
    Any,
    /// Not to be a SHA-256 digest found in the same text
    NotSha256,
    /// Neither to begin with `0.` nor to be `127.0.0.1`
    PublicAddress,
    /// Neither an onion address nor a well-known domain
    ForeignDomain,
}

/// The lower-case forms of the SHA-256 digests in `text`.
pub open spec fn sha256_lowered(text: Seq<char>) -> Seq<Seq<char>> {
    matches_of(SHA256_PATTERN@, text).map_values(|v: Seq<char>| lowercase(v))
}

/// Whether the match `value` in `text` passes `rule`.
pub open spec fn admits(rule: Rule, value: Seq<char>, text: Seq<char>) -> bool {
    match rule {
        Rule::Any => true,
        Rule::NotSha256 => !sha256_lowered(text).contains(lowercase(value)),
        Rule::PublicAddress => !starts_with(value, "0."@) && value != "127.0.0.1"@,
        Rule::ForeignDomain => !is_common(lowercase(value)) && !ends_with(
            lowercase(value),
            ".onion"@,
        ),
    }
}

/// A match on its way to becoming an artifact.
pub struct Candidate {
    pub kind: ArtifactType,
    pub value: Seq<char>,
    pub confidence: nat,
}

/// The candidates of one pattern: its matches in `text` that pass `rule`.
pub open spec fn segment(
    text: Seq<char>,
    pattern: Seq<char>,
    kind: ArtifactType,
    confidence: nat,
    rule: Rule,
) -> Seq<Candidate> {
    matches_of(pattern, text).filter(|v: Seq<char>| admits(rule, v, text)).map_values(
        |v: Seq<char>| Candidate { kind, value: v, confidence },
    )
}

/// All candidates of a text, pattern after pattern: onion addresses, URLs,
/// coin addresses, digests from the longest down, identifiers, email and
/// IP addresses, and domains last.
pub open spec fn candidates(text: Seq<char>) -> Seq<Candidate> {
    segment(text, ONION_PATTERN@, ArtifactType::OnionAddress, 1_000_000, Rule::Any)
        + segment(text, URL_PATTERN@, ArtifactType::Url, 900_000, Rule::Any)
        + segment(text, BITCOIN_PATTERN@, ArtifactType::Bitcoin, 950_000, Rule::Any)
        + segment(text, ETHEREUM_PATTERN@, ArtifactType::Ethereum, 950_000, Rule::Any)
        + segment(text, MONERO_PATTERN@, ArtifactType::Monero, 950_000, Rule::Any)
        + segment(text, SHA256_PATTERN@, ArtifactType::Sha256, 900_000, Rule::Any)
        + segment(text, SHA1_PATTERN@, ArtifactType::Sha1, 850_000, Rule::NotSha256)
        + segment(text, MD5_PATTERN@, ArtifactType::Md5, 800_000, Rule::Any)
        + segment(text, CVE_PATTERN@, ArtifactType::Cve, 1_000_000, Rule::Any)
        + segment(text, MITRE_PATTERN@, ArtifactType::MitreAttack, 900_000, Rule::Any)
        + segment(text, EMAIL_PATTERN@, ArtifactType::Email, 950_000, Rule::Any)
        + segment(text, IPV4_PATTERN@, ArtifactType::Ipv4, 850_000, Rule::PublicAddress)
        + segment(text, DOMAIN_PATTERN@, ArtifactType::Domain, 700_000, Rule::ForeignDomain)
}

/// The key under which an artifact is told from others: its kind and its
/// value in lower case.
pub open spec fn key_of(kind: ArtifactType, value: Seq<char>) -> Seq<char> {
    kind.label() + seq![':'] + lowercase(value)
}

/// The candidates without those whose key an earlier one has.
pub open spec fn first_of_each(c: Seq<Candidate>) -> Seq<Candidate>
    decreases c.len(),
{
    if c.len() == 0 {
        Seq::empty()
    } else {
        let before = first_of_each(c.drop_last());
        if candidate_keys(before).contains(key_of(c.last().kind, c.last().value)) {
            before
        } else {
            before.push(c.last())
        }
    }
}

/// The key of each candidate.
pub open spec fn candidate_keys(c: Seq<Candidate>) -> Seq<Seq<char>> {
    c.map_values(|x: Candidate| key_of(x.kind, x.value))
}

/// The artifact that a candidate found under `source` becomes.
pub open spec fn artifact_of(c: Candidate, source: Option<Seq<char>>) -> ArtifactModel {
    ArtifactModel {
        kind: c.kind,
        value: c.value,
        context: None,
        confidence: c.confidence,
        source,
    }
}

/// The artifacts of a text found under `source`: its candidates, each key
/// once, in the order in which they were found.
pub open spec fn extracted(text: Seq<char>, source: Option<Seq<char>>) -> Seq<ArtifactModel> {
    first_of_each(candidates(text)).map_values(|c: Candidate| artifact_of(c, source))
}

/// A match with its kind and confidence.
pub struct Found {
    pub kind: ArtifactType,
    pub value: String,
    pub confidence: u64,
}

impl Found {
    /// The match as a candidate.
    pub open spec fn candidate(&self) -> Candidate {
        Candidate { kind: self.kind, value: self.value@, confidence: self.confidence as nat }
    }
}

/// Every match has a confidence of at most one and a kind of the fixed
/// list.
pub open spec fn plain(v: Seq<Found>) -> bool {
    forall|k: int| 0 <= k < v.len() ==> (#[trigger] v[k]).confidence <= UNIT && !(v[k].kind is Custom)
}

/// The candidate of each match.
pub open spec fn found(v: Seq<Found>) -> Seq<Candidate> {
    v.map_values(|f: Found| f.candidate())
}

/// The text of an optional reference to a text.
pub open spec fn opt_str(o: Option<&str>) -> Option<Seq<char>> {
    match o {
        Some(s) => Some(s@),
        None => None,
    }
}

/// The key of an artifact of kind `kind` and value `value`.
pub fn artifact_key(kind: &ArtifactType, value: &str) -> (r: String)
    ensures
        r@ == key_of(*kind, value@),
{
    let mut k = kind.label_text();
    k.push(':');
    let low = to_lowercase(value);
    push_str(&mut k, low.as_str());
    string_of(&k)
}

/// Whether the match `value` passes `rule`, given the lower-case forms of
/// the SHA-256 digests of the text.
fn passes(rule: Rule, value: &str, digests: &Vec<String>, Ghost(text): Ghost<Seq<char>>) -> (r: bool)
    requires
        names(digests@) == sha256_lowered(text),
    ensures
        r == admits(rule, value@, text),
{
    match rule {
        Rule::Any => true,
        Rule::NotSha256 => {
            let low = to_lowercase(value);
            !holds(digests, low.as_str())
        },
        Rule::PublicAddress => {
            let v = chars_of(value);
            !begins(&v, "0.") && !crate::text::same_text(value, "127.0.0.1")
        },
        Rule::ForeignDomain => {
            let low = to_lowercase(value);
            let v = chars_of(low.as_str());
            !is_common_domain(low.as_str()) && !ends(&v, ".onion")
        },
    }
}

/// Appends the candidates of one pattern to `out`.
fn gather(
    out: &mut Vec<Found>,
    text: &str,
    pattern: &str,
    kind: ArtifactType,
    confidence: u64,
    rule: Rule,
    digests: &Vec<String>,
)
    requires
        names(digests@) == sha256_lowered(text@),
        !(kind is Custom),
        confidence <= UNIT,
        plain(old(out)@),
    ensures
        plain(final(out)@),
        found(final(out)@) == found(old(out)@) + segment(
            text@,
            pattern@,
            kind,
            confidence as nat,
            rule,
        ),
{
    let hits = matches_in(pattern, text);
    let ghost all = names(hits@);
    let ghost p = |v: Seq<char>| admits(rule, v, text@);
    let ghost f = |v: Seq<char>| (Candidate { kind, value: v, confidence: confidence as nat });
    let ghost base = found(out@);
    let mut hits = hits;
    let mut i: usize = 0;
    let n = hits.len();
    proof {
        reveal(Seq::filter);
        assert(all.take(0) =~= Seq::<Seq<char>>::empty());
        assert(found(out@) =~= base + all.take(0).filter(p).map_values(f));
    }
    while i < n
        invariant
            i <= n,
            n == hits@.len(),
            all == names(hits@),
            names(digests@) == sha256_lowered(text@),
            !(kind is Custom),
            confidence <= UNIT,
            plain(out@),
            p == |v: Seq<char>| admits(rule, v, text@),
            f == |v: Seq<char>| (Candidate { kind, value: v, confidence: confidence as nat }),
            found(out@) == base + all.take(i as int).filter(p).map_values(f),
        decreases n - i,
    {
        let ok = passes(rule, hits[i].as_str(), digests, Ghost(text@));
        proof {
            lemma_filter_step(all, i as int, p);
            assert(all[i as int] == hits@[i as int]@);
        }
        if ok {
            let ghost before = found(out@);
            let value = hits[i].clone();
            out.push(Found { kind: kind.duplicate(), value, confidence });
            assert(found(out@) =~= before.push(f(all[i as int])));
            assert(found(out@) =~= base + all.take(i + 1).filter(p).map_values(f));
        }
        i += 1;
    }
    assert(all.take(n as int) =~= all);
}

/// Adds an artifact of the given kind, value and confidence to `artifacts`
/// unless `seen` holds its key already, and notes the key in `seen`.
pub fn try_add_artifact(
    artifacts: &mut Vec<Artifact>,
    seen: &mut Vec<String>,
    artifact_type: ArtifactType,
    value: &str,
    confidence: u64,
    source: Option<&str>,
)
    ensures
        names(old(seen)@).contains(key_of(artifact_type, value@)) ==> {
            &&& final(artifacts)@ == old(artifacts)@
            &&& final(seen)@ == old(seen)@
        },
        !names(old(seen)@).contains(key_of(artifact_type, value@)) ==> {
            &&& names(final(seen)@) == names(old(seen)@).push(key_of(artifact_type, value@))
            &&& models(final(artifacts)@) == models(old(artifacts)@).push(
                ArtifactModel {
                    kind: artifact_type,
                    value: value@,
                    context: None,
                    confidence: spec_clamp_unit(confidence as nat),
                    source: opt_str(source),
                },
            )
        },
{
    let key = artifact_key(&artifact_type, value);
    if holds(seen, key.as_str()) {
        return ;
    }
    let ghost keys = names(seen@);
    let ghost before = models(artifacts@);
    seen.push(key);
    assert(names(seen@) =~= keys.push(key_of(artifact_type, value@)));
    let mut artifact = Artifact::new(artifact_type, value.to_owned()).with_confidence(confidence);
    match source {
        Some(src) => {
            artifact = artifact.with_source(src);
        },
        None => {},
    }
    artifacts.push(artifact);
    assert(models(artifacts@) =~= before.push(artifact.model()));
}

/// The artifacts of `text`, each key once, in the order in which the
/// patterns find them.
pub fn extract_artifacts(text: &str, source: Option<&str>) -> (r: Vec<Artifact>)
    ensures
        models(r@) == extracted(text@, opt_str(source)),
{
    let raw = matches_in(SHA256_PATTERN, text);
    let mut digests: Vec<String> = Vec::new();
    let mut j: usize = 0;
    while j < raw.len()
        invariant
            j <= raw.len(),
            digests@.len() == j,
            forall|k: int| 0 <= k < j ==> (#[trigger] digests@[k])@ == lowercase(raw@[k]@),
        decreases raw.len() - j,
    {
        digests.push(to_lowercase(raw[j].as_str()));
        j += 1;
    }
    assert(names(digests@) =~= sha256_lowered(text@));

    let mut all: Vec<Found> = Vec::new();
    assert(found(all@) =~= Seq::<Candidate>::empty());
    gather(&mut all, text, ONION_PATTERN, ArtifactType::OnionAddress, 1_000_000, Rule::Any, &digests);
    gather(&mut all, text, URL_PATTERN, ArtifactType::Url, 900_000, Rule::Any, &digests);
    gather(&mut all, text, BITCOIN_PATTERN, ArtifactType::Bitcoin, 950_000, Rule::Any, &digests);
    gather(&mut all, text, ETHEREUM_PATTERN, ArtifactType::Ethereum, 950_000, Rule::Any, &digests);
    gather(&mut all, text, MONERO_PATTERN, ArtifactType::Monero, 950_000, Rule::Any, &digests);
    gather(&mut all, text, SHA256_PATTERN, ArtifactType::Sha256, 900_000, Rule::Any, &digests);
    gather(&mut all, text, SHA1_PATTERN, ArtifactType::Sha1, 850_000, Rule::NotSha256, &digests);
    gather(&mut all, text, MD5_PATTERN, ArtifactType::Md5, 800_000, Rule::Any, &digests);
    gather(&mut all, text, CVE_PATTERN, ArtifactType::Cve, 1_000_000, Rule::Any, &digests);
    gather(&mut all, text, MITRE_PATTERN, ArtifactType::MitreAttack, 900_000, Rule::Any, &digests);
    gather(&mut all, text, EMAIL_PATTERN, ArtifactType::Email, 950_000, Rule::Any, &digests);
    gather(&mut all, text, IPV4_PATTERN, ArtifactType::Ipv4, 850_000, Rule::PublicAddress, &digests);
    gather(&mut all, text, DOMAIN_PATTERN, ArtifactType::Domain, 700_000, Rule::ForeignDomain, &digests);
    assert(found(all@) =~= candidates(text@));

    let ghost c = found(all@);
    let ghost src = opt_str(source);
    let ghost g = |x: Candidate| artifact_of(x, src);
    let mut artifacts: Vec<Artifact> = Vec::new();
    let mut seen: Vec<String> = Vec::new();
    let mut i: usize = 0;
    proof {
        assert(c.take(0) =~= Seq::<Candidate>::empty());
        assert(models(artifacts@) =~= first_of_each(c.take(0)).map_values(g));
        assert(names(seen@) =~= candidate_keys(first_of_each(c.take(0))));
    }
    while i < all.len()
        invariant
            i <= all.len(),
            c == found(all@),
            src == opt_str(source),
            g == |x: Candidate| artifact_of(x, src),
            plain(all@),
            models(artifacts@) == first_of_each(c.take(i as int)).map_values(g),
            names(seen@) == candidate_keys(first_of_each(c.take(i as int))),
        decreases all.len() - i,
    {
        let item = &all[i];
        proof {
            assert(c.take(i + 1).drop_last() =~= c.take(i as int));
            assert(c.take(i + 1).last() == item.candidate());
        }
        let ghost kept = first_of_each(c.take(i as int));
        try_add_artifact(
            &mut artifacts,
            &mut seen,
            item.kind.duplicate(),
            item.value.as_str(),
            item.confidence,
            source,
        );
        proof {
            let key = key_of(item.kind, item.value@);
            if !candidate_keys(kept).contains(key) {
                assert(first_of_each(c.take(i + 1)) == kept.push(item.candidate()));
                assert(candidate_keys(kept.push(item.candidate())) =~= candidate_keys(kept).push(
                    key,
                ));
                assert(kept.push(item.candidate()).map_values(g) =~= kept.map_values(g).push(
                    g(item.candidate()),
                ));
            }
        }
        i += 1;
    }
    assert(c.take(all@.len() as int) =~= c);
    artifacts
}

/// Two extractions from one text under one source agree.
pub proof fn lemma_extract_deterministic(
    a: Seq<Artifact>,
    b: Seq<Artifact>,
    text: Seq<char>,
    source: Option<Seq<char>>,
)
    requires
        models(a) == extracted(text, source),
        models(b) == extracted(text, source),
    ensures
        models(a) == models(b),
        a.len() == b.len(),
{
    assert(models(a).len() == a.len());
    assert(models(b).len() == b.len());
}

/// What is kept of a sequence of candidates comes from it, and no key is
/// kept twice.
pub proof fn lemma_first_of_each(c: Seq<Candidate>)
    ensures
        forall|k: int|
            0 <= k < first_of_each(c).len() ==> c.contains(#[trigger] first_of_each(c)[k]),
        distinct(candidate_keys(first_of_each(c))),
    decreases c.len(),
{
    if c.len() > 0 {
        let init = c.drop_last();
        let before = first_of_each(init);
        let kept = first_of_each(c);
        lemma_first_of_each(init);
        assert forall|k: int| 0 <= k < kept.len() implies c.contains(#[trigger] kept[k]) by {
            if k < before.len() {
                assert(kept[k] == before[k]);
                assert(init.contains(before[k]));
                let m = choose|m: int| 0 <= m < init.len() && init[m] == before[k];
                assert(c[m] == before[k]);
            } else {
                assert(kept[k] == c[c.len() - 1]);
            }
        }
        if kept != before {
            assert(candidate_keys(kept) =~= candidate_keys(before).push(
                key_of(c.last().kind, c.last().value),
            ));
        }
    }
}

/// The rule that the matches of a kind have to pass.
pub open spec fn rule_of(kind: ArtifactType) -> Rule {
    match kind {
        ArtifactType::Sha1 => Rule::NotSha256,
        ArtifactType::Ipv4 => Rule::PublicAddress,
        ArtifactType::Domain => Rule::ForeignDomain,
        _ => Rule::Any,
    }
}

/// Every candidate of a text has passed the rule of its kind.
pub proof fn lemma_candidates_admitted(text: Seq<char>, c: Candidate)
    requires
        candidates(text).contains(c),
    ensures
        admits(rule_of(c.kind), c.value, text),
{
    let sha1 = matches_of(SHA1_PATTERN@, text);
    let ipv4 = matches_of(IPV4_PATTERN@, text);
    let domain = matches_of(DOMAIN_PATTERN@, text);
    lemma_filter_members(sha1, |v: Seq<char>| admits(Rule::NotSha256, v, text));
    lemma_filter_members(ipv4, |v: Seq<char>| admits(Rule::PublicAddress, v, text));
    lemma_filter_members(domain, |v: Seq<char>| admits(Rule::ForeignDomain, v, text));
}

/// An extraction holds no key twice, and each of its artifacts has passed
/// the rule of its kind: no SHA-1 artifact is a SHA-256 digest of the
/// text, no IPv4 artifact begins with `0.` or is `127.0.0.1`, and no domain
/// artifact is an onion address or a well-known domain.
pub proof fn lemma_extracted_admitted(text: Seq<char>, source: Option<Seq<char>>)
    ensures
        distinct(
            extracted(text, source).map_values(|a: ArtifactModel| key_of(a.kind, a.value)),
        ),
        forall|k: int|
            0 <= k < extracted(text, source).len() ==> admits(
                rule_of((#[trigger] extracted(text, source)[k]).kind),
                extracted(text, source)[k].value,
                text,
            ),
{
    let kept = first_of_each(candidates(text));
    let out = extracted(text, source);
    lemma_first_of_each(candidates(text));
    assert(out.map_values(|a: ArtifactModel| key_of(a.kind, a.value)) =~= candidate_keys(kept));
    assert forall|k: int| 0 <= k < out.len() implies admits(
        rule_of((#[trigger] out[k]).kind),
        out[k].value,
        text,
    ) by {
        assert(candidates(text).contains(kept[k]));
        lemma_candidates_admitted(text, kept[k]);
    }
}

} // verus!
