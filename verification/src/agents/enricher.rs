//! The enricher: asks outside search services what they know of the
//! artifacts that were found.

use vstd::prelude::*;
use vstd::utf8::encode_utf8;
use crate::agents::analyst::{derefs, flatten, flattened};
use crate::agents::traits::{
    delivered, emit_all, is_success, note, noted, pulse, pulsed, success, AgentConfig, AgentError,
    Header, Outgoing, Reply, Request, Step, HEARTBEAT_TTL,
};
use crate::artifacts::{copy_opt, opt_text, Artifact, ArtifactType};
use crate::field::{lemma_filter_step, of_kind, refs, Field};
use crate::json::{column, json_texts, optional_texts, required_texts, texts_at};
use crate::search_engines::hex_upper;
use crate::signals::{AgentType, EnrichmentFinding, OsintPayload, PayloadKind, Signal};
use crate::text::{
    chars_of, decimal, holds, names, push_decimal, push_str, string_of, text_of,
};
use crate::units::UNIT;

verus! {

/// Least effective intensity of an extraction that is enriched: 0.3.
pub const ENRICH_THRESHOLD: u64 = 300_000;

/// Confidence of an enrichment: 0.7.
pub const ENRICH_CONFIDENCE: u64 = 700_000;

/// Lifetime of an enrichment: 120 seconds.
pub const ENRICH_TTL: u64 = 120_000;

/// Relevance of a finding on GitHub: 0.8.
pub const GITHUB_RELEVANCE: u64 = 800_000;

/// Relevance of a finding on the web: 0.7.
pub const BRAVE_RELEVANCE: u64 = 700_000;

/// Settings of the outside search services.
#[derive(Debug, Clone)]
pub struct EnrichmentConfig {
    /// Token for GitHub
    pub github_token: Option<String>,
    /// Key for Brave Search
    pub brave_api_key: Option<String>,
    /// Most findings taken for an artifact from one service
    pub max_results_per_artifact: usize,
    /// Whether GitHub is asked
    pub enable_github: bool,
    /// Whether Brave Search is asked
    pub enable_brave: bool,
}

impl Default for EnrichmentConfig {
    /// Both services in use, five findings each, and no token or key.
    fn default() -> (c: EnrichmentConfig)
        ensures
            c.github_token is None,
            c.brave_api_key is None,
            c.max_results_per_artifact == 5,
            c.enable_github,
            c.enable_brave,
    {
        EnrichmentConfig {
            github_token: None,
            brave_api_key: None,
            max_results_per_artifact: 5,
            enable_github: true,
            enable_brave: true,
        }
    }
}

impl EnrichmentConfig {
    /// The default settings with the token for GitHub and the key for
    /// Brave Search that the environment holds, where it holds them.
    pub fn with_keys(github_token: Option<String>, brave_api_key: Option<String>) -> (c:
        EnrichmentConfig)
        ensures
            c.github_token == github_token,
            c.brave_api_key == brave_api_key,
            c.max_results_per_artifact == 5,
            c.enable_github,
            c.enable_brave,
    {
        EnrichmentConfig {
            github_token,
            brave_api_key,
            max_results_per_artifact: 5,
            enable_github: true,
            enable_brave: true,
        }
    }

    /// A copy of the settings.
    pub fn duplicate(&self) -> (c: EnrichmentConfig)
        ensures
            c == *self,
    {
        EnrichmentConfig {
            github_token: copy_opt(&self.github_token),
            brave_api_key: copy_opt(&self.brave_api_key),
            max_results_per_artifact: self.max_results_per_artifact,
            enable_github: self.enable_github,
            enable_brave: self.enable_brave,
        }
    }
}

/// An outside search service.
#[derive(Debug, Clone, Copy, PartialEq, Eq, Structural)]
pub enum Source {
    Github,
    Brave,
}

/// A question that is out.
#[derive(Debug)]
pub struct Inquiry {
    pub artifact: Artifact,
    pub source: Source,
}

/// The enricher.
pub struct EnrichmentAgent {
    pub config: AgentConfig,
    pub enrichment_config: EnrichmentConfig,
    /// The keys of the artifacts that were asked about
    pub processed_artifacts: Vec<String>,
    /// The questions that are out, in the order of the requests
    pub pending: Option<Vec<Inquiry>>,
}

/// A byte that stands for itself in an address.
pub open spec fn is_plain_byte(b: u8) -> bool {
    ||| 0x30 <= b <= 0x39
    ||| 0x41 <= b <= 0x5A
    ||| 0x61 <= b <= 0x7A
    ||| b == 0x2D
    ||| b == 0x2E
    ||| b == 0x5F
    ||| b == 0x7E
}

/// The bytes as they are written in an address: letters, digits and
/// `-`, `.`, `_`, `~` as themselves, every other byte as `%` with its two
/// upper-case hexadecimal digits.
pub open spec fn percent_encode(bytes: Seq<u8>) -> Seq<char>
    decreases bytes.len(),
{
    if bytes.len() == 0 {
        Seq::empty()
    } else {
        let b = bytes.last();
        let head = percent_encode(bytes.drop_last());
        if is_plain_byte(b) {
            head.push(b as char)
        } else {
            head.push('%').push(hex_upper((b / 16) as nat)).push(hex_upper((b % 16) as nat))
        }
    }
}

/// Calls `urlencoding::encode`, which percent-encodes every byte of the
/// text's UTF-8 form except letters, digits and `-`, `_`, `.`, `~`, with
/// upper-case hexadecimal digits.
#[verifier::external_body]
pub(crate) fn encode(s: &str) -> (r: String)
    ensures
        r@ == percent_encode(encode_utf8(s@)),
{
    urlencoding::encode(s).into_owned()
}

/// Whether artifacts of this kind are asked about.
pub open spec fn worth(kind: ArtifactType) -> bool {
    ||| kind is Email
    ||| kind is Username
    ||| kind is Domain
    ||| kind is Ipv4
    ||| kind is Ipv6
    ||| kind is Sha256
    ||| kind is Sha1
    ||| kind is Md5
    ||| kind is Bitcoin
    ||| kind is Ethereum
}

/// The key under which an artifact counts as asked about: kind and value.
pub open spec fn enrichment_key(a: Artifact) -> Seq<char> {
    a.artifact_type.label() + seq![':'] + a.value@
}

/// The value between quotation marks.
pub open spec fn quoted(v: Seq<char>) -> Seq<char> {
    seq!['"'] + v + seq!['"']
}

/// What GitHub is asked about an artifact.
pub open spec fn github_query_of(a: Artifact) -> Option<Seq<char>> {
    if a.artifact_type is Username {
        Some(quoted(a.value@) + " OR author:"@ + a.value@)
    } else if worth(a.artifact_type) {
        Some(quoted(a.value@))
    } else {
        None
    }
}

/// What the web is asked about an artifact.
pub open spec fn brave_query_of(a: Artifact) -> Seq<char> {
    quoted(a.value@) + match a.artifact_type {
        ArtifactType::Email => " data breach leak"@,
        ArtifactType::Username => " hacker forum profile"@,
        ArtifactType::Domain => " malware infrastructure"@,
        ArtifactType::Ipv4 => " threat intelligence"@,
        ArtifactType::Ipv6 => " threat intelligence"@,
        ArtifactType::Sha256 => " malware analysis"@,
        ArtifactType::Sha1 => " malware analysis"@,
        ArtifactType::Md5 => " malware analysis"@,
        ArtifactType::Bitcoin => " ransomware bitcoin"@,
        ArtifactType::Ethereum => " cryptocurrency scam"@,
        _ => Seq::empty(),
    }
}

/// The address of GitHub's code search for `query`.
pub open spec fn github_url(query: Seq<char>, max: nat) -> Seq<char> {
    "https://api.github.com/search/code?q="@ + percent_encode(encode_utf8(query)) + "&per_page="@
        + decimal(max)
}

/// The address of Brave's web search for `query`.
pub open spec fn brave_url(query: Seq<char>, max: nat) -> Seq<char> {
    "https://api.search.brave.com/res/v1/web/search?q="@ + percent_encode(encode_utf8(query))
        + "&count="@ + decimal(max)
}

/// Name and value of each header.
pub open spec fn header_pairs(v: Seq<Header>) -> Seq<(Seq<char>, Seq<char>)> {
    v.map_values(|h: Header| (h.name@, h.value@))
}

/// The headers of a request to GitHub.
pub open spec fn github_headers(token: Option<Seq<char>>) -> Seq<(Seq<char>, Seq<char>)> {
    let base = seq![
        ("Accept"@, "application/vnd.github.v3+json"@),
        ("User-Agent"@, "robin-smesh-osint/0.1"@),
    ];
    match token {
        Some(t) => base.push(("Authorization"@, "token "@ + t)),
        None => base,
    }
}

/// The headers of a request to Brave.
pub open spec fn brave_headers(key: Seq<char>) -> Seq<(Seq<char>, Seq<char>)> {
    seq![("Accept"@, "application/json"@), ("X-Subscription-Token"@, key)]
}

/// What a finding says.
pub struct FindingModel {
    pub finding_type: Seq<char>,
    pub title: Seq<char>,
    pub url: Option<Seq<char>>,
    pub snippet: Seq<char>,
    pub relevance: u64,
}

/// The model of each finding.
pub open spec fn finding_models(v: Seq<EnrichmentFinding>) -> Seq<FindingModel> {
    v.map_values(
        |f: EnrichmentFinding|
            FindingModel {
                finding_type: f.finding_type@,
                title: f.title@,
                url: opt_text(f.url),
                snippet: f.snippet@,
                relevance: f.relevance,
            },
    )
}

/// The smaller of two numbers.
pub open spec fn least(a: nat, b: nat) -> nat {
    if a <= b {
        a
    } else {
        b
    }
}

/// What GitHub found, as its answer `body` to a successful request says:
/// the first `max` items, where every item has name, path, address and
/// repository. (The columns of one array are equally long; the count is
/// written as their least length because nothing here says so.)
pub open spec fn github_found(body: Seq<char>, max: nat) -> Seq<FindingModel> {
    match (
        column(body, "/items"@, "/name"@),
        column(body, "/items"@, "/path"@),
        column(body, "/items"@, "/html_url"@),
        column(body, "/items"@, "/repository/full_name"@),
        json_texts(body, "/items"@, "/repository/description"@),
    ) {
        (Some(name), Some(path), Some(url), Some(repo), Some(about)) => Seq::new(
            least(
                least(least(name.len(), path.len()), least(url.len(), repo.len())),
                least(about.len(), max),
            ),
            |i: int|
                FindingModel {
                    finding_type: "github_code"@,
                    title: repo[i] + "/"@ + name[i],
                    url: Some(url[i]),
                    snippet: "Found in "@ + path[i] + " ("@ + (match about[i] {
                        Some(d) => d,
                        None => Seq::empty(),
                    }) + ")"@,
                    relevance: GITHUB_RELEVANCE,
                },
        ),
        _ => Seq::empty(),
    }
}

/// What Brave found, as its answer `body` to a successful request says:
/// the first `max` results, where every result has title, address and
/// description.
pub open spec fn brave_found(body: Seq<char>, max: nat) -> Seq<FindingModel> {
    match (
        column(body, "/web/results"@, "/title"@),
        column(body, "/web/results"@, "/url"@),
        column(body, "/web/results"@, "/description"@),
    ) {
        (Some(title), Some(url), Some(about)) => Seq::new(
            least(least(title.len(), url.len()), least(about.len(), max)),
            |i: int|
                FindingModel {
                    finding_type: "web_search"@,
                    title: title[i],
                    url: Some(url[i]),
                    snippet: about[i],
                    relevance: BRAVE_RELEVANCE,
                },
        ),
        _ => Seq::empty(),
    }
}

/// What a service found, as the reply at `i` says.
pub open spec fn found_in(replies: Seq<Reply>, i: int, source: Source, max: nat) -> Seq<
    FindingModel,
> {
    if 0 <= i < replies.len() {
        match replies[i] {
            Reply::Page { status, body } => if is_success(status) {
                match source {
                    Source::Github => github_found(body@, max),
                    Source::Brave => brave_found(body@, max),
                }
            } else {
                Seq::empty()
            },
            _ => Seq::empty(),
        }
    } else {
        Seq::empty()
    }
}

/// The name of a service.
pub open spec fn source_name(s: Source) -> Seq<char> {
    match s {
        Source::Github => "github"@,
        Source::Brave => "brave"@,
    }
}

/// `item` is the enrichment of the inquiry at `i` as the reply there says.
pub open spec fn is_enrichment(
    item: Outgoing,
    inquiry: Inquiry,
    replies: Seq<Reply>,
    i: int,
    max: nat,
) -> bool {
    &&& item.confidence == ENRICH_CONFIDENCE
    &&& item.ttl == ENRICH_TTL
    &&& item.payload matches OsintPayload::EnrichedArtifacts { artifact, source, findings }
    &&& artifact == inquiry.artifact
    &&& source@ == source_name(inquiry.source)
    &&& finding_models(findings@) == found_in(replies, i, inquiry.source, max)
}

/// `batch` holds, in the order of the inquiries, the enrichment of each
/// inquiry for which something was found.
pub open spec fn enrichment_batch(
    batch: Seq<Outgoing>,
    inquiries: Seq<Inquiry>,
    replies: Seq<Reply>,
    max: nat,
) -> bool
    decreases inquiries.len(),
{
    if inquiries.len() == 0 {
        batch.len() == 0
    } else {
        let i = inquiries.len() - 1;
        if found_in(replies, i, inquiries.last().source, max).len() == 0 {
            enrichment_batch(batch, inquiries.drop_last(), replies, max)
        } else {
            &&& batch.len() > 0
            &&& enrichment_batch(batch.drop_last(), inquiries.drop_last(), replies, max)
            &&& is_enrichment(batch.last(), inquiries.last(), replies, i, max)
        }
    }
}

/// Whether GitHub is asked about the artifact.
pub open spec fn asks_github(cfg: EnrichmentConfig, a: Artifact) -> bool {
    cfg.enable_github && github_query_of(a) is Some
}

/// Whether Brave is asked about the artifact.
pub open spec fn asks_brave(cfg: EnrichmentConfig, a: Artifact) -> bool {
    cfg.enable_brave && cfg.brave_api_key is Some
}

/// The request `r` asks `source` about the artifact `a`.
pub open spec fn inquires(r: Request, cfg: EnrichmentConfig, a: Artifact, source: Source) -> bool {
    &&& r matches Request::Fetch { url, headers, through_tor }
    &&& !through_tor
    &&& match source {
        Source::Github => {
            &&& github_query_of(a) matches Some(q)
            &&& url@ == github_url(q, cfg.max_results_per_artifact as nat)
            &&& header_pairs(headers@) == github_headers(opt_text(cfg.github_token))
        },
        Source::Brave => {
            &&& cfg.brave_api_key matches Some(key)
            &&& url@ == brave_url(brave_query_of(a), cfg.max_results_per_artifact as nat)
            &&& header_pairs(headers@) == brave_headers(key@)
        },
    }
}

/// The services that are asked about the artifacts: artifact after
/// artifact, GitHub before Brave.
pub open spec fn inquiries_for(cfg: EnrichmentConfig, artifacts: Seq<Artifact>) -> Seq<
    (Artifact, Source),
>
    decreases artifacts.len(),
{
    if artifacts.len() == 0 {
        Seq::empty()
    } else {
        let a = artifacts.last();
        let before = inquiries_for(cfg, artifacts.drop_last());
        let with_github = if asks_github(cfg, a) {
            before.push((a, Source::Github))
        } else {
            before
        };
        if asks_brave(cfg, a) {
            with_github.push((a, Source::Brave))
        } else {
            with_github
        }
    }
}

/// Artifact and service of each inquiry.
pub open spec fn inquiry_pairs(v: Seq<Inquiry>) -> Seq<(Artifact, Source)> {
    v.map_values(|q: Inquiry| (q.artifact, q.source))
}

/// The artifacts that are asked about: those of the sensed extractions
/// that are worth it and were not asked about yet.
pub open spec fn candidates_of(found: Seq<Artifact>, seen: Seq<Seq<char>>) -> Seq<Artifact> {
    found.filter(|a: Artifact| !seen.contains(enrichment_key(a)) && worth(a.artifact_type))
}

/// The key of each artifact.
pub open spec fn enrichment_keys(v: Seq<Artifact>) -> Seq<Seq<char>> {
    v.map_values(|a: Artifact| enrichment_key(a))
}

fn header(name: &str, value: String) -> (h: Header)
    ensures
        h.name@ == name@,
        h.value@ == value@,
{
    Header { name: name.to_owned(), value }
}

impl EnrichmentAgent {
    /// An enricher that has asked nothing yet.
    pub fn new(config: AgentConfig, enrichment_config: EnrichmentConfig) -> (a: EnrichmentAgent)
        ensures
            a.config == config,
            a.enrichment_config == enrichment_config,
            a.processed_artifacts@.len() == 0,
            a.pending is None,
    {
        EnrichmentAgent {
            config,
            enrichment_config,
            processed_artifacts: Vec::new(),
            pending: None,
        }
    }

    /// The worker's name.
    pub fn id(&self) -> (r: &str)
        ensures
            r@ == self.config.id@,
    {
        self.config.id.as_str()
    }

    /// The worker's kind.
    pub fn agent_type(&self) -> (r: &'static str)
        ensures
            r@ == "enricher"@,
    {
        "enricher"
    }

    /// The extractions that reach the worker's threshold.
    pub fn sense<'a>(&self, field: &'a Field) -> (out: Vec<&'a Signal>)
        ensures
            refs(out@) == of_kind(
                field.live(),
                field.time(),
                self.config.sensing_threshold,
                PayloadKind::ExtractedArtifacts,
            ),
    {
        field.sense_kind(self.config.sensing_threshold, PayloadKind::ExtractedArtifacts)
    }

    /// Whether the artifact is asked about.
    pub fn should_enrich(&self, artifact: &Artifact) -> (r: bool)
        ensures
            r == worth(artifact.artifact_type),
    {
        match artifact.artifact_type {
            ArtifactType::Email => true,
            ArtifactType::Username => true,
            ArtifactType::Domain => true,
            ArtifactType::Ipv4 => true,
            ArtifactType::Ipv6 => true,
            ArtifactType::Sha256 => true,
            ArtifactType::Sha1 => true,
            ArtifactType::Md5 => true,
            ArtifactType::Bitcoin => true,
            ArtifactType::Ethereum => true,
            _ => false,
        }
    }

    /// What GitHub is asked about the artifact, if anything.
    pub fn github_query(&self, artifact: &Artifact) -> (r: Option<String>)
        ensures
            opt_text(r) == github_query_of(*artifact),
    {
        if !self.should_enrich(artifact) {
            return None;
        }
        let mut q: Vec<char> = Vec::new();
        q.push('"');
        push_str(&mut q, artifact.value.as_str());
        q.push('"');
        assert(q@ =~= quoted(artifact.value@));
        match artifact.artifact_type {
            ArtifactType::Username => {
                push_str(&mut q, " OR author:");
                push_str(&mut q, artifact.value.as_str());
            },
            _ => {},
        }
        Some(text_of(&q))
    }

    /// What the web is asked about the artifact.
    pub fn brave_query(&self, artifact: &Artifact) -> (r: String)
        ensures
            r@ == brave_query_of(*artifact),
    {
        let mut q: Vec<char> = Vec::new();
        q.push('"');
        push_str(&mut q, artifact.value.as_str());
        q.push('"');
        assert(q@ =~= quoted(artifact.value@));
        match artifact.artifact_type {
            ArtifactType::Email => push_str(&mut q, " data breach leak"),
            ArtifactType::Username => push_str(&mut q, " hacker forum profile"),
            ArtifactType::Domain => push_str(&mut q, " malware infrastructure"),
            ArtifactType::Ipv4 => push_str(&mut q, " threat intelligence"),
            ArtifactType::Ipv6 => push_str(&mut q, " threat intelligence"),
            ArtifactType::Sha256 => push_str(&mut q, " malware analysis"),
            ArtifactType::Sha1 => push_str(&mut q, " malware analysis"),
            ArtifactType::Md5 => push_str(&mut q, " malware analysis"),
            ArtifactType::Bitcoin => push_str(&mut q, " ransomware bitcoin"),
            ArtifactType::Ethereum => push_str(&mut q, " cryptocurrency scam"),
            _ => {
                assert(q@ + Seq::<char>::empty() =~= q@);
            },
        }
        text_of(&q)
    }

    /// The request that asks GitHub about the artifact, if it is asked.
    pub fn github_request(&self, artifact: &Artifact) -> (r: Option<Request>)
        ensures
            match r {
                Some(req) => github_query_of(*artifact) is Some && inquires(
                    req,
                    self.enrichment_config,
                    *artifact,
                    Source::Github,
                ),
                None => github_query_of(*artifact) is None,
            },
    {
        let query = match self.github_query(artifact) {
            Some(q) => q,
            None => {
                return None;
            },
        };
        let mut url = chars_of("https://api.github.com/search/code?q=");
        push_str(&mut url, encode(query.as_str()).as_str());
        push_str(&mut url, "&per_page=");
        push_decimal(&mut url, self.enrichment_config.max_results_per_artifact as u64);
        let mut headers: Vec<Header> = Vec::new();
        headers.push(header("Accept", "application/vnd.github.v3+json".to_owned()));
        headers.push(header("User-Agent", "robin-smesh-osint/0.1".to_owned()));
        match &self.enrichment_config.github_token {
            Some(token) => {
                let mut v = chars_of("token ");
                push_str(&mut v, token.as_str());
                headers.push(header("Authorization", text_of(&v)));
            },
            None => {},
        }
        assert(header_pairs(headers@) =~= github_headers(
            opt_text(self.enrichment_config.github_token),
        ));
        Some(Request::Fetch { url: text_of(&url), headers, through_tor: false })
    }

    /// The request that asks Brave about the artifact, if there is a key.
    pub fn brave_request(&self, artifact: &Artifact) -> (r: Option<Request>)
        ensures
            match r {
                Some(req) => self.enrichment_config.brave_api_key is Some && inquires(
                    req,
                    self.enrichment_config,
                    *artifact,
                    Source::Brave,
                ),
                None => self.enrichment_config.brave_api_key is None,
            },
    {
        let key = match &self.enrichment_config.brave_api_key {
            Some(k) => k,
            None => {
                return None;
            },
        };
        let query = self.brave_query(artifact);
        let mut url = chars_of("https://api.search.brave.com/res/v1/web/search?q=");
        push_str(&mut url, encode(query.as_str()).as_str());
        push_str(&mut url, "&count=");
        push_decimal(&mut url, self.enrichment_config.max_results_per_artifact as u64);
        let mut headers: Vec<Header> = Vec::new();
        headers.push(header("Accept", "application/json".to_owned()));
        headers.push(header("X-Subscription-Token", key.clone()));
        assert(header_pairs(headers@) =~= brave_headers(key@));
        Some(Request::Fetch { url: text_of(&url), headers, through_tor: false })
    }

    /// The key under which the artifact counts as asked about.
    pub fn key_of(artifact: &Artifact) -> (r: String)
        ensures
            r@ == enrichment_key(*artifact),
    {
        let mut k = artifact.artifact_type.label_text();
        k.push(':');
        push_str(&mut k, artifact.value.as_str());
        string_of(&k)
    }
}

fn smaller(a: usize, b: usize) -> (r: usize)
    ensures
        r == least(a as nat, b as nat),
{
    if a <= b {
        a
    } else {
        b
    }
}

/// What GitHub found, as its answer `body` to a successful request says.
pub fn github_findings(body: &str, max: usize) -> (out: Vec<EnrichmentFinding>)
    ensures
        finding_models(out@) == github_found(body@, max as nat),
{
    let mut out: Vec<EnrichmentFinding> = Vec::new();
    assert(finding_models(out@) =~= Seq::<FindingModel>::empty());
    let name = match required_texts(body, "/items", "/name") {
        Some(v) => v,
        None => {
            return out;
        },
    };
    let path = match required_texts(body, "/items", "/path") {
        Some(v) => v,
        None => {
            return out;
        },
    };
    let url = match required_texts(body, "/items", "/html_url") {
        Some(v) => v,
        None => {
            return out;
        },
    };
    let repo = match required_texts(body, "/items", "/repository/full_name") {
        Some(v) => v,
        None => {
            return out;
        },
    };
    let about = match texts_at(body, "/items", "/repository/description") {
        Some(v) => v,
        None => {
            return out;
        },
    };
    let n = smaller(
        smaller(smaller(name.len(), path.len()), smaller(url.len(), repo.len())),
        smaller(about.len(), max),
    );
    let ghost want = github_found(body@, max as nat);
    let mut i: usize = 0;
    while i < n
        invariant
            i <= n,
            n <= name@.len(),
            n <= path@.len(),
            n <= url@.len(),
            n <= repo@.len(),
            n <= about@.len(),
            want.len() == n,
            forall|k: int|
                0 <= k < n ==> #[trigger] want[k] == (FindingModel {
                    finding_type: "github_code"@,
                    title: names(repo@)[k] + "/"@ + names(name@)[k],
                    url: Some(names(url@)[k]),
                    snippet: "Found in "@ + names(path@)[k] + " ("@ + (match optional_texts(
                        about@,
                    )[k] {
                        Some(d) => d,
                        None => Seq::empty(),
                    }) + ")"@,
                    relevance: GITHUB_RELEVANCE,
                }),
            out@.len() == i,
            forall|k: int| 0 <= k < i ==> #[trigger] finding_models(out@)[k] == want[k],
        decreases n - i,
    {
        let mut title = chars_of(repo[i].as_str());
        push_str(&mut title, "/");
        push_str(&mut title, name[i].as_str());
        let mut snippet = chars_of("Found in ");
        push_str(&mut snippet, path[i].as_str());
        push_str(&mut snippet, " (");
        match &about[i] {
            Some(d) => {
                push_str(&mut snippet, d.as_str());
            },
            None => {
                assert(snippet@ + Seq::<char>::empty() =~= snippet@);
            },
        }
        push_str(&mut snippet, ")");
        let ghost before = finding_models(out@);
        let f = EnrichmentFinding {
            finding_type: "github_code".to_owned(),
            title: text_of(&title),
            url: Some(url[i].clone()),
            snippet: text_of(&snippet),
            relevance: GITHUB_RELEVANCE,
        };
        out.push(f);
        proof {
            assert(names(repo@)[i as int] == repo@[i as int]@);
            assert(names(name@)[i as int] == name@[i as int]@);
            assert(names(url@)[i as int] == url@[i as int]@);
            assert(names(path@)[i as int] == path@[i as int]@);
            assert(optional_texts(about@)[i as int] == opt_text(about@[i as int]));
            assert forall|k: int| 0 <= k < i + 1 implies #[trigger] finding_models(out@)[k]
                == want[k] by {
                if k < i {
                    assert(finding_models(out@)[k] == before[k]);
                }
            }
        }
        i += 1;
    }
    assert(finding_models(out@) =~= want);
    out
}

/// What Brave found, as its answer `body` to a successful request says.
pub fn brave_findings(body: &str, max: usize) -> (out: Vec<EnrichmentFinding>)
    ensures
        finding_models(out@) == brave_found(body@, max as nat),
{
    let mut out: Vec<EnrichmentFinding> = Vec::new();
    assert(finding_models(out@) =~= Seq::<FindingModel>::empty());
    let title = match required_texts(body, "/web/results", "/title") {
        Some(v) => v,
        None => {
            return out;
        },
    };
    let url = match required_texts(body, "/web/results", "/url") {
        Some(v) => v,
        None => {
            return out;
        },
    };
    let about = match required_texts(body, "/web/results", "/description") {
        Some(v) => v,
        None => {
            return out;
        },
    };
    let n = smaller(smaller(title.len(), url.len()), smaller(about.len(), max));
    let ghost want = brave_found(body@, max as nat);
    let mut i: usize = 0;
    while i < n
        invariant
            i <= n,
            n <= title@.len(),
            n <= url@.len(),
            n <= about@.len(),
            want.len() == n,
            forall|k: int|
                0 <= k < n ==> #[trigger] want[k] == (FindingModel {
                    finding_type: "web_search"@,
                    title: names(title@)[k],
                    url: Some(names(url@)[k]),
                    snippet: names(about@)[k],
                    relevance: BRAVE_RELEVANCE,
                }),
            out@.len() == i,
            forall|k: int| 0 <= k < i ==> #[trigger] finding_models(out@)[k] == want[k],
        decreases n - i,
    {
        let ghost before = finding_models(out@);
        let f = EnrichmentFinding {
            finding_type: "web_search".to_owned(),
            title: title[i].clone(),
            url: Some(url[i].clone()),
            snippet: about[i].clone(),
            relevance: BRAVE_RELEVANCE,
        };
        out.push(f);
        proof {
            assert(names(title@)[i as int] == title@[i as int]@);
            assert(names(url@)[i as int] == url@[i as int]@);
            assert(names(about@)[i as int] == about@[i as int]@);
            assert forall|k: int| 0 <= k < i + 1 implies #[trigger] finding_models(out@)[k]
                == want[k] by {
                if k < i {
                    assert(finding_models(out@)[k] == before[k]);
                }
            }
        }
        i += 1;
    }
    assert(finding_models(out@) =~= want);
    out
}

/// What a service found, as the reply at `i` says.
pub fn findings_in(replies: &Vec<Reply>, i: usize, source: Source, max: usize) -> (out: Vec<
    EnrichmentFinding,
>)
    ensures
        finding_models(out@) == found_in(replies@, i as int, source, max as nat),
{
    let mut none: Vec<EnrichmentFinding> = Vec::new();
    assert(finding_models(none@) =~= Seq::<FindingModel>::empty());
    if i >= replies.len() {
        return none;
    }
    match &replies[i] {
        Reply::Page { status, body } => {
            if !success(*status) {
                return none;
            }
            match source {
                Source::Github => github_findings(body.as_str(), max),
                Source::Brave => brave_findings(body.as_str(), max),
            }
        },
        _ => none,
    }
}

impl EnrichmentAgent {
    /// What the beginning of an activation comes to: the artifacts that are
    /// worth it are noted, and the services in use are asked about each.
    pub open spec fn starts(&self, live: Seq<Signal>, time: i64, post: Self, step: Step) -> bool {
        &&& post.config == self.config
        &&& post.enrichment_config == self.enrichment_config
        &&& ({
            let found = flattened(
                of_kind(
                    live,
                    time,
                    ENRICH_THRESHOLD,
                    PayloadKind::ExtractedArtifacts,
                ),
            );
            let cands = candidates_of(found, names(self.processed_artifacts@));
            let plan = inquiries_for(self.enrichment_config, cands);
            &&& names(post.processed_artifacts@) == noted(
                names(self.processed_artifacts@),
                enrichment_keys(cands),
            )
            &&& if plan.len() == 0 {
                &&& step matches Step::Done(Ok(hashes))
                &&& hashes@.len() == 0
                &&& post.pending is None
            } else {
                &&& step matches Step::Ask(requests)
                &&& post.pending matches Some(inquiries)
                &&& inquiry_pairs(inquiries@) == plan
                &&& requests@.len() == plan.len()
                &&& forall|k: int|
                    0 <= k < requests@.len() ==> inquires(
                        #[trigger] requests@[k],
                        self.enrichment_config,
                        plan[k].0,
                        plan[k].1,
                    )
            }
        })
    }

    /// Begins an activation: the artifacts of the extractions that reach an
    /// effective intensity of 0.3, are worth it and were not asked about
    /// yet are noted, and the services in use are asked about each.
    pub fn start(&mut self, field: &Field) -> (step: Step)
        ensures
            old(self).starts(field.live(), field.time(), *final(self), step),
    {
        let extractions = field.sense_kind(ENRICH_THRESHOLD, PayloadKind::ExtractedArtifacts);
        let found = flatten(&extractions);
        let ghost all = derefs(found@);
        let ghost seen = names(self.processed_artifacts@);
        let ghost p = |a: Artifact| !seen.contains(enrichment_key(a)) && worth(a.artifact_type);
        let mut cands: Vec<&Artifact> = Vec::new();
        let mut i: usize = 0;
        proof {
            reveal(Seq::filter);
            assert(all.take(0) =~= Seq::<Artifact>::empty());
            assert(derefs(cands@) =~= all.take(0).filter(p));
        }
        while i < found.len()
            invariant
                i <= found.len(),
                all == derefs(found@),
                seen == names(self.processed_artifacts@),
                p == |a: Artifact| !seen.contains(enrichment_key(a)) && worth(a.artifact_type),
                derefs(cands@) == all.take(i as int).filter(p),
            decreases found.len() - i,
        {
            let a = found[i];
            proof {
                lemma_filter_step(all, i as int, p);
                assert(all[i as int] == *a);
            }
            let key = EnrichmentAgent::key_of(a);
            if !holds(&self.processed_artifacts, key.as_str()) && self.should_enrich(a) {
                let ghost before = derefs(cands@);
                cands.push(a);
                assert(derefs(cands@) =~= before.push(*a));
            }
            i += 1;
        }
        assert(all.take(found@.len() as int) =~= all);
        let ghost cs = derefs(cands@);
        let ghost cfg = self.enrichment_config;
        let mut requests: Vec<Request> = Vec::new();
        let mut inquiries: Vec<Inquiry> = Vec::new();
        let mut k: usize = 0;
        proof {
            assert(cs.take(0) =~= Seq::<Artifact>::empty());
            assert(enrichment_keys(cs).take(0) =~= Seq::<Seq<char>>::empty());
            assert(inquiry_pairs(inquiries@) =~= inquiries_for(cfg, cs.take(0)));
        }
        while k < cands.len()
            invariant
                k <= cands.len(),
                cs == derefs(cands@),
                cfg == self.enrichment_config,
                self.config == old(self).config,
                self.enrichment_config == old(self).enrichment_config,
                self.pending == old(self).pending,
                names(self.processed_artifacts@) == noted(
                    seen,
                    enrichment_keys(cs).take(k as int),
                ),
                inquiry_pairs(inquiries@) == inquiries_for(cfg, cs.take(k as int)),
                requests@.len() == inquiries@.len(),
                forall|j: int|
                    0 <= j < requests@.len() ==> inquires(
                        #[trigger] requests@[j],
                        cfg,
                        inquiries@[j].artifact,
                        inquiries@[j].source,
                    ),
            decreases cands.len() - k,
        {
            let a = cands[k];
            proof {
                assert(cs[k as int] == *a);
                assert(cs.take(k + 1).drop_last() =~= cs.take(k as int));
                assert(cs.take(k + 1).last() == *a);
                let q = enrichment_keys(cs).take(k + 1);
                assert(q.drop_last() =~= enrichment_keys(cs).take(k as int));
                assert(q.last() == enrichment_key(*a));
            }
            let key = EnrichmentAgent::key_of(a);
            note(&mut self.processed_artifacts, key.as_str());
            if self.enrichment_config.enable_github {
                match self.github_request(a) {
                    Some(r) => {
                        let ghost before = inquiry_pairs(inquiries@);
                        requests.push(r);
                        inquiries.push(Inquiry { artifact: a.duplicate(), source: Source::Github });
                        assert(inquiry_pairs(inquiries@) =~= before.push((*a, Source::Github)));
                    },
                    None => {},
                }
            }
            if self.enrichment_config.enable_brave {
                match self.brave_request(a) {
                    Some(r) => {
                        let ghost before = inquiry_pairs(inquiries@);
                        requests.push(r);
                        inquiries.push(Inquiry { artifact: a.duplicate(), source: Source::Brave });
                        assert(inquiry_pairs(inquiries@) =~= before.push((*a, Source::Brave)));
                    },
                    None => {},
                }
            }
            k += 1;
        }
        proof {
            assert(cs.take(cands@.len() as int) =~= cs);
            assert(enrichment_keys(cs).take(cands@.len() as int) =~= enrichment_keys(cs));
            assert forall|j: int| 0 <= j < requests@.len() implies inquires(
                #[trigger] requests@[j],
                cfg,
                inquiries_for(cfg, cs)[j].0,
                inquiries_for(cfg, cs)[j].1,
            ) by {
                assert(inquiry_pairs(inquiries@)[j] == (
                    inquiries@[j].artifact,
                    inquiries@[j].source,
                ));
            }
            assert(inquiry_pairs(inquiries@).len() == inquiries@.len());
        }
        if inquiries.len() == 0 {
            self.pending = None;
            return Step::Done(Ok(Vec::new()));
        }
        self.pending = Some(inquiries);
        Step::Ask(requests)
    }

    /// The enrichments that the replies hold for the inquiries.
    pub fn read(inquiries: Vec<Inquiry>, replies: &Vec<Reply>, max: usize) -> (batch: Vec<Outgoing>)
        ensures
            enrichment_batch(batch@, inquiries@, replies@, max as nat),
    {
        let ghost all = inquiries@;
        let mut batch: Vec<Outgoing> = Vec::new();
        assert(all.take(0) =~= Seq::<Inquiry>::empty());
        let n = inquiries.len();
        let mut at: usize = 0;
        for q in it: inquiries
            invariant
                it.seq() == all,
                all.len() == n,
                at == it.index(),
                enrichment_batch(batch@, all.take(it.index() as int), replies@, max as nat),
        {
            let ghost i = it.index() as int;
            proof {
                assert(all.take(i + 1).drop_last() =~= all.take(i));
                assert(all.take(i + 1).last() == q);
            }
            let findings = findings_in(replies, at, q.source, max);
            assert(finding_models(findings@).len() == findings@.len());
            if findings.len() > 0 {
                let ghost before = batch@;
                let source = match q.source {
                    Source::Github => "github".to_owned(),
                    Source::Brave => "brave".to_owned(),
                };
                batch.push(
                    Outgoing {
                        payload: OsintPayload::EnrichedArtifacts {
                            artifact: q.artifact,
                            source,
                            findings,
                        },
                        confidence: ENRICH_CONFIDENCE,
                        ttl: ENRICH_TTL,
                    },
                );
                assert(batch@.drop_last() =~= before);
                assert(is_enrichment(batch@.last(), q, replies@, i, max as nat));
            }
            at = at + 1;
        }
        assert(all.take(all.len() as int) =~= all);
        batch
    }

    /// What the end of an activation comes to: what a service found about
    /// an artifact is emitted.
    pub open spec fn resumes(
        &self,
        live: Seq<Signal>,
        replies: Seq<Reply>,
        post: Self,
        after: Seq<Signal>,
        step: Step,
    ) -> bool {
        &&& post.config == self.config
        &&& post.enrichment_config == self.enrichment_config
        &&& post.processed_artifacts == self.processed_artifacts
        &&& post.pending is None
        &&& match self.pending {
            None => {
                &&& step matches Step::Done(Err(AgentError::NoWork))
                &&& after == live
            },
            Some(inquiries) => {
                &&& step matches Step::Done(Ok(hashes))
                &&& exists|batch: Seq<Outgoing>|
                    #[trigger] enrichment_batch(
                        batch,
                        inquiries@,
                        replies,
                        self.enrichment_config.max_results_per_artifact as nat,
                    ) && delivered(
                        live,
                        self.config.id@,
                        batch,
                        after,
                        names(hashes@),
                    )
            },
        }
    }

    /// Ends an activation with the replies, one for each inquiry: what a
    /// service found about an artifact is emitted.
    pub fn resume(&mut self, field: &mut Field, replies: Vec<Reply>) -> (step: Step)
        requires
            old(field).wf(),
        ensures
            final(field).wf(),
            crate::field::grown(old(field).live(), final(field).live()),
            final(field).time() == old(field).time(),
            final(field).past() == old(field).past(),
            old(field).sound() ==> final(field).sound(),
            old(self).resumes(old(field).live(), replies@, *final(self), final(field).live(), step),
    {
        let inquiries = match self.pending.take() {
            Some(v) => v,
            None => {
                return Step::Done(Err(AgentError::NoWork));
            },
        };
        let ghost qs = inquiries@;
        let max = self.enrichment_config.max_results_per_artifact;
        let batch = EnrichmentAgent::read(inquiries, &replies, max);
        let ghost b = batch@;
        let hashes = emit_all(field, self.config.id.as_str(), batch);
        assert(enrichment_batch(b, qs, replies@, max as nat));
        Step::Done(Ok(hashes))
    }

    /// Emits the worker's heartbeat: it is free.
    pub fn heartbeat(&self, field: &mut Field)
        requires
            old(field).wf(),
        ensures
            final(field).wf(),
            pulsed(
                old(field).live(),
                final(field).live(),
                self.config.id@,
                AgentType::Enricher,
                UNIT,
                HEARTBEAT_TTL,
            ),
            final(field).time() == old(field).time(),
            final(field).past() == old(field).past(),
            old(field).sound() ==> final(field).sound(),
    {
        pulse(field, self.config.id.as_str(), AgentType::Enricher, UNIT, HEARTBEAT_TTL);
    }
}


impl crate::agents::traits::OsintAgent for EnrichmentAgent {
    open spec fn ready(&self) -> bool {
        true
    }

    open spec fn spec_id(&self) -> Seq<char> {
        self.config.id@
    }

    open spec fn spec_agent_type(&self) -> Seq<char> {
        "enricher"@
    }

    open spec fn sensed(&self, live: Seq<Signal>, time: i64) -> Seq<Signal> {
        of_kind(
            live,
            time,
            self.config.sensing_threshold,
            PayloadKind::ExtractedArtifacts,
        )
    }

    open spec fn began(
        &self,
        live: Seq<Signal>,
        time: i64,
        post: Self,
        after: Seq<Signal>,
        step: Step,
    ) -> bool {
        &&& self.starts(live, time, post, step)
        &&& after == live
    }

    open spec fn proceeded(
        &self,
        live: Seq<Signal>,
        time: i64,
        replies: Seq<Reply>,
        post: Self,
        after: Seq<Signal>,
        step: Step,
    ) -> bool {
        self.resumes(live, replies, post, after, step)
    }

    open spec fn beat(&self, live: Seq<Signal>, after: Seq<Signal>) -> bool {
    pulsed(
            live,
            after,
            self.config.id@,
            AgentType::Enricher,
            UNIT,
            HEARTBEAT_TTL,
        )
    }

    fn id(&self) -> (r: &str) {
        EnrichmentAgent::id(self)
    }

    fn agent_type(&self) -> (r: &str) {
        EnrichmentAgent::agent_type(self)
    }

    fn sense<'a>(&self, field: &'a Field) -> (out: Vec<&'a Signal>) {
        let out = EnrichmentAgent::sense(self, field);
        proof {
            crate::agents::traits::lemma_observed(
                out@,
                field.live(),
                |s: Signal|
                    crate::field::wanted(
                        s,
                        field.time(),
                        self.config.sensing_threshold,
                        Some(PayloadKind::ExtractedArtifacts),
                    ),
            );
        }
        out
    }

    fn begin(&mut self, field: &mut Field) -> (step: Step) {
        EnrichmentAgent::start(self, field)
    }

    fn proceed(&mut self, field: &mut Field, replies: Vec<Reply>) -> (step: Step) {
        EnrichmentAgent::resume(self, field, replies)
    }

    fn heartbeat(&self, field: &mut Field) {
        EnrichmentAgent::heartbeat(self, field)
    }
}

} // verus!
