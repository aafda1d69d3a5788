//! The canonical JSON form of a payload.
//!
//! A signal's key is a digest of this form, so it is fixed here once and for
//! all: objects list their members in the order of the type's declaration,
//! a payload begins with its `type` tag, numbers are integers, and nothing
//! is written between the tokens.

use vstd::prelude::*;
use crate::artifacts::{opt_text, Artifact, ArtifactType};
use crate::signals::{
    AgentType, EnrichmentFinding, InsightCategory, OsintPayload, TemporalPattern, WalletAnalysis,
};
use crate::text::{decimal, join, joined, push_chars, push_decimal, texts};

verus! {

/// A character as it stands inside a JSON string: a backslash before a
/// quote or a backslash; `\b`, `\t`, `\n`, `\f`, `\r` for the control
/// characters of those names; `\u00` and two lower-case hexadecimal digits
/// for any other character below the blank; every other character as it
/// is.
pub open spec fn escaped(c: char) -> Seq<char> {
    if c == '"' {
        seq!['\\', '"']
    } else if c == '\\' {
        seq!['\\', '\\']
    } else if c == '\u{8}' {
        seq!['\\', 'b']
    } else if c == '\t' {
        seq!['\\', 't']
    } else if c == '\n' {
        seq!['\\', 'n']
    } else if c == '\u{c}' {
        seq!['\\', 'f']
    } else if c == '\r' {
        seq!['\\', 'r']
    } else if (c as u32) < 0x20 {
        seq![
            '\\',
            'u',
            '0',
            '0',
            crate::signals::hex_char((c as u32 / 16) as nat),
            crate::signals::hex_char((c as u32 % 16) as nat),
        ]
    } else {
        seq![c]
    }
}

/// The characters of a text as they stand inside a JSON string.
pub open spec fn escaped_text(s: Seq<char>) -> Seq<char>
    decreases s.len(),
{
    if s.len() == 0 {
        Seq::empty()
    } else {
        escaped_text(s.drop_last()) + escaped(s.last())
    }
}

/// A text as a JSON string: its characters, escaped, between quotes.
#[verifier::opaque]
pub open spec fn json_string(s: Seq<char>) -> Seq<char> {
    seq!['"'] + escaped_text(s) + seq!['"']
}

/// Calls `serde_json::to_string` on a text, which writes it between quotes
/// and escapes the quote, the backslash and the characters below the
/// blank, the latter as `\b`, `\t`, `\n`, `\f`, `\r` or `\u00` with two
/// lower-case hexadecimal digits. Writing a `str` into memory cannot fail.
#[verifier::external_body]
pub(crate) fn quote(s: &str) -> (r: Vec<char>)
    ensures
        r@ == json_string(s@),
{
    serde_json::to_string(s).unwrap_or_default().chars().collect()
}

/// A member of an object: key, colon, value.
pub open spec fn member(key: Seq<char>, value: Seq<char>) -> Seq<char> {
    json_string(key) + seq![':'] + value
}

/// An object of the given members.
pub open spec fn object(members: Seq<Seq<char>>) -> Seq<char> {
    seq!['{'] + join(members, seq![',']) + seq!['}']
}

/// An array of the given items.
pub open spec fn array(items: Seq<Seq<char>>) -> Seq<char> {
    seq!['['] + join(items, seq![',']) + seq![']']
}

/// An integer in decimal.
pub open spec fn signed(n: int) -> Seq<char> {
    if n < 0 {
        seq!['-'] + decimal((-n) as nat)
    } else {
        decimal(n as nat)
    }
}

/// `null`, or the text as a string.
pub open spec fn optional(o: Option<Seq<char>>) -> Seq<char> {
    match o {
        Some(s) => json_string(s),
        None => seq!['n', 'u', 'l', 'l'],
    }
}

/// `null`, or the integer.
pub open spec fn optional_signed(o: Option<i64>) -> Seq<char> {
    match o {
        Some(n) => signed(n as int),
        None => seq!['n', 'u', 'l', 'l'],
    }
}

/// An array of strings.
pub open spec fn string_array(list: Seq<String>) -> Seq<char> {
    array(list.map_values(|s: String| json_string(s@)))
}

/// Writes a member of an object.
pub fn member_of(key: &str, value: Vec<char>) -> (r: Vec<char>)
    ensures
        r@ == member(key@, value@),
{
    let mut r = quote(key);
    r.push(':');
    push_chars(&mut r, &value);
    r
}

fn wrapped(open: char, parts: &Vec<Vec<char>>, close: char) -> (r: Vec<char>)
    ensures
        r@ == seq![open] + join(texts(parts@), seq![',']) + seq![close],
{
    let mut sep: Vec<char> = Vec::new();
    sep.push(',');
    assert(sep@ =~= seq![',']);
    let body = joined(parts, &sep);
    let mut r: Vec<char> = Vec::new();
    r.push(open);
    assert(r@ =~= seq![open]);
    push_chars(&mut r, &body);
    r.push(close);
    r
}

/// Writes an object of the given members.
pub fn object_of(members: &Vec<Vec<char>>) -> (r: Vec<char>)
    ensures
        r@ == object(texts(members@)),
{
    wrapped('{', members, '}')
}

/// Writes an array of the given items.
pub fn array_of(items: &Vec<Vec<char>>) -> (r: Vec<char>)
    ensures
        r@ == array(texts(items@)),
{
    wrapped('[', items, ']')
}

/// Writes a number in decimal.
pub fn number_of(n: u64) -> (r: Vec<char>)
    ensures
        r@ == decimal(n as nat),
{
    let mut r: Vec<char> = Vec::new();
    push_decimal(&mut r, n);
    assert(r@ =~= decimal(n as nat));
    r
}

/// Writes an integer in decimal.
pub fn signed_of(n: i64) -> (r: Vec<char>)
    ensures
        r@ == signed(n as int),
{
    let mut r: Vec<char> = Vec::new();
    if n < 0 {
        r.push('-');
        assert(r@ =~= seq!['-']);
        let m: u64 = if n == i64::MIN { 9_223_372_036_854_775_808u64 } else { (-n) as u64 };
        push_decimal(&mut r, m);
    } else {
        push_decimal(&mut r, n as u64);
        assert(r@ =~= decimal(n as nat));
    }
    r
}

fn null() -> (r: Vec<char>)
    ensures
        r@ == seq!['n', 'u', 'l', 'l'],
{
    let mut r: Vec<char> = Vec::new();
    r.push('n');
    r.push('u');
    r.push('l');
    r.push('l');
    assert(r@ =~= seq!['n', 'u', 'l', 'l']);
    r
}

/// Writes `null`, or the text as a string.
pub fn optional_of(o: &Option<String>) -> (r: Vec<char>)
    ensures
        r@ == optional(opt_text(*o)),
{
    match o {
        Some(s) => quote(s.as_str()),
        None => null(),
    }
}

/// Writes `null`, or the integer.
pub fn optional_signed_of(o: &Option<i64>) -> (r: Vec<char>)
    ensures
        r@ == optional_signed(*o),
{
    match o {
        Some(n) => signed_of(*n),
        None => null(),
    }
}

/// Writes an array of strings.
pub fn string_array_of(list: &Vec<String>) -> (r: Vec<char>)
    ensures
        r@ == string_array(list@),
{
    let mut items: Vec<Vec<char>> = Vec::new();
    let mut i: usize = 0;
    while i < list.len()
        invariant
            i <= list.len(),
            items@.len() == i,
            forall|k: int| 0 <= k < i ==> (#[trigger] items@[k])@ == json_string(list@[k]@),
        decreases list.len() - i,
    {
        items.push(quote(list[i].as_str()));
        i += 1;
    }
    assert(texts(items@) =~= list@.map_values(|s: String| json_string(s@)));
    array_of(&items)
}

impl ArtifactType {
    /// The kind in canonical form: its name in snake case, a custom kind as
    /// an object with the one member `custom`.
    pub open spec fn json(self) -> Seq<char> {
        match self {
            ArtifactType::Ipv4 => json_string("ipv4"@),
            ArtifactType::Ipv6 => json_string("ipv6"@),
            ArtifactType::Domain => json_string("domain"@),
            ArtifactType::OnionAddress => json_string("onion_address"@),
            ArtifactType::Email => json_string("email"@),
            ArtifactType::Md5 => json_string("md5"@),
            ArtifactType::Sha1 => json_string("sha1"@),
            ArtifactType::Sha256 => json_string("sha256"@),
            ArtifactType::Bitcoin => json_string("bitcoin"@),
            ArtifactType::Ethereum => json_string("ethereum"@),
            ArtifactType::Monero => json_string("monero"@),
            ArtifactType::Cve => json_string("cve"@),
            ArtifactType::MitreAttack => json_string("mitre_attack"@),
            ArtifactType::ThreatActor => json_string("threat_actor"@),
            ArtifactType::Malware => json_string("malware"@),
            ArtifactType::Url => json_string("url"@),
            ArtifactType::Username => json_string("username"@),
            ArtifactType::Phone => json_string("phone"@),
            ArtifactType::CreditCard => json_string("credit_card"@),
            ArtifactType::Custom(name) => object(seq![member("custom"@, json_string(name@))]),
        }
    }

    /// Writes the kind in canonical form.
    pub fn to_json(&self) -> (r: Vec<char>)
        ensures
            r@ == self.json(),
    {
        match self {
            ArtifactType::Ipv4 => quote("ipv4"),
            ArtifactType::Ipv6 => quote("ipv6"),
            ArtifactType::Domain => quote("domain"),
            ArtifactType::OnionAddress => quote("onion_address"),
            ArtifactType::Email => quote("email"),
            ArtifactType::Md5 => quote("md5"),
            ArtifactType::Sha1 => quote("sha1"),
            ArtifactType::Sha256 => quote("sha256"),
            ArtifactType::Bitcoin => quote("bitcoin"),
            ArtifactType::Ethereum => quote("ethereum"),
            ArtifactType::Monero => quote("monero"),
            ArtifactType::Cve => quote("cve"),
            ArtifactType::MitreAttack => quote("mitre_attack"),
            ArtifactType::ThreatActor => quote("threat_actor"),
            ArtifactType::Malware => quote("malware"),
            ArtifactType::Url => quote("url"),
            ArtifactType::Username => quote("username"),
            ArtifactType::Phone => quote("phone"),
            ArtifactType::CreditCard => quote("credit_card"),
            ArtifactType::Custom(name) => {
                let mut members: Vec<Vec<char>> = Vec::new();
                members.push(member_of("custom", quote(name.as_str())));
                assert(texts(members@) =~= seq![member("custom"@, json_string(name@))]);
                object_of(&members)
            },
        }
    }
}

impl Artifact {
    /// The artifact in canonical form.
    pub open spec fn json(self) -> Seq<char> {
        object(
            seq![
                member("artifact_type"@, self.artifact_type.json()),
                member("value"@, json_string(self.value@)),
                member("context"@, optional(opt_text(self.context))),
                member("confidence"@, decimal(self.confidence as nat)),
                member("source"@, optional(opt_text(self.source))),
            ],
        )
    }

    /// Writes the artifact in canonical form.
    pub fn to_json(&self) -> (r: Vec<char>)
        ensures
            r@ == self.json(),
    {
        let mut m: Vec<Vec<char>> = Vec::new();
        m.push(member_of("artifact_type", self.artifact_type.to_json()));
        m.push(member_of("value", quote(self.value.as_str())));
        m.push(member_of("context", optional_of(&self.context)));
        m.push(member_of("confidence", number_of(self.confidence)));
        m.push(member_of("source", optional_of(&self.source)));
        assert(texts(m@) =~= seq![
            member("artifact_type"@, self.artifact_type.json()),
            member("value"@, json_string(self.value@)),
            member("context"@, optional(opt_text(self.context))),
            member("confidence"@, decimal(self.confidence as nat)),
            member("source"@, optional(opt_text(self.source))),
        ]);
        object_of(&m)
    }
}

/// An array of artifacts.
pub open spec fn artifact_array(list: Seq<Artifact>) -> Seq<char> {
    array(list.map_values(|a: Artifact| a.json()))
}

/// Writes an array of artifacts.
pub fn artifact_array_of(list: &Vec<Artifact>) -> (r: Vec<char>)
    ensures
        r@ == artifact_array(list@),
{
    let mut items: Vec<Vec<char>> = Vec::new();
    let mut i: usize = 0;
    while i < list.len()
        invariant
            i <= list.len(),
            items@.len() == i,
            forall|k: int| 0 <= k < i ==> (#[trigger] items@[k])@ == list@[k].json(),
        decreases list.len() - i,
    {
        items.push(list[i].to_json());
        i += 1;
    }
    assert(texts(items@) =~= list@.map_values(|a: Artifact| a.json()));
    array_of(&items)
}

impl EnrichmentFinding {
    /// The finding in canonical form.
    pub open spec fn json(self) -> Seq<char> {
        object(
            seq![
                member("finding_type"@, json_string(self.finding_type@)),
                member("title"@, json_string(self.title@)),
                member("url"@, optional(opt_text(self.url))),
                member("snippet"@, json_string(self.snippet@)),
                member("relevance"@, decimal(self.relevance as nat)),
            ],
        )
    }

    /// Writes the finding in canonical form.
    pub fn to_json(&self) -> (r: Vec<char>)
        ensures
            r@ == self.json(),
    {
        let mut m: Vec<Vec<char>> = Vec::new();
        m.push(member_of("finding_type", quote(self.finding_type.as_str())));
        m.push(member_of("title", quote(self.title.as_str())));
        m.push(member_of("url", optional_of(&self.url)));
        m.push(member_of("snippet", quote(self.snippet.as_str())));
        m.push(member_of("relevance", number_of(self.relevance)));
        assert(texts(m@) =~= seq![
            member("finding_type"@, json_string(self.finding_type@)),
            member("title"@, json_string(self.title@)),
            member("url"@, optional(opt_text(self.url))),
            member("snippet"@, json_string(self.snippet@)),
            member("relevance"@, decimal(self.relevance as nat)),
        ]);
        object_of(&m)
    }
}

/// An array of findings.
pub open spec fn finding_array(list: Seq<EnrichmentFinding>) -> Seq<char> {
    array(list.map_values(|f: EnrichmentFinding| f.json()))
}

/// Writes an array of findings.
pub fn finding_array_of(list: &Vec<EnrichmentFinding>) -> (r: Vec<char>)
    ensures
        r@ == finding_array(list@),
{
    let mut items: Vec<Vec<char>> = Vec::new();
    let mut i: usize = 0;
    while i < list.len()
        invariant
            i <= list.len(),
            items@.len() == i,
            forall|k: int| 0 <= k < i ==> (#[trigger] items@[k])@ == list@[k].json(),
        decreases list.len() - i,
    {
        items.push(list[i].to_json());
        i += 1;
    }
    assert(texts(items@) =~= list@.map_values(|f: EnrichmentFinding| f.json()));
    array_of(&items)
}

impl TemporalPattern {
    /// The pattern in canonical form.
    pub open spec fn json(self) -> Seq<char> {
        object(
            seq![
                member("pattern_type"@, json_string(self.pattern_type@)),
                member("description"@, json_string(self.description@)),
                member("confidence"@, decimal(self.confidence as nat)),
                member("evidence"@, string_array(self.evidence@)),
            ],
        )
    }

    /// Writes the pattern in canonical form.
    pub fn to_json(&self) -> (r: Vec<char>)
        ensures
            r@ == self.json(),
    {
        let mut m: Vec<Vec<char>> = Vec::new();
        m.push(member_of("pattern_type", quote(self.pattern_type.as_str())));
        m.push(member_of("description", quote(self.description.as_str())));
        m.push(member_of("confidence", number_of(self.confidence)));
        m.push(member_of("evidence", string_array_of(&self.evidence)));
        assert(texts(m@) =~= seq![
            member("pattern_type"@, json_string(self.pattern_type@)),
            member("description"@, json_string(self.description@)),
            member("confidence"@, decimal(self.confidence as nat)),
            member("evidence"@, string_array(self.evidence@)),
        ]);
        object_of(&m)
    }
}

/// An array of patterns.
pub open spec fn pattern_array(list: Seq<TemporalPattern>) -> Seq<char> {
    array(list.map_values(|p: TemporalPattern| p.json()))
}

/// Writes an array of patterns.
pub fn pattern_array_of(list: &Vec<TemporalPattern>) -> (r: Vec<char>)
    ensures
        r@ == pattern_array(list@),
{
    let mut items: Vec<Vec<char>> = Vec::new();
    let mut i: usize = 0;
    while i < list.len()
        invariant
            i <= list.len(),
            items@.len() == i,
            forall|k: int| 0 <= k < i ==> (#[trigger] items@[k])@ == list@[k].json(),
        decreases list.len() - i,
    {
        items.push(list[i].to_json());
        i += 1;
    }
    assert(texts(items@) =~= list@.map_values(|p: TemporalPattern| p.json()));
    array_of(&items)
}

impl WalletAnalysis {
    /// The analysis in canonical form.
    pub open spec fn json(self) -> Seq<char> {
        object(
            seq![
                member("first_seen"@, optional_signed(self.first_seen)),
                member("last_seen"@, optional_signed(self.last_seen)),
                member("tx_count"@, decimal(self.tx_count as nat)),
                member("total_received"@, decimal(self.total_received as nat)),
                member("total_sent"@, decimal(self.total_sent as nat)),
                member("balance"@, decimal(self.balance as nat)),
                member("patterns"@, pattern_array(self.patterns@)),
                member("risk_indicators"@, string_array(self.risk_indicators@)),
            ],
        )
    }

    /// Writes the analysis in canonical form.
    pub fn to_json(&self) -> (r: Vec<char>)
        ensures
            r@ == self.json(),
    {
        let mut m: Vec<Vec<char>> = Vec::new();
        m.push(member_of("first_seen", optional_signed_of(&self.first_seen)));
        m.push(member_of("last_seen", optional_signed_of(&self.last_seen)));
        m.push(member_of("tx_count", number_of(self.tx_count as u64)));
        m.push(member_of("total_received", number_of(self.total_received)));
        m.push(member_of("total_sent", number_of(self.total_sent)));
        m.push(member_of("balance", number_of(self.balance)));
        m.push(member_of("patterns", pattern_array_of(&self.patterns)));
        m.push(member_of("risk_indicators", string_array_of(&self.risk_indicators)));
        assert(texts(m@) =~= seq![
            member("first_seen"@, optional_signed(self.first_seen)),
            member("last_seen"@, optional_signed(self.last_seen)),
            member("tx_count"@, decimal(self.tx_count as nat)),
            member("total_received"@, decimal(self.total_received as nat)),
            member("total_sent"@, decimal(self.total_sent as nat)),
            member("balance"@, decimal(self.balance as nat)),
            member("patterns"@, pattern_array(self.patterns@)),
            member("risk_indicators"@, string_array(self.risk_indicators@)),
        ]);
        object_of(&m)
    }
}

impl InsightCategory {
    /// The category's name in snake case.
    pub open spec fn name(self) -> Seq<char> {
        match self {
            InsightCategory::ThreatActor => "threat_actor"@,
            InsightCategory::Malware => "malware"@,
            InsightCategory::Vulnerability => "vulnerability"@,
            InsightCategory::DataLeak => "data_leak"@,
            InsightCategory::Infrastructure => "infrastructure"@,
            InsightCategory::Financial => "financial"@,
            InsightCategory::Operational => "operational"@,
            InsightCategory::Attribution => "attribution"@,
        }
    }

    /// The category's name in snake case.
    pub fn as_str(&self) -> (r: &'static str)
        ensures
            r@ == self.name(),
    {
        match self {
            InsightCategory::ThreatActor => "threat_actor",
            InsightCategory::Malware => "malware",
            InsightCategory::Vulnerability => "vulnerability",
            InsightCategory::DataLeak => "data_leak",
            InsightCategory::Infrastructure => "infrastructure",
            InsightCategory::Financial => "financial",
            InsightCategory::Operational => "operational",
            InsightCategory::Attribution => "attribution",
        }
    }
}

impl AgentType {
    /// The kind's name in snake case.
    pub open spec fn name(self) -> Seq<char> {
        match self {
            AgentType::Refiner => "refiner"@,
            AgentType::Crawler => "crawler"@,
            AgentType::Filter => "filter"@,
            AgentType::Scraper => "scraper"@,
            AgentType::Extractor => "extractor"@,
            AgentType::Enricher => "enricher"@,
            AgentType::BlockchainAnalyst => "blockchain_analyst"@,
            AgentType::PasteMonitor => "paste_monitor"@,
            AgentType::Analyst => "analyst"@,
        }
    }

    /// The kind's name in snake case.
    pub fn as_str(&self) -> (r: &'static str)
        ensures
            r@ == self.name(),
    {
        match self {
            AgentType::Refiner => "refiner",
            AgentType::Crawler => "crawler",
            AgentType::Filter => "filter",
            AgentType::Scraper => "scraper",
            AgentType::Extractor => "extractor",
            AgentType::Enricher => "enricher",
            AgentType::BlockchainAnalyst => "blockchain_analyst",
            AgentType::PasteMonitor => "paste_monitor",
            AgentType::Analyst => "analyst",
        }
    }
}

/// The variant's tag.
pub open spec fn payload_tag(p: OsintPayload) -> Seq<char> {
    match p {
        OsintPayload::UserQuery { .. } => "user_query"@,
        OsintPayload::RefinedQuery { .. } => "refined_query"@,
        OsintPayload::RawResult { .. } => "raw_result"@,
        OsintPayload::FilteredResult { .. } => "filtered_result"@,
        OsintPayload::ScrapedContent { .. } => "scraped_content"@,
        OsintPayload::ExtractedArtifacts { .. } => "extracted_artifacts"@,
        OsintPayload::Insight { .. } => "insight"@,
        OsintPayload::Summary { .. } => "summary"@,
        OsintPayload::EnrichedArtifacts { .. } => "enriched_artifacts"@,
        OsintPayload::BlockchainAnalysis { .. } => "blockchain_analysis"@,
        OsintPayload::PasteContent { .. } => "paste_content"@,
        OsintPayload::Heartbeat { .. } => "heartbeat"@,
        OsintPayload::TaskClaim { .. } => "task_claim"@,
    }
}

/// The members of a payload after its tag.
pub open spec fn payload_members(p: OsintPayload) -> Seq<Seq<char>> {
    match p {
        OsintPayload::UserQuery { query, priority } => seq![
            member("query"@, json_string(query@)),
            member("priority"@, decimal(priority as nat)),
        ],
        OsintPayload::RefinedQuery { original, refined, confidence } => seq![
            member("original"@, json_string(original@)),
            member("refined"@, json_string(refined@)),
            member("confidence"@, decimal(confidence as nat)),
        ],
        OsintPayload::RawResult { url, title, engine } => seq![
            member("url"@, json_string(url@)),
            member("title"@, json_string(title@)),
            member("engine"@, json_string(engine@)),
        ],
        OsintPayload::FilteredResult { url, title, relevance, reason } => seq![
            member("url"@, json_string(url@)),
            member("title"@, json_string(title@)),
            member("relevance"@, decimal(relevance as nat)),
            member("reason"@, json_string(reason@)),
        ],
        OsintPayload::ScrapedContent { url, title, text, char_count } => seq![
            member("url"@, json_string(url@)),
            member("title"@, json_string(title@)),
            member("text"@, json_string(text@)),
            member("char_count"@, decimal(char_count as nat)),
        ],
        OsintPayload::ExtractedArtifacts { source_url, artifacts } => seq![
            member("source_url"@, json_string(source_url@)),
            member("artifacts"@, artifact_array(artifacts@)),
        ],
        OsintPayload::Insight { category, content, sources, confidence } => seq![
            member("category"@, json_string(category.name())),
            member("content"@, json_string(content@)),
            member("sources"@, string_array(sources@)),
            member("confidence"@, decimal(confidence as nat)),
        ],
        OsintPayload::Summary { markdown, artifact_count, source_count } => seq![
            member("markdown"@, json_string(markdown@)),
            member("artifact_count"@, decimal(artifact_count as nat)),
            member("source_count"@, decimal(source_count as nat)),
        ],
        OsintPayload::EnrichedArtifacts { artifact, source, findings } => seq![
            member("artifact"@, artifact.json()),
            member("source"@, json_string(source@)),
            member("findings"@, finding_array(findings@)),
        ],
        OsintPayload::BlockchainAnalysis { address, chain, analysis } => seq![
            member("address"@, json_string(address@)),
            member("chain"@, json_string(chain@)),
            member("analysis"@, analysis.json()),
        ],
        OsintPayload::PasteContent { url, site, title, content, created_at, author } => seq![
            member("url"@, json_string(url@)),
            member("site"@, json_string(site@)),
            member("title"@, optional(opt_text(title))),
            member("content"@, json_string(content@)),
            member("created_at"@, optional(opt_text(created_at))),
            member("author"@, optional(opt_text(author))),
        ],
        OsintPayload::Heartbeat { agent_id, agent_type, capacity } => seq![
            member("agent_id"@, json_string(agent_id@)),
            member("agent_type"@, json_string(agent_type.name())),
            member("capacity"@, decimal(capacity as nat)),
        ],
        OsintPayload::TaskClaim { task_id, claimer_id, affinity } => seq![
            member("task_id"@, json_string(task_id@)),
            member("claimer_id"@, json_string(claimer_id@)),
            member("affinity"@, decimal(affinity as nat)),
        ],
    }
}

/// The canonical form of a payload: an object of its `type` tag and its
/// members.
pub open spec fn canonical_json(p: OsintPayload) -> Seq<char> {
    object(seq![member("type"@, json_string(payload_tag(p)))] + payload_members(p))
}

fn tag_member(tag: &str) -> (m: Vec<Vec<char>>)
    ensures
        texts(m@) == seq![member("type"@, json_string(tag@))],
{
    let mut m: Vec<Vec<char>> = Vec::new();
    m.push(member_of("type", quote(tag)));
    assert(texts(m@) =~= seq![member("type"@, json_string(tag@))]);
    m
}

/// Writes a payload in canonical form.
pub fn payload_json(p: &OsintPayload) -> (r: Vec<char>)
    ensures
        r@ == canonical_json(*p),
{
    let ghost head = seq![member("type"@, json_string(payload_tag(*p)))];
    let m = match p {
        OsintPayload::UserQuery { query, priority } => {
            let mut m = tag_member("user_query");
            m.push(member_of("query", quote(query.as_str())));
            m.push(member_of("priority", number_of(*priority)));
            m
        },
        OsintPayload::RefinedQuery { original, refined, confidence } => {
            let mut m = tag_member("refined_query");
            m.push(member_of("original", quote(original.as_str())));
            m.push(member_of("refined", quote(refined.as_str())));
            m.push(member_of("confidence", number_of(*confidence)));
            m
        },
        OsintPayload::RawResult { url, title, engine } => {
            let mut m = tag_member("raw_result");
            m.push(member_of("url", quote(url.as_str())));
            m.push(member_of("title", quote(title.as_str())));
            m.push(member_of("engine", quote(engine.as_str())));
            m
        },
        OsintPayload::FilteredResult { url, title, relevance, reason } => {
            let mut m = tag_member("filtered_result");
            m.push(member_of("url", quote(url.as_str())));
            m.push(member_of("title", quote(title.as_str())));
            m.push(member_of("relevance", number_of(*relevance)));
            m.push(member_of("reason", quote(reason.as_str())));
            m
        },
        OsintPayload::ScrapedContent { url, title, text, char_count } => {
            let mut m = tag_member("scraped_content");
            m.push(member_of("url", quote(url.as_str())));
            m.push(member_of("title", quote(title.as_str())));
            m.push(member_of("text", quote(text.as_str())));
            m.push(member_of("char_count", number_of(*char_count as u64)));
            m
        },
        OsintPayload::ExtractedArtifacts { source_url, artifacts } => {
            let mut m = tag_member("extracted_artifacts");
            m.push(member_of("source_url", quote(source_url.as_str())));
            m.push(member_of("artifacts", artifact_array_of(artifacts)));
            m
        },
        OsintPayload::Insight { category, content, sources, confidence } => {
            let mut m = tag_member("insight");
            m.push(member_of("category", quote(category.as_str())));
            m.push(member_of("content", quote(content.as_str())));
            m.push(member_of("sources", string_array_of(sources)));
            m.push(member_of("confidence", number_of(*confidence)));
            m
        },
        OsintPayload::Summary { markdown, artifact_count, source_count } => {
            let mut m = tag_member("summary");
            m.push(member_of("markdown", quote(markdown.as_str())));
            m.push(member_of("artifact_count", number_of(*artifact_count as u64)));
            m.push(member_of("source_count", number_of(*source_count as u64)));
            m
        },
        OsintPayload::EnrichedArtifacts { artifact, source, findings } => {
            let mut m = tag_member("enriched_artifacts");
            m.push(member_of("artifact", artifact.to_json()));
            m.push(member_of("source", quote(source.as_str())));
            m.push(member_of("findings", finding_array_of(findings)));
            m
        },
        OsintPayload::BlockchainAnalysis { address, chain, analysis } => {
            let mut m = tag_member("blockchain_analysis");
            m.push(member_of("address", quote(address.as_str())));
            m.push(member_of("chain", quote(chain.as_str())));
            m.push(member_of("analysis", analysis.to_json()));
            m
        },
        OsintPayload::PasteContent { url, site, title, content, created_at, author } => {
            let mut m = tag_member("paste_content");
            m.push(member_of("url", quote(url.as_str())));
            m.push(member_of("site", quote(site.as_str())));
            m.push(member_of("title", optional_of(title)));
            m.push(member_of("content", quote(content.as_str())));
            m.push(member_of("created_at", optional_of(created_at)));
            m.push(member_of("author", optional_of(author)));
            m
        },
        OsintPayload::Heartbeat { agent_id, agent_type, capacity } => {
            let mut m = tag_member("heartbeat");
            m.push(member_of("agent_id", quote(agent_id.as_str())));
            m.push(member_of("agent_type", quote(agent_type.as_str())));
            m.push(member_of("capacity", number_of(*capacity)));
            m
        },
        OsintPayload::TaskClaim { task_id, claimer_id, affinity } => {
            let mut m = tag_member("task_claim");
            m.push(member_of("task_id", quote(task_id.as_str())));
            m.push(member_of("claimer_id", quote(claimer_id.as_str())));
            m.push(member_of("affinity", number_of(*affinity)));
            m
        },
    };
    assert(texts(m@) =~= head + payload_members(*p));
    object_of(&m)
}

} // verus!
