//! The paste monitor: looks on public paste sites for what a refined
//! query names.

use vstd::prelude::*;
use vstd::utf8::encode_utf8;
use crate::agents::blockchain::{gets, page_body};
use crate::agents::enricher::{encode, percent_encode};
use crate::agents::traits::{
    delivered, emit_all, is_success, note, noted, pulse, pulsed, success, AgentConfig, AgentError,
    Outgoing, Reply, Request, Step,
};
use crate::artifacts::opt_text;
use crate::agents::filter::refined_of;
use crate::field::{lemma_filter_step, of_kind, refs, Field};
use crate::html::{gather_spaced, pick, picked_models, selected, spaced_text, PickedModel};
use crate::json::{column, json_texts, optional_texts, required_texts, texts_at};
use crate::signals::{AgentType, OsintPayload, PayloadKind, Signal};
use crate::text::{
    begins, chars_of, lowercase, names, push_chars, push_str, split_words, starts_with, text_of,
    texts, to_lowercase, words,
};
use crate::units::UNIT;

verus! {

/// Confidence of a paste: 0.7.
pub const PASTE_CONFIDENCE: u64 = 700_000;

/// Lifetime of a paste: 300 seconds.
pub const PASTE_TTL: u64 = 300_000;

/// Lifetime of the monitor's heartbeat: 30 seconds.
pub const PASTE_HEARTBEAT_TTL: u64 = 30_000;

/// Most slugs that are tried on Rentry for a query.
pub const MAX_SLUGS: usize = 5;

/// Settings of the monitor.
#[derive(Debug, Clone)]
pub struct PasteMonitorConfig {
    /// Most pastes taken from a site
    pub max_pastes_per_site: usize,
    /// Seconds after which a request is given up
    pub request_timeout: u64,
    /// Fewest characters of a paste that is fetched
    pub min_paste_length: usize,
}

impl Default for PasteMonitorConfig {
    /// Ten pastes a site, thirty seconds, fifty characters.
    fn default() -> (c: PasteMonitorConfig)
        ensures
            c.max_pastes_per_site == 10,
            c.request_timeout == 30,
            c.min_paste_length == 50,
    {
        PasteMonitorConfig { max_pastes_per_site: 10, request_timeout: 30, min_paste_length: 50 }
    }
}

impl PasteMonitorConfig {
    /// A copy of the settings.
    pub fn duplicate(&self) -> (c: PasteMonitorConfig)
        ensures
            c == *self,
    {
        PasteMonitorConfig {
            max_pastes_per_site: self.max_pastes_per_site,
            request_timeout: self.request_timeout,
            min_paste_length: self.min_paste_length,
        }
    }
}

/// A paste that was found.
#[derive(Debug, Clone)]
pub struct PasteResult {
    pub url: String,
    pub site: String,
    pub title: Option<String>,
    pub content: String,
    pub created_at: Option<String>,
    pub author: Option<String>,
}

/// What a found paste says.
pub struct PasteModel {
    pub url: Seq<char>,
    pub site: Seq<char>,
    pub title: Option<Seq<char>>,
    pub content: Seq<char>,
    pub created_at: Option<Seq<char>>,
    pub author: Option<Seq<char>>,
}

impl PasteResult {
    /// What the paste says.
    pub open spec fn model(&self) -> PasteModel {
        PasteModel {
            url: self.url@,
            site: self.site@,
            title: opt_text(self.title),
            content: self.content@,
            created_at: opt_text(self.created_at),
            author: opt_text(self.author),
        }
    }
}

/// The model of each paste.
pub open spec fn paste_models(v: Seq<PasteResult>) -> Seq<PasteModel> {
    v.map_values(|p: PasteResult| p.model())
}

/// The slugs under which a query is looked for: its words in lower case,
/// and its first two words joined by a hyphen and by an underscore.
pub open spec fn slugs_of(query: Seq<char>) -> Seq<Seq<char>> {
    let w = words(query);
    let single = w.map_values(|x: Seq<char>| lowercase(x));
    if w.len() >= 2 {
        single.push(lowercase(w[0] + seq!['-'] + w[1])).push(lowercase(w[0] + seq!['_'] + w[1]))
    } else {
        single
    }
}

/// The slugs under which a query is looked for.
pub fn generate_search_slugs(query: &str) -> (out: Vec<String>)
    ensures
        names(out@) == slugs_of(query@),
{
    let w = split_words(&chars_of(query));
    let ghost ws = words(query@);
    let mut out: Vec<String> = Vec::new();
    let mut i: usize = 0;
    while i < w.len()
        invariant
            i <= w.len(),
            texts(w@) == ws,
            out@.len() == i,
            forall|k: int| 0 <= k < i ==> (#[trigger] out@[k])@ == lowercase(ws[k]),
        decreases w.len() - i,
    {
        assert(texts(w@)[i as int] == w@[i as int]@);
        out.push(to_lowercase(text_of(&w[i]).as_str()));
        i += 1;
    }
    assert(names(out@) =~= ws.map_values(|x: Seq<char>| lowercase(x)));
    if w.len() >= 2 {
        assert(texts(w@)[0] == w@[0]@);
        assert(texts(w@)[1] == w@[1]@);
        let mut a: Vec<char> = Vec::new();
        push_chars(&mut a, &w[0]);
        a.push('-');
        push_chars(&mut a, &w[1]);
        assert(a@ =~= ws[0] + seq!['-'] + ws[1]);
        let mut b: Vec<char> = Vec::new();
        push_chars(&mut b, &w[0]);
        b.push('_');
        push_chars(&mut b, &w[1]);
        assert(b@ =~= ws[0] + seq!['_'] + ws[1]);
        let ghost before = names(out@);
        out.push(to_lowercase(text_of(&a).as_str()));
        out.push(to_lowercase(text_of(&b).as_str()));
        assert(names(out@) =~= before.push(lowercase(a@)).push(lowercase(b@)));
    }
    out
}

/// The smaller of two numbers.
pub open spec fn lesser(a: nat, b: nat) -> nat {
    if a <= b {
        a
    } else {
        b
    }
}

fn smaller(a: usize, b: usize) -> (r: usize)
    ensures
        r == lesser(a as nat, b as nat),
{
    if a <= b {
        a
    } else {
        b
    }
}

/// The text of an optional text, or the empty text.
pub open spec fn or_empty(o: Option<Seq<char>>) -> Seq<char> {
    match o {
        Some(s) => s,
        None => Seq::empty(),
    }
}

/// The pastes of a Pastebin search: the first `max` entries, where every
/// entry has an id. (The columns of one array are equally long; the count
/// is written as their least length because nothing here says so.)
pub open spec fn pastebin_found(body: Seq<char>, max: nat) -> Seq<PasteModel> {
    match (
        column(body, "/data"@, "/id"@),
        json_texts(body, "/data"@, "/title"@),
        json_texts(body, "/data"@, "/content"@),
        json_texts(body, "/data"@, "/time"@),
        json_texts(body, "/data"@, "/author"@),
    ) {
        (Some(id), Some(title), Some(content), Some(time), Some(author)) => Seq::new(
            lesser(
                lesser(lesser(id.len(), title.len()), lesser(content.len(), time.len())),
                lesser(author.len(), max),
            ),
            |i: int|
                PasteModel {
                    url: "https://pastebin.com/"@ + id[i],
                    site: "pastebin"@,
                    title: title[i],
                    content: or_empty(content[i]),
                    created_at: time[i],
                    author: author[i],
                },
        ),
        _ => Seq::empty(),
    }
}

/// The pastes of a Pastebin search.
pub fn pastebin_results(body: &str, max: usize) -> (out: Vec<PasteResult>)
    ensures
        paste_models(out@) == pastebin_found(body@, max as nat),
{
    let mut out: Vec<PasteResult> = Vec::new();
    assert(paste_models(out@) =~= Seq::<PasteModel>::empty());
    let id = match required_texts(body, "/data", "/id") {
        Some(v) => v,
        None => {
            return out;
        },
    };
    let title = match texts_at(body, "/data", "/title") {
        Some(v) => v,
        None => {
            return out;
        },
    };
    let content = match texts_at(body, "/data", "/content") {
        Some(v) => v,
        None => {
            return out;
        },
    };
    let time = match texts_at(body, "/data", "/time") {
        Some(v) => v,
        None => {
            return out;
        },
    };
    let author = match texts_at(body, "/data", "/author") {
        Some(v) => v,
        None => {
            return out;
        },
    };
    let n = smaller(
        smaller(smaller(id.len(), title.len()), smaller(content.len(), time.len())),
        smaller(author.len(), max),
    );
    let ghost want = pastebin_found(body@, max as nat);
    let mut i: usize = 0;
    while i < n
        invariant
            i <= n,
            n <= id@.len(),
            n <= title@.len(),
            n <= content@.len(),
            n <= time@.len(),
            n <= author@.len(),
            want.len() == n,
            forall|k: int|
                0 <= k < n ==> #[trigger] want[k] == (PasteModel {
                    url: "https://pastebin.com/"@ + names(id@)[k],
                    site: "pastebin"@,
                    title: optional_texts(title@)[k],
                    content: or_empty(optional_texts(content@)[k]),
                    created_at: optional_texts(time@)[k],
                    author: optional_texts(author@)[k],
                }),
            out@.len() == i,
            forall|k: int| 0 <= k < i ==> #[trigger] paste_models(out@)[k] == want[k],
        decreases n - i,
    {
        let mut url = chars_of("https://pastebin.com/");
        push_str(&mut url, id[i].as_str());
        let text = match &content[i] {
            Some(c) => c.clone(),
            None => String::new(),
        };
        let ghost before = paste_models(out@);
        out.push(
            PasteResult {
                url: text_of(&url),
                site: "pastebin".to_owned(),
                title: crate::artifacts::copy_opt(&title[i]),
                content: text,
                created_at: crate::artifacts::copy_opt(&time[i]),
                author: crate::artifacts::copy_opt(&author[i]),
            },
        );
        proof {
            assert(names(id@)[i as int] == id@[i as int]@);
            assert(optional_texts(title@)[i as int] == opt_text(title@[i as int]));
            assert(optional_texts(content@)[i as int] == opt_text(content@[i as int]));
            assert(optional_texts(time@)[i as int] == opt_text(time@[i as int]));
            assert(optional_texts(author@)[i as int] == opt_text(author@[i as int]));
            assert forall|k: int| 0 <= k < i + 1 implies #[trigger] paste_models(out@)[k]
                == want[k] by {
                if k < i {
                    assert(paste_models(out@)[k] == before[k]);
                }
            }
        }
        i += 1;
    }
    assert(paste_models(out@) =~= want);
    out
}

/// The pastes of dpaste's list of recent pastes: the first `max` entries,
/// where every entry has an id and a time; their text is still to fetch.
pub open spec fn dpaste_found(body: Seq<char>, max: nat) -> Seq<PasteModel> {
    match (column(body, ""@, "/id"@), column(body, ""@, "/created"@)) {
        (Some(id), Some(created)) => Seq::new(
            lesser(lesser(id.len(), created.len()), max),
            |i: int|
                PasteModel {
                    url: "https://dpaste.org/"@ + id[i],
                    site: "dpaste"@,
                    title: None,
                    content: Seq::empty(),
                    created_at: Some(created[i]),
                    author: None,
                },
        ),
        _ => Seq::empty(),
    }
}

/// The pastes of dpaste's list of recent pastes.
pub fn dpaste_results(body: &str, max: usize) -> (out: Vec<PasteResult>)
    ensures
        paste_models(out@) == dpaste_found(body@, max as nat),
{
    let mut out: Vec<PasteResult> = Vec::new();
    assert(paste_models(out@) =~= Seq::<PasteModel>::empty());
    let id = match required_texts(body, "", "/id") {
        Some(v) => v,
        None => {
            return out;
        },
    };
    let created = match required_texts(body, "", "/created") {
        Some(v) => v,
        None => {
            return out;
        },
    };
    let n = smaller(smaller(id.len(), created.len()), max);
    let ghost want = dpaste_found(body@, max as nat);
    let mut i: usize = 0;
    while i < n
        invariant
            i <= n,
            n <= id@.len(),
            n <= created@.len(),
            want.len() == n,
            forall|k: int|
                0 <= k < n ==> #[trigger] want[k] == (PasteModel {
                    url: "https://dpaste.org/"@ + names(id@)[k],
                    site: "dpaste"@,
                    title: None,
                    content: Seq::empty(),
                    created_at: Some(names(created@)[k]),
                    author: None,
                }),
            out@.len() == i,
            forall|k: int| 0 <= k < i ==> #[trigger] paste_models(out@)[k] == want[k],
        decreases n - i,
    {
        let mut url = chars_of("https://dpaste.org/");
        push_str(&mut url, id[i].as_str());
        let ghost before = paste_models(out@);
        out.push(
            PasteResult {
                url: text_of(&url),
                site: "dpaste".to_owned(),
                title: None,
                content: String::new(),
                created_at: Some(created[i].clone()),
                author: None,
            },
        );
        proof {
            assert(names(id@)[i as int] == id@[i as int]@);
            assert(names(created@)[i as int] == created@[i as int]@);
            assert forall|k: int| 0 <= k < i + 1 implies #[trigger] paste_models(out@)[k]
                == want[k] by {
                if k < i {
                    assert(paste_models(out@)[k] == before[k]);
                }
            }
        }
        i += 1;
    }
    assert(paste_models(out@) =~= want);
    out
}

/// The paste that a picked link stands for, on the site `site` at `base`:
/// its target, made absolute, and its text as title.
pub open spec fn linked(e: PickedModel, base: Seq<char>, site: Seq<char>) -> Option<PasteModel> {
    match e.href {
        Some(h) => Some(
            PasteModel {
                url: if starts_with(h, "http"@) {
                    h
                } else {
                    base + h
                },
                site,
                title: if spaced_text(e.texts).len() == 0 {
                    None
                } else {
                    Some(spaced_text(e.texts))
                },
                content: Seq::empty(),
                created_at: None,
                author: None,
            },
        ),
        None => None,
    }
}

/// The pastes of the links among the elements.
pub open spec fn linked_all(es: Seq<PickedModel>, base: Seq<char>, site: Seq<char>) -> Seq<
    PasteModel,
>
    decreases es.len(),
{
    if es.len() == 0 {
        Seq::empty()
    } else {
        match linked(es.last(), base, site) {
            Some(p) => linked_all(es.drop_last(), base, site).push(p),
            None => linked_all(es.drop_last(), base, site),
        }
    }
}

/// The pastes that a result page of a site links to: of the first `max`
/// elements that `selector` picks, those that have a target.
pub open spec fn links_found(
    html: Seq<char>,
    selector: Seq<char>,
    base: Seq<char>,
    site: Seq<char>,
    max: nat,
) -> Seq<PasteModel> {
    let es = selected(html, selector);
    linked_all(es.take(lesser(es.len(), max) as int), base, site)
}

/// The pastes that a result page of a site links to.
pub fn link_results(html: &str, selector: &str, base: &str, site: &str, max: usize) -> (out: Vec<
    PasteResult,
>)
    ensures
        paste_models(out@) == links_found(html@, selector@, base@, site@, max as nat),
{
    let es = pick(html, selector);
    let n = smaller(es.len(), max);
    let ghost m = picked_models(es@).take(n as int);
    let mut out: Vec<PasteResult> = Vec::new();
    let mut i: usize = 0;
    proof {
        assert(m.take(0) =~= Seq::<PickedModel>::empty());
        assert(paste_models(out@) =~= linked_all(m.take(0), base@, site@));
    }
    while i < n
        invariant
            i <= n,
            n <= es@.len(),
            m == picked_models(es@).take(n as int),
            paste_models(out@) == linked_all(m.take(i as int), base@, site@),
        decreases n - i,
    {
        proof {
            assert(m.take(i + 1).drop_last() =~= m.take(i as int));
            assert(m.take(i + 1).last() == es@[i as int].model());
        }
        match &es[i].href {
            Some(h) => {
                let target = chars_of(h.as_str());
                let url = if begins(&target, "http") {
                    text_of(&target)
                } else {
                    let mut u = chars_of(base);
                    push_chars(&mut u, &target);
                    text_of(&u)
                };
                let label = gather_spaced(&es[i].texts);
                let title = if label.len() == 0 { None } else { Some(text_of(&label)) };
                let ghost before = paste_models(out@);
                let p = PasteResult {
                    url,
                    site: site.to_owned(),
                    title,
                    content: String::new(),
                    created_at: None,
                    author: None,
                };
                out.push(p);
                assert(paste_models(out@) =~= before.push(p.model()));
            },
            None => {},
        }
        i += 1;
    }
    assert(m.take(n as int) =~= m);
    out
}

/// The pastes that ControlC's result page links to.
pub fn parse_controlc_results(html: &str, max: usize) -> (out: Vec<PasteResult>)
    ensures
        paste_models(out@) == links_found(
            html@,
            ".paste-link"@,
            "https://controlc.com"@,
            "controlc"@,
            max as nat,
        ),
{
    link_results(html, ".paste-link", "https://controlc.com", "controlc", max)
}

/// The pastes that JustPaste.it's result page links to.
pub fn parse_justpaste_results(html: &str, max: usize) -> (out: Vec<PasteResult>)
    ensures
        paste_models(out@) == links_found(
            html@,
            ".result-item a"@,
            "https://justpaste.it"@,
            "justpaste"@,
            max as nat,
        ),
{
    link_results(html, ".result-item a", "https://justpaste.it", "justpaste", max)
}

/// The text of a Rentry page: that of its first element of the class
/// `markdown-body`.
pub open spec fn rentry_text(html: Seq<char>) -> Option<Seq<char>> {
    let es = selected(html, ".markdown-body"@);
    if es.len() == 0 {
        None
    } else {
        Some(spaced_text(es[0].texts))
    }
}

/// The text of a Rentry page.
pub fn extract_rentry_content(html: &str) -> (r: Option<String>)
    ensures
        opt_text(r) == rentry_text(html@),
{
    let es = pick(html, ".markdown-body");
    if es.len() == 0 {
        return None;
    }
    assert(picked_models(es@)[0] == es@[0].model());
    Some(text_of(&gather_spaced(&es[0].texts)))
}

/// The address from which the text of a paste is fetched.
pub open spec fn raw_url(p: PasteModel) -> Seq<char> {
    if p.site == "pastebin"@ || p.site == "controlc"@ || p.site == "dpaste"@ {
        p.url + "/raw"@
    } else {
        p.url
    }
}

/// The address from which the text of a paste is fetched.
pub fn raw_address(p: &PasteResult) -> (r: String)
    ensures
        r@ == raw_url(p.model()),
{
    let site = p.site.as_str();
    if crate::text::same_text(site, "pastebin") || crate::text::same_text(site, "controlc")
        || crate::text::same_text(site, "dpaste") {
        let mut u = chars_of(p.url.as_str());
        push_str(&mut u, "/raw");
        text_of(&u)
    } else {
        p.url.clone()
    }
}

/// A query that is being looked for.
#[derive(Debug, Clone)]
pub struct SearchPlan {
    pub query: String,
    /// The slugs that are tried on Rentry
    pub slugs: Vec<String>,
}

/// What the monitor waits for.
#[derive(Debug)]
pub enum PasteStage {
    /// Nothing
    Idle,
    /// The answers of the sites to the searches
    Searching(Vec<SearchPlan>),
    /// The texts of the pastes that were found without their text
    Fetching(Vec<PasteResult>),
}

/// The paste monitor.
pub struct PasteMonitorAgent {
    pub config: AgentConfig,
    pub paste_config: PasteMonitorConfig,
    /// The keys of the refined queries that were looked for
    pub processed_urls: Vec<String>,
    pub stage: PasteStage,
}

/// The addresses that are fetched for a query: Pastebin's search, a Rentry
/// page for each slug, dpaste's list, and the searches of ControlC and
/// JustPaste.it.
pub open spec fn search_urls(query: Seq<char>, slugs: Seq<Seq<char>>) -> Seq<Seq<char>> {
    seq!["https://psbdmp.ws/api/v3/search/"@ + percent_encode(encode_utf8(query))]
        + slugs.map_values(|s: Seq<char>| "https://rentry.co/"@ + s) + seq![
        "https://dpaste.org/api/?format=json"@,
        "https://controlc.com/search?q="@ + percent_encode(encode_utf8(query)),
        "https://justpaste.it/search?q="@ + percent_encode(encode_utf8(query)),
    ]
}

/// Query and slugs of each plan.
pub open spec fn plan_models(v: Seq<SearchPlan>) -> Seq<(Seq<char>, Seq<Seq<char>>)> {
    v.map_values(|p: SearchPlan| (p.query@, names(p.slugs@)))
}

/// The addresses that are fetched for all plans, plan after plan.
pub open spec fn all_search_urls(plans: Seq<(Seq<char>, Seq<Seq<char>>)>) -> Seq<Seq<char>>
    decreases plans.len(),
{
    if plans.len() == 0 {
        Seq::empty()
    } else {
        all_search_urls(plans.drop_last()) + search_urls(plans.last().0, plans.last().1)
    }
}

/// The text of the page of a successful request at `i`.
pub open spec fn good_body(replies: Seq<Reply>, i: int) -> Option<Seq<char>> {
    if 0 <= i < replies.len() {
        match replies[i] {
            Reply::Page { status, body } => if is_success(status) {
                Some(body@)
            } else {
                None
            },
            _ => None,
        }
    } else {
        None
    }
}

/// The pastes found on Rentry under the slugs, whose pages are the replies
/// from `offset` on: a page counts where its request succeeded and its
/// text has at least `min` characters.
pub open spec fn rentry_found(
    slugs: Seq<Seq<char>>,
    replies: Seq<Reply>,
    offset: int,
    min: nat,
) -> Seq<PasteModel>
    decreases slugs.len(),
{
    if slugs.len() == 0 {
        Seq::empty()
    } else {
        let before = rentry_found(slugs.drop_last(), replies, offset, min);
        let text = match good_body(replies, offset + slugs.len() - 1) {
            Some(html) => rentry_text(html),
            None => None,
        };
        match text {
            Some(content) => if content.len() >= min {
                before.push(
                    PasteModel {
                        url: "https://rentry.co/"@ + slugs.last(),
                        site: "rentry"@,
                        title: None,
                        content,
                        created_at: None,
                        author: None,
                    },
                )
            } else {
                before
            },
            None => before,
        }
    }
}

/// What the sites answered for one plan, whose replies begin at `offset`.
pub open spec fn plan_found(
    slugs: Seq<Seq<char>>,
    replies: Seq<Reply>,
    offset: int,
    max: nat,
    min: nat,
) -> Seq<PasteModel> {
    let s = slugs.len() as int;
    (match page_body(replies, offset) {
        Some(b) => pastebin_found(b, max),
        None => Seq::empty(),
    }) + rentry_found(slugs, replies, offset + 1, min) + (match page_body(
        replies,
        offset + 1 + s,
    ) {
        Some(b) => dpaste_found(b, max),
        None => Seq::empty(),
    }) + (match page_body(replies, offset + 2 + s) {
        Some(h) => links_found(h, ".paste-link"@, "https://controlc.com"@, "controlc"@, max),
        None => Seq::empty(),
    }) + (match page_body(replies, offset + 3 + s) {
        Some(h) => links_found(h, ".result-item a"@, "https://justpaste.it"@, "justpaste"@, max),
        None => Seq::empty(),
    })
}

/// The number of requests of the plans.
pub open spec fn span(plans: Seq<(Seq<char>, Seq<Seq<char>>)>) -> nat
    decreases plans.len(),
{
    if plans.len() == 0 {
        0
    } else {
        span(plans.drop_last()) + 4 + plans.last().1.len()
    }
}

/// What the sites answered for all plans, plan after plan.
pub open spec fn found_for(
    plans: Seq<(Seq<char>, Seq<Seq<char>>)>,
    replies: Seq<Reply>,
    max: nat,
    min: nat,
) -> Seq<PasteModel>
    decreases plans.len(),
{
    if plans.len() == 0 {
        Seq::empty()
    } else {
        found_for(plans.drop_last(), replies, max, min) + plan_found(
            plans.last().1,
            replies,
            span(plans.drop_last()) as int,
            max,
            min,
        )
    }
}

/// How many of the pastes have no text.
pub open spec fn bare(pastes: Seq<PasteModel>) -> nat
    decreases pastes.len(),
{
    if pastes.len() == 0 {
        0
    } else {
        bare(pastes.drop_last()) + if pastes.last().content.len() == 0 {
            1nat
        } else {
            0nat
        }
    }
}

/// The addresses from which the texts of the pastes without text are
/// fetched, in their order.
pub open spec fn fetch_urls(pastes: Seq<PasteModel>) -> Seq<Seq<char>>
    decreases pastes.len(),
{
    if pastes.len() == 0 {
        Seq::empty()
    } else if pastes.last().content.len() == 0 {
        fetch_urls(pastes.drop_last()).push(raw_url(pastes.last()))
    } else {
        fetch_urls(pastes.drop_last())
    }
}

/// The pastes with the texts that were fetched: a paste without text gets
/// that of its reply where that has at least `min` characters.
pub open spec fn filled(pastes: Seq<PasteModel>, replies: Seq<Reply>, min: nat) -> Seq<PasteModel>
    decreases pastes.len(),
{
    if pastes.len() == 0 {
        Seq::empty()
    } else {
        let before = filled(pastes.drop_last(), replies, min);
        let p = pastes.last();
        if p.content.len() == 0 {
            let text = match page_body(replies, bare(pastes.drop_last()) as int) {
                Some(b) => if b.len() >= min {
                    b
                } else {
                    Seq::empty()
                },
                None => Seq::empty(),
            };
            before.push(PasteModel { content: text, ..p })
        } else {
            before.push(p)
        }
    }
}

/// `item` is the signal payload of the paste.
pub open spec fn is_paste(item: Outgoing, p: PasteModel) -> bool {
    &&& item.confidence == PASTE_CONFIDENCE
    &&& item.ttl == PASTE_TTL
    &&& item.payload matches OsintPayload::PasteContent {
        url,
        site,
        title,
        content,
        created_at,
        author,
    }
    &&& url@ == p.url
    &&& site@ == p.site
    &&& opt_text(title) == p.title
    &&& content@ == p.content
    &&& opt_text(created_at) == p.created_at
    &&& opt_text(author) == p.author
}

/// `batch` holds, in their order, the pastes that have text.
pub open spec fn paste_batch(batch: Seq<Outgoing>, pastes: Seq<PasteModel>) -> bool
    decreases pastes.len(),
{
    if pastes.len() == 0 {
        batch.len() == 0
    } else if pastes.last().content.len() == 0 {
        paste_batch(batch, pastes.drop_last())
    } else {
        &&& batch.len() > 0
        &&& paste_batch(batch.drop_last(), pastes.drop_last())
        &&& is_paste(batch.last(), pastes.last())
    }
}

/// Moves what `src` holds to the end of `dst`.
fn append(dst: &mut Vec<PasteResult>, src: Vec<PasteResult>)
    ensures
        paste_models(final(dst)@) == paste_models(old(dst)@) + paste_models(src@),
{
    let ghost base = paste_models(dst@);
    let ghost all = src@;
    assert(base + paste_models(all).take(0) =~= base);
    for p in it: src
        invariant
            it.seq() == all,
            paste_models(dst@) == base + paste_models(all).take(it.index() as int),
    {
        let ghost before = paste_models(dst@);
        dst.push(p);
        assert(paste_models(dst@) =~= before.push(p.model()));
        assert(paste_models(all).take(it.index() + 1) =~= paste_models(all).take(
            it.index() as int,
        ).push(p.model()));
    }
    assert(paste_models(all).take(all.len() as int) =~= paste_models(all));
}

/// The text of the page at `i`, whatever its status.
fn body_at(replies: &Vec<Reply>, i: usize) -> (r: Option<&String>)
    ensures
        match r {
            Some(b) => page_body(replies@, i as int) == Some(b@),
            None => page_body(replies@, i as int) is None,
        },
{
    if i >= replies.len() {
        return None;
    }
    match &replies[i] {
        Reply::Page { body, .. } => Some(body),
        _ => None,
    }
}

/// What the sites answered for one plan.
fn plan_results(
    slugs: &Vec<String>,
    replies: &Vec<Reply>,
    offset: usize,
    max: usize,
    min: usize,
) -> (out: Vec<PasteResult>)
    requires
        offset + 4 + slugs@.len() <= usize::MAX,
    ensures
        paste_models(out@) == plan_found(
            names(slugs@),
            replies@,
            offset as int,
            max as nat,
            min as nat,
        ),
{
    let s = slugs.len();
    let mut out: Vec<PasteResult> = match body_at(replies, offset) {
        Some(b) => pastebin_results(b.as_str(), max),
        None => Vec::new(),
    };
    let ghost first = paste_models(out@);
    let ghost ss = names(slugs@);
    let mut j: usize = 0;
    proof {
        assert(ss.take(0) =~= Seq::<Seq<char>>::empty());
        assert(first + rentry_found(ss.take(0), replies@, offset + 1, min as nat) =~= first);
    }
    while j < s
        invariant
            j <= s,
            s == slugs@.len(),
            ss == names(slugs@),
            offset + 4 + s <= usize::MAX,
            paste_models(out@) == first + rentry_found(
                ss.take(j as int),
                replies@,
                offset + 1,
                min as nat,
            ),
        decreases s - j,
    {
        proof {
            assert(ss.take(j + 1).drop_last() =~= ss.take(j as int));
            assert(ss.take(j + 1).last() == slugs@[j as int]@);
        }
        let at = offset + 1 + j;
        let text: Option<String> = if at < replies.len() {
            match &replies[at] {
                Reply::Page { status, body } => if success(*status) {
                    extract_rentry_content(body.as_str())
                } else {
                    None
                },
                _ => None,
            }
        } else {
            None
        };
        match text {
            Some(content) => {
                if content.as_str().unicode_len() >= min {
                    let mut url = chars_of("https://rentry.co/");
                    push_str(&mut url, slugs[j].as_str());
                    let ghost before = paste_models(out@);
                    let p = PasteResult {
                        url: text_of(&url),
                        site: "rentry".to_owned(),
                        title: None,
                        content,
                        created_at: None,
                        author: None,
                    };
                    out.push(p);
                    assert(paste_models(out@) =~= before.push(p.model()));
                }
            },
            None => {},
        }
        j += 1;
    }
    assert(ss.take(s as int) =~= ss);
    let dpaste = match body_at(replies, offset + 1 + s) {
        Some(b) => dpaste_results(b.as_str(), max),
        None => Vec::new(),
    };
    append(&mut out, dpaste);
    let controlc = match body_at(replies, offset + 2 + s) {
        Some(h) => parse_controlc_results(h.as_str(), max),
        None => Vec::new(),
    };
    append(&mut out, controlc);
    let justpaste = match body_at(replies, offset + 3 + s) {
        Some(h) => parse_justpaste_results(h.as_str(), max),
        None => Vec::new(),
    };
    append(&mut out, justpaste);
    assert(paste_models(out@) =~= plan_found(ss, replies@, offset as int, max as nat, min as nat));
    out
}

/// The first plans take no more requests than all of them.
pub proof fn lemma_span_grows(plans: Seq<(Seq<char>, Seq<Seq<char>>)>, n: int)
    requires
        0 <= n <= plans.len(),
    ensures
        span(plans.take(n)) <= span(plans),
    decreases plans.len() - n,
{
    if n < plans.len() {
        lemma_span_grows(plans, n + 1);
        assert(plans.take(n + 1).drop_last() =~= plans.take(n));
    } else {
        assert(plans.take(n) =~= plans);
    }
}

/// What the sites answered for all plans.
pub fn search_results(plans: &Vec<SearchPlan>, replies: &Vec<Reply>, max: usize, min: usize) -> (out:
    Vec<PasteResult>)
    requires
        span(plan_models(plans@)) <= usize::MAX,
    ensures
        paste_models(out@) == found_for(plan_models(plans@), replies@, max as nat, min as nat),
{
    let ghost ps = plan_models(plans@);
    let mut out: Vec<PasteResult> = Vec::new();
    let mut offset: usize = 0;
    let mut k: usize = 0;
    proof {
        assert(ps.take(0) =~= Seq::<(Seq<char>, Seq<Seq<char>>)>::empty());
        assert(paste_models(out@) =~= found_for(ps.take(0), replies@, max as nat, min as nat));
    }
    while k < plans.len()
        invariant
            k <= plans.len(),
            ps == plan_models(plans@),
            span(ps) <= usize::MAX,
            offset == span(ps.take(k as int)),
            paste_models(out@) == found_for(ps.take(k as int), replies@, max as nat, min as nat),
        decreases plans.len() - k,
    {
        proof {
            assert(ps.take(k + 1).drop_last() =~= ps.take(k as int));
            assert(ps.take(k + 1).last() == (plans@[k as int].query@, names(plans@[k as int].slugs@)));
            lemma_span_grows(ps, k + 1);
        }
        let part = plan_results(&plans[k].slugs, replies, offset, max, min);
        append(&mut out, part);
        offset = offset + 4 + plans[k].slugs.len();
        k += 1;
    }
    assert(ps.take(plans@.len() as int) =~= ps);
    out
}

/// The requests for the texts of the pastes that have none.
pub fn fetch_requests(pastes: &Vec<PasteResult>) -> (out: Vec<Request>)
    ensures
        out@.len() == fetch_urls(paste_models(pastes@)).len(),
        forall|k: int|
            0 <= k < out@.len() ==> gets(#[trigger] out@[k], fetch_urls(paste_models(pastes@))[k]),
{
    let ghost m = paste_models(pastes@);
    let mut out: Vec<Request> = Vec::new();
    let mut i: usize = 0;
    assert(m.take(0) =~= Seq::<PasteModel>::empty());
    while i < pastes.len()
        invariant
            i <= pastes.len(),
            m == paste_models(pastes@),
            out@.len() == fetch_urls(m.take(i as int)).len(),
            forall|k: int|
                0 <= k < out@.len() ==> gets(#[trigger] out@[k], fetch_urls(m.take(i as int))[k]),
        decreases pastes.len() - i,
    {
        proof {
            assert(m.take(i + 1).drop_last() =~= m.take(i as int));
            assert(m.take(i + 1).last() == pastes@[i as int].model());
        }
        if pastes[i].content.as_str().unicode_len() == 0 {
            out.push(
                Request::Fetch {
                    url: raw_address(&pastes[i]),
                    headers: Vec::new(),
                    through_tor: false,
                },
            );
        }
        i += 1;
    }
    assert(m.take(pastes@.len() as int) =~= m);
    out
}

/// The pastes with the texts that were fetched.
pub fn fill(pastes: Vec<PasteResult>, replies: &Vec<Reply>, min: usize) -> (out: Vec<PasteResult>)
    ensures
        paste_models(out@) == filled(paste_models(pastes@), replies@, min as nat),
{
    let ghost m = paste_models(pastes@);
    let ghost all = pastes@;
    let mut out: Vec<PasteResult> = Vec::new();
    let mut next: usize = 0;
    let n = pastes.len();
    proof {
        assert(m.take(0) =~= Seq::<PasteModel>::empty());
        assert(paste_models(out@) =~= filled(m.take(0), replies@, min as nat));
    }
    for p in it: pastes
        invariant
            it.seq() == all,
            all.len() == n,
            m == paste_models(all),
            next == bare(m.take(it.index() as int)),
            next <= it.index(),
            paste_models(out@) == filled(m.take(it.index() as int), replies@, min as nat),
    {
        let ghost i = it.index() as int;
        proof {
            assert(m.take(i + 1).drop_last() =~= m.take(i));
            assert(m.take(i + 1).last() == p.model());
        }
        let ghost before = paste_models(out@);
        if p.content.as_str().unicode_len() == 0 {
            let text: String = match body_at(replies, next) {
                Some(b) => if b.as_str().unicode_len() >= min {
                    b.clone()
                } else {
                    String::new()
                },
                None => String::new(),
            };
            let q = PasteResult { content: text, ..p };
            out.push(q);
            assert(paste_models(out@) =~= before.push(q.model()));
            next = next + 1;
        } else {
            out.push(p);
            assert(paste_models(out@) =~= before.push(p.model()));
        }
    }
    assert(m.take(all.len() as int) =~= m);
    out
}

/// The payloads of the pastes that have text.
pub fn batch_of(pastes: Vec<PasteResult>) -> (batch: Vec<Outgoing>)
    ensures
        paste_batch(batch@, paste_models(pastes@)),
{
    let ghost m = paste_models(pastes@);
    let ghost all = pastes@;
    let mut batch: Vec<Outgoing> = Vec::new();
    assert(m.take(0) =~= Seq::<PasteModel>::empty());
    for p in it: pastes
        invariant
            it.seq() == all,
            m == paste_models(all),
            paste_batch(batch@, m.take(it.index() as int)),
    {
        let ghost i = it.index() as int;
        proof {
            assert(m.take(i + 1).drop_last() =~= m.take(i));
            assert(m.take(i + 1).last() == p.model());
        }
        if p.content.as_str().unicode_len() > 0 {
            let ghost before = batch@;
            batch.push(
                Outgoing {
                    payload: OsintPayload::PasteContent {
                        url: p.url,
                        site: p.site,
                        title: p.title,
                        content: p.content,
                        created_at: p.created_at,
                        author: p.author,
                    },
                    confidence: PASTE_CONFIDENCE,
                    ttl: PASTE_TTL,
                },
            );
            assert(batch@.drop_last() =~= before);
            assert(is_paste(batch@.last(), p.model()));
        }
    }
    assert(m.take(all.len() as int) =~= m);
    batch
}

/// The slugs that are tried for a query: the first five.
pub open spec fn tried(query: Seq<char>) -> Seq<Seq<char>> {
    let all = slugs_of(query);
    all.take(lesser(all.len(), MAX_SLUGS as nat) as int)
}

/// The refined queries that were not looked for yet.
pub open spec fn new_queries(signals: Seq<Signal>, seen: Seq<Seq<char>>) -> Seq<Signal> {
    signals.filter(|s: Signal| !seen.contains(s.origin_hash@))
}

/// The key of each signal.
pub open spec fn hashes_of(v: Seq<Signal>) -> Seq<Seq<char>> {
    v.map_values(|s: Signal| s.origin_hash@)
}

/// The plan for each query.
pub open spec fn plans_for(sensed: Seq<Signal>) -> Seq<(Seq<char>, Seq<Seq<char>>)> {
    sensed.map_values(|s: Signal| (refined_of(s), tried(refined_of(s))))
}

/// How an activation ends: the pastes that have text are emitted; if there
/// are none there was nothing to do.
pub open spec fn finished(
    pastes: Seq<PasteModel>,
    step: Step,
    before: Seq<Signal>,
    after: Seq<Signal>,
    id: Seq<char>,
) -> bool {
    exists|batch: Seq<Outgoing>, hashes: Seq<Seq<char>>|
        {
            &&& #[trigger] paste_batch(batch, pastes)
            &&& #[trigger] delivered(before, id, batch, after, hashes)
            &&& if batch.len() == 0 {
                step matches Step::Done(Err(AgentError::NoWork))
            } else {
                step matches Step::Done(Ok(h)) && names(h@) == hashes
            }
        }
}

/// The requests fetch the addresses, in their order.
pub open spec fn gets_all(requests: Seq<Request>, urls: Seq<Seq<char>>) -> bool {
    &&& requests.len() == urls.len()
    &&& forall|k: int| 0 <= k < requests.len() ==> gets(#[trigger] requests[k], urls[k])
}

fn get(url: String) -> (r: Request)
    ensures
        gets(r, url@),
{
    Request::Fetch { url, headers: Vec::new(), through_tor: false }
}

impl PasteMonitorAgent {
    /// The requests that are out can be counted.
    pub open spec fn wf(&self) -> bool {
        self.stage matches PasteStage::Searching(plans) ==> span(plan_models(plans@)) <= usize::MAX
    }

    /// A monitor that has looked for nothing yet.
    pub fn new(config: AgentConfig, paste_config: PasteMonitorConfig) -> (a: PasteMonitorAgent)
        ensures
            a.config == config,
            a.paste_config == paste_config,
            a.processed_urls@.len() == 0,
            a.stage is Idle,
            a.wf(),
    {
        PasteMonitorAgent {
            config,
            paste_config,
            processed_urls: Vec::new(),
            stage: PasteStage::Idle,
        }
    }

    /// The worker's name.
    pub fn id(&self) -> (r: &str)
        ensures
            r@ == self.config.id@,
    {
        self.config.id.as_str()
    }

    /// The worker's kind.
    pub fn agent_type(&self) -> (r: &'static str)
        ensures
            r@ == "paste_monitor"@,
    {
        "paste_monitor"
    }

    /// The refined queries that reach the worker's threshold and were not
    /// looked for yet.
    pub fn sense<'a>(&self, field: &'a Field) -> (out: Vec<&'a Signal>)
        ensures
            refs(out@) == new_queries(
                of_kind(
                    field.live(),
                    field.time(),
                    self.config.sensing_threshold,
                    PayloadKind::RefinedQuery,
                ),
                names(self.processed_urls@),
            ),
    {
        let signals = field.sense_kind(self.config.sensing_threshold, PayloadKind::RefinedQuery);
        let ghost all = refs(signals@);
        let ghost p = |s: Signal| !names(self.processed_urls@).contains(s.origin_hash@);
        let mut out: Vec<&'a Signal> = Vec::new();
        let mut i: usize = 0;
        proof {
            reveal(Seq::filter);
            assert(all.take(0) =~= Seq::<Signal>::empty());
            assert(refs(out@) =~= all.take(0).filter(p));
        }
        while i < signals.len()
            invariant
                i <= signals.len(),
                all == refs(signals@),
                p == |s: Signal| !names(self.processed_urls@).contains(s.origin_hash@),
                refs(out@) == all.take(i as int).filter(p),
            decreases signals.len() - i,
        {
            let s = signals[i];
            proof {
                lemma_filter_step(all, i as int, p);
                assert(all[i as int] == *s);
            }
            if !crate::text::holds(&self.processed_urls, s.origin_hash.as_str()) {
                let ghost before = refs(out@);
                out.push(s);
                assert(refs(out@) =~= before.push(*s));
            }
            i += 1;
        }
        assert(all.take(signals@.len() as int) =~= all);
        out
    }

    /// The requests of the search for one query.
    pub fn search_requests(query: &str, slugs: &Vec<String>) -> (out: Vec<Request>)
        ensures
            gets_all(out@, search_urls(query@, names(slugs@))),
    {
        let q = encode(query);
        let mut out: Vec<Request> = Vec::new();
        let mut a = chars_of("https://psbdmp.ws/api/v3/search/");
        push_str(&mut a, q.as_str());
        out.push(get(text_of(&a)));
        let mut j: usize = 0;
        while j < slugs.len()
            invariant
                j <= slugs.len(),
                out@.len() == 1 + j,
                gets(out@[0], "https://psbdmp.ws/api/v3/search/"@ + q@),
                forall|k: int|
                    0 <= k < j ==> gets(
                        #[trigger] out@[1 + k],
                        "https://rentry.co/"@ + slugs@[k]@,
                    ),
            decreases slugs.len() - j,
        {
            let mut u = chars_of("https://rentry.co/");
            push_str(&mut u, slugs[j].as_str());
            out.push(get(text_of(&u)));
            j += 1;
        }
        out.push(get("https://dpaste.org/api/?format=json".to_owned()));
        let mut c = chars_of("https://controlc.com/search?q=");
        push_str(&mut c, q.as_str());
        out.push(get(text_of(&c)));
        let mut d = chars_of("https://justpaste.it/search?q=");
        push_str(&mut d, q.as_str());
        out.push(get(text_of(&d)));
        proof {
            let urls = search_urls(query@, names(slugs@));
            let n = slugs@.len() as int;
            assert(urls.len() == n + 4);
            assert forall|k: int| 0 <= k < out@.len() implies gets(#[trigger] out@[k], urls[k]) by {
                if 1 <= k <= n {
                    assert(out@[1 + (k - 1)] == out@[k]);
                    assert(names(slugs@)[k - 1] == slugs@[k - 1]@);
                }
            }
        }
        out
    }

    /// What the beginning of an activation comes to: every refined query
    /// that is sensed is noted and looked for on the paste sites.
    pub open spec fn starts(&self, live: Seq<Signal>, time: i64, post: Self, step: Step) -> bool {
        &&& post.config == self.config
        &&& post.paste_config == self.paste_config
        &&& self.wf() ==> post.wf()
        &&& ({
            let sensed = new_queries(
                of_kind(
                    live,
                    time,
                    self.config.sensing_threshold,
                    PayloadKind::RefinedQuery,
                ),
                names(self.processed_urls@),
            );
            if sensed.len() == 0 {
                &&& step matches Step::Done(Err(AgentError::NoWork))
                &&& post.stage == self.stage
                &&& post.processed_urls == self.processed_urls
            } else {
                &&& step matches Step::Ask(requests)
                &&& post.stage matches PasteStage::Searching(plans)
                &&& plan_models(plans@) == plans_for(sensed)
                &&& gets_all(requests@, all_search_urls(plans_for(sensed)))
                &&& names(post.processed_urls@) == noted(
                    names(self.processed_urls@),
                    hashes_of(sensed),
                )
                &&& post.wf()
            }
        })
    }

    /// Begins an activation: every refined query that the worker senses is
    /// noted and looked for on the paste sites.
    pub fn start(&mut self, field: &Field) -> (step: Step)
        ensures
            old(self).starts(field.live(), field.time(), *final(self), step),
    {
        let sensed = self.sense(field);
        if sensed.len() == 0 {
            return Step::Done(Err(AgentError::NoWork));
        }
        let ghost all = refs(sensed@);
        let ghost want = plans_for(all);
        let ghost seen = names(self.processed_urls@);
        let mut plans: Vec<SearchPlan> = Vec::new();
        let mut requests: Vec<Request> = Vec::new();
        let mut k: usize = 0;
        proof {
            assert(want.take(0) =~= Seq::<(Seq<char>, Seq<Seq<char>>)>::empty());
            assert(plan_models(plans@) =~= want.take(0));
            assert(hashes_of(all).take(0) =~= Seq::<Seq<char>>::empty());
        }
        while k < sensed.len()
            invariant
                k <= sensed.len(),
                all == refs(sensed@),
                want == plans_for(all),
                self.config == old(self).config,
                self.paste_config == old(self).paste_config,
                self.stage == old(self).stage,
                names(self.processed_urls@) == noted(seen, hashes_of(all).take(k as int)),
                plan_models(plans@) == want.take(k as int),
                gets_all(requests@, all_search_urls(want.take(k as int))),
                span(want.take(k as int)) == requests@.len(),
            decreases sensed.len() - k,
        {
            let s = sensed[k];
            proof {
                assert(all[k as int] == *s);
                let q = hashes_of(all).take(k + 1);
                assert(q.drop_last() =~= hashes_of(all).take(k as int));
                assert(q.last() == s.origin_hash@);
                assert(want.take(k + 1).drop_last() =~= want.take(k as int));
                assert(want.take(k + 1).last() == (refined_of(*s), tried(refined_of(*s))));
            }
            note(&mut self.processed_urls, s.origin_hash.as_str());
            let query: String = match &s.payload {
                OsintPayload::RefinedQuery { refined, .. } => refined.clone(),
                _ => String::new(),
            };
            let mut slugs = generate_search_slugs(query.as_str());
            let ghost full = names(slugs@);
            if slugs.len() > MAX_SLUGS {
                slugs.truncate(MAX_SLUGS);
            }
            assert(names(slugs@) =~= full.take(lesser(full.len(), MAX_SLUGS as nat) as int));
            let more = PasteMonitorAgent::search_requests(query.as_str(), &slugs);
            let ghost asked = requests@;
            let ghost urls = all_search_urls(want.take(k as int));
            let ghost here = search_urls(query@, names(slugs@));
            let ghost held = more@;
            assert(asked + held.take(0) =~= asked);
            for r in it: more
                invariant
                    it.seq() == held,
                    gets_all(held, here),
                    gets_all(asked, urls),
                    requests@ == asked + held.take(it.index() as int),
            {
                let ghost before = requests@;
                requests.push(r);
                assert(requests@ =~= asked + held.take(it.index() + 1));
            }
            proof {
                assert(held.take(held.len() as int) =~= held);
                assert(gets_all(requests@, urls + here)) by {
                    assert forall|j: int| 0 <= j < requests@.len() implies gets(
                        #[trigger] requests@[j],
                        (urls + here)[j],
                    ) by {
                        if j < asked.len() {
                            assert(requests@[j] == asked[j]);
                        } else {
                            assert(requests@[j] == held[j - asked.len()]);
                        }
                    }
                }
                let ghost before = plan_models(plans@);
                assert(plan_models(plans@.push(SearchPlan { query, slugs })) =~= before.push(
                    (query@, names(slugs@)),
                ));
            }
            plans.push(SearchPlan { query, slugs });
            k += 1;
        }
        proof {
            assert(want.take(sensed@.len() as int) =~= want);
            assert(hashes_of(all).take(sensed@.len() as int) =~= hashes_of(all));
        }
        let asked = requests.len();
        self.stage = PasteStage::Searching(plans);
        Step::Ask(requests)
    }

    /// Ends an activation with the pastes that were found.
    fn finish(&mut self, field: &mut Field, pastes: Vec<PasteResult>) -> (step: Step)
        requires
            old(field).wf(),
        ensures
            final(field).wf(),
            crate::field::grown(old(field).live(), final(field).live()),
            *final(self) == *old(self),
            final(field).time() == old(field).time(),
            final(field).past() == old(field).past(),
            old(field).sound() ==> final(field).sound(),
            finished(
                paste_models(pastes@),
                step,
                old(field).live(),
                final(field).live(),
                old(self).config.id@,
            ),
    {
        let batch = batch_of(pastes);
        let ghost b = batch@;
        let none = batch.len() == 0;
        let hashes = emit_all(field, self.config.id.as_str(), batch);
        let ghost h = names(hashes@);
        let step = if none {
            Step::Done(Err(AgentError::NoWork))
        } else {
            Step::Done(Ok(hashes))
        };
        assert(paste_batch(b, paste_models(pastes@)) && delivered(
            old(field).live(),
            self.config.id@,
            b,
            field.live(),
            h,
        ));
        step
    }

    /// What going on with the replies comes to: the texts of the pastes
    /// that came without are asked for, or the pastes that have text are
    /// emitted.
    pub open spec fn resumes(
        &self,
        live: Seq<Signal>,
        replies: Seq<Reply>,
        post: Self,
        after: Seq<Signal>,
        step: Step,
    ) -> bool {
        &&& post.wf()
        &&& post.config == self.config
        &&& post.paste_config == self.paste_config
        &&& post.processed_urls == self.processed_urls
        &&& match self.stage {
            PasteStage::Idle => {
                &&& step matches Step::Done(Err(AgentError::NoWork))
                &&& post.stage is Idle
                &&& after == live
            },
            PasteStage::Searching(plans) => {
                let drafts = found_for(
                    plan_models(plans@),
                    replies,
                    self.paste_config.max_pastes_per_site as nat,
                    self.paste_config.min_paste_length as nat,
                );
                if fetch_urls(drafts).len() == 0 {
                    &&& post.stage is Idle
                    &&& finished(
                        drafts,
                        step,
                        live,
                        after,
                        self.config.id@,
                    )
                } else {
                    &&& step matches Step::Ask(requests)
                    &&& gets_all(requests@, fetch_urls(drafts))
                    &&& post.stage matches PasteStage::Fetching(held)
                    &&& paste_models(held@) == drafts
                    &&& after == live
                }
            },
            PasteStage::Fetching(held) => {
                &&& post.stage is Idle
                &&& finished(
                    filled(
                        paste_models(held@),
                        replies,
                        self.paste_config.min_paste_length as nat,
                    ),
                    step,
                    live,
                    after,
                    self.config.id@,
                )
            },
        }
    }

    /// Goes on with the replies. With the answers to the searches in, the
    /// texts of the pastes that came without are asked for; where every
    /// paste has its text, and with those texts in, the pastes that have
    /// text are emitted.
    pub fn resume(&mut self, field: &mut Field, replies: Vec<Reply>) -> (step: Step)
        requires
            old(field).wf(),
            old(self).wf(),
        ensures
            final(field).wf(),
            crate::field::grown(old(field).live(), final(field).live()),
            final(field).time() == old(field).time(),
            final(field).past() == old(field).past(),
            old(field).sound() ==> final(field).sound(),
            old(self).resumes(old(field).live(), replies@, *final(self), final(field).live(), step),
    {
        let mut stage = PasteStage::Idle;
        core::mem::swap(&mut self.stage, &mut stage);
        let max = self.paste_config.max_pastes_per_site;
        let min = self.paste_config.min_paste_length;
        match stage {
            PasteStage::Idle => Step::Done(Err(AgentError::NoWork)),
            PasteStage::Searching(plans) => {
                let drafts = search_results(&plans, &replies, max, min);
                let requests = fetch_requests(&drafts);
                if requests.len() == 0 {
                    self.finish(field, drafts)
                } else {
                    self.stage = PasteStage::Fetching(drafts);
                    Step::Ask(requests)
                }
            },
            PasteStage::Fetching(held) => {
                let pastes = fill(held, &replies, min);
                self.finish(field, pastes)
            },
        }
    }

    /// Emits the worker's heartbeat: it is free.
    pub fn heartbeat(&self, field: &mut Field)
        requires
            old(field).wf(),
        ensures
            final(field).wf(),
            pulsed(
                old(field).live(),
                final(field).live(),
                self.config.id@,
                AgentType::PasteMonitor,
                UNIT,
                PASTE_HEARTBEAT_TTL,
            ),
            final(field).time() == old(field).time(),
            final(field).past() == old(field).past(),
            old(field).sound() ==> final(field).sound(),
    {
        pulse(field, self.config.id.as_str(), AgentType::PasteMonitor, UNIT, PASTE_HEARTBEAT_TTL);
    }
}


impl crate::agents::traits::OsintAgent for PasteMonitorAgent {
    open spec fn ready(&self) -> bool {
        PasteMonitorAgent::wf(self)
    }

    open spec fn spec_id(&self) -> Seq<char> {
        self.config.id@
    }

    open spec fn spec_agent_type(&self) -> Seq<char> {
        "paste_monitor"@
    }

    open spec fn sensed(&self, live: Seq<Signal>, time: i64) -> Seq<Signal> {
        new_queries(
            of_kind(
                live,
                time,
                self.config.sensing_threshold,
                PayloadKind::RefinedQuery,
            ),
            names(self.processed_urls@),
        )
    }

    open spec fn began(
        &self,
        live: Seq<Signal>,
        time: i64,
        post: Self,
        after: Seq<Signal>,
        step: Step,
    ) -> bool {
        &&& self.starts(live, time, post, step)
        &&& after == live
    }

    open spec fn proceeded(
        &self,
        live: Seq<Signal>,
        time: i64,
        replies: Seq<Reply>,
        post: Self,
        after: Seq<Signal>,
        step: Step,
    ) -> bool {
        self.resumes(live, replies, post, after, step)
    }

    open spec fn beat(&self, live: Seq<Signal>, after: Seq<Signal>) -> bool {
    pulsed(
            live,
            after,
            self.config.id@,
            AgentType::PasteMonitor,
            UNIT,
            PASTE_HEARTBEAT_TTL,
        )
    }

    fn id(&self) -> (r: &str) {
        PasteMonitorAgent::id(self)
    }

    fn agent_type(&self) -> (r: &str) {
        PasteMonitorAgent::agent_type(self)
    }

    fn sense<'a>(&self, field: &'a Field) -> (out: Vec<&'a Signal>) {
        let out = PasteMonitorAgent::sense(self, field);
        proof {
            let first = |s: Signal|
                crate::field::wanted(
                    s,
                    field.time(),
                    self.config.sensing_threshold,
                    Some(PayloadKind::RefinedQuery),
                );
            let sensed = field.live().filter(first);
            let second = |s: Signal| !names(self.processed_urls@).contains(s.origin_hash@);
            crate::field::lemma_filter_members(field.live(), first);
            crate::field::lemma_filter_members(sensed, second);
            assert forall|k: int| 0 <= k < out@.len() implies field.live().contains(
                *#[trigger] out@[k],
            ) by {
                assert(refs(out@)[k] == *out@[k]);
                assert(sensed.contains(sensed.filter(second)[k]));
            }
        }
        out
    }

    fn begin(&mut self, field: &mut Field) -> (step: Step) {
        PasteMonitorAgent::start(self, field)
    }

    fn proceed(&mut self, field: &mut Field, replies: Vec<Reply>) -> (step: Step) {
        PasteMonitorAgent::resume(self, field, replies)
    }

    fn heartbeat(&self, field: &mut Field) {
        PasteMonitorAgent::heartbeat(self, field)
    }
}

} // verus!
