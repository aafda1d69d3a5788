//! The filter: asks the language model which of the raw results are worth
//! a visit, and emits those as filtered results in the order of their
//! rank.

use vstd::prelude::*;
use crate::agents::traits::{
    delivered, emit_all, failure, failure_at, pulse, pulsed, AgentConfig, AgentError, Outgoing,
    Reply, Request, Step, HEARTBEAT_TTL,
};
use crate::field::{of_kind, refs, Field};
use crate::signals::{AgentType, OsintPayload, PayloadKind, Signal};
use crate::text::{
    chars_of, contains, decimal, index_of, join, joined, position, prefix, push_chars,
    push_decimal, push_str, replace_all, replaced, text_of, texts,
};
use crate::units::UNIT;

verus! {

/// What the model is told; `{query}` stands for the query.
pub const FILTER_SYSTEM_PROMPT: &'static str = r#"
You are a Cybercrime Threat Intelligence Expert. You are given a dark web search query and a list of search results (index, link, title).

Your task is to select the Top 20 most relevant results for investigation.

Rules:
1. Output ONLY the indices of the top 20 most relevant results (comma-separated)
2. Order by relevance (most relevant first)
3. Skip results that appear to be spam, unrelated, or low-quality
4. If fewer than 20 are relevant, output only the relevant ones

Search Query: {query}

Search Results:
"#;

/// Most results that are shown to the model at once.
pub const FILTER_BATCH: usize = 50;

/// Most results that are taken from the model's answer.
pub const FILTER_TOP: usize = 20;

/// Confidence of a filtered result: 0.85.
pub const FILTER_CONFIDENCE: u64 = 850_000;

/// Lifetime of a filtered result: 120 seconds.
pub const FILTER_TTL: u64 = 120_000;

/// A raw result as it is shown to the model.
#[derive(Debug, Clone)]
pub struct Listed {
    pub url: String,
    pub title: String,
}

/// The filter.
pub struct FilterAgent {
    pub config: AgentConfig,
    /// The results that the model was asked about and has not answered yet
    pub pending: Option<Vec<Listed>>,
}

/// An ASCII digit.
pub open spec fn is_digit(c: char) -> bool {
    '0' <= c <= '9'
}

/// The value of an ASCII digit.
pub open spec fn digit_value(c: char) -> nat {
    (c as u32 - '0' as u32) as nat
}

/// The numbers that the maximal runs of digits in `s` spell, in order.
pub open spec fn numbers(s: Seq<char>) -> Seq<nat>
    decreases s.len(),
{
    if s.len() == 0 {
        Seq::empty()
    } else {
        let before = numbers(s.drop_last());
        let c = s.last();
        if !is_digit(c) {
            before
        } else if s.len() >= 2 && is_digit(s[s.len() - 2]) && before.len() > 0 {
            before.drop_last().push(before.last() * 10 + digit_value(c))
        } else {
            before.push(digit_value(c))
        }
    }
}

/// The first twenty different numbers of `nums` that lie in `1..=n`, in the
/// order in which they come.
pub open spec fn picked(nums: Seq<nat>, n: nat) -> Seq<nat>
    decreases nums.len(),
{
    if nums.len() == 0 {
        Seq::empty()
    } else {
        let before = picked(nums.drop_last(), n);
        let v = nums.last();
        if before.len() < FILTER_TOP && 0 < v <= n && !before.contains(v) {
            before.push(v)
        } else {
            before
        }
    }
}

/// The indices that an answer of the model selects among `n` results.
pub open spec fn selection(response: Seq<char>, n: nat) -> Seq<nat> {
    picked(numbers(response), n)
}

/// The indices of a list as numbers.
pub open spec fn as_nats(v: Seq<usize>) -> Seq<nat> {
    v.map_values(|x: usize| x as nat)
}

/// Whether `list` holds `v`.
fn has_index(list: &Vec<usize>, v: usize) -> (r: bool)
    ensures
        r == as_nats(list@).contains(v as nat),
{
    let mut i: usize = 0;
    while i < list.len()
        invariant
            i <= list.len(),
            forall|j: int| 0 <= j < i ==> as_nats(list@)[j] != v as nat,
        decreases list.len() - i,
    {
        if list[i] == v {
            assert(as_nats(list@)[i as int] == v as nat);
            return true;
        }
        i += 1;
    }
    false
}

/// A number above every index: a run of digits that spells more counts as
/// this, and is out of range either way.
pub const INDEX_CAP: u128 = 0x1_0000_0000_0000_0000;

/// Takes the number `v` into `out` if the rule of `picked` admits it.
fn take_number(out: &mut Vec<usize>, v: u128, n: usize, Ghost(value): Ghost<nat>)
    requires
        v == if value > INDEX_CAP { INDEX_CAP as nat } else { value },
        forall|k: int| 0 <= k < old(out)@.len() ==> #[trigger] old(out)@[k] <= n,
    ensures
        as_nats(final(out)@) == if as_nats(old(out)@).len() < FILTER_TOP && 0 < value <= n
            && !as_nats(old(out)@).contains(value) {
            as_nats(old(out)@).push(value)
        } else {
            as_nats(old(out)@)
        },
        forall|k: int| 0 <= k < final(out)@.len() ==> #[trigger] final(out)@[k] <= n,
{
    if out.len() < FILTER_TOP && 0 < v && v <= n as u128 {
        let idx = v as usize;
        if !has_index(out, idx) {
            let ghost before = as_nats(out@);
            out.push(idx);
            assert(as_nats(out@) =~= before.push(value));
        }
    }
}

/// The indices that `response` selects among `n` results: every run of
/// digits is read as a number; numbers outside `1..=n` and repetitions are
/// dropped; the first twenty remain.
pub fn parse_indices(response: &str, n: usize) -> (out: Vec<usize>)
    ensures
        as_nats(out@) == selection(response@, n as nat),
        out@.len() <= FILTER_TOP,
        forall|k: int| 0 <= k < out@.len() ==> 0 < #[trigger] out@[k] <= n,
{
    let s = chars_of(response);
    let mut out: Vec<usize> = Vec::new();
    let mut cur: u128 = 0;
    let mut in_run = false;
    let ghost mut done: Seq<nat> = Seq::empty();
    let ghost mut value: nat = 0;
    let mut i: usize = 0;
    proof {
        assert(s@.take(0) =~= Seq::<char>::empty());
        assert(as_nats(out@) =~= picked(done, n as nat));
    }
    while i < s.len()
        invariant
            i <= s.len(),
            in_run <==> (i > 0 && is_digit(s@[i - 1])),
            in_run ==> numbers(s@.take(i as int)) == done.push(value),
            !in_run ==> numbers(s@.take(i as int)) == done,
            cur == if value > INDEX_CAP { INDEX_CAP as nat } else { value },
            as_nats(out@) == picked(done, n as nat),
            forall|k: int| 0 <= k < out@.len() ==> #[trigger] out@[k] <= n,
        decreases s.len() - i,
    {
        let c = s[i];
        proof {
            let t = s@.take(i + 1);
            assert(t.drop_last() =~= s@.take(i as int));
            assert(t.last() == c);
            if i > 0 {
                assert(t[t.len() - 2] == s@[i - 1]);
            }
            if in_run {
                assert(done.push(value).drop_last() =~= done);
                assert(done.push(value).last() == value);
            }
        }
        if '0' <= c && c <= '9' {
            let d: u128 = (c as u32 - '0' as u32) as u128;
            if in_run {
                proof {
                    value = value * 10 + digit_value(c);
                }
                cur = if cur * 10 + d > INDEX_CAP { INDEX_CAP } else { cur * 10 + d };
            } else {
                proof {
                    value = digit_value(c);
                }
                cur = d;
                in_run = true;
            }
        } else {
            if in_run {
                take_number(&mut out, cur, n, Ghost(value));
                proof {
                    assert(done.push(value).drop_last() =~= done);
                    done = done.push(value);
                }
                in_run = false;
            }
        }
        i += 1;
    }
    assert(s@.take(s@.len() as int) =~= s@);
    if in_run {
        take_number(&mut out, cur, n, Ghost(value));
        proof {
            assert(done.push(value).drop_last() =~= done);
        }
    }
    proof {
        lemma_picked(numbers(s@), n as nat);
        assert forall|k: int| 0 <= k < out@.len() implies 0 < #[trigger] out@[k] <= n by {
            assert(as_nats(out@)[k] == out@[k] as nat);
        }
    }
    out
}

/// What `picked` returns is short, in range and without repetition.
pub proof fn lemma_picked(nums: Seq<nat>, n: nat)
    ensures
        picked(nums, n).len() <= FILTER_TOP,
        forall|k: int| 0 <= k < picked(nums, n).len() ==> 0 < #[trigger] picked(nums, n)[k] <= n,
        forall|a: int, b: int|
            0 <= a < b < picked(nums, n).len() ==> picked(nums, n)[a] != picked(nums, n)[b],
    decreases nums.len(),
{
    if nums.len() > 0 {
        lemma_picked(nums.drop_last(), n);
        let before = picked(nums.drop_last(), n);
        let after = picked(nums, n);
        assert forall|a: int, b: int| 0 <= a < b < after.len() implies after[a] != after[b] by {
            if b == before.len() {
                assert(before.contains(before[a]));
            }
        }
    }
}

/// The address up to the end of its first `.onion`, or all of it.
pub open spec fn short_url(url: Seq<char>) -> Seq<char> {
    if contains(url, ".onion"@) {
        url.take(index_of(url, ".onion"@) + 6)
    } else {
        url
    }
}

/// The line that shows the result `item` under the number `number`.
pub open spec fn listing_line(number: nat, item: Listed) -> Seq<char> {
    decimal(number) + ". "@ + short_url(item.url@) + " - "@ + item.title@
}

/// The lines of all results, numbered from one.
pub open spec fn listing(items: Seq<Listed>) -> Seq<char> {
    join(Seq::new(items.len(), |k: int| listing_line((k + 1) as nat, items[k])), seq!['\n'])
}

/// The relevance of the result of rank `rank`, counted from zero: one less
/// three hundredths for each rank.
pub open spec fn relevance_of(rank: nat) -> nat {
    (UNIT - rank * 30_000) as nat
}

/// The reason given for the result of rank `rank`, counted from zero: its
/// place in the selection, counted from one.
pub open spec fn reason_of(rank: nat) -> Seq<char> {
    "Ranked #"@ + decimal(rank + 1)
}

/// `batch` holds, for each selected index in order, the filtered result
/// made of the result listed under it.
pub open spec fn filtered_batch(batch: Seq<Outgoing>, items: Seq<Listed>, picks: Seq<nat>) -> bool {
    &&& batch.len() == picks.len()
    &&& forall|k: int|
        0 <= k < batch.len() ==> {
            &&& (#[trigger] batch[k]).confidence == FILTER_CONFIDENCE
            &&& batch[k].ttl == FILTER_TTL
            &&& batch[k].payload matches OsintPayload::FilteredResult {
                url,
                title,
                relevance,
                reason,
            }
            &&& url@ == items[picks[k] - 1].url@
            &&& title@ == items[picks[k] - 1].title@
            &&& relevance == relevance_of(k as nat)
            &&& reason@ == reason_of(k as nat)
        }
}

/// The first `limit` raw results of `live`, as they are shown to the model.
pub open spec fn listed_of(s: Signal) -> (Seq<char>, Seq<char>) {
    match s.payload {
        OsintPayload::RawResult { url, title, .. } => (url@, title@),
        _ => (Seq::empty(), Seq::empty()),
    }
}

/// `items` are the first `limit` of the signals `raw`, by address and
/// title.
pub open spec fn lists(items: Seq<Listed>, raw: Seq<Signal>, limit: nat) -> bool {
    &&& items.len() == if raw.len() <= limit { raw.len() } else { limit }
    &&& forall|k: int|
        0 <= k < items.len() ==> ((#[trigger] items[k]).url@, items[k].title@) == listed_of(raw[k])
}

/// The query of a refined-query signal.
pub open spec fn refined_of(s: Signal) -> Seq<char> {
    match s.payload {
        OsintPayload::RefinedQuery { refined, .. } => refined@,
        _ => Seq::empty(),
    }
}

impl FilterAgent {
    /// What is pending is no more than was shown to the model at once.
    pub open spec fn wf(&self) -> bool {
        self.pending matches Some(items) ==> items@.len() <= FILTER_BATCH
    }

    /// A filter that shows the model up to fifty results at once.
    pub fn new(config: AgentConfig) -> (a: FilterAgent)
        ensures
            a.config == config,
            a.pending is None,
            a.wf(),
    {
        FilterAgent { config, pending: None }
    }

    /// The worker's name.
    pub fn id(&self) -> (r: &str)
        ensures
            r@ == self.config.id@,
    {
        self.config.id.as_str()
    }

    /// The worker's kind.
    pub fn agent_type(&self) -> (r: &'static str)
        ensures
            r@ == "filter"@,
    {
        "filter"
    }

    /// The raw results whose effective intensity reaches the worker's
    /// threshold.
    pub fn sense<'a>(&self, field: &'a Field) -> (out: Vec<&'a Signal>)
        ensures
            refs(out@) == of_kind(
                field.live(),
                field.time(),
                self.config.sensing_threshold,
                PayloadKind::RawResult,
            ),
    {
        field.sense_kind(self.config.sensing_threshold, PayloadKind::RawResult)
    }

    /// The text that lists `items` for the model.
    pub fn render(items: &Vec<Listed>) -> (r: String)
        ensures
            r@ == listing(items@),
    {
        let mut lines: Vec<Vec<char>> = Vec::new();
        let mut k: usize = 0;
        while k < items.len()
            invariant
                k <= items.len(),
                lines@.len() == k,
                forall|j: int|
                    0 <= j < k ==> (#[trigger] lines@[j])@ == listing_line(
                        (j + 1) as nat,
                        items@[j],
                    ),
            decreases items.len() - k,
        {
            let mut line: Vec<char> = Vec::new();
            push_decimal(&mut line, (k + 1) as u64);
            push_str(&mut line, ". ");
            let url = chars_of(items[k].url.as_str());
            proof {
                reveal_strlit(".onion");
                assert(".onion"@.len() == 6);
            }
            let total = url.len();
            let short = match position(&url, ".onion") {
                Some(i) => {
                    assert(i + 6 <= total);
                    prefix(&url, i + 6)
                },
                None => url,
            };
            push_chars(&mut line, &short);
            push_str(&mut line, " - ");
            push_str(&mut line, items[k].title.as_str());
            assert(line@ =~= listing_line((k + 1) as nat, items@[k as int]));
            lines.push(line);
            k += 1;
        }
        let mut sep: Vec<char> = Vec::new();
        sep.push('\n');
        assert(sep@ =~= seq!['\n']);
        assert(texts(lines@) =~= Seq::new(
            items@.len(),
            |k: int| listing_line((k + 1) as nat, items@[k]),
        ));
        text_of(&joined(&lines, &sep))
    }

    /// What the beginning of an activation comes to: without a live refined
    /// query or without live raw results there is nothing to do; else the
    /// model is asked about the first fifty raw results under the first
    /// refined query.
    pub open spec fn starts(&self, live: Seq<Signal>, time: i64, post: Self, step: Step) -> bool {
        &&& post.config == self.config
        &&& self.wf() ==> post.wf()
        &&& ({
            let queries = of_kind(live, time, 0, PayloadKind::RefinedQuery);
            let raw = of_kind(live, time, 0, PayloadKind::RawResult);
            if queries.len() == 0 || raw.len() == 0 {
                &&& step matches Step::Done(Err(AgentError::NoWork))
                &&& post.pending == self.pending
            } else {
                &&& step matches Step::Ask(requests)
                &&& requests@.len() == 1
                &&& requests@[0] matches Request::Completion { system, user }
                &&& system@ == replace_all(
                    FILTER_SYSTEM_PROMPT@,
                    "{query}"@,
                    refined_of(queries[0]),
                )
                &&& post.pending matches Some(items)
                &&& lists(items@, raw, FILTER_BATCH as nat)
                &&& user@ == listing(items@)
            }
        })
    }

    /// Begins an activation. Without a live refined query or without live
    /// raw results there is nothing to do. Else the model is asked about
    /// the first fifty raw results under the first refined query.
    pub fn start(&mut self, field: &Field) -> (step: Step)
        ensures
            old(self).starts(field.live(), field.time(), *final(self), step),
    {
        let queries = field.sense_kind(0, PayloadKind::RefinedQuery);
        let raw = field.sense_kind(0, PayloadKind::RawResult);
        if queries.len() == 0 || raw.len() == 0 {
            return Step::Done(Err(AgentError::NoWork));
        }
        let ghost qs = of_kind(field.live(), field.time(), 0, PayloadKind::RefinedQuery);
        let ghost rs = of_kind(field.live(), field.time(), 0, PayloadKind::RawResult);
        assert(refs(queries@)[0] == *queries@[0]);
        let query: Vec<char> = match &queries[0].payload {
            OsintPayload::RefinedQuery { refined, .. } => chars_of(refined.as_str()),
            _ => Vec::new(),
        };
        assert(query@ =~= refined_of(qs[0]));
        let mut items: Vec<Listed> = Vec::new();
        let mut k: usize = 0;
        while k < raw.len() && k < FILTER_BATCH
            invariant
                k <= raw.len(),
                k <= FILTER_BATCH,
                items@.len() == k,
                refs(raw@) == rs,
                forall|j: int|
                    0 <= j < k ==> ((#[trigger] items@[j]).url@, items@[j].title@) == listed_of(
                        rs[j],
                    ),
            decreases raw.len() - k,
        {
            assert(refs(raw@)[k as int] == *raw@[k as int]);
            let item = match &raw[k].payload {
                OsintPayload::RawResult { url, title, .. } => Listed {
                    url: url.clone(),
                    title: title.clone(),
                },
                _ => Listed { url: String::new(), title: String::new() },
            };
            items.push(item);
            k += 1;
        }
        let template = chars_of(FILTER_SYSTEM_PROMPT);
        let hole = chars_of("{query}");
        proof {
            reveal_strlit("{query}");
        }
        let system = text_of(&replaced(&template, &hole, &query));
        let user = FilterAgent::render(&items);
        self.pending = Some(items);
        let mut requests: Vec<Request> = Vec::new();
        requests.push(Request::Completion { system, user });
        Step::Ask(requests)
    }

    /// The filtered results that the answer `response` selects among
    /// `items`.
    pub fn select(items: &Vec<Listed>, response: &str) -> (batch: Vec<Outgoing>)
        ensures
            filtered_batch(batch@, items@, selection(response@, items@.len())),
    {
        let picks = parse_indices(response, items.len());
        let ghost p = selection(response@, items@.len());
        let mut batch: Vec<Outgoing> = Vec::new();
        let mut rank: usize = 0;
        while rank < picks.len()
            invariant
                rank <= picks.len(),
                picks@.len() <= FILTER_TOP,
                as_nats(picks@) == p,
                forall|k: int| 0 <= k < picks@.len() ==> 0 < #[trigger] picks@[k] <= items@.len(),
                filtered_batch(batch@, items@, p.take(rank as int)),
            decreases picks.len() - rank,
        {
            let idx = picks[rank];
            assert(as_nats(picks@)[rank as int] == idx as nat);
            let item = &items[idx - 1];
            let mut reason: Vec<char> = chars_of("Ranked #");
            push_decimal(&mut reason, (rank + 1) as u64);
            let relevance: u64 = UNIT - (rank as u64) * 30_000;
            let ghost before = batch@;
            batch.push(
                Outgoing {
                    payload: OsintPayload::FilteredResult {
                        url: item.url.clone(),
                        title: item.title.clone(),
                        relevance,
                        reason: text_of(&reason),
                    },
                    confidence: FILTER_CONFIDENCE,
                    ttl: FILTER_TTL,
                },
            );
            proof {
                assert(p.take(rank + 1) =~= p.take(rank as int).push(idx as nat));
                assert forall|k: int| 0 <= k < batch@.len() implies {
                    &&& (#[trigger] batch@[k]).confidence == FILTER_CONFIDENCE
                    &&& batch@[k].ttl == FILTER_TTL
                    &&& batch@[k].payload matches OsintPayload::FilteredResult {
                        url,
                        title,
                        relevance,
                        reason,
                    }
                    &&& url@ == items@[p.take(rank + 1)[k] - 1].url@
                    &&& title@ == items@[p.take(rank + 1)[k] - 1].title@
                    &&& relevance == relevance_of(k as nat)
                    &&& reason@ == reason_of(k as nat)
                } by {
                    if k < rank {
                        assert(batch@[k] == before[k]);
                        assert(p.take(rank + 1)[k] == p.take(rank as int)[k]);
                    }
                }
            }
            rank += 1;
        }
        assert(p.take(picks@.len() as int) =~= p);
        batch
    }

    /// What the end of an activation comes to: a completion selects the
    /// results that are emitted; a failure of the model is passed on.
    pub open spec fn resumes(
        &self,
        live: Seq<Signal>,
        replies: Seq<Reply>,
        post: Self,
        after: Seq<Signal>,
        step: Step,
    ) -> bool {
        &&& post.wf()
        &&& post.pending is None
        &&& post.config == self.config
        &&& match self.pending {
            None => step matches Step::Done(Err(AgentError::NoWork)) && after
                == live,
            Some(items) => if replies.len() >= 1 && replies[0] is Completion {
                &&& step matches Step::Done(Ok(hashes))
                &&& exists|batch: Seq<Outgoing>|
                    {
                        &&& #[trigger] filtered_batch(
                            batch,
                            items@,
                            selection(replies[0]->Completion_0@, items@.len()),
                        )
                        &&& delivered(
                            live,
                            self.config.id@,
                            batch,
                            after,
                            crate::text::names(hashes@),
                        )
                    }
            } else {
                &&& step matches Step::Done(Err(AgentError::Llm(m))) && m@ == failure_at(replies, 0)
                &&& after == live
            },
        }
    }

    /// Ends an activation with the model's reply. A completion selects the
    /// results that are emitted; a failure of the model is passed on and
    /// nothing is emitted. Either way nothing stays pending.
    pub fn resume(&mut self, field: &mut Field, replies: Vec<Reply>) -> (step: Step)
        requires
            old(field).wf(),
            old(self).wf(),
        ensures
            final(field).wf(),
            crate::field::grown(old(field).live(), final(field).live()),
            final(field).time() == old(field).time(),
            final(field).past() == old(field).past(),
            old(field).sound() ==> final(field).sound(),
            old(self).resumes(old(field).live(), replies@, *final(self), final(field).live(), step),
    {
        let pending = self.pending.take();
        let items = match pending {
            Some(items) => items,
            None => {
                return Step::Done(Err(AgentError::NoWork));
            },
        };
        if replies.len() == 0 {
            return Step::Done(Err(failure(&replies, 0)));
        }
        match &replies[0] {
            Reply::Completion(text) => {
                let batch = FilterAgent::select(&items, text.as_str());
                let ghost b = batch@;
                let hashes = emit_all(field, self.config.id.as_str(), batch);
                assert(filtered_batch(b, items@, selection(text@, items@.len())));
                Step::Done(Ok(hashes))
            },
            _ => Step::Done(Err(failure(&replies, 0))),
        }
    }

    /// Emits the worker's heartbeat: it is free.
    pub fn heartbeat(&self, field: &mut Field)
        requires
            old(field).wf(),
        ensures
            final(field).wf(),
            pulsed(
                old(field).live(),
                final(field).live(),
                self.config.id@,
                AgentType::Filter,
                UNIT,
                HEARTBEAT_TTL,
            ),
            final(field).time() == old(field).time(),
            final(field).past() == old(field).past(),
            old(field).sound() ==> final(field).sound(),
    {
        pulse(field, self.config.id.as_str(), AgentType::Filter, UNIT, HEARTBEAT_TTL);
    }
}


impl crate::agents::traits::OsintAgent for FilterAgent {
    open spec fn ready(&self) -> bool {
        FilterAgent::wf(self)
    }

    open spec fn spec_id(&self) -> Seq<char> {
        self.config.id@
    }

    open spec fn spec_agent_type(&self) -> Seq<char> {
        "filter"@
    }

    open spec fn sensed(&self, live: Seq<Signal>, time: i64) -> Seq<Signal> {
        of_kind(
            live,
            time,
            self.config.sensing_threshold,
            PayloadKind::RawResult,
        )
    }

    open spec fn began(
        &self,
        live: Seq<Signal>,
        time: i64,
        post: Self,
        after: Seq<Signal>,
        step: Step,
    ) -> bool {
        &&& self.starts(live, time, post, step)
        &&& after == live
    }

    open spec fn proceeded(
        &self,
        live: Seq<Signal>,
        time: i64,
        replies: Seq<Reply>,
        post: Self,
        after: Seq<Signal>,
        step: Step,
    ) -> bool {
        self.resumes(live, replies, post, after, step)
    }

    open spec fn beat(&self, live: Seq<Signal>, after: Seq<Signal>) -> bool {
    pulsed(
            live,
            after,
            self.config.id@,
            AgentType::Filter,
            UNIT,
            HEARTBEAT_TTL,
        )
    }

    fn id(&self) -> (r: &str) {
        FilterAgent::id(self)
    }

    fn agent_type(&self) -> (r: &str) {
        FilterAgent::agent_type(self)
    }

    fn sense<'a>(&self, field: &'a Field) -> (out: Vec<&'a Signal>) {
        let out = FilterAgent::sense(self, field);
        proof {
            crate::agents::traits::lemma_observed(
                out@,
                field.live(),
                |s: Signal|
                    crate::field::wanted(
                        s,
                        field.time(),
                        self.config.sensing_threshold,
                        Some(PayloadKind::RawResult),
                    ),
            );
        }
        out
    }

    fn begin(&mut self, field: &mut Field) -> (step: Step) {
        FilterAgent::start(self, field)
    }

    fn proceed(&mut self, field: &mut Field, replies: Vec<Reply>) -> (step: Step) {
        FilterAgent::resume(self, field, replies)
    }

    fn heartbeat(&self, field: &mut Field) {
        FilterAgent::heartbeat(self, field)
    }
}

} // verus!
