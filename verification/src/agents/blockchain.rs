//! The blockchain analyst: looks up the coin addresses that were found and
//! reads patterns from the times of their transactions.

use vstd::prelude::*;
use crate::agents::analyst::{derefs, flatten, flattened};
use crate::agents::enricher::{enrichment_key, enrichment_keys, EnrichmentAgent};
use crate::agents::timing::{
    as_ints, greatest_of, hour_patterns, hourly_patterns, least_of, measure, measures,
    parse_signed, parse_unsigned, pattern_models, patterns, patterns_of, signed_of, times_of,
    unsigned_of, usable_times, Timing,
};
use crate::agents::traits::{
    delivered, emit_all, is_success, note, noted, pulse, pulsed, success, AgentConfig, AgentError,
    Outgoing, Reply, Request, Step, HEARTBEAT_TTL,
};
use crate::artifacts::{copy_opt, opt_text, Artifact, ArtifactType};
use crate::field::{lemma_filter_step, of_kind, refs, Field};
use crate::json::{
    integers_at, json_integers, json_number, json_text, json_texts, number_at, optional_texts,
    text_at, texts_at,
};
use crate::signals::{
    now_millis, AgentType, OsintPayload, PayloadKind, Signal, TemporalPattern, WalletAnalysis,
};
use crate::text::{
    chars_of, decimal, digit_char, holds, names, push_chars, push_decimal, push_str, same_text,
    text_of,
};
use crate::units::UNIT;

verus! {

/// Least effective intensity of an extraction whose addresses are looked
/// up: 0.3.
pub const CHAIN_THRESHOLD: u64 = 300_000;

/// Confidence of an analysis: 0.8.
pub const CHAIN_CONFIDENCE: u64 = 800_000;

/// Lifetime of an analysis: 120 seconds.
pub const CHAIN_TTL: u64 = 120_000;

/// Ten bitcoin in satoshi.
pub const HIGH_VOLUME: u64 = 1_000_000_000;

/// Seconds of seven days.
pub const WEEK: i64 = 604_800;

/// Settings of the analyst.
#[derive(Debug, Clone)]
pub struct BlockchainConfig {
    /// Key for Etherscan
    pub etherscan_api_key: Option<String>,
    /// Seconds after which a request is given up
    pub request_timeout: u64,
    /// Fewest transactions in which patterns are looked for
    pub min_tx_for_patterns: u32,
}

impl Default for BlockchainConfig {
    /// No key, thirty seconds, three transactions.
    fn default() -> (c: BlockchainConfig)
        ensures
            c.etherscan_api_key is None,
            c.request_timeout == 30,
            c.min_tx_for_patterns == 3,
    {
        BlockchainConfig { etherscan_api_key: None, request_timeout: 30, min_tx_for_patterns: 3 }
    }
}

impl BlockchainConfig {
    /// The default settings with the key for Etherscan that the
    /// environment holds, where it holds one.
    pub fn with_key(etherscan_api_key: Option<String>) -> (c: BlockchainConfig)
        ensures
            c.etherscan_api_key == etherscan_api_key,
            c.request_timeout == 30,
            c.min_tx_for_patterns == 3,
    {
        BlockchainConfig { etherscan_api_key, request_timeout: 30, min_tx_for_patterns: 3 }
    }

    /// A copy of the settings.
    pub fn duplicate(&self) -> (c: BlockchainConfig)
        ensures
            c == *self,
    {
        BlockchainConfig {
            etherscan_api_key: copy_opt(&self.etherscan_api_key),
            request_timeout: self.request_timeout,
            min_tx_for_patterns: self.min_tx_for_patterns,
        }
    }
}

/// A chain with a public explorer.
#[derive(Debug, Clone, Copy, PartialEq, Eq, Structural)]
pub enum Chain {
    Bitcoin,
    Ethereum,
}

/// An address that is being looked up.
#[derive(Debug, Clone)]
pub struct Lookup {
    pub address: String,
    pub chain: Chain,
}

/// The analyst.
pub struct BlockchainAgent {
    pub config: AgentConfig,
    pub blockchain_config: BlockchainConfig,
    /// The keys of the addresses that were looked up
    pub processed_addresses: Vec<String>,
    /// The addresses that are being looked up; two requests are out for
    /// each
    pub pending: Option<Vec<Lookup>>,
}

/// The chain of a kind of artifact, where it has a public explorer.
pub open spec fn chain_of(kind: ArtifactType) -> Option<Chain> {
    match kind {
        ArtifactType::Bitcoin => Some(Chain::Bitcoin),
        ArtifactType::Ethereum => Some(Chain::Ethereum),
        _ => None,
    }
}

/// The name of a chain.
pub open spec fn chain_name(c: Chain) -> Seq<char> {
    match c {
        Chain::Bitcoin => "bitcoin"@,
        Chain::Ethereum => "ethereum"@,
    }
}

/// The addresses of the two requests for an address.
pub open spec fn lookup_urls(address: Seq<char>, chain: Chain, key: Seq<char>) -> (
    Seq<char>,
    Seq<char>,
) {
    match chain {
        Chain::Bitcoin => (
            "https://blockstream.info/api/address/"@ + address,
            "https://blockstream.info/api/address/"@ + address + "/txs"@,
        ),
        Chain::Ethereum => (
            "https://api.etherscan.io/api?module=account&action=balance&address="@ + address
                + "&tag=latest&apikey="@ + key,
            "https://api.etherscan.io/api?module=account&action=txlist&address="@ + address
                + "&startblock=0&endblock=99999999&sort=asc&apikey="@ + key,
        ),
    }
}

/// The sum of two numbers, at most `u64::MAX`.
pub open spec fn capped(a: u64, b: u64) -> u64 {
    if a + b > u64::MAX {
        u64::MAX
    } else {
        (a + b) as u64
    }
}

/// The sum of two counts, at most `u32::MAX`.
pub open spec fn capped_count(a: u64, b: u64) -> u32 {
    if a + b > u32::MAX {
        u32::MAX
    } else {
        (a + b) as u32
    }
}

/// An amount of satoshi in bitcoin with two decimal places, rounded.
pub open spec fn coins_text(satoshi: u64) -> Seq<char> {
    let h = (satoshi + 500_000) / 1_000_000;
    decimal((h / 100) as nat) + seq!['.', digit_char((h / 10 % 10) as nat), digit_char((h % 10) as nat)]
}

/// The signs of risk of a bitcoin address: more than ten bitcoin received,
/// more than a hundred transactions, and a transaction in the last seven
/// days before `now`.
pub open spec fn bitcoin_risks(funded: u64, count: u64, latest: Option<i64>, now: i64) -> Seq<
    Seq<char>,
> {
    (if funded > HIGH_VOLUME {
        seq!["High volume: "@ + coins_text(funded) + " BTC total received"@]
    } else {
        Seq::empty()
    }) + (if count > 100 {
        seq!["High transaction count: "@ + decimal(count as nat)]
    } else {
        Seq::empty()
    }) + (match latest {
        Some(t) => if now - t < WEEK {
            seq!["Active within last 7 days"@]
        } else {
            Seq::empty()
        },
        None => Seq::empty(),
    })
}

/// The signs of risk of a bitcoin address.
pub fn detect_risk_indicators(funded: u64, count: u64, latest: Option<i64>, now: i64) -> (out: Vec<
    String,
>)
    ensures
        names(out@) == bitcoin_risks(funded, count, latest, now),
{
    let mut out: Vec<String> = Vec::new();
    assert(names(out@) =~= Seq::<Seq<char>>::empty());
    if funded > HIGH_VOLUME {
        let h: u64 = ((funded as u128 + 500_000) / 1_000_000) as u64;
        let mut line = chars_of("High volume: ");
        push_decimal(&mut line, h / 100);
        line.push('.');
        let mut two: Vec<char> = Vec::new();
        push_decimal(&mut two, h / 10 % 10);
        push_decimal(&mut two, h % 10);
        assert(two@ =~= seq![digit_char((h / 10 % 10) as nat), digit_char((h % 10) as nat)]);
        push_chars(&mut line, &two);
        push_str(&mut line, " BTC total received");
        assert(line@ =~= "High volume: "@ + coins_text(funded) + " BTC total received"@);
        let ghost before = names(out@);
        out.push(text_of(&line));
        assert(names(out@) =~= before.push(line@));
    }
    if count > 100 {
        let mut line = chars_of("High transaction count: ");
        push_decimal(&mut line, count);
        let ghost before = names(out@);
        out.push(text_of(&line));
        assert(names(out@) =~= before.push(line@));
    }
    match latest {
        Some(t) => {
            if (now as i128) - (t as i128) < WEEK as i128 {
                let ghost before = names(out@);
                out.push("Active within last 7 days".to_owned());
                assert(names(out@) =~= before.push("Active within last 7 days"@));
            }
        },
        None => {},
    }
    assert(names(out@) =~= bitcoin_risks(funded, count, latest, now));
    out
}

/// The six figures of a Blockstream address record: transactions, funds
/// received and funds spent, confirmed and unconfirmed.
pub open spec fn bitcoin_stats(body: Seq<char>) -> Option<(u64, u64, u64, u64, u64, u64)> {
    match (
        json_number(body, "/chain_stats/tx_count"@),
        json_number(body, "/chain_stats/funded_txo_sum"@),
        json_number(body, "/chain_stats/spent_txo_sum"@),
        json_number(body, "/mempool_stats/tx_count"@),
        json_number(body, "/mempool_stats/funded_txo_sum"@),
        json_number(body, "/mempool_stats/spent_txo_sum"@),
    ) {
        (Some(a), Some(b), Some(c), Some(d), Some(e), Some(f)) => if a <= u32::MAX && d
            <= u32::MAX {
            Some((a, b, c, d, e, f))
        } else {
            None
        },
        _ => None,
    }
}

/// The six figures of a Blockstream address record.
pub fn read_bitcoin_stats(body: &str) -> (r: Option<(u64, u64, u64, u64, u64, u64)>)
    ensures
        r == bitcoin_stats(body@),
{
    let a = match number_at(body, "/chain_stats/tx_count") {
        Some(x) => x,
        None => {
            return None;
        },
    };
    let b = match number_at(body, "/chain_stats/funded_txo_sum") {
        Some(x) => x,
        None => {
            return None;
        },
    };
    let c = match number_at(body, "/chain_stats/spent_txo_sum") {
        Some(x) => x,
        None => {
            return None;
        },
    };
    let d = match number_at(body, "/mempool_stats/tx_count") {
        Some(x) => x,
        None => {
            return None;
        },
    };
    let e = match number_at(body, "/mempool_stats/funded_txo_sum") {
        Some(x) => x,
        None => {
            return None;
        },
    };
    let f = match number_at(body, "/mempool_stats/spent_txo_sum") {
        Some(x) => x,
        None => {
            return None;
        },
    };
    if a <= u32::MAX as u64 && d <= u32::MAX as u64 {
        Some((a, b, c, d, e, f))
    } else {
        None
    }
}

/// The block times of a Blockstream transaction list, in its order.
pub open spec fn block_times(body: Seq<char>) -> Seq<Option<i64>> {
    match json_integers(body, ""@, "/status/block_time"@) {
        Some(v) => v,
        None => Seq::empty(),
    }
}

/// The transaction list that a reply holds; none where there is no page.
pub open spec fn page_body(replies: Seq<Reply>, i: int) -> Option<Seq<char>> {
    if 0 <= i < replies.len() {
        match replies[i] {
            Reply::Page { body, .. } => Some(body@),
            _ => None,
        }
    } else {
        None
    }
}

/// Why no page stands at `at` of `replies`, in words behind `what`; none
/// where one does.
pub open spec fn no_page(replies: Seq<Reply>, at: int, what: Seq<char>) -> Option<Seq<char>> {
    if 0 <= at < replies.len() {
        match replies[at] {
            Reply::Page { .. } => None,
            Reply::NoPage(why) => Some(what + why@),
            _ => Some(what + "no page"@),
        }
    } else {
        Some(what + "no reply"@)
    }
}

/// Status and body of the page at `at` of `replies`, or why there is
/// none.
fn page_at<'a>(replies: &'a Vec<Reply>, at: usize, what: &str) -> (r: Result<
    (u16, &'a String),
    AgentError,
>)
    ensures
        match r {
            Ok((status, body)) => at < replies@.len() && replies@[at as int]
                == (Reply::Page { status, body: *body }),
            Err(e) => e matches AgentError::Network(m) && no_page(replies@, at as int, what@)
                == Some(m@),
        },
{
    let mut m = chars_of(what);
    if at >= replies.len() {
        push_str(&mut m, "no reply");
        return Err(AgentError::Network(text_of(&m)));
    }
    match &replies[at] {
        Reply::Page { status, body } => Ok((*status, body)),
        Reply::NoPage(why) => {
            push_str(&mut m, why.as_str());
            Err(AgentError::Network(text_of(&m)))
        },
        _ => {
            push_str(&mut m, "no page");
            Err(AgentError::Network(text_of(&m)))
        },
    }
}

/// The first and the last of the times; none of no times.
pub open spec fn ends_of(ts: Seq<int>) -> (Option<i64>, Option<i64>) {
    if ts.len() == 0 {
        (None, None)
    } else {
        (Some(least_of(ts) as i64), Some(greatest_of(ts, 0) as i64))
    }
}

/// `found` are the patterns of the times `ts` as measured.
pub open spec fn timed(found: Seq<TemporalPattern>, ts: Seq<int>, min_tx: u32) -> bool {
    exists|t: Timing| #[trigger] measures(t, ts) && pattern_models(found) == patterns_of(t, min_tx)
}

/// `w` is what the Blockstream record `info` and the transaction list
/// `txs` say of an address at the time `now`.
pub open spec fn is_bitcoin_analysis(
    w: WalletAnalysis,
    info: Seq<char>,
    txs: Option<Seq<char>>,
    min_tx: u32,
    now: i64,
) -> bool {
    let raw = match txs {
        Some(b) => block_times(b),
        None => Seq::empty(),
    };
    let ts = times_of(raw);
    &&& bitcoin_stats(info) matches Some(s)
    &&& w.tx_count == capped_count(s.0, s.3)
    &&& w.total_received == capped(s.1, s.4)
    &&& w.total_sent == capped(s.2, s.5)
    &&& w.balance == if w.total_received >= w.total_sent {
        (w.total_received - w.total_sent) as u64
    } else {
        0
    }
    &&& (w.first_seen, w.last_seen) == ends_of(ts)
    &&& timed(w.patterns@, ts, min_tx)
    &&& names(w.risk_indicators@) == bitcoin_risks(
        s.1,
        s.0,
        if raw.len() > 0 {
            raw[0]
        } else {
            None
        },
        now,
    )
}

/// What Blockstream says of an address at the time `now`: the reply to the
/// request for its record, and the reply to the request for its
/// transactions. Without the record there is an error; without the
/// transactions there are no patterns. The patterns are looked for in the
/// times that `times_of` keeps: those from 1970 up to 2^40 seconds, and of
/// these the first 1,048,576; a time outside is left out.
pub fn bitcoin_analysis(replies: &Vec<Reply>, at: usize, min_tx: u32, now: i64) -> (r: Result<
    WalletAnalysis,
    AgentError,
>)
    requires
        at < usize::MAX,
    ensures
        match r {
            Ok(w) => {
                &&& at < replies@.len()
                &&& replies@[at as int] matches Reply::Page { status, body }
                &&& is_success(status)
                &&& is_bitcoin_analysis(w, body@, page_body(replies@, at + 1), min_tx, now)
            },
            Err(AgentError::Network(m)) => match no_page(
                replies@,
                at as int,
                "Blockstream API error: "@,
            ) {
                Some(why) => m@ == why,
                None => {
                    &&& replies@[at as int] matches Reply::Page { status, .. }
                    &&& !is_success(status)
                    &&& m@ == "Blockstream returned status: "@ + decimal(status as nat)
                },
            },
            Err(AgentError::Parse(m)) => {
                &&& at < replies@.len()
                &&& replies@[at as int] matches Reply::Page { status, body }
                &&& is_success(status)
                &&& bitcoin_stats(body@) is None
                &&& m@ == "Failed to parse Blockstream response"@
            },
            Err(_) => false,
        },
{
    let (status, info) = match page_at(replies, at, "Blockstream API error: ") {
        Ok(page) => page,
        Err(e) => {
            return Err(e);
        },
    };
    if !success(status) {
        let mut m = chars_of("Blockstream returned status: ");
        push_decimal(&mut m, status as u64);
        return Err(AgentError::Network(text_of(&m)));
    }
    let s = match read_bitcoin_stats(info.as_str()) {
        Some(s) => s,
        None => {
            return Err(AgentError::Parse("Failed to parse Blockstream response".to_owned()));
        },
    };
    let raw: Vec<Option<i64>> = if at + 1 < replies.len() {
        match &replies[at + 1] {
            Reply::Page { body, .. } => match integers_at(body.as_str(), "", "/status/block_time") {
                Some(v) => v,
                None => Vec::new(),
            },
            _ => Vec::new(),
        }
    } else {
        Vec::new()
    };
    let ghost want = match page_body(replies@, at + 1) {
        Some(b) => block_times(b),
        None => Seq::empty(),
    };
    assert(raw@ =~= want);
    let ts = usable_times(&raw);
    assert(as_ints(ts@) == times_of(raw@));
    let t = measure(&ts);
    let found = patterns(&t, min_tx);
    let (first_seen, last_seen) = if ts.len() == 0 {
        (None, None)
    } else {
        (Some(t.first), Some(t.last))
    };
    let latest = if raw.len() > 0 { raw[0] } else { None };
    let risk_indicators = detect_risk_indicators(s.1, s.0, latest, now);
    let total_received = s.1.saturating_add(s.4);
    let total_sent = s.2.saturating_add(s.5);
    let count = s.0.saturating_add(s.3);
    let w = WalletAnalysis {
        first_seen,
        last_seen,
        tx_count: if count > u32::MAX as u64 {
            u32::MAX
        } else {
            count as u32
        },
        total_received,
        total_sent,
        balance: total_received.saturating_sub(total_sent),
        patterns: found,
        risk_indicators,
    };
    proof {
        assert(measures(t, times_of(want)) && pattern_models(w.patterns@) == patterns_of(
            t,
            min_tx,
        ));
        assert(timed(w.patterns@, times_of(want), min_tx));
        assert(w.tx_count == capped_count(s.0, s.3));
        assert(is_bitcoin_analysis(w, info@, page_body(replies@, at + 1), min_tx, now));
    }
    Ok(w)
}

/// A transaction as Etherscan lists it.
#[derive(Debug, Clone)]
pub struct EthTx {
    pub time_stamp: String,
    pub to: Option<String>,
    pub value: String,
    pub input: String,
    pub is_error: Option<String>,
}

/// What a listed transaction says.
pub struct EthTxModel {
    pub time_stamp: Seq<char>,
    pub to: Option<Seq<char>>,
    pub value: Seq<char>,
    pub input: Seq<char>,
    pub is_error: Option<Seq<char>>,
}

/// The model of each transaction.
pub open spec fn tx_models(v: Seq<EthTx>) -> Seq<EthTxModel> {
    v.map_values(
        |t: EthTx|
            EthTxModel {
                time_stamp: t.time_stamp@,
                to: opt_text(t.to),
                value: t.value@,
                input: t.input@,
                is_error: opt_text(t.is_error),
            },
    )
}

/// The least of five lengths.
pub open spec fn least5(a: nat, b: nat, c: nat, d: nat, e: nat) -> nat {
    let ab = if a <= b { a } else { b };
    let cd = if c <= d { c } else { d };
    let abcd = if ab <= cd { ab } else { cd };
    if abcd <= e { abcd } else { e }
}

/// The transactions of an Etherscan list: none unless the answer has a
/// status and every transaction has time, value and input. (The columns
/// of one array are equally long; the count is written as their least
/// length because nothing here says so.)
pub open spec fn eth_txs(body: Seq<char>) -> Seq<EthTxModel> {
    match (
        json_text(body, "/status"@),
        crate::json::column(body, "/result"@, "/timeStamp"@),
        crate::json::column(body, "/result"@, "/value"@),
        crate::json::column(body, "/result"@, "/input"@),
        json_texts(body, "/result"@, "/to"@),
        json_texts(body, "/result"@, "/isError"@),
    ) {
        (Some(_), Some(time), Some(value), Some(input), Some(to), Some(failed)) => Seq::new(
            least5(time.len(), value.len(), input.len(), to.len(), failed.len()),
            |i: int|
                EthTxModel {
                    time_stamp: time[i],
                    to: to[i],
                    value: value[i],
                    input: input[i],
                    is_error: failed[i],
                },
        ),
        _ => Seq::empty(),
    }
}

fn shortest(a: usize, b: usize) -> (r: usize)
    ensures
        r == if a <= b {
            a
        } else {
            b
        },
{
    if a <= b {
        a
    } else {
        b
    }
}

/// The transactions of an Etherscan list.
pub fn read_eth_txs(body: &str) -> (out: Vec<EthTx>)
    ensures
        tx_models(out@) == eth_txs(body@),
{
    let mut out: Vec<EthTx> = Vec::new();
    assert(tx_models(out@) =~= Seq::<EthTxModel>::empty());
    if text_at(body, "/status").is_none() {
        return out;
    }
    let time = match crate::json::required_texts(body, "/result", "/timeStamp") {
        Some(v) => v,
        None => {
            return out;
        },
    };
    let value = match crate::json::required_texts(body, "/result", "/value") {
        Some(v) => v,
        None => {
            return out;
        },
    };
    let input = match crate::json::required_texts(body, "/result", "/input") {
        Some(v) => v,
        None => {
            return out;
        },
    };
    let to = match texts_at(body, "/result", "/to") {
        Some(v) => v,
        None => {
            return out;
        },
    };
    let failed = match texts_at(body, "/result", "/isError") {
        Some(v) => v,
        None => {
            return out;
        },
    };
    let n = shortest(
        shortest(shortest(time.len(), value.len()), shortest(input.len(), to.len())),
        failed.len(),
    );
    let ghost want = eth_txs(body@);
    let mut i: usize = 0;
    while i < n
        invariant
            i <= n,
            n <= time@.len(),
            n <= value@.len(),
            n <= input@.len(),
            n <= to@.len(),
            n <= failed@.len(),
            want.len() == n,
            forall|k: int|
                0 <= k < n ==> #[trigger] want[k] == (EthTxModel {
                    time_stamp: names(time@)[k],
                    to: optional_texts(to@)[k],
                    value: names(value@)[k],
                    input: names(input@)[k],
                    is_error: optional_texts(failed@)[k],
                }),
            out@.len() == i,
            forall|k: int| 0 <= k < i ==> #[trigger] tx_models(out@)[k] == want[k],
        decreases n - i,
    {
        let ghost before = tx_models(out@);
        out.push(
            EthTx {
                time_stamp: time[i].clone(),
                to: copy_opt(&to[i]),
                value: value[i].clone(),
                input: input[i].clone(),
                is_error: copy_opt(&failed[i]),
            },
        );
        proof {
            assert(names(time@)[i as int] == time@[i as int]@);
            assert(names(value@)[i as int] == value@[i as int]@);
            assert(names(input@)[i as int] == input@[i as int]@);
            assert(optional_texts(to@)[i as int] == opt_text(to@[i as int]));
            assert(optional_texts(failed@)[i as int] == opt_text(failed@[i as int]));
            assert forall|k: int| 0 <= k < i + 1 implies #[trigger] tx_models(out@)[k] == want[k] by {
                if k < i {
                    assert(tx_models(out@)[k] == before[k]);
                }
            }
        }
        i += 1;
    }
    assert(tx_models(out@) =~= want);
    out
}

/// A letter in lower case; any other character as it is.
pub open spec fn folded(c: char) -> char {
    if 'A' <= c <= 'Z' {
        ((c as u32 + 32) as u8) as char
    } else {
        c
    }
}

/// Two texts are equal but for the case of their ASCII letters.
pub open spec fn same_but_case(a: Seq<char>, b: Seq<char>) -> bool {
    a.len() == b.len() && forall|i: int| 0 <= i < a.len() ==> folded(#[trigger] a[i]) == folded(b[i])
}

fn fold(c: char) -> (r: char)
    ensures
        r == folded(c),
{
    if 'A' <= c && c <= 'Z' {
        ((c as u32 + 32) as u8) as char
    } else {
        c
    }
}

/// Whether two texts are equal but for the case of their ASCII letters.
pub fn equal_but_case(a: &str, b: &str) -> (r: bool)
    ensures
        r == same_but_case(a@, b@),
{
    let x = chars_of(a);
    let y = chars_of(b);
    if x.len() != y.len() {
        return false;
    }
    let mut i: usize = 0;
    while i < x.len()
        invariant
            i <= x.len(),
            x@.len() == y@.len(),
            x@ == a@,
            y@ == b@,
            forall|k: int| 0 <= k < i ==> folded(#[trigger] x@[k]) == folded(y@[k]),
        decreases x.len() - i,
    {
        if fold(x[i]) != fold(y[i]) {
            assert(!same_but_case(a@, b@)) by {
                assert(folded(a@[i as int]) != folded(b@[i as int]));
            }
            return false;
        }
        i += 1;
    }
    true
}

/// Whether the transaction went to `address`.
pub open spec fn goes_to(t: EthTxModel, address: Seq<char>) -> bool {
    match t.to {
        Some(to) => same_but_case(to, address),
        None => false,
    }
}

/// The value of a transaction; zero where it is no number.
pub open spec fn value_of(t: EthTxModel) -> u64 {
    match unsigned_of(t.value) {
        Some(v) => v,
        None => 0,
    }
}

/// The sum of the values of the transactions that went to `address`, or of
/// those that did not, at most `u64::MAX`.
pub open spec fn flow(txs: Seq<EthTxModel>, address: Seq<char>, inward: bool) -> u64
    decreases txs.len(),
{
    if txs.len() == 0 {
        0
    } else {
        let before = flow(txs.drop_last(), address, inward);
        if goes_to(txs.last(), address) == inward {
            capped(before, value_of(txs.last()))
        } else {
            before
        }
    }
}

/// Whether the transaction called a contract.
pub open spec fn calls_contract(t: EthTxModel) -> bool {
    t.input.len() > 0 && t.input != "0x"@
}

/// Whether the transaction failed.
pub open spec fn has_failed(t: EthTxModel) -> bool {
    t.is_error == Some("1"@)
}

/// How many of the transactions meet `p`.
pub open spec fn count_where(txs: Seq<EthTxModel>, p: spec_fn(EthTxModel) -> bool) -> nat
    decreases txs.len(),
{
    if txs.len() == 0 {
        0
    } else {
        count_where(txs.drop_last(), p) + if p(txs.last()) {
            1nat
        } else {
            0nat
        }
    }
}

/// How many of the transactions called a contract.
pub open spec fn calls_in(txs: Seq<EthTxModel>) -> nat {
    count_where(txs, |t: EthTxModel| calls_contract(t))
}

/// How many of the transactions failed.
pub open spec fn failures_in(txs: Seq<EthTxModel>) -> nat {
    count_where(txs, |t: EthTxModel| has_failed(t))
}

/// The signs of risk of an Ethereum address: more than half of its
/// transactions call contracts, and more than five failed.
pub open spec fn ethereum_risks(txs: Seq<EthTxModel>) -> Seq<Seq<char>> {
    let calls = calls_in(txs);
    let failures = failures_in(txs);
    (if calls > txs.len() / 2 {
        seq![
            "Heavy smart contract usage: "@ + decimal(
                calls * 100 / (if txs.len() > 0 {
                    txs.len()
                } else {
                    1
                }),
            ) + "% of transactions"@,
        ]
    } else {
        Seq::empty()
    }) + (if failures > 5 {
        seq![decimal(failures) + " failed transactions (possible probing/attack)"@]
    } else {
        Seq::empty()
    })
}

/// The time of each transaction as a number, where it is one.
pub open spec fn stamps(txs: Seq<EthTxModel>) -> Seq<Option<i64>> {
    txs.map_values(|t: EthTxModel| signed_of(t.time_stamp))
}

/// `w` is what the Etherscan balance `balance` and the transaction list
/// `txs` say of `address`.
pub open spec fn is_ethereum_analysis(
    w: WalletAnalysis,
    address: Seq<char>,
    balance: Seq<char>,
    txs: Seq<EthTxModel>,
    min_tx: u32,
) -> bool {
    &&& w.balance == match unsigned_of(balance) {
        Some(b) => b,
        None => 0,
    }
    &&& w.tx_count == if txs.len() > u32::MAX {
        u32::MAX
    } else {
        txs.len() as u32
    }
    &&& w.first_seen == if txs.len() > 0 {
        signed_of(txs[0].time_stamp)
    } else {
        None
    }
    &&& w.last_seen == if txs.len() > 0 {
        signed_of(txs.last().time_stamp)
    } else {
        None
    }
    &&& w.total_received == flow(txs, address, true)
    &&& w.total_sent == flow(txs, address, false)
    &&& pattern_models(w.patterns@) == hourly_patterns(times_of(stamps(txs)), min_tx)
    &&& names(w.risk_indicators@) == ethereum_risks(txs)
}

/// What the transactions on Etherscan's list say of `address`.
pub fn ethereum_figures(address: &str, balance: u64, txs: &Vec<EthTx>, min_tx: u32) -> (w:
    WalletAnalysis)
    ensures
        w.balance == balance,
        w.tx_count == if txs@.len() > u32::MAX {
            u32::MAX
        } else {
            txs@.len() as u32
        },
        w.first_seen == if txs@.len() > 0 {
            signed_of(txs@[0].time_stamp@)
        } else {
            None
        },
        w.last_seen == if txs@.len() > 0 {
            signed_of(txs@.last().time_stamp@)
        } else {
            None
        },
        w.total_received == flow(tx_models(txs@), address@, true),
        w.total_sent == flow(tx_models(txs@), address@, false),
        pattern_models(w.patterns@) == hourly_patterns(times_of(stamps(tx_models(txs@))), min_tx),
        names(w.risk_indicators@) == ethereum_risks(tx_models(txs@)),
{
    let ghost m = tx_models(txs@);
    let n = txs.len();
    let mut raw: Vec<Option<i64>> = Vec::new();
    let mut received: u64 = 0;
    let mut sent: u64 = 0;
    let mut calls: usize = 0;
    let mut failures: usize = 0;
    let mut i: usize = 0;
    proof {
        assert(m.take(0) =~= Seq::<EthTxModel>::empty());
        assert(raw@ =~= stamps(m.take(0)));
    }
    while i < n
        invariant
            i <= n,
            n == txs@.len(),
            m == tx_models(txs@),
            raw@ == stamps(m.take(i as int)),
            received == flow(m.take(i as int), address@, true),
            sent == flow(m.take(i as int), address@, false),
            calls == calls_in(m.take(i as int)),
            failures == failures_in(m.take(i as int)),
            calls <= i,
            failures <= i,
        decreases n - i,
    {
        let tx = &txs[i];
        proof {
            assert(m.take(i + 1).drop_last() =~= m.take(i as int));
            assert(m.take(i + 1).last() == m[i as int]);
            assert(m[i as int].time_stamp == tx.time_stamp@);
            assert(stamps(m.take(i + 1)) =~= stamps(m.take(i as int)).push(
                signed_of(tx.time_stamp@),
            ));
        }
        raw.push(parse_signed(tx.time_stamp.as_str()));
        let value = match parse_unsigned(tx.value.as_str()) {
            Some(v) => v,
            None => 0,
        };
        let inward = match &tx.to {
            Some(to) => equal_but_case(to.as_str(), address),
            None => false,
        };
        if inward {
            received = received.saturating_add(value);
        } else {
            sent = sent.saturating_add(value);
        }
        if tx.input.as_str().unicode_len() > 0 && !same_text(tx.input.as_str(), "0x") {
            calls = calls + 1;
        }
        let failed = match &tx.is_error {
            Some(e) => same_text(e.as_str(), "1"),
            None => false,
        };
        if failed {
            failures = failures + 1;
        }
        i += 1;
    }
    assert(m.take(n as int) =~= m);
    let ts = usable_times(&raw);
    let found = hour_patterns(&ts, min_tx);
    let mut risks: Vec<String> = Vec::new();
    assert(names(risks@) =~= Seq::<Seq<char>>::empty());
    if calls > n / 2 {
        let scaled: u128 = calls as u128 * 100;
        let by: u128 = if n > 0 { n as u128 } else { 1 };
        assert(scaled / by <= 100) by (nonlinear_arith)
            requires
                by >= 1,
                scaled == calls * 100,
                calls <= by,
        ;
        let share = (scaled / by) as u64;
        let mut line = chars_of("Heavy smart contract usage: ");
        push_decimal(&mut line, share);
        push_str(&mut line, "% of transactions");
        let ghost before = names(risks@);
        risks.push(text_of(&line));
        assert(names(risks@) =~= before.push(line@));
    }
    if failures > 5 {
        let mut line: Vec<char> = Vec::new();
        push_decimal(&mut line, failures as u64);
        push_str(&mut line, " failed transactions (possible probing/attack)");
        let ghost before = names(risks@);
        risks.push(text_of(&line));
        assert(names(risks@) =~= before.push(line@));
    }
    assert(names(risks@) =~= ethereum_risks(m));
    let first_seen = if n > 0 {
        assert(m[0].time_stamp == txs@[0].time_stamp@);
        parse_signed(txs[0].time_stamp.as_str())
    } else {
        None
    };
    let last_seen = if n > 0 {
        assert(m[n - 1].time_stamp == txs@[n - 1].time_stamp@);
        parse_signed(txs[n - 1].time_stamp.as_str())
    } else {
        None
    };
    WalletAnalysis {
        first_seen,
        last_seen,
        tx_count: if n > u32::MAX as usize {
            u32::MAX
        } else {
            n as u32
        },
        total_received: received,
        total_sent: sent,
        balance,
        patterns: found,
        risk_indicators: risks,
    }
}

/// What Etherscan says of `address`: the reply at `at` to the request for
/// its balance, and the reply after it to the request for its
/// transactions. Without the balance there is an error; without the
/// transactions there are none. The patterns are looked for in the times
/// that `times_of` keeps: those from 1970 up to 2^40 seconds, and of these
/// the first 1,048,576; a time outside is left out.
pub fn ethereum_analysis(address: &str, replies: &Vec<Reply>, at: usize, min_tx: u32) -> (r: Result<
    WalletAnalysis,
    AgentError,
>)
    requires
        at < usize::MAX,
    ensures
        match r {
            Ok(w) => {
                &&& at < replies@.len()
                &&& replies@[at as int] matches Reply::Page { status, body }
                &&& json_text(body@, "/status"@) is Some
                &&& json_text(body@, "/result"@) matches Some(balance)
                &&& is_ethereum_analysis(
                    w,
                    address@,
                    balance,
                    match page_body(replies@, at + 1) {
                        Some(b) => eth_txs(b),
                        None => Seq::empty(),
                    },
                    min_tx,
                )
            },
            Err(AgentError::Network(m)) => no_page(
                replies@,
                at as int,
                "Etherscan balance error: "@,
            ) == Some(m@),
            Err(AgentError::Parse(m)) => {
                &&& at < replies@.len()
                &&& replies@[at as int] matches Reply::Page { status, body }
                &&& (json_text(body@, "/status"@) is None || json_text(body@, "/result"@) is None)
                &&& m@ == "Failed to parse Etherscan balance"@
            },
            Err(_) => false,
        },
{
    let body = match page_at(replies, at, "Etherscan balance error: ") {
        Ok(page) => page.1,
        Err(e) => {
            return Err(e);
        },
    };
    if text_at(body.as_str(), "/status").is_none() {
        return Err(AgentError::Parse("Failed to parse Etherscan balance".to_owned()));
    }
    let result = match text_at(body.as_str(), "/result") {
        Some(r) => r,
        None => {
            return Err(AgentError::Parse("Failed to parse Etherscan balance".to_owned()));
        },
    };
    let balance = match parse_unsigned(result.as_str()) {
        Some(b) => b,
        None => 0,
    };
    let txs: Vec<EthTx> = if at + 1 < replies.len() {
        match &replies[at + 1] {
            Reply::Page { body, .. } => read_eth_txs(body.as_str()),
            _ => Vec::new(),
        }
    } else {
        Vec::new()
    };
    proof {
        let want = match page_body(replies@, at + 1) {
            Some(b) => eth_txs(b),
            None => Seq::empty(),
        };
        assert(tx_models(txs@) =~= want);
        if txs@.len() > 0 {
            assert(tx_models(txs@)[0].time_stamp == txs@[0].time_stamp@);
            assert(tx_models(txs@).last().time_stamp == txs@.last().time_stamp@);
        }
    }
    Ok(ethereum_figures(address, balance, &txs, min_tx))
}

/// The request for the page at `url`, not through Tor, without headers.
pub open spec fn gets(r: Request, url: Seq<char>) -> bool {
    r matches Request::Fetch { url: u, headers, through_tor } && u@ == url && headers@.len() == 0
        && !through_tor
}

/// The requests at `2 * j` and after it are those for `lookup`.
pub open spec fn pair_for(requests: Seq<Request>, j: int, lookup: Lookup, key: Seq<char>) -> bool {
    &&& gets(requests[2 * j], lookup_urls(lookup.address@, lookup.chain, key).0)
    &&& gets(requests[2 * j + 1], lookup_urls(lookup.address@, lookup.chain, key).1)
}

/// There are two requests for each lookup, in their order.
pub open spec fn looks_up(requests: Seq<Request>, lookups: Seq<Lookup>, key: Seq<char>) -> bool {
    &&& requests.len() == 2 * lookups.len()
    &&& forall|j: int|
        0 <= j < lookups.len() ==> pair_for(requests, j, #[trigger] lookups[j], key)
}

/// The artifacts that are looked up: the coin addresses of the sensed
/// extractions that were not looked up yet.
pub open spec fn addresses_of(found: Seq<Artifact>, seen: Seq<Seq<char>>) -> Seq<Artifact> {
    found.filter(
        |a: Artifact| !seen.contains(enrichment_key(a)) && chain_of(a.artifact_type) is Some,
    )
}

/// `lookups` are the addresses `cands` with their chains.
pub open spec fn lookups_of(lookups: Seq<Lookup>, cands: Seq<Artifact>) -> bool {
    &&& lookups.len() == cands.len()
    &&& forall|k: int|
        0 <= k < lookups.len() ==> (#[trigger] lookups[k]).address@ == cands[k].value@ && Some(
            lookups[k].chain,
        ) == chain_of(cands[k].artifact_type)
}

/// Whether the explorer answered the first request for the lookup at `k`
/// with what is needed of it.
pub open spec fn answers(replies: Seq<Reply>, k: int, chain: Chain) -> bool {
    &&& 2 * k < replies.len()
    &&& replies[2 * k] matches Reply::Page { status, body }
    &&& match chain {
        Chain::Bitcoin => is_success(status) && bitcoin_stats(body@) is Some,
        Chain::Ethereum => json_text(body@, "/status"@) is Some && json_text(body@, "/result"@)
            is Some,
    }
}

/// `item` is the analysis of the lookup at `k` as the replies show it.
pub open spec fn is_analysis(
    item: Outgoing,
    lookup: Lookup,
    replies: Seq<Reply>,
    k: int,
    min_tx: u32,
    now: i64,
) -> bool {
    &&& item.confidence == CHAIN_CONFIDENCE
    &&& item.ttl == CHAIN_TTL
    &&& item.payload matches OsintPayload::BlockchainAnalysis { address, chain, analysis }
    &&& address@ == lookup.address@
    &&& chain@ == chain_name(lookup.chain)
    &&& replies[2 * k] matches Reply::Page { status, body }
    &&& match lookup.chain {
        Chain::Bitcoin => is_bitcoin_analysis(
            analysis,
            body@,
            page_body(replies, 2 * k + 1),
            min_tx,
            now,
        ),
        Chain::Ethereum => json_text(body@, "/result"@) matches Some(balance)
            && is_ethereum_analysis(
            analysis,
            lookup.address@,
            balance,
            match page_body(replies, 2 * k + 1) {
                Some(b) => eth_txs(b),
                None => Seq::empty(),
            },
            min_tx,
        ),
    }
}

/// `batch` holds, in the order of the lookups, the analysis of each
/// address that its explorer answered for.
pub open spec fn chain_batch(
    batch: Seq<Outgoing>,
    lookups: Seq<Lookup>,
    replies: Seq<Reply>,
    min_tx: u32,
    now: i64,
) -> bool
    decreases lookups.len(),
{
    if lookups.len() == 0 {
        batch.len() == 0
    } else {
        let k = lookups.len() - 1;
        if !answers(replies, k, lookups.last().chain) {
            chain_batch(batch, lookups.drop_last(), replies, min_tx, now)
        } else {
            &&& batch.len() > 0
            &&& chain_batch(batch.drop_last(), lookups.drop_last(), replies, min_tx, now)
            &&& is_analysis(batch.last(), lookups.last(), replies, k, min_tx, now)
        }
    }
}

impl BlockchainAgent {
    /// The requests that are out can be counted.
    pub open spec fn wf(&self) -> bool {
        self.pending matches Some(lookups) ==> 2 * lookups@.len() <= usize::MAX
    }

    /// An analyst that has looked up nothing yet.
    pub fn new(config: AgentConfig, blockchain_config: BlockchainConfig) -> (a: BlockchainAgent)
        ensures
            a.config == config,
            a.blockchain_config == blockchain_config,
            a.processed_addresses@.len() == 0,
            a.pending is None,
            a.wf(),
    {
        BlockchainAgent {
            config,
            blockchain_config,
            processed_addresses: Vec::new(),
            pending: None,
        }
    }

    /// The name of the chain of an address, where it has a public
    /// explorer.
    pub fn detect_chain(artifact: &Artifact) -> (r: Option<&'static str>)
        ensures
            match chain_of(artifact.artifact_type) {
                Some(c) => r matches Some(name) && name@ == chain_name(c),
                None => r is None,
            },
    {
        match artifact.artifact_type {
            ArtifactType::Bitcoin => Some("bitcoin"),
            ArtifactType::Ethereum => Some("ethereum"),
            _ => None,
        }
    }

    /// The worker's name.
    pub fn id(&self) -> (r: &str)
        ensures
            r@ == self.config.id@,
    {
        self.config.id.as_str()
    }

    /// The worker's kind.
    pub fn agent_type(&self) -> (r: &'static str)
        ensures
            r@ == "blockchain_analyst"@,
    {
        "blockchain_analyst"
    }

    /// The extractions that reach the worker's threshold.
    pub fn sense<'a>(&self, field: &'a Field) -> (out: Vec<&'a Signal>)
        ensures
            refs(out@) == of_kind(
                field.live(),
                field.time(),
                self.config.sensing_threshold,
                PayloadKind::ExtractedArtifacts,
            ),
    {
        field.sense_kind(self.config.sensing_threshold, PayloadKind::ExtractedArtifacts)
    }

    /// What the beginning of an activation comes to: the coin addresses are
    /// noted, and two requests go out for each.
    pub open spec fn starts(&self, live: Seq<Signal>, time: i64, post: Self, step: Step) -> bool {
        &&& post.config == self.config
        &&& post.blockchain_config == self.blockchain_config
        &&& post.wf()
        &&& ({
            let found = flattened(
                of_kind(
                    live,
                    time,
                    CHAIN_THRESHOLD,
                    PayloadKind::ExtractedArtifacts,
                ),
            );
            let cands = addresses_of(found, names(self.processed_addresses@));
            let key = match self.blockchain_config.etherscan_api_key {
                Some(k) => k@,
                None => Seq::empty(),
            };
            &&& names(post.processed_addresses@) == noted(
                names(self.processed_addresses@),
                enrichment_keys(cands),
            )
            &&& if cands.len() == 0 {
                &&& step matches Step::Done(Ok(hashes))
                &&& hashes@.len() == 0
                &&& post.pending is None
            } else {
                &&& step matches Step::Ask(requests)
                &&& post.pending matches Some(lookups)
                &&& lookups_of(lookups@, cands)
                &&& looks_up(requests@, lookups@, key)
            }
        })
    }

    /// Begins an activation: the coin addresses of the extractions that
    /// reach an effective intensity of 0.3 and were not looked up yet are
    /// noted, and two requests go out for each.
    pub fn start(&mut self, field: &Field) -> (step: Step)
        ensures
            old(self).starts(field.live(), field.time(), *final(self), step),
    {
        let extractions = field.sense_kind(CHAIN_THRESHOLD, PayloadKind::ExtractedArtifacts);
        let found = flatten(&extractions);
        let ghost all = derefs(found@);
        let ghost seen = names(self.processed_addresses@);
        let ghost p = |a: Artifact|
            !seen.contains(enrichment_key(a)) && chain_of(a.artifact_type) is Some;
        let mut cands: Vec<&Artifact> = Vec::new();
        let mut i: usize = 0;
        proof {
            reveal(Seq::filter);
            assert(all.take(0) =~= Seq::<Artifact>::empty());
            assert(derefs(cands@) =~= all.take(0).filter(p));
        }
        while i < found.len()
            invariant
                i <= found.len(),
                all == derefs(found@),
                seen == names(self.processed_addresses@),
                p == |a: Artifact|
                    !seen.contains(enrichment_key(a)) && chain_of(a.artifact_type) is Some,
                derefs(cands@) == all.take(i as int).filter(p),
            decreases found.len() - i,
        {
            let a = found[i];
            proof {
                lemma_filter_step(all, i as int, p);
                assert(all[i as int] == *a);
            }
            let key = EnrichmentAgent::key_of(a);
            if !holds(&self.processed_addresses, key.as_str()) && BlockchainAgent::detect_chain(
                a,
            ).is_some() {
                let ghost before = derefs(cands@);
                cands.push(a);
                assert(derefs(cands@) =~= before.push(*a));
            }
            i += 1;
        }
        assert(all.take(found@.len() as int) =~= all);
        let ghost cs = derefs(cands@);
        proof {
            crate::field::lemma_filter_members(all, p);
            assert forall|j: int| 0 <= j < cs.len() implies chain_of(
                (#[trigger] cs[j]).artifact_type,
            ) is Some by {
                assert(p(all.filter(p)[j]));
            }
        }
        let api_key: String = match &self.blockchain_config.etherscan_api_key {
            Some(k) => k.clone(),
            None => String::new(),
        };
        let ghost key = api_key@;
        let mut requests: Vec<Request> = Vec::new();
        let mut lookups: Vec<Lookup> = Vec::new();
        let mut k: usize = 0;
        proof {
            assert(enrichment_keys(cs).take(0) =~= Seq::<Seq<char>>::empty());
        }
        while k < cands.len()
            invariant
                k <= cands.len(),
                cs == derefs(cands@),
                key == api_key@,
                self.config == old(self).config,
                self.blockchain_config == old(self).blockchain_config,
                self.pending == old(self).pending,
                names(self.processed_addresses@) == noted(
                    seen,
                    enrichment_keys(cs).take(k as int),
                ),
                lookups@.len() == k,
                looks_up(requests@, lookups@, key),
                forall|j: int| 0 <= j < cs.len() ==> chain_of((#[trigger] cs[j]).artifact_type) is Some,
                forall|j: int|
                    0 <= j < k ==> (#[trigger] lookups@[j]).address@ == cs[j].value@ && Some(
                        lookups@[j].chain,
                    ) == chain_of(cs[j].artifact_type),
            decreases cands.len() - k,
        {
            let a = cands[k];
            proof {
                assert(cs[k as int] == *a);
                let q = enrichment_keys(cs).take(k + 1);
                assert(q.drop_last() =~= enrichment_keys(cs).take(k as int));
                assert(q.last() == enrichment_key(*a));
            }
            note(&mut self.processed_addresses, EnrichmentAgent::key_of(a).as_str());
            let chain = match a.artifact_type {
                ArtifactType::Bitcoin => Chain::Bitcoin,
                _ => Chain::Ethereum,
            };
            let (first, second) = BlockchainAgent::urls(a.value.as_str(), chain, api_key.as_str());
            let ghost asked = requests@;
            let ghost known = lookups@;
            requests.push(Request::Fetch { url: first, headers: Vec::new(), through_tor: false });
            requests.push(Request::Fetch { url: second, headers: Vec::new(), through_tor: false });
            lookups.push(Lookup { address: a.value.clone(), chain });
            proof {
                assert forall|j: int| 0 <= j < lookups@.len() implies pair_for(
                    requests@,
                    j,
                    #[trigger] lookups@[j],
                    key,
                ) by {
                    if j < k {
                        assert(pair_for(asked, j, known[j], key));
                        assert(requests@[2 * j] == asked[2 * j]);
                        assert(requests@[2 * j + 1] == asked[2 * j + 1]);
                    }
                }
            }
            k += 1;
        }
        proof {
            assert(enrichment_keys(cs).take(cands@.len() as int) =~= enrichment_keys(cs));
        }
        if lookups.len() == 0 {
            self.pending = None;
            return Step::Done(Ok(Vec::new()));
        }
        let asked = requests.len();
        proof {
            assert(key == match self.blockchain_config.etherscan_api_key {
                Some(k) => k@,
                None => Seq::<char>::empty(),
            });
            assert(lookups_of(lookups@, cs));
            assert(cs == addresses_of(all, seen));
        }
        self.pending = Some(lookups);
        Step::Ask(requests)
    }

    /// The addresses of the two requests for an address.
    pub fn urls(address: &str, chain: Chain, key: &str) -> (r: (String, String))
        ensures
            (r.0@, r.1@) == lookup_urls(address@, chain, key@),
    {
        match chain {
            Chain::Bitcoin => {
                let mut a = chars_of("https://blockstream.info/api/address/");
                push_str(&mut a, address);
                let mut b = chars_of("https://blockstream.info/api/address/");
                push_str(&mut b, address);
                push_str(&mut b, "/txs");
                (text_of(&a), text_of(&b))
            },
            Chain::Ethereum => {
                let mut a = chars_of(
                    "https://api.etherscan.io/api?module=account&action=balance&address=",
                );
                push_str(&mut a, address);
                push_str(&mut a, "&tag=latest&apikey=");
                push_str(&mut a, key);
                let mut b = chars_of(
                    "https://api.etherscan.io/api?module=account&action=txlist&address=",
                );
                push_str(&mut b, address);
                push_str(&mut b, "&startblock=0&endblock=99999999&sort=asc&apikey=");
                push_str(&mut b, key);
                (text_of(&a), text_of(&b))
            },
        }
    }

    /// The analyses that the replies hold for the lookups, at the time
    /// `now` in seconds since the epoch.
    pub fn read(lookups: &Vec<Lookup>, replies: &Vec<Reply>, min_tx: u32, now: i64) -> (batch: Vec<
        Outgoing,
    >)
        requires
            2 * lookups@.len() <= usize::MAX,
        ensures
            chain_batch(batch@, lookups@, replies@, min_tx, now),
    {
        let mut batch: Vec<Outgoing> = Vec::new();
        let mut k: usize = 0;
        assert(lookups@.take(0) =~= Seq::<Lookup>::empty());
        while k < lookups.len()
            invariant
                k <= lookups.len(),
                2 * lookups@.len() <= usize::MAX,
                chain_batch(batch@, lookups@.take(k as int), replies@, min_tx, now),
            decreases lookups.len() - k,
        {
            proof {
                assert(lookups@.take(k + 1).drop_last() =~= lookups@.take(k as int));
                assert(lookups@.take(k + 1).last() == lookups@[k as int]);
            }
            let l = &lookups[k];
            let result = match l.chain {
                Chain::Bitcoin => bitcoin_analysis(replies, 2 * k, min_tx, now),
                Chain::Ethereum => ethereum_analysis(l.address.as_str(), replies, 2 * k, min_tx),
            };
            match result {
                Ok(analysis) => {
                    let ghost before = batch@;
                    let chain = match l.chain {
                        Chain::Bitcoin => "bitcoin".to_owned(),
                        Chain::Ethereum => "ethereum".to_owned(),
                    };
                    batch.push(
                        Outgoing {
                            payload: OsintPayload::BlockchainAnalysis {
                                address: l.address.clone(),
                                chain,
                                analysis,
                            },
                            confidence: CHAIN_CONFIDENCE,
                            ttl: CHAIN_TTL,
                        },
                    );
                    assert(batch@.drop_last() =~= before);
                    assert(answers(replies@, k as int, l.chain));
                    assert(is_analysis(batch@.last(), *l, replies@, k as int, min_tx, now));
                },
                Err(_) => {
                    assert(!answers(replies@, k as int, l.chain));
                },
            }
            k += 1;
        }
        assert(lookups@.take(lookups@.len() as int) =~= lookups@);
        batch
    }

    /// What the end of an activation comes to: the analysis of each address
    /// that its explorer answered for is emitted.
    pub open spec fn resumes(
        &self,
        live: Seq<Signal>,
        replies: Seq<Reply>,
        post: Self,
        after: Seq<Signal>,
        step: Step,
    ) -> bool {
        &&& post.wf()
        &&& post.config == self.config
        &&& post.blockchain_config == self.blockchain_config
        &&& post.processed_addresses == self.processed_addresses
        &&& post.pending is None
        &&& match self.pending {
            None => {
                &&& step matches Step::Done(Err(AgentError::NoWork))
                &&& after == live
            },
            Some(lookups) => {
                &&& step matches Step::Done(Ok(hashes))
                &&& exists|batch: Seq<Outgoing>, now: i64|
                    #[trigger] chain_batch(
                        batch,
                        lookups@,
                        replies,
                        self.blockchain_config.min_tx_for_patterns,
                        now,
                    ) && delivered(
                        live,
                        self.config.id@,
                        batch,
                        after,
                        names(hashes@),
                    )
            },
        }
    }

    /// Ends an activation with the replies, two for each address: the
    /// analysis of each address that its explorer answered for is emitted.
    pub fn resume(&mut self, field: &mut Field, replies: Vec<Reply>) -> (step: Step)
        requires
            old(field).wf(),
            old(self).wf(),
        ensures
            final(field).wf(),
            crate::field::grown(old(field).live(), final(field).live()),
            final(field).time() == old(field).time(),
            final(field).past() == old(field).past(),
            old(field).sound() ==> final(field).sound(),
            old(self).resumes(old(field).live(), replies@, *final(self), final(field).live(), step),
    {
        let lookups = match self.pending.take() {
            Some(v) => v,
            None => {
                return Step::Done(Err(AgentError::NoWork));
            },
        };
        let now = now_millis() / 1000;
        let min_tx = self.blockchain_config.min_tx_for_patterns;
        let batch = BlockchainAgent::read(&lookups, &replies, min_tx, now);
        let ghost b = batch@;
        let hashes = emit_all(field, self.config.id.as_str(), batch);
        assert(chain_batch(b, lookups@, replies@, min_tx, now));
        Step::Done(Ok(hashes))
    }

    /// Emits the worker's heartbeat: it is free.
    pub fn heartbeat(&self, field: &mut Field)
        requires
            old(field).wf(),
        ensures
            final(field).wf(),
            pulsed(
                old(field).live(),
                final(field).live(),
                self.config.id@,
                AgentType::BlockchainAnalyst,
                UNIT,
                HEARTBEAT_TTL,
            ),
            final(field).time() == old(field).time(),
            final(field).past() == old(field).past(),
            old(field).sound() ==> final(field).sound(),
    {
        pulse(field, self.config.id.as_str(), AgentType::BlockchainAnalyst, UNIT, HEARTBEAT_TTL);
    }
}


impl crate::agents::traits::OsintAgent for BlockchainAgent {
    open spec fn ready(&self) -> bool {
        BlockchainAgent::wf(self)
    }

    open spec fn spec_id(&self) -> Seq<char> {
        self.config.id@
    }

    open spec fn spec_agent_type(&self) -> Seq<char> {
        "blockchain_analyst"@
    }

    open spec fn sensed(&self, live: Seq<Signal>, time: i64) -> Seq<Signal> {
        of_kind(
            live,
            time,
            self.config.sensing_threshold,
            PayloadKind::ExtractedArtifacts,
        )
    }

    open spec fn began(
        &self,
        live: Seq<Signal>,
        time: i64,
        post: Self,
        after: Seq<Signal>,
        step: Step,
    ) -> bool {
        &&& self.starts(live, time, post, step)
        &&& after == live
    }

    open spec fn proceeded(
        &self,
        live: Seq<Signal>,
        time: i64,
        replies: Seq<Reply>,
        post: Self,
        after: Seq<Signal>,
        step: Step,
    ) -> bool {
        self.resumes(live, replies, post, after, step)
    }

    open spec fn beat(&self, live: Seq<Signal>, after: Seq<Signal>) -> bool {
    pulsed(
            live,
            after,
            self.config.id@,
            AgentType::BlockchainAnalyst,
            UNIT,
            HEARTBEAT_TTL,
        )
    }

    fn id(&self) -> (r: &str) {
        BlockchainAgent::id(self)
    }

    fn agent_type(&self) -> (r: &str) {
        BlockchainAgent::agent_type(self)
    }

    fn sense<'a>(&self, field: &'a Field) -> (out: Vec<&'a Signal>) {
        let out = BlockchainAgent::sense(self, field);
        proof {
            crate::agents::traits::lemma_observed(
                out@,
                field.live(),
                |s: Signal|
                    crate::field::wanted(
                        s,
                        field.time(),
                        self.config.sensing_threshold,
                        Some(PayloadKind::ExtractedArtifacts),
                    ),
            );
        }
        out
    }

    fn begin(&mut self, field: &mut Field) -> (step: Step) {
        BlockchainAgent::start(self, field)
    }

    fn proceed(&mut self, field: &mut Field, replies: Vec<Reply>) -> (step: Step) {
        BlockchainAgent::resume(self, field, replies)
    }

    fn heartbeat(&self, field: &mut Field) {
        BlockchainAgent::heartbeat(self, field)
    }
}

} // verus!
