//! Patterns in the times of a wallet's transactions.
//!
//! Times are seconds since the epoch. Only times from the epoch up to
//! [`MAX_TIME`] are looked at, and of those the first
//! [`MAX_TRANSACTIONS`]; with that every sum below fits its type.

use vstd::prelude::*;
use crate::signals::TemporalPattern;
use crate::text::{chars_of, decimal, names, push_decimal, push_str, text_of};
use crate::units::UNIT;

verus! {

/// Times from here on are not looked at (about the year 36800).
pub const MAX_TIME: i64 = 1_099_511_627_776;

/// Most times that are looked at.
pub const MAX_TRANSACTIONS: usize = 1_048_576;

/// Seconds of an hour.
pub const HOUR: i64 = 3600;

/// Seconds of a day.
pub const DAY: i64 = 86_400;

/// A time that is looked at.
pub open spec fn usable(t: Option<i64>) -> bool {
    t matches Some(x) && 0 <= x < MAX_TIME
}

/// The times that are looked at: the usable ones in their order, the first
/// 1,048,576 of them.
pub open spec fn times_of(raw: Seq<Option<i64>>) -> Seq<int>
    decreases raw.len(),
{
    if raw.len() == 0 {
        Seq::empty()
    } else {
        let before = times_of(raw.drop_last());
        if usable(raw.last()) && before.len() < MAX_TRANSACTIONS {
            before.push(raw.last()->0 as int)
        } else {
            before
        }
    }
}

/// The steps from each time to the next.
pub open spec fn gaps(ts: Seq<int>) -> Seq<int> {
    Seq::new(
        if ts.len() > 0 {
            (ts.len() - 1) as nat
        } else {
            0
        },
        |i: int| ts[i + 1] - ts[i],
    )
}

/// The sum of the numbers.
pub open spec fn total(s: Seq<int>) -> int
    decreases s.len(),
{
    if s.len() == 0 {
        0
    } else {
        total(s.drop_last()) + s.last()
    }
}

/// `a / b` rounded towards zero, for a positive `b`.
pub open spec fn quotient(a: int, b: int) -> int {
    if a >= 0 {
        a / b
    } else {
        -((-a) / b)
    }
}

/// The mean of the numbers, rounded towards zero.
pub open spec fn mean(s: Seq<int>) -> int {
    quotient(total(s), s.len() as int)
}

/// The sum of the squares of the distances of the numbers from `m`.
pub open spec fn spread(s: Seq<int>, m: int) -> int
    decreases s.len(),
{
    if s.len() == 0 {
        0
    } else {
        spread(s.drop_last(), m) + (s.last() - m) * (s.last() - m)
    }
}

/// The least of the numbers; that of none is `MAX_TIME`.
pub open spec fn least_of(s: Seq<int>) -> int
    decreases s.len(),
{
    if s.len() == 0 {
        MAX_TIME as int
    } else if s.last() < least_of(s.drop_last()) {
        s.last()
    } else {
        least_of(s.drop_last())
    }
}

/// The greatest of the numbers, but at least `floor`.
pub open spec fn greatest_of(s: Seq<int>, floor: int) -> int
    decreases s.len(),
{
    if s.len() == 0 {
        floor
    } else if s.last() > greatest_of(s.drop_last(), floor) {
        s.last()
    } else {
        greatest_of(s.drop_last(), floor)
    }
}

/// How many of the numbers are below `limit`.
pub open spec fn count_below(s: Seq<int>, limit: int) -> nat
    decreases s.len(),
{
    if s.len() == 0 {
        0
    } else {
        count_below(s.drop_last(), limit) + if s.last() < limit {
            1nat
        } else {
            0nat
        }
    }
}

/// The greatest number whose square is at most `x`.
pub open spec fn is_root(r: nat, x: nat) -> bool {
    r * r <= x < (r + 1) * (r + 1)
}

/// The root whose square is at most `x`, rounded down.
pub open spec fn root(x: nat) -> nat {
    choose|r: nat| is_root(r, x)
}

/// A root is the only one.
pub proof fn lemma_root_unique(a: nat, b: nat, x: nat)
    requires
        is_root(a, x),
        is_root(b, x),
    ensures
        a == b,
{
    if a < b {
        assert((a + 1) * (a + 1) <= b * b) by (nonlinear_arith)
            requires
                a + 1 <= b,
        ;
    }
    if b < a {
        assert((b + 1) * (b + 1) <= a * a) by (nonlinear_arith)
            requires
                b + 1 <= a,
        ;
    }
}

/// The root of `x`, rounded down.
pub fn isqrt(x: u128) -> (r: u64)
    requires
        x < 0x4000_0000_0000_0000_0000_0000_0000_0000,
    ensures
        is_root(r as nat, x as nat),
        r as nat == root(x as nat),
{
    let mut lo: u128 = 0;
    let mut hi: u128 = 0x8000_0000_0000_0000;
    assert(hi * hi == 0x4000_0000_0000_0000_0000_0000_0000_0000) by (nonlinear_arith)
        requires
            hi == 0x8000_0000_0000_0000,
    ;
    while hi - lo > 1
        invariant
            lo < hi <= 0x8000_0000_0000_0000,
            lo * lo <= x,
            x < hi * hi,
        decreases hi - lo,
    {
        let mid = lo + (hi - lo) / 2;
        assert(mid * mid < 0x4000_0000_0000_0000_0000_0000_0000_0000) by (nonlinear_arith)
            requires
                mid < 0x8000_0000_0000_0000,
        ;
        if mid * mid <= x {
            lo = mid;
        } else {
            hi = mid;
        }
    }
    proof {
        assert(hi == lo + 1);
        assert(is_root(lo as nat, x as nat));
        lemma_root_unique(lo as nat, root(x as nat), x as nat);
    }
    lo as u64
}

/// The usable times.
pub fn usable_times(raw: &Vec<Option<i64>>) -> (ts: Vec<i64>)
    ensures
        ts@.map_values(|t: i64| t as int) == times_of(raw@),
        ts@.len() <= MAX_TRANSACTIONS,
        forall|i: int| 0 <= i < ts@.len() ==> 0 <= #[trigger] ts@[i] < MAX_TIME,
{
    let ghost view = |t: i64| t as int;
    let mut ts: Vec<i64> = Vec::new();
    let mut i: usize = 0;
    proof {
        assert(raw@.take(0) =~= Seq::<Option<i64>>::empty());
        assert(ts@.map_values(view) =~= times_of(raw@.take(0)));
    }
    while i < raw.len()
        invariant
            i <= raw.len(),
            view == |t: i64| t as int,
            ts@.map_values(view) == times_of(raw@.take(i as int)),
            ts@.len() <= MAX_TRANSACTIONS,
            forall|k: int| 0 <= k < ts@.len() ==> 0 <= #[trigger] ts@[k] < MAX_TIME,
        decreases raw.len() - i,
    {
        proof {
            assert(raw@.take(i + 1).drop_last() =~= raw@.take(i as int));
            assert(raw@.take(i + 1).last() == raw@[i as int]);
            assert(ts@.map_values(view).len() == ts@.len());
        }
        match raw[i] {
            Some(t) => {
                if 0 <= t && t < MAX_TIME && ts.len() < MAX_TRANSACTIONS {
                    let ghost before = ts@.map_values(view);
                    ts.push(t);
                    assert(ts@.map_values(view) =~= before.push(t as int));
                }
            },
            None => {},
        }
        i += 1;
    }
    assert(raw@.take(raw@.len() as int) =~= raw@);
    ts
}

/// What a list of times comes to: its ends, the steps between neighbours
/// and what is summed over them.
pub struct Timing {
    /// Number of times
    pub count: usize,
    /// The earliest time
    pub first: i64,
    /// The latest time
    pub last: i64,
    /// Number of steps
    pub steps: usize,
    /// Sum of the steps
    pub sum: i64,
    /// Number of steps below an hour
    pub short: usize,
    /// The longest step, at least zero
    pub widest: i64,
    /// Sum of the squares of the distances of the steps from their mean
    pub spread: u128,
    /// Mean of the steps, rounded towards zero
    pub mean: i64,
}

impl Timing {
    /// The numbers are in the range that measured times leave them.
    pub open spec fn wf(&self) -> bool {
        &&& self.count <= MAX_TRANSACTIONS
        &&& self.steps == if self.count > 0 {
            (self.count - 1) as usize
        } else {
            0
        }
        &&& 0 <= self.first <= MAX_TIME
        &&& 0 <= self.last < MAX_TIME
        &&& 0 <= self.widest < MAX_TIME
        &&& self.short <= self.steps
        &&& -MAX_TIME < self.mean < MAX_TIME
        &&& self.spread < 0x40_0000_0000_0000_0000_0000_0000
    }
}

/// The numbers of `t` are those of the times `ts`.
pub open spec fn measures(t: Timing, ts: Seq<int>) -> bool {
    let g = gaps(ts);
    &&& t.count == ts.len()
    &&& t.first == least_of(ts)
    &&& t.last == greatest_of(ts, 0)
    &&& t.steps == g.len()
    &&& t.sum == total(g)
    &&& t.short == count_below(g, HOUR as int)
    &&& t.widest == greatest_of(g, 0)
    &&& g.len() > 0 ==> t.mean == mean(g) && t.spread == spread(g, mean(g))
}

/// The view of the times as numbers.
pub open spec fn as_ints(v: Seq<i64>) -> Seq<int> {
    v.map_values(|t: i64| t as int)
}

/// Measures a list of times.
pub fn measure(ts: &Vec<i64>) -> (t: Timing)
    requires
        ts@.len() <= MAX_TRANSACTIONS,
        forall|i: int| 0 <= i < ts@.len() ==> 0 <= #[trigger] ts@[i] < MAX_TIME,
    ensures
        measures(t, as_ints(ts@)),
        t.wf(),
{
    let ghost s = as_ints(ts@);
    let ghost g = gaps(s);
    let n = ts.len();
    let mut first: i64 = MAX_TIME;
    let mut last: i64 = 0;
    let mut sum: i64 = 0;
    let mut short: usize = 0;
    let mut widest: i64 = 0;
    let mut i: usize = 0;
    proof {
        assert(s.take(0) =~= Seq::<int>::empty());
        assert(g.take(0) =~= Seq::<int>::empty());
    }
    while i < n
        invariant
            i <= n,
            n == ts@.len(),
            n <= MAX_TRANSACTIONS,
            s == as_ints(ts@),
            g == gaps(s),
            forall|k: int| 0 <= k < ts@.len() ==> 0 <= #[trigger] ts@[k] < MAX_TIME,
            first == least_of(s.take(i as int)),
            last == greatest_of(s.take(i as int), 0),
            0 <= first <= MAX_TIME,
            0 <= last < MAX_TIME,
            i > 0 ==> sum == total(g.take(i - 1)),
            i > 0 ==> short == count_below(g.take(i - 1), HOUR as int),
            i > 0 ==> widest == greatest_of(g.take(i - 1), 0),
            i == 0 ==> sum == 0 && short == 0 && widest == 0,
            i > 0 ==> sum == ts@[i - 1] - ts@[0],
            i > 0 ==> short <= i - 1,
            0 <= widest < MAX_TIME,
        decreases n - i,
    {
        let t = ts[i];
        proof {
            assert(s[i as int] == t as int);
            assert(s.take(i + 1).drop_last() =~= s.take(i as int));
            assert(s.take(i + 1).last() == t as int);
        }
        if t < first {
            first = t;
        }
        if t > last {
            last = t;
        }
        if i > 0 {
            let step = t - ts[i - 1];
            proof {
                assert(s[i - 1] == ts@[i - 1] as int);
                assert(g[i - 1] == step as int);
                assert(g.take(i as int).drop_last() =~= g.take(i - 1));
                assert(g.take(i as int).last() == step as int);
            }
            sum = sum + step;
            if step < HOUR {
                short = short + 1;
            }
            if step > widest {
                widest = step;
            }
        }
        i += 1;
    }
    proof {
        assert(s.take(n as int) =~= s);
        if n > 0 {
            assert(g.take(n - 1) =~= g);
        } else {
            assert(g =~= Seq::<int>::empty());
        }
    }
    let steps: usize = if n > 0 { n - 1 } else { 0 };
    let mut mean: i64 = 0;
    let mut sq: u128 = 0;
    if steps > 0 {
        mean = if sum >= 0 { sum / (steps as i64) } else { -((-sum) / (steps as i64)) };
        assert(mean == quotient(sum as int, steps as int));
        proof {
            let a: int = if sum >= 0 { sum as int } else { -(sum as int) };
            let b: int = steps as int;
            assert(0 <= a / b <= a) by (nonlinear_arith)
                requires
                    a >= 0,
                    b >= 1,
            ;
        }
        let mut j: usize = 1;
        assert(g.take(0) =~= Seq::<int>::empty());
        while j < n
            invariant
                1 <= j <= n,
                n == ts@.len(),
                n <= MAX_TRANSACTIONS,
                s == as_ints(ts@),
                g == gaps(s),
                forall|k: int| 0 <= k < ts@.len() ==> 0 <= #[trigger] ts@[k] < MAX_TIME,
                -MAX_TIME < mean < MAX_TIME,
                sq == spread(g.take(j - 1), mean as int),
                sq <= 0x4_0000_0000_0000_0000_0000 * (j - 1),
            decreases n - j,
        {
            let step = ts[j] - ts[j - 1];
            let d: i128 = step as i128 - mean as i128;
            proof {
                assert(s[j as int] == ts@[j as int] as int);
                assert(s[j - 1] == ts@[j - 1] as int);
                assert(g[j - 1] == step as int);
                assert(g.take(j as int).drop_last() =~= g.take(j - 1));
                assert(g.take(j as int).last() == step as int);
                assert(0 <= d * d <= 0x4_0000_0000_0000_0000_0000) by (nonlinear_arith)
                    requires
                        -0x200_0000_0000 < d < 0x200_0000_0000,
                ;
            }
            sq = sq + (d * d) as u128;
            j += 1;
        }
        assert(g.take(n - 1) =~= g);
    }
    Timing { count: n, first, last, steps, sum, short, widest, spread: sq, mean }
}

/// What a pattern says.
pub struct PatternModel {
    pub pattern_type: Seq<char>,
    pub description: Seq<char>,
    pub confidence: nat,
    pub evidence: Seq<Seq<char>>,
}

/// The model of each pattern.
pub open spec fn pattern_models(v: Seq<TemporalPattern>) -> Seq<PatternModel> {
    v.map_values(
        |p: TemporalPattern|
            PatternModel {
                pattern_type: p.pattern_type@,
                description: p.description@,
                confidence: p.confidence as nat,
                evidence: names(p.evidence@),
            },
    )
}

/// The steps are regular: their mean is positive and their standard
/// deviation is below three tenths of it.
pub open spec fn regular(t: Timing) -> bool {
    t.steps > 0 && t.mean > 0 && 100 * t.spread < 9 * t.mean * t.mean * t.steps
}

/// A span of seconds in minutes, hours or days.
pub open spec fn span_text(seconds: nat) -> Seq<char> {
    if seconds < 3600 {
        "~"@ + decimal(seconds / 60) + " minutes"@
    } else if seconds < 86_400 {
        "~"@ + decimal(seconds / 3600) + " hours"@
    } else {
        "~"@ + decimal(seconds / 86_400) + " days"@
    }
}

/// The standard deviation of the steps in thousandths of a second.
pub open spec fn deviation_milli(t: Timing) -> nat {
    root((t.spread * 1_000_000 / (t.steps as int)) as nat)
}

/// The standard deviation of the steps in seconds, rounded.
pub open spec fn deviation_rounded(t: Timing) -> nat {
    (root((4 * t.spread / (t.steps as int)) as nat) + 1) / 2
}

/// One less the ratio of standard deviation and mean, at least zero.
pub open spec fn regular_confidence(t: Timing) -> nat {
    let ratio = deviation_milli(t) * 1000 / (t.mean as nat);
    if ratio >= UNIT {
        0
    } else {
        (UNIT - ratio) as nat
    }
}

/// The pattern of regular steps.
pub open spec fn regular_pattern(t: Timing) -> PatternModel {
    PatternModel {
        pattern_type: "regular_interval"@,
        description: "Transactions occur at regular intervals of "@ + span_text(t.mean as nat),
        confidence: regular_confidence(t),
        evidence: seq![
            "Average interval: "@ + decimal(t.mean as nat) + " seconds"@,
            "Standard deviation: "@ + decimal(deviation_rounded(t)) + " seconds"@,
        ],
    }
}

/// More than half of the steps are shorter than an hour.
pub open spec fn bursty(t: Timing) -> bool {
    t.steps > 0 && t.short > t.steps / 2
}

/// The pattern of bursts.
pub open spec fn burst_pattern(t: Timing) -> PatternModel {
    PatternModel {
        pattern_type: "burst_activity"@,
        description: "Multiple transactions within short time periods"@,
        confidence: (t.short * UNIT / (t.steps as int)) as nat,
        evidence: seq![
            decimal(t.short as nat) + " of "@ + decimal(t.steps as nat)
                + " transactions within 1 hour of each other"@,
        ],
    }
}

/// The wallet has lived for more than thirty days and was silent for more
/// than half of them at a stretch.
pub open spec fn dormant(t: Timing) -> bool {
    t.count >= 2 && t.last - t.first > 30 * DAY && t.widest > (t.last - t.first) / 2int
}

/// The pattern of dormancy.
pub open spec fn dormant_pattern(t: Timing) -> PatternModel {
    PatternModel {
        pattern_type: "dormant_then_active"@,
        description: "Long dormancy period of "@ + decimal((t.widest / DAY) as nat)
            + " days followed by resumed activity"@,
        confidence: (t.widest * UNIT / (t.last - t.first)) as nat,
        evidence: seq![
            "Maximum gap: "@ + decimal((t.widest / DAY) as nat) + " days"@,
            "Total wallet age: "@ + decimal(((t.last - t.first) / (DAY as int)) as nat) + " days"@,
        ],
    }
}

/// The patterns of measured times: regular steps and bursts where there
/// are at least `min_tx` times, and dormancy.
pub open spec fn patterns_of(t: Timing, min_tx: u32) -> Seq<PatternModel> {
    (if t.count >= min_tx && regular(t) {
        seq![regular_pattern(t)]
    } else {
        Seq::empty()
    }) + (if t.count >= min_tx && bursty(t) {
        seq![burst_pattern(t)]
    } else {
        Seq::empty()
    }) + (if dormant(t) {
        seq![dormant_pattern(t)]
    } else {
        Seq::empty()
    })
}

fn pattern(kind: &str, description: String, confidence: u64, evidence: Vec<String>) -> (p:
    TemporalPattern)
    ensures
        p.pattern_type@ == kind@,
        p.description@ == description@,
        p.confidence == confidence,
        p.evidence@ == evidence@,
{
    TemporalPattern { pattern_type: kind.to_owned(), description, confidence, evidence }
}

/// The patterns of measured times.
pub fn patterns(t: &Timing, min_tx: u32) -> (out: Vec<TemporalPattern>)
    requires
        t.wf(),
    ensures
        pattern_models(out@) == patterns_of(*t, min_tx),
{
    let mut out: Vec<TemporalPattern> = Vec::new();
    assert(pattern_models(out@) =~= Seq::<PatternModel>::empty());
    let enough = t.count >= min_tx as usize;
    let steps = t.steps as u128;
    let mean = t.mean;
    let regular_here = if enough && t.steps > 0 && mean > 0 {
        let m = mean as u128;
        assert(m * m < 0x1_0000_0000_0000_0000_0000) by (nonlinear_arith)
            requires
                m < 0x100_0000_0000,
        ;
        assert(9 * (m * m) * steps < 0x1_0000_0000_0000_0000_0000_0000_0000) by (nonlinear_arith)
            requires
                m * m < 0x1_0000_0000_0000_0000_0000,
                steps < 0x10_0000,
        ;
        assert(9 * t.mean * t.mean * t.steps == 9 * (m * m) * steps) by (nonlinear_arith)
            requires
                m == t.mean,
                steps == t.steps,
        ;
        100 * t.spread < 9 * (m * m) * steps
    } else {
        false
    };
    assert(regular_here == (enough && regular(*t)));
    if regular_here {
        let m = mean as u64;
        let mut description = chars_of("Transactions occur at regular intervals of ");
        push_str(&mut description, "~");
        if m < 3600 {
            push_decimal(&mut description, m / 60);
            push_str(&mut description, " minutes");
        } else if m < 86_400 {
            push_decimal(&mut description, m / 3600);
            push_str(&mut description, " hours");
        } else {
            push_decimal(&mut description, m / 86_400);
            push_str(&mut description, " days");
        }
        assert(description@ =~= "Transactions occur at regular intervals of "@ + span_text(
            t.mean as nat,
        ));
        let milli = isqrt(t.spread * 1_000_000 / steps);
        let ratio: u128 = milli as u128 * 1000 / (m as u128);
        let confidence: u64 = if ratio >= UNIT as u128 { 0 } else { UNIT - ratio as u64 };
        let rounded: u64 = ((isqrt(4 * t.spread / steps) as u128 + 1) / 2) as u64;
        let mut average = chars_of("Average interval: ");
        push_decimal(&mut average, m);
        push_str(&mut average, " seconds");
        let mut deviation = chars_of("Standard deviation: ");
        push_decimal(&mut deviation, rounded);
        push_str(&mut deviation, " seconds");
        let mut evidence: Vec<String> = Vec::new();
        evidence.push(text_of(&average));
        evidence.push(text_of(&deviation));
        assert(names(evidence@) =~= regular_pattern(*t).evidence);
        let ghost before = pattern_models(out@);
        out.push(pattern("regular_interval", text_of(&description), confidence, evidence));
        assert(pattern_models(out@) =~= before.push(regular_pattern(*t)));
    }
    if enough && t.steps > 0 && t.short > t.steps / 2 {
        let scaled: u128 = (t.short as u128) * (UNIT as u128);
        assert(scaled / steps <= scaled) by (nonlinear_arith)
            requires
                steps >= 1,
                scaled >= 0,
        ;
        let confidence: u64 = (scaled / steps) as u64;
        let mut line: Vec<char> = Vec::new();
        push_decimal(&mut line, t.short as u64);
        push_str(&mut line, " of ");
        push_decimal(&mut line, t.steps as u64);
        push_str(&mut line, " transactions within 1 hour of each other");
        let mut evidence: Vec<String> = Vec::new();
        evidence.push(text_of(&line));
        assert(names(evidence@) =~= burst_pattern(*t).evidence);
        let ghost before = pattern_models(out@);
        out.push(
            pattern(
                "burst_activity",
                "Multiple transactions within short time periods".to_owned(),
                confidence,
                evidence,
            ),
        );
        assert(pattern_models(out@) =~= before.push(burst_pattern(*t)));
    }
    let life = t.last - t.first;
    if t.count >= 2 && life > 30 * DAY && t.widest > life / 2 {
        let scaled: u128 = (t.widest as u128) * (UNIT as u128);
        assert(scaled / (life as u128) <= scaled) by (nonlinear_arith)
            requires
                life >= 1,
                scaled >= 0,
        ;
        let confidence: u64 = (scaled / (life as u128)) as u64;
        let days = (t.widest / DAY) as u64;
        let mut description = chars_of("Long dormancy period of ");
        push_decimal(&mut description, days);
        push_str(&mut description, " days followed by resumed activity");
        let mut gap = chars_of("Maximum gap: ");
        push_decimal(&mut gap, days);
        push_str(&mut gap, " days");
        let mut age = chars_of("Total wallet age: ");
        push_decimal(&mut age, (life / DAY) as u64);
        push_str(&mut age, " days");
        let mut evidence: Vec<String> = Vec::new();
        evidence.push(text_of(&gap));
        evidence.push(text_of(&age));
        assert(names(evidence@) =~= dormant_pattern(*t).evidence);
        let ghost before = pattern_models(out@);
        out.push(pattern("dormant_then_active", text_of(&description), confidence, evidence));
        assert(pattern_models(out@) =~= before.push(dormant_pattern(*t)));
    }
    assert(pattern_models(out@) =~= patterns_of(*t, min_tx));
    out
}

/// The hour of the day of a time, in UTC.
pub open spec fn hour_of(t: int) -> int {
    (t % 86_400) / 3600
}

/// How many of the times fall into the hour `h`.
pub open spec fn at_hour(ts: Seq<int>, h: int) -> nat
    decreases ts.len(),
{
    if ts.len() == 0 {
        0
    } else {
        at_hour(ts.drop_last(), h) + if hour_of(ts.last()) == h {
            1nat
        } else {
            0nat
        }
    }
}

/// `h` is the peak hour: no hour has more times, and no later hour as
/// many.
pub open spec fn is_peak(ts: Seq<int>, h: int) -> bool {
    &&& 0 <= h < 24
    &&& forall|k: int| 0 <= k < 24 ==> #[trigger] at_hour(ts, k) <= at_hour(ts, h)
    &&& forall|k: int| h < k < 24 ==> #[trigger] at_hour(ts, k) < at_hour(ts, h)
}

/// The peak hour.
pub open spec fn peak_of(ts: Seq<int>) -> int {
    choose|h: int| is_peak(ts, h)
}

/// There is one peak hour.
pub proof fn lemma_peak_unique(ts: Seq<int>, a: int, b: int)
    requires
        is_peak(ts, a),
        is_peak(ts, b),
    ensures
        a == b,
{
    if a < b {
        assert(at_hour(ts, b) < at_hour(ts, a));
        assert(at_hour(ts, a) <= at_hour(ts, b));
    }
    if b < a {
        assert(at_hour(ts, a) < at_hour(ts, b));
        assert(at_hour(ts, b) <= at_hour(ts, a));
    }
}

/// The hour `h` is within four hours of `peak` on the clock's face: four
/// hours before or after it, midnight not being in the way.
pub open spec fn near(h: int, peak: int) -> bool {
    -4 <= h - peak <= 4 || -4 <= h - peak + 24 <= 4 || -4 <= h - peak - 24 <= 4
}

/// How many of the times fall near the hour `peak`.
pub open spec fn around(ts: Seq<int>, peak: int) -> nat
    decreases ts.len(),
{
    if ts.len() == 0 {
        0
    } else {
        around(ts.drop_last(), peak) + if near(hour_of(ts.last()), peak) {
            1nat
        } else {
            0nat
        }
    }
}

/// The pattern of a time zone: activity gathers around the hour `peak`.
pub open spec fn timezone_pattern(ts: Seq<int>, peak: int) -> PatternModel {
    PatternModel {
        pattern_type: "timezone_indicator"@,
        description: "Activity concentrated around "@ + decimal(peak as nat)
            + ":00 UTC (possible operator timezone)"@,
        confidence: around(ts, peak) * (UNIT as nat) / ts.len(),
        evidence: seq![
            "Peak activity hour: "@ + decimal(peak as nat) + ":00 UTC"@,
            decimal(around(ts, peak) * 100 / ts.len())
                + "% of transactions within \u{b1}4 hours of peak"@,
        ],
    }
}

/// The patterns in the hours of the times: with at least `min_tx` times,
/// of which more than two thirds fall near the peak hour, a time zone.
pub open spec fn hourly_patterns(ts: Seq<int>, min_tx: u32) -> Seq<PatternModel> {
    if ts.len() >= min_tx && around(ts, peak_of(ts)) > ts.len() * 2 / 3 {
        seq![timezone_pattern(ts, peak_of(ts))]
    } else {
        Seq::empty()
    }
}

/// The patterns in the hours of the times.
pub fn hour_patterns(ts: &Vec<i64>, min_tx: u32) -> (out: Vec<TemporalPattern>)
    requires
        ts@.len() <= MAX_TRANSACTIONS,
        forall|i: int| 0 <= i < ts@.len() ==> 0 <= #[trigger] ts@[i] < MAX_TIME,
    ensures
        pattern_models(out@) == hourly_patterns(as_ints(ts@), min_tx),
{
    let ghost s = as_ints(ts@);
    let mut out: Vec<TemporalPattern> = Vec::new();
    assert(pattern_models(out@) =~= Seq::<PatternModel>::empty());
    let n = ts.len();
    if n < min_tx as usize {
        return out;
    }
    let mut counts: Vec<usize> = Vec::new();
    let mut h: usize = 0;
    while h < 24
        invariant
            h <= 24,
            counts@.len() == h,
            forall|k: int| 0 <= k < h ==> #[trigger] counts@[k] == 0,
        decreases 24 - h,
    {
        counts.push(0);
        h += 1;
    }
    let mut i: usize = 0;
    assert(s.take(0) =~= Seq::<int>::empty());
    while i < n
        invariant
            i <= n,
            n == ts@.len(),
            n <= MAX_TRANSACTIONS,
            s == as_ints(ts@),
            forall|k: int| 0 <= k < ts@.len() ==> 0 <= #[trigger] ts@[k] < MAX_TIME,
            counts@.len() == 24,
            forall|k: int| 0 <= k < 24 ==> #[trigger] counts@[k] == at_hour(s.take(i as int), k),
            forall|k: int| 0 <= k < 24 ==> #[trigger] counts@[k] <= i,
        decreases n - i,
    {
        let t = ts[i];
        let hour = ((t % 86_400) / 3600) as usize;
        proof {
            assert(s[i as int] == t as int);
            assert(s.take(i + 1).drop_last() =~= s.take(i as int));
            assert(s.take(i + 1).last() == t as int);
            assert(hour == hour_of(t as int));
        }
        let c = counts[hour];
        counts.set(hour, c + 1);
        i += 1;
    }
    assert(s.take(n as int) =~= s);
    let mut peak: usize = 0;
    let mut k: usize = 1;
    while k < 24
        invariant
            1 <= k <= 24,
            peak < k,
            counts@.len() == 24,
            forall|j: int| 0 <= j < k ==> #[trigger] counts@[j] <= counts@[peak as int],
            forall|j: int| peak < j < k ==> #[trigger] counts@[j] < counts@[peak as int],
        decreases 24 - k,
    {
        if counts[k] >= counts[peak] {
            peak = k;
        }
        k += 1;
    }
    proof {
        assert(is_peak(s, peak as int)) by {
            assert forall|j: int| 0 <= j < 24 implies #[trigger] at_hour(s, j) <= at_hour(
                s,
                peak as int,
            ) by {
                assert(counts@[j] <= counts@[peak as int]);
            }
            assert forall|j: int| peak < j < 24 implies #[trigger] at_hour(s, j) < at_hour(
                s,
                peak as int,
            ) by {
                assert(counts@[j] < counts@[peak as int]);
            }
        }
        lemma_peak_unique(s, peak as int, peak_of(s));
    }
    let mut close: usize = 0;
    let mut j: usize = 0;
    while j < n
        invariant
            j <= n,
            n == ts@.len(),
            s == as_ints(ts@),
            peak < 24,
            forall|k: int| 0 <= k < ts@.len() ==> 0 <= #[trigger] ts@[k] < MAX_TIME,
            close == around(s.take(j as int), peak as int),
            close <= j,
        decreases n - j,
    {
        let t = ts[j];
        let hour: i64 = (t % 86_400) / 3600;
        proof {
            assert(s[j as int] == t as int);
            assert(s.take(j + 1).drop_last() =~= s.take(j as int));
            assert(s.take(j + 1).last() == t as int);
        }
        let d = hour - peak as i64;
        if (-4 <= d && d <= 4) || (-4 <= d + 24 && d + 24 <= 4) || (-4 <= d - 24 && d - 24
            <= 4) {
            close = close + 1;
        }
        j += 1;
    }
    assert(s.take(n as int) =~= s);
    if close > n * 2 / 3 {
        let scaled: u128 = (close as u128) * (UNIT as u128);
        assert(scaled / (n as u128) <= scaled) by (nonlinear_arith)
            requires
                n >= 1,
                scaled >= 0,
        ;
        let confidence: u64 = (scaled / (n as u128)) as u64;
        let mut description = chars_of("Activity concentrated around ");
        push_decimal(&mut description, peak as u64);
        push_str(&mut description, ":00 UTC (possible operator timezone)");
        let mut first = chars_of("Peak activity hour: ");
        push_decimal(&mut first, peak as u64);
        push_str(&mut first, ":00 UTC");
        let mut second: Vec<char> = Vec::new();
        push_decimal(&mut second, (close * 100 / n) as u64);
        push_str(&mut second, "% of transactions within \u{b1}4 hours of peak");
        let mut evidence: Vec<String> = Vec::new();
        evidence.push(text_of(&first));
        evidence.push(text_of(&second));
        assert(names(evidence@) =~= timezone_pattern(s, peak as int).evidence);
        let ghost before = pattern_models(out@);
        out.push(pattern("timezone_indicator", text_of(&description), confidence, evidence));
        assert(pattern_models(out@) =~= before.push(timezone_pattern(s, peak as int)));
    }
    out
}

/// The number that the decimal digits `s` spell; `None` where `s` is empty
/// or holds another character.
pub open spec fn digits_value(s: Seq<char>) -> Option<nat>
    decreases s.len(),
{
    if s.len() == 0 {
        None
    } else if !('0' <= s.last() <= '9') {
        None
    } else if s.len() == 1 {
        Some((s.last() as u32 - '0' as u32) as nat)
    } else {
        match digits_value(s.drop_last()) {
            Some(v) => Some(v * 10 + (s.last() as u32 - '0' as u32) as nat),
            None => None,
        }
    }
}

/// The number that `s` spells, with or without a `+` before its digits, as
/// far as it fits in a `u64`.
pub open spec fn unsigned_of(s: Seq<char>) -> Option<u64> {
    let digits = if s.len() > 0 && s[0] == '+' {
        s.drop_first()
    } else {
        s
    };
    match digits_value(digits) {
        Some(v) => if v <= u64::MAX {
            Some(v as u64)
        } else {
            None
        },
        None => None,
    }
}

/// The number that `s` spells, with or without a sign before its digits,
/// as far as it fits in an `i64`.
pub open spec fn signed_of(s: Seq<char>) -> Option<i64> {
    if s.len() > 0 && s[0] == '-' {
        match digits_value(s.drop_first()) {
            Some(v) => if v <= 0x8000_0000_0000_0000 {
                Some((-(v as int)) as i64)
            } else {
                None
            },
            None => None,
        }
    } else {
        match unsigned_of(s) {
            Some(v) => if v <= i64::MAX {
                Some(v as i64)
            } else {
                None
            },
            None => None,
        }
    }
}

/// The number that the digits `v[from..]` spell, as far as it is at most
/// `u64::MAX`.
fn read_digits(v: &Vec<char>, from: usize) -> (r: Option<u64>)
    requires
        from <= v@.len(),
    ensures
        match digits_value(v@.skip(from as int)) {
            Some(x) => if x <= u64::MAX {
                r == Some(x as u64)
            } else {
                r is None
            },
            None => r is None,
        },
{
    let ghost d = v@.skip(from as int);
    if from == v.len() {
        return None;
    }
    let mut acc: u64 = 0;
    let mut i: usize = from;
    assert(d.take(0) =~= Seq::<char>::empty());
    while i < v.len()
        invariant
            from <= i <= v@.len(),
            from < v@.len(),
            d == v@.skip(from as int),
            i > from ==> digits_value(d.take(i - from)) == Some(acc as nat),
            i == from ==> acc == 0,
        decreases v.len() - i,
    {
        let c = v[i];
        proof {
            let t = d.take(i - from + 1);
            assert(t.drop_last() =~= d.take(i - from));
            assert(t.last() == c);
        }
        if !('0' <= c && c <= '9') {
            proof {
                lemma_digits_prefix(d, i - from + 1);
            }
            return None;
        }
        let digit = (c as u32 - '0' as u32) as u64;
        if acc > (u64::MAX - digit) / 10 {
            proof {
                assert(acc * 10 + digit > u64::MAX);
                lemma_digits_grow(d, i - from + 1);
                lemma_digits_prefix(d, i - from + 1);
            }
            return None;
        }
        acc = acc * 10 + digit;
        i += 1;
    }
    assert(d.take(v@.len() - from) =~= d);
    Some(acc)
}

/// Where a prefix of a text spells no number, the text spells none.
pub proof fn lemma_digits_prefix(s: Seq<char>, n: int)
    requires
        0 < n <= s.len(),
    ensures
        digits_value(s.take(n)) is None ==> digits_value(s) is None,
    decreases s.len() - n,
{
    if n < s.len() {
        lemma_digits_prefix(s, n + 1);
        assert(s.take(n + 1).drop_last() =~= s.take(n));
    } else {
        assert(s.take(n) =~= s);
    }
}

/// The number that a text spells is at least the number that a prefix of
/// it spells.
pub proof fn lemma_digits_grow(s: Seq<char>, n: int)
    requires
        0 < n <= s.len(),
    ensures
        digits_value(s) matches Some(v) ==> digits_value(s.take(n)) matches Some(p) && p <= v,
    decreases s.len() - n,
{
    if n < s.len() {
        lemma_digits_grow(s, n + 1);
        assert(s.take(n + 1).drop_last() =~= s.take(n));
    } else {
        assert(s.take(n) =~= s);
    }
}

/// The number that `s` spells, as far as it fits in a `u64`.
pub fn parse_unsigned(s: &str) -> (r: Option<u64>)
    ensures
        r == unsigned_of(s@),
{
    let v = chars_of(s);
    let from: usize = if v.len() > 0 && v[0] == '+' { 1 } else { 0 };
    proof {
        if from == 1 {
            assert(v@.skip(1) =~= v@.drop_first());
        } else {
            assert(v@.skip(0) =~= v@);
        }
    }
    read_digits(&v, from)
}

/// The number that `s` spells, as far as it fits in an `i64`.
pub fn parse_signed(s: &str) -> (r: Option<i64>)
    ensures
        r == signed_of(s@),
{
    let v = chars_of(s);
    if v.len() > 0 && v[0] == '-' {
        assert(v@.skip(1) =~= v@.drop_first());
        match read_digits(&v, 1) {
            Some(x) => if x <= 0x8000_0000_0000_0000 {
                if x == 0x8000_0000_0000_0000 {
                    Some(i64::MIN)
                } else {
                    Some(-(x as i64))
                }
            } else {
                None
            },
            None => None,
        }
    } else {
        let from: usize = if v.len() > 0 && v[0] == '+' { 1 } else { 0 };
        proof {
            if from == 1 {
                assert(v@.skip(1) =~= v@.drop_first());
            } else {
                assert(v@.skip(0) =~= v@);
            }
        }
        match read_digits(&v, from) {
            Some(x) => if x <= i64::MAX as u64 {
                Some(x as i64)
            } else {
                None
            },
            None => None,
        }
    }
}

} // verus!
