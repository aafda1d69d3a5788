//! The catalogue of dark-web search engines, and the encoding of a query
//! for their addresses.

use vstd::prelude::*;
use vstd::utf8::{decode_utf8, encode_utf8};
use crate::field::lemma_filter_step;
use crate::text::{chars_of, replace_all, replaced, text_of};

verus! {

/// A search engine.
#[derive(Debug, Clone)]
pub struct SearchEngine {
    /// Name
    pub name: &'static str,
    /// Address of its result page; `{query}` stands for the query
    pub url_template: &'static str,
    /// Whether it is in use
    pub active: bool,
    /// How reliable it is, in millionths
    pub reliability: u64,
}

/// A byte that stands for itself in a query: an ASCII letter or digit,
/// `-`, `_`, `.` or `~`.
pub open spec fn is_unreserved(b: u8) -> bool {
    ||| 0x61 <= b <= 0x7A
    ||| 0x41 <= b <= 0x5A
    ||| 0x30 <= b <= 0x39
    ||| b == 0x2D
    ||| b == 0x5F
    ||| b == 0x2E
    ||| b == 0x7E
}

/// The upper-case hexadecimal digit for `d`.
pub open spec fn hex_upper(d: nat) -> char {
    if d == 0 { '0' }
    else if d == 1 { '1' }
    else if d == 2 { '2' }
    else if d == 3 { '3' }
    else if d == 4 { '4' }
    else if d == 5 { '5' }
    else if d == 6 { '6' }
    else if d == 7 { '7' }
    else if d == 8 { '8' }
    else if d == 9 { '9' }
    else if d == 10 { 'A' }
    else if d == 11 { 'B' }
    else if d == 12 { 'C' }
    else if d == 13 { 'D' }
    else if d == 14 { 'E' }
    else { 'F' }
}

/// The value of a hexadecimal digit.
pub open spec fn hex_value(c: char) -> Option<nat> {
    if '0' <= c <= '9' {
        Some((c as u32 - '0' as u32) as nat)
    } else if 'A' <= c <= 'F' {
        Some((c as u32 - 'A' as u32 + 10) as nat)
    } else if 'a' <= c <= 'f' {
        Some((c as u32 - 'a' as u32 + 10) as nat)
    } else {
        None
    }
}

/// A byte as it is written in a query: itself where it is unreserved, `+`
/// for a blank, and else `%` with its two upper-case hexadecimal digits.
pub open spec fn encode_byte(b: u8) -> Seq<char> {
    if is_unreserved(b) {
        seq![b as char]
    } else if b == 0x20 {
        seq!['+']
    } else {
        seq!['%', hex_upper((b / 16) as nat), hex_upper((b % 16) as nat)]
    }
}

/// Bytes as they are written in a query, one after the other.
pub open spec fn encode_bytes(bytes: Seq<u8>) -> Seq<char>
    decreases bytes.len(),
{
    if bytes.len() == 0 {
        Seq::empty()
    } else {
        encode_byte(bytes[0]) + encode_bytes(bytes.drop_first())
    }
}

/// A text as it is written in a query: the bytes of its UTF-8 form, each
/// as it is written in a query.
pub open spec fn url_encode(s: Seq<char>) -> Seq<char> {
    encode_bytes(encode_utf8(s))
}

/// The bytes that a query stands for: `%` with two hexadecimal digits is
/// the byte of that value, `+` is a blank, and any other character stands
/// for the bytes of its UTF-8 form.
pub open spec fn decode_bytes(s: Seq<char>) -> Seq<u8>
    decreases s.len(),
{
    if s.len() == 0 {
        Seq::empty()
    } else if s[0] == '%' && s.len() >= 3 && hex_value(s[1]) is Some && hex_value(s[2]) is Some {
        seq![(hex_value(s[1])->0 * 16 + hex_value(s[2])->0) as u8] + decode_bytes(s.skip(3))
    } else if s[0] == '+' {
        seq![0x20u8] + decode_bytes(s.drop_first())
    } else {
        encode_utf8(seq![s[0]]) + decode_bytes(s.drop_first())
    }
}

/// The text that a query stands for: its bytes, read as UTF-8.
pub open spec fn url_decode(s: Seq<char>) -> Seq<char> {
    decode_utf8(decode_bytes(s))
}

/// A character that may stand in a query: an ASCII letter or digit, `-`,
/// `_`, `.`, `~`, `+` or `%`.
pub open spec fn is_query_char(c: char) -> bool {
    ||| 'a' <= c <= 'z'
    ||| 'A' <= c <= 'Z'
    ||| '0' <= c <= '9'
    ||| c == '-'
    ||| c == '_'
    ||| c == '.'
    ||| c == '~'
    ||| c == '+'
    ||| c == '%'
}

/// An unreserved byte is the ASCII character of its value, and that
/// character's UTF-8 form is the byte alone.
proof fn lemma_unreserved_byte(b: u8)
    requires
        is_unreserved(b),
    ensures
        b as char != '%',
        b as char != '+',
        is_query_char(b as char),
        encode_utf8(seq![b as char]) == seq![b],
{
    let c = b as char;
    vstd::utf8::char_u32_cast(c, b as u32);
    assert(c as u32 == b as u32);
    let one = seq![c];
    assert(vstd::utf8::is_ascii_chars(one));
    vstd::utf8::is_ascii_chars_encode_utf8(one);
    assert(one[0] as u8 == encode_utf8(one)[0]);
    assert(encode_utf8(one) =~= seq![b]);
}

/// Decoding the written form of bytes gives the bytes back.
pub proof fn lemma_decode_bytes(bytes: Seq<u8>)
    ensures
        decode_bytes(encode_bytes(bytes)) == bytes,
    decreases bytes.len(),
{
    if bytes.len() > 0 {
        let b = bytes[0];
        let rest = encode_bytes(bytes.drop_first());
        let e = encode_byte(b) + rest;
        lemma_decode_bytes(bytes.drop_first());
        if is_unreserved(b) {
            lemma_unreserved_byte(b);
            assert(e[0] == b as char);
            assert(e.drop_first() =~= rest);
        } else if b == 0x20 {
            assert(e[0] == '+');
            assert(e.drop_first() =~= rest);
        } else {
            let hi = (b / 16) as nat;
            let lo = (b % 16) as nat;
            assert(e[0] == '%' && e[1] == hex_upper(hi) && e[2] == hex_upper(lo));
            assert(hex_value(hex_upper(hi)) == Some(hi));
            assert(hex_value(hex_upper(lo)) == Some(lo));
            assert(e.skip(3) =~= rest);
            assert((hi * 16 + lo) as u8 == b);
        }
        assert(decode_bytes(e) =~= seq![b] + bytes.drop_first());
        assert(seq![b] + bytes.drop_first() =~= bytes);
    }
}

/// Decoding an encoded text gives the text back, whatever the text.
pub proof fn lemma_decode_encode(s: Seq<char>)
    ensures
        url_decode(url_encode(s)) == s,
{
    lemma_decode_bytes(encode_utf8(s));
    vstd::utf8::encode_utf8_decode_utf8(s);
}

/// The written form of bytes holds nothing but ASCII letters and digits,
/// `-`, `_`, `.`, `~`, `+` and `%`.
pub proof fn lemma_encoded_alphabet(bytes: Seq<u8>)
    ensures
        forall|i: int|
            0 <= i < encode_bytes(bytes).len() ==> is_query_char(#[trigger] encode_bytes(bytes)[i]),
    decreases bytes.len(),
{
    if bytes.len() > 0 {
        let b = bytes[0];
        let head = encode_byte(b);
        let rest = encode_bytes(bytes.drop_first());
        lemma_encoded_alphabet(bytes.drop_first());
        if is_unreserved(b) {
            lemma_unreserved_byte(b);
        }
        assert forall|i: int| 0 <= i < (head + rest).len() implies is_query_char(
            #[trigger] (head + rest)[i],
        ) by {
            if i < head.len() {
                assert((head + rest)[i] == head[i]);
            } else {
                assert((head + rest)[i] == rest[i - head.len()]);
            }
        }
    }
}

/// A character that stands for itself in a query: an ASCII letter or
/// digit, `-`, `_`, `.` or `~`.
pub open spec fn is_unreserved_char(c: char) -> bool {
    ||| 'a' <= c <= 'z'
    ||| 'A' <= c <= 'Z'
    ||| '0' <= c <= '9'
    ||| c == '-'
    ||| c == '_'
    ||| c == '.'
    ||| c == '~'
}

/// A text of unreserved characters is written in a query as it is.
pub proof fn lemma_unreserved_unchanged(s: Seq<char>)
    requires
        forall|i: int| 0 <= i < s.len() ==> is_unreserved_char(#[trigger] s[i]),
    ensures
        url_encode(s) == s,
    decreases s.len(),
{
    if s.len() > 0 {
        let c = s[0];
        let tail = s.drop_first();
        assert forall|i: int| 0 <= i < tail.len() implies is_unreserved_char(
            #[trigger] tail[i],
        ) by {
            assert(tail[i] == s[i + 1]);
        }
        lemma_unreserved_unchanged(tail);
        let one = seq![c];
        assert(is_unreserved_char(one[0]));
        assert(vstd::utf8::is_ascii_chars(one));
        vstd::utf8::is_ascii_chars_encode_utf8(one);
        let b = encode_utf8(one)[0];
        assert(one[0] as u8 == b);
        assert(one.drop_first() =~= Seq::<char>::empty());
        assert(encode_utf8(one) =~= vstd::utf8::encode_scalar(c as u32));
        assert(vstd::utf8::encode_scalar(c as u32) =~= seq![b]);
        let bytes = encode_utf8(s);
        assert(bytes =~= seq![b] + encode_utf8(tail));
        assert(bytes[0] == b);
        assert(bytes.drop_first() =~= encode_utf8(tail));
        assert(is_unreserved(b));
        vstd::utf8::char_u32_cast(c, b as u32);
        assert(b as char == c);
        assert(url_encode(s) =~= seq![c] + tail);
        assert(seq![c] + tail =~= s);
    }
}

fn hex_digit_upper(d: u8) -> (c: char)
    requires
        d < 16,
    ensures
        c == hex_upper(d as nat),
{
    if d == 0 { '0' }
    else if d == 1 { '1' }
    else if d == 2 { '2' }
    else if d == 3 { '3' }
    else if d == 4 { '4' }
    else if d == 5 { '5' }
    else if d == 6 { '6' }
    else if d == 7 { '7' }
    else if d == 8 { '8' }
    else if d == 9 { '9' }
    else if d == 10 { 'A' }
    else if d == 11 { 'B' }
    else if d == 12 { 'C' }
    else if d == 13 { 'D' }
    else if d == 14 { 'E' }
    else { 'F' }
}

/// `s` as it is written in a query.
pub fn urlencoded(s: &str) -> (r: String)
    ensures
        r@ == url_encode(s@),
        url_decode(r@) == s@,
        forall|i: int| 0 <= i < r@.len() ==> is_query_char(#[trigger] r@[i]),
{
    proof {
        lemma_decode_encode(s@);
        lemma_encoded_alphabet(encode_utf8(s@));
    }
    let v = s.as_bytes_vec();
    let mut out: Vec<char> = Vec::new();
    let mut i: usize = 0;
    assert(v@.skip(0) =~= v@);
    while i < v.len()
        invariant
            i <= v.len(),
            v@ == encode_utf8(s@),
            out@ + encode_bytes(v@.skip(i as int)) == encode_bytes(v@),
        decreases v.len() - i,
    {
        let b = v[i];
        let ghost before = out@;
        let ghost rest = v@.skip(i as int);
        proof {
            assert(rest[0] == b);
            assert(rest.drop_first() =~= v@.skip(i + 1));
        }
        if (0x61 <= b && b <= 0x7A) || (0x41 <= b && b <= 0x5A) || (0x30 <= b && b <= 0x39) || b
            == 0x2D || b == 0x5F || b == 0x2E || b == 0x7E {
            out.push(b as char);
        } else if b == 0x20 {
            out.push('+');
        } else {
            out.push('%');
            out.push(hex_digit_upper(b / 16));
            out.push(hex_digit_upper(b % 16));
        }
        assert(out@ =~= before + encode_byte(b));
        assert(out@ + encode_bytes(v@.skip(i + 1)) =~= before + (encode_byte(b) + encode_bytes(
            rest.drop_first(),
        )));
        i += 1;
    }
    assert(v@.skip(v@.len() as int) =~= Seq::<u8>::empty());
    assert(out@ + Seq::<char>::empty() =~= out@);
    text_of(&out)
}

impl SearchEngine {
    /// The address of the engine's result page for `query`.
    pub fn build_url(&self, query: &str) -> (r: String)
        ensures
            r@ == replace_all(self.url_template@, "{query}"@, url_encode(query@)),
    {
        let template = chars_of(self.url_template);
        let hole = chars_of("{query}");
        proof {
            reveal_strlit("{query}");
        }
        let q = chars_of(urlencoded(query).as_str());
        text_of(&replaced(&template, &hole, &q))
    }
}

/// The known search engines.
pub open spec fn catalog() -> Seq<SearchEngine> {
    seq![
        SearchEngine {
            name: "Ahmia",
            url_template: "http://juhanurmihxlp77nkq76byazcldy2hlmovfu2epvl5ankdibsot4csyd.onion/search/?q={query}",
            active: true,
            reliability: 900_000,
        },
        SearchEngine {
            name: "OnionLand",
            url_template: "http://3bbad7fauom4d6sgppalyqddsqbf5u5p56b5k5uk2zxsy3d6ey2jobad.onion/search?q={query}",
            active: true,
            reliability: 800_000,
        },
        SearchEngine {
            name: "Torgle",
            url_template: "http://iy3544gmoeclh5de6gez2256v6pjh4omhpqdh2wpeeppjtvqmjhkfwad.onion/torgle/?query={query}",
            active: true,
            reliability: 700_000,
        },
        SearchEngine {
            name: "Amnesia",
            url_template: "http://amnesia7u5odx5xbwtpnqk3edybgud5bmiagu75bnqx2crntw5kry7ad.onion/search?query={query}",
            active: true,
            reliability: 750_000,
        },
        SearchEngine {
            name: "Kaizer",
            url_template: "http://kaizerwfvp5gxu6cppibp7jhcqptavq3iqef66wbxenh6a2fklibdvid.onion/search?q={query}",
            active: true,
            reliability: 700_000,
        },
        SearchEngine {
            name: "Anima",
            url_template: "http://anima4ffe27xmakwnseih3ic2y7y3l6e7fucwk4oerdn4odf7k74tbid.onion/search?q={query}",
            active: true,
            reliability: 650_000,
        },
        SearchEngine {
            name: "Tornado",
            url_template: "http://tornadoxn3viscgz647shlysdy7ea5zqzwda7hierekeuokh5eh5b3qd.onion/search?q={query}",
            active: true,
            reliability: 700_000,
        },
        SearchEngine {
            name: "TorNet",
            url_template: "http://tornetupfu7gcgidt33ftnungxzyfq2pygui5qdoyss34xbgx2qruzid.onion/search?q={query}",
            active: true,
            reliability: 650_000,
        },
        SearchEngine {
            name: "Torland",
            url_template: "http://torlbmqwtudkorme6prgfpmsnile7ug2zm4u3ejpcncxuhpu4k2j4kyd.onion/index.php?a=search&q={query}",
            active: true,
            reliability: 600_000,
        },
        SearchEngine {
            name: "FindTor",
            url_template: "http://findtorroveq5wdnipkaojfpqulxnkhblymc7aramjzajcvpptd4rjqd.onion/search?q={query}",
            active: true,
            reliability: 700_000,
        },
        SearchEngine {
            name: "Excavator",
            url_template: "http://2fd6cemt4gmccflhm6imvdfvli3nf7zn6rfrwpsy7uhxrgbypvwf5fad.onion/search?query={query}",
            active: true,
            reliability: 650_000,
        },
        SearchEngine {
            name: "Onionway",
            url_template: "http://oniwayzz74cv2puhsgx4dpjwieww4wdphsydqvf5q7eyz4myjvyw26ad.onion/search.php?s={query}",
            active: true,
            reliability: 600_000,
        },
        SearchEngine {
            name: "Tor66",
            url_template: "http://tor66sewebgixwhcqfnp5inzp5x5uohhdy3kvtnyfxc2e5mxiuh34iid.onion/search?q={query}",
            active: true,
            reliability: 750_000,
        },
        SearchEngine {
            name: "OSS",
            url_template: "http://3fzh7yuupdfyjhwt3ugzqqof6ulbcl27ecev33knxe3u7goi3vfn2qqd.onion/oss/index.php?search={query}",
            active: true,
            reliability: 500_000,
        },
        SearchEngine {
            name: "Torgol",
            url_template: "http://torgolnpeouim56dykfob6jh5r2ps2j73enc42s2um4ufob3ny4fcdyd.onion/?q={query}",
            active: true,
            reliability: 600_000,
        },
        SearchEngine {
            name: "TheDeepSearches",
            url_template: "http://searchgf7gdtauh7bhnbyed4ivxqmuoat3nm6zfrg3ymkq6mtnpye3ad.onion/search?q={query}",
            active: true,
            reliability: 700_000,
        },
    ]
}

/// The known search engines.
pub fn default_search_engines() -> (v: Vec<SearchEngine>)
    ensures
        v@ == catalog(),
{
    let mut v: Vec<SearchEngine> = Vec::new();
    v.push(
        SearchEngine {
            name: "Ahmia",
            url_template: "http://juhanurmihxlp77nkq76byazcldy2hlmovfu2epvl5ankdibsot4csyd.onion/search/?q={query}",
            active: true,
            reliability: 900_000,
        },
    );
    v.push(
        SearchEngine {
            name: "OnionLand",
            url_template: "http://3bbad7fauom4d6sgppalyqddsqbf5u5p56b5k5uk2zxsy3d6ey2jobad.onion/search?q={query}",
            active: true,
            reliability: 800_000,
        },
    );
    v.push(
        SearchEngine {
            name: "Torgle",
            url_template: "http://iy3544gmoeclh5de6gez2256v6pjh4omhpqdh2wpeeppjtvqmjhkfwad.onion/torgle/?query={query}",
            active: true,
            reliability: 700_000,
        },
    );
    v.push(
        SearchEngine {
            name: "Amnesia",
            url_template: "http://amnesia7u5odx5xbwtpnqk3edybgud5bmiagu75bnqx2crntw5kry7ad.onion/search?query={query}",
            active: true,
            reliability: 750_000,
        },
    );
    v.push(
        SearchEngine {
            name: "Kaizer",
            url_template: "http://kaizerwfvp5gxu6cppibp7jhcqptavq3iqef66wbxenh6a2fklibdvid.onion/search?q={query}",
            active: true,
            reliability: 700_000,
        },
    );
    v.push(
        SearchEngine {
            name: "Anima",
            url_template: "http://anima4ffe27xmakwnseih3ic2y7y3l6e7fucwk4oerdn4odf7k74tbid.onion/search?q={query}",
            active: true,
            reliability: 650_000,
        },
    );
    v.push(
        SearchEngine {
            name: "Tornado",
            url_template: "http://tornadoxn3viscgz647shlysdy7ea5zqzwda7hierekeuokh5eh5b3qd.onion/search?q={query}",
            active: true,
            reliability: 700_000,
        },
    );
    v.push(
        SearchEngine {
            name: "TorNet",
            url_template: "http://tornetupfu7gcgidt33ftnungxzyfq2pygui5qdoyss34xbgx2qruzid.onion/search?q={query}",
            active: true,
            reliability: 650_000,
        },
    );
    v.push(
        SearchEngine {
            name: "Torland",
            url_template: "http://torlbmqwtudkorme6prgfpmsnile7ug2zm4u3ejpcncxuhpu4k2j4kyd.onion/index.php?a=search&q={query}",
            active: true,
            reliability: 600_000,
        },
    );
    v.push(
        SearchEngine {
            name: "FindTor",
            url_template: "http://findtorroveq5wdnipkaojfpqulxnkhblymc7aramjzajcvpptd4rjqd.onion/search?q={query}",
            active: true,
            reliability: 700_000,
        },
    );
    v.push(
        SearchEngine {
            name: "Excavator",
            url_template: "http://2fd6cemt4gmccflhm6imvdfvli3nf7zn6rfrwpsy7uhxrgbypvwf5fad.onion/search?query={query}",
            active: true,
            reliability: 650_000,
        },
    );
    v.push(
        SearchEngine {
            name: "Onionway",
            url_template: "http://oniwayzz74cv2puhsgx4dpjwieww4wdphsydqvf5q7eyz4myjvyw26ad.onion/search.php?s={query}",
            active: true,
            reliability: 600_000,
        },
    );
    v.push(
        SearchEngine {
            name: "Tor66",
            url_template: "http://tor66sewebgixwhcqfnp5inzp5x5uohhdy3kvtnyfxc2e5mxiuh34iid.onion/search?q={query}",
            active: true,
            reliability: 750_000,
        },
    );
    v.push(
        SearchEngine {
            name: "OSS",
            url_template: "http://3fzh7yuupdfyjhwt3ugzqqof6ulbcl27ecev33knxe3u7goi3vfn2qqd.onion/oss/index.php?search={query}",
            active: true,
            reliability: 500_000,
        },
    );
    v.push(
        SearchEngine {
            name: "Torgol",
            url_template: "http://torgolnpeouim56dykfob6jh5r2ps2j73enc42s2um4ufob3ny4fcdyd.onion/?q={query}",
            active: true,
            reliability: 600_000,
        },
    );
    v.push(
        SearchEngine {
            name: "TheDeepSearches",
            url_template: "http://searchgf7gdtauh7bhnbyed4ivxqmuoat3nm6zfrg3ymkq6mtnpye3ad.onion/search?q={query}",
            active: true,
            reliability: 700_000,
        },
    );
    assert(v@ =~= catalog());
    v
}

/// The search engines that are in use.
pub fn active_engines() -> (out: Vec<SearchEngine>)
    ensures
        out@ == catalog().filter(|e: SearchEngine| e.active),
{
    let all = default_search_engines();
    let ghost p = |e: SearchEngine| e.active;
    let mut out: Vec<SearchEngine> = Vec::new();
    proof {
        reveal(Seq::filter);
        assert(all@.take(0) =~= Seq::<SearchEngine>::empty());
    }
    for e in it: all
        invariant
            it.seq() == catalog(),
            p == |e: SearchEngine| e.active,
            out@ == catalog().take(it.index() as int).filter(p),
    {
        proof {
            lemma_filter_step(catalog(), it.index() as int, p);
        }
        if e.active {
            out.push(e);
        }
    }
    assert(catalog().take(catalog().len() as int) =~= catalog());
    out
}

/// No engine is followed by a more reliable one.
pub open spec fn by_falling_reliability(v: Seq<SearchEngine>) -> bool {
    forall|i: int, j: int| 0 <= i < j < v.len() ==> v[i].reliability >= v[j].reliability
}

/// `s` with `e` behind the last engine that is at least as reliable as
/// `e`, or in front where there is none.
pub open spec fn placed(s: Seq<SearchEngine>, e: SearchEngine) -> Seq<SearchEngine>
    decreases s.len(),
{
    if s.len() == 0 {
        seq![e]
    } else if s.last().reliability >= e.reliability {
        s.push(e)
    } else {
        placed(s.drop_last(), e).push(s.last())
    }
}

/// The engines of `s` with the most reliable first; engines that are
/// equally reliable stay in the order that they have in `s`.
pub open spec fn ranked(s: Seq<SearchEngine>) -> Seq<SearchEngine>
    decreases s.len(),
{
    if s.len() == 0 {
        Seq::empty()
    } else {
        placed(ranked(s.drop_last()), s.last())
    }
}

/// Where every engine of `s` from `at` on is less reliable than `e`, and
/// the one before `at` is not, `e` is placed at `at`.
proof fn lemma_placed(s: Seq<SearchEngine>, e: SearchEngine, at: int)
    requires
        0 <= at <= s.len(),
        forall|k: int| at <= k < s.len() ==> (#[trigger] s[k]).reliability < e.reliability,
        at > 0 ==> s[at - 1].reliability >= e.reliability,
    ensures
        placed(s, e) == s.insert(at, e),
    decreases s.len() - at,
{
    if s.len() == 0 {
        assert(s.insert(0, e) =~= seq![e]);
    } else if at == s.len() {
        assert(s.insert(at, e) =~= s.push(e));
    } else {
        assert(s.last() == s[s.len() - 1]);
        lemma_placed(s.drop_last(), e, at);
        assert(s.insert(at, e) =~= s.drop_last().insert(at, e).push(s.last()));
    }
}

/// The engines in the order of their reliability, the most reliable first;
/// equally reliable engines keep their order.
pub fn sort_by_reliability(engines: Vec<SearchEngine>) -> (out: Vec<SearchEngine>)
    ensures
        out@ == ranked(engines@),
        by_falling_reliability(out@),
        out@.to_multiset() == engines@.to_multiset(),
{
    let ghost all = engines@;
    let mut out: Vec<SearchEngine> = Vec::new();
    assert(all.take(0) =~= Seq::<SearchEngine>::empty());
    for e in it: engines
        invariant
            it.seq() == all,
            out@ == ranked(all.take(it.index() as int)),
            by_falling_reliability(out@),
            out@.to_multiset() == all.take(it.index() as int).to_multiset(),
    {
        let ghost i = it.index() as int;
        let mut at: usize = out.len();
        while at > 0 && out[at - 1].reliability < e.reliability
            invariant
                at <= out@.len(),
                forall|k: int| at <= k < out@.len() ==> (#[trigger] out@[k]).reliability < e.reliability,
            decreases at,
        {
            at -= 1;
        }
        let ghost before = out@;
        out.insert(at, e);
        proof {
            let t = out@;
            assert(t.remove(at as int) =~= before);
            assert(t[at as int] == e);
            vstd::seq_lib::to_multiset_remove(t, at as int);
            t.to_multiset_ensures();
            assert(t.contains(e));
            assert(t.to_multiset() =~= before.to_multiset().insert(e));
            assert(all.take(i + 1) =~= all.take(i).push(e));
            assert(all.take(i + 1).drop_last() =~= all.take(i));
            all.take(i).to_multiset_ensures();
            lemma_placed(before, e, at as int);
        }
    }
    assert(all.take(all.len() as int) =~= all);
    out
}

/// The engines in use, the most reliable first; equally reliable engines
/// in the order of the catalog.
pub fn engines_by_reliability() -> (out: Vec<SearchEngine>)
    ensures
        out@ == ranked(catalog().filter(|e: SearchEngine| e.active)),
        by_falling_reliability(out@),
        out@.to_multiset() == catalog().filter(|e: SearchEngine| e.active).to_multiset(),
{
    sort_by_reliability(active_engines())
}

} // verus!
