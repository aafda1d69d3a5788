use robin_smesh::search_engines::{
    active_engines, default_search_engines, engines_by_reliability, urlencoded,
};

#[test]
fn test_build_url() {
    let engines = default_search_engines();
    let engine = &engines[0];
    let url = engine.build_url("ransomware payments");
    assert!(url.contains("ransomware+payments"));
    assert!(url.ends_with(".onion/search/?q=ransomware+payments"));
}

#[test]
fn test_active_engines() {
    let count = active_engines().len();
    assert!(count >= 10);
}

#[test]
fn catalogue_has_sixteen_engines() {
    let all = default_search_engines();
    assert_eq!(all.len(), 16);
    assert_eq!(all[0].name, "Ahmia");
    assert_eq!(all[15].name, "TheDeepSearches");
    assert!(all.iter().all(|e| e.url_template.contains("{query}")));
    assert!(all.iter().all(|e| e.reliability <= 1_000_000));
    assert_eq!(all[3].reliability, 750_000);
}

#[test]
fn encoding_rules() {
    assert_eq!(urlencoded("abc-XYZ_0.9~"), "abc-XYZ_0.9~");
    assert_eq!(urlencoded("a b"), "a+b");
    assert_eq!(urlencoded("a+b&c=d/?"), "a%2Bb%26c%3Dd%2F%3F");
    assert_eq!(urlencoded(""), "");
    assert_eq!(urlencoded("\u{e9}"), "%C3%A9");
    assert_eq!(urlencoded("\u{ac}"), "%C2%AC");
    assert_eq!(urlencoded("\u{20ac}"), "%E2%82%AC");
    assert_eq!(urlencoded("\u{1f50d}"), "%F0%9F%94%8D");
    assert_eq!(urlencoded("100%"), "100%25");
    assert_eq!(urlencoded("\n"), "%0A");
}

#[test]
fn decoding_gives_the_query_back() {
    for q in [
        "ransomware payments",
        "a+b = c & d",
        "100% sure? yes/no",
        "tab\there",
        "caf\u{e9} \u{20ac}5 \u{ac}",
        "\u{43f}\u{440}\u{438}\u{432}\u{435}\u{442} \u{1f50d}",
        "+%&",
        "",
    ] {
        let encoded = urlencoded(q).replace('+', " ");
        let decoded = urlencoding::decode(&encoded).unwrap().into_owned();
        assert_eq!(decoded, q);
    }
}

#[test]
fn most_reliable_first() {
    let sorted = engines_by_reliability();
    assert_eq!(sorted.len(), active_engines().len());
    assert_eq!(sorted[0].name, "Ahmia");
    assert_eq!(sorted[1].name, "OnionLand");
    for w in sorted.windows(2) {
        assert!(w[0].reliability >= w[1].reliability);
    }
    assert_eq!(sorted.last().unwrap().name, "OSS");
}

#[test]
fn equally_reliable_engines_keep_their_order() {
    let names: Vec<&str> = engines_by_reliability().iter().map(|e| e.name).collect();
    assert_eq!(
        names,
        vec![
            "Ahmia",
            "OnionLand",
            "Amnesia",
            "Tor66",
            "Torgle",
            "Kaizer",
            "Tornado",
            "FindTor",
            "TheDeepSearches",
            "Anima",
            "TorNet",
            "Excavator",
            "Torland",
            "Onionway",
            "Torgol",
            "OSS",
        ]
    );
}

#[test]
fn encoded_queries_hold_only_query_characters() {
    for q in ["a b", "caf\u{e9}", "\u{20ac}", "x/y?z=1&w=2", "~_-."] {
        let e = urlencoded(q);
        assert!(e.chars().all(|c| c.is_ascii_alphanumeric() || "-_.~+%".contains(c)), "{}", e);
        let mut rest = e.as_str();
        while let Some(at) = rest.find('%') {
            let hex = &rest[at + 1..at + 3];
            assert!(hex.chars().all(|c| c.is_ascii_digit() || ('A'..='F').contains(&c)), "{}", e);
            rest = &rest[at + 3..];
        }
    }
    assert_eq!(urlencoded("abc-XYZ_0.9~"), "abc-XYZ_0.9~");
}
