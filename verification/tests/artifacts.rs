use robin_smesh::artifacts::{extract_artifacts, is_common_domain, Artifact, ArtifactType};

#[test]
fn test_extract_bitcoin() {
    let text = "Send payment to 1A1zP1eP5QGefi2DMPTfTL5SLmv7DivfNa";
    let artifacts = extract_artifacts(text, None);
    assert!(artifacts.iter().any(|a| a.artifact_type == ArtifactType::Bitcoin));
}

#[test]
fn test_extract_onion() {
    let text = "Visit our forum at dreadytofatroptsdj6io7l3xptbet6onoyno2yv7jicoxknyazubrad.onion";
    let artifacts = extract_artifacts(text, None);
    assert!(artifacts.iter().any(|a| a.artifact_type == ArtifactType::OnionAddress));
}

#[test]
fn test_extract_cve() {
    let text = "Exploiting CVE-2023-12345 for initial access";
    let artifacts = extract_artifacts(text, None);
    assert!(artifacts.iter().any(|a| a.artifact_type == ArtifactType::Cve));
}

#[test]
fn test_extract_email() {
    let text = "Contact admin@darkmarket.onion for support";
    let artifacts = extract_artifacts(text, None);
    assert!(artifacts.iter().any(|a| a.artifact_type == ArtifactType::Email));
}

fn kinds(text: &str) -> Vec<(ArtifactType, String, u64)> {
    extract_artifacts(text, None).into_iter().map(|a| (a.artifact_type, a.value, a.confidence)).collect()
}

#[test]
fn bitcoin_and_email_but_no_onion_domain() {
    let found = extract_artifacts(
        "pay 1A1zP1eP5QGefi2DMPTfTL5SLmv7DivfNa and write admin@example.onion",
        Some("http://src.onion"),
    );
    assert_eq!(found.iter().filter(|a| a.artifact_type == ArtifactType::Bitcoin).count(), 1);
    assert_eq!(found.iter().filter(|a| a.artifact_type == ArtifactType::Email).count(), 1);
    assert!(!found.iter().any(|a| a.artifact_type == ArtifactType::Domain && a.value.ends_with(".onion")));
    assert!(found.iter().all(|a| a.source.as_deref() == Some("http://src.onion")));
    assert!(found.iter().all(|a| a.context.is_none()));
}

#[test]
fn long_digest_is_sha256_only() {
    let digest = "e3b0c44298fc1c149afbf4c8996fb92427ae41e4649b934ca495991b7852b855";
    let found = kinds(&format!("hash {}", digest));
    assert_eq!(found, vec![(ArtifactType::Sha256, digest.to_string(), 900_000)]);
    let sha1 = "da39a3ee5e6b4b0d3255bfef95601890afd80709";
    assert_eq!(kinds(sha1), vec![(ArtifactType::Sha1, sha1.to_string(), 850_000)]);
    let md5 = "d41d8cd98f00b204e9800998ecf8427e";
    assert_eq!(kinds(md5), vec![(ArtifactType::Md5, md5.to_string(), 800_000)]);
}

#[test]
fn each_key_once_and_case_counts_for_nothing() {
    let found = kinds("CVE-2024-0001 and again CVE-2024-0001; mail A@b.io and a@B.io");
    let cves: Vec<_> = found.iter().filter(|k| k.0 == ArtifactType::Cve).collect();
    assert_eq!(cves.len(), 1);
    let mails: Vec<_> = found.iter().filter(|k| k.0 == ArtifactType::Email).collect();
    assert_eq!(mails.len(), 1);
    assert_eq!(mails[0].1, "A@b.io");
}

#[test]
fn extraction_is_deterministic() {
    let text = "1A1zP1eP5QGefi2DMPTfTL5SLmv7DivfNa CVE-2021-44228 T1059.001 x@y.org 10.1.2.3 http://a.example.net/p?q=1";
    let a = kinds(text);
    let b = kinds(text);
    assert_eq!(a, b);
    assert!(!a.is_empty());
}

#[test]
fn order_follows_the_patterns() {
    let found = kinds("see 8.8.8.8 then CVE-2020-1234 then https://evil.example.org/x then T1566");
    let order: Vec<ArtifactType> = found.iter().map(|k| k.0.clone()).collect();
    assert_eq!(
        order,
        vec![ArtifactType::Url, ArtifactType::Cve, ArtifactType::MitreAttack, ArtifactType::Ipv4, ArtifactType::Domain]
    );
    assert_eq!(found[0].1, "https://evil.example.org/x");
    assert_eq!(found[0].2, 900_000);
    assert_eq!(found[3].2, 850_000);
    assert_eq!(found[4].1, "evil.example.org");
    assert_eq!(found[4].2, 700_000);
}

#[test]
fn local_addresses_and_common_domains_are_dropped() {
    let found = kinds("0.1.2.3 127.0.0.1 127.0.0.10 192.168.1.1 www.google.com mail.github.com dark.example.io");
    let ips: Vec<_> = found.iter().filter(|k| k.0 == ArtifactType::Ipv4).map(|k| k.1.clone()).collect();
    assert_eq!(ips, vec!["127.0.0.10".to_string(), "192.168.1.1".to_string()]);
    let domains: Vec<_> = found.iter().filter(|k| k.0 == ArtifactType::Domain).map(|k| k.1.clone()).collect();
    assert_eq!(domains, vec!["dark.example.io".to_string()]);
    assert!(is_common_domain("maps.google.com"));
    assert!(is_common_domain("reddit.com"));
    assert!(!is_common_domain("google.com.evil.io"));
}

#[test]
fn ethereum_and_onion_confidences() {
    let found = kinds("0x742d35Cc6634C0532925a3b844Bc9e7595f0bEb1 at dreadytofatroptsdj6io7l3xptbet6onoyno2yv7jicoxknyazubrad.onion");
    assert!(found.contains(&(ArtifactType::Ethereum, "0x742d35Cc6634C0532925a3b844Bc9e7595f0bEb1".to_string(), 950_000)));
    assert!(found.contains(&(
        ArtifactType::OnionAddress,
        "dreadytofatroptsdj6io7l3xptbet6onoyno2yv7jicoxknyazubrad.onion".to_string(),
        1_000_000
    )));
}

#[test]
fn artifact_builders() {
    let a = Artifact::new(ArtifactType::Email, "x@y.z".to_string());
    assert_eq!(a.confidence, 1_000_000);
    assert!(a.context.is_none() && a.source.is_none());
    let b = a.with_context("near").with_confidence(3_000_000).with_source("here");
    assert_eq!(b.context.as_deref(), Some("near"));
    assert_eq!(b.confidence, 1_000_000);
    assert_eq!(b.source.as_deref(), Some("here"));
    let c = b.with_confidence(250_000);
    assert_eq!(c.confidence, 250_000);
    let d = c.duplicate();
    assert_eq!(d.value, "x@y.z");
    assert_eq!(d.artifact_type, ArtifactType::Email);
}
