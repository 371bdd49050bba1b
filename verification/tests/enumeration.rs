use xssninja::payloads::payload_catalog;
use xssninja::target::{build_probes, build_url_with_pairs, prepare_target};
use xssninja::tiers::{chunk_wordlist, tier_a_assignments, tier_b_assignments, tier_c_assignments};

fn named_list(names: &[&str]) -> Vec<String> {
    names.iter().map(|n| n.to_string()).collect()
}

#[test]
fn catalog_is_the_fixed_ordered_list() {
    let payloads = payload_catalog();
    assert_eq!(payloads.len(), 13);
    assert_eq!(payloads[0], "\"><svg/onload=alert(1)>");
    assert_eq!(payloads[2], "\"><script>alert(1)</script>");
    assert_eq!(payloads[12], "\"FUZZ;//");
}

#[test]
fn wordlist_of_seventy_makes_two_full_chunks() {
    let wordlist: Vec<String> = (0..70).map(|n| format!("p{}", n)).collect();
    let chunks = chunk_wordlist(&wordlist);
    assert_eq!(chunks.len(), 2);
    assert_eq!(chunks[0].len(), 35);
    assert_eq!(chunks[1].len(), 35);
    assert_eq!(chunks[0][0], "p0");
    assert_eq!(chunks[1][0], "p35");
}

#[test]
fn wordlist_of_thirty_six_makes_a_full_and_a_single() {
    let wordlist: Vec<String> = (0..36).map(|n| format!("p{}", n)).collect();
    let chunks = chunk_wordlist(&wordlist);
    assert_eq!(chunks.len(), 2);
    assert_eq!(chunks[0].len(), 35);
    assert_eq!(chunks[1].len(), 1);
    assert_eq!(chunks[1][0], "p35");
}

#[test]
fn empty_wordlist_makes_no_chunks() {
    let chunks = chunk_wordlist(&Vec::new());
    assert!(chunks.is_empty());
}

#[test]
fn tier_a_replaces_one_value_and_keeps_the_rest() {
    let pairs = vec![
        ("id".to_string(), "1".to_string()),
        ("page".to_string(), "2".to_string()),
    ];
    let payloads = named_list(&["PAY1", "PAY2"]);
    let assignments = tier_a_assignments(&pairs, &payloads);
    assert_eq!(assignments.len(), 4);
    // parameter 0, payload 1
    assert_eq!(
        assignments[1],
        vec![
            ("id".to_string(), "PAY2".to_string()),
            ("page".to_string(), "2".to_string()),
        ]
    );
    // parameter 1, payload 0
    assert_eq!(
        assignments[2],
        vec![
            ("id".to_string(), "1".to_string()),
            ("page".to_string(), "PAY1".to_string()),
        ]
    );
}

#[test]
fn tier_a_with_no_query_enumerates_nothing() {
    let assignments = tier_a_assignments(&Vec::new(), &payload_catalog());
    assert!(assignments.is_empty());
}

#[test]
fn tier_b_sets_one_discovered_name_per_probe() {
    let names = named_list(&["q", "search"]);
    let payloads = named_list(&["PAY"]);
    let assignments = tier_b_assignments(&names, &payloads);
    assert_eq!(assignments.len(), 2);
    assert_eq!(
        assignments[0],
        vec![("q".to_string(), "PAY".to_string())]
    );
    assert_eq!(
        assignments[1],
        vec![("search".to_string(), "PAY".to_string())]
    );
}

#[test]
fn tier_c_sets_a_whole_chunk_to_one_payload() {
    let wordlist: Vec<String> = (0..36).map(|n| format!("p{}", n)).collect();
    let payloads = named_list(&["PAY1", "PAY2"]);
    let assignments = tier_c_assignments(&wordlist, &payloads);
    // two chunks, two payloads each
    assert_eq!(assignments.len(), 4);
    assert_eq!(assignments[0].len(), 35);
    assert!(assignments[0].iter().all(|(_, v)| v == "PAY1"));
    assert!(assignments[1].iter().all(|(_, v)| v == "PAY2"));
    // the final chunk holds the one leftover name
    assert_eq!(
        assignments[3],
        vec![("p35".to_string(), "PAY2".to_string())]
    );
}

#[test]
fn prepare_target_splits_base_and_query() {
    let ctx = prepare_target("https://x.test/?id=1&b=2").expect("target parses");
    assert_eq!(ctx.target, "https://x.test/?id=1&b=2");
    assert_eq!(ctx.base, "https://x.test/");
    assert_eq!(
        ctx.query_pairs,
        vec![
            ("id".to_string(), "1".to_string()),
            ("b".to_string(), "2".to_string()),
        ]
    );
}

#[test]
fn unparseable_target_is_rejected() {
    assert!(prepare_target("not a url").is_none());
}

#[test]
fn build_url_serializes_pairs_onto_the_base() {
    let pairs = vec![("id".to_string(), "1".to_string())];
    let url = build_url_with_pairs("https://x.test/", &pairs).expect("base parses");
    assert_eq!(url, "https://x.test/?id=1");
}

#[test]
fn build_url_percent_encodes_payload_values() {
    let pairs = vec![("id".to_string(), "a b>".to_string())];
    let url = build_url_with_pairs("https://x.test/", &pairs).expect("base parses");
    assert_ne!(url, "https://x.test/?id=a b>");
    assert!(url.starts_with("https://x.test/?id="));
    assert!(!url.contains('>'));
}

#[test]
fn build_probes_pairs_each_assignment_with_its_url() {
    let assignments = vec![
        vec![("id".to_string(), "1".to_string())],
        vec![("id".to_string(), "2".to_string())],
    ];
    let probes = build_probes("https://x.test/", assignments);
    assert_eq!(probes.len(), 2);
    assert_eq!(probes[0].url, "https://x.test/?id=1");
    assert_eq!(probes[1].url, "https://x.test/?id=2");
    assert_eq!(
        probes[1].params,
        vec![("id".to_string(), "2".to_string())]
    );
}

#[test]
fn build_probes_on_unparseable_base_is_empty() {
    let assignments = vec![vec![("id".to_string(), "1".to_string())]];
    assert!(build_probes("not a url", assignments).is_empty());
}
