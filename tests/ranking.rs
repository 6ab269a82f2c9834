use chrozone::rank::{autocomplete_tz, load_catalog, rank_candidates, similarity};

fn sorted(v: &[String]) -> Vec<String> {
    let mut v = v.to_vec();
    v.sort();
    v
}

#[test]
fn mod_autocomplete_queries() {
    let names = autocomplete_tz("Asia/Ma", 5).unwrap();
    let expected: Vec<String> = ["Asia/Macao", "Asia/Macau", "Asia/Muscat", "Asia/Manila", "Asia/Magadan"]
        .iter()
        .map(|s| s.to_string())
        .collect();
    assert_eq!(sorted(&names[..5]), sorted(&expected));

    let names = autocomplete_tz("Asia/Man", 5).unwrap();
    assert_eq!(&names[..5], &["Asia/Manila", "Asia/Amman", "Asia/Magadan", "Asia/Aden", "Asia/Macao"]);
}

#[test]
fn asia_ma_top_five_holds_the_four_expected() {
    let names = autocomplete_tz("Asia/Ma", 5).unwrap();
    for want in ["Asia/Macao", "Asia/Macau", "Asia/Manila", "Asia/Magadan"] {
        assert!(names[..5].iter().any(|n| n == want), "{want} missing");
    }
}

#[test]
fn jaro_winkler_value_is_passed_through() {
    assert_eq!(similarity("abc", "acbd"), 0.825f64.to_bits());
    assert_eq!(similarity("abc", "abc"), 1.0f64.to_bits());
}

#[test]
fn scoring_ignores_case() {
    assert_eq!(similarity("ABC", "abc"), 1.0f64.to_bits());
    assert_eq!(similarity("ASIA/MANILA", "asia/ma"), similarity("Asia/Manila", "Asia/Ma"));
}

#[test]
fn ranking_orders_best_first_and_keeps_all() {
    let candidates: Vec<String> = ["zzz", "abd", "abc", "xyz", "ab"].iter().map(|s| s.to_string()).collect();
    let ranked = rank_candidates("abc", &candidates, 2);
    assert_eq!(ranked[0], "abc");
    assert_eq!(sorted(&ranked), sorted(&candidates));
    let s: Vec<u64> = ranked.iter().map(|c| similarity(c, "abc")).collect();
    assert!(s[0] >= s[1] && s[1] >= s[2]);
    assert!(s[2..].iter().all(|&x| x <= s[1]));
}

#[test]
fn count_zero_selects_nothing() {
    let candidates: Vec<String> = ["b", "a", "c"].iter().map(|s| s.to_string()).collect();
    let ranked = rank_candidates("a", &candidates, 0);
    assert!(ranked[..0].is_empty());
    assert_eq!(ranked[0], "a");
}

#[test]
fn all_but_one_leaves_lowest_last() {
    let candidates: Vec<String> = ["Asia/Tokyo", "Europe/Paris", "Asia/Macau", "Africa/Lagos"]
        .iter()
        .map(|s| s.to_string())
        .collect();
    let ranked = rank_candidates("asia/ma", &candidates, 3);
    let last = similarity(&ranked[3], "asia/ma");
    assert!(candidates.iter().all(|c| similarity(c, "asia/ma") >= last));
}

#[test]
fn count_not_below_catalog_size_is_refused() {
    let n = load_catalog().len();
    assert!(autocomplete_tz("UTC", n).is_none());
    assert!(autocomplete_tz("UTC", n + 5).is_none());
    assert_eq!(autocomplete_tz("UTC", n - 1).map(|v| v.len()), Some(n));
}

#[test]
fn catalog_holds_utc() {
    let catalog = load_catalog();
    assert!(catalog.iter().any(|n| n == "UTC"));
}
