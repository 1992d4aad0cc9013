use oabctl::store::{generation_of_key, next_generation, stored_generations, KeyListing};
use oabctl::text::parse_decimal;

#[test]
fn keys_read_back_their_generation() {
    let prefix = "config/prod/kiro-01/";
    assert_eq!(generation_of_key(prefix, "config/prod/kiro-01/1/config.toml"), Some(1));
    assert_eq!(generation_of_key(prefix, "config/prod/kiro-01/42/config.toml"), Some(42));
    assert_eq!(generation_of_key(prefix, "config/prod/kiro-01/0/config.toml"), Some(0));
    assert_eq!(
        generation_of_key(prefix, &format!("config/prod/kiro-01/{}/config.toml", u64::MAX)),
        Some(u64::MAX)
    );
}

#[test]
fn other_keys_have_no_generation() {
    let prefix = "config/prod/kiro-01/";
    assert_eq!(generation_of_key(prefix, "config/prod/kiro-01/007/config.toml"), None);
    assert_eq!(generation_of_key(prefix, "config/prod/kiro-01//config.toml"), None);
    assert_eq!(generation_of_key(prefix, "config/prod/kiro-01/1/config.yaml"), None);
    assert_eq!(generation_of_key(prefix, "config/prod/kiro-02/1/config.toml"), None);
    assert_eq!(generation_of_key(prefix, "config/prod/kiro-01/1a/config.toml"), None);
    assert_eq!(generation_of_key(prefix, "config/prod/kiro-01/18446744073709551616/config.toml"), None);
    assert_eq!(generation_of_key(prefix, "config/prod/kiro-01/"), None);
}

#[test]
fn stored_generations_in_listing_order() {
    let keys = vec![
        "config/p/a/3/config.toml".to_string(),
        "config/p/a/x".to_string(),
        "config/p/a/1/config.toml".to_string(),
    ];
    assert_eq!(stored_generations("config/p/a/", &keys), vec![3, 1]);
}

#[test]
fn next_generation_rules() {
    assert_eq!(next_generation(&vec![]), Some(1));
    assert_eq!(next_generation(&vec![0]), Some(1));
    assert_eq!(next_generation(&vec![3, 9, 2]), Some(10));
    assert_eq!(next_generation(&vec![u64::MAX - 1]), Some(u64::MAX));
    assert_eq!(next_generation(&vec![5, u64::MAX]), None);
}

#[test]
fn decimal_parsing() {
    assert_eq!(parse_decimal("0"), Some(0));
    assert_eq!(parse_decimal("123"), Some(123));
    assert_eq!(parse_decimal("007"), Some(7));
    assert_eq!(parse_decimal(""), None);
    assert_eq!(parse_decimal("1x"), None);
    assert_eq!(parse_decimal("18446744073709551615"), Some(u64::MAX));
    assert_eq!(parse_decimal("18446744073709551616"), None);
}

#[test]
fn key_listing_keeps_every_page_in_order() {
    let mut listing = KeyListing::new();
    assert!(listing.keys.is_empty());
    let page1: Vec<String> = vec![
        "config/prod/a/1/config.toml".to_string(),
        "config/prod/a/2/config.toml".to_string(),
    ];
    let page2: Vec<String> = vec!["config/prod/a/3/config.toml".to_string()];
    assert!(listing.absorb_page(&page1, &Some("next".to_string())));
    assert!(!listing.absorb_page(&page2, &None));
    assert_eq!(
        listing.keys,
        vec![
            "config/prod/a/1/config.toml".to_string(),
            "config/prod/a/2/config.toml".to_string(),
            "config/prod/a/3/config.toml".to_string(),
        ]
    );
}

#[test]
fn key_listing_empty_last_page() {
    let mut listing = KeyListing::new();
    assert!(!listing.absorb_page(&Vec::new(), &None));
    assert!(listing.keys.is_empty());
}
