use steam_shortcuts::classify::{
    as_slices, classify, default_ignored_app_ids, default_skip_keywords, has_ignored_keyword,
    is_ignored_id, should_skip, Decision, SkipLists,
};

#[test]
fn keyword_in_title_suppresses() {
    let defaults = SkipLists::resolve(Some("Soundtrack"), None);
    assert!(defaults.should_skip("My Soundtrack Vol 1", "999"));
    let ids: Vec<&str> = vec!["480"];
    let keywords: Vec<&str> = vec!["Soundtrack"];
    assert_eq!(classify("My Soundtrack Vol 1", "999", &ids, &keywords), Decision::Suppress);
}

#[test]
fn default_id_suppresses() {
    let lists = SkipLists::resolve(None, None);
    assert!(lists.should_skip("Normal Game", "480"));
    assert!(!lists.should_skip("Normal Game", "481"));
}

#[test]
fn keyword_match_ignores_case() {
    let ids: Vec<&str> = vec![];
    let keywords: Vec<&str> = vec!["SOUNDTRACK"];
    assert!(should_skip("my soundtrack vol 1", "1", &ids, &keywords));
    let lower: Vec<&str> = vec!["soundtrack"];
    assert!(should_skip("MY SOUNDTRACK VOL 1", "1", &ids, &lower));
    assert!(should_skip("My SoundTrack", "1", &ids, &lower));
    assert!(!should_skip("My Sound Track", "1", &ids, &lower));
}

#[test]
fn id_match_is_exact() {
    let ids: Vec<&str> = vec!["480"];
    let keywords: Vec<&str> = vec![];
    assert!(should_skip("Game", "480", &ids, &keywords));
    assert!(!should_skip("Game", "4800", &ids, &keywords));
    assert!(!should_skip("Game", "48", &ids, &keywords));
    assert!(!should_skip("Game", "0480", &ids, &keywords));
    assert!(!should_skip("Game", " 480", &ids, &keywords));
    assert!(is_ignored_id("480", &ids));
    assert!(!is_ignored_id("481", &ids));
}

#[test]
fn id_is_not_matched_against_keywords() {
    let ids: Vec<&str> = vec![];
    let keywords: Vec<&str> = vec!["480"];
    assert!(!should_skip("Game", "480", &ids, &keywords));
    assert!(should_skip("Game 480", "1", &ids, &keywords));
}

#[test]
fn empty_lists_accept_everything() {
    let ids: Vec<&str> = vec![];
    let keywords: Vec<&str> = vec![];
    assert!(!should_skip("Proton 8.0", "480", &ids, &keywords));
    assert_eq!(classify("Proton 8.0", "480", &ids, &keywords), Decision::Accept);
}

#[test]
fn empty_keyword_hits_every_title() {
    let keywords: Vec<&str> = vec![""];
    assert!(has_ignored_keyword("Anything", &keywords));
    assert!(has_ignored_keyword("", &keywords));
}

#[test]
fn default_lists() {
    assert_eq!(
        default_skip_keywords(),
        vec![
            "Proton",
            "Steam Linux Runtime",
            "Steamworks",
            "Common Redistributables",
            "SteamVR",
            "Dedicated Server",
            "Soundtrack"
        ]
    );
    assert_eq!(default_ignored_app_ids(), vec!["480"]);
    let lists = SkipLists::defaults();
    assert_eq!(lists.ignored_ids, default_ignored_app_ids());
    assert_eq!(lists.ignored_keywords, default_skip_keywords());
}

#[test]
fn default_keywords_suppress_tools() {
    let lists = SkipLists::defaults();
    assert!(lists.should_skip("Proton 8.0", "2348590"));
    assert!(lists.should_skip("Steam Linux Runtime 3.0 (sniper)", "1628350"));
    assert!(lists.should_skip("Steamworks Common Redistributables", "228980"));
    assert!(lists.should_skip("steamvr", "250820"));
    assert!(lists.should_skip("Some Game Dedicated Server", "5"));
    assert!(lists.should_skip("Some Game - SOUNDTRACK", "6"));
    assert!(!lists.should_skip("Cool Game", "100"));
}

#[test]
fn overrides_replace_defaults() {
    let lists = SkipLists::resolve(Some("Demo, Beta"), Some(" 1 ,2"));
    assert_eq!(lists.ignored_keywords, vec!["Demo", "Beta"]);
    assert_eq!(lists.ignored_ids, vec!["1", "2"]);
    assert!(!lists.should_skip("Proton 8.0", "480"));
    assert!(lists.should_skip("Cool Game demo", "100"));
    assert!(lists.should_skip("Cool Game", "2"));
    let only_ids = SkipLists::resolve(None, Some("7"));
    assert_eq!(only_ids.ignored_keywords, default_skip_keywords());
    assert_eq!(only_ids.ignored_ids, vec!["7"]);
}

#[test]
fn borrowed_list_keeps_texts() {
    let owned = vec!["a".to_string(), "".to_string(), "b c".to_string()];
    assert_eq!(as_slices(&owned), vec!["a", "", "b c"]);
}
