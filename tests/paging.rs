use replay_downloader::paging::{
    counter_text, fixed_next_link, is_throttled, page_position, parse_counter,
};
use replay_downloader::sweep::{accepted_body, Config, Reply};
use replay_downloader::text::{chars_of, contains, replace};

#[test]
fn counter_437_targets_page_2_offset_37() {
    assert_eq!(page_position(437, 200), (2, 37));
}

#[test]
fn page_position_edges() {
    assert_eq!(page_position(0, 200), (0, 0));
    assert_eq!(page_position(199, 200), (0, 199));
    assert_eq!(page_position(200, 200), (1, 0));
    assert_eq!(page_position(u64::MAX, 1), (u64::MAX, 0));
}

#[test]
fn next_link_blank_max_rank_is_pinned() {
    let next = "https://example.org/api/replays?count=200&max-rank=&min-rank=gold-2&playlist=ranked-standard&season=f13&after=abc";
    let fixed = fixed_next_link(next, "gold-2");
    assert_eq!(
        fixed,
        "https://example.org/api/replays?count=200&max-rank=gold-2&min-rank=gold-2&playlist=ranked-standard&season=f13&after=abc"
    );
}

#[test]
fn next_link_without_blank_filter_is_unchanged() {
    let next = "https://example.org/api/replays?max-rank=gold-1&count=200";
    assert_eq!(fixed_next_link(next, "gold-2"), next);
    assert_eq!(fixed_next_link("", "gold-2"), "");
}

#[test]
fn next_link_every_blank_filter_is_pinned() {
    assert_eq!(
        fixed_next_link("max-rank=&x&max-rank=&", "bronze-1"),
        "max-rank=bronze-1&x&max-rank=bronze-1&"
    );
}

#[test]
fn throttle_marker_is_found() {
    assert!(is_throttled(r#"{"error":"Too many requests"}"#));
    assert!(is_throttled(r#"{"a":1,"error":"Too many requests","b":2}"#));
    assert!(!is_throttled(r#"{"error":"Not found"}"#));
    assert!(!is_throttled(r#"{"id":"abc"}"#));
    assert!(!is_throttled(""));
}

#[test]
fn contains_and_replace_on_chars() {
    let s = chars_of("aXbXc");
    assert!(contains(&s, &chars_of("Xb")));
    assert!(!contains(&s, &chars_of("XX")));
    assert!(contains(&s, &chars_of("")));
    let r = replace(&s, &chars_of("X"), &chars_of("--"));
    assert_eq!(r.iter().collect::<String>(), "a--b--c");
    let overlapping = replace(&chars_of("aaa"), &chars_of("aa"), &chars_of("b"));
    assert_eq!(overlapping.iter().collect::<String>(), "ba");
}

#[test]
fn counter_parsing() {
    assert_eq!(parse_counter("0"), Some(0));
    assert_eq!(parse_counter("437"), Some(437));
    assert_eq!(parse_counter("007"), Some(7));
    assert_eq!(parse_counter("18446744073709551615"), Some(u64::MAX));
    assert_eq!(parse_counter("18446744073709551616"), None);
    assert_eq!(parse_counter(""), None);
    assert_eq!(parse_counter("12a"), None);
    assert_eq!(parse_counter("-1"), None);
    assert_eq!(parse_counter(" 1"), None);
}

#[test]
fn counter_writing_round_trips() {
    assert_eq!(counter_text(0), "0");
    assert_eq!(counter_text(437), "437");
    assert_eq!(counter_text(u64::MAX), "18446744073709551615");
    for n in [0u64, 9, 10, 99, 100, 12345, u64::MAX] {
        assert_eq!(parse_counter(&counter_text(n)), Some(n));
    }
}

#[test]
fn disguised_throttle_is_not_accepted() {
    let throttled = Some(Reply { status: 200, body: Some(r#"{"error":"Too many requests"}"#.to_string()) });
    assert_eq!(accepted_body(throttled), None);
    assert_eq!(accepted_body(None), None);
    assert_eq!(accepted_body(Some(Reply { status: 429, body: Some("{}".to_string()) })), None);
    assert_eq!(accepted_body(Some(Reply { status: 200, body: None })), None);
    assert_eq!(
        accepted_body(Some(Reply { status: 200, body: Some("{\"id\":1}".to_string()) })),
        Some("{\"id\":1}".to_string())
    );
}

#[test]
fn initial_query_pins_both_rank_filters() {
    let config = Config {
        api_url: "https://example.org/api/replays".to_string(),
        playlist: "ranked-standard".to_string(),
        season: "f13".to_string(),
        page_size: 200,
        categories: vec!["bronze-1".to_string(), "gold-2".to_string()],
        call_budget: 500,
    };
    assert_eq!(
        config.initial_query(1),
        "https://example.org/api/replays?playlist=ranked-standard&season=f13&min-rank=gold-2&max-rank=gold-2&count=200"
    );
}
