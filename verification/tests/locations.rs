use pi_sidebar::telemetry::openrouter_live::is_openrouter_provider;
use pi_sidebar::telemetry::session_finder::{newest_session_in, session_dir_slug, SessionFile};
use pi_sidebar::telemetry::weather_live::{
    fall_back_to_cache, index_of_location, location_by_index, selected_index, use_cached_forecast,
    LOCATION_COUNT,
};

#[test]
fn locations_rotate_round_the_presets() {
    assert_eq!(LOCATION_COUNT, 8);
    assert_eq!(location_by_index(0).id, "otovice");
    assert_eq!(location_by_index(0).name, "Otovice u Broumova");
    assert_eq!(location_by_index(9).id, "spindleruv");
    assert_eq!(location_by_index(7).lat_x10k, 498209);
}

#[test]
fn location_ids_map_back_to_their_index() {
    for i in 0..8 {
        assert_eq!(index_of_location(location_by_index(i).id), i);
    }
    assert_eq!(index_of_location("brno"), 5);
    assert_eq!(index_of_location("nowhere"), 0);
}

#[test]
fn openrouter_providers_are_recognised() {
    assert!(is_openrouter_provider("openrouter"));
    assert!(is_openrouter_provider("  OpenRouter-Free "));
    assert!(is_openrouter_provider("my-openrouter"));
    assert!(!is_openrouter_provider("open-router"));
    assert!(!is_openrouter_provider(""));
}

#[test]
fn session_dirs_are_slugged() {
    assert_eq!(session_dir_slug("C:\\work\\proj"), "--C--work-proj--");
    assert_eq!(session_dir_slug("/home/u/p"), "---home-u-p--");
}

fn f(name: &str, t: Option<i128>) -> SessionFile {
    SessionFile { name: name.to_string(), mtime_ns: t }
}

#[test]
fn newest_session_log_wins() {
    let files = vec![
        f("a_s1.jsonl", Some(10)),
        f("b_s1.jsonl", Some(30)),
        f("c_s1.txt", Some(99)),
        f("d_s2.jsonl", Some(50)),
        f("e_s1.jsonl", Some(30)),
    ];
    assert_eq!(newest_session_in(&files, "s1"), Some(Some(1)));
    assert_eq!(newest_session_in(&files, ""), Some(Some(3)));
    assert_eq!(newest_session_in(&files, "zz"), Some(None));
    let broken = vec![f("a.jsonl", Some(1)), f("b.jsonl", None)];
    assert_eq!(newest_session_in(&broken, ""), None);
}

#[test]
fn the_kept_location_selects_its_preset() {
    assert_eq!(selected_index(Some("brno")), 5);
    assert_eq!(selected_index(Some("atlantis")), 0);
    assert_eq!(selected_index(None), 0);
}

#[test]
fn a_fresh_cache_of_the_same_place_is_served() {
    assert!(use_cached_forecast(false, 2_000, 1_000, Some("praha"), true, 2));
    assert!(!use_cached_forecast(true, 2_000, 1_000, Some("praha"), true, 2), "forced");
    assert!(!use_cached_forecast(false, 2_800, 1_000, Some("praha"), true, 2), "stale at the limit");
    assert!(!use_cached_forecast(false, 500, 1_000, Some("praha"), true, 2), "clock went back");
    assert!(!use_cached_forecast(false, 2_000, 1_000, Some("brno"), true, 2), "another place");
    assert!(!use_cached_forecast(false, 2_000, 1_000, Some("praha"), false, 2), "no body");
    assert!(fall_back_to_cache(Some("praha"), true, 10), "index counts round the list");
    assert!(!fall_back_to_cache(None, true, 2));
}

#[test]
fn the_newest_time_wins_and_ties_keep_the_first() {
    use_newest_index();
}

fn use_newest_index() {
    let times = [None, Some(5i128), Some(9), Some(9), Some(1)];
    assert_eq!(pi_sidebar::telemetry::session_finder::newest_index(&times), Some(2));
    assert_eq!(pi_sidebar::telemetry::session_finder::newest_index(&[None, None]), None);
}
