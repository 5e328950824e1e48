use steam_scan::identity::find_steam_id;
use steam_scan::identity::locate_identity;
use steam_scan::launch::launch_uri;
use steam_scan::text::first_non_space;
use steam_scan::text::str_ends_with;
use steam_scan::text::str_starts_with;

const LOGIN_CACHE: &str = "\"users\"\n{\n\t\"76561198000000001\"\n\t{\n\t\t\"AccountName\"\t\t\"someone\"\n\t}\n}\n";

#[test]
fn finds_id_in_login_cache_text() {
    assert_eq!(
        find_steam_id(LOGIN_CACHE),
        Some("76561198000000001".to_string())
    );
}

#[test]
fn no_seventeen_digit_run_is_not_found() {
    assert_eq!(find_steam_id("no digits at all"), None);
    assert_eq!(find_steam_id("1234567890123456"), None);
    assert_eq!(find_steam_id("12345678 901234567 8"), None);
    assert_eq!(find_steam_id(""), None);
}

#[test]
fn longer_run_yields_its_first_seventeen_digits() {
    assert_eq!(
        find_steam_id("x123456789012345678y"),
        Some("12345678901234567".to_string())
    );
}

#[test]
fn leftmost_run_wins() {
    assert_eq!(
        find_steam_id("a11111111111111111 b22222222222222222"),
        Some("11111111111111111".to_string())
    );
}

#[test]
fn exact_seventeen_digits_match() {
    assert_eq!(
        find_steam_id("76561198000000001"),
        Some("76561198000000001".to_string())
    );
}

#[test]
fn absent_first_candidate_does_not_error() {
    let candidates = vec![None, Some(LOGIN_CACHE.to_string())];
    assert_eq!(
        locate_identity(&candidates),
        Ok("76561198000000001".to_string())
    );
}

#[test]
fn first_candidate_with_match_wins() {
    let candidates = vec![
        Some("no identity here".to_string()),
        Some("id 11111111111111111".to_string()),
        Some("id 22222222222222222".to_string()),
    ];
    assert_eq!(
        locate_identity(&candidates),
        Ok("11111111111111111".to_string())
    );
}

#[test]
fn no_candidate_yields_not_found() {
    let empty: Vec<Option<String>> = Vec::new();
    assert_eq!(locate_identity(&empty), Err("Steam ID not found".to_string()));
    let candidates = vec![None, Some("sixteen 1234567890123456".to_string())];
    assert_eq!(
        locate_identity(&candidates),
        Err("Steam ID not found".to_string())
    );
}

#[test]
fn launch_uri_embeds_identifier() {
    let uri = launch_uri("440");
    assert_eq!(uri, "steam://rungameid/440");
    assert!(uri.contains("steam://rungameid/440"));
}

#[test]
fn whitespace_trimming_stops_at_first_content() {
    assert_eq!(first_non_space(" \t\"appid\""), 2);
    assert_eq!(first_non_space("x y"), 0);
    assert_eq!(first_non_space(" \t "), 3);
}

#[test]
fn prefix_and_suffix_tests_match_std() {
    assert!(str_starts_with("appmanifest_440.acf", "appmanifest_"));
    assert!(!str_starts_with("app", "appmanifest_"));
    assert!(str_ends_with("appmanifest_440.acf", ".acf"));
    assert!(!str_ends_with("acf", ".acf"));
    assert!(str_starts_with("anything", ""));
    assert!(str_ends_with("anything", ""));
}
