use steam_scan::manifest::extract_acf_value;
use steam_scan::manifest::parse_manifest;
use steam_scan::scan::finalize_game;
use steam_scan::scan::game_from_manifest;
use steam_scan::scan::install_path;
use steam_scan::scan::is_manifest_file_name;
use steam_scan::scan::matching_names;
use steam_scan::scan::pending_games;
use steam_scan::text::split_str;

const TF2: &str = "\"AppState\"\n{\n\t\"appid\"\t\t\"440\"\n\t\"name\"\t\t\"Team Fortress 2\"\n\t\"installdir\"\t\t\"Team Fortress 2\"\n}\n";

#[test]
fn extracts_each_field() {
    assert_eq!(extract_acf_value(TF2, "appid"), Some("440".to_string()));
    assert_eq!(extract_acf_value(TF2, "name"), Some("Team Fortress 2".to_string()));
    assert_eq!(extract_acf_value(TF2, "installdir"), Some("Team Fortress 2".to_string()));
}

#[test]
fn extract_missing_field_is_none() {
    assert_eq!(extract_acf_value(TF2, "buildid"), None);
    assert_eq!(extract_acf_value("", "appid"), None);
}

#[test]
fn extract_takes_first_matching_line() {
    let content = "\t\"appid\"\t\"440\"\n\t\"appid\"\t\"570\"\n";
    assert_eq!(extract_acf_value(content, "appid"), Some("440".to_string()));
}

#[test]
fn extract_skips_matching_line_with_too_few_quotes() {
    let content = "\"appid\" x\n\"appid\" \"999\"\n";
    assert_eq!(extract_acf_value(content, "appid"), Some("999".to_string()));
}

#[test]
fn extract_reads_unterminated_value_to_line_end() {
    let content = "\"appid\" \"440\n";
    assert_eq!(extract_acf_value(content, "appid"), Some("440".to_string()));
}

#[test]
fn cr_before_newline_is_line_ending_not_content() {
    // The carriage return precedes a newline, so it is part of the line
    // ending and not of the unterminated value.
    assert_eq!(extract_acf_value("\"appid\" \"440\r\n", "appid"), Some("440".to_string()));
}

#[test]
fn cr_at_end_of_text_stays_in_the_value() {
    // No newline follows, so the carriage return is ordinary content of the
    // final line, as it is for `str::lines`.
    assert_eq!(extract_acf_value("\"appid\" \"440\r", "appid"), Some("440\r".to_string()));
}

#[test]
fn extract_handles_crlf_endings() {
    let content = "\t\"appid\"\t\"440\"\r\n\t\"name\"\t\"X\"\r\n";
    assert_eq!(extract_acf_value(content, "appid"), Some("440".to_string()));
    assert_eq!(extract_acf_value(content, "name"), Some("X".to_string()));
}

#[test]
fn extract_allows_empty_value() {
    let content = "\"name\" \"\"\n";
    assert_eq!(extract_acf_value(content, "name"), Some("".to_string()));
}

#[test]
fn extract_needs_quoted_key_after_whitespace_only() {
    let content = "x \"appid\" \"440\"\n";
    assert_eq!(extract_acf_value(content, "appid"), None);
}

#[test]
fn extract_key_must_match_exactly() {
    assert_eq!(extract_acf_value(TF2, "app"), None);
    // The first line matches "AppState" but carries no value, so nothing is found.
    assert_eq!(extract_acf_value(TF2, "AppState"), None);
}

#[test]
fn split_keeps_empty_pieces() {
    let parts = split_str("a,b,,c", ',');
    let views: Vec<&str> = parts.iter().map(|p| p.as_str()).collect();
    assert_eq!(views, vec!["a", "b", "", "c"]);
    let parts = split_str("", ',');
    let views: Vec<&str> = parts.iter().map(|p| p.as_str()).collect();
    assert_eq!(views, vec![""]);
}

#[test]
fn manifest_names_filtered() {
    assert!(is_manifest_file_name("appmanifest_440.acf"));
    assert!(!is_manifest_file_name("appmanifest_440.acf.bak"));
    assert!(!is_manifest_file_name("libraryfolders.vdf"));
    assert!(!is_manifest_file_name("manifest_440.acf"));
    assert!(!is_manifest_file_name(""));
}

#[test]
fn no_matching_names_scans_to_nothing() {
    let names = vec![
        "libraryfolders.vdf".to_string(),
        "readme.txt".to_string(),
        "appmanifest_1.txt".to_string(),
    ];
    let kept = matching_names(&names);
    assert!(kept.is_empty());
    let games = pending_games(&Vec::new(), "C:/Steam");
    assert!(games.is_empty());
}

#[test]
fn matching_names_keeps_order() {
    let names = vec![
        "appmanifest_570.acf".to_string(),
        "x.vdf".to_string(),
        "appmanifest_440.acf".to_string(),
    ];
    let kept = matching_names(&names);
    let views: Vec<&str> = kept.iter().map(|p| p.as_str()).collect();
    assert_eq!(views, vec!["appmanifest_570.acf", "appmanifest_440.acf"]);
}

#[test]
fn tf2_manifest_yields_full_record() {
    let pending = game_from_manifest(TF2, "C:/Program Files (x86)/Steam").expect("a record");
    assert_eq!(pending.app_id, "440");
    assert_eq!(pending.name, "Team Fortress 2");
    assert_eq!(
        pending.install_dir,
        "C:/Program Files (x86)/Steam/steamapps/common/Team Fortress 2"
    );
    let game = finalize_game(pending, false);
    assert_eq!(game.app_id, "440");
    assert_eq!(game.name, "Team Fortress 2");
    assert!(!game.installed);
}

#[test]
fn installed_flag_is_the_observation_passed_in() {
    let pending = game_from_manifest(TF2, "C:/Steam").expect("a record");
    let game = finalize_game(pending, true);
    assert!(game.installed);
}

#[test]
fn manifest_without_appid_is_excluded() {
    let no_appid = "\"AppState\"\n{\n\t\"name\"\t\t\"Ghost\"\n\t\"installdir\"\t\t\"Ghost\"\n}\n";
    assert!(parse_manifest(no_appid).is_none());
    assert!(game_from_manifest(no_appid, "C:/Steam").is_none());
    let contents = vec![no_appid.to_string(), TF2.to_string()];
    let games = pending_games(&contents, "C:/Steam");
    assert_eq!(games.len(), 1);
    assert_eq!(games[0].app_id, "440");
}

#[test]
fn manifest_with_empty_appid_is_excluded() {
    let empty_appid = "\t\"appid\"\t\t\"\"\n\t\"name\"\t\t\"Ghost\"\n";
    assert!(parse_manifest(empty_appid).is_none());
}

#[test]
fn missing_name_and_installdir_read_as_empty() {
    let content = "\t\"appid\"\t\t\"17\"\n";
    let fields = parse_manifest(content).expect("appid present");
    assert_eq!(fields.app_id, "17");
    assert_eq!(fields.name, "");
    assert_eq!(fields.install_subdir, "");
}

#[test]
fn install_path_joins_root_segment_and_subdir() {
    assert_eq!(
        install_path("C:/Steam", "Half-Life"),
        "C:/Steam/steamapps/common/Half-Life"
    );
}
