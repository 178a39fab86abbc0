use wg_man::control::{activate, deactivate, down_command, up_command, CommandStatus};
use wg_man::enumerate::{collect_candidates, file_stem, Entry};
use wg_man::error::Error;
use wg_man::matching::{get_matches, list_output};
use wg_man::ok_report;
use wg_man::select::{choose_config, select};
use wg_man::store::StateStore;

fn entry(name: &str, is_file: bool) -> Entry {
    Entry { name: name.to_string(), is_file }
}

fn names(v: &[&str]) -> Vec<String> {
    v.iter().map(|s| s.to_string()).collect()
}

#[test]
fn store_round_trip() {
    let mut store = StateStore::new();
    assert_eq!(store.read(), None);
    store.write("office".to_string());
    assert_eq!(store.read(), Some("office".to_string()));
    store.write("home".to_string());
    assert_eq!(store.read(), Some("home".to_string()));
    store.clear();
    assert_eq!(store.read(), None);
}

#[test]
fn store_restore_keeps_record() {
    let store = StateStore::restore(Some("cafe".to_string()));
    assert_eq!(store.read(), Some("cafe".to_string()));
    let empty = StateStore::restore(None);
    assert_eq!(empty.read(), None);
}

#[test]
fn file_stem_strips_one_extension() {
    assert_eq!(file_stem("office.conf"), "office");
    assert_eq!(file_stem("cafe"), "cafe");
    assert_eq!(file_stem("a.b.c"), "a.b");
    assert_eq!(file_stem(".hidden"), ".hidden");
    assert_eq!(file_stem("trailing."), "trailing");
}

#[test]
fn collect_candidates_applies_both_rules() {
    let entries = vec![
        entry("office.conf", true),
        entry("cafe", true),
        entry("subdir", false),
        entry("double.conf.conf", false),
        entry("other.dir", false),
    ];
    let candidates = collect_candidates(&entries);
    assert_eq!(candidates, names(&["office", "cafe", "double.conf"]));
}

#[test]
fn collect_candidates_never_yields_a_name_twice() {
    let entries = vec![entry("a.", true), entry("a.b", true)];
    assert_eq!(collect_candidates(&entries), names(&["a"]));
    let entries = vec![entry("a.conf", true), entry("a.txt", true), entry("b.conf", true)];
    assert_eq!(collect_candidates(&entries), names(&["a", "b"]));
}

#[test]
fn match_keeps_exactly_the_accepted_names() {
    let entries = vec![entry("office.conf", true), entry("home.conf", true), entry("cafe", true)];
    let candidates = collect_candidates(&entries);
    assert_eq!(candidates, names(&["office", "home", "cafe"]));
    let pattern = regex::Regex::new("^ho").unwrap();
    let matches = get_matches(&candidates, &pattern);
    assert_eq!(matches, names(&["home"]));
    assert_eq!(list_output(&matches), "home\n");
}

#[test]
fn match_all_pattern_keeps_everything() {
    let candidates = names(&["a", "b"]);
    let pattern = regex::Regex::new("^").unwrap();
    let matches = get_matches(&candidates, &pattern);
    assert_eq!(matches, candidates);
}

#[test]
fn match_is_search_anywhere() {
    let candidates = names(&["office", "home"]);
    let pattern = regex::Regex::new("ffi").unwrap();
    let matches = get_matches(&candidates, &pattern);
    assert_eq!(matches, names(&["office"]));
}

#[test]
fn select_empty_gives_nothing() {
    let matches: Vec<String> = Vec::new();
    assert_eq!(select(&matches, &None), None);
    assert_eq!(select(&matches, &Some("a".to_string())), None);
}

#[test]
fn select_single_match_waives_anti_repeat() {
    let matches = names(&["a"]);
    assert_eq!(select(&matches, &None), Some("a".to_string()));
    assert_eq!(select(&matches, &Some("a".to_string())), Some("a".to_string()));
    assert_eq!(select(&matches, &Some("b".to_string())), Some("a".to_string()));
}

#[test]
fn select_never_repeats_previous() {
    let matches = names(&["a", "b", "c"]);
    let previous = Some("b".to_string());
    for _ in 0..500 {
        let chosen = select(&matches, &previous).unwrap();
        assert_ne!(chosen, "b");
        assert!(matches.contains(&chosen));
    }
}

#[test]
fn select_returns_a_member() {
    let matches = names(&["a", "b", "c"]);
    for _ in 0..100 {
        let chosen = select(&matches, &None).unwrap();
        assert!(matches.contains(&chosen));
    }
}

#[test]
fn choose_config_reports_no_match_with_pattern() {
    let matches: Vec<String> = Vec::new();
    let pattern = regex::Regex::new("^zz").unwrap();
    match choose_config(&matches, &None, pattern) {
        Err(Error::NoMatch { regex }) => assert_eq!(regex.as_str(), "^zz"),
        other => panic!("expected a no-match error, got {other:?}"),
    }
}

#[test]
fn command_lines_are_exact() {
    assert_eq!(up_command("home"), "wg-quick up home");
    assert_eq!(down_command("home"), "wg-quick down home");
}

#[test]
fn activate_success_records_the_name() {
    let mut store = StateStore::new();
    let status = CommandStatus { success: true, code: Some(0) };
    assert!(activate(&mut store, "office", &status).is_ok());
    assert_eq!(store.read(), Some("office".to_string()));
}

#[test]
fn activate_failure_leaves_state_unchanged() {
    let mut store = StateStore::restore(Some("office".to_string()));
    let status = CommandStatus { success: false, code: Some(3) };
    match activate(&mut store, "home", &status) {
        Err(Error::WgQuick { code }) => assert_eq!(code, Some(3)),
        other => panic!("expected a tool failure, got {other:?}"),
    }
    assert_eq!(store.read(), Some("office".to_string()));

    let mut empty = StateStore::new();
    let status = CommandStatus { success: false, code: None };
    match activate(&mut empty, "home", &status) {
        Err(Error::WgQuick { code }) => assert_eq!(code, None),
        other => panic!("expected a tool failure, got {other:?}"),
    }
    assert_eq!(empty.read(), None);
}

#[test]
fn deactivate_with_nothing_active_is_a_noop() {
    let mut store = StateStore::new();
    let status = CommandStatus { success: false, code: Some(1) };
    assert!(matches!(deactivate(&mut store, &status), Ok(None)));
    assert_eq!(store.read(), None);
}

#[test]
fn deactivate_failure_keeps_the_record() {
    let mut store = StateStore::restore(Some("office".to_string()));
    let status = CommandStatus { success: false, code: Some(2) };
    match deactivate(&mut store, &status) {
        Err(Error::WgQuick { code }) => assert_eq!(code, Some(2)),
        other => panic!("expected a tool failure, got {other:?}"),
    }
    assert_eq!(store.read(), Some("office".to_string()));
}

#[test]
fn simulated_down_clears_the_record() {
    let mut store = StateStore::restore(Some("a".to_string()));
    let target = store.read().unwrap();
    assert_eq!(down_command(&target), "wg-quick down a");
    let outcome = deactivate(&mut store, &CommandStatus::simulated());
    assert_eq!(outcome.unwrap(), Some("a".to_string()));
    assert_eq!(store.read(), None);
}

#[test]
fn simulated_up_activates_one_of_the_candidates() {
    let mut store = StateStore::new();
    let entries = vec![entry("a", true), entry("b", true)];
    let candidates = collect_candidates(&entries);
    let pattern = regex::Regex::new("^").unwrap();
    let matches = get_matches(&candidates, &pattern);
    let previous = match deactivate(&mut store, &CommandStatus::simulated()).unwrap() {
        prev @ None => prev,
        other => panic!("nothing was active, got {other:?}"),
    };
    let conf = choose_config(&matches, &previous, pattern).unwrap();
    let line = up_command(&conf);
    assert!(line == "wg-quick up a" || line == "wg-quick up b");
    activate(&mut store, &conf, &CommandStatus::simulated()).unwrap();
    assert_eq!(store.read(), Some(conf));
}

#[test]
fn single_candidate_is_reactivated() {
    let mut store = StateStore::restore(Some("a".to_string()));
    let entries = vec![entry("a", true)];
    let candidates = collect_candidates(&entries);
    let pattern = regex::Regex::new("^").unwrap();
    let matches = get_matches(&candidates, &pattern);
    let previous = deactivate(&mut store, &CommandStatus::simulated()).unwrap();
    assert_eq!(previous, Some("a".to_string()));
    assert_eq!(store.read(), None);
    let conf = choose_config(&matches, &previous, pattern).unwrap();
    assert_eq!(conf, "a");
    activate(&mut store, &conf, &CommandStatus::simulated()).unwrap();
    assert_eq!(store.read(), Some("a".to_string()));
}

#[test]
fn io_errors_convert() {
    let err = std::io::Error::new(std::io::ErrorKind::PermissionDenied, "state file");
    match Error::from(err) {
        Error::Io { err } => assert_eq!(err.kind(), std::io::ErrorKind::PermissionDenied),
        other => panic!("expected an input/output error, got {other:?}"),
    }
}

#[test]
fn ok_report_keeps_successes_and_drops_failures() {
    let good: Result<u32, &str> = Ok(7);
    assert_eq!(ok_report(good, "entry"), Some(7));
    let bad: Result<u32, &str> = Err("unreadable");
    assert_eq!(ok_report(bad, "entry"), None);
}
