use aubo_rs::config::{FilterListConfig, FilterListType};
use aubo_rs::error::FilterError;
use aubo_rs::filters::{
    parse_adguard_format, parse_custom_format, parse_easylist_format, parse_filter_content,
    parse_hosts_format, parse_ublock_format, FilterManager, ParsedRule, RuleType,
};

fn summary(rules: &[ParsedRule]) -> Vec<(RuleType, String)> {
    rules.iter().map(|r| (r.rule_type, r.pattern.clone())).collect()
}

fn list(name: &str, list_type: FilterListType, enabled: bool) -> FilterListConfig {
    FilterListConfig {
        name: name.to_string(),
        url: format!("https://lists.example.com/{}.txt", name),
        list_type,
        enabled,
        update_interval: None,
        priority: 100,
    }
}

#[test]
fn easylist_rules_comments_and_exceptions() {
    let text = "! Title: test\n\n||ads.example.com^\n  @@||good.example.com^  \r\n/banner/*\n";
    let rules = parse_easylist_format(text);
    assert_eq!(
        summary(&rules),
        vec![
            (RuleType::Block, "||ads.example.com^".to_string()),
            (RuleType::Allow, "||good.example.com^".to_string()),
            (RuleType::Block, "/banner/*".to_string()),
        ]
    );
    assert!(rules.iter().all(|r| r.options.is_empty()));
}

#[test]
fn adguard_and_ublock_read_as_easylist() {
    let text = "!c\n@@x\ny##.ad\n";
    assert_eq!(summary(&parse_adguard_format(text)), summary(&parse_easylist_format(text)));
    assert_eq!(summary(&parse_ublock_format(text)), summary(&parse_easylist_format(text)));
    assert_eq!(
        summary(&parse_filter_content(text, FilterListType::AdGuard)),
        vec![(RuleType::Allow, "x".to_string()), (RuleType::Block, "y##.ad".to_string())]
    );
}

#[test]
fn hosts_second_field_is_the_domain() {
    let text = "# hosts\n127.0.0.1 localhost\n0.0.0.0\tads.example.com  # trailing\nmalformed\n\n";
    assert_eq!(
        summary(&parse_hosts_format(text)),
        vec![
            (RuleType::Block, "localhost".to_string()),
            (RuleType::Block, "ads.example.com".to_string()),
        ]
    );
}

#[test]
fn custom_lines_all_block() {
    let text = "# mine\nexample.com\n  tracker  \n\n!not a comment here\n";
    assert_eq!(
        summary(&parse_custom_format(text)),
        vec![
            (RuleType::Block, "example.com".to_string()),
            (RuleType::Block, "tracker".to_string()),
            (RuleType::Block, "!not a comment here".to_string()),
        ]
    );
}

#[test]
fn empty_text_has_no_rules() {
    assert!(parse_easylist_format("").is_empty());
    assert!(parse_hosts_format("\n\n   \n").is_empty());
    assert!(parse_custom_format("#only\n").is_empty());
}

#[test]
fn unknown_list_is_not_found() {
    let mut m = FilterManager::new();
    match m.load_filter_list("missing", "x") {
        Err(FilterError::ListNotFound { name }) => assert_eq!(name, "missing"),
        other => panic!("unexpected {:?}", other),
    }
    match m.update_filter_list("missing", Ok("x".to_string())) {
        Err(FilterError::ListNotFound { name }) => assert_eq!(name, "missing"),
        other => panic!("unexpected {:?}", other),
    }
}

#[test]
fn rules_combine_in_insertion_order() {
    let mut m = FilterManager::new();
    m.add_filter_list(list("first", FilterListType::Custom, true)).unwrap();
    m.add_filter_list(list("second", FilterListType::EasyList, true)).unwrap();
    m.load_filter_list("second", "b1\n@@b2\n").unwrap();
    m.load_filter_list("first", "a1\na2\n").unwrap();
    assert_eq!(
        summary(&m.get_all_rules()),
        vec![
            (RuleType::Block, "a1".to_string()),
            (RuleType::Block, "a2".to_string()),
            (RuleType::Block, "b1".to_string()),
            (RuleType::Allow, "b2".to_string()),
        ]
    );
    let meta = m.get_metadata();
    assert_eq!(meta.len(), 2);
    assert_eq!(meta[0].rule_count, 2);
    assert!(meta[0].last_updated.is_some());
    assert_eq!(meta[1].rule_count, 2);
}

#[test]
fn failed_fetch_keeps_previous_rules() {
    let mut m = FilterManager::new();
    m.add_filter_list(list("l", FilterListType::Custom, true)).unwrap();
    m.update_filter_list("l", Ok("one\ntwo\n".to_string())).unwrap();
    let err = FilterError::DownloadFailed {
        name: "l".to_string(),
        url: "https://lists.example.com/l.txt".to_string(),
        reason: "timeout".to_string(),
    };
    assert_eq!(m.update_filter_list("l", Err(err.clone())), Err(err));
    assert_eq!(summary(&m.get_all_rules()).len(), 2);
    assert_eq!(m.get_metadata()[0].rule_count, 2);
    // a later success replaces the rules as a whole
    m.update_filter_list("l", Ok("three\n".to_string())).unwrap();
    assert_eq!(summary(&m.get_all_rules()), vec![(RuleType::Block, "three".to_string())]);
    assert_eq!(m.get_metadata()[0].rule_count, 1);
}

#[test]
fn disabled_list_is_not_updated() {
    let mut m = FilterManager::new();
    m.add_filter_list(list("off", FilterListType::Custom, false)).unwrap();
    assert_eq!(m.update_filter_list("off", Ok("x\n".to_string())), Ok(()));
    assert!(m.get_all_rules().is_empty());
    assert!(m.get_metadata()[0].last_updated.is_none());
}

#[test]
fn re_adding_a_list_keeps_its_rules() {
    let mut m = FilterManager::new();
    m.add_filter_list(list("l", FilterListType::Custom, true)).unwrap();
    m.load_filter_list("l", "x\n").unwrap();
    m.add_filter_list(list("l", FilterListType::Hosts, false)).unwrap();
    assert_eq!(m.get_metadata().len(), 1);
    assert_eq!(m.get_metadata()[0].list_type, FilterListType::Hosts);
    assert_eq!(m.get_metadata()[0].rule_count, 0);
    assert_eq!(m.get_all_rules().len(), 1);
}
