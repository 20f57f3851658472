use aerie::config::{is_zero, make_tool_path, tool_glob, SeedConfig, ToolSelector, ToolSettings, ToolSpec};

#[test]
fn tool_path_joins_with_slash() {
    assert_eq!(make_tool_path("mcp", "search"), "mcp/search");
    assert_eq!(make_tool_path("", ""), "/");
}

#[test]
fn zero_check() {
    assert!(is_zero(&0));
    assert!(!is_zero(&7));
}

#[test]
fn seed_grows_by_increment() {
    let seed = SeedConfig::new(10, 3);
    assert_eq!(seed.next_seed(), 10);
    assert_eq!(seed.next_seed(), 13);
    assert_eq!(seed.current(), 16);
}

#[test]
fn seed_wraps_on_overflow() {
    let seed = SeedConfig::new(u64::MAX, 2);
    assert_eq!(seed.next_seed(), u64::MAX);
    assert_eq!(seed.current(), 1);
}

#[test]
fn glob_compiles_and_refuses() {
    assert!(tool_glob("mcp/*".to_string()).is_ok());
    assert!(tool_glob("mcp/[".to_string()).is_err());
}

#[test]
fn empty_selects_nothing() {
    let s = ToolSelector::empty();
    assert!(s.is_empty());
    assert!(!s.is_all());
    assert!(!s.apply("mcp", "search"));
    assert!(s.patterns().is_empty());
}

#[test]
fn all_selects_everything() {
    let s = ToolSelector::all();
    assert!(s.is_all());
    assert!(!s.is_empty());
    assert_eq!(s.patterns(), vec!["*/*".to_string()]);
    assert!(s.apply("mcp", "search"));
    assert!(s.apply("other", "tool"));
    assert!(ToolSelector::default() == s);
}

#[test]
fn include_selects_one_tool() {
    let s = ToolSelector::empty().with_include("mcp", "search");
    assert!(s.apply("mcp", "search"));
    assert!(!s.apply("mcp", "fetch"));
    assert!(!s.apply("web", "search"));
    assert_eq!(s.patterns(), vec!["mcp/search".to_string()]);
}

#[test]
fn adding_twice_holds_once() {
    let mut s = ToolSelector::empty();
    s.add("mcp/*");
    s.add("mcp/*");
    assert_eq!(s.patterns().len(), 1);
    assert!(s.apply("mcp", "anything"));
    s.remove("mcp/*");
    assert!(s.is_empty());
}

#[test]
fn removing_absent_pattern_changes_nothing() {
    let mut s = ToolSelector::all();
    s.remove("mcp/*");
    assert!(s.is_all());
    assert_eq!(s.patterns().len(), 1);
}

#[test]
fn exclude_drops_matching_patterns() {
    let mut s = ToolSelector::all();
    s.add("web/fetch");
    s.exclude("mcp", "search");
    assert_eq!(s.patterns(), vec!["web/fetch".to_string()]);
    assert!(!s.apply("mcp", "search"));
    assert!(s.apply("web", "fetch"));
}

#[test]
fn exclude_drops_broken_patterns() {
    let mut s = ToolSelector::empty();
    s.add("[");
    s.add("web/fetch");
    s.exclude("mcp", "search");
    assert_eq!(s.patterns(), vec!["web/fetch".to_string()]);
}

#[test]
fn toggle_twice_restores_selection() {
    let mut s = ToolSelector::empty();
    s.toggle("mcp", "search");
    assert!(s.apply("mcp", "search"));
    assert_eq!(s.patterns(), vec!["mcp/search".to_string()]);
    s.toggle("mcp", "search");
    assert!(!s.apply("mcp", "search"));
    assert!(s.is_empty());
}

#[test]
fn toggle_off_under_wildcard() {
    let mut s = ToolSelector::all();
    s.toggle("mcp", "search");
    assert!(s.is_empty());
}

#[test]
fn within_is_subset() {
    let small = ToolSelector::empty().with_include("a", "b");
    let big = ToolSelector::all().with_include("a", "b");
    assert!(small.within(&big));
    assert!(!big.within(&small));
    assert!(ToolSelector::empty().within(&small));
    assert!(small == small.clone());
    assert!(!(small == big));
}

#[test]
fn enabled_providers_keep_order() {
    let on = |name: &str| {
        (
            name.to_string(),
            ToolSpec::HTTP {
                enabled: true,
                preface: Some(format!("about {name}")),
                uri: format!("http://{name}"),
                auth_var: None,
            },
        )
    };
    let mut off = ToolSpec::default();
    if let ToolSpec::Stdio { command, .. } = &mut off {
        *command = "tool".to_string();
    }
    let settings = ToolSettings {
        provider: vec![on("a"), ("b".to_string(), off), on("c")],
        toolset: vec![],
    };
    let names: Vec<String> = settings.enabled_providers().into_iter().map(|p| p.0).collect();
    assert_eq!(names, vec!["a".to_string(), "c".to_string()]);
    assert_eq!(settings.provider[0].1.preface(), Some("about a"));
    assert!(settings.provider[0].1.enabled());
    assert!(!settings.provider[1].1.enabled());
    assert_eq!(settings.provider[1].1.preface(), None);
    assert!(ToolSettings::default().provider.is_empty());
}

#[test]
fn toggle_flips_selection_of_a_plain_tool() {
    let mut sel = ToolSelector::empty();
    assert!(!sel.apply("mcp", "search"));
    sel.toggle("mcp", "search");
    assert!(sel.apply("mcp", "search"));
    sel.toggle("mcp", "search");
    assert!(!sel.apply("mcp", "search"));
}
