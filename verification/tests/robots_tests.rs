use domo::paths::PathSet;
use domo::robots::{
    contains_wildcard, directive_value_of, expand_wildcards, insert_matches, parse,
    parse_with_diagnostics,
};

fn sorted(paths: &PathSet) -> Vec<String> {
    let mut listing: Vec<String> = paths.paths().clone();
    listing.sort();
    listing
}

#[test]
fn parse_reads_literal_directives() {
    let paths = parse("Disallow: /admin\nDisallow: /secret\n", "example.com");
    assert_eq!(sorted(&paths), vec!["admin".to_string(), "secret".to_string()]);
    assert_eq!(paths.len(), 2);
}

#[test]
fn parse_keeps_each_path_once() {
    let paths = parse(
        "Disallow: /admin\nDisallow: /admin\r\nDisallow: //admin\nDisallow: /other\nDisallow: /admin",
        "example.com",
    );
    assert_eq!(sorted(&paths), vec!["admin".to_string(), "other".to_string()]);
}

#[test]
fn parse_drops_a_directive_without_value() {
    let paths = parse("Disallow: /\n", "example.com");
    assert!(paths.is_empty());
    assert_eq!(paths.len(), 0);
    assert!(!paths.contains(""));
    let more = parse("Disallow: /\r\nDisallow: ////\r\r\nDisallow:\nDisallow: /x\n", "example.com");
    assert_eq!(sorted(&more), vec!["x".to_string()]);
}

#[test]
fn parse_strips_slashes_and_carriage_returns() {
    let paths = parse("Disallow: ///a/b/\r\nDisallow: /c\r\r", "example.com");
    assert_eq!(sorted(&paths), vec!["a/b/".to_string(), "c".to_string()]);
    for p in paths.paths() {
        assert!(!p.starts_with('/'));
        assert!(!p.ends_with('\r'));
        assert!(!p.is_empty());
    }
}

#[test]
fn parse_ignores_lines_of_another_shape() {
    let text = "User-agent: *\nAllow: /public\n Disallow: /indented\ndisallow: /lower\nDisallow:/tight\nSitemap: /map.xml\n\nDisallow: /kept\n";
    let paths = parse(text, "example.com");
    assert_eq!(sorted(&paths), vec!["kept".to_string()]);
}

#[test]
fn parse_takes_the_first_separator_of_a_line() {
    let paths = parse("Disallow: first: /second: /third\nDisallowed-too: /x\n", "example.com");
    assert_eq!(sorted(&paths), vec!["second: /third".to_string(), "x".to_string()]);
}

#[test]
fn parse_of_empty_text_is_empty() {
    assert!(parse("", "example.com").is_empty());
    assert!(parse("\n\n\r\n", "example.com").is_empty());
}

#[test]
fn wildcard_without_match_contributes_nothing() {
    let policy = parse_with_diagnostics("Disallow: /foo*bar", "example.com");
    assert!(policy.paths.is_empty());
    assert!(policy.skipped.is_empty());
}

#[test]
fn wildcard_expands_to_parts_of_the_host() {
    let all = parse("Disallow: /*\n", "example.com");
    assert_eq!(sorted(&all), vec!["example.com".to_string()]);
    let part = parse("Disallow: /exa*le\n", "example.com");
    assert_eq!(sorted(&part), vec!["example".to_string()]);
    let tail = parse("Disallow: /a*\r\n", "example.com");
    assert_eq!(sorted(&tail), vec!["ample.com".to_string()]);
    for p in tail.paths() {
        assert!("example.com".contains(p.as_str()));
    }
}

#[test]
fn wildcard_yields_every_match() {
    let paths = parse("Disallow: /[a-z]*?[.]\nDisallow: /plain\n", "www.example.com");
    assert_eq!(
        sorted(&paths),
        vec!["example.".to_string(), "plain".to_string(), "www.".to_string()]
    );
}

#[test]
fn wildcard_empty_matches_are_dropped() {
    let paths = parse("Disallow: /*?\n", "example.com");
    assert!(paths.is_empty());
}

#[test]
fn wildcard_that_does_not_compile_is_skipped() {
    let policy = parse_with_diagnostics(
        "Disallow: /before\nDisallow: /(*\nDisallow: /after\nDisallow: /[*\n",
        "example.com",
    );
    assert_eq!(sorted(&policy.paths), vec!["after".to_string(), "before".to_string()]);
    assert_eq!(policy.skipped.len(), 2);
    assert_eq!(policy.skipped[0].pattern, "(.*");
    assert_eq!(policy.skipped[1].pattern, "[.*");
    assert_eq!(policy.skipped[0].reason, regex::Regex::new("(.*").unwrap_err().to_string());
    assert_eq!(policy.skipped[1].reason, regex::Regex::new("[.*").unwrap_err().to_string());
    assert!(!policy.skipped[0].reason.is_empty());
    assert_eq!(
        policy.skipped[0].notice(),
        format!("Error compiling regex for pattern (.*: {}", policy.skipped[0].reason)
    );
}

#[test]
fn wildcard_match_is_taken_as_the_host_has_it() {
    let paths = parse("Disallow: /[/]*b\n", "a/b");
    assert_eq!(sorted(&paths), vec!["/b".to_string()]);
}

#[test]
fn directive_value_is_what_follows_the_separator() {
    assert_eq!(directive_value_of("Disallow: /admin"), Some("admin".to_string()));
    assert_eq!(directive_value_of("Disallow: //a//\r"), Some("a//".to_string()));
    assert_eq!(directive_value_of("Disallow: /"), Some(String::new()));
    assert_eq!(directive_value_of("Disallow: /\r/"), Some("\r/".to_string()));
    assert_eq!(directive_value_of("Disallow: admin"), None);
    assert_eq!(directive_value_of("Allow: /admin"), None);
    assert_eq!(directive_value_of("Disallo"), None);
    assert_eq!(directive_value_of(""), None);
    assert_eq!(directive_value_of("Disallow: /caf\u{e9}/\u{1f600}"), Some("caf\u{e9}/\u{1f600}".to_string()));
}

#[test]
fn wildcards_expand_to_any_text() {
    assert_eq!(expand_wildcards("foo*bar"), "foo.*bar");
    assert_eq!(expand_wildcards("*"), ".*");
    assert_eq!(expand_wildcards("a**b*"), "a.*.*b.*");
    assert_eq!(expand_wildcards("plain"), "plain");
    assert_eq!(expand_wildcards(""), "");
    assert!(contains_wildcard("a*b"));
    assert!(!contains_wildcard("ab"));
    assert!(!contains_wildcard(""));
}

#[test]
fn insert_matches_keeps_the_non_empty_ones() {
    let mut paths = PathSet::new();
    paths.insert("old".to_string());
    let found = vec![
        "a".to_string(),
        String::new(),
        "b".to_string(),
        "a".to_string(),
        "old".to_string(),
    ];
    insert_matches(&mut paths, &found);
    assert_eq!(sorted(&paths), vec!["a".to_string(), "b".to_string(), "old".to_string()]);
}
