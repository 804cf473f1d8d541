use domo::engines::{EngineConfig, SearchEngine, VerifierReport, VerifierResult, VerifierSummary};

#[test]
fn search_engine_finds_where_the_marker_is_absent() {
    let bing = SearchEngine::Bing.config();
    assert!(!bing.is_found("<html>There are no results for site:example.com/admin</html>"));
    assert!(bing.is_found("<html>1 result: example.com/admin</html>"));
    assert!(bing.is_found(""));
}

#[test]
fn archive_finds_where_the_marker_is_present() {
    let archive = SearchEngine::ArchiveOrg.config();
    assert!(archive.is_found("Saved 12 times; 12 captures between 2019 and 2023"));
    assert!(!archive.is_found("The Wayback Machine has not archived that URL."));
    assert!(!archive.is_found(""));
}

#[test]
fn configurations_hold_the_two_services() {
    let bing = SearchEngine::Bing.config();
    assert_eq!(bing.name, "Bing");
    assert_eq!(bing.query_prefix, "https://www.bing.com/search?q=site:");
    assert_eq!(bing.marker, "no results");
    assert!(!bing.found_when_present);
    let archive = SearchEngine::ArchiveOrg.config();
    assert_eq!(archive.name, "ArchiveOrg");
    assert_eq!(archive.query_prefix, "https://web.archive.org/web/*/");
    assert_eq!(archive.marker, "captures");
    assert!(archive.found_when_present);
}

#[test]
fn query_addresses_follow_the_prefix() {
    assert_eq!(
        SearchEngine::Bing.config().query_url("example.com", "admin"),
        "https://www.bing.com/search?q=site:example.com/admin"
    );
    assert_eq!(
        SearchEngine::ArchiveOrg.config().query_url("example.com", "a/b"),
        "https://web.archive.org/web/*/example.com/a/b"
    );
}

#[test]
fn custom_engine_follows_its_configuration() {
    let engine = EngineConfig {
        name: "Local".to_string(),
        query_prefix: "https://search.test/?q=".to_string(),
        marker: "hit".to_string(),
        found_when_present: true,
    };
    assert!(engine.is_found("one hit"));
    assert!(!engine.is_found("nothing"));
    assert_eq!(engine.query_url("h", "p"), "https://search.test/?q=h/p");
}

#[test]
fn failed_request_is_never_found() {
    let bing = SearchEngine::Bing.config();
    let failed = bing.judge("admin".to_string(), None);
    assert_eq!(failed.path, "admin");
    assert!(!failed.found);
    let found = bing.judge("admin".to_string(), Some("ten hits"));
    assert!(found.found);
    let absent = bing.judge("admin".to_string(), Some("no results"));
    assert!(!absent.found);
}

#[test]
fn found_line_names_the_query() {
    let archive = SearchEngine::ArchiveOrg.config();
    let hit = VerifierResult { path: "admin".to_string(), found: true };
    let miss = VerifierResult { path: "admin".to_string(), found: false };
    assert_eq!(
        archive.found_line("example.com", &hit),
        Some("\x1b[32mhttps://web.archive.org/web/*/example.com/admin found\x1b[0m".to_string())
    );
    assert_eq!(archive.found_line("example.com", &miss), None);
}

#[test]
fn verifier_report_counts_what_it_holds() {
    let archive = SearchEngine::ArchiveOrg.config();
    let mut report = VerifierReport::new();
    assert_eq!(report.summary(), VerifierSummary { checked: 0, found: 0 });
    report.record(archive.judge("a".to_string(), Some("3 captures")));
    report.record(archive.judge("b".to_string(), None));
    report.record(archive.judge("c".to_string(), Some("nothing")));
    report.record(archive.judge("d".to_string(), Some("captures")));
    assert_eq!(report.summary(), VerifierSummary { checked: 4, found: 2 });
    assert_eq!(report.results().len(), 4);
    assert!(report.results()[0].found);
    assert!(!report.results()[1].found);
}

#[test]
fn verifier_summary_line_tells_the_counts() {
    let bing = SearchEngine::Bing.config();
    assert_eq!(
        bing.summary_line(VerifierSummary { checked: 5, found: 0 }),
        "\n\x1b[31m !! No Disallows have been indexed on Bing.com\x1b[0m\n"
    );
    assert_eq!(
        bing.summary_line(VerifierSummary { checked: 5, found: 2 }),
        "\n -- 5 links have been analyzed and 2 of them are available."
    );
    assert_eq!(
        SearchEngine::ArchiveOrg.config().summary_line(VerifierSummary { checked: 0, found: 0 }),
        "\n\x1b[31m !! No Disallows have been indexed on ArchiveOrg.com\x1b[0m\n"
    );
}

#[test]
fn announcements_name_the_service() {
    assert_eq!(
        SearchEngine::Bing.announcement(),
        "\n\nSearching the Disallow entries on Bing.com...\n"
    );
    assert_eq!(
        SearchEngine::ArchiveOrg.announcement(),
        "\n\nSearching the Disallow entries on web.archive.org...\n"
    );
}
