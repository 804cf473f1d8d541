use domo::engines::SearchEngine;
use domo::orchestrator::{advance, engine_of, exit_status, failure_notice, Event, Stage};

#[test]
fn run_without_engines_goes_straight_to_the_report() {
    let mut stage = Stage::Start;
    let mut seen = vec![stage];
    for event in [Event::Begin, Event::RobotsFetched, Event::StageDone, Event::StageDone, Event::StageDone] {
        stage = advance(stage, event, 0);
        seen.push(stage);
    }
    assert_eq!(
        seen,
        vec![
            Stage::Start,
            Stage::FetchRobotsTxt,
            Stage::ParsePaths,
            Stage::ProbePaths,
            Stage::Report,
            Stage::Success,
        ]
    );
}

#[test]
fn engines_are_asked_in_turn_after_probing() {
    let mut stage = Stage::ProbePaths;
    stage = advance(stage, Event::StageDone, 2);
    assert_eq!(stage, Stage::VerifyEngine(0));
    stage = advance(stage, Event::StageFailed, 2);
    assert_eq!(stage, Stage::VerifyEngine(1));
    stage = advance(stage, Event::StageDone, 2);
    assert_eq!(stage, Stage::Report);
    stage = advance(stage, Event::StageDone, 2);
    assert_eq!(stage, Stage::Success);
    assert_eq!(advance(Stage::VerifyEngine(usize::MAX), Event::StageDone, 2), Stage::Report);
}

#[test]
fn failed_fetch_ends_the_run() {
    assert_eq!(advance(Stage::FetchRobotsTxt, Event::RobotsAbsent, 2), Stage::FailedRobotsFetch);
    assert_eq!(
        advance(Stage::FetchRobotsTxt, Event::RobotsUnreachable, 2),
        Stage::FailedRobotsFetch
    );
    for event in [
        Event::Begin,
        Event::RobotsFetched,
        Event::RobotsAbsent,
        Event::RobotsUnreachable,
        Event::StageDone,
        Event::StageFailed,
    ] {
        assert_eq!(advance(Stage::FailedRobotsFetch, event, 2), Stage::FailedRobotsFetch);
        assert_eq!(advance(Stage::Success, event, 2), Stage::Success);
    }
}

#[test]
fn unexpected_events_change_nothing() {
    assert_eq!(advance(Stage::Start, Event::StageDone, 1), Stage::Start);
    assert_eq!(advance(Stage::FetchRobotsTxt, Event::StageDone, 1), Stage::FetchRobotsTxt);
    assert_eq!(advance(Stage::ParsePaths, Event::Begin, 1), Stage::ParsePaths);
    assert_eq!(advance(Stage::ProbePaths, Event::RobotsFetched, 1), Stage::ProbePaths);
    assert_eq!(advance(Stage::Report, Event::StageFailed, 1), Stage::Report);
}

#[test]
fn exit_status_tells_how_the_run_ended() {
    assert_eq!(exit_status(Stage::Success), Some(0));
    assert_eq!(exit_status(Stage::FailedRobotsFetch), Some(1));
    assert_eq!(exit_status(Stage::Start), None);
    assert_eq!(exit_status(Stage::VerifyEngine(0)), None);
}

#[test]
fn failure_notices_name_the_cause() {
    assert_eq!(
        failure_notice(Event::RobotsAbsent),
        "\x1b[31mNo robots.txt file has been found.\x1b[0m\n"
    );
    assert_eq!(
        failure_notice(Event::RobotsUnreachable),
        "\x1b[31mPlease, type a valid URL. This URL can't be resolved.\x1b[0m\n\x1b[31me.g: domo -u www.example.com -o -sb\x1b[0m\n"
    );
    assert_eq!(failure_notice(Event::StageDone), "");
}

#[test]
fn stage_names_its_engine() {
    let engines = vec![SearchEngine::Bing, SearchEngine::ArchiveOrg];
    assert_eq!(engine_of(Stage::VerifyEngine(0), &engines), Some(SearchEngine::Bing));
    assert_eq!(engine_of(Stage::VerifyEngine(1), &engines), Some(SearchEngine::ArchiveOrg));
    assert_eq!(engine_of(Stage::VerifyEngine(2), &engines), None);
    assert_eq!(engine_of(Stage::Report, &engines), None);
}
