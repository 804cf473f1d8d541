//! The order of a run: the policy file is fetched and read before any path
//! is probed, and probing ends before any outside service is asked.

use crate::engines::SearchEngine;
use vstd::prelude::*;
use vstd::string::*;

verus! {

/// Where a run stands.
#[derive(Clone, Copy, Debug, PartialEq, Eq)]
pub enum Stage {
    Start,
    FetchRobotsTxt,
    ParsePaths,
    ProbePaths,
    /// The service with this index among the enabled ones is being asked.
    VerifyEngine(usize),
    Report,
    /// The run ended in order.
    Success,
    /// The policy file could not be had; nothing else was done.
    FailedRobotsFetch,
}

/// What the caller reports back after doing the work of a stage.
#[derive(Clone, Copy, Debug, PartialEq, Eq)]
pub enum Event {
    /// The run is to begin.
    Begin,
    /// The policy file arrived.
    RobotsFetched,
    /// The host answered that it has no policy file.
    RobotsAbsent,
    /// The host could not be reached.
    RobotsUnreachable,
    /// The work of the stage is done.
    StageDone,
    /// The work of the stage failed.
    StageFailed,
}

impl Stage {
    /// No event leads away from this stage.
    pub open spec fn terminal(&self) -> bool {
        *self is Success || *self is FailedRobotsFetch
    }
}

/// The stage that follows the last step of probing or of asking a service:
/// the next enabled service, or the report when none is left.
pub open spec fn verify_or_report(index: int, engines: nat) -> Stage {
    if 0 <= index < engines {
        Stage::VerifyEngine(index as usize)
    } else {
        Stage::Report
    }
}

/// The stage that `event` leads to from `stage`, with `engines` services
/// enabled. An event that a stage does not expect leaves it where it is.
/// A missing policy file ends the run like an unreachable host; a service
/// that fails does not keep the next one from being asked.
pub open spec fn next_stage(stage: Stage, event: Event, engines: nat) -> Stage {
    match (stage, event) {
        (Stage::Start, Event::Begin) => Stage::FetchRobotsTxt,
        (Stage::FetchRobotsTxt, Event::RobotsFetched) => Stage::ParsePaths,
        (Stage::FetchRobotsTxt, Event::RobotsAbsent) => Stage::FailedRobotsFetch,
        (Stage::FetchRobotsTxt, Event::RobotsUnreachable) => Stage::FailedRobotsFetch,
        (Stage::ParsePaths, Event::StageDone) => Stage::ProbePaths,
        (Stage::ProbePaths, Event::StageDone) => verify_or_report(0, engines),
        (Stage::VerifyEngine(i), Event::StageDone) => verify_or_report(i + 1, engines),
        (Stage::VerifyEngine(i), Event::StageFailed) => verify_or_report(i + 1, engines),
        (Stage::Report, Event::StageDone) => Stage::Success,
        _ => stage,
    }
}

/// The stage that `event` leads to from `stage`, with `engines` services
/// enabled.
pub fn advance(stage: Stage, event: Event, engines: usize) -> (next: Stage)
    ensures
        next == next_stage(stage, event, engines as nat),
{
    match (stage, event) {
        (Stage::Start, Event::Begin) => Stage::FetchRobotsTxt,
        (Stage::FetchRobotsTxt, Event::RobotsFetched) => Stage::ParsePaths,
        (Stage::FetchRobotsTxt, Event::RobotsAbsent) => Stage::FailedRobotsFetch,
        (Stage::FetchRobotsTxt, Event::RobotsUnreachable) => Stage::FailedRobotsFetch,
        (Stage::ParsePaths, Event::StageDone) => Stage::ProbePaths,
        (Stage::ProbePaths, Event::StageDone) => {
            if engines > 0 {
                Stage::VerifyEngine(0)
            } else {
                Stage::Report
            }
        },
        (Stage::VerifyEngine(i), Event::StageDone) | (Stage::VerifyEngine(i), Event::StageFailed) => {
            if i < engines && i + 1 < engines {
                Stage::VerifyEngine(i + 1)
            } else {
                Stage::Report
            }
        },
        (Stage::Report, Event::StageDone) => Stage::Success,
        _ => stage,
    }
}

/// Once a run has ended, in order or not, nothing moves it again; and a run
/// whose policy file could not be had ends at once, whichever way the fetch
/// failed.
pub proof fn lemma_terminal_stages_stay(stage: Stage, event: Event, engines: nat)
    ensures
        stage.terminal() ==> next_stage(stage, event, engines) == stage,
        next_stage(Stage::FetchRobotsTxt, Event::RobotsAbsent, engines).terminal(),
        next_stage(Stage::FetchRobotsTxt, Event::RobotsUnreachable, engines).terminal(),
{
}

/// What is printed when the policy file could not be had.
pub open spec fn failure_notice_text(event: Event) -> Seq<char> {
    match event {
        Event::RobotsAbsent => "\x1b[31mNo robots.txt file has been found.\x1b[0m\n"@,
        Event::RobotsUnreachable =>
            "\x1b[31mPlease, type a valid URL. This URL can't be resolved.\x1b[0m\n\x1b[31me.g: domo -u www.example.com -o -sb\x1b[0m\n"@,
        _ => Seq::empty(),
    }
}

/// What is printed when the policy file could not be had; nothing for any
/// other event.
pub fn failure_notice(event: Event) -> (notice: String)
    ensures
        notice@ == failure_notice_text(event),
{
    match event {
        Event::RobotsAbsent => "\x1b[31mNo robots.txt file has been found.\x1b[0m\n".to_owned(),
        Event::RobotsUnreachable =>
            "\x1b[31mPlease, type a valid URL. This URL can't be resolved.\x1b[0m\n\x1b[31me.g: domo -u www.example.com -o -sb\x1b[0m\n".to_owned(),
        _ => String::new(),
    }
}

/// The status with which the process ends in a terminal stage: zero after a
/// run that ended in order, one after a failed fetch.
pub fn exit_status(stage: Stage) -> (status: Option<u8>)
    ensures
        status == match stage {
            Stage::Success => Some(0u8),
            Stage::FailedRobotsFetch => Some(1u8),
            _ => None,
        },
{
    match stage {
        Stage::Success => Some(0),
        Stage::FailedRobotsFetch => Some(1),
        _ => None,
    }
}

/// The service that is asked in `stage`, if the stage asks one.
pub fn engine_of(stage: Stage, engines: &Vec<SearchEngine>) -> (engine: Option<SearchEngine>)
    ensures
        engine == match stage {
            Stage::VerifyEngine(i) => if i < engines@.len() {
                Some(engines@[i as int])
            } else {
                None
            },
            _ => None,
        },
{
    match stage {
        Stage::VerifyEngine(i) => if i < engines.len() {
            Some(engines[i])
        } else {
            None
        },
        _ => None,
    }
}

} // verus!
