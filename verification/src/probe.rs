//! Probing the disallowed paths: where a request goes, how an answer is
//! classified, and how the answers of one run add up.

use crate::paths::texts;
use crate::status::{canonical_reason, reason_phrase};
use crate::text::{decimal, decimal_string};
use vstd::prelude::*;
use vstd::string::*;

verus! {

/// The status that counts as "available".
pub const STATUS_OK: u16 = 200;

/// Where the policy file of `host` is fetched from.
pub open spec fn robots_url_text(host: Seq<char>) -> Seq<char> {
    "http://"@ + host + "/robots.txt"@
}

/// Where `path` on `host` is probed.
pub open spec fn probe_url_text(host: Seq<char>, path: Seq<char>) -> Seq<char> {
    "http://"@ + host + "/"@ + path
}

/// The address of the policy file of `host`.
pub fn robots_url(host: &str) -> (url: String)
    ensures
        url@ == robots_url_text(host@),
{
    let mut url = "http://".to_owned();
    url.append(host);
    url.append("/robots.txt");
    url
}

/// The address at which `path` on `host` is probed.
pub fn probe_url(host: &str, path: &str) -> (url: String)
    ensures
        url@ == probe_url_text(host@, path@),
{
    let mut url = "http://".to_owned();
    url.append(host);
    url.append("/");
    url.append(path);
    url
}

/// What probing one path gave: the status of the answer, if there was one,
/// and the phrase that goes with it.
#[derive(Debug)]
pub struct ProbeOutcome {
    pub path: String,
    /// `None` where the request failed before any answer arrived.
    pub status: Option<u16>,
    /// Empty where there is no status, or no phrase for it.
    pub reason: String,
}

/// The phrase recorded for an answer, given what the HTTP library knows.
pub open spec fn phrase_or_empty(known: Option<Seq<char>>) -> Seq<char> {
    match known {
        Some(phrase) => phrase,
        None => Seq::empty(),
    }
}

impl ProbeOutcome {
    /// An answer arrived.
    pub open spec fn answered(&self) -> bool {
        self.status is Some
    }

    /// The answer says that the path can be visited.
    pub open spec fn available(&self) -> bool {
        self.status == Some(STATUS_OK)
    }

    /// The outcome of a request that was answered with `status`, with the
    /// phrase `known` for it.
    pub fn with_reason(path: String, status: u16, known: Option<String>) -> (outcome: ProbeOutcome)
        ensures
            outcome.path == path,
            outcome.status == Some(status),
            outcome.reason@ == phrase_or_empty(
                match known {
                    Some(phrase) => Some(phrase@),
                    None => None,
                },
            ),
    {
        let reason = match known {
            Some(phrase) => phrase,
            None => String::new(),
        };
        ProbeOutcome { path, status: Some(status), reason }
    }

    /// The outcome of a request that was answered with `status`.
    pub fn from_status(path: String, status: u16) -> (outcome: ProbeOutcome)
        ensures
            outcome.path == path,
            outcome.status == Some(status),
            outcome.reason@ == phrase_or_empty(reason_phrase(status)),
    {
        let known = canonical_reason(status);
        ProbeOutcome::with_reason(path, status, known)
    }

    /// The outcome of a request that failed before any answer arrived.
    pub fn failed(path: String) -> (outcome: ProbeOutcome)
        ensures
            outcome.path == path,
            outcome.status is None,
            outcome.reason@ == Seq::<char>::empty(),
    {
        ProbeOutcome { path, status: None, reason: String::new() }
    }

    /// Whether the answer says that the path can be visited.
    pub fn is_available(&self) -> (yes: bool)
        ensures
            yes == self.available(),
    {
        match self.status {
            Some(code) => code == STATUS_OK,
            None => false,
        }
    }

    /// Whether the outcome gets a line on the console.
    pub open spec fn shown(&self, only_successful: bool) -> bool {
        self.available() || (self.answered() && !only_successful)
    }

    /// The console line of an answered outcome: green where the path is
    /// available, red where it is not.
    pub open spec fn line_text(&self, host: Seq<char>) -> Seq<char> {
        (if self.available() {
            "\x1b[32m"@
        } else {
            "\x1b[31m"@
        }) + probe_url_text(host, self.path@) + " "@ + decimal(self.status.unwrap() as nat)
            + " \""@ + self.reason@ + "\"\x1b[0m"@
    }

    /// The console line of this outcome, if it gets one.
    pub fn line(&self, host: &str, only_successful: bool) -> (line: Option<String>)
        ensures
            match line {
                Some(text) => self.shown(only_successful) && text@ == self.line_text(host@),
                None => !self.shown(only_successful),
            },
    {
        match self.status {
            None => None,
            Some(code) => {
                if code != STATUS_OK && only_successful {
                    return None;
                }
                let mut text = if code == STATUS_OK {
                    "\x1b[32m".to_owned()
                } else {
                    "\x1b[31m".to_owned()
                };
                let url = probe_url(host, self.path.as_str());
                let digits = decimal_string(code as usize);
                text.append(url.as_str());
                text.append(" ");
                text.append(digits.as_str());
                text.append(" \"");
                text.append(self.reason.as_str());
                text.append("\"\x1b[0m");
                Some(text)
            },
        }
    }
}

/// How many of `outcomes` were answered.
pub open spec fn count_answered(outcomes: Seq<ProbeOutcome>) -> nat
    decreases outcomes.len(),
{
    if outcomes.len() == 0 {
        0
    } else {
        count_answered(outcomes.drop_last()) + if outcomes.last().answered() {
            1nat
        } else {
            0nat
        }
    }
}

/// How many of `outcomes` say "available".
pub open spec fn count_available(outcomes: Seq<ProbeOutcome>) -> nat
    decreases outcomes.len(),
{
    if outcomes.len() == 0 {
        0
    } else {
        count_available(outcomes.drop_last()) + if outcomes.last().available() {
            1nat
        } else {
            0nat
        }
    }
}

/// The console lines of `outcomes`, in their order.
pub open spec fn report_lines(
    outcomes: Seq<ProbeOutcome>,
    host: Seq<char>,
    only_successful: bool,
) -> Seq<Seq<char>>
    decreases outcomes.len(),
{
    if outcomes.len() == 0 {
        Seq::empty()
    } else {
        let before = report_lines(outcomes.drop_last(), host, only_successful);
        if outcomes.last().shown(only_successful) {
            before.push(outcomes.last().line_text(host))
        } else {
            before
        }
    }
}

/// No more answers say "available" than arrived, and no more arrived than
/// requests were made.
pub proof fn lemma_counts_bounded(outcomes: Seq<ProbeOutcome>)
    ensures
        count_available(outcomes) <= count_answered(outcomes) <= outcomes.len(),
    decreases outcomes.len(),
{
    if outcomes.len() > 0 {
        lemma_counts_bounded(outcomes.drop_last());
    }
}

/// The counts of one probing run.
#[derive(Clone, Copy, Debug, PartialEq, Eq)]
pub struct ProbeSummary {
    /// Requests that were answered.
    pub total: usize,
    /// Answers that say "available".
    pub ok: usize,
}

impl ProbeSummary {
    /// The summary line of a probing run.
    pub open spec fn line_text(&self) -> Seq<char> {
        if self.ok != 0 {
            "\n -- "@ + decimal(self.total as nat) + " links have been analyzed and "@ + decimal(
                self.ok as nat,
            ) + " of them are available."@
        } else {
            "\n\x1b[31m !! "@ + decimal(self.total as nat)
                + " links have been analyzed, none are available.\x1b[0m"@
        }
    }

    /// The summary line of a probing run.
    pub fn line(&self) -> (text: String)
        ensures
            text@ == self.line_text(),
    {
        let total = decimal_string(self.total);
        if self.ok != 0 {
            let ok = decimal_string(self.ok);
            let mut text = "\n -- ".to_owned();
            text.append(total.as_str());
            text.append(" links have been analyzed and ");
            text.append(ok.as_str());
            text.append(" of them are available.");
            text
        } else {
            let mut text = "\n\x1b[31m !! ".to_owned();
            text.append(total.as_str());
            text.append(" links have been analyzed, none are available.\x1b[0m");
            text
        }
    }
}

/// The outcomes of one probing run together with their counts, kept as one
/// record so that the counts never disagree with the outcomes.
pub struct ProbeReport {
    outcomes: Vec<ProbeOutcome>,
    total: usize,
    ok: usize,
}

impl View for ProbeReport {
    type V = Seq<ProbeOutcome>;

    closed spec fn view(&self) -> Seq<ProbeOutcome> {
        self.outcomes@
    }
}

impl ProbeReport {
    #[verifier::type_invariant]
    spec fn consistent(self) -> bool {
        &&& self.total == count_answered(self.outcomes@)
        &&& self.ok == count_available(self.outcomes@)
    }

    /// The report of a run in which nothing was probed yet.
    pub fn new() -> (report: ProbeReport)
        ensures
            report@ == Seq::<ProbeOutcome>::empty(),
    {
        ProbeReport { outcomes: Vec::new(), total: 0, ok: 0 }
    }

    /// Takes one more outcome into the report.
    pub fn record(&mut self, outcome: ProbeOutcome)
        ensures
            final(self)@ == old(self)@.push(outcome),
    {
        let mut taken = ProbeReport::new();
        core::mem::swap(self, &mut taken);
        proof {
            use_type_invariant(&taken);
        }
        let ProbeReport { outcomes, total, ok } = taken;
        let mut outcomes = outcomes;
        let answered = outcome.status.is_some();
        let available = outcome.is_available();
        let ghost before = outcomes@;
        outcomes.push(outcome);
        let recorded = outcomes.len();
        proof {
            assert(outcomes@.drop_last() =~= before);
            lemma_counts_bounded(before);
            assert(ok <= total < recorded);
        }
        let total = if answered {
            total + 1
        } else {
            total
        };
        let ok = if available {
            ok + 1
        } else {
            ok
        };
        *self = ProbeReport { outcomes, total, ok };
    }

    /// The counts of the outcomes recorded so far.
    pub fn summary(&self) -> (summary: ProbeSummary)
        ensures
            summary.total == count_answered(self@),
            summary.ok == count_available(self@),
    {
        proof {
            use_type_invariant(self);
        }
        ProbeSummary { total: self.total, ok: self.ok }
    }

    /// The outcomes recorded so far, in the order of their arrival.
    pub fn outcomes(&self) -> (outcomes: &Vec<ProbeOutcome>)
        ensures
            outcomes@ == self@,
    {
        &self.outcomes
    }

    /// The console lines of the outcomes recorded so far.
    pub fn lines(&self, host: &str, only_successful: bool) -> (lines: Vec<String>)
        ensures
            texts(lines@) == report_lines(self@, host@, only_successful),
    {
        let mut lines: Vec<String> = Vec::new();
        let mut i: usize = 0;
        assert(texts(lines@) =~= report_lines(self@.take(0), host@, only_successful));
        while i < self.outcomes.len()
            invariant
                i <= self.outcomes.len(),
                texts(lines@) == report_lines(self@.take(i as int), host@, only_successful),
            decreases self.outcomes.len() - i,
        {
            let ghost before = texts(lines@);
            assert(self@.take(i + 1).drop_last() =~= self@.take(i as int));
            match self.outcomes[i].line(host, only_successful) {
                Some(text) => {
                    lines.push(text);
                    assert(texts(lines@) =~= before.push(text@));
                },
                None => {},
            }
            i += 1;
        }
        assert(self@.take(i as int) =~= self@);
        lines
    }
}

/// Taking one outcome away lowers each count by what that outcome added.
pub proof fn lemma_counts_without(outcomes: Seq<ProbeOutcome>, i: int)
    requires
        0 <= i < outcomes.len(),
    ensures
        count_answered(outcomes) == count_answered(outcomes.remove(i)) + if outcomes[i].answered() {
            1nat
        } else {
            0nat
        },
        count_available(outcomes) == count_available(outcomes.remove(i))
            + if outcomes[i].available() {
            1nat
        } else {
            0nat
        },
    decreases outcomes.len(),
{
    if i == outcomes.len() - 1 {
        assert(outcomes.remove(i) =~= outcomes.drop_last());
    } else {
        assert(outcomes.remove(i).drop_last() =~= outcomes.drop_last().remove(i));
        assert(outcomes.remove(i).last() == outcomes.last());
        lemma_counts_without(outcomes.drop_last(), i);
    }
}

/// The counts depend on which outcomes arrived, not on the order of their
/// arrival: two runs that hold the same outcomes, each as often as the
/// other, have the same counts.
pub proof fn lemma_counts_ignore_order(a: Seq<ProbeOutcome>, b: Seq<ProbeOutcome>)
    requires
        a.to_multiset() == b.to_multiset(),
    ensures
        count_answered(a) == count_answered(b),
        count_available(a) == count_available(b),
    decreases a.len(),
{
    vstd::seq_lib::to_multiset_len(a);
    vstd::seq_lib::to_multiset_len(b);
    if a.len() == 0 {
    } else {
        let x = a.last();
        assert(a[a.len() - 1] == x);
        assert(a.contains(x));
        vstd::seq_lib::to_multiset_contains(a, x);
        vstd::seq_lib::to_multiset_contains(b, x);
        let j = choose|j: int| 0 <= j < b.len() && b[j] == x;
        assert(a.remove(a.len() - 1) =~= a.drop_last());
        vstd::seq_lib::to_multiset_remove(a, a.len() - 1);
        vstd::seq_lib::to_multiset_remove(b, j);
        lemma_counts_ignore_order(a.drop_last(), b.remove(j));
        lemma_counts_without(b, j);
    }
}

/// Asking for the available paths only takes lines away and leaves the
/// counts alone: with the flag set there is one line for each available
/// path, without it one for each answer, and the counts are those of the
/// outcomes either way.
pub proof fn lemma_only_successful_hides_lines_only(outcomes: Seq<ProbeOutcome>, host: Seq<char>)
    ensures
        report_lines(outcomes, host, true).len() == count_available(outcomes),
        report_lines(outcomes, host, false).len() == count_answered(outcomes),
    decreases outcomes.len(),
{
    if outcomes.len() > 0 {
        lemma_only_successful_hides_lines_only(outcomes.drop_last(), host);
    }
}

} // verus!
