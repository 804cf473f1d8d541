//! Asking outside services whether they know a disallowed path: each
//! engine is a query address and a rule that reads the answer.

use crate::text::{contains_text, decimal, decimal_string, is_substring};
use vstd::prelude::*;
use vstd::string::*;

verus! {

/// The services that can be asked.
#[derive(Clone, Copy, Debug, PartialEq, Eq)]
pub enum SearchEngine {
    /// A general search engine, asked with a site-scoped query.
    Bing,
    /// A web archive, asked for every capture below the path.
    ArchiveOrg,
}

/// How one service is asked and how its answer is read.
pub struct EngineConfig {
    /// The name that the reports use.
    pub name: String,
    /// What the query address begins with; host and path follow.
    pub query_prefix: String,
    /// The text that is looked for in the answer.
    pub marker: String,
    /// Whether the marker's presence, or its absence, means "found".
    pub found_when_present: bool,
}

impl EngineConfig {
    /// The address that asks this service for `path` on `host`.
    pub open spec fn query_text(&self, host: Seq<char>, path: Seq<char>) -> Seq<char> {
        self.query_prefix@ + host + "/"@ + path
    }

    /// Whether an answer with the body `body` means that the service knows
    /// the path.
    pub open spec fn finds(&self, body: Seq<char>) -> bool {
        is_substring(self.marker@, body) == self.found_when_present
    }

    /// The address that asks this service for `path` on `host`.
    pub fn query_url(&self, host: &str, path: &str) -> (url: String)
        ensures
            url@ == self.query_text(host@, path@),
    {
        let mut url = self.query_prefix.clone();
        url.append(host);
        url.append("/");
        url.append(path);
        url
    }

    /// Whether an answer with the body `body` means that the service knows
    /// the path.
    pub fn is_found(&self, body: &str) -> (found: bool)
        ensures
            found == self.finds(body@),
    {
        contains_text(body, self.marker.as_str()) == self.found_when_present
    }

    /// The result for `path`, given the body of the answer, or nothing where
    /// the request failed: a failed request never counts as found.
    pub fn judge(&self, path: String, body: Option<&str>) -> (result: VerifierResult)
        ensures
            result.path == path,
            result.found == match body {
                Some(text) => self.finds(text@),
                None => false,
            },
    {
        let found = match body {
            Some(text) => self.is_found(text),
            None => false,
        };
        VerifierResult { path, found }
    }

    /// The console line for a path that the service knows.
    pub open spec fn found_line_text(&self, host: Seq<char>, path: Seq<char>) -> Seq<char> {
        "\x1b[32m"@ + self.query_text(host, path) + " found\x1b[0m"@
    }

    /// The console line of `result`, which it gets only where the path was
    /// found.
    pub fn found_line(&self, host: &str, result: &VerifierResult) -> (line: Option<String>)
        ensures
            match line {
                Some(text) => result.found && text@ == self.found_line_text(host@, result.path@),
                None => !result.found,
            },
    {
        if result.found {
            let url = self.query_url(host, result.path.as_str());
            let mut text = "\x1b[32m".to_owned();
            text.append(url.as_str());
            text.append(" found\x1b[0m");
            Some(text)
        } else {
            None
        }
    }

    /// The summary line of a run against this service.
    pub open spec fn summary_text(&self, summary: VerifierSummary) -> Seq<char> {
        if summary.found == 0 {
            "\n\x1b[31m !! No Disallows have been indexed on "@ + self.name@ + ".com\x1b[0m\n"@
        } else {
            "\n -- "@ + decimal(summary.checked as nat) + " links have been analyzed and "@
                + decimal(summary.found as nat) + " of them are available."@
        }
    }

    /// The summary line of a run against this service.
    pub fn summary_line(&self, summary: VerifierSummary) -> (text: String)
        ensures
            text@ == self.summary_text(summary),
    {
        if summary.found == 0 {
            let mut text = "\n\x1b[31m !! No Disallows have been indexed on ".to_owned();
            text.append(self.name.as_str());
            text.append(".com\x1b[0m\n");
            text
        } else {
            let checked = decimal_string(summary.checked);
            let found = decimal_string(summary.found);
            let mut text = "\n -- ".to_owned();
            text.append(checked.as_str());
            text.append(" links have been analyzed and ");
            text.append(found.as_str());
            text.append(" of them are available.");
            text
        }
    }
}

impl SearchEngine {
    /// The name of the service.
    pub open spec fn name_text(&self) -> Seq<char> {
        match self {
            SearchEngine::Bing => "Bing"@,
            SearchEngine::ArchiveOrg => "ArchiveOrg"@,
        }
    }

    /// What the service's query address begins with.
    pub open spec fn prefix_text(&self) -> Seq<char> {
        match self {
            SearchEngine::Bing => "https://www.bing.com/search?q=site:"@,
            SearchEngine::ArchiveOrg => "https://web.archive.org/web/*/"@,
        }
    }

    /// The text that is looked for in the service's answer.
    pub open spec fn marker_text(&self) -> Seq<char> {
        match self {
            SearchEngine::Bing => "no results"@,
            SearchEngine::ArchiveOrg => "captures"@,
        }
    }

    /// The search engine reports what it did not find, the archive what it
    /// holds: the marker means "found" for the archive alone.
    pub open spec fn found_when_present(&self) -> bool {
        match self {
            SearchEngine::Bing => false,
            SearchEngine::ArchiveOrg => true,
        }
    }

    /// Whether an answer with the body `body` means that the service knows
    /// the path.
    pub open spec fn finds(&self, body: Seq<char>) -> bool {
        is_substring(self.marker_text(), body) == self.found_when_present()
    }

    /// What is printed before the service is asked.
    pub open spec fn announcement_text(&self) -> Seq<char> {
        match self {
            SearchEngine::Bing => "\n\nSearching the Disallow entries on Bing.com...\n"@,
            SearchEngine::ArchiveOrg =>
                "\n\nSearching the Disallow entries on web.archive.org...\n"@,
        }
    }

    /// What is printed before the service is asked.
    pub fn announcement(&self) -> (text: String)
        ensures
            text@ == self.announcement_text(),
    {
        match self {
            SearchEngine::Bing => "\n\nSearching the Disallow entries on Bing.com...\n".to_owned(),
            SearchEngine::ArchiveOrg =>
                "\n\nSearching the Disallow entries on web.archive.org...\n".to_owned(),
        }
    }

    /// The configuration of the service.
    pub fn config(&self) -> (config: EngineConfig)
        ensures
            config.name@ == self.name_text(),
            config.query_prefix@ == self.prefix_text(),
            config.marker@ == self.marker_text(),
            config.found_when_present == self.found_when_present(),
            forall|body: Seq<char>| config.finds(body) == self.finds(body),
    {
        match self {
            SearchEngine::Bing => EngineConfig {
                name: "Bing".to_owned(),
                query_prefix: "https://www.bing.com/search?q=site:".to_owned(),
                marker: "no results".to_owned(),
                found_when_present: false,
            },
            SearchEngine::ArchiveOrg => EngineConfig {
                name: "ArchiveOrg".to_owned(),
                query_prefix: "https://web.archive.org/web/*/".to_owned(),
                marker: "captures".to_owned(),
                found_when_present: true,
            },
        }
    }
}

/// The two services read their answers in opposite ways: the search engine
/// knows a path exactly where its answer lacks the "no results" marker, the
/// archive exactly where its answer holds the "captures" marker.
pub proof fn lemma_engine_polarity(body: Seq<char>)
    ensures
        SearchEngine::Bing.finds(body) <==> !is_substring("no results"@, body),
        SearchEngine::ArchiveOrg.finds(body) <==> is_substring("captures"@, body),
{
}

/// Whether one service knows one path.
#[derive(Debug)]
pub struct VerifierResult {
    pub path: String,
    pub found: bool,
}

/// How many of `results` say "found".
pub open spec fn count_found(results: Seq<VerifierResult>) -> nat
    decreases results.len(),
{
    if results.len() == 0 {
        0
    } else {
        count_found(results.drop_last()) + if results.last().found {
            1nat
        } else {
            0nat
        }
    }
}

/// No more paths are found than were checked.
pub proof fn lemma_found_bounded(results: Seq<VerifierResult>)
    ensures
        count_found(results) <= results.len(),
    decreases results.len(),
{
    if results.len() > 0 {
        lemma_found_bounded(results.drop_last());
    }
}

/// Taking one result away lowers the count by what that result added.
pub proof fn lemma_found_without(results: Seq<VerifierResult>, i: int)
    requires
        0 <= i < results.len(),
    ensures
        count_found(results) == count_found(results.remove(i)) + if results[i].found {
            1nat
        } else {
            0nat
        },
    decreases results.len(),
{
    if i == results.len() - 1 {
        assert(results.remove(i) =~= results.drop_last());
    } else {
        assert(results.remove(i).drop_last() =~= results.drop_last().remove(i));
        assert(results.remove(i).last() == results.last());
        lemma_found_without(results.drop_last(), i);
    }
}

/// The count of found paths depends on which results arrived, not on the
/// order of their arrival.
pub proof fn lemma_found_ignores_order(a: Seq<VerifierResult>, b: Seq<VerifierResult>)
    requires
        a.to_multiset() == b.to_multiset(),
    ensures
        a.len() == b.len(),
        count_found(a) == count_found(b),
    decreases a.len(),
{
    vstd::seq_lib::to_multiset_len(a);
    vstd::seq_lib::to_multiset_len(b);
    if a.len() > 0 {
        let x = a.last();
        assert(a[a.len() - 1] == x);
        assert(a.contains(x));
        vstd::seq_lib::to_multiset_contains(a, x);
        vstd::seq_lib::to_multiset_contains(b, x);
        let j = choose|j: int| 0 <= j < b.len() && b[j] == x;
        assert(a.remove(a.len() - 1) =~= a.drop_last());
        vstd::seq_lib::to_multiset_remove(a, a.len() - 1);
        vstd::seq_lib::to_multiset_remove(b, j);
        lemma_found_ignores_order(a.drop_last(), b.remove(j));
        lemma_found_without(b, j);
    }
}

/// The counts of one run against one service.
#[derive(Clone, Copy, Debug, PartialEq, Eq)]
pub struct VerifierSummary {
    /// Paths that were checked, failed requests included.
    pub checked: usize,
    /// Paths that the service knows.
    pub found: usize,
}

/// The results of one run against one service together with the count of
/// those found, kept as one record.
pub struct VerifierReport {
    results: Vec<VerifierResult>,
    found: usize,
}

impl View for VerifierReport {
    type V = Seq<VerifierResult>;

    closed spec fn view(&self) -> Seq<VerifierResult> {
        self.results@
    }
}

impl VerifierReport {
    #[verifier::type_invariant]
    spec fn consistent(self) -> bool {
        self.found == count_found(self.results@)
    }

    /// The report of a run in which nothing was checked yet.
    pub fn new() -> (report: VerifierReport)
        ensures
            report@ == Seq::<VerifierResult>::empty(),
    {
        VerifierReport { results: Vec::new(), found: 0 }
    }

    /// Takes one more result into the report.
    pub fn record(&mut self, result: VerifierResult)
        ensures
            final(self)@ == old(self)@.push(result),
    {
        let mut taken = VerifierReport::new();
        core::mem::swap(self, &mut taken);
        proof {
            use_type_invariant(&taken);
        }
        let VerifierReport { results, found } = taken;
        let mut results = results;
        let hit = result.found;
        let ghost before = results@;
        results.push(result);
        let recorded = results.len();
        proof {
            assert(results@.drop_last() =~= before);
            lemma_found_bounded(before);
            assert(found < recorded);
        }
        let found = if hit {
            found + 1
        } else {
            found
        };
        *self = VerifierReport { results, found };
    }

    /// The counts of the results recorded so far.
    pub fn summary(&self) -> (summary: VerifierSummary)
        ensures
            summary.checked == self@.len(),
            summary.found == count_found(self@),
    {
        proof {
            use_type_invariant(self);
        }
        VerifierSummary { checked: self.results.len(), found: self.found }
    }

    /// The results recorded so far, in the order of their arrival.
    pub fn results(&self) -> (results: &Vec<VerifierResult>)
        ensures
            results@ == self@,
    {
        &self.results
    }
}

} // verus!
