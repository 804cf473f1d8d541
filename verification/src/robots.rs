//! Reading a policy file: which paths its `Disallow` lines name.

use crate::paths::{texts, PathSet};
use crate::pattern::{pattern_search, search_pattern};
use crate::text::{find_from, find_in, is_substring, matches_at, occurs_at, to_chars};
use vstd::prelude::*;
use vstd::string::*;

verus! {

/// The keyword that a directive line begins with.
pub open spec fn keyword() -> Seq<char> {
    "Disallow"@
}

/// The text between the keyword and the value.
pub open spec fn separator() -> Seq<char> {
    ": /"@
}

/// `v` without the slashes it begins with.
pub open spec fn strip_leading_slashes(v: Seq<char>) -> Seq<char>
    decreases v.len(),
{
    if v.len() > 0 && v[0] == '/' {
        strip_leading_slashes(v.drop_first())
    } else {
        v
    }
}

/// `v` without the carriage returns it ends with.
pub open spec fn strip_trailing_returns(v: Seq<char>) -> Seq<char>
    decreases v.len(),
{
    if v.len() > 0 && v.last() == '\r' {
        strip_trailing_returns(v.drop_last())
    } else {
        v
    }
}

/// A directive's value in canonical form.
pub open spec fn normalized(v: Seq<char>) -> Seq<char> {
    strip_trailing_returns(strip_leading_slashes(v))
}

/// Neither a leading slash nor a trailing carriage return is left.
pub open spec fn is_normal(v: Seq<char>) -> bool {
    v.len() > 0 ==> v[0] != '/' && v.last() != '\r'
}

/// The canonical value of a directive line: the line begins with the
/// keyword, and the value is what follows the first separator. Any other
/// line has none.
pub open spec fn directive_value(line: Seq<char>) -> Option<Seq<char>> {
    if occurs_at(line, keyword(), 0) {
        match find_from(line, separator(), 0) {
            Some(at) => Some(normalized(line.skip(at + separator().len()))),
            None => None,
        }
    } else {
        None
    }
}

/// The value holds the wildcard character.
pub open spec fn has_wildcard(v: Seq<char>) -> bool {
    v.contains('*')
}

/// The expression that a wildcard value stands for: each `*` reads
/// "any text".
pub open spec fn wildcard_pattern(v: Seq<char>) -> Seq<char>
    decreases v.len(),
{
    if v.len() == 0 {
        v
    } else if v.last() == '*' {
        wildcard_pattern(v.drop_last()) + ".*"@
    } else {
        wildcard_pattern(v.drop_last()).push(v.last())
    }
}

/// The matches that become paths: the non-empty ones. Every match is a part
/// of the host it was found in.
pub open spec fn kept_matches(found: Seq<Seq<char>>, host: Seq<char>) -> Set<Seq<char>> {
    Set::new(|p: Seq<char>| found.contains(p) && p.len() > 0 && is_substring(p, host))
}

/// The paths that one line contributes.
pub open spec fn line_paths(line: Seq<char>, host: Seq<char>) -> Set<Seq<char>> {
    match directive_value(line) {
        None => Set::empty(),
        Some(value) => if has_wildcard(value) {
            match pattern_search(wildcard_pattern(value), host) {
                Ok(found) => kept_matches(found, host),
                Err(_) => Set::empty(),
            }
        } else if value.len() > 0 {
            set![value]
        } else {
            Set::empty()
        },
    }
}

/// The expression of a wildcard line that does not compile, with the
/// matcher's message.
pub open spec fn line_rejected(line: Seq<char>, host: Seq<char>) -> Option<
    (Seq<char>, Seq<char>),
> {
    match directive_value(line) {
        Some(value) => if has_wildcard(value) {
            match pattern_search(wildcard_pattern(value), host) {
                Ok(_) => None,
                Err(message) => Some((wildcard_pattern(value), message)),
            }
        } else {
            None
        },
        None => None,
    }
}

/// The length of the first line of `text`: the offset of its first line
/// feed, or its whole length where it has none. A carriage return before
/// the line feed stays with the line; it goes when the value is brought
/// into canonical form.
pub open spec fn line_end(text: Seq<char>) -> int
    decreases text.len(),
{
    if text.len() == 0 || text[0] == '\n' {
        0
    } else {
        1 + line_end(text.drop_first())
    }
}

/// The paths of a policy file: those of its lines, taken together.
pub open spec fn parsed_paths(text: Seq<char>, host: Seq<char>) -> Set<Seq<char>>
    decreases text.len(),
{
    let end = line_end(text);
    let first = line_paths(text.take(end), host);
    if 0 <= end < text.len() {
        first.union(parsed_paths(text.skip(end + 1), host))
    } else {
        first
    }
}

/// The wildcard expressions of a policy file that do not compile, each
/// with the matcher's message, in the order of their lines.
pub open spec fn rejected_patterns(text: Seq<char>, host: Seq<char>) -> Seq<
    (Seq<char>, Seq<char>),
>
    decreases text.len(),
{
    let end = line_end(text);
    let first = match line_rejected(text.take(end), host) {
        Some(rejected) => seq![rejected],
        None => Seq::empty(),
    };
    if 0 <= end < text.len() {
        first + rejected_patterns(text.skip(end + 1), host)
    } else {
        first
    }
}

/// The first line ends within the text, at its first line feed if it has
/// one.
pub proof fn lemma_line_end_bounds(text: Seq<char>)
    ensures
        0 <= line_end(text) <= text.len(),
        line_end(text) < text.len() ==> text[line_end(text)] == '\n',
        forall|i: int| 0 <= i < line_end(text) ==> text[i] != '\n',
    decreases text.len(),
{
    if text.len() == 0 || text[0] == '\n' {
    } else {
        let rest = text.drop_first();
        lemma_line_end_bounds(rest);
        assert forall|i: int| 0 <= i < line_end(text) implies text[i] != '\n' by {
            if i > 0 {
                assert(text[i] == rest[i - 1]);
            }
        }
    }
}

/// A wildcard expression that was passed over, and why.
pub struct SkippedPattern {
    /// The expression as it was handed to the matcher.
    pub pattern: String,
    /// The matcher's own message.
    pub reason: String,
}

impl SkippedPattern {
    /// The diagnostic that tells of the skipped expression.
    pub open spec fn notice_text(&self) -> Seq<char> {
        "Error compiling regex for pattern "@ + self.pattern@ + ": "@ + self.reason@
    }

    /// The diagnostic that tells of the skipped expression.
    pub fn notice(&self) -> (text: String)
        ensures
            text@ == self.notice_text(),
    {
        let mut text = "Error compiling regex for pattern ".to_owned();
        text.append(self.pattern.as_str());
        text.append(": ");
        text.append(self.reason.as_str());
        text
    }
}

/// What reading a policy file gives: the paths, and the wildcard
/// expressions that had to be passed over.
pub struct ParsedPolicy {
    pub paths: PathSet,
    pub skipped: Vec<SkippedPattern>,
}

/// The expressions and messages of a list of skipped patterns, in order.
pub open spec fn skipped_texts(skipped: Seq<SkippedPattern>) -> Seq<(Seq<char>, Seq<char>)> {
    skipped.map_values(|d: SkippedPattern| (d.pattern@, d.reason@))
}

/// The non-empty members of `found`.
pub open spec fn nonempty_of(found: Seq<Seq<char>>) -> Set<Seq<char>> {
    Set::new(|p: Seq<char>| found.contains(p) && p.len() > 0)
}

/// The offset at which the line that starts at `pos` ends.
fn end_of_line(chars: &Vec<char>, pos: usize) -> (end: usize)
    requires
        pos <= chars.len(),
    ensures
        pos <= end <= chars.len(),
        end - pos == line_end(chars@.skip(pos as int)),
{
    let mut end = pos;
    while end < chars.len() && chars[end] != '\n'
        invariant
            pos <= end <= chars.len(),
            line_end(chars@.skip(pos as int)) == (end - pos) + line_end(chars@.skip(end as int)),
        decreases chars.len() - end,
    {
        assert(chars@.skip(end as int).drop_first() =~= chars@.skip(end + 1));
        end += 1;
    }
    end
}

fn value_of_line<'a>(line: &'a str, keyword: &Vec<char>, separator: &Vec<char>) -> (value: Option<
    &'a str,
>)
    requires
        keyword@ == self::keyword(),
        separator@ == self::separator(),
    ensures
        match value {
            Some(v) => directive_value(line@) == Some(v@),
            None => directive_value(line@) is None,
        },
{
    let chars = to_chars(line);
    let n = chars.len();
    if !matches_at(&chars, keyword, 0) {
        return None;
    }
    assert(chars@.take(n as int) =~= chars@);
    let found = find_in(&chars, separator, 0, n);
    match found {
        None => None,
        Some(at) => {
            proof {
                crate::text::lemma_find_from_first(chars@, separator@, 0);
            }
            let start = at + separator.len();
            let mut a = start;
            let mut b = n;
            assert(chars@.skip(start as int) =~= chars@.subrange(start as int, n as int));
            while a < b && chars[a] == '/'
                invariant
                    start <= a <= b == n == chars.len(),
                    strip_leading_slashes(chars@.subrange(start as int, n as int))
                        == strip_leading_slashes(chars@.subrange(a as int, n as int)),
                decreases b - a,
            {
                assert(chars@.subrange(a as int, n as int).drop_first() =~= chars@.subrange(
                    a + 1,
                    n as int,
                ));
                a += 1;
            }
            while b > a && chars[b - 1] == '\r'
                invariant
                    a <= b <= n == chars.len(),
                    strip_trailing_returns(chars@.subrange(a as int, n as int))
                        == strip_trailing_returns(chars@.subrange(a as int, b as int)),
                decreases b - a,
            {
                assert(chars@.subrange(a as int, b as int).drop_last() =~= chars@.subrange(
                    a as int,
                    b - 1,
                ));
                b -= 1;
            }
            Some(line.substring_char(a, b))
        },
    }
}

/// The canonical value of a directive line, if the line is one.
pub fn directive_value_of(line: &str) -> (value: Option<String>)
    ensures
        match value {
            Some(v) => directive_value(line@) == Some(v@),
            None => directive_value(line@) is None,
        },
{
    let keyword = to_chars("Disallow");
    let separator = to_chars(": /");
    match value_of_line(line, &keyword, &separator) {
        Some(v) => Some(v.to_owned()),
        None => None,
    }
}

/// The expression that the wildcard value `value` stands for.
pub fn expand_wildcards(value: &str) -> (pattern: String)
    ensures
        pattern@ == wildcard_pattern(value@),
{
    let chars = to_chars(value);
    let mut pattern = String::new();
    let mut i: usize = 0;
    while i < chars.len()
        invariant
            i <= chars.len(),
            chars@ == value@,
            pattern@ == wildcard_pattern(chars@.take(i as int)),
        decreases chars.len() - i,
    {
        proof {
            assert(chars@.take(i + 1).drop_last() =~= chars@.take(i as int));
        }
        if chars[i] == '*' {
            pattern.append(".*");
        } else {
            let one = value.substring_char(i, i + 1);
            assert(one@ =~= seq![chars@[i as int]]);
            let ghost before = pattern@;
            pattern.append(one);
            assert(pattern@ =~= before.push(chars@[i as int]));
        }
        i += 1;
    }
    assert(chars@.take(i as int) =~= chars@);
    pattern
}

/// Whether `value` holds the wildcard character.
pub fn contains_wildcard(value: &str) -> (wild: bool)
    ensures
        wild == has_wildcard(value@),
{
    let chars = to_chars(value);
    let mut i: usize = 0;
    while i < chars.len()
        invariant
            i <= chars.len(),
            chars@ == value@,
            forall|j: int| 0 <= j < i ==> chars@[j] != '*',
        decreases chars.len() - i,
    {
        if chars[i] == '*' {
            return true;
        }
        i += 1;
    }
    false
}

/// Adds the non-empty members of `found` to `paths`.
pub fn insert_matches(paths: &mut PathSet, found: &Vec<String>)
    ensures
        final(paths)@ == old(paths)@.union(nonempty_of(texts(found@))),
{
    let ghost before = paths@;
    let mut i: usize = 0;
    assert(paths@ =~= before.union(nonempty_of(texts(found@).take(0))));
    while i < found.len()
        invariant
            i <= found.len(),
            paths@ == before.union(nonempty_of(texts(found@).take(i as int))),
        decreases found.len() - i,
    {
        let ghost so_far = paths@;
        let item = found[i].clone();
        paths.insert(item);
        proof {
            let all = texts(found@);
            let grown = all.take(i + 1);
            let prior = all.take(i as int);
            assert(grown =~= prior.push(all[i as int]));
            assert(all[i as int] == found@[i as int]@);
            assert forall|p: Seq<char>| grown.contains(p) <==> prior.contains(p) || p == all[i as int] by {
                if grown.contains(p) {
                    let k = choose|k: int| 0 <= k < grown.len() && grown[k] == p;
                    if k < i {
                        assert(prior[k] == p);
                    }
                }
                if prior.contains(p) {
                    let k = choose|k: int| 0 <= k < prior.len() && prior[k] == p;
                    assert(grown[k] == p);
                }
                if p == all[i as int] {
                    assert(grown[i as int] == p);
                }
            }
            assert(paths@ =~= before.union(nonempty_of(grown)));
        }
        i += 1;
    }
    assert(texts(found@).take(i as int) =~= texts(found@));
}

fn parse_line(
    line: &str,
    host: &str,
    keyword: &Vec<char>,
    separator: &Vec<char>,
    paths: &mut PathSet,
    skipped: &mut Vec<SkippedPattern>,
)
    requires
        keyword@ == self::keyword(),
        separator@ == self::separator(),
    ensures
        final(paths)@ == old(paths)@.union(line_paths(line@, host@)),
        skipped_texts(final(skipped)@) == skipped_texts(old(skipped)@) + match line_rejected(
            line@,
            host@,
        ) {
            Some(rejected) => seq![rejected],
            None => Seq::empty(),
        },
{
    let ghost paths_before = paths@;
    let ghost skipped_before = skipped@;
    assert(skipped_texts(skipped@) + Seq::<(Seq<char>, Seq<char>)>::empty() =~= skipped_texts(
        skipped@,
    ));
    assert(paths@.union(Set::<Seq<char>>::empty()) =~= paths@);
    match value_of_line(line, keyword, separator) {
        None => {},
        Some(value) => {
            if contains_wildcard(value) {
                let pattern = expand_wildcards(value);
                match search_pattern(pattern.as_str(), host) {
                    Ok(found) => {
                        insert_matches(paths, &found);
                        proof {
                            let all = texts(found@);
                            assert forall|p: Seq<char>| all.contains(p) implies is_substring(
                                p,
                                host@,
                            ) by {
                                let k = choose|k: int| 0 <= k < all.len() && all[k] == p;
                                assert(all[k] == found@[k]@);
                            }
                            assert(nonempty_of(all) =~= kept_matches(all, host@));
                        }
                    },
                    Err(reason) => {
                        let ghost rejected = (pattern@, reason@);
                        skipped.push(SkippedPattern { pattern, reason });
                        assert(skipped_texts(skipped@) =~= skipped_texts(skipped_before)
                            + seq![rejected]);
                    },
                }
            } else {
                paths.insert(value.to_owned());
                assert(paths@ =~= paths_before.union(line_paths(line@, host@)));
            }
        },
    }
}

/// Reads a policy file for `target_host` and reports, beside the paths, the
/// wildcard expressions that did not compile.
pub fn parse_with_diagnostics(raw_text: &str, target_host: &str) -> (policy: ParsedPolicy)
    ensures
        policy.paths@ == parsed_paths(raw_text@, target_host@),
        skipped_texts(policy.skipped@) == rejected_patterns(raw_text@, target_host@),
{
    let chars = to_chars(raw_text);
    let keyword = to_chars("Disallow");
    let separator = to_chars(": /");
    let n = chars.len();
    let mut paths = PathSet::new();
    let mut skipped: Vec<SkippedPattern> = Vec::new();
    let mut pos: usize = 0;
    assert(chars@.skip(0) =~= chars@);
    assert(paths@.union(parsed_paths(chars@, target_host@)) =~= parsed_paths(
        chars@,
        target_host@,
    ));
    assert(skipped_texts(skipped@) + rejected_patterns(chars@, target_host@)
        =~= rejected_patterns(chars@, target_host@));
    loop
        invariant_except_break
            paths@.union(parsed_paths(chars@.skip(pos as int), target_host@)) == parsed_paths(
                chars@,
                target_host@,
            ),
            skipped_texts(skipped@) + rejected_patterns(chars@.skip(pos as int), target_host@)
                == rejected_patterns(chars@, target_host@),
        invariant
            pos <= n == chars.len(),
            chars@ == raw_text@,
            keyword@ == self::keyword(),
            separator@ == self::separator(),
        ensures
            paths@ == parsed_paths(chars@, target_host@),
            skipped_texts(skipped@) == rejected_patterns(chars@, target_host@),
        decreases n - pos,
    {
        let ghost rest = chars@.skip(pos as int);
        let ghost paths_before = paths@;
        let ghost skipped_before = skipped_texts(skipped@);
        let end = end_of_line(&chars, pos);
        let line = raw_text.substring_char(pos, end);
        assert(line@ =~= rest.take(end - pos));
        parse_line(line, target_host, &keyword, &separator, &mut paths, &mut skipped);
        if end >= n {
            break;
        }
        proof {
            let next = rest.skip(end - pos + 1);
            assert(next =~= chars@.skip(end + 1));
            let first = line_paths(line@, target_host@);
            assert(paths_before.union(first).union(parsed_paths(next, target_host@))
                =~= paths_before.union(first.union(parsed_paths(next, target_host@))));
            let first_rejected = match line_rejected(line@, target_host@) {
                Some(rejected) => seq![rejected],
                None => Seq::empty(),
            };
            assert((skipped_before + first_rejected) + rejected_patterns(next, target_host@)
                =~= skipped_before + (first_rejected + rejected_patterns(next, target_host@)));
        }
        pos = end + 1;
    }
    ParsedPolicy { paths, skipped }
}

/// The paths that the policy file `raw_text` disallows on `target_host`.
pub fn parse(raw_text: &str, target_host: &str) -> (paths: PathSet)
    ensures
        paths@ == parsed_paths(raw_text@, target_host@),
{
    parse_with_diagnostics(raw_text, target_host).paths
}

/// What is left after the leading slashes are gone is a tail of the value
/// that begins with no slash.
pub proof fn lemma_strip_leading_slashes(v: Seq<char>)
    ensures
        strip_leading_slashes(v).len() <= v.len(),
        strip_leading_slashes(v).len() > 0 ==> strip_leading_slashes(v)[0] != '/',
    decreases v.len(),
{
    if v.len() > 0 && v[0] == '/' {
        lemma_strip_leading_slashes(v.drop_first());
    }
}

/// What is left after the trailing carriage returns are gone is a head of
/// the value that ends with none.
pub proof fn lemma_strip_trailing_returns(v: Seq<char>)
    ensures
        strip_trailing_returns(v).len() <= v.len(),
        strip_trailing_returns(v) == v.take(strip_trailing_returns(v).len() as int),
        strip_trailing_returns(v).len() > 0 ==> strip_trailing_returns(v).last() != '\r',
    decreases v.len(),
{
    if v.len() > 0 && v.last() == '\r' {
        let shorter = v.drop_last();
        lemma_strip_trailing_returns(shorter);
        let kept = strip_trailing_returns(shorter).len() as int;
        assert(shorter.take(kept) =~= v.take(kept));
    } else {
        assert(v.take(v.len() as int) =~= v);
    }
}

/// A canonical value neither begins with a slash nor ends with a carriage
/// return.
pub proof fn lemma_normalized_is_normal(v: Seq<char>)
    ensures
        is_normal(normalized(v)),
{
    let inner = strip_leading_slashes(v);
    lemma_strip_leading_slashes(v);
    lemma_strip_trailing_returns(inner);
}

/// No line contributes the empty path: a directive without a value names
/// nothing.
pub proof fn lemma_line_paths_nonempty(line: Seq<char>, host: Seq<char>)
    ensures
        forall|p: Seq<char>| #[trigger] line_paths(line, host).contains(p) ==> p.len() > 0,
{
}

/// The empty path is never among the paths of a policy file.
pub proof fn lemma_parsed_paths_nonempty(text: Seq<char>, host: Seq<char>)
    ensures
        forall|p: Seq<char>| #[trigger] parsed_paths(text, host).contains(p) ==> p.len() > 0,
    decreases text.len(),
{
    let end = line_end(text);
    lemma_line_end_bounds(text);
    lemma_line_paths_nonempty(text.take(end), host);
    if end < text.len() {
        lemma_parsed_paths_nonempty(text.skip(end + 1), host);
    }
    assert forall|p: Seq<char>| #[trigger] parsed_paths(text, host).contains(p) implies p.len()
        > 0 by {
        if !line_paths(text.take(end), host).contains(p) {
            assert(parsed_paths(text.skip(end + 1), host).contains(p));
        }
    }
}

/// A wildcard line contributes nothing but parts of the host that the
/// expression matched; where nothing matched, or the expression does not
/// compile, it contributes nothing.
pub proof fn lemma_wildcard_paths_within_host(line: Seq<char>, host: Seq<char>)
    requires
        directive_value(line) is Some,
        has_wildcard(directive_value(line).unwrap()),
    ensures
        forall|p: Seq<char>| #[trigger]
            line_paths(line, host).contains(p) ==> {
                &&& is_substring(p, host)
                &&& pattern_search(
                    wildcard_pattern(directive_value(line).unwrap()),
                    host,
                ) matches Ok(found) && found.contains(p)
            },
        pattern_search(wildcard_pattern(directive_value(line).unwrap()), host) is Err
            ==> line_paths(line, host) == Set::<Seq<char>>::empty(),
        pattern_search(wildcard_pattern(directive_value(line).unwrap()), host) == Ok::<
            Seq<Seq<char>>,
            Seq<char>,
        >(Seq::empty()) ==> line_paths(line, host) == Set::<Seq<char>>::empty(),
{
    let outcome = pattern_search(wildcard_pattern(directive_value(line).unwrap()), host);
    if outcome == Ok::<Seq<Seq<char>>, Seq<char>>(Seq::empty()) {
        assert(line_paths(line, host) =~= Set::<Seq<char>>::empty());
    }
}

/// The host is written without a slash and without a carriage return.
pub open spec fn plain_host(host: Seq<char>) -> bool {
    !host.contains('/') && !host.contains('\r')
}

/// On a plain host no path of a line begins with a slash or ends with a
/// carriage return.
pub proof fn lemma_line_paths_normal(line: Seq<char>, host: Seq<char>)
    requires
        plain_host(host),
    ensures
        forall|p: Seq<char>| #[trigger] line_paths(line, host).contains(p) ==> is_normal(p),
{
    assert forall|p: Seq<char>| #[trigger] line_paths(line, host).contains(p) implies is_normal(
        p,
    ) by {
        let value = directive_value(line).unwrap();
        if has_wildcard(value) {
            let at = choose|at: int| occurs_at(host, p, at);
            let part = host.subrange(at, at + p.len());
            assert(part[0] == host[at]);
            assert(part.last() == host[at + p.len() - 1]);
            assert(host.contains(host[at]));
            assert(host.contains(host[at + p.len() - 1]));
        } else {
            let at = find_from(line, separator(), 0).unwrap();
            lemma_normalized_is_normal(line.skip(at + separator().len()));
        }
    }
}

/// On a plain host every path of a policy file is in canonical form: it is
/// not empty, does not begin with a slash and does not end with a carriage
/// return.
pub proof fn lemma_parsed_paths_normal(text: Seq<char>, host: Seq<char>)
    requires
        plain_host(host),
    ensures
        forall|p: Seq<char>| #[trigger]
            parsed_paths(text, host).contains(p) ==> p.len() > 0 && p[0] != '/' && p.last()
                != '\r',
    decreases text.len(),
{
    let end = line_end(text);
    lemma_line_end_bounds(text);
    lemma_line_paths_normal(text.take(end), host);
    lemma_line_paths_nonempty(text.take(end), host);
    if end < text.len() {
        lemma_parsed_paths_normal(text.skip(end + 1), host);
    }
    assert forall|p: Seq<char>| #[trigger] parsed_paths(text, host).contains(p) implies p.len()
        > 0 && p[0] != '/' && p.last() != '\r' by {
        if !line_paths(text.take(end), host).contains(p) {
            assert(parsed_paths(text.skip(end + 1), host).contains(p));
        }
    }
}

} // verus!
