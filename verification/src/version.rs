//! Version information: the version an npm registry reports, the version the
//! local `dsh` prints, and the text that compares them.

use vstd::prelude::*;

use crate::paths::{opt_seq, seq_views};
use crate::resolve::LaunchSpec;
use crate::text::{
    chars_of, contains_seq, find, find_from, find_in, first_occurrence, lemma_find_in_first,
    lemma_find_in_some, occurs_at,
};

verus! {

/// The text that introduces the version in a registry response.
pub open spec fn version_key() -> Seq<char> {
    "\"version\":\""@
}

/// The version a registry response gives: the text after the first
/// `"version":"` up to the next `"`; none when either is missing.
pub open spec fn registry_version(body: Seq<char>) -> Option<Seq<char>> {
    match find_in(body, version_key()) {
        Some(i) => {
            let rest = body.skip(i + version_key().len());
            match find_in(rest, seq!['"']) {
                Some(j) => Some(rest.take(j)),
                None => None,
            }
        },
        None => None,
    }
}

/// Occurrences in a suffix are occurrences in the whole, shifted.
proof fn lemma_occurs_in_skip(s: Seq<char>, pat: Seq<char>, k: int, t: int)
    requires
        0 <= k <= s.len(),
    ensures
        occurs_at(s.skip(k), pat, t) == (t >= 0 && occurs_at(s, pat, k + t)),
{
    if t >= 0 && t + pat.len() <= s.len() - k {
        assert(s.skip(k).subrange(t, t + pat.len()) =~= s.subrange(k + t, k + t + pat.len()));
    }
}

/// Reads the version out of an npm registry response, by plain text search.
pub fn extract_version_from_registry(body: &str) -> (r: Option<String>)
    ensures
        opt_seq(r) == registry_version(body@),
{
    let cs = chars_of(body);
    let key = chars_of("\"version\":\"");
    let quote: Vec<char> = vec!['"'];
    let i = match find(&cs, &key) {
        Some(i) => i,
        None => {
            return None;
        },
    };
    assert(i + key@.len() <= cs.len());
    let start = i + key.len();
    let ghost rest = cs@.skip(start as int);
    match find_from(&cs, &quote, start) {
        Some(j) => {
            proof {
                lemma_occurs_in_skip(cs@, quote@, start as int, j - start);
                assert forall|t: int| 0 <= t < j - start implies !occurs_at(rest, quote@, t) by {
                    lemma_occurs_in_skip(cs@, quote@, start as int, t);
                }
                assert(first_occurrence(rest, quote@, j - start));
                lemma_find_in_first(rest, quote@, j - start);
                assert(quote@ =~= seq!['"']);
            }
            let v = body.substring_char(start, j);
            proof {
                assert(v@ =~= rest.take(j - start));
            }
            Some(String::from_str(v))
        },
        None => {
            proof {
                assert forall|t: int| !occurs_at(rest, quote@, t) by {
                    lemma_occurs_in_skip(cs@, quote@, start as int, t);
                }
                assert(quote@ =~= seq!['"']);
            }
            None
        },
    }
}


/// Law: a registry response whose text before `"version":"` holds no `"`
/// gives back the version that follows, up to the closing `"`, whatever
/// comes after it.
pub proof fn lemma_registry_version_round_trip(
    before: Seq<char>,
    version: Seq<char>,
    after: Seq<char>,
)
    requires
        !before.contains('"'),
        !version.contains('"'),
    ensures
        registry_version(before + version_key() + version + seq!['"'] + after) == Some(version),
{
    reveal_strlit("\"version\":\"");
    let key = version_key();
    let body = before + key + version + seq!['"'] + after;
    let i = before.len() as int;
    assert(body.subrange(i, i + key.len()) =~= key);
    assert forall|j: int| 0 <= j < i implies !occurs_at(body, key, j) by {
        if occurs_at(body, key, j) {
            assert(body.subrange(j, j + key.len())[0] == key[0]);
            assert(body[j] == before[j]);
        }
    }
    assert(first_occurrence(body, key, i));
    lemma_find_in_first(body, key, i);
    let rest = body.skip(i + key.len());
    let q = seq!['"'];
    let n = version.len() as int;
    assert(rest.subrange(n, n + 1) =~= q);
    assert forall|t: int| 0 <= t < n implies !occurs_at(rest, q, t) by {
        if occurs_at(rest, q, t) {
            assert(rest.subrange(t, t + 1)[0] == '"');
            assert(rest[t] == version[t]);
        }
    }
    assert(first_occurrence(rest, q, n));
    lemma_find_in_first(rest, q, n);
    assert(rest.take(n) =~= version);
}

/// Law: a response without `"version":"` gives no version; a version that
/// is found never holds a `"`, and it stands in the response right after the
/// first `"version":"`, followed by a `"`.
pub proof fn lemma_registry_version_shape(body: Seq<char>)
    ensures
        !contains_seq(body, version_key()) ==> registry_version(body) is None,
        registry_version(body) matches Some(v) ==> {
            &&& !v.contains('"')
            &&& exists|i: int|
                first_occurrence(body, version_key(), i) && occurs_at(
                    body,
                    v + seq!['"'],
                    i + version_key().len(),
                )
        },
{
    if let Some(v) = registry_version(body) {
        let k = version_key();
        lemma_find_in_some(body, k);
        let i = find_in(body, k)->0;
        let rest = body.skip(i + k.len());
        let q = seq!['"'];
        lemma_find_in_some(rest, q);
        let j = find_in(rest, q)->0;
        assert(v == rest.take(j));
        assert forall|t: int| 0 <= t < v.len() implies v[t] != '"' by {
            if v[t] == '"' {
                assert(rest[t] == v[t]);
                assert(rest.subrange(t, t + 1) =~= q);
                assert(occurs_at(rest, q, t));
            }
        }
        assert(rest.subrange(j, j + 1) == q);
        assert(body.subrange(i + k.len(), i + k.len() + j + 1) =~= v + q);
    }
}

/// A character with the Unicode `White_Space` property, as
/// `char::is_whitespace` tests.
pub open spec fn is_whitespace(c: char) -> bool {
    ||| '\u{9}' <= c <= '\u{d}'
    ||| c == ' '
    ||| c == '\u{85}'
    ||| c == '\u{a0}'
    ||| c == '\u{1680}'
    ||| '\u{2000}' <= c <= '\u{200a}'
    ||| c == '\u{2028}'
    ||| c == '\u{2029}'
    ||| c == '\u{202f}'
    ||| c == '\u{205f}'
    ||| c == '\u{3000}'
}

/// `s` without leading and trailing whitespace, as `str::trim` gives it.
pub open spec fn trim(s: Seq<char>) -> Seq<char>
    decreases s.len(),
{
    if s.len() > 0 && is_whitespace(s[0]) {
        trim(s.drop_first())
    } else if s.len() > 0 && is_whitespace(s.last()) {
        trim(s.drop_last())
    } else {
        s
    }
}

/// `s[a..b]` is `s` with only whitespace cut from its two ends.
pub open spec fn cut_whitespace(s: Seq<char>, a: int, b: int) -> bool {
    &&& 0 <= a <= b <= s.len()
    &&& forall|i: int| 0 <= i < a ==> is_whitespace(#[trigger] s[i])
    &&& forall|i: int| b <= i < s.len() ==> is_whitespace(#[trigger] s[i])
}

/// Law: trimming keeps a contiguous part of the text that neither starts
/// nor ends with whitespace, and drops only whitespace around it.
pub proof fn lemma_trim_shape(s: Seq<char>)
    ensures
        exists|a: int, b: int| #[trigger] cut_whitespace(s, a, b) && trim(s) == s.subrange(a, b),
        trim(s).len() > 0 ==> !is_whitespace(trim(s)[0]) && !is_whitespace(trim(s).last()),
    decreases s.len(),
{
    if s.len() > 0 && is_whitespace(s[0]) {
        let t = s.drop_first();
        lemma_trim_shape(t);
        let (a, b) = choose|a: int, b: int| #[trigger] cut_whitespace(t, a, b) && trim(t) == t.subrange(a, b);
        lemma_cut_front(s, a, b);
    } else if s.len() > 0 && is_whitespace(s.last()) {
        let t = s.drop_last();
        lemma_trim_shape(t);
        let (a, b) = choose|a: int, b: int| #[trigger] cut_whitespace(t, a, b) && trim(t) == t.subrange(a, b);
        lemma_cut_back(s, a, b);
    } else {
        assert(trim(s) =~= s.subrange(0, s.len() as int));
        assert(cut_whitespace(s, 0, s.len() as int));
    }
}

proof fn lemma_cut_front(s: Seq<char>, a: int, b: int)
    requires
        s.len() > 0,
        is_whitespace(s[0]),
        cut_whitespace(s.drop_first(), a, b),
    ensures
        cut_whitespace(s, a + 1, b + 1),
        s.drop_first().subrange(a, b) == s.subrange(a + 1, b + 1),
{
    let t = s.drop_first();
    assert(t.subrange(a, b) =~= s.subrange(a + 1, b + 1));
    assert forall|i: int| 0 <= i < a + 1 implies is_whitespace(#[trigger] s[i]) by {
        if i > 0 {
            assert(s[i] == t[i - 1]);
        }
    }
    assert forall|i: int| b + 1 <= i < s.len() implies is_whitespace(#[trigger] s[i]) by {
        assert(s[i] == t[i - 1]);
    }
}

proof fn lemma_cut_back(s: Seq<char>, a: int, b: int)
    requires
        s.len() > 0,
        is_whitespace(s.last()),
        cut_whitespace(s.drop_last(), a, b),
    ensures
        cut_whitespace(s, a, b),
        s.drop_last().subrange(a, b) == s.subrange(a, b),
{
    let t = s.drop_last();
    assert(t.subrange(a, b) =~= s.subrange(a, b));
    assert forall|i: int| 0 <= i < a implies is_whitespace(#[trigger] s[i]) by {
        assert(s[i] == t[i]);
    }
    assert forall|i: int| b <= i < s.len() implies is_whitespace(#[trigger] s[i]) by {
        if i < t.len() {
            assert(s[i] == t[i]);
        }
    }
}

/// Law: `dsh --version` that printed nothing gives no version; otherwise the
/// version is the first line (up to the first `\n`), trimmed: it holds no
/// line break and does not start or end with whitespace.
pub proof fn lemma_printed_version_shape(out: Seq<char>)
    ensures
        out.len() == 0 <==> printed_version(out) is None,
        printed_version(out) matches Some(v) ==> {
            &&& !v.contains('\n')
            &&& (v.len() > 0 ==> !is_whitespace(v[0]) && !is_whitespace(v.last()))
        },
{
    if out.len() > 0 {
        lemma_find_in_some(out, seq!['\n']);
        let line = match find_in(out, seq!['\n']) {
            Some(i) => out.take(i),
            None => out,
        };
        let nl = seq!['\n'];
        assert(!line.contains('\n')) by {
            if line.contains('\n') {
                let k = choose|k: int| 0 <= k < line.len() && line[k] == '\n';
                assert(out[k] == line[k]);
                assert(out.subrange(k, k + 1) =~= nl);
                assert(occurs_at(out, nl, k));
                assert(contains_seq(out, nl));
            }
        }
        lemma_trim_shape(line);
        let v = trim(line);
        assert(!v.contains('\n')) by {
            if v.contains('\n') {
                let (a, b) = choose|a: int, b: int| #[trigger] cut_whitespace(line, a, b) && trim(line)
                    == line.subrange(a, b);
                let k = choose|k: int| 0 <= k < v.len() && v[k] == '\n';
                assert(line[a + k] == '\n');
            }
        }
    }
}

/// The first line of what `dsh --version` printed, trimmed: none when it
/// printed nothing. A line ends at the first `\n`; a `\r` before it is
/// whitespace and so trimmed as well.
pub open spec fn printed_version(out: Seq<char>) -> Option<Seq<char>> {
    if out.len() == 0 {
        None
    } else {
        match find_in(out, seq!['\n']) {
            Some(i) => Some(trim(out.take(i))),
            None => Some(trim(out)),
        }
    }
}

/// Tests `char::is_whitespace`.
pub fn char_is_whitespace(c: char) -> (b: bool)
    ensures
        b == is_whitespace(c),
{
    ('\u{9}' <= c && c <= '\u{d}') || c == ' ' || c == '\u{85}' || c == '\u{a0}' || c == '\u{1680}'
        || ('\u{2000}' <= c && c <= '\u{200a}') || c == '\u{2028}' || c == '\u{2029}' || c
        == '\u{202f}' || c == '\u{205f}' || c == '\u{3000}'
}

/// The bounds of `trim(cs[from..to])` within `cs`.
fn trim_bounds(cs: &Vec<char>, from: usize, to: usize) -> (r: (usize, usize))
    requires
        from <= to <= cs@.len(),
    ensures
        from <= r.0 <= r.1 <= to,
        cs@.subrange(r.0 as int, r.1 as int) == trim(cs@.subrange(from as int, to as int)),
{
    let mut a = from;
    while a < to && char_is_whitespace(cs[a])
        invariant
            from <= a <= to <= cs@.len(),
            trim(cs@.subrange(from as int, to as int)) == trim(cs@.subrange(a as int, to as int)),
        decreases to - a,
    {
        proof {
            assert(cs@.subrange(a as int, to as int).drop_first() =~= cs@.subrange(a + 1, to as int));
        }
        a = a + 1;
    }
    let mut b = to;
    while b > a && char_is_whitespace(cs[b - 1])
        invariant
            from <= a <= b <= to <= cs@.len(),
            a < b ==> !is_whitespace(cs@[a as int]),
            trim(cs@.subrange(from as int, to as int)) == trim(cs@.subrange(a as int, b as int)),
        decreases b - a,
    {
        proof {
            let t = cs@.subrange(a as int, b as int);
            assert(t[0] == cs@[a as int]);
            assert(t.last() == cs@[b - 1]);
            assert(t.drop_last() =~= cs@.subrange(a as int, b - 1));
        }
        b = b - 1;
    }
    proof {
        let t = cs@.subrange(a as int, b as int);
        if a < b {
            assert(t[0] == cs@[a as int]);
            assert(t.last() == cs@[b - 1]);
        }
    }
    (a, b)
}

/// Reads the version that `dsh --version` printed: its first line, trimmed.
pub fn version_from_output(out: &str) -> (r: Option<String>)
    ensures
        opt_seq(r) == printed_version(out@),
{
    let cs = chars_of(out);
    if cs.len() == 0 {
        return None;
    }
    let newline: Vec<char> = vec!['\n'];
    let end = match find(&cs, &newline) {
        Some(i) => i,
        None => cs.len(),
    };
    proof {
        assert(newline@ =~= seq!['\n']);
        assert(cs@.subrange(0, end as int) =~= cs@.take(end as int));
        assert(cs@.take(cs@.len() as int) =~= cs@);
    }
    let (a, b) = trim_bounds(&cs, 0, end);
    Some(String::from_str(out.substring_char(a, b)))
}

/// How long `dsh --version` may take, in milliseconds.
pub const VERSION_TIMEOUT_MS: u64 = 5000;

/// How long to wait between two checks that `dsh --version` has finished, in milliseconds.
pub const VERSION_POLL_MS: u64 = 50;

/// What to do next while waiting for `dsh --version`.
#[derive(Debug, Clone, Copy, PartialEq, Eq, Structural)]
pub enum VersionWait {
    /// It finished: read what it printed.
    Read,
    /// Pause for `millis` milliseconds, then check again.
    Sleep { millis: u64 },
    /// Give up without a version, first killing the process when `kill` is set.
    GiveUp { kill: bool },
}

/// The step after checking on `dsh --version`: `finished` is none when the
/// check itself failed. A finished process is read; a failed check gives up;
/// a process still running past the time limit is killed; otherwise wait.
pub open spec fn version_wait(finished: Option<bool>, timed_out: bool) -> VersionWait {
    match finished {
        Some(true) => VersionWait::Read,
        None => VersionWait::GiveUp { kill: false },
        Some(false) => if timed_out {
            VersionWait::GiveUp { kill: true }
        } else {
            VersionWait::Sleep { millis: VERSION_POLL_MS }
        },
    }
}

/// Law: a finished `dsh --version` is always read, in time or not; the wait
/// gives up only when the check fails (without a kill) or when the process
/// still runs at the time limit (with a kill); it pauses only while the
/// process runs within the time limit.
pub proof fn lemma_finished_version_is_read(finished: Option<bool>, timed_out: bool)
    ensures
        version_wait(Some(true), timed_out) == VersionWait::Read,
        version_wait(finished, timed_out) == VersionWait::Read <==> finished == Some(true),
        version_wait(finished, timed_out) == (VersionWait::GiveUp { kill: false }) <==> finished is None,
        version_wait(finished, timed_out) == (VersionWait::GiveUp { kill: true }) <==> (finished
            == Some(false) && timed_out),
        version_wait(finished, timed_out) is Sleep <==> (finished == Some(false) && !timed_out),
{
}

/// Decides the next step of waiting for `dsh --version`.
pub fn version_wait_step(finished: Option<bool>, timed_out: bool) -> (w: VersionWait)
    ensures
        w == version_wait(finished, timed_out),
{
    match finished {
        Some(true) => VersionWait::Read,
        None => VersionWait::GiveUp { kill: false },
        Some(false) => if timed_out {
            VersionWait::GiveUp { kill: true }
        } else {
            VersionWait::Sleep { millis: VERSION_POLL_MS }
        },
    }
}

/// The outcome of an update check.
#[derive(Debug, Clone)]
pub struct UpdateInfo {
    pub local_version: Option<String>,
    pub latest_version: Option<String>,
    pub error: Option<String>,
}

/// The message of an update check that could not read the local version.
pub open spec fn local_unknown_msg() -> Seq<char> {
    "无法解析本机 dsh 版本"@
}

/// The message of an update check that could not reach a registry.
pub open spec fn latest_unknown_msg() -> Seq<char> {
    "无法查询官方最新版本（网络？）"@
}

/// Puts the two versions of an update check together, with the reason when
/// one of them is missing (the local version is reported first).
pub fn check_update(local: Option<String>, latest: Option<String>) -> (info: UpdateInfo)
    ensures
        info.local_version == local,
        info.latest_version == latest,
        opt_seq(info.error) == (match (local, latest) {
            (Some(_), Some(_)) => None,
            (None, _) => Some(local_unknown_msg()),
            (_, None) => Some(latest_unknown_msg()),
        }),
{
    let error = match (&local, &latest) {
        (Some(_), Some(_)) => None,
        (None, _) => Some(String::from_str("无法解析本机 dsh 版本")),
        (_, None) => Some(String::from_str("无法查询官方最新版本（网络？）")),
    };
    UpdateInfo { local_version: local, latest_version: latest, error }
}

/// The line the tray menu shows for an update check.
pub open spec fn update_text(local: Option<Seq<char>>, latest: Option<Seq<char>>) -> Seq<char> {
    match (local, latest) {
        (Some(l), Some(r)) => if l == r {
            "dsh 已是最新（v"@ + l + "）"@
        } else {
            "dsh 有更新：v"@ + l + " → v"@ + r
        },
        (Some(l), None) => "dsh v"@ + l + "（最新版本查询失败）"@,
        (None, Some(r)) => "本机 dsh 版本未知；官方最新 v"@ + r,
        (None, None) => "dsh 版本检查失败"@,
    }
}

/// Law: the "already the latest" line is shown exactly when the two versions
/// are the same text; two different versions are shown as an update from the
/// local one to the latest one.
pub proof fn lemma_update_text_compares(l: Seq<char>, r: Seq<char>)
    ensures
        update_text(Some(l), Some(l)) == "dsh 已是最新（v"@ + l + "）"@,
        l != r ==> update_text(Some(l), Some(r)) == "dsh 有更新：v"@ + l + " → v"@ + r,
        (update_text(Some(l), Some(r)) == "dsh 已是最新（v"@ + l + "）"@) <==> l == r,
{
    reveal_strlit("dsh 已是最新（v");
    reveal_strlit("dsh 有更新：v");
    if l != r {
        let a = "dsh 有更新：v"@ + l + " → v"@ + r;
        let b = "dsh 已是最新（v"@ + l + "）"@;
        assert(a[4] == '有');
        assert(b[4] == '已');
    }
}

/// Writes the tray menu line for an update check.
pub fn format_update_text(info: &UpdateInfo) -> (s: String)
    ensures
        s@ == update_text(opt_seq(info.local_version), opt_seq(info.latest_version)),
{
    match (&info.local_version, &info.latest_version) {
        (Some(local), Some(latest)) => {
            if local.eq(latest) {
                let mut s = String::from_str("dsh 已是最新（v");
                s.append(local.as_str());
                s.append("）");
                s
            } else {
                let mut s = String::from_str("dsh 有更新：v");
                s.append(local.as_str());
                s.append(" → v");
                s.append(latest.as_str());
                s
            }
        },
        (Some(local), None) => {
            let mut s = String::from_str("dsh v");
            s.append(local.as_str());
            s.append("（最新版本查询失败）");
            s
        },
        (None, Some(latest)) => {
            let mut s = String::from_str("本机 dsh 版本未知；官方最新 v");
            s.append(latest.as_str());
            s
        },
        (None, None) => String::from_str("dsh 版本检查失败"),
    }
}

/// The registries asked for the latest version, in order.
pub open spec fn registry_url(i: int) -> Seq<char> {
    if i == 0 {
        "https://registry.npmjs.org/@deepseek-ai/dsh/latest"@
    } else {
        "https://registry.npmmirror.com/@deepseek-ai/dsh/latest"@
    }
}

/// How many registries are asked at most.
pub const REGISTRY_COUNT: usize = 2;

/// What to do next while looking for the latest published version.
#[derive(Debug)]
pub enum LatestQuery {
    /// Ask the registry at this address.
    Fetch { url: String },
    /// The search is over, with this result.
    Done { version: Option<String> },
}

/// The abstract value of a `LatestQuery`.
pub enum LatestQueryModel {
    Fetch { url: Seq<char> },
    Done { version: Option<Seq<char>> },
}

impl View for LatestQuery {
    type V = LatestQueryModel;

    open spec fn view(&self) -> LatestQueryModel {
        match self {
            LatestQuery::Fetch { url } => LatestQueryModel::Fetch { url: url@ },
            LatestQuery::Done { version } => LatestQueryModel::Done { version: opt_seq(*version) },
        }
    }
}

/// The step taken after `asked` registries were asked, the last of them
/// answering `last_answer`: an answer ends the search; otherwise the next
/// registry is asked, while there is one.
pub open spec fn latest_query_step(asked: int, last_answer: Option<Seq<char>>) -> LatestQueryModel {
    match last_answer {
        Some(v) => LatestQueryModel::Done { version: Some(v) },
        None => if asked < REGISTRY_COUNT {
            LatestQueryModel::Fetch { url: registry_url(asked) }
        } else {
            LatestQueryModel::Done { version: None }
        },
    }
}

/// Decides the search for the latest published version: given how many
/// registries were asked and the last one's answer, either ask the next
/// registry or end with the answer found.
pub fn query_latest_dsh_version(asked: usize, last_answer: Option<String>) -> (q: LatestQuery)
    ensures
        q@ == latest_query_step(asked as int, opt_seq(last_answer)),
{
    match last_answer {
        Some(v) => LatestQuery::Done { version: Some(v) },
        None => if asked == 0 {
            LatestQuery::Fetch {
                url: String::from_str("https://registry.npmjs.org/@deepseek-ai/dsh/latest"),
            }
        } else if asked == 1 {
            LatestQuery::Fetch {
                url: String::from_str("https://registry.npmmirror.com/@deepseek-ai/dsh/latest"),
            }
        } else {
            LatestQuery::Done { version: None }
        },
    }
}

/// Where the search leads when the registries answer `answers` in turn,
/// `asked` of them having been asked so far and the last one answering `last`.
pub open spec fn latest_search(
    answers: Seq<Option<Seq<char>>>,
    asked: nat,
    last: Option<Seq<char>>,
) -> Option<Seq<char>>
    decreases REGISTRY_COUNT - asked,
{
    match latest_query_step(asked as int, last) {
        LatestQueryModel::Done { version } => version,
        LatestQueryModel::Fetch { .. } => if asked < REGISTRY_COUNT {
            latest_search(answers, asked + 1, answers[asked as int])
        } else {
            None
        },
    }
}

/// Law: the search started with nothing asked ends with the first answer
/// among the registries, in their order, or with none when no registry answers.
pub proof fn lemma_latest_is_first_answer(answers: Seq<Option<Seq<char>>>)
    requires
        answers.len() == REGISTRY_COUNT,
    ensures
        latest_search(answers, 0, None) == (if answers[0] is Some {
            answers[0]
        } else {
            answers[1]
        }),
{
    assert(latest_search(answers, 1, answers[0]) == (if answers[0] is Some {
        answers[0]
    } else {
        latest_search(answers, 2, answers[1])
    }));
}

/// The command line that fetches a registry's latest-version document.
pub fn registry_request(url: &str) -> (l: LaunchSpec)
    ensures
        l.program@ == "/usr/bin/curl"@,
        seq_views(l.args@) == seq!["--max-time"@, "5"@, "-s"@, url@],
{
    let mut args: Vec<String> = Vec::new();
    args.push(String::from_str("--max-time"));
    args.push(String::from_str("5"));
    args.push(String::from_str("-s"));
    args.push(String::from_str(url));
    proof {
        assert(seq_views(args@) =~= seq!["--max-time"@, "5"@, "-s"@, url@]);
    }
    LaunchSpec { program: String::from_str("/usr/bin/curl"), args }
}

/// A registry's answer: the version in its response when the request succeeded.
pub fn registry_answer(succeeded: bool, body: &str) -> (r: Option<String>)
    ensures
        opt_seq(r) == (if succeeded {
            registry_version(body@)
        } else {
            None
        }),
{
    if !succeeded {
        return None;
    }
    extract_version_from_registry(body)
}

} // verus!
