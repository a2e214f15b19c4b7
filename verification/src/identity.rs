//! What a build says about its own source: version, checkout state, the
//! baseline it is compared against and the changes since then.

use vstd::prelude::*;

use crate::text::{
    chars_of, find, find_from, has_prefix, after_prefix, join, join_of, lines, lines_of, number,
    parse_number, same, slice_opt, split, split_of, starts_with, strip_leading, strip_leading_of,
    text_of, text_opt, texts, trim, trimmed,
};

verus! {

/// Three numbers that order releases.
pub type Version = (u64, u64, u64);

/// The version a tag names: three numbers between dots, after any `v`s.
pub open spec fn version_of(tag: Seq<char>) -> Option<Version> {
    let parts = split(strip_leading(tag, 'v'), '.');
    if parts.len() == 3 && number(parts[0]) is Some && number(parts[1]) is Some && number(
        parts[2],
    ) is Some {
        Some((number(parts[0])->0, number(parts[1])->0, number(parts[2])->0))
    } else {
        None
    }
}

pub open spec fn version_opt(tag: Option<Seq<char>>) -> Option<Version> {
    match tag {
        Some(tag) => version_of(tag),
        None => None,
    }
}

/// Whether `a` is an earlier release than `b`, or the same one.
pub open spec fn not_after(a: Version, b: Version) -> bool {
    a.0 < b.0 || (a.0 == b.0 && (a.1 < b.1 || (a.1 == b.1 && a.2 <= b.2)))
}

pub fn version(tag: &str) -> (r: Option<Version>)
    ensures
        r == version_of(tag@),
{
    let parts: Vec<String> = split_of(strip_leading_of(tag, 'v'), '.');
    let ghost spec_parts = split(strip_leading(tag@, 'v'), '.');
    assert(texts(parts@) == spec_parts);
    assert(parts@.len() == spec_parts.len());
    if parts.len() != 3 {
        return None;
    }
    assert(spec_parts[0] == parts@[0]@ && spec_parts[1] == parts@[1]@ && spec_parts[2]
        == parts@[2]@);
    match (
        parse_number(parts[0].as_str()),
        parse_number(parts[1].as_str()),
        parse_number(parts[2].as_str()),
    ) {
        (Some(a), Some(b), Some(c)) => Some((a, b, c)),
        _ => None,
    }
}

fn version_not_after(a: Version, b: Version) -> (r: bool)
    ensures
        r == not_after(a, b),
{
    a.0 < b.0 || (a.0 == b.0 && (a.1 < b.1 || (a.1 == b.1 && a.2 <= b.2)))
}

/// The text a command printed, without white space around it.
pub fn git(output: Option<&str>) -> (r: Option<String>)
    ensures
        text_opt(r) == (match slice_opt(output) {
            Some(t) => Some(trimmed(t)),
            None => None,
        }),
{
    match output {
        Some(t) => Some(trim(t).to_owned()),
        None => None,
    }
}

/// The lines of `listing` that name a version, in order.
pub open spec fn version_tags(listing: Seq<Seq<char>>) -> Seq<Seq<char>>
    decreases listing.len(),
{
    if listing.len() == 0 {
        Seq::empty()
    } else {
        let rest = version_tags(listing.drop_last());
        if version_of(listing.last()) is Some {
            rest.push(listing.last())
        } else {
            rest
        }
    }
}

/// The version tags a tag listing names; none where there is no listing.
pub fn tags(listing: Option<&str>) -> (r: Vec<String>)
    ensures
        texts(r@) == (match slice_opt(listing) {
            Some(t) => version_tags(lines(t)),
            None => Seq::empty(),
        }),
{
    let mut r: Vec<String> = Vec::new();
    let text: &str = match listing {
        Some(t) => t,
        None => {
            assert(texts(r@) =~= Seq::<Seq<char>>::empty());
            return r;
        },
    };
    let all: Vec<String> = lines_of(text);
    let ghost names = lines(text@);
    let mut i: usize = 0;
    assert(names.take(0) =~= Seq::<Seq<char>>::empty());
    assert(texts(r@) =~= Seq::<Seq<char>>::empty());
    while i < all.len()
        invariant
            i <= all@.len(),
            texts(all@) == names,
            all@.len() == names.len(),
            texts(r@) == version_tags(names.take(i as int)),
        decreases all@.len() - i,
    {
        let ghost before = r@;
        proof {
            assert(names.take(i + 1).drop_last() =~= names.take(i as int));
            assert(names[i as int] == all@[i as int]@);
        }
        if version(all[i].as_str()).is_some() {
            let name: String = all[i].as_str().to_owned();
            r.push(name);
            assert(texts(r@) =~= texts(before).push(name@));
        }
        i = i + 1;
    }
    assert(names.take(i as int) =~= names);
    r
}

/// How many commits a count printed by the revision listing stands for.
pub fn distance(count: Option<&str>) -> (r: Option<u64>)
    ensures
        r == (match slice_opt(count) {
            Some(t) => number(trimmed(t)),
            None => None,
        }),
{
    match count {
        Some(t) => parse_number(trim(t)),
        None => None,
    }
}

/// The heading a changelog line opens: what stands between `## [` and `]`.
pub open spec fn heading(line: Seq<char>) -> Option<Seq<char>> {
    if starts_with(line, "## ["@) {
        let rest = line.skip("## ["@.len() as int);
        Some(rest.take(find(rest, ']') as int))
    } else {
        None
    }
}

/// The heading that the line at `i` stands under.
pub open spec fn governing(all: Seq<Seq<char>>, i: int) -> Option<Seq<char>>
    decreases i + 1,
{
    if i < 0 {
        None
    } else if heading(all[i]) is Some {
        heading(all[i])
    } else {
        governing(all, i - 1)
    }
}

/// Whether entries under `head` belong to the comparison: pending ones, and
/// those of a version up to `current` that is newer than `baseline`; without
/// a baseline, those of `current` itself.
pub open spec fn wanted(
    head: Seq<char>,
    current: Option<Version>,
    baseline: Option<Version>,
) -> bool {
    head == "Unreleased"@ || match (version_of(head), current) {
        (Some(v), Some(c)) => match baseline {
            Some(b) => not_after(v, c) && !not_after(v, b),
            None => v == c,
        },
        _ => false,
    }
}

pub open spec fn kept(
    all: Seq<Seq<char>>,
    i: int,
    current: Option<Version>,
    baseline: Option<Version>,
) -> bool {
    governing(all, i) is Some && wanted(governing(all, i)->0, current, baseline)
}

/// The kept lines among the first `n`, each with a line feed.
pub open spec fn kept_text(
    all: Seq<Seq<char>>,
    n: int,
    current: Option<Version>,
    baseline: Option<Version>,
) -> Seq<char>
    decreases n,
{
    if n <= 0 {
        Seq::empty()
    } else {
        let before = kept_text(all, n - 1, current, baseline);
        if kept(all, n - 1, current, baseline) {
            before + all[n - 1].push('\n')
        } else {
            before
        }
    }
}

pub open spec fn excerpt(
    text: Seq<char>,
    current: Seq<char>,
    baseline: Option<Seq<char>>,
) -> Seq<char> {
    let all = lines(text);
    trimmed(kept_text(all, all.len() as int, version_of(current), version_opt(baseline)))
}

fn heading_of(line: &str) -> (r: Option<String>)
    ensures
        text_opt(r) == heading(line@),
{
    match after_prefix(line, "## [") {
        Some(rest) => {
            let v: Vec<char> = chars_of(rest);
            let k: usize = find_from(&v, ']', 0);
            assert(rest@.skip(0) =~= rest@);
            let head: String = text_of(&v, 0, k);
            assert(head@ =~= rest@.take(find(rest@, ']') as int));
            Some(head)
        },
        None => None,
    }
}

fn heading_wanted(head: &str, current: Option<Version>, baseline: Option<Version>) -> (r: bool)
    ensures
        r == wanted(head@, current, baseline),
{
    if same(head, "Unreleased") {
        return true;
    }
    match (version(head), current) {
        (Some(v), Some(c)) => match baseline {
            Some(b) => version_not_after(v, c) && !version_not_after(v, b),
            None => v.0 == c.0 && v.1 == c.1 && v.2 == c.2,
        },
        _ => false,
    }
}

/// The maintained entries newer than the comparison baseline: neither older
/// release copy, nor sections later than `current`.
pub fn changelog_excerpt(text: &str, current: &str, baseline: Option<&str>) -> (r: String)
    ensures
        r@ == excerpt(text@, current@, slice_opt(baseline)),
{
    let current_version: Option<Version> = version(current);
    let baseline_version: Option<Version> = match baseline {
        Some(b) => version(b),
        None => None,
    };
    let all: Vec<String> = lines_of(text);
    let ghost spec_all = lines(text@);
    let mut selected: bool = false;
    let mut result: String = String::new();
    let mut i: usize = 0;
    while i < all.len()
        invariant
            i <= all@.len(),
            texts(all@) == spec_all,
            all@.len() == spec_all.len(),
            selected == kept(spec_all, i - 1, current_version, baseline_version),
            result@ == kept_text(spec_all, i as int, current_version, baseline_version),
        decreases all@.len() - i,
    {
        let line: &str = all[i].as_str();
        assert(spec_all[i as int] == line@);
        match heading_of(line) {
            Some(head) => {
                selected = heading_wanted(head.as_str(), current_version, baseline_version);
            },
            None => {},
        }
        assert(selected == kept(spec_all, i as int, current_version, baseline_version));
        if selected {
            let ghost before = result@;
            result.append(line);
            result.push('\n');
            assert(result@ =~= before + line@.push('\n'));
        }
        i = i + 1;
    }
    trim(result.as_str()).to_owned()
}

/// A changelog section of a version at or below the baseline, or above the
/// current version, contributes no line to the excerpt.
pub proof fn excerpt_excludes_baseline_and_future(
    head: Seq<char>,
    current: Version,
    baseline: Version,
)
    requires
        head != "Unreleased"@,
        version_of(head) is Some,
        not_after(version_of(head)->0, baseline) || !not_after(version_of(head)->0, current),
    ensures
        forall|all: Seq<Seq<char>>, i: int|
            governing(all, i) == Some(head) ==> !#[trigger] kept(
                all,
                i,
                Some(current),
                Some(baseline),
            ),
{
}

/// Pending entries are in the excerpt whatever it is compared against.
pub proof fn excerpt_keeps_pending_entries(
    all: Seq<Seq<char>>,
    i: int,
    current: Option<Version>,
    baseline: Option<Version>,
)
    requires
        governing(all, i) == Some("Unreleased"@),
    ensures
        kept(all, i, current, baseline),
{
}

/// Whether a changed path concerns only the project's upkeep.
pub open spec fn is_maintenance(path: Seq<char>) -> bool {
    ||| starts_with(path, ".github/"@)
    ||| starts_with(path, "docs/"@)
    ||| starts_with(path, "guide/"@)
    ||| path == "AGENTS.md"@
    ||| path == "README.md"@
    ||| path == "CHANGELOG.md"@
    ||| path == "release-plz.toml"@
}

/// Whether a changed path belongs to the application.
pub open spec fn is_application(path: Seq<char>) -> bool {
    ||| starts_with(path, "crates/"@)
    ||| starts_with(path, "mcp/"@)
    ||| path == "Cargo.toml"@
    ||| path == "Cargo.lock"@
}

pub fn maintenance(path: &str) -> (r: bool)
    ensures
        r == is_maintenance(path@),
{
    has_prefix(path, ".github/") || has_prefix(path, "docs/") || has_prefix(path, "guide/")
        || same(path, "AGENTS.md") || same(path, "README.md") || same(path, "CHANGELOG.md")
        || same(path, "release-plz.toml")
}

fn application(path: &str) -> (r: bool)
    ensures
        r == is_application(path@),
{
    has_prefix(path, "crates/") || has_prefix(path, "mcp/") || same(path, "Cargo.toml") || same(
        path,
        "Cargo.lock",
    )
}

/// The heading under which a commit is listed.
#[derive(Clone, Copy, PartialEq, Eq, Structural, Debug)]
pub enum Bucket {
    Application,
    Upkeep,
    Other,
}

/// A commit whose paths are all maintenance is upkeep; one that touches the
/// application is application history; the rest, and commits whose paths are
/// unknown, are other history.
pub open spec fn bucket_of(files: Option<Seq<char>>) -> Bucket {
    match files {
        Some(paths) => {
            let all = lines(paths);
            if paths.len() > 0 && (forall|i: int|
                0 <= i < all.len() ==> is_maintenance(#[trigger] all[i])) {
                Bucket::Upkeep
            } else if exists|i: int| 0 <= i < all.len() && is_application(#[trigger] all[i]) {
                Bucket::Application
            } else {
                Bucket::Other
            }
        },
        None => Bucket::Other,
    }
}

fn bucket(files: Option<&str>) -> (r: Bucket)
    ensures
        r == bucket_of(slice_opt(files)),
{
    let paths: &str = match files {
        Some(p) => p,
        None => {
            return Bucket::Other;
        },
    };
    let all: Vec<String> = lines_of(paths);
    let ghost spec_all = lines(paths@);
    let mut upkeep: bool = true;
    let mut app: bool = false;
    let mut i: usize = 0;
    while i < all.len()
        invariant
            i <= all@.len(),
            texts(all@) == spec_all,
            all@.len() == spec_all.len(),
            upkeep == (forall|j: int| 0 <= j < i ==> is_maintenance(#[trigger] spec_all[j])),
            app == (exists|j: int| 0 <= j < i && is_application(#[trigger] spec_all[j])),
        decreases all@.len() - i,
    {
        assert(spec_all[i as int] == all@[i as int]@);
        if !maintenance(all[i].as_str()) {
            upkeep = false;
        }
        if application(all[i].as_str()) {
            app = true;
        }
        i = i + 1;
    }
    if !paths.is_empty() && upkeep {
        Bucket::Upkeep
    } else if app {
        Bucket::Application
    } else {
        Bucket::Other
    }
}

/// One commit of the history: its hash and its subject line.
pub struct Commit {
    pub sha: String,
    pub subject: String,
}

pub struct CommitView {
    pub sha: Seq<char>,
    pub subject: Seq<char>,
}

impl View for Commit {
    type V = CommitView;

    open spec fn view(&self) -> CommitView {
        CommitView { sha: self.sha@, subject: self.subject@ }
    }
}

pub open spec fn commits_view(v: Seq<Commit>) -> Seq<CommitView> {
    v.map_values(|c: Commit| c@)
}

/// How many commits the history lists at most.
pub const HISTORY_LIMIT: usize = 60;

/// The commits among the first `n` log lines: those with a tab between hash
/// and subject.
pub open spec fn log_commits(all: Seq<Seq<char>>, n: int) -> Seq<CommitView>
    decreases n,
{
    if n <= 0 {
        Seq::empty()
    } else {
        let before = log_commits(all, n - 1);
        let line = all[n - 1];
        let k = find(line, '\t');
        if k < line.len() {
            before.push(CommitView { sha: line.take(k as int), subject: line.skip(k as int + 1) })
        } else {
            before
        }
    }
}

/// The commits that the history of `log` lists.
pub open spec fn listed_commits(log: Seq<char>) -> Seq<CommitView> {
    let all = lines(log);
    log_commits(
        all,
        if all.len() < HISTORY_LIMIT {
            all.len() as int
        } else {
            HISTORY_LIMIT as int
        },
    )
}

/// The commits that the history of `log` lists, so that the changed paths of
/// each can be looked up.
pub fn history_commits(log: &str) -> (r: Vec<Commit>)
    ensures
        commits_view(r@) == listed_commits(log@),
{
    let all: Vec<String> = lines_of(log);
    let ghost spec_all = lines(log@);
    let n: usize = if all.len() < HISTORY_LIMIT {
        all.len()
    } else {
        HISTORY_LIMIT
    };
    let mut r: Vec<Commit> = Vec::new();
    let mut i: usize = 0;
    assert(commits_view(r@) =~= Seq::<CommitView>::empty());
    while i < n
        invariant
            i <= n <= all@.len(),
            texts(all@) == spec_all,
            all@.len() == spec_all.len(),
            commits_view(r@) == log_commits(spec_all, i as int),
        decreases n - i,
    {
        let line: &str = all[i].as_str();
        assert(spec_all[i as int] == line@);
        let v: Vec<char> = chars_of(line);
        let k: usize = find_from(&v, '\t', 0);
        assert(line@.skip(0) =~= line@);
        if k < v.len() {
            let ghost before = r@;
            let sha: String = text_of(&v, 0, k);
            let subject: String = text_of(&v, k + 1, v.len());
            assert(sha@ =~= line@.take(k as int));
            assert(subject@ =~= line@.skip(k + 1));
            let commit: Commit = Commit { sha, subject };
            r.push(commit);
            assert(commits_view(r@) =~= commits_view(before).push(commit@));
        }
        i = i + 1;
    }
    r
}

/// How a commit is listed: its subject and the short form of its hash.
pub open spec fn entry_text(commit: CommitView) -> Seq<char> {
    "- "@ + commit.subject + " ("@ + commit.sha.take(7) + ")"@
}

/// The entries of one bucket among the first `n` commits.
pub open spec fn bucket_entries(
    commits: Seq<CommitView>,
    files: Seq<Option<Seq<char>>>,
    which: Bucket,
    n: int,
) -> Seq<Seq<char>>
    decreases n,
{
    if n <= 0 {
        Seq::empty()
    } else {
        let before = bucket_entries(commits, files, which, n - 1);
        if bucket_of(files[n - 1]) == which {
            before.push(entry_text(commits[n - 1]))
        } else {
            before
        }
    }
}

pub open spec fn section_text(name: Seq<char>, entries: Seq<Seq<char>>) -> Seq<char> {
    if entries.len() == 0 {
        Seq::empty()
    } else {
        "\n### "@ + name + "\n"@ + join(entries, "\n"@) + "\n"@
    }
}

/// The listed commits in three sections, with a note where older ones are left
/// out; a sentence of its own where there is nothing to list.
pub open spec fn history_text(log: Option<Seq<char>>, files: Seq<Option<Seq<char>>>) -> Seq<char> {
    match log {
        None => "Commit history unavailable.\n"@,
        Some(log) => {
            let commits = listed_commits(log);
            let n = commits.len() as int;
            let body = section_text(
                "Application history"@,
                bucket_entries(commits, files, Bucket::Application, n),
            ) + section_text(
                "Build maintenance and documentation"@,
                bucket_entries(commits, files, Bucket::Upkeep, n),
            ) + section_text(
                "Other history"@,
                bucket_entries(commits, files, Bucket::Other, n),
            );
            let out = if lines(log).len() > HISTORY_LIMIT {
                body + "\nShowing the latest 60 commits; older changes are omitted.\n"@
            } else {
                body
            };
            if out.len() == 0 {
                "No commits in this comparison. This does not describe uncommitted edits.\n"@
            } else {
                out
            }
        },
    }
}

pub open spec fn texts_opt(v: Seq<Option<String>>) -> Seq<Option<Seq<char>>> {
    v.map_values(|t: Option<String>| text_opt(t))
}

/// Whether a hash can be cut to its first `n` characters, each one byte wide.
pub open spec fn shortens(hash: Seq<char>, n: int) -> bool {
    n <= hash.len() && forall|i: int| 0 <= i < n ==> (#[trigger] hash[i]) as u32 <= 0x7f
}

/// What `history` needs of its arguments: paths for each listed commit, and
/// hashes long enough to shorten.
pub open spec fn history_ready(log: Option<Seq<char>>, files: Seq<Option<Seq<char>>>) -> bool {
    match log {
        None => true,
        Some(log) => {
            &&& files.len() == listed_commits(log).len()
            &&& forall|i: int|
                0 <= i < listed_commits(log).len() ==> shortens((#[trigger] listed_commits(
                    log,
                )[i]).sha, 7)
        },
    }
}

fn push_section(out: &mut String, name: &str, entries: &Vec<String>)
    ensures
        final(out)@ == old(out)@ + section_text(name@, texts(entries@)),
{
    if entries.len() > 0 {
        out.append("\n### ");
        out.append(name);
        out.append("\n");
        let body: String = join_of(entries, "\n");
        out.append(body.as_str());
        out.append("\n");
    }
    assert(out@ =~= old(out)@ + section_text(name@, texts(entries@)));
}

/// The listed commits in three sections. `files` holds, for each commit that
/// `history_commits` lists, the paths it changed, one to a line.
pub fn history(log: Option<&str>, files: &Vec<Option<String>>) -> (r: String)
    requires
        history_ready(slice_opt(log), texts_opt(files@)),
    ensures
        r@ == history_text(slice_opt(log), texts_opt(files@)),
{
    let log: &str = match log {
        Some(t) => t,
        None => {
            return "Commit history unavailable.\n".to_owned();
        },
    };
    let commits: Vec<Commit> = history_commits(log);
    let ghost spec_commits = listed_commits(log@);
    let ghost spec_files = texts_opt(files@);
    assert(commits@.len() == spec_commits.len());
    let mut app: Vec<String> = Vec::new();
    let mut upkeep: Vec<String> = Vec::new();
    let mut other: Vec<String> = Vec::new();
    let mut i: usize = 0;
    assert(texts(app@) =~= Seq::<Seq<char>>::empty());
    assert(texts(upkeep@) =~= Seq::<Seq<char>>::empty());
    assert(texts(other@) =~= Seq::<Seq<char>>::empty());
    while i < commits.len()
        invariant
            i <= commits@.len(),
            commits_view(commits@) == spec_commits,
            commits@.len() == spec_commits.len(),
            spec_files == texts_opt(files@),
            files@.len() == commits@.len(),
            forall|j: int|
                0 <= j < spec_commits.len() ==> shortens((#[trigger] spec_commits[j]).sha, 7),
            texts(app@) == bucket_entries(spec_commits, spec_files, Bucket::Application, i as int),
            texts(upkeep@) == bucket_entries(spec_commits, spec_files, Bucket::Upkeep, i as int),
            texts(other@) == bucket_entries(spec_commits, spec_files, Bucket::Other, i as int),
        decreases commits@.len() - i,
    {
        let commit: &Commit = &commits[i];
        assert(spec_commits[i as int] == commit@);
        assert(spec_files[i as int] == text_opt(files@[i as int]));
        let mut entry: String = "- ".to_owned();
        entry.append(commit.subject.as_str());
        entry.append(" (");
        let short: &str = commit.sha.as_str().substring_char(0, 7);
        assert(short@ =~= commit@.sha.take(7));
        entry.append(short);
        entry.append(")");
        assert(entry@ =~= entry_text(commit@));
        let which: Bucket = match &files[i] {
            Some(paths) => bucket(Some(paths.as_str())),
            None => bucket(None),
        };
        match which {
            Bucket::Application => {
                let ghost before = app@;
                app.push(entry);
                assert(texts(app@) =~= texts(before).push(entry@));
            },
            Bucket::Upkeep => {
                let ghost before = upkeep@;
                upkeep.push(entry);
                assert(texts(upkeep@) =~= texts(before).push(entry@));
            },
            Bucket::Other => {
                let ghost before = other@;
                other.push(entry);
                assert(texts(other@) =~= texts(before).push(entry@));
            },
        }
        i = i + 1;
    }
    let mut out: String = String::new();
    push_section(&mut out, "Application history", &app);
    push_section(&mut out, "Build maintenance and documentation", &upkeep);
    push_section(&mut out, "Other history", &other);
    let all: Vec<String> = lines_of(log);
    assert(all@.len() == lines(log@).len()) by {
        assert(texts(all@).len() == all@.len());
    }
    if all.len() > HISTORY_LIMIT {
        out.append("\nShowing the latest 60 commits; older changes are omitted.\n");
    }
    assert(out@ =~= {
        let n = spec_commits.len() as int;
        let body = section_text(
            "Application history"@,
            bucket_entries(spec_commits, spec_files, Bucket::Application, n),
        ) + section_text(
            "Build maintenance and documentation"@,
            bucket_entries(spec_commits, spec_files, Bucket::Upkeep, n),
        ) + section_text(
            "Other history"@,
            bucket_entries(spec_commits, spec_files, Bucket::Other, n),
        );
        if lines(log@).len() > HISTORY_LIMIT {
            body + "\nShowing the latest 60 commits; older changes are omitted.\n"@
        } else {
            body
        }
    });
    if out.as_str().is_empty() {
        return "No commits in this comparison. This does not describe uncommitted edits.\n".to_owned();
    }
    out
}

/// Every listed commit is an entry of exactly one section: the three sections
/// together hold as many entries as there are commits.
pub proof fn history_lists_every_commit_once(
    commits: Seq<CommitView>,
    files: Seq<Option<Seq<char>>>,
    n: int,
)
    requires
        0 <= n <= commits.len(),
    ensures
        bucket_entries(commits, files, Bucket::Application, n).len() + bucket_entries(
            commits,
            files,
            Bucket::Upkeep,
            n,
        ).len() + bucket_entries(commits, files, Bucket::Other, n).len() == n,
    decreases n,
{
    if n > 0 {
        history_lists_every_commit_once(commits, files, n - 1);
    }
}

/// A version is three numbers between dots, in this order; a `v` before it
/// makes no difference.
pub proof fn a_version_is_three_numbers(
    tag: &str,
    r: Option<Version>,
    with_v: &str,
    s: Option<Version>,
)
    requires
        call_ensures(version, (tag,), r),
        call_ensures(version, (with_v,), s),
        with_v@ == seq!['v'] + tag@,
    ensures
        r == s,
        ({
            let parts = split(strip_leading(tag@, 'v'), '.');
            &&& r is Some <==> parts.len() == 3 && number(parts[0]) is Some && number(
                parts[1],
            ) is Some && number(parts[2]) is Some
            &&& r matches Some(v) ==> {
                &&& number(parts[0]) == Some(v.0)
                &&& number(parts[1]) == Some(v.1)
                &&& number(parts[2]) == Some(v.2)
            }
        }),
{
    assert(with_v@.drop_first() =~= tag@);
    assert(strip_leading(with_v@, 'v') == strip_leading(tag@, 'v'));
}

/// What a command printed comes without the white space around it, and only
/// where it printed something.
pub proof fn printed_text_is_trimmed(t: &str, r: Option<String>, none: Option<String>)
    requires
        call_ensures(git, (Some(t),), r),
        call_ensures(git, (None,), none),
    ensures
        none is None,
        r is Some,
        r->0@ == trimmed(t@),
{
}

proof fn lemma_version_tags(listing: Seq<Seq<char>>)
    ensures
        version_tags(listing) == listing.filter(|t: Seq<char>| version_of(t) is Some),
    decreases listing.len(),
{
    reveal(Seq::filter);
    if listing.len() > 0 {
        lemma_version_tags(listing.drop_last());
    }
}

/// The version tags are the lines of the listing that are versions, in order.
pub proof fn tags_are_the_versions_of_a_listing(
    t: &str,
    r: Vec<String>,
    none: Vec<String>,
)
    requires
        call_ensures(tags, (Some(t),), r),
        call_ensures(tags, (None,), none),
    ensures
        none@.len() == 0,
        texts(r@) == lines(t@).filter(|l: Seq<char>| version_of(l) is Some),
{
    lemma_version_tags(lines(t@));
    assert(texts(none@).len() == none@.len());
}

/// A count is read without the white space around it.
pub proof fn a_count_is_read(t: &str, r: Option<u64>, none: Option<u64>)
    requires
        call_ensures(distance, (Some(t),), r),
        call_ensures(distance, (None,), none),
    ensures
        none is None,
        r == number(trimmed(t@)),
{
}

/// A line of a changelog opens a section where it starts with `## [`; the
/// section's name ends before the next bracket.
pub proof fn a_heading_stands_in_brackets(line: Seq<char>, name: Seq<char>, rest: Seq<char>)
    requires
        line == "## ["@ + name + seq![']'] + rest,
        forall|i: int| 0 <= i < name.len() ==> name[i] != ']',
    ensures
        heading(line) == Some(name),
{
    let after = line.skip("## ["@.len() as int);
    assert(line.take("## ["@.len() as int) =~= "## ["@);
    assert(after =~= name + seq![']'] + rest);
    crate::text::lemma_find(after, ']');
    let k = find(after, ']') as int;
    assert(after[name.len() as int] == ']');
    if k < name.len() {
        assert(after[k] == name[k]);
    }
    assert(after.take(k) =~= name);
}

/// The lines of a section are in the excerpt where the section holds what is
/// pending, where its version is later than the baseline and not later than
/// the current one, or, without a baseline, where it is the current one.
pub proof fn an_excerpt_holds_what_is_new(
    all: Seq<Seq<char>>,
    i: int,
    head: Seq<char>,
    v: Version,
    c: Version,
    b: Version,
)
    requires
        governing(all, i) == Some(head),
        head != "Unreleased"@,
        version_of(head) == Some(v),
    ensures
        kept(all, i, Some(c), None) <==> v == c,
        !kept(all, i, None, Some(b)),
        v.0 == c.0 && v.1 == c.1 ==> (kept(all, i, Some(c), Some(b)) ==> v.2 <= c.2),
        v.0 == c.0 && kept(all, i, Some(c), Some(b)) ==> v.1 <= c.1,
        kept(all, i, Some(c), Some(b)) ==> v.0 <= c.0 && v.0 >= b.0,
        v.0 == b.0 && kept(all, i, Some(c), Some(b)) ==> v.1 >= b.1,
        v.0 == b.0 && v.1 == b.1 && kept(all, i, Some(c), Some(b)) ==> v.2 > b.2,
        b.0 < v.0 < c.0 ==> kept(all, i, Some(c), Some(b)),
        b.0 == v.0 == c.0 && b.1 < v.1 < c.1 ==> kept(all, i, Some(c), Some(b)),
        b.0 == v.0 == c.0 && b.1 == v.1 == c.1 && b.2 < v.2 <= c.2 ==> kept(
            all,
            i,
            Some(c),
            Some(b),
        ),
        b.0 < v.0 == c.0 && v.1 < c.1 ==> kept(all, i, Some(c), Some(b)),
        b.0 < v.0 == c.0 && v.1 == c.1 && v.2 <= c.2 ==> kept(all, i, Some(c), Some(b)),
        b.0 == v.0 < c.0 && b.1 < v.1 ==> kept(all, i, Some(c), Some(b)),
        b.0 == v.0 < c.0 && b.1 == v.1 && b.2 < v.2 ==> kept(all, i, Some(c), Some(b)),
{
}

/// A line stands under the heading that it is, or else under the one that the
/// line before it stands under; before the first heading it stands under none
/// and is left out.
pub proof fn a_line_stands_under_the_last_heading(
    all: Seq<Seq<char>>,
    i: int,
    current: Option<Version>,
    baseline: Option<Version>,
)
    requires
        0 <= i < all.len(),
    ensures
        heading(all[i]) is Some ==> governing(all, i) == heading(all[i]),
        heading(all[i]) is None && i > 0 ==> governing(all, i) == governing(all, i - 1),
        heading(all[i]) is None && i == 0 ==> governing(all, i) is None,
        governing(all, i) is None ==> !kept(all, i, current, baseline),
{
}

/// The excerpt is the kept lines in their order, each on a line of its own,
/// without white space around them.
pub proof fn an_excerpt_is_made_of_lines(
    text: &str,
    current: &str,
    baseline: Option<&str>,
    r: String,
    n: int,
)
    requires
        call_ensures(changelog_excerpt, (text, current, baseline), r),
        0 <= n < lines(text@).len(),
    ensures
        ({
            let all = lines(text@);
            let c = version_of(current@);
            let b = match baseline {
                Some(b) => version_of(b@),
                None => None,
            };
            &&& r@ == trimmed(kept_text(all, all.len() as int, c, b))
            &&& kept_text(all, 0, c, b).len() == 0
            &&& kept(all, n, c, b) ==> kept_text(all, n + 1, c, b) == kept_text(all, n, c, b)
                + all[n] + seq!['\n']
            &&& !kept(all, n, c, b) ==> kept_text(all, n + 1, c, b) == kept_text(all, n, c, b)
        }),
{
    let all = lines(text@);
    let c = version_of(current@);
    let b = match baseline {
        Some(b) => version_of(b@),
        None => None,
    };
    if kept(all, n, c, b) {
        assert(kept_text(all, n + 1, c, b) =~= kept_text(all, n, c, b) + all[n] + seq!['\n']);
    }
}

/// A path is one of upkeep where it lies in one of three directories or is one
/// of four files.
pub proof fn upkeep_lies_in_few_places(path: &str, r: bool)
    requires
        call_ensures(maintenance, (path,), r),
    ensures
        r <==> {
            ||| starts_with(path@, ".github/"@)
            ||| starts_with(path@, "docs/"@)
            ||| starts_with(path@, "guide/"@)
            ||| path@ == "AGENTS.md"@
            ||| path@ == "README.md"@
            ||| path@ == "CHANGELOG.md"@
            ||| path@ == "release-plz.toml"@
        },
{
}

/// A commit is upkeep where it changed upkeep alone, application history where
/// it changed that too or only that, and other history where neither is known.
pub proof fn a_commit_is_listed_by_what_it_changed(paths: Seq<char>)
    ensures
        bucket_of(None) == Bucket::Other,
        ({
            let all = lines(paths);
            let upkeep = forall|i: int| 0 <= i < all.len() ==> is_maintenance(#[trigger] all[i]);
            let app = exists|i: int|
                0 <= i < all.len() && {
                    ||| starts_with(#[trigger] all[i], "crates/"@)
                    ||| starts_with(all[i], "mcp/"@)
                    ||| all[i] == "Cargo.toml"@
                    ||| all[i] == "Cargo.lock"@
                };
            &&& bucket_of(Some(paths)) == Bucket::Upkeep <==> paths.len() > 0 && upkeep
            &&& bucket_of(Some(paths)) == Bucket::Application <==> !(paths.len() > 0 && upkeep)
                && app
            &&& bucket_of(Some(paths)) == Bucket::Other <==> !(paths.len() > 0 && upkeep) && !app
        }),
{
    let all = lines(paths);
    if exists|i: int| 0 <= i < all.len() && is_application(#[trigger] all[i]) {
        let i = choose|i: int| 0 <= i < all.len() && is_application(#[trigger] all[i]);
        assert(starts_with(all[i], "crates/"@) || starts_with(all[i], "mcp/"@) || all[i]
            == "Cargo.toml"@ || all[i] == "Cargo.lock"@);
    }
    if exists|i: int|
        0 <= i < all.len() && {
            ||| starts_with(#[trigger] all[i], "crates/"@)
            ||| starts_with(all[i], "mcp/"@)
            ||| all[i] == "Cargo.toml"@
            ||| all[i] == "Cargo.lock"@
        } {
        let i = choose|i: int|
            0 <= i < all.len() && {
                ||| starts_with(#[trigger] all[i], "crates/"@)
                ||| starts_with(all[i], "mcp/"@)
                ||| all[i] == "Cargo.toml"@
                ||| all[i] == "Cargo.lock"@
            };
        assert(is_application(all[i]));
    }
}

proof fn lemma_log_commits(all: Seq<Seq<char>>, n: int)
    requires
        0 <= n <= all.len(),
    ensures
        log_commits(all, n).len() <= n,
        forall|j: int|
            0 <= j < log_commits(all, n).len() ==> {
                let c = #[trigger] log_commits(all, n)[j];
                &&& forall|x: int| 0 <= x < c.sha.len() ==> c.sha[x] != '\t'
                &&& all.take(n).contains(c.sha + seq!['\t'] + c.subject)
            },
        (forall|i: int| 0 <= i < n ==> crate::text::has_char(#[trigger] all[i], '\t'))
            ==> log_commits(all, n).len() == n,
    decreases n,
{
    if n > 0 {
        lemma_log_commits(all, n - 1);
        let before = log_commits(all, n - 1);
        let after = log_commits(all, n);
        let line = all[n - 1];
        let k = find(line, '\t') as int;
        crate::text::lemma_find(line, '\t');
        assert forall|j: int| 0 <= j < after.len() implies {
            let c = #[trigger] after[j];
            &&& forall|x: int| 0 <= x < c.sha.len() ==> c.sha[x] != '\t'
            &&& all.take(n).contains(c.sha + seq!['\t'] + c.subject)
        } by {
            let c = after[j];
            if j < before.len() {
                assert(c == before[j]);
                let text = c.sha + seq!['\t'] + c.subject;
                let prev = all.take(n - 1);
                let i = choose|i: int| 0 <= i < prev.len() && prev[i] == text;
                assert(all.take(n)[i] == text);
            } else {
                assert(c.sha + seq!['\t'] + c.subject =~= line);
                assert(all.take(n)[n - 1] == line);
            }
        }
        if forall|i: int| 0 <= i < n ==> crate::text::has_char(#[trigger] all[i], '\t') {
            assert(crate::text::has_char(all[n - 1], '\t'));
        }
    }
}

/// The history lists the first sixty lines of a log at most. Each commit is
/// one of these lines, taken apart at its first tab, and a line without a tab
/// is none.
pub proof fn a_commit_is_a_line_of_the_log(log: &str, r: Vec<Commit>)
    requires
        call_ensures(history_commits, (log,), r),
    ensures
        ({
            let all = lines(log@);
            let n = if all.len() < 60 {
                all.len() as int
            } else {
                60int
            };
            &&& r@.len() <= n
            &&& forall|j: int|
                0 <= j < r@.len() ==> {
                    &&& !crate::text::has_char((#[trigger] r@[j]).sha@, '\t')
                    &&& all.take(n).contains(r@[j].sha@ + seq!['\t'] + r@[j].subject@)
                }
            &&& (forall|i: int| 0 <= i < n ==> crate::text::has_char(#[trigger] all[i], '\t'))
                ==> r@.len() == n
        }),
{
    let all = lines(log@);
    let n = if all.len() < 60 {
        all.len() as int
    } else {
        60int
    };
    lemma_log_commits(all, n);
    let c = log_commits(all, n);
    assert(commits_view(r@) == c);
    assert(commits_view(r@).len() == r@.len());
    assert forall|j: int| 0 <= j < r@.len() implies {
        &&& !crate::text::has_char((#[trigger] r@[j]).sha@, '\t')
        &&& all.take(n).contains(r@[j].sha@ + seq!['\t'] + r@[j].subject@)
    } by {
        assert(commits_view(r@)[j] == r@[j]@);
        assert(c[j] == r@[j]@);
    }
}

/// Where there is no log the history says so, and where it lists nothing it
/// says that.
pub proof fn a_history_says_what_is_missing(
    files: &Vec<Option<String>>,
    none: String,
    log: &str,
    r: String,
)
    requires
        call_ensures(history, (None, files), none),
        call_ensures(history, (Some(log), files), r),
        lines(log@).len() == 0,
    ensures
        none@ == "Commit history unavailable.\n"@,
        r@ == "No commits in this comparison. This does not describe uncommitted edits.\n"@,
{
}

/// A history has up to three sections, the application's first and other
/// history last, and a note where more than sixty lines were given.
pub proof fn a_history_has_three_sections(log: &str, files: &Vec<Option<String>>, r: String)
    requires
        call_ensures(history, (Some(log), files), r),
        history_ready(Some(log@), texts_opt(files@)),
        listed_commits(log@).len() > 0,
    ensures
        ({
            let commits = listed_commits(log@);
            let paths = texts_opt(files@);
            let n = commits.len() as int;
            let app = bucket_entries(commits, paths, Bucket::Application, n);
            let upkeep = bucket_entries(commits, paths, Bucket::Upkeep, n);
            let other = bucket_entries(commits, paths, Bucket::Other, n);
            let body = section_text("Application history"@, app) + section_text(
                "Build maintenance and documentation"@,
                upkeep,
            ) + section_text("Other history"@, other);
            &&& app.len() + upkeep.len() + other.len() == n
            &&& lines(log@).len() <= 60 ==> r@ == body
            &&& lines(log@).len() > 60 ==> r@ == body
                + "\nShowing the latest 60 commits; older changes are omitted.\n"@
        }),
{
    let commits = listed_commits(log@);
    let paths = texts_opt(files@);
    let n = commits.len() as int;
    lemma_buckets_share(commits, paths, n);
    reveal_strlit("\n### ");
    let app = bucket_entries(commits, paths, Bucket::Application, n);
    let upkeep = bucket_entries(commits, paths, Bucket::Upkeep, n);
    let other = bucket_entries(commits, paths, Bucket::Other, n);
    assert(app.len() > 0 ==> section_text("Application history"@, app).len() > 0);
    assert(upkeep.len() > 0 ==> section_text(
        "Build maintenance and documentation"@,
        upkeep,
    ).len() > 0);
    assert(other.len() > 0 ==> section_text("Other history"@, other).len() > 0);
}

proof fn lemma_buckets_share(commits: Seq<CommitView>, files: Seq<Option<Seq<char>>>, n: int)
    requires
        0 <= n,
    ensures
        bucket_entries(commits, files, Bucket::Application, n).len() + bucket_entries(
            commits,
            files,
            Bucket::Upkeep,
            n,
        ).len() + bucket_entries(commits, files, Bucket::Other, n).len() == n,
    decreases n,
{
    if n > 0 {
        lemma_buckets_share(commits, files, n - 1);
    }
}

/// A section has a heading and a line for each of its commits, in the order of
/// the log: the subject, and the first seven characters of the hash in
/// brackets. A section without commits is left out.
pub proof fn a_section_lists_its_commits(
    name: Seq<char>,
    commits: Seq<CommitView>,
    files: Seq<Option<Seq<char>>>,
    which: Bucket,
    n: int,
)
    requires
        0 <= n < commits.len(),
        files.len() == commits.len(),
    ensures
        ({
            let before = bucket_entries(commits, files, which, n);
            let after = bucket_entries(commits, files, which, n + 1);
            let c = commits[n];
            &&& bucket_of(files[n]) == which ==> after == before.push(
                "- "@ + c.subject + " ("@ + c.sha.take(7) + ")"@,
            )
            &&& bucket_of(files[n]) != which ==> after == before
            &&& bucket_entries(commits, files, which, 0).len() == 0
            &&& after.len() == 0 ==> section_text(name, after).len() == 0
            &&& after.len() == 1 ==> section_text(name, after) == "\n### "@ + name + "\n"@
                + after[0] + "\n"@
            &&& after.len() > 1 ==> section_text(name, after) == "\n### "@ + name + "\n"@ + (join(
                after.drop_last(),
                "\n"@,
            ) + "\n"@ + after.last()) + "\n"@
        }),
{
    let after = bucket_entries(commits, files, which, n + 1);
    if after.len() == 1 {
        assert(join(after, "\n"@) == after[0]);
    }
}

} // verus!
