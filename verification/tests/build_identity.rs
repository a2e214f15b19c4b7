//! What a build says of itself: its version, its commit and what changed.

use cuepool::identity::{changelog_excerpt, distance, git, history, maintenance, tags, version};
use cuepool::metadata::{
    baseline, collect, fingerprint, publication_matches, published, untracked_paths, Checkout,
    Metadata, Quoted, Tag, UntrackedFile,
};

const FIRST: &str = "1111111111111111111111111111111111111111";
const SECOND: &str = "2222222222222222222222222222222222222222";

fn proof_of(commit: &str) -> String {
    format!(
        r#"{{"tag":"v0.12.3","commit":"{commit}","url":"https://github.com/kovvbojAV/cuePool/releases/tag/v0.12.3","published_at":"2026-09-08T00:00:00Z"}}"#
    )
}

fn tag(name: &str, distance: u64, commit: &str) -> Tag {
    Tag {
        name: name.into(),
        distance: Some(distance),
        commit: Some(commit.into()),
        marker_commit: None,
        marker: None,
    }
}

fn checkout(commit: &str, tags: Vec<Tag>) -> Checkout {
    Checkout {
        commit: commit.into(),
        status: Some(Vec::new()),
        fingerprint: None,
        shallow: Some("false".into()),
        tags,
        log: Some(String::new()),
        files: Vec::new(),
    }
}

fn identity(checkout: Option<&Checkout>) -> Metadata {
    collect("0.12.3", None, "", checkout)
}

#[test]
fn tag_dirty_archive_and_publication_are_distinct() {
    let archive = identity(None);
    assert!(archive.commit.is_none());
    assert!(archive.display.contains("identity unavailable"));
    let explicit = collect("0.12.3", Some("packager-123"), "", None);
    assert_eq!(explicit.build_id.as_deref(), Some("packager-123"));
    assert!(explicit.display.contains("Source identity unavailable"));

    let at_tag = checkout(FIRST, vec![tag("v0.12.3", 0, FIRST)]);
    let clean = identity(Some(&at_tag));
    assert_eq!(clean.commit.as_deref(), Some(FIRST));
    assert_eq!(clean.dirty, Some(false));
    assert_eq!(clean.commits_since_tag, Some(0));
    assert_eq!(clean.publication, "unverified");

    let mut changed = checkout(FIRST, vec![tag("v0.12.3", 0, FIRST)]);
    changed.status = Some(b" M source.rs\0".to_vec());
    changed.fingerprint = Some("a".repeat(40));
    let dirty = identity(Some(&changed));
    assert_eq!(dirty.dirty, Some(true));
    assert!(dirty.source_fingerprint.is_some());
    changed.fingerprint = Some("b".repeat(40));
    assert_ne!(dirty.source_fingerprint, identity(Some(&changed)).source_fingerprint);
    changed.status = Some(b"M  source.rs\0".to_vec());
    assert_eq!(identity(Some(&changed)).dirty, Some(true));

    let mut ahead = checkout(SECOND, vec![tag("v0.12.3", 1, FIRST)]);
    assert_eq!(identity(Some(&ahead)).commits_since_tag, Some(1));
    assert_eq!(
        identity(Some(&ahead)).changes_baseline,
        "v0.12.3 (version tag; publication unverified)"
    );
    ahead.tags[0].marker = Some(proof_of(FIRST));
    ahead.tags[0].marker_commit = Some(FIRST.into());
    assert_eq!(identity(Some(&ahead)).publication, "published");
    assert_eq!(identity(Some(&ahead)).changes_baseline, "v0.12.3 (published release)");
    ahead.tags[0].marker_commit = Some(SECOND.into());
    assert_eq!(identity(Some(&ahead)).publication, "unverified");

    let generated = identity(Some(&ahead)).rust_source();
    assert!(generated.contains("BuildIdentity"));
    assert_eq!(identity(Some(&ahead)), identity(Some(&ahead)));
}

#[test]
fn changelog_excludes_baseline_and_future_versions() {
    let notes = "# Changelog\n## [Unreleased]\n- pending\n## [0.13.0]\n- future\n## [0.12.3]\n- current\n## [0.12.2]\n- baseline\n";
    let selected = changelog_excerpt(notes, "0.12.3", Some("v0.12.2"));
    assert_eq!(changelog_excerpt(notes, "0.12.3", None), selected);
    assert!(selected.contains("pending") && selected.contains("current"));
    assert!(!selected.contains("future") && !selected.contains("baseline"));
}

#[test]
fn history_classifies_paths_and_uses_previous_baseline_at_exact_tag() {
    let mut here = checkout(SECOND, vec![tag("v0.12.2", 1, FIRST), tag("v0.12.3", 0, SECOND)]);
    here.log = Some(format!("{SECOND}\tchore(deps): update checkout"));
    here.files = vec![Some(".github/ci.yml".into())];
    let metadata = identity(Some(&here));
    assert!(metadata.changes_baseline.starts_with("v0.12.2"));
    assert!(metadata.changes.contains("Build maintenance and documentation"));
    assert!(metadata.changes.contains("update checkout"));
    assert!(!metadata.changes.contains("feat: application"));
}

#[test]
fn detached_worktree_shallow_clone_and_nested_archive() {
    let worktree = checkout(SECOND, vec![tag("v0.12.3", 1, FIRST)]);
    assert_eq!(identity(Some(&worktree)).commit.as_deref(), Some(SECOND));
    assert_eq!(identity(Some(&worktree)).dirty, Some(false));
    let mut shallow = checkout(SECOND, Vec::new());
    shallow.shallow = Some("true".into());
    assert_eq!(identity(Some(&shallow)).commit.as_deref(), Some(SECOND));
    assert!(identity(Some(&shallow)).shallow);
    assert!(identity(Some(&shallow)).version_tag.is_none());
    assert!(identity(None).commit.is_none());
}

#[test]
fn the_changes_are_the_notes_and_then_the_history() {
    let mut here = checkout(SECOND, vec![tag("v0.12.2", 1, FIRST)]);
    here.log = Some(format!("{SECOND}\tfeat: torus"));
    here.files = vec![Some("crates/app.rs\nREADME.md".into())];
    let notes = "## [0.12.3]\n- donut\n";
    let m = collect("0.12.3", None, notes, Some(&here));
    assert_eq!(
        m.changes,
        "## [0.12.3]\n- donut\n\n\n### Application history\n- feat: torus (2222222)\n"
    );
    here.status = Some(b"?? new\0".to_vec());
    here.fingerprint = Some("c".repeat(40));
    let m = collect("0.12.3", None, notes, Some(&here));
    assert!(m
        .changes
        .ends_with("\nLocally modified: commit descriptions do not cover uncommitted edits.\n"));
}

#[test]
fn histories_are_bucketed_by_what_they_touch() {
    let log = format!("{FIRST}\tone\n{SECOND}\ttwo\nbroken line\n{FIRST}\tthree");
    let files = vec![
        Some("Cargo.lock".into()),
        Some("docs/a.md\nguide/b.md".into()),
        Some("extras/readme.txt".into()),
    ];
    assert_eq!(
        history(Some(&log), &files),
        "\n### Application history\n- one (1111111)\n\
         \n### Build maintenance and documentation\n- two (2222222)\n\
         \n### Other history\n- three (1111111)\n"
    );
    assert_eq!(history(None, &Vec::new()), "Commit history unavailable.\n");
    assert_eq!(
        history(Some(""), &Vec::new()),
        "No commits in this comparison. This does not describe uncommitted edits.\n"
    );
    let long: String = (0..61).map(|_| format!("{FIRST}\tc\n")).collect();
    let files = vec![None; 60];
    let text = history(Some(&long), &files);
    assert!(text.ends_with("\nShowing the latest 60 commits; older changes are omitted.\n"));
    assert_eq!(text.matches("- c (1111111)").count(), 60);
}

#[test]
fn versions_have_three_numbers() {
    assert_eq!(version("v0.12.3"), Some((0, 12, 3)));
    assert_eq!(version("1.0.0"), Some((1, 0, 0)));
    assert_eq!(version("v1.0"), None);
    assert_eq!(version("v1.0.0.0"), None);
    assert_eq!(version("v1.x.0"), None);
}

#[test]
fn answers_of_the_version_control_system_are_read() {
    assert_eq!(git(Some(" abc \n")).as_deref(), Some("abc"));
    assert_eq!(git(Some("")).as_deref(), Some(""));
    assert_eq!(git(None), None);
    assert_eq!(tags(Some("v0.12.3\npublished/v0.12.3\nnightly\nv0.12.2")), ["v0.12.3", "v0.12.2"]);
    assert!(tags(None).is_empty());
    assert_eq!(distance(Some("12")), Some(12));
    assert_eq!(distance(Some("many")), None);
    assert_eq!(distance(None), None);
    assert!(maintenance("docs/guide.md"));
    assert!(!maintenance("crates/docs/guide.md"));
}

#[test]
fn a_publication_needs_every_part_of_its_record() {
    let some = |t: &str| Some(t.to_string());
    let url = some("https://github.com/kovvbojAV/cuePool/releases/tag/v0.12.3");
    let (t, c, d) = (some("v0.12.3"), some(FIRST), some("2026-09-08"));
    assert!(publication_matches("v0.12.3", FIRST, &t, &c, &d, &url));
    assert!(!publication_matches("v0.12.2", FIRST, &t, &c, &d, &url));
    assert!(!publication_matches("v0.12.3", SECOND, &t, &c, &d, &url));
    assert!(!publication_matches("v0.12.3", FIRST, &t, &c, &some(""), &url));
    assert!(!publication_matches("v0.12.3", FIRST, &t, &c, &d, &some("https://example.org/")));
    assert!(!publication_matches("v0.12.3", FIRST, &None, &c, &d, &url));
}

#[test]
fn a_marker_is_read_as_json() {
    let mut t = tag("v0.12.3", 1, FIRST);
    t.marker_commit = Some(FIRST.into());
    t.marker = Some(proof_of(FIRST));
    assert!(published(&t));
    t.marker = Some(proof_of(SECOND));
    assert!(!published(&t));
    t.marker = Some("not json".into());
    assert!(!published(&t));
    t.marker = Some("{\"tag\":12}".into());
    assert!(!published(&t));
}

#[test]
fn the_baseline_prefers_a_published_tag() {
    let mut far = tag("v0.12.1", 9, FIRST);
    far.marker_commit = Some(FIRST.into());
    far.marker = Some(proof_of(FIRST).replace("v0.12.3", "v0.12.1"));
    let near = tag("v0.12.2", 2, SECOND);
    let here = tag("v0.12.3", 0, SECOND);
    assert_eq!(baseline(&vec![near, here, far]), Some(2));
    let all = vec![tag("v0.12.1", 9, FIRST), tag("v0.12.2", 2, SECOND), tag("v0.12.3", 0, SECOND)];
    assert_eq!(baseline(&all), Some(1));
    assert_eq!(baseline(&vec![tag("v0.12.3", 0, SECOND)]), None);
}

#[test]
fn strings_are_quoted_as_the_language_does() {
    let mut m = identity(None);
    m.changes = "say \"hi\"\n".into();
    let source = m.rust_source();
    assert!(source.contains(r#"changes: "say \"hi\"\n""#), "{source}");
    assert!(source.contains("commit: None"));
    assert!(source.contains("shallow: false"));
    let quoted = Quoted {
        version: "\"0.12.3\"".into(),
        build_id: Some("\"b\"".into()),
        commit: None,
        dirty: Some(true),
        source_fingerprint: None,
        version_tag: None,
        commits_since_tag: Some(4),
        shallow: true,
        publication: "\"unverified\"".into(),
        display: "\"d\"".into(),
        changes_baseline: "\"c\"".into(),
        changes: "\"x\"".into(),
    };
    let source = quoted.rust_source();
    assert!(source.contains("version: \"0.12.3\""), "{source}");
    assert!(source.contains("build_id: Some(\"b\")"), "{source}");
    assert!(source.contains("dirty: Some(true)"), "{source}");
    assert!(source.contains("commits_since_tag: Some(4)"), "{source}");
    assert!(source.contains("shallow: true"), "{source}");
}

#[test]
fn a_source_has_a_line_for_each_field() {
    let mut m = identity(None);
    m.version = "quote \" back \\ slash".into();
    m.changes = "one\ntwo\r\ttab\0nul\u{200b}end é 'x'".into();
    m.commits_since_tag = Some(12);
    let source = m.rust_source();
    let lines: Vec<&str> = source.lines().collect();
    assert_eq!(lines.len(), 14);
    assert_eq!(lines[0], "pub const BUILD: BuildIdentity = BuildIdentity {");
    assert_eq!(lines[1], r#"version: "quote \" back \\ slash","#);
    assert_eq!(lines[7], "commits_since_tag: Some(12),");
    assert_eq!(lines[12], r#"changes: "one\ntwo\r\ttab\0nul\u{200b}end é 'x'","#);
    assert_eq!(lines[13], "};");
    assert!(source.ends_with("\n};\n"));
    let mut other = identity(None);
    other.version = "quote \\\" back \\ slash".into();
    other.changes = m.changes.clone();
    other.commits_since_tag = Some(12);
    assert_ne!(other.rust_source(), source);
}

#[test]
fn fingerprints_cover_status_changes_and_untracked_files() {
    assert_eq!(untracked_paths(&b"a\0\0b/c\0".to_vec()), vec![b"a".to_vec(), b"b/c".to_vec()]);
    let one = UntrackedFile { path: b"a".to_vec(), content: b"x".to_vec() };
    assert_eq!(
        fingerprint(&b"S".to_vec(), &b"D".to_vec(), &vec![one]),
        b"SDa\0x\0".to_vec()
    );
}
