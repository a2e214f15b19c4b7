//! The build record: everything a build knows of its source, gathered from
//! what the version control system said.

use vstd::prelude::*;

use crate::identity::{
    changelog_excerpt, excerpt, history, history_ready, history_text, shortens, texts_opt,
};
use crate::text::{
    decimal, find, has_char, has_prefix, is_digit, is_line, join, join_of, lemma_decimal_value,
    lemma_lines_of_join, lines, number, push_decimal, same, slice_opt, starts_with, text_opt,
    texts, trim, trimmed,
};

verus! {

/// What a build says of its source.
#[derive(Debug, PartialEq, Eq)]
pub struct Metadata {
    pub version: String,
    pub build_id: Option<String>,
    pub commit: Option<String>,
    pub dirty: Option<bool>,
    pub source_fingerprint: Option<String>,
    pub version_tag: Option<String>,
    pub commits_since_tag: Option<u64>,
    pub shallow: bool,
    pub publication: String,
    pub display: String,
    pub changes_baseline: String,
    pub changes: String,
}

#[verifier::ext_equal]
pub struct MetadataView {
    pub version: Seq<char>,
    pub build_id: Option<Seq<char>>,
    pub commit: Option<Seq<char>>,
    pub dirty: Option<bool>,
    pub source_fingerprint: Option<Seq<char>>,
    pub version_tag: Option<Seq<char>>,
    pub commits_since_tag: Option<u64>,
    pub shallow: bool,
    pub publication: Seq<char>,
    pub display: Seq<char>,
    pub changes_baseline: Seq<char>,
    pub changes: Seq<char>,
}

impl View for Metadata {
    type V = MetadataView;

    open spec fn view(&self) -> MetadataView {
        MetadataView {
            version: self.version@,
            build_id: text_opt(self.build_id),
            commit: text_opt(self.commit),
            dirty: self.dirty,
            source_fingerprint: text_opt(self.source_fingerprint),
            version_tag: text_opt(self.version_tag),
            commits_since_tag: self.commits_since_tag,
            shallow: self.shallow,
            publication: self.publication@,
            display: self.display@,
            changes_baseline: self.changes_baseline@,
            changes: self.changes@,
        }
    }
}

/// The string that a JSON document holds under `key` at its top level, if the
/// document parses as an object and has a string there.
pub uninterp spec fn json_text(document: Seq<char>, key: Seq<char>) -> Option<Seq<char>>;

/// Reads one string of a JSON document with `serde_json::from_str`, indexing
/// and `Value::as_str`. The claim is only that the outcome is a function of
/// the document and the key; which strings a document holds is not stated.
#[verifier::external_body]
fn json_string(document: &str, key: &str) -> (r: Option<String>)
    ensures
        text_opt(r) == json_text(document@, key@),
{
    let value: serde_json::Value = serde_json::from_str(document).unwrap_or_default();
    value[key].as_str().map(|s| s.to_owned())
}

/// Where published releases live.
pub const RELEASE_URL: &'static str = "https://github.com/kovvbojAV/cuePool/releases/tag/";

/// Whether a publication record names this tag and commit, with a date and a
/// release address.
pub open spec fn record_matches(
    tag: Seq<char>,
    commit: Seq<char>,
    entry_tag: Option<Seq<char>>,
    entry_commit: Option<Seq<char>>,
    published_at: Option<Seq<char>>,
    url: Option<Seq<char>>,
) -> bool {
    &&& entry_tag == Some(tag)
    &&& entry_commit == Some(commit)
    &&& published_at is Some && published_at->0.len() > 0
    &&& url is Some && starts_with(url->0, RELEASE_URL@)
}

/// Whether a publication record, already read, vouches for a tag.
pub fn publication_matches(
    tag: &str,
    commit: &str,
    entry_tag: &Option<String>,
    entry_commit: &Option<String>,
    published_at: &Option<String>,
    url: &Option<String>,
) -> (r: bool)
    ensures
        r == record_matches(
            tag@,
            commit@,
            text_opt(*entry_tag),
            text_opt(*entry_commit),
            text_opt(*published_at),
            text_opt(*url),
        ),
{
    let tag_agrees: bool = match entry_tag {
        Some(t) => same(t.as_str(), tag),
        None => false,
    };
    let commit_agrees: bool = match entry_commit {
        Some(t) => same(t.as_str(), commit),
        None => false,
    };
    let dated: bool = match published_at {
        Some(t) => !t.as_str().is_empty(),
        None => false,
    };
    let addressed: bool = match url {
        Some(t) => has_prefix(t.as_str(), RELEASE_URL),
        None => false,
    };
    tag_agrees && commit_agrees && dated && addressed
}

/// What the version control system says of one version tag.
pub struct Tag {
    pub name: String,
    /// Commits from the tag to the head, where that could be counted.
    pub distance: Option<u64>,
    /// The commit the tag names.
    pub commit: Option<String>,
    /// The commit the tag's publication marker names.
    pub marker_commit: Option<String>,
    /// The text of the publication marker.
    pub marker: Option<String>,
}

pub struct TagView {
    pub name: Seq<char>,
    pub distance: Option<u64>,
    pub commit: Option<Seq<char>>,
    pub marker_commit: Option<Seq<char>>,
    pub marker: Option<Seq<char>>,
}

impl View for Tag {
    type V = TagView;

    open spec fn view(&self) -> TagView {
        TagView {
            name: self.name@,
            distance: self.distance,
            commit: text_opt(self.commit),
            marker_commit: text_opt(self.marker_commit),
            marker: text_opt(self.marker),
        }
    }
}

pub open spec fn tags_view(v: Seq<Tag>) -> Seq<TagView> {
    v.map_values(|t: Tag| t@)
}

/// A tag is published where its marker names the same commit and its marker's
/// record matches.
pub open spec fn is_published(tag: TagView) -> bool {
    match (tag.commit, tag.marker) {
        (Some(commit), Some(marker)) => {
            tag.marker_commit == Some(commit) && record_matches(
                tag.name,
                commit,
                json_text(marker, "tag"@),
                json_text(marker, "commit"@),
                json_text(marker, "published_at"@),
                json_text(marker, "url"@),
            )
        },
        _ => false,
    }
}

pub fn published(tag: &Tag) -> (r: bool)
    ensures
        r == is_published(tag@),
{
    match (&tag.commit, &tag.marker, &tag.marker_commit) {
        (Some(commit), Some(marker), Some(marked)) => {
            if !same(commit.as_str(), marked.as_str()) {
                return false;
            }
            let entry_tag: Option<String> = json_string(marker.as_str(), "tag");
            let entry_commit: Option<String> = json_string(marker.as_str(), "commit");
            let published_at: Option<String> = json_string(marker.as_str(), "published_at");
            let url: Option<String> = json_string(marker.as_str(), "url");
            publication_matches(
                tag.name.as_str(),
                commit.as_str(),
                &entry_tag,
                &entry_commit,
                &published_at,
                &url,
            )
        },
        _ => false,
    }
}

/// Among the first `n` keys, the position of the smallest one that is there;
/// of equal ones the first.
pub open spec fn nearest(keys: Seq<Option<u64>>, n: int) -> Option<int>
    decreases n,
{
    if n <= 0 {
        None
    } else {
        let before = nearest(keys, n - 1);
        match keys[n - 1] {
            None => before,
            Some(d) => match before {
                Some(i) => if d < keys[i]->0 {
                    Some(n - 1)
                } else {
                    before
                },
                None => Some(n - 1),
            },
        }
    }
}

/// `nearest` finds a key if any is there; the one it finds is no larger than
/// any other, and smaller than every one before it.
pub proof fn nearest_is_first_smallest(keys: Seq<Option<u64>>, n: int)
    requires
        0 <= n <= keys.len(),
    ensures
        nearest(keys, n) is None ==> forall|j: int| 0 <= j < n ==> (#[trigger] keys[j]) is None,
        nearest(keys, n) matches Some(i) ==> {
            &&& 0 <= i < n
            &&& keys[i] is Some
            &&& forall|j: int|
                0 <= j < n && (#[trigger] keys[j]) is Some ==> keys[i]->0 <= keys[j]->0 && (j < i
                    ==> keys[i]->0 < keys[j]->0)
        },
    decreases n,
{
    if n > 0 {
        nearest_is_first_smallest(keys, n - 1);
    }
}

fn nearest_of(keys: &Vec<Option<u64>>) -> (r: Option<usize>)
    ensures
        match (r, nearest(keys@, keys@.len() as int)) {
            (Some(i), Some(j)) => i == j && i < keys@.len() && keys@[i as int] is Some,
            (None, None) => true,
            _ => false,
        },
{
    let mut best: Option<usize> = None;
    let mut i: usize = 0;
    while i < keys.len()
        invariant
            i <= keys@.len(),
            match (best, nearest(keys@, i as int)) {
                (Some(b), Some(j)) => b == j && b < i && keys@[b as int] is Some,
                (None, None) => true,
                _ => false,
            },
        decreases keys@.len() - i,
    {
        match keys[i] {
            None => {},
            Some(d) => match best {
                Some(b) => match keys[b] {
                    Some(e) => {
                        if d < e {
                            best = Some(i);
                        }
                    },
                    None => {},
                },
                None => {
                    best = Some(i);
                },
            },
        }
        i = i + 1;
    }
    best
}

pub open spec fn distances(tags: Seq<TagView>) -> Seq<Option<u64>> {
    tags.map_values(|t: TagView| t.distance)
}

/// The distances of the tags that lie behind the head; with `only_published`,
/// of the published ones among them.
pub open spec fn earlier(tags: Seq<TagView>, only_published: bool) -> Seq<Option<u64>> {
    tags.map_values(
        |t: TagView|
            match t.distance {
                Some(d) => if d > 0 && (!only_published || is_published(t)) {
                    Some(d)
                } else {
                    None
                },
                None => None,
            },
    )
}

/// The tag a build is compared against: the nearest published one behind the
/// head, or else the nearest one. At an exact tag that is the preceding one.
pub open spec fn baseline_of(tags: Seq<TagView>) -> Option<int> {
    match nearest(earlier(tags, true), tags.len() as int) {
        Some(i) => Some(i),
        None => nearest(earlier(tags, false), tags.len() as int),
    }
}

fn earlier_of(tags: &Vec<Tag>, only_published: bool) -> (r: Vec<Option<u64>>)
    ensures
        r@ == earlier(tags_view(tags@), only_published),
{
    let mut r: Vec<Option<u64>> = Vec::new();
    let mut i: usize = 0;
    while i < tags.len()
        invariant
            i <= tags@.len(),
            r@ == earlier(tags_view(tags@), only_published).take(i as int),
        decreases tags@.len() - i,
    {
        let key: Option<u64> = match tags[i].distance {
            Some(d) => {
                if d > 0 && (!only_published || published(&tags[i])) {
                    Some(d)
                } else {
                    None
                }
            },
            None => None,
        };
        r.push(key);
        assert(tags_view(tags@)[i as int] == tags@[i as int]@);
        assert(earlier(tags_view(tags@), only_published).take(i + 1) =~= earlier(
            tags_view(tags@),
            only_published,
        ).take(i as int).push(key));
        i = i + 1;
    }
    assert(earlier(tags_view(tags@), only_published).take(i as int) =~= earlier(
        tags_view(tags@),
        only_published,
    ));
    r
}

/// The position of the tag a build is compared against.
pub fn baseline(tags: &Vec<Tag>) -> (r: Option<usize>)
    ensures
        match (r, baseline_of(tags_view(tags@))) {
            (Some(i), Some(j)) => i == j && i < tags@.len(),
            (None, None) => true,
            _ => false,
        },
{
    let confirmed: Vec<Option<u64>> = earlier_of(tags, true);
    match nearest_of(&confirmed) {
        Some(i) => Some(i),
        None => {
            let any: Vec<Option<u64>> = earlier_of(tags, false);
            nearest_of(&any)
        },
    }
}

/// A published tag behind the head is always preferred: where there is one,
/// the baseline is published, and no published tag behind the head is nearer.
pub proof fn baseline_prefers_published(tags: Seq<TagView>, k: int)
    requires
        0 <= k < tags.len(),
        tags[k].distance is Some,
        tags[k].distance->0 > 0,
        is_published(tags[k]),
    ensures
        baseline_of(tags) is Some,
        0 <= baseline_of(tags)->0 < tags.len(),
        is_published(tags[baseline_of(tags)->0]),
        tags[baseline_of(tags)->0].distance->0 <= tags[k].distance->0,
{
    let keys = earlier(tags, true);
    nearest_is_first_smallest(keys, tags.len() as int);
    assert(keys[k] == tags[k].distance);
    let i = nearest(keys, tags.len() as int)->0;
    assert(keys[i] is Some);
}

/// The baseline is never the commit being built.
pub proof fn baseline_lies_behind(tags: Seq<TagView>)
    ensures
        baseline_of(tags) matches Some(i) ==> 0 <= i < tags.len() && tags[i].distance is Some
            && tags[i].distance->0 > 0,
{
    nearest_is_first_smallest(earlier(tags, true), tags.len() as int);
    nearest_is_first_smallest(earlier(tags, false), tags.len() as int);
}

/// What the version control system says of a checkout.
pub struct Checkout {
    /// The hash of the head commit.
    pub commit: String,
    /// The machine-readable status, where it could be read.
    pub status: Option<Vec<u8>>,
    /// The hash over all local modifications, where it could be made.
    pub fingerprint: Option<String>,
    /// The answer to whether the history is cut short.
    pub shallow: Option<String>,
    /// The version tags that lead to the head.
    pub tags: Vec<Tag>,
    /// The log since the baseline.
    pub log: Option<String>,
    /// The paths changed by each commit that the history of the log lists.
    pub files: Vec<Option<String>>,
}

pub struct CheckoutView {
    pub commit: Seq<char>,
    pub status: Option<Seq<u8>>,
    pub fingerprint: Option<Seq<char>>,
    pub shallow: Option<Seq<char>>,
    pub tags: Seq<TagView>,
    pub log: Option<Seq<char>>,
    pub files: Seq<Option<Seq<char>>>,
}

impl View for Checkout {
    type V = CheckoutView;

    open spec fn view(&self) -> CheckoutView {
        CheckoutView {
            commit: self.commit@,
            status: match self.status {
                Some(bytes) => Some(bytes@),
                None => None,
            },
            fingerprint: text_opt(self.fingerprint),
            shallow: text_opt(self.shallow),
            tags: tags_view(self.tags@),
            log: text_opt(self.log),
            files: texts_opt(self.files@),
        }
    }
}

impl CheckoutView {
    /// Whether the checkout has local modifications, where that is known.
    pub open spec fn dirty(self) -> Option<bool> {
        match self.status {
            Some(bytes) => Some(bytes.len() > 0),
            None => None,
        }
    }

    pub open spec fn source_fingerprint(self) -> Option<Seq<char>> {
        if self.dirty() == Some(true) {
            self.fingerprint
        } else {
            None
        }
    }

    pub open spec fn is_shallow(self) -> bool {
        self.shallow == Some("true"@)
    }

    /// The position of the version tag nearest to the head.
    pub open spec fn nearest_tag(self) -> Option<int> {
        nearest(distances(self.tags), self.tags.len() as int)
    }

    pub open spec fn publication(self) -> Seq<char> {
        match self.nearest_tag() {
            Some(i) => if is_published(self.tags[i]) {
                "published"@
            } else {
                "unverified"@
            },
            None => "unverified"@,
        }
    }

    /// What the hashes of a checkout must allow: to be cut to the length in
    /// which they are shown.
    pub open spec fn ready(self) -> bool {
        &&& shortens(self.commit, 7)
        &&& self.source_fingerprint() matches Some(hash) ==> shortens(hash, 12)
        &&& history_ready(self.log, self.files)
    }
}

/// A build name given from outside counts where it is more than white space.
pub open spec fn given_id(given: Option<Seq<char>>) -> Option<Seq<char>> {
    match given {
        Some(t) => if trimmed(t).len() > 0 {
            Some(trimmed(t))
        } else {
            None
        },
        None => None,
    }
}

pub open spec fn baseline_text(tags: Seq<TagView>) -> Seq<char> {
    match baseline_of(tags) {
        Some(i) => tags[i].name + " ("@ + (if is_published(tags[i]) {
            "published release"@
        } else {
            "version tag; publication unverified"@
        }) + ")"@,
        None => "No earlier version baseline available; visible history only"@,
    }
}

pub open spec fn baseline_name(tags: Seq<TagView>) -> Option<Seq<char>> {
    match baseline_of(tags) {
        Some(i) => Some(tags[i].name),
        None => None,
    }
}

/// The maintained notes since the baseline, the history, and a caution where
/// either does not tell everything.
pub open spec fn changes_text(
    version: Seq<char>,
    changelog: Seq<char>,
    checkout: CheckoutView,
) -> Seq<char> {
    let notes = excerpt(changelog, version, baseline_name(checkout.tags));
    (if notes.len() == 0 {
        Seq::empty()
    } else {
        notes + "\n\n"@
    }) + history_text(checkout.log, checkout.files) + (if checkout.dirty() == Some(true) {
        "\nLocally modified: commit descriptions do not cover uncommitted edits.\n"@
    } else {
        Seq::empty()
    }) + (if checkout.is_shallow() {
        "\nShallow checkout: tags, comparison baselines and history may be incomplete.\n"@
    } else {
        Seq::empty()
    })
}

/// Where the head stands among the version tags.
pub open spec fn position_text(
    version: Seq<char>,
    tag: Option<Seq<char>>,
    commits: Option<u64>,
    publication: Seq<char>,
) -> Seq<char> {
    match (tag, commits) {
        (Some(tag), Some(n)) => if n == 0 && tag == "v"@ + version {
            "Version tag "@ + tag + "; "@ + publication
        } else {
            "Development: "@ + decimal(n as nat) + " commits beyond "@ + tag + "; tag "@
                + publication
        },
        _ => "Development: version baseline unavailable"@,
    }
}

/// Whether the checkout is as committed.
pub open spec fn state_text(dirty: Option<bool>, fingerprint: Option<Seq<char>>) -> Seq<char> {
    match dirty {
        Some(false) => "clean"@,
        Some(true) => "locally modified "@ + match fingerprint {
            Some(hash) => hash.take(12),
            None => "(fingerprint unavailable)"@,
        },
        None => "checkout state unavailable"@,
    }
}

/// The record of a build from a checkout.
pub open spec fn checkout_record(
    version: Seq<char>,
    given: Option<Seq<char>>,
    changelog: Seq<char>,
    checkout: CheckoutView,
) -> MetadataView {
    let id = given_id(given);
    let tag = match checkout.nearest_tag() {
        Some(i) => Some(checkout.tags[i].name),
        None => None,
    };
    let commits = match checkout.nearest_tag() {
        Some(i) => checkout.tags[i].distance,
        None => None,
    };
    let short = checkout.commit.take(7);
    MetadataView {
        version,
        build_id: match id {
            Some(id) => Some(id),
            None => Some(short),
        },
        commit: Some(checkout.commit),
        dirty: checkout.dirty(),
        source_fingerprint: checkout.source_fingerprint(),
        version_tag: tag,
        commits_since_tag: commits,
        shallow: checkout.is_shallow(),
        publication: checkout.publication(),
        display: version + " · "@ + short + " · "@ + state_text(
            checkout.dirty(),
            checkout.source_fingerprint(),
        ) + "\n"@ + position_text(version, tag, commits, checkout.publication()) + (match id {
            Some(id) => " · Build "@ + id,
            None => Seq::empty(),
        }) + (if checkout.is_shallow() {
            " · shallow history"@
        } else {
            Seq::empty()
        }),
        changes_baseline: baseline_text(checkout.tags),
        changes: changes_text(version, changelog, checkout),
    }
}

/// The record of a build from an archive without history.
pub open spec fn archive_record(
    version: Seq<char>,
    given: Option<Seq<char>>,
    changelog: Seq<char>,
) -> MetadataView {
    let id = given_id(given);
    let notes = excerpt(changelog, version, None);
    MetadataView {
        version,
        build_id: id,
        commit: None,
        dirty: None,
        source_fingerprint: None,
        version_tag: None,
        commits_since_tag: None,
        shallow: false,
        publication: "unverified"@,
        display: version + " · "@ + (match id {
            Some(id) => "Build "@ + id,
            None => "Build identity unavailable"@,
        }) + " · Source identity unavailable"@,
        changes_baseline: "Source history unavailable; maintained notes for this version"@,
        changes: if notes.len() == 0 {
            "Change information unavailable in this source archive."@
        } else {
            notes
        },
    }
}

pub open spec fn record(
    version: Seq<char>,
    given: Option<Seq<char>>,
    changelog: Seq<char>,
    checkout: Option<CheckoutView>,
) -> MetadataView {
    match checkout {
        Some(checkout) => checkout_record(version, given, changelog, checkout),
        None => archive_record(version, given, changelog),
    }
}

fn given_id_of(given: Option<&str>) -> (r: Option<String>)
    ensures
        text_opt(r) == given_id(slice_opt(given)),
{
    match given {
        Some(t) => {
            let t: &str = trim(t);
            if t.is_empty() {
                None
            } else {
                Some(t.to_owned())
            }
        },
        None => None,
    }
}

fn position_of(
    version: &str,
    tag: &Option<String>,
    commits: Option<u64>,
    publication: &str,
) -> (r: String)
    ensures
        r@ == position_text(version@, text_opt(*tag), commits, publication@),
{
    match (tag, commits) {
        (Some(tag), Some(n)) => {
            let mut exact: String = "v".to_owned();
            exact.append(version);
            let mut r: String = String::new();
            if n == 0 && same(tag.as_str(), exact.as_str()) {
                r.append("Version tag ");
                r.append(tag.as_str());
                r.append("; ");
                r.append(publication);
            } else {
                r.append("Development: ");
                push_decimal(&mut r, n);
                r.append(" commits beyond ");
                r.append(tag.as_str());
                r.append("; tag ");
                r.append(publication);
            }
            assert(r@ =~= position_text(version@, Some(tag@), commits, publication@));
            r
        },
        _ => "Development: version baseline unavailable".to_owned(),
    }
}

fn state_of(dirty: Option<bool>, fingerprint: &Option<String>) -> (r: String)
    requires
        dirty == Some(true) ==> (text_opt(*fingerprint) matches Some(hash) ==> shortens(hash, 12)),
    ensures
        r@ == state_text(dirty, text_opt(*fingerprint)),
{
    match dirty {
        Some(false) => "clean".to_owned(),
        Some(true) => {
            let mut r: String = "locally modified ".to_owned();
            match fingerprint {
                Some(hash) => {
                    let short: &str = hash.as_str().substring_char(0, 12);
                    assert(short@ =~= hash@.take(12));
                    r.append(short);
                },
                None => r.append("(fingerprint unavailable)"),
            }
            r
        },
        None => "checkout state unavailable".to_owned(),
    }
}

fn baseline_text_of(tags: &Vec<Tag>, at: Option<usize>) -> (r: String)
    requires
        match (at, baseline_of(tags_view(tags@))) {
            (Some(i), Some(j)) => i == j && i < tags@.len(),
            (None, None) => true,
            _ => false,
        },
    ensures
        r@ == baseline_text(tags_view(tags@)),
{
    match at {
        Some(i) => {
            assert(tags_view(tags@)[i as int] == tags@[i as int]@);
            let mut r: String = tags[i].name.as_str().to_owned();
            r.append(" (");
            if published(&tags[i]) {
                r.append("published release");
            } else {
                r.append("version tag; publication unverified");
            }
            r.append(")");
            r
        },
        None => "No earlier version baseline available; visible history only".to_owned(),
    }
}

fn distances_of(tags: &Vec<Tag>) -> (r: Vec<Option<u64>>)
    ensures
        r@ == distances(tags_view(tags@)),
{
    let mut r: Vec<Option<u64>> = Vec::new();
    let mut i: usize = 0;
    while i < tags.len()
        invariant
            i <= tags@.len(),
            r@ == distances(tags_view(tags@)).take(i as int),
        decreases tags@.len() - i,
    {
        r.push(tags[i].distance);
        assert(tags_view(tags@)[i as int] == tags@[i as int]@);
        assert(distances(tags_view(tags@)).take(i + 1) =~= distances(tags_view(tags@)).take(
            i as int,
        ).push(tags@[i as int].distance));
        i = i + 1;
    }
    assert(distances(tags_view(tags@)).take(i as int) =~= distances(tags_view(tags@)));
    r
}

fn changes_of(
    version: &str,
    changelog: &str,
    checkout: &Checkout,
    at: Option<usize>,
    dirty: Option<bool>,
    shallow: bool,
) -> (r: String)
    requires
        checkout@.ready(),
        dirty == checkout@.dirty(),
        shallow == checkout@.is_shallow(),
        match (at, baseline_of(checkout@.tags)) {
            (Some(i), Some(j)) => i == j && i < checkout.tags@.len(),
            (None, None) => true,
            _ => false,
        },
    ensures
        r@ == changes_text(version@, changelog@, checkout@),
{
    let notes: String = match at {
        Some(i) => {
            assert(checkout@.tags[i as int] == checkout.tags@[i as int]@);
            changelog_excerpt(changelog, version, Some(checkout.tags[i].name.as_str()))
        },
        None => changelog_excerpt(changelog, version, None),
    };
    let mut r: String = String::new();
    if !notes.as_str().is_empty() {
        r.append(notes.as_str());
        r.append("\n\n");
    }
    let told: String = match &checkout.log {
        Some(log) => history(Some(log.as_str()), &checkout.files),
        None => history(None, &checkout.files),
    };
    r.append(told.as_str());
    if dirty.is_some() && dirty.unwrap() {
        r.append("\nLocally modified: commit descriptions do not cover uncommitted edits.\n");
    }
    if shallow {
        r.append("\nShallow checkout: tags, comparison baselines and history may be incomplete.\n");
    }
    assert(r@ =~= changes_text(version@, changelog@, checkout@));
    r
}

/// The record of a build: from a checkout where there is one, else from an
/// archive.
pub fn collect(
    package_version: &str,
    override_id: Option<&str>,
    changelog: &str,
    checkout: Option<&Checkout>,
) -> (m: Metadata)
    requires
        checkout matches Some(c) ==> c@.ready(),
    ensures
        m@ == record(
            package_version@,
            slice_opt(override_id),
            changelog@,
            match checkout {
                Some(c) => Some(c@),
                None => None,
            },
        ),
{
    let given: Option<String> = given_id_of(override_id);
    let checkout: &Checkout = match checkout {
        Some(c) => c,
        None => {
            let mut display: String = package_version.to_owned();
            display.append(" · ");
            match &given {
                Some(id) => {
                    display.append("Build ");
                    display.append(id.as_str());
                },
                None => display.append("Build identity unavailable"),
            }
            display.append(" · Source identity unavailable");
            let notes: String = changelog_excerpt(changelog, package_version, None);
            let changes: String = if notes.as_str().is_empty() {
                "Change information unavailable in this source archive.".to_owned()
            } else {
                notes
            };
            let m: Metadata = Metadata {
                version: package_version.to_owned(),
                build_id: given,
                commit: None,
                dirty: None,
                source_fingerprint: None,
                version_tag: None,
                commits_since_tag: None,
                shallow: false,
                publication: "unverified".to_owned(),
                display,
                changes_baseline:
                    "Source history unavailable; maintained notes for this version".to_owned(),
                changes,
            };
            assert(m@.display =~= archive_record(
                package_version@,
                slice_opt(override_id),
                changelog@,
            ).display);
            return m;
        },
    };
    let short: &str = checkout.commit.as_str().substring_char(0, 7);
    assert(short@ =~= checkout@.commit.take(7));
    let dirty: Option<bool> = match &checkout.status {
        Some(bytes) => Some(bytes.len() > 0),
        None => None,
    };
    let fingerprint: Option<String> = if dirty.is_some() && dirty.unwrap() {
        checkout.fingerprint.clone()
    } else {
        None
    };
    assert(text_opt(fingerprint) == checkout@.source_fingerprint());
    let shallow: bool = match &checkout.shallow {
        Some(t) => same(t.as_str(), "true"),
        None => false,
    };
    let keys: Vec<Option<u64>> = distances_of(&checkout.tags);
    let mut version_tag: Option<String> = None;
    let mut commits_since_tag: Option<u64> = None;
    let mut publication: String = "unverified".to_owned();
    match nearest_of(&keys) {
        Some(i) => {
            assert(checkout@.tags[i as int] == checkout.tags@[i as int]@);
            version_tag = Some(checkout.tags[i].name.as_str().to_owned());
            commits_since_tag = checkout.tags[i].distance;
            if published(&checkout.tags[i]) {
                publication = "published".to_owned();
            }
        },
        None => {},
    }
    let at: Option<usize> = baseline(&checkout.tags);
    let changes_baseline: String = baseline_text_of(&checkout.tags, at);
    let changes: String = changes_of(package_version, changelog, checkout, at, dirty, shallow);
    let mut display: String = package_version.to_owned();
    display.append(" · ");
    display.append(short);
    display.append(" · ");
    let state: String = state_of(dirty, &fingerprint);
    display.append(state.as_str());
    display.append("\n");
    let position: String = position_of(
        package_version,
        &version_tag,
        commits_since_tag,
        publication.as_str(),
    );
    display.append(position.as_str());
    match &given {
        Some(id) => {
            display.append(" · Build ");
            display.append(id.as_str());
        },
        None => {},
    }
    if shallow {
        display.append(" · shallow history");
    }
    let build_id: Option<String> = match given {
        Some(id) => Some(id),
        None => Some(short.to_owned()),
    };
    let m: Metadata = Metadata {
        version: package_version.to_owned(),
        build_id,
        commit: Some(checkout.commit.as_str().to_owned()),
        dirty,
        source_fingerprint: fingerprint,
        version_tag,
        commits_since_tag,
        shallow,
        publication,
        display,
        changes_baseline,
        changes,
    };
    proof {
        let want = checkout_record(
            package_version@,
            slice_opt(override_id),
            changelog@,
            checkout@,
        );
        assert(m@.display =~= want.display);
        assert(m@ =~= want);
    }
    m
}

/// The character that an escape of one letter stands for.
pub open spec fn simple_escape(c: char) -> Option<char> {
    if c == '0' {
        Some('\0')
    } else if c == 't' {
        Some('\t')
    } else if c == 'n' {
        Some('\n')
    } else if c == 'r' {
        Some('\r')
    } else if c == '\\' || c == '\'' || c == '"' {
        Some(c)
    } else {
        None
    }
}

/// The number that lower-case digits write in base sixteen.
pub open spec fn hex_number(s: Seq<char>) -> Option<nat>
    decreases s.len(),
{
    if s.len() == 0 {
        Some(0)
    } else {
        let c = s.last();
        match hex_number(s.drop_last()) {
            Some(n) => if '0' <= c <= '9' {
                Some((16 * n + (c as int - '0' as int)) as nat)
            } else if 'a' <= c <= 'f' {
                Some((16 * n + 10 + (c as int - 'a' as int)) as nat)
            } else {
                None
            },
            None => None,
        }
    }
}

/// Whether a number is that of a character.
pub open spec fn is_scalar(n: nat) -> bool {
    n < 0xd800 || 0xe000 <= n <= 0x10ffff
}

pub open spec fn first_then(c: char, rest: Option<Seq<char>>) -> Option<Seq<char>> {
    match rest {
        Some(t) => Some(seq![c] + t),
        None => None,
    }
}

/// The text that the inside of a string literal stands for.
pub open spec fn unescaped(s: Seq<char>) -> Option<Seq<char>>
    decreases s.len(),
{
    if s.len() == 0 {
        Some(Seq::empty())
    } else if s[0] == '"' {
        None
    } else if s[0] != '\\' {
        first_then(s[0], unescaped(s.skip(1)))
    } else if s.len() >= 2 && simple_escape(s[1]) is Some {
        first_then(simple_escape(s[1])->0, unescaped(s.skip(2)))
    } else if s.len() >= 3 && s[1] == 'u' && s[2] == '{' && find(s, '}') < s.len() {
        let k = find(s, '}') as int;
        match hex_number(s.subrange(3, k)) {
            Some(n) if k > 3 && is_scalar(n) => first_then(n as char, unescaped(s.skip(k + 1))),
            _ => None,
        }
    } else {
        None
    }
}

/// The text that a string literal of the language stands for.
pub open spec fn literal_value(s: Seq<char>) -> Option<Seq<char>> {
    if s.len() >= 2 && s[0] == '"' && s.last() == '"' {
        unescaped(s.subrange(1, s.len() - 1))
    } else {
        None
    }
}

/// A text as a Rust string literal.
pub uninterp spec fn literal(text: Seq<char>) -> Seq<char>;

/// Writes a text as a Rust string literal, the way `{:?}` formats a `str`. The
/// claim is that the literal is a function of the text, that it stands for the
/// text and that it is written on one line; which characters are escaped, and
/// how, is not stated.
#[verifier::external_body]
fn literal_of(text: &str) -> (r: String)
    ensures
        r@ == literal(text@),
        literal_value(r@) == Some(text@),
        !has_char(r@, '\n'),
{
    format!("{text:?}")
}

/// A build record whose texts are already written as string literals.
pub struct Quoted {
    pub version: String,
    pub build_id: Option<String>,
    pub commit: Option<String>,
    pub dirty: Option<bool>,
    pub source_fingerprint: Option<String>,
    pub version_tag: Option<String>,
    pub commits_since_tag: Option<u64>,
    pub shallow: bool,
    pub publication: String,
    pub display: String,
    pub changes_baseline: String,
    pub changes: String,
}

impl View for Quoted {
    type V = MetadataView;

    open spec fn view(&self) -> MetadataView {
        MetadataView {
            version: self.version@,
            build_id: text_opt(self.build_id),
            commit: text_opt(self.commit),
            dirty: self.dirty,
            source_fingerprint: text_opt(self.source_fingerprint),
            version_tag: text_opt(self.version_tag),
            commits_since_tag: self.commits_since_tag,
            shallow: self.shallow,
            publication: self.publication@,
            display: self.display@,
            changes_baseline: self.changes_baseline@,
            changes: self.changes@,
        }
    }
}

pub open spec fn literal_opt(text: Option<Seq<char>>) -> Option<Seq<char>> {
    match text {
        Some(t) => Some(literal(t)),
        None => None,
    }
}

/// `m` with each of its texts as a string literal.
pub open spec fn quoted(m: MetadataView) -> MetadataView {
    MetadataView {
        version: literal(m.version),
        build_id: literal_opt(m.build_id),
        commit: literal_opt(m.commit),
        dirty: m.dirty,
        source_fingerprint: literal_opt(m.source_fingerprint),
        version_tag: literal_opt(m.version_tag),
        commits_since_tag: m.commits_since_tag,
        shallow: m.shallow,
        publication: literal(m.publication),
        display: literal(m.display),
        changes_baseline: literal(m.changes_baseline),
        changes: literal(m.changes),
    }
}

pub open spec fn option_source(text: Option<Seq<char>>) -> Seq<char> {
    match text {
        Some(t) => "Some("@ + t + ")"@,
        None => "None"@,
    }
}

pub open spec fn bool_source(b: bool) -> Seq<char> {
    if b {
        "true"@
    } else {
        "false"@
    }
}

/// The line that tells a field.
#[verifier::opaque]
pub open spec fn field_line(name: Seq<char>, value: Seq<char>) -> Seq<char> {
    name + ": "@ + value + ","@
}

pub open spec fn dirty_source(dirty: Option<bool>) -> Seq<char> {
    option_source(
        match dirty {
            Some(b) => Some(bool_source(b)),
            None => None,
        },
    )
}

pub open spec fn count_source(count: Option<u64>) -> Seq<char> {
    option_source(
        match count {
            Some(n) => Some(decimal(n as nat)),
            None => None,
        },
    )
}

/// The lines of the constant that a record of literals is written as.
pub open spec fn source_lines(q: MetadataView) -> Seq<Seq<char>> {
    seq![
        "pub const BUILD: BuildIdentity = BuildIdentity {"@,
        field_line("version"@, q.version),
        field_line("build_id"@, option_source(q.build_id)),
        field_line("commit"@, option_source(q.commit)),
        field_line("dirty"@, dirty_source(q.dirty)),
        field_line("source_fingerprint"@, option_source(q.source_fingerprint)),
        field_line("version_tag"@, option_source(q.version_tag)),
        field_line("commits_since_tag"@, count_source(q.commits_since_tag)),
        field_line("shallow"@, bool_source(q.shallow)),
        field_line("publication"@, q.publication),
        field_line("display"@, q.display),
        field_line("changes_baseline"@, q.changes_baseline),
        field_line("changes"@, q.changes),
        "};"@,
    ]
}

/// The constant that a record of literals is written as: each line ends in a
/// line feed.
pub open spec fn source_text(q: MetadataView) -> Seq<char> {
    join(source_lines(q).push(Seq::empty()), "\n"@)
}

/// What a line tells of a field.
#[verifier::opaque]
pub open spec fn field_value(line: Seq<char>, name: Seq<char>) -> Option<Seq<char>> {
    let head = name + ": "@;
    if starts_with(line, head) && line.len() > head.len() && line.last() == ',' {
        Some(line.subrange(head.len() as int, line.len() - 1))
    } else {
        None
    }
}

pub open spec fn read_text(value: Option<Seq<char>>) -> Option<Seq<char>> {
    match value {
        Some(v) => literal_value(v),
        None => None,
    }
}

/// What an option holds, in print.
pub open spec fn read_option(value: Option<Seq<char>>) -> Option<Option<Seq<char>>> {
    match value {
        Some(v) => if v == "None"@ {
            Some(None)
        } else if v.len() >= 6 && starts_with(v, "Some("@) && v.last() == ')' {
            Some(Some(v.subrange(5, v.len() - 1)))
        } else {
            None
        },
        None => None,
    }
}

pub open spec fn read_text_option(value: Option<Seq<char>>) -> Option<Option<Seq<char>>> {
    match read_option(value) {
        Some(Some(v)) => match literal_value(v) {
            Some(t) => Some(Some(t)),
            None => None,
        },
        Some(None) => Some(None),
        None => None,
    }
}

pub open spec fn read_bool(value: Option<Seq<char>>) -> Option<bool> {
    match value {
        Some(v) => if v == "true"@ {
            Some(true)
        } else if v == "false"@ {
            Some(false)
        } else {
            None
        },
        None => None,
    }
}

pub open spec fn read_bool_option(value: Option<Seq<char>>) -> Option<Option<bool>> {
    match read_option(value) {
        Some(Some(v)) => match read_bool(Some(v)) {
            Some(b) => Some(Some(b)),
            None => None,
        },
        Some(None) => Some(None),
        None => None,
    }
}

pub open spec fn read_count_option(value: Option<Seq<char>>) -> Option<Option<u64>> {
    match read_option(value) {
        Some(Some(v)) => match number(v) {
            Some(n) => Some(Some(n)),
            None => None,
        },
        Some(None) => Some(None),
        None => None,
    }
}

/// The record that the lines of a constant tell.
pub open spec fn read_lines(l: Seq<Seq<char>>) -> Option<MetadataView> {
    let version = read_text(field_value(l[1], "version"@));
    let build_id = read_text_option(field_value(l[2], "build_id"@));
    let commit = read_text_option(field_value(l[3], "commit"@));
    let dirty = read_bool_option(field_value(l[4], "dirty"@));
    let source_fingerprint = read_text_option(field_value(l[5], "source_fingerprint"@));
    let version_tag = read_text_option(field_value(l[6], "version_tag"@));
    let commits_since_tag = read_count_option(field_value(l[7], "commits_since_tag"@));
    let shallow = read_bool(field_value(l[8], "shallow"@));
    let publication = read_text(field_value(l[9], "publication"@));
    let display = read_text(field_value(l[10], "display"@));
    let changes_baseline = read_text(field_value(l[11], "changes_baseline"@));
    let changes = read_text(field_value(l[12], "changes"@));
    if version is Some && build_id is Some && commit is Some && dirty is Some
        && source_fingerprint is Some && version_tag is Some && commits_since_tag is Some
        && shallow is Some && publication is Some && display is Some && changes_baseline is Some
        && changes is Some {
        Some(
            MetadataView {
                version: version->0,
                build_id: build_id->0,
                commit: commit->0,
                dirty: dirty->0,
                source_fingerprint: source_fingerprint->0,
                version_tag: version_tag->0,
                commits_since_tag: commits_since_tag->0,
                shallow: shallow->0,
                publication: publication->0,
                display: display->0,
                changes_baseline: changes_baseline->0,
                changes: changes->0,
            },
        )
    } else {
        None
    }
}

/// The record that the source of a constant tells.
pub open spec fn read_source(source: Seq<char>) -> Option<MetadataView> {
    let l = lines(source);
    if l.len() == 14 && l[0] == "pub const BUILD: BuildIdentity = BuildIdentity {"@ && l[13]
        == "};"@ {
        read_lines(l)
    } else {
        None
    }
}

/// Whether a literal on one line stands for a text.
pub open spec fn stands_for(literal: Seq<char>, text: Seq<char>) -> bool {
    literal_value(literal) == Some(text) && !has_char(literal, '\n')
}

pub open spec fn option_stands_for(literal: Option<Seq<char>>, text: Option<Seq<char>>) -> bool {
    match (literal, text) {
        (Some(l), Some(t)) => stands_for(l, t),
        (None, None) => true,
        _ => false,
    }
}

/// Whether the literals of `q` stand for the texts of `m`, and all else is the
/// same in both.
pub open spec fn record_stands_for(q: MetadataView, m: MetadataView) -> bool {
    &&& stands_for(q.version, m.version)
    &&& option_stands_for(q.build_id, m.build_id)
    &&& option_stands_for(q.commit, m.commit)
    &&& q.dirty == m.dirty
    &&& option_stands_for(q.source_fingerprint, m.source_fingerprint)
    &&& option_stands_for(q.version_tag, m.version_tag)
    &&& q.commits_since_tag == m.commits_since_tag
    &&& q.shallow == m.shallow
    &&& stands_for(q.publication, m.publication)
    &&& stands_for(q.display, m.display)
    &&& stands_for(q.changes_baseline, m.changes_baseline)
    &&& stands_for(q.changes, m.changes)
}

/// A line that tells a field gives it back.
proof fn lemma_field(name: Seq<char>, value: Seq<char>)
    requires
        !has_char(name, '\n'),
        !has_char(value, '\n'),
    ensures
        field_value(field_line(name, value), name) == Some(value),
        is_line(field_line(name, value)),
{
    reveal(field_line);
    reveal(field_value);
    reveal_strlit(": ");
    reveal_strlit(",");
    let line = field_line(name, value);
    let head = name + ": "@;
    assert(line.take(head.len() as int) =~= head);
    assert(line.subrange(head.len() as int, line.len() - 1) =~= value);
    assert(line.last() == ',');
    assert forall|i: int| 0 <= i < line.len() implies line[i] != '\n' by {
        if i < name.len() {
            assert(line[i] == name[i]);
        } else if i >= head.len() && i < line.len() - 1 {
            assert(line[i] == value[i - head.len()]);
        }
    }
}

/// An option in print gives back what it holds.
proof fn lemma_option(value: Option<Seq<char>>)
    requires
        value matches Some(v) ==> !has_char(v, '\n'),
    ensures
        read_option(Some(option_source(value))) == Some(value),
        !has_char(option_source(value), '\n'),
{
    reveal_strlit("Some(");
    reveal_strlit(")");
    reveal_strlit("None");
    let s = option_source(value);
    if let Some(v) = value {
        assert(s[0] == 'S');
        assert(s.take(5) =~= "Some("@);
        assert(s.subrange(5, s.len() - 1) =~= v);
        assert forall|i: int| 0 <= i < s.len() implies s[i] != '\n' by {
            if 5 <= i < s.len() - 1 {
                assert(s[i] == v[i - 5]);
            }
        }
    }
}

proof fn lemma_bool(b: bool)
    ensures
        read_bool(Some(bool_source(b))) == Some(b),
        !has_char(bool_source(b), '\n'),
{
    reveal_strlit("true");
    reveal_strlit("false");
    assert("true"@.len() != "false"@.len());
}

proof fn lemma_count(n: u64)
    ensures
        number(decimal(n as nat)) == Some(n),
        !has_char(decimal(n as nat), '\n'),
{
    lemma_decimal_value(n as nat);
    let d = decimal(n as nat);
    assert(is_digit(d[0]));
    assert forall|i: int| 0 <= i < d.len() implies d[i] != '\n' by {
        assert(is_digit(d[i]));
    }
}

/// The names of the fields hold no line feed.
proof fn lemma_names()
    ensures
        !has_char("version"@, '\n'),
        !has_char("build_id"@, '\n'),
        !has_char("commit"@, '\n'),
        !has_char("dirty"@, '\n'),
        !has_char("source_fingerprint"@, '\n'),
        !has_char("version_tag"@, '\n'),
        !has_char("commits_since_tag"@, '\n'),
        !has_char("shallow"@, '\n'),
        !has_char("publication"@, '\n'),
        !has_char("display"@, '\n'),
        !has_char("changes_baseline"@, '\n'),
        !has_char("changes"@, '\n'),
{
    assert(!has_char("version"@, '\n')) by {
        reveal_strlit("version");
    }
    assert(!has_char("build_id"@, '\n')) by {
        reveal_strlit("build_id");
    }
    assert(!has_char("commit"@, '\n')) by {
        reveal_strlit("commit");
    }
    assert(!has_char("dirty"@, '\n')) by {
        reveal_strlit("dirty");
    }
    assert(!has_char("source_fingerprint"@, '\n')) by {
        reveal_strlit("source_fingerprint");
    }
    assert(!has_char("version_tag"@, '\n')) by {
        reveal_strlit("version_tag");
    }
    assert(!has_char("commits_since_tag"@, '\n')) by {
        reveal_strlit("commits_since_tag");
    }
    assert(!has_char("shallow"@, '\n')) by {
        reveal_strlit("shallow");
    }
    assert(!has_char("publication"@, '\n')) by {
        reveal_strlit("publication");
    }
    assert(!has_char("display"@, '\n')) by {
        reveal_strlit("display");
    }
    assert(!has_char("changes_baseline"@, '\n')) by {
        reveal_strlit("changes_baseline");
    }
    assert(!has_char("changes"@, '\n')) by {
        reveal_strlit("changes");
    }
}

proof fn lemma_text_field(name: Seq<char>, literal: Seq<char>, text: Seq<char>)
    requires
        !has_char(name, '\n'),
        stands_for(literal, text),
    ensures
        read_text(field_value(field_line(name, literal), name)) == Some(text),
        is_line(field_line(name, literal)),
{
    lemma_field(name, literal);
}

proof fn lemma_option_field(
    name: Seq<char>,
    literal: Option<Seq<char>>,
    text: Option<Seq<char>>,
)
    requires
        !has_char(name, '\n'),
        option_stands_for(literal, text),
    ensures
        read_text_option(field_value(field_line(name, option_source(literal)), name)) == Some(
            text,
        ),
        is_line(field_line(name, option_source(literal))),
{
    lemma_option(literal);
    lemma_field(name, option_source(literal));
}

proof fn lemma_dirty_field(name: Seq<char>, dirty: Option<bool>)
    requires
        !has_char(name, '\n'),
    ensures
        read_bool_option(field_value(field_line(name, dirty_source(dirty)), name)) == Some(dirty),
        is_line(field_line(name, dirty_source(dirty))),
{
    match dirty {
        Some(b) => {
            lemma_bool(b);
            lemma_option(Some(bool_source(b)));
        },
        None => lemma_option(None),
    }
    lemma_field(name, dirty_source(dirty));
}

proof fn lemma_count_field(name: Seq<char>, count: Option<u64>)
    requires
        !has_char(name, '\n'),
    ensures
        read_count_option(field_value(field_line(name, count_source(count)), name)) == Some(count),
        is_line(field_line(name, count_source(count))),
{
    match count {
        Some(n) => {
            lemma_count(n);
            lemma_option(Some(decimal(n as nat)));
        },
        None => lemma_option(None),
    }
    lemma_field(name, count_source(count));
}

proof fn lemma_bool_field(name: Seq<char>, b: bool)
    requires
        !has_char(name, '\n'),
    ensures
        read_bool(field_value(field_line(name, bool_source(b)), name)) == Some(b),
        is_line(field_line(name, bool_source(b))),
{
    lemma_bool(b);
    lemma_field(name, bool_source(b));
}

/// What stands around the fields are lines.
proof fn lemma_frame_lines()
    ensures
        is_line("pub const BUILD: BuildIdentity = BuildIdentity {"@),
        is_line("};"@),
{
    reveal_strlit("pub const BUILD: BuildIdentity = BuildIdentity {");
    reveal_strlit("};");
}

/// Each line of a source gives back its field.
proof fn lemma_lines_tell(q: MetadataView, m: MetadataView)
    requires
        record_stands_for(q, m),
    ensures
        read_lines(source_lines(q)) == Some(m),
        forall|i: int| 0 <= i < 14 ==> is_line(#[trigger] source_lines(q)[i]),
{
    let l = source_lines(q);
    lemma_names();
    lemma_frame_lines();
    lemma_text_field("version"@, q.version, m.version);
    lemma_option_field("build_id"@, q.build_id, m.build_id);
    lemma_option_field("commit"@, q.commit, m.commit);
    lemma_dirty_field("dirty"@, q.dirty);
    lemma_option_field("source_fingerprint"@, q.source_fingerprint, m.source_fingerprint);
    lemma_option_field("version_tag"@, q.version_tag, m.version_tag);
    lemma_count_field("commits_since_tag"@, q.commits_since_tag);
    lemma_bool_field("shallow"@, q.shallow);
    lemma_text_field("publication"@, q.publication, m.publication);
    lemma_text_field("display"@, q.display, m.display);
    lemma_text_field("changes_baseline"@, q.changes_baseline, m.changes_baseline);
    lemma_text_field("changes"@, q.changes, m.changes);
    assert(read_lines(l)->0 =~= m);
}

/// A source has fourteen lines, and reads as the record whose texts its
/// literals stand for.
pub proof fn a_source_reads_back(q: MetadataView, m: MetadataView)
    requires
        record_stands_for(q, m),
    ensures
        lines(source_text(q)) == source_lines(q),
        source_lines(q).len() == 14,
        read_source(source_text(q)) == Some(m),
{
    let parts = source_lines(q).push(Seq::empty());
    lemma_lines_tell(q, m);
    reveal_strlit("\n");
    assert("\n"@ =~= seq!['\n']);
    assert forall|i: int| 0 <= i < parts.len() implies is_line(#[trigger] parts[i]) by {
        if i < 14 {
            assert(parts[i] == source_lines(q)[i]);
        }
    }
    lemma_lines_of_join(parts);
    assert(parts.drop_last() =~= source_lines(q));
}

/// Two different records have two different sources.
pub proof fn two_records_have_two_sources(
    p: MetadataView,
    m: MetadataView,
    q: MetadataView,
    n: MetadataView,
)
    requires
        record_stands_for(p, m),
        record_stands_for(q, n),
        source_text(p) == source_text(q),
    ensures
        m == n,
{
    a_source_reads_back(p, m);
    a_source_reads_back(q, n);
}

fn option_text(text: &Option<String>) -> (r: String)
    ensures
        r@ == option_source(text_opt(*text)),
{
    match text {
        Some(t) => {
            let mut r: String = "Some(".to_owned();
            r.append(t.as_str());
            r.append(")");
            r
        },
        None => "None".to_owned(),
    }
}

fn push_field(out: &mut Vec<String>, name: &str, value: &str)
    ensures
        texts(final(out)@) == texts(old(out)@).push(field_line(name@, value@)),
{
    let ghost before = out@;
    let mut line: String = name.to_owned();
    line.append(": ");
    line.append(value);
    line.append(",");
    out.push(line);
    proof {
        reveal(field_line);
        assert(texts(out@) =~= texts(before).push(field_line(name@, value@)));
    }
}

fn bool_text(b: bool) -> (r: &'static str)
    ensures
        r@ == bool_source(b),
{
    if b {
        "true"
    } else {
        "false"
    }
}

fn literal_opt_of(text: &Option<String>) -> (r: Option<String>)
    ensures
        text_opt(r) == literal_opt(text_opt(*text)),
        option_stands_for(text_opt(r), text_opt(*text)),
{
    match text {
        Some(t) => Some(literal_of(t.as_str())),
        None => None,
    }
}

impl Quoted {
    /// The constant that the record is written as.
    pub fn rust_source(&self) -> (r: String)
        ensures
            r@ == source_text(self@),
    {
        let dirty: Option<String> = match self.dirty {
            Some(b) => Some(bool_text(b).to_owned()),
            None => None,
        };
        let commits: Option<String> = match self.commits_since_tag {
            Some(n) => {
                let mut t: String = String::new();
                push_decimal(&mut t, n);
                assert(t@ =~= decimal(n as nat));
                Some(t)
            },
            None => None,
        };
        let mut l: Vec<String> = Vec::new();
        l.push("pub const BUILD: BuildIdentity = BuildIdentity {".to_owned());
        push_field(&mut l, "version", self.version.as_str());
        push_field(&mut l, "build_id", option_text(&self.build_id).as_str());
        push_field(&mut l, "commit", option_text(&self.commit).as_str());
        push_field(&mut l, "dirty", option_text(&dirty).as_str());
        push_field(&mut l, "source_fingerprint", option_text(&self.source_fingerprint).as_str());
        push_field(&mut l, "version_tag", option_text(&self.version_tag).as_str());
        push_field(&mut l, "commits_since_tag", option_text(&commits).as_str());
        push_field(&mut l, "shallow", bool_text(self.shallow));
        push_field(&mut l, "publication", self.publication.as_str());
        push_field(&mut l, "display", self.display.as_str());
        push_field(&mut l, "changes_baseline", self.changes_baseline.as_str());
        push_field(&mut l, "changes", self.changes.as_str());
        let ghost fields = texts(l@);
        l.push("};".to_owned());
        l.push("".to_owned());
        proof {
            reveal_strlit("");
            assert(""@ =~= Seq::<char>::empty());
            assert(texts(l@) =~= fields.push("};"@).push(Seq::empty()));
            assert(texts(l@) =~= source_lines(self@).push(Seq::empty()));
        }
        join_of(&l, "\n")
    }
}

impl Metadata {
    /// The record as the source of a Rust constant, which reads as the record
    /// again.
    pub fn rust_source(&self) -> (r: String)
        ensures
            r@ == source_text(quoted(self@)),
            lines(r@) == source_lines(quoted(self@)),
            read_source(r@) == Some(self@),
    {
        let q: Quoted = Quoted {
            version: literal_of(self.version.as_str()),
            build_id: literal_opt_of(&self.build_id),
            commit: literal_opt_of(&self.commit),
            dirty: self.dirty,
            source_fingerprint: literal_opt_of(&self.source_fingerprint),
            version_tag: literal_opt_of(&self.version_tag),
            commits_since_tag: self.commits_since_tag,
            shallow: self.shallow,
            publication: literal_of(self.publication.as_str()),
            display: literal_of(self.display.as_str()),
            changes_baseline: literal_of(self.changes_baseline.as_str()),
            changes: literal_of(self.changes.as_str()),
        };
        proof {
            assert(q@ =~= quoted(self@));
            a_source_reads_back(q@, self@);
        }
        q.rust_source()
    }
}

/// The pieces of `bytes` between zero bytes, without the empty ones.
pub open spec fn zero_separated(bytes: Seq<u8>, current: Seq<u8>) -> Seq<Seq<u8>>
    decreases bytes.len(),
{
    let done = if current.len() == 0 {
        Seq::<Seq<u8>>::empty()
    } else {
        seq![current]
    };
    if bytes.len() == 0 {
        done
    } else if bytes[0] == 0 {
        done + zero_separated(bytes.drop_first(), Seq::empty())
    } else {
        zero_separated(bytes.drop_first(), current.push(bytes[0]))
    }
}

/// The paths of a listing that ends each with a zero byte.
pub fn untracked_paths(listing: &Vec<u8>) -> (r: Vec<Vec<u8>>)
    ensures
        r@.map_values(|p: Vec<u8>| p@) == zero_separated(listing@, Seq::empty()),
{
    let mut r: Vec<Vec<u8>> = Vec::new();
    let mut current: Vec<u8> = Vec::new();
    let mut i: usize = 0;
    let ghost f = |p: Vec<u8>| p@;
    assert(listing@.skip(0) =~= listing@);
    assert(r@.map_values(f) + zero_separated(listing@, Seq::empty()) =~= zero_separated(
        listing@,
        Seq::empty(),
    ));
    while i < listing.len()
        invariant
            i <= listing@.len(),
            f == (|p: Vec<u8>| p@),
            r@.map_values(f) + zero_separated(listing@.skip(i as int), current@)
                == zero_separated(listing@, Seq::empty()),
        decreases listing@.len() - i,
    {
        let ghost rest = listing@.skip(i as int);
        let ghost before = r@;
        proof {
            assert(rest.drop_first() =~= listing@.skip(i + 1));
            assert(rest[0] == listing@[i as int]);
        }
        if listing[i] == 0 {
            if current.len() > 0 {
                let mut piece: Vec<u8> = Vec::new();
                std::mem::swap(&mut piece, &mut current);
                let ghost text = piece@;
                r.push(piece);
                proof {
                    assert(r@.map_values(f) =~= before.map_values(f).push(text));
                    assert(r@.map_values(f) + zero_separated(listing@.skip(i + 1), current@)
                        =~= before.map_values(f) + zero_separated(rest, text));
                }
            } else {
                proof {
                    assert(current@ =~= Seq::<u8>::empty());
                    assert(Seq::<Seq<u8>>::empty() + zero_separated(rest.drop_first(), Seq::empty())
                        =~= zero_separated(rest.drop_first(), Seq::empty()));
                }
            }
        } else {
            current.push(listing[i]);
        }
        i = i + 1;
    }
    let ghost before = r@;
    let ghost text = current@;
    assert(listing@.skip(i as int) =~= Seq::<u8>::empty());
    if current.len() > 0 {
        r.push(current);
        assert(r@.map_values(f) =~= before.map_values(f) + seq![text]);
    } else {
        assert(before.map_values(f) + Seq::<Seq<u8>>::empty() =~= before.map_values(f));
    }
    r
}

/// An untracked file: its path and its content, or where it links to.
pub struct UntrackedFile {
    pub path: Vec<u8>,
    pub content: Vec<u8>,
}

/// What stands for the first `n` untracked files: each path and content, with
/// a zero after each.
pub open spec fn untracked_bytes(files: Seq<UntrackedFile>, n: int) -> Seq<u8>
    decreases n,
{
    if n <= 0 {
        Seq::empty()
    } else {
        untracked_bytes(files, n - 1) + files[n - 1].path@ + seq![0u8] + files[n - 1].content@
            + seq![0u8]
    }
}

fn extend_bytes(v: &mut Vec<u8>, more: &Vec<u8>)
    ensures
        final(v)@ == old(v)@ + more@,
{
    let ghost start = v@;
    let mut i: usize = 0;
    assert(start + more@.take(0) =~= start);
    while i < more.len()
        invariant
            i <= more@.len(),
            v@ == start + more@.take(i as int),
        decreases more@.len() - i,
    {
        v.push(more[i]);
        assert(more@.take(i + 1) =~= more@.take(i as int).push(more@[i as int]));
        assert(v@ =~= start + more@.take(i + 1));
        i = i + 1;
    }
    assert(more@.take(i as int) =~= more@);
}

/// The bytes whose hash identifies a checkout with local changes: its status,
/// its changes, and its untracked files.
pub fn fingerprint(status: &Vec<u8>, diff: &Vec<u8>, files: &Vec<UntrackedFile>) -> (r: Vec<u8>)
    ensures
        r@ == status@ + diff@ + untracked_bytes(files@, files@.len() as int),
{
    let mut r: Vec<u8> = Vec::new();
    extend_bytes(&mut r, status);
    extend_bytes(&mut r, diff);
    let ghost head = r@;
    assert(head =~= status@ + diff@);
    let mut i: usize = 0;
    assert(head + untracked_bytes(files@, 0) =~= head);
    while i < files.len()
        invariant
            i <= files@.len(),
            r@ == head + untracked_bytes(files@, i as int),
        decreases files@.len() - i,
    {
        let ghost before = r@;
        extend_bytes(&mut r, &files[i].path);
        r.push(0);
        extend_bytes(&mut r, &files[i].content);
        r.push(0);
        assert(r@ =~= head + untracked_bytes(files@, i + 1));
        i = i + 1;
    }
    r
}

/// A record vouches for a tag only where it names the tag and the commit, and
/// has a date and an address of a release.
pub proof fn a_record_vouches_for_one_tag(
    tag: &str,
    commit: &str,
    entry_tag: &Option<String>,
    entry_commit: &Option<String>,
    published_at: &Option<String>,
    url: &Option<String>,
    r: bool,
)
    requires
        call_ensures(
            publication_matches,
            (tag, commit, entry_tag, entry_commit, published_at, url),
            r,
        ),
    ensures
        r ==> entry_tag is Some && entry_tag->0@ == tag@,
        r ==> entry_commit is Some && entry_commit->0@ == commit@,
        r ==> published_at is Some && published_at->0@.len() > 0,
        r ==> url is Some && starts_with(
            url->0@,
            "https://github.com/kovvbojAV/cuePool/releases/tag/"@,
        ),
        text_opt(*entry_tag) == Some(tag@) && text_opt(*entry_commit) == Some(commit@)
            && published_at is Some && published_at->0@.len() > 0 && url is Some && starts_with(
            url->0@,
            "https://github.com/kovvbojAV/cuePool/releases/tag/"@,
        ) ==> r,
{
}

/// A tag is published where its marker stands at the tag's own commit and the
/// marker's record vouches for it.
pub proof fn a_published_tag_is_vouched_for(
    tag: &Tag,
    r: bool,
    entry_tag: Option<String>,
    entry_commit: Option<String>,
    published_at: Option<String>,
    url: Option<String>,
    name: &str,
    commit: &str,
    matches: bool,
)
    requires
        call_ensures(published, (tag,), r),
        call_ensures(
            publication_matches,
            (name, commit, &entry_tag, &entry_commit, &published_at, &url),
            matches,
        ),
        name@ == tag.name@,
        text_opt(tag.commit) == Some(commit@),
        tag.marker is Some,
        text_opt(entry_tag) == json_text(tag.marker->0@, "tag"@),
        text_opt(entry_commit) == json_text(tag.marker->0@, "commit"@),
        text_opt(published_at) == json_text(tag.marker->0@, "published_at"@),
        text_opt(url) == json_text(tag.marker->0@, "url"@),
    ensures
        r <==> text_opt(tag.marker_commit) == Some(commit@) && matches,
{
}

/// A tag without a commit, a marker, or a commit of the marker is not
/// published.
pub proof fn an_unmarked_tag_is_not_published(tag: &Tag, r: bool)
    requires
        call_ensures(published, (tag,), r),
        tag.commit is None || tag.marker is None || tag.marker_commit is None,
    ensures
        !r,
{
}

/// A build is compared against a tag behind the head: the nearest published
/// one where there is any, else the nearest one, of equally near ones the
/// first. Where no tag lies behind the head there is none.
pub proof fn a_build_is_compared_with_the_nearest_release(tags: &Vec<Tag>, r: Option<usize>, k: int)
    requires
        call_ensures(baseline, (tags,), r),
        0 <= k < tags@.len(),
    ensures
        r matches Some(i) ==> i < tags@.len() && tags@[i as int].distance is Some
            && tags@[i as int].distance->0 > 0,
        tags@[k].distance is Some && tags@[k].distance->0 > 0 ==> r is Some,
        r matches Some(i) ==> (tags@[k].distance is Some && tags@[k].distance->0 > 0
            && is_published(tags@[k]@) ==> {
            &&& is_published(tags@[i as int]@)
            &&& tags@[i as int].distance->0 <= tags@[k].distance->0
            &&& tags@[i as int].distance->0 == tags@[k].distance->0 ==> i <= k
        }),
        r matches Some(i) ==> (tags@[k].distance is Some && tags@[k].distance->0 > 0
            && !is_published(tags@[i as int]@) ==> {
            &&& tags@[i as int].distance->0 <= tags@[k].distance->0
            &&& tags@[i as int].distance->0 == tags@[k].distance->0 ==> i <= k
        }),
{
    let views = tags_view(tags@);
    let n = views.len() as int;
    assert(views[k] == tags@[k]@);
    nearest_is_first_smallest(earlier(views, true), n);
    nearest_is_first_smallest(earlier(views, false), n);
    assert(earlier(views, true).len() == n);
    let strict = earlier(views, true);
    let any = earlier(views, false);
    assert(strict[k] == strict[k] && any[k] == any[k]);
    if r is Some {
        let i = r->0 as int;
        assert(views[i] == tags@[i]@);
        assert(strict[i] == strict[i] && any[i] == any[i]);
    }
}

proof fn lemma_zero_separated(piece: Seq<u8>, rest: Seq<u8>, current: Seq<u8>)
    requires
        forall|i: int| 0 <= i < piece.len() ==> piece[i] != 0,
        current.len() + piece.len() > 0,
    ensures
        zero_separated(piece + seq![0u8] + rest, current) == seq![current + piece]
            + zero_separated(rest, Seq::empty()),
        zero_separated(piece, current) == seq![current + piece],
    decreases piece.len(),
{
    let all = piece + seq![0u8] + rest;
    if piece.len() == 0 {
        assert(all.drop_first() =~= rest);
        assert(current + piece =~= current);
        assert(zero_separated(piece, current) =~= seq![current]);
    } else {
        let next = piece.drop_first();
        assert(all.drop_first() =~= next + seq![0u8] + rest);
        assert(all[0] == piece[0]);
        lemma_zero_separated(next, rest, current.push(piece[0]));
        assert(current.push(piece[0]) + next =~= current + piece);
    }
}

/// A listing is read path by path: each is what stands before a zero byte, and
/// what stands behind the last one counts too. Empty ones are passed over.
pub proof fn a_listing_is_read_path_by_path(
    listing: &Vec<u8>,
    rest: &Vec<u8>,
    r: Vec<Vec<u8>>,
    behind: Vec<Vec<u8>>,
    piece: Seq<u8>,
    i: int,
)
    requires
        call_ensures(untracked_paths, (listing,), r),
        call_ensures(untracked_paths, (rest,), behind),
        forall|i: int| 0 <= i < piece.len() ==> piece[i] != 0,
    ensures
        listing@.len() == 0 ==> r@.len() == 0,
        listing@ == piece && piece.len() > 0 ==> r@.len() == 1 && r@[0]@ == piece,
        listing@ == piece + seq![0u8] + rest@ && piece.len() > 0 ==> r@.len() == behind@.len() + 1
            && r@[0]@ == piece && (0 <= i < behind@.len() ==> r@[i + 1]@ == behind@[i]@),
        listing@ == seq![0u8] + rest@ ==> r@.len() == behind@.len() && (0 <= i < behind@.len()
            ==> r@[i]@ == behind@[i]@),
{
    let f = |p: Vec<u8>| p@;
    let a = r@.map_values(f);
    let b = behind@.map_values(f);
    assert(a.len() == r@.len() && b.len() == behind@.len());
    assert(a =~= zero_separated(listing@, Seq::empty()));
    assert(b =~= zero_separated(rest@, Seq::empty()));
    if piece.len() > 0 {
        lemma_zero_separated(piece, rest@, Seq::empty());
        assert(Seq::<u8>::empty() + piece =~= piece);
        if listing@ == piece {
            assert(a[0] == piece);
            assert(a[0] == r@[0]@);
        }
        if listing@ == piece + seq![0u8] + rest@ {
            assert(a == seq![piece] + b);
            assert(a[0] == piece);
            assert(a[0] == r@[0]@);
            if 0 <= i < behind@.len() {
                assert(a[i + 1] == b[i]);
                assert(b[i] == behind@[i]@);
                assert(a[i + 1] == r@[i + 1]@);
            }
        }
    }
    if listing@ == seq![0u8] + rest@ {
        assert(listing@.drop_first() =~= rest@);
        assert(listing@[0] == 0);
        assert(Seq::<Seq<u8>>::empty() + zero_separated(rest@, Seq::empty()) =~= b);
        assert(a =~= b);
        if 0 <= i < behind@.len() {
            assert(a[i] == r@[i]@ && b[i] == behind@[i]@);
        }
    }
}

/// The fingerprint covers the status, the changes, and each untracked file
/// with its path and content, a zero byte behind each.
pub proof fn a_fingerprint_covers_each_file(
    status: &Vec<u8>,
    diff: &Vec<u8>,
    files: &Vec<UntrackedFile>,
    more: &Vec<UntrackedFile>,
    file: UntrackedFile,
    r: Vec<u8>,
    s: Vec<u8>,
)
    requires
        call_ensures(fingerprint, (status, diff, files), r),
        call_ensures(fingerprint, (status, diff, more), s),
        more@ == files@.push(file),
    ensures
        files@.len() == 0 ==> r@ == status@ + diff@,
        s@ == r@ + file.path@ + seq![0u8] + file.content@ + seq![0u8],
{
    let n = files@.len() as int;
    lemma_untracked_prefix(files@, more@, n);
    assert(more@[n] == file);
    assert(s@ =~= r@ + file.path@ + seq![0u8] + file.content@ + seq![0u8]);
}

proof fn lemma_untracked_prefix(a: Seq<UntrackedFile>, b: Seq<UntrackedFile>, n: int)
    requires
        n <= a.len(),
        n <= b.len(),
        forall|i: int| 0 <= i < n ==> a[i] == b[i],
    ensures
        untracked_bytes(a, n) == untracked_bytes(b, n),
    decreases n,
{
    if n > 0 {
        lemma_untracked_prefix(a, b, n - 1);
    }
}

/// The record of a checkout names its commit, tells whether anything was
/// changed since, and gives the fingerprint of that where it was.
pub proof fn a_checkout_is_told_apart(
    package_version: &str,
    override_id: Option<&str>,
    changelog: &str,
    c: &Checkout,
    m: Metadata,
)
    requires
        call_ensures(collect, (package_version, override_id, changelog, Some(c)), m),
    ensures
        m.version@ == package_version@,
        text_opt(m.commit) == Some(c.commit@),
        c.status is None ==> m.dirty is None,
        c.status matches Some(bytes) ==> m.dirty == Some(bytes@.len() > 0),
        m.dirty == Some(true) ==> text_opt(m.source_fingerprint) == text_opt(c.fingerprint),
        m.dirty != Some(true) ==> m.source_fingerprint is None,
        m.shallow <==> text_opt(c.shallow) == Some("true"@),
        (override_id matches Some(id) ==> trimmed(id@).len() == 0) ==> text_opt(m.build_id) == Some(
            c.commit@.take(7),
        ),
        (override_id matches Some(id) && trimmed(id@).len() > 0) ==> text_opt(m.build_id) == Some(
            trimmed(override_id->0@),
        ),
{
    assert(m@.version == package_version@);
    assert(m@.commit == Some(c@.commit));
    assert(m@.source_fingerprint == c@.source_fingerprint());
}

/// The record of a checkout names the version tag nearest to the head, how far
/// it is, and whether it is published.
pub proof fn a_build_names_its_nearest_tag(
    package_version: &str,
    override_id: Option<&str>,
    changelog: &str,
    c: &Checkout,
    m: Metadata,
    k: int,
)
    requires
        call_ensures(collect, (package_version, override_id, changelog, Some(c)), m),
        0 <= k < c.tags@.len(),
        c.tags@[k].distance is Some,
        forall|j: int|
            0 <= j < c.tags@.len() && j != k ==> ((#[trigger] c.tags@[j]).distance matches Some(d)
                ==> c.tags@[k].distance->0 < d),
    ensures
        text_opt(m.version_tag) == Some(c.tags@[k].name@),
        m.commits_since_tag == c.tags@[k].distance,
        is_published(c.tags@[k]@) ==> m.publication@ == "published"@,
        !is_published(c.tags@[k]@) ==> m.publication@ == "unverified"@,
{
    let keys = distances(c@.tags);
    let n = c@.tags.len() as int;
    assert(c@.tags[k] == c.tags@[k]@);
    nearest_is_first_smallest(keys, n);
    assert(keys[k] == c.tags@[k].distance);
    let i = nearest(keys, n)->0;
    assert(c@.tags[i] == c.tags@[i]@);
    assert(keys[i] == c.tags@[i].distance);
    assert(c@.nearest_tag() == Some(k));
    assert(m@.version_tag == Some(c@.tags[k].name));
    assert(m@.publication == c@.publication());
}

/// Without a tag no version is named, and none is published.
pub proof fn a_build_without_tags_names_none(
    package_version: &str,
    override_id: Option<&str>,
    changelog: &str,
    c: &Checkout,
    m: Metadata,
)
    requires
        call_ensures(collect, (package_version, override_id, changelog, Some(c)), m),
        c.tags@.len() == 0,
    ensures
        m.version_tag is None,
        m.commits_since_tag is None,
        m.publication@ == "unverified"@,
        m.changes_baseline@ == "No earlier version baseline available; visible history only"@,
{
    assert(c@.tags.len() == 0);
    assert(m@.version_tag is None);
    assert(m@.publication == c@.publication());
    assert(m@.changes_baseline == baseline_text(c@.tags));
}

/// The display of a build says at an exact tag that it is one, and else how
/// far it is beyond the tag.
pub proof fn the_position_is_told_from_the_tag(
    version: Seq<char>,
    tag: Seq<char>,
    n: u64,
    publication: Seq<char>,
)
    ensures
        n == 0 && tag == "v"@ + version ==> position_text(version, Some(tag), Some(n), publication)
            == "Version tag "@ + tag + "; "@ + publication,
        n > 0 || tag != "v"@ + version ==> position_text(version, Some(tag), Some(n), publication)
            == "Development: "@ + decimal(n as nat) + " commits beyond "@ + tag + "; tag "@
            + publication,
        position_text(version, None, Some(n), publication)
            == "Development: version baseline unavailable"@,
        position_text(version, Some(tag), None, publication)
            == "Development: version baseline unavailable"@,
{
}

/// What a build displays: its version, the short commit, whether the checkout
/// is as committed, where it stands, a name that was given, and a note where
/// the history is cut short.
pub proof fn a_build_displays_where_it_comes_from(
    package_version: &str,
    override_id: Option<&str>,
    changelog: &str,
    c: &Checkout,
    m: Metadata,
)
    requires
        call_ensures(collect, (package_version, override_id, changelog, Some(c)), m),
    ensures
        ({
            let state = if m.dirty == Some(false) {
                "clean"@
            } else if m.dirty == Some(true) {
                if c.fingerprint is Some {
                    "locally modified "@ + c.fingerprint->0@.take(12)
                } else {
                    "locally modified "@ + "(fingerprint unavailable)"@
                }
            } else {
                "checkout state unavailable"@
            };
            let start = package_version@ + " · "@ + c.commit@.take(7) + " · "@ + state + "\n"@
                + position_text(
                package_version@,
                text_opt(m.version_tag),
                m.commits_since_tag,
                m.publication@,
            );
            let named = override_id is Some && trimmed(override_id->0@).len() > 0;
            &&& !named && !m.shallow ==> m.display@ == start
            &&& named && !m.shallow ==> m.display@ == start + (" · Build "@ + trimmed(
                override_id->0@,
            ))
            &&& !named && m.shallow ==> m.display@ == start + " · shallow history"@
            &&& named && m.shallow ==> m.display@ == start + (" · Build "@ + trimmed(
                override_id->0@,
            )) + " · shallow history"@
        }),
{
    let e = checkout_record(package_version@, slice_opt(override_id), changelog@, c@);
    assert(m@ == e);
    assert(m@.display == m.display@);
    assert(m@.dirty == m.dirty);
    assert(m@.publication == m.publication@);
    assert(m@.version_tag == text_opt(m.version_tag));
    assert(c@.commit == c.commit@);
    let empty = Seq::<char>::empty();
    assert(forall|s: Seq<char>| #[trigger] (s + empty) =~= s);
}

/// The changes of a build are the notes since the baseline, then the history,
/// then a caution for each thing that these do not tell.
pub proof fn the_changes_end_with_their_cautions(
    package_version: &str,
    override_id: Option<&str>,
    changelog: &str,
    c: &Checkout,
    m: Metadata,
    notes: String,
    told: String,
    log: Option<&str>,
    from: Option<&str>,
    at: Option<usize>,
)
    requires
        call_ensures(collect, (package_version, override_id, changelog, Some(c)), m),
        call_ensures(baseline, (&c.tags,), at),
        call_ensures(changelog_excerpt, (changelog, package_version, from), notes),
        call_ensures(history, (log, &c.files), told),
        at is None ==> from is None,
        at matches Some(i) ==> slice_opt(from) == Some(c.tags@[i as int].name@),
        slice_opt(log) == text_opt(c.log),
    ensures
        ({
            let start = if notes@.len() == 0 {
                told@
            } else {
                notes@ + "\n\n"@ + told@
            };
            let edits =
                "\nLocally modified: commit descriptions do not cover uncommitted edits.\n"@;
            let cut =
                "\nShallow checkout: tags, comparison baselines and history may be incomplete.\n"@;
            &&& m.dirty != Some(true) && !m.shallow ==> m.changes@ == start
            &&& m.dirty == Some(true) && !m.shallow ==> m.changes@ == start + edits
            &&& m.dirty != Some(true) && m.shallow ==> m.changes@ == start + cut
            &&& m.dirty == Some(true) && m.shallow ==> m.changes@ == start + edits + cut
        }),
        at matches Some(i) ==> {
            &&& is_published(c.tags@[i as int]@) ==> m.changes_baseline@
                == c.tags@[i as int].name@ + " ("@ + "published release"@ + ")"@
            &&& !is_published(c.tags@[i as int]@) ==> m.changes_baseline@
                == c.tags@[i as int].name@ + " ("@ + "version tag; publication unverified"@ + ")"@
        },
{
    let e = checkout_record(package_version@, slice_opt(override_id), changelog@, c@);
    assert(m@ == e);
    assert(m@.changes == m.changes@);
    assert(m@.changes_baseline == m.changes_baseline@);
    if at is Some {
        let i = at->0 as int;
        assert(c@.tags[i] == c.tags@[i]@);
    }
    assert(baseline_name(c@.tags) == slice_opt(from));
    let empty = Seq::<char>::empty();
    assert(forall|s: Seq<char>| #[trigger] (s + empty) =~= s);
    assert(forall|s: Seq<char>| #[trigger] (empty + s) =~= s);
}

/// The record of a build from an archive names no commit and no tag, and
/// tells the notes of its version where there are any.
pub proof fn an_archive_tells_its_notes(
    package_version: &str,
    override_id: Option<&str>,
    changelog: &str,
    m: Metadata,
    notes: String,
)
    requires
        call_ensures(collect, (package_version, override_id, changelog, None), m),
        call_ensures(changelog_excerpt, (changelog, package_version, None), notes),
    ensures
        m.version@ == package_version@,
        m.commit is None,
        m.dirty is None,
        m.source_fingerprint is None,
        m.version_tag is None,
        m.commits_since_tag is None,
        !m.shallow,
        m.publication@ == "unverified"@,
        m.changes_baseline@ == "Source history unavailable; maintained notes for this version"@,
        notes@.len() > 0 ==> m.changes@ == notes@,
        notes@.len() == 0 ==> m.changes@
            == "Change information unavailable in this source archive."@,
        ({
            let named = override_id is Some && trimmed(override_id->0@).len() > 0;
            &&& named ==> text_opt(m.build_id) == Some(trimmed(override_id->0@)) && m.display@
                == package_version@ + " · "@ + ("Build "@ + trimmed(override_id->0@))
                + " · Source identity unavailable"@
            &&& !named ==> m.build_id is None && m.display@ == package_version@ + " · "@
                + "Build identity unavailable"@ + " · Source identity unavailable"@
        }),
{
    let e = archive_record(package_version@, slice_opt(override_id), changelog@);
    assert(m@ == e);
    assert(m@.version == m.version@);
    assert(m@.commit == text_opt(m.commit));
    assert(m@.source_fingerprint == text_opt(m.source_fingerprint));
    assert(m@.version_tag == text_opt(m.version_tag));
    assert(m@.build_id == text_opt(m.build_id));
}

} // verus!
