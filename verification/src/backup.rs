//! Backup configurations and the list of configured backups.

use vstd::prelude::*;
use vstd::std_specs::cmp::PartialEqSpecImpl;

use crate::error::{BackupExists, BackupNotFound, BackupPrefix};
use crate::paths::{
    absolute, components, is_absolute, join_path, normal_components, path_key, same_components,
    same_strings,
    starts_with_cur_dir, views,
};
use crate::prune::{default_prune, Prune};
use crate::schedule::{default_schedule, Schedule};
use crate::text::{is_trimmed, is_white_space, lemma_trim_is_trimmed, lemma_trim_of_trimmed, trim, trim_str};

verus! {

/// Version of the configuration format that new configurations are written in.
pub const VERSION: u16 = 2;

/// Identifier of a backup configuration.
#[derive(Clone, Debug, Hash, Eq, PartialOrd, Ord)]
pub struct ConfigId(String);

impl View for ConfigId {
    type V = Seq<char>;

    closed spec fn view(&self) -> Seq<char> {
        self.0@
    }
}

impl PartialEq for ConfigId {
    fn eq(&self, other: &Self) -> (r: bool) {
        self.0 == other.0
    }
}

impl PartialEqSpecImpl for ConfigId {
    open spec fn obeys_eq_spec() -> bool {
        true
    }

    open spec fn eq_spec(&self, other: &Self) -> bool {
        self@ == other@
    }
}

impl ConfigId {
    pub fn new(id: String) -> (r: Self)
        ensures
            r@ == id@,
    {
        ConfigId(id)
    }

    pub fn as_str(&self) -> (r: &str)
        ensures
            r@ == self@,
    {
        self.0.as_str()
    }

    /// The identifier as text.
    pub fn to_string(&self) -> (r: String)
        ensures
            r@ == self@,
    {
        self.0.clone()
    }
}

/// Identifier of a repository.
#[derive(Clone, Debug, Hash, Eq, PartialOrd, Ord)]
pub struct RepoId(String);

impl View for RepoId {
    type V = Seq<char>;

    closed spec fn view(&self) -> Seq<char> {
        self.0@
    }
}

impl PartialEq for RepoId {
    fn eq(&self, other: &Self) -> (r: bool) {
        self.0 == other.0
    }
}

impl PartialEqSpecImpl for RepoId {
    open spec fn obeys_eq_spec() -> bool {
        true
    }

    open spec fn eq_spec(&self, other: &Self) -> bool {
        self@ == other@
    }
}

impl RepoId {
    pub fn new(id: String) -> (r: Self)
        ensures
            r@ == id@,
    {
        RepoId(id)
    }

    pub fn as_str(&self) -> (r: &str)
        ensures
            r@ == self@,
    {
        self.0.as_str()
    }
}

/// What an archive prefix becomes once normalised: surrounding whitespace is removed, and a
/// non-empty prefix that does not end in `-` gets one appended.
pub open spec fn normalized_prefix(s: Seq<char>) -> Seq<char> {
    let t = trim(s);
    if t.len() == 0 || t.last() == '-' {
        t
    } else {
        t.push('-')
    }
}

/// Prefix of the names of the archives that one configuration creates.
#[derive(Clone, Debug, Hash, Eq)]
pub struct ArchivePrefix(pub String);

impl View for ArchivePrefix {
    type V = Seq<char>;

    open spec fn view(&self) -> Seq<char> {
        self.0@
    }
}

impl PartialEq for ArchivePrefix {
    fn eq(&self, other: &Self) -> (r: bool) {
        self.0 == other.0
    }
}

impl PartialEqSpecImpl for ArchivePrefix {
    open spec fn obeys_eq_spec() -> bool {
        true
    }

    open spec fn eq_spec(&self, other: &Self) -> bool {
        self@ == other@
    }
}

impl ArchivePrefix {
    /// The prefix `prefix`, trimmed, with a `-` appended unless it is empty or ends in one.
    pub fn new(prefix: &str) -> (r: Self)
        ensures
            r@ == normalized_prefix(prefix@),
            r@ == trim(prefix@) || r@ == trim(prefix@).push('-'),
            r@.len() == 0 <==> trim(prefix@).len() == 0,
            r@.len() > 0 ==> r@.last() == '-',
    {
        proof {
            reveal_strlit("-");
            lemma_normalized_prefix_keeps_text(prefix@);
        }
        let mut result = trim_str(prefix);
        let len = result.as_str().unicode_len();
        if len > 0 && result.as_str().get_char(len - 1) != '-' {
            result.append("-");
        }
        ArchivePrefix(result)
    }

    /// The prefix made of the first six characters of the random string `random`, and `-`.
    pub fn generate(random: &str) -> (r: Self)
        ensures
            r@ == random@.take(if random@.len() < 6 { random@.len() as int } else { 6 }) + seq!['-'],
    {
        proof {
            reveal_strlit("-");
        }
        let len = random.unicode_len();
        let take: usize = if len < 6 { len } else { 6 };
        let mut result = String::from_str(random.substring_char(0, take));
        result.append("-");
        ArchivePrefix(result)
    }

    pub fn is_empty(&self) -> (r: bool)
        ensures
            r == (self@.len() == 0),
    {
        self.0.as_str().unicode_len() == 0
    }

    /// The prefix as text.
    pub fn to_string(&self) -> (r: String)
        ensures
            r@ == self@,
    {
        self.0.clone()
    }
}

/// Normalising a prefix twice gives what normalising it once gives: a prefix that
/// `ArchivePrefix::new` produced comes out of it unchanged.
pub proof fn lemma_normalized_prefix_idempotent(s: Seq<char>)
    ensures
        normalized_prefix(normalized_prefix(s)) == normalized_prefix(s),
{
    let t = trim(s);
    lemma_trim_is_trimmed(s);
    if t.len() == 0 || t.last() == '-' {
        lemma_trim_of_trimmed(t);
    } else {
        let u = t.push('-');
        assert(u[0] == t[0]);
        assert(u.last() == '-');
        assert(!is_white_space('-'));
        lemma_trim_of_trimmed(u);
    }
}

/// Normalising keeps the trimmed text whole: the result is that text, or that text followed by
/// a `-`; it is empty only where that text is, and otherwise ends in `-`.
pub proof fn lemma_normalized_prefix_keeps_text(s: Seq<char>)
    ensures
        normalized_prefix(s) == trim(s) || normalized_prefix(s) == trim(s).push('-'),
        normalized_prefix(s).len() == 0 <==> trim(s).len() == 0,
        normalized_prefix(s).len() > 0 ==> normalized_prefix(s).last() == '-',
        normalized_prefix(s).take(trim(s).len() as int) == trim(s),
{
    let t = trim(s);
    assert(t.push('-').take(t.len() as int) =~= t);
    assert(t.take(t.len() as int) =~= t);
}

/// A normalised prefix is empty, or ends in `-` and has no whitespace at either end.
pub proof fn lemma_normalized_prefix_shape(s: Seq<char>)
    ensures
        normalized_prefix(s).len() == 0 || normalized_prefix(s).last() == '-',
        is_trimmed(normalized_prefix(s)),
        normalized_prefix(s).len() == 0 <==> trim(s).len() == 0,
{
    let t = trim(s);
    lemma_trim_is_trimmed(s);
    if !(t.len() == 0 || t.last() == '-') {
        let u = t.push('-');
        assert(u[0] == t[0]);
        assert(!is_white_space('-'));
    }
}

/// Where the archives of a configuration are stored.
#[derive(Clone, Debug, PartialEq)]
pub struct Repository {
    /// Location of the repository, a path or a URL.
    pub location: String,
}

/// What a pattern stands for, over character sequences.
pub enum PatternView {
    PathPrefix(Seq<char>),
    PathFnMatch(Seq<char>),
    RegularExpression(Seq<char>),
}

/// A rule that picks files out of a backup.
#[derive(Clone, Debug, Hash, Eq, PartialOrd, Ord)]
pub enum Pattern {
    /// Every path under this one.
    PathPrefix(String),
    /// Every path that this shell-style pattern matches.
    PathFnMatch(String),
    /// Every path that this regular expression matches.
    RegularExpression(String),
}

impl View for Pattern {
    type V = PatternView;

    open spec fn view(&self) -> PatternView {
        match self {
            Pattern::PathPrefix(p) => PatternView::PathPrefix(p@),
            Pattern::PathFnMatch(p) => PatternView::PathFnMatch(p@),
            Pattern::RegularExpression(p) => PatternView::RegularExpression(p@),
        }
    }
}

impl PartialEq for Pattern {
    fn eq(&self, other: &Self) -> (r: bool) {
        match self {
            Pattern::PathPrefix(a) => match other {
                Pattern::PathPrefix(b) => *a == *b,
                _ => false,
            },
            Pattern::PathFnMatch(a) => match other {
                Pattern::PathFnMatch(b) => *a == *b,
                _ => false,
            },
            Pattern::RegularExpression(a) => match other {
                Pattern::RegularExpression(b) => *a == *b,
                _ => false,
            },
        }
    }
}

impl PartialEqSpecImpl for Pattern {
    open spec fn obeys_eq_spec() -> bool {
        true
    }

    open spec fn eq_spec(&self, other: &Self) -> bool {
        self@ == other@
    }
}

impl Pattern {
    /// The cache directory in the home directory.
    pub fn cache() -> (r: Self)
        ensures
            r@ == PatternView::PathPrefix(".cache"@),
    {
        Pattern::PathPrefix(String::from_str(".cache"))
    }

    /// The cache directories of the Flatpak applications.
    pub fn flatpak_app_cache() -> (r: Self)
        ensures
            r@ == PatternView::PathFnMatch(".var/app/*/cache"@),
    {
        Pattern::PathFnMatch(String::from_str(".var/app/*/cache"))
    }
}

/// What two entries of a set are told apart by: a kind, whether the path is rooted, whether it
/// begins with `.`, and its named components.
pub type EntryKeyView = (u8, bool, bool, Seq<Seq<char>>);

/// How a set of paths tells its entries apart: by the components of the path, as `Path`
/// compares them.
pub open spec fn path_entry_key(p: Seq<char>) -> EntryKeyView {
    (0, path_key(p).0, path_key(p).1, path_key(p).2)
}

/// How a set of patterns tells its entries apart: by their kind and, for the two kinds of
/// path pattern, by the components of the path; a regular expression by its text.
pub open spec fn pattern_key(p: PatternView) -> EntryKeyView {
    match p {
        PatternView::PathPrefix(d) => (0, is_absolute(d), starts_with_cur_dir(d), normal_components(d)),
        PatternView::PathFnMatch(d) => (1, is_absolute(d), starts_with_cur_dir(d), normal_components(d)),
        PatternView::RegularExpression(t) => (2, false, false, seq![t]),
    }
}

/// `s` with each element left out whose key an earlier element already has, as inserting the
/// elements of `s` in order into a set keyed by `key` keeps them.
pub open spec fn dedup_by<A, K>(s: Seq<A>, key: spec_fn(A) -> K) -> Seq<A>
    decreases s.len(),
{
    if s.len() == 0 {
        Seq::empty()
    } else {
        let d = dedup_by(s.drop_last(), key);
        if exists|j: int| 0 <= j < d.len() && key(d[j]) == key(s.last()) {
            d
        } else {
            d.push(s.last())
        }
    }
}

/// No two elements of `s` have the same key.
pub open spec fn distinct_by<A, K>(s: Seq<A>, key: spec_fn(A) -> K) -> bool {
    forall|i: int, j: int| 0 <= i < j < s.len() ==> key(s[i]) != key(s[j])
}

/// The characters of each pattern of `v`.
pub open spec fn pattern_views(v: Seq<Pattern>) -> Seq<PatternView> {
    v.map_values(|p: Pattern| p@)
}

/// Deduplicating `s` with `x` appended keeps `x` exactly where no element kept of `s` has its
/// key.
proof fn lemma_dedup_push<A, K>(s: Seq<A>, key: spec_fn(A) -> K, x: A)
    ensures
        dedup_by(s.push(x), key) == if exists|j: int|
            0 <= j < dedup_by(s, key).len() && key(dedup_by(s, key)[j]) == key(x) {
            dedup_by(s, key)
        } else {
            dedup_by(s, key).push(x)
        },
{
    assert(s.push(x).drop_last() =~= s);
}

/// What deduplicating keeps is a set: no two kept elements have the same key, every element
/// of `s` has the key of a kept one, and every kept element is an element of `s`.
pub proof fn lemma_dedup_is_set<A, K>(s: Seq<A>, key: spec_fn(A) -> K)
    ensures
        distinct_by(dedup_by(s, key), key),
        forall|i: int|
            0 <= i < s.len() ==> exists|j: int|
                0 <= j < dedup_by(s, key).len() && key(dedup_by(s, key)[j]) == key(#[trigger] s[i]),
        forall|j: int|
            0 <= j < dedup_by(s, key).len() ==> s.contains(#[trigger] dedup_by(s, key)[j]),
    decreases s.len(),
{
    if s.len() > 0 {
        let t = s.drop_last();
        lemma_dedup_is_set(t, key);
        let d = dedup_by(t, key);
        let r = dedup_by(s, key);
        assert forall|i: int| 0 <= i < s.len() implies exists|j: int|
            0 <= j < r.len() && key(r[j]) == key(#[trigger] s[i]) by {
            if i < t.len() {
                assert(s[i] == t[i]);
                let j = choose|j: int| 0 <= j < d.len() && key(d[j]) == key(t[i]);
                assert(r[j] == d[j]);
            } else if !(exists|j: int| 0 <= j < d.len() && key(d[j]) == key(s.last())) {
                assert(r[d.len() as int] == s.last());
            }
        }
        assert forall|j: int| 0 <= j < r.len() implies s.contains(#[trigger] r[j]) by {
            if j < d.len() {
                assert(r[j] == d[j]);
                let k = choose|k: int| 0 <= k < t.len() && t[k] == d[j];
                assert(s[k] == t[k]);
            } else {
                assert(r[j] == s[s.len() - 1]);
            }
        }
        assert forall|a: int, b: int| 0 <= a < b < r.len() implies key(r[a]) != key(r[b]) by {
            if b >= d.len() {
                assert(r[a] == d[a]);
            } else {
                assert(r[a] == d[a] && r[b] == d[b]);
            }
        }
    }
}

/// The key of an entry, held as plain values.
struct EntryKey {
    kind: u8,
    rooted: bool,
    cur_dir: bool,
    pieces: Vec<String>,
}

impl View for EntryKey {
    type V = EntryKeyView;

    closed spec fn view(&self) -> EntryKeyView {
        (self.kind, self.rooted, self.cur_dir, views(self.pieces@))
    }
}

impl EntryKey {
    fn same_as(&self, other: &EntryKey) -> (r: bool)
        ensures
            r == (self@ == other@),
    {
        self.kind == other.kind && self.rooted == other.rooted && self.cur_dir == other.cur_dir
            && same_strings(&self.pieces, &other.pieces)
    }
}

/// The key of the path `p` in a set of paths.
fn path_entry_key_of(p: &str) -> (r: EntryKey)
    ensures
        r@ == path_entry_key(p@),
{
    let (rooted, cur_dir, pieces) = components(p);
    EntryKey { kind: 0, rooted, cur_dir, pieces }
}

/// The key of the pattern `p` in a set of patterns.
fn pattern_key_of(p: &Pattern) -> (r: EntryKey)
    ensures
        r@ == pattern_key(p@),
{
    match p {
        Pattern::PathPrefix(d) => {
            let (rooted, cur_dir, pieces) = components(d.as_str());
            EntryKey { kind: 0, rooted, cur_dir, pieces }
        },
        Pattern::PathFnMatch(d) => {
            let (rooted, cur_dir, pieces) = components(d.as_str());
            EntryKey { kind: 1, rooted, cur_dir, pieces }
        },
        Pattern::RegularExpression(t) => {
            let mut pieces = Vec::new();
            pieces.push(t.clone());
            assert(views(pieces@) =~= seq![t@]);
            EntryKey { kind: 2, rooted: false, cur_dir: false, pieces }
        },
    }
}

/// Adds `item`, whose key is `key`, to the set `set` whose keys are `keys`, unless an entry
/// with that key is there.
fn insert_keyed<T>(set: &mut Vec<T>, keys: &mut Vec<EntryKey>, item: T, key: EntryKey)
    requires
        old(set)@.len() == old(keys)@.len(),
    ensures
        (exists|j: int| 0 <= j < old(keys)@.len() && old(keys)@[j]@ == key@) ==> final(set)@
            == old(set)@ && final(keys)@ == old(keys)@,
        !(exists|j: int| 0 <= j < old(keys)@.len() && old(keys)@[j]@ == key@) ==> final(set)@
            == old(set)@.push(item) && final(keys)@ == old(keys)@.push(key),
{
    let n = keys.len();
    let mut i: usize = 0;
    while i < n
        invariant
            i <= n,
            n == keys@.len(),
            keys@ == old(keys)@,
            set@ == old(set)@,
            forall|k: int| 0 <= k < i ==> keys@[k]@ != key@,
        decreases n - i,
    {
        if keys[i].same_as(&key) {
            return;
        }
        i = i + 1;
    }
    set.push(item);
    keys.push(key);
}

/// Directory, relative to the home directory, under which repositories are mounted.
pub const REPO_MOUNT_DIR: &'static str = ".local/share/pika-backup/mount";

/// The data directory, relative to the home directory, that Flatpak keeps for `app_id`.
pub open spec fn flatpak_data_dir(app_id: Seq<char>) -> Seq<char> {
    ".var/app/"@ + app_id + "/data/flatpak/"@
}

/// The archive prefix that `ArchivePrefix::generate` makes of `random`.
pub open spec fn generated_prefix(random: Seq<char>) -> Seq<char> {
    random.take(if random.len() < 6 { random.len() as int } else { 6 }) + seq!['-']
}

/// The pattern `p` with a path prefix read relative to `home`; other patterns stay as they are.
pub open spec fn absolute_pattern(home: Seq<char>, p: PatternView) -> PatternView {
    match p {
        PatternView::PathPrefix(d) => PatternView::PathPrefix(join_path(home, d)),
        other => other,
    }
}

/// The repository identifier that stands in for one not yet known.
pub fn fake_repo_id(random: &str) -> (r: RepoId)
    ensures
        r@ == "-randomid-"@ + random@,
{
    let mut id = String::from_str("-randomid-");
    id.append(random);
    RepoId::new(id)
}

/// The configuration of one backup.
#[derive(Clone, Debug, PartialEq)]
pub struct Backup {
    pub config_version: u16,
    pub id: ConfigId,
    pub archive_prefix: ArchivePrefix,
    pub repo_id: RepoId,
    pub repo: Repository,
    pub encrypted: bool,
    pub encryption_mode: String,
    /// Paths to back up, relative to the home directory unless absolute.
    pub included: Vec<String>,
    /// Patterns of paths to leave out.
    pub exclude: Vec<Pattern>,
    pub schedule: Schedule,
    pub prune: Prune,
}

impl Backup {
    /// The included paths and the excluded patterns are sets: no two included paths are the
    /// same path, and no two excluded patterns are the same pattern.
    pub open spec fn well_formed(&self) -> bool {
        &&& distinct_by(views(self.included@), |p: Seq<char>| path_entry_key(p))
        &&& distinct_by(pattern_views(self.exclude@), |p: PatternView| pattern_key(p))
    }

    /// `other` is another configuration that stores its archives in the same repository.
    pub open spec fn shares_repo_with(&self, other: Backup) -> bool {
        other.repo_id@ == self.repo_id@ && other.id@ != self.id@
    }

    /// Whether `prefix` may serve as this configuration's archive prefix, given `configs`.
    pub open spec fn prefix_check(&self, prefix: Seq<char>, configs: Seq<Backup>) -> Result<
        (),
        BackupPrefix,
    > {
        if exists|i: int|
            0 <= i < configs.len() && self.shares_repo_with(configs[i])
                && configs[i].archive_prefix@ == prefix {
            Err(BackupPrefix::Taken)
        } else if exists|i: int|
            0 <= i < configs.len() && self.shares_repo_with(configs[i])
                && configs[i].archive_prefix@.len() == 0 {
            Err(BackupPrefix::OtherEmptyExists)
        } else if prefix.len() == 0 && exists|i: int|
            0 <= i < configs.len() && self.shares_repo_with(configs[i]) {
            Err(BackupPrefix::EmptyButOtherExists)
        } else {
            Ok(())
        }
    }

    /// A new configuration for the repository `repo`, identified by `uuid`, with an archive
    /// prefix made of `prefix_random`. It backs up the whole home directory except the caches.
    pub fn new(
        repo: Repository,
        repo_id: RepoId,
        encryption_mode: String,
        encrypted: bool,
        uuid: String,
        prefix_random: &str,
    ) -> (r: Self)
        ensures
            r.well_formed(),
            r.config_version == VERSION,
            r.id@ == uuid@,
            r.archive_prefix@ == generated_prefix(prefix_random@),
            r.repo == repo,
            r.repo_id == repo_id,
            r.encrypted == encrypted,
            r.encryption_mode == encryption_mode,
            r.included@.len() == 1,
            r.included@[0]@ == Seq::<char>::empty(),
            r.exclude@.len() == 2,
            r.exclude@[0]@ == PatternView::PathPrefix(".cache"@),
            r.exclude@[1]@ == PatternView::PathFnMatch(".var/app/*/cache"@),
            r.schedule == default_schedule(),
            r.prune == default_prune(),
    {
        let mut included = Vec::new();
        included.push(String::new());
        let mut exclude = Vec::new();
        exclude.push(Pattern::cache());
        exclude.push(Pattern::flatpak_app_cache());
        Backup {
            config_version: VERSION,
            id: ConfigId::new(uuid),
            archive_prefix: ArchivePrefix::generate(prefix_random),
            repo,
            repo_id,
            encrypted,
            encryption_mode,
            included,
            exclude,
            schedule: Schedule::default(),
            prune: Prune::default(),
        }
    }

    /// Refuses `prefix` where another configuration on the same repository uses it, where
    /// another one there uses the empty prefix, or where it is empty while others use that
    /// repository.
    pub fn is_archive_prefix_ok(&self, prefix: &ArchivePrefix, configs: &[Backup]) -> (r: Result<
        (),
        BackupPrefix,
    >)
        ensures
            r == self.prefix_check(prefix@, configs@),
            r == Err::<(), BackupPrefix>(BackupPrefix::Taken) <==> exists|i: int|
                0 <= i < configs@.len() && configs@[i].repo_id@ == self.repo_id@ && configs@[i].id@
                    != self.id@ && configs@[i].archive_prefix@ == prefix@,
            r is Ok <==> forall|i: int|
                0 <= i < configs@.len() && configs@[i].repo_id@ == self.repo_id@ && configs@[i].id@
                    != self.id@ ==> {
                    &&& configs@[i].archive_prefix@ != prefix@
                    &&& configs@[i].archive_prefix@.len() > 0
                    &&& prefix@.len() > 0
                },
    {
        proof {
            lemma_prefix_check_reasons(*self, prefix@, configs@);
        }
        let n = configs.len();
        let mut taken = false;
        let mut other_empty = false;
        let mut other_exists = false;
        let mut i: usize = 0;
        while i < n
            invariant
                i <= n,
                n == configs@.len(),
                taken == exists|k: int|
                    0 <= k < i && self.shares_repo_with(configs@[k])
                        && configs@[k].archive_prefix@ == prefix@,
                other_empty == exists|k: int|
                    0 <= k < i && self.shares_repo_with(configs@[k])
                        && configs@[k].archive_prefix@.len() == 0,
                other_exists == exists|k: int| 0 <= k < i && self.shares_repo_with(configs@[k]),
            decreases n - i,
        {
            let other = &configs[i];
            if other.repo_id == self.repo_id && !(other.id == self.id) {
                other_exists = true;
                if other.archive_prefix == *prefix {
                    taken = true;
                }
                if other.archive_prefix.is_empty() {
                    other_empty = true;
                }
            }
            i = i + 1;
        }
        if taken {
            Err(BackupPrefix::Taken)
        } else if other_empty {
            Err(BackupPrefix::OtherEmptyExists)
        } else if prefix.is_empty() && other_exists {
            Err(BackupPrefix::EmptyButOtherExists)
        } else {
            Ok(())
        }
    }

    /// Sets the archive prefix to `prefix` where `is_archive_prefix_ok` accepts it.
    pub fn set_archive_prefix(&mut self, prefix: ArchivePrefix, configs: &[Backup]) -> (r: Result<
        (),
        BackupPrefix,
    >)
        ensures
            r == old(self).prefix_check(prefix@, configs@),
            r is Ok ==> *final(self) == (Backup { archive_prefix: prefix, ..*old(self) }),
            r is Err ==> *final(self) == *old(self),
    {
        let check = self.is_archive_prefix_ok(&prefix, configs);
        match check {
            Ok(()) => {
                self.archive_prefix = prefix;
                Ok(())
            },
            Err(e) => Err(e),
        }
    }

    /// The included paths, each read relative to the home directory `home`, as a set of paths:
    /// of paths with the same components only the first is kept.
    pub fn include_dirs(&self, home: &str) -> (r: Vec<String>)
        ensures
            views(r@) == included_set(home@, self.included@),
            forall|i: int|
                #![trigger self.included@[i]]
                0 <= i < self.included@.len() ==> exists|j: int|
                    0 <= j < r@.len() && same_components(
                        #[trigger] r@[j]@,
                        join_path(home@, self.included@[i]@),
                    ),
            forall|j: int|
                0 <= j < r@.len() ==> exists|i: int|
                    0 <= i < self.included@.len() && #[trigger] r@[j]@ == join_path(
                        home@,
                        self.included@[i]@,
                    ),
            forall|a: int, b: int|
                0 <= a < b < r@.len() ==> !same_components(#[trigger] r@[a]@, #[trigger] r@[b]@),
    {
        proof {
            lemma_include_keeps_every_path(home@, self.included@);
        }
        let mut dirs: Vec<String> = Vec::new();
        let mut keys: Vec<EntryKey> = Vec::new();
        let ghost all = joined_paths(home@, self.included@);
        let n = self.included.len();
        let mut i: usize = 0;
        assert(views(dirs@) =~= dedup_by(all.take(0), |p: Seq<char>| path_entry_key(p)));
        while i < n
            invariant
                i <= n,
                n == self.included@.len(),
                all == joined_paths(home@, self.included@),
                views(dirs@) == dedup_by(all.take(i as int), |p: Seq<char>| path_entry_key(p)),
                keys@.len() == dirs@.len(),
                forall|j: int| 0 <= j < keys@.len() ==> keys@[j]@ == path_entry_key(#[trigger] dirs@[j]@),
            decreases n - i,
        {
            let dir = absolute(home, self.included[i].as_str());
            assert(all.take(i + 1) =~= all.take(i as int).push(dir@));
            add_path(&mut dirs, &mut keys, dir, Ghost(all.take(i as int)));
            i = i + 1;
        }
        assert(all.take(n as int) =~= all);
        proof {
            let d = included_set(home@, self.included@);
            assert forall|j: int| 0 <= j < dirs@.len() implies #[trigger] dirs@[j]@ == d[j] by {
                assert(views(dirs@)[j] == dirs@[j]@);
            }
        }
        dirs
    }

    /// The excluded patterns with path prefixes read relative to the home directory `home`,
    /// followed by the directory where repositories are mounted and, inside a Flatpak sandbox,
    /// the Flatpak data directory of the application `app_id`, as a set of patterns: of
    /// patterns that are the same only the first is kept.
    pub fn exclude_dirs_internal(&self, home: &str, sandboxed: bool, app_id: &str) -> (r: Vec<
        Pattern,
    >)
        ensures
            pattern_views(r@) == excluded_set(home@, self.exclude@, sandboxed, app_id@),
            forall|i: int|
                0 <= i < self.exclude@.len() ==> is_kept_in(
                    pattern_views(r@),
                    home@,
                    #[trigger] self.exclude@[i]@,
                ),
            exists|j: int|
                0 <= j < r@.len() && is_prefix_pattern_for(
                    #[trigger] r@[j]@,
                    join_path(home@, REPO_MOUNT_DIR@),
                ),
            sandboxed ==> exists|j: int|
                0 <= j < r@.len() && is_prefix_pattern_for(
                    #[trigger] r@[j]@,
                    join_path(home@, flatpak_data_dir(app_id@)),
                ),
            forall|a: int, b: int|
                0 <= a < b < r@.len() ==> pattern_key(#[trigger] r@[a]@) != pattern_key(
                    #[trigger] r@[b]@,
                ),
    {
        proof {
            lemma_exclude_keeps_every_pattern(home@, self.exclude@, sandboxed, app_id@);
        }
        let mut dirs: Vec<Pattern> = Vec::new();
        let mut keys: Vec<EntryKey> = Vec::new();
        let ghost all = Seq::new(
            self.exclude@.len(),
            |i: int| absolute_pattern(home@, self.exclude@[i]@),
        );
        let n = self.exclude.len();
        let mut i: usize = 0;
        assert(pattern_views(dirs@) =~= dedup_by(all.take(0), |p: PatternView| pattern_key(p)));
        while i < n
            invariant
                i <= n,
                n == self.exclude@.len(),
                all == Seq::new(
                    self.exclude@.len(),
                    |i: int| absolute_pattern(home@, self.exclude@[i]@),
                ),
                pattern_views(dirs@) == dedup_by(all.take(i as int), |p: PatternView| pattern_key(p)),
                keys@.len() == dirs@.len(),
                forall|j: int| 0 <= j < keys@.len() ==> keys@[j]@ == pattern_key(#[trigger] dirs@[j]@),
            decreases n - i,
        {
            let pattern = make_absolute(home, &self.exclude[i]);
            assert(all.take(i + 1) =~= all.take(i as int).push(pattern@));
            add_pattern(&mut dirs, &mut keys, pattern, Ghost(all.take(i as int)));
            i = i + 1;
        }
        assert(all.take(n as int) =~= all);
        let mount = Pattern::PathPrefix(absolute(home, REPO_MOUNT_DIR));
        let ghost with_mount = all.push(mount@);
        add_pattern(&mut dirs, &mut keys, mount, Ghost(all));
        if sandboxed {
            proof {
                reveal_strlit(".var/app/");
                reveal_strlit("/data/flatpak/");
            }
            let mut data_dir = String::from_str(".var/app/");
            data_dir.append(app_id);
            data_dir.append("/data/flatpak/");
            let flatpak = Pattern::PathPrefix(absolute(home, data_dir.as_str()));
            assert(with_mount.push(flatpak@) =~= excluded_candidates(
                home@,
                self.exclude@,
                sandboxed,
                app_id@,
            ));
            add_pattern(&mut dirs, &mut keys, flatpak, Ghost(with_mount));
        } else {
            assert(with_mount =~= excluded_candidates(home@, self.exclude@, sandboxed, app_id@));
        }
        proof {
            let d = excluded_set(home@, self.exclude@, sandboxed, app_id@);
            assert forall|j: int| 0 <= j < dirs@.len() implies #[trigger] dirs@[j]@ == d[j] by {
                assert(pattern_views(dirs@)[j] == dirs@[j]@);
            }
        }
        dirs
    }
}

/// A path pattern for a path with the same components as `path`.
pub open spec fn is_prefix_pattern_for(p: PatternView, path: Seq<char>) -> bool {
    match p {
        PatternView::PathPrefix(x) => same_components(x, path),
        _ => false,
    }
}

/// A shell-style pattern for a path with the same components as `path`.
pub open spec fn is_fn_match_pattern_for(p: PatternView, path: Seq<char>) -> bool {
    match p {
        PatternView::PathFnMatch(x) => same_components(x, path),
        _ => false,
    }
}

/// The excluded pattern `p` is among the patterns `out`: a regular expression with the same
/// text, a path prefix with a path of the same components read relative to `home`, a
/// shell-style pattern with a path of the same components.
pub open spec fn is_kept_in(out: Seq<PatternView>, home: Seq<char>, p: PatternView) -> bool {
    match p {
        PatternView::RegularExpression(t) => out.contains(PatternView::RegularExpression(t)),
        PatternView::PathPrefix(q) => exists|j: int|
            0 <= j < out.len() && is_prefix_pattern_for(#[trigger] out[j], join_path(home, q)),
        PatternView::PathFnMatch(q) => exists|j: int|
            0 <= j < out.len() && is_fn_match_pattern_for(#[trigger] out[j], q),
    }
}

/// Patterns with the same key are of the same kind; a regular expression has the same text,
/// and a path pattern a path with the same components.
proof fn lemma_pattern_key_eq(a: PatternView, b: PatternView)
    requires
        pattern_key(a) == pattern_key(b),
    ensures
        match b {
            PatternView::RegularExpression(t) => a == PatternView::RegularExpression(t),
            PatternView::PathPrefix(q) => is_prefix_pattern_for(a, q),
            PatternView::PathFnMatch(q) => is_fn_match_pattern_for(a, q),
        },
{
    match b {
        PatternView::RegularExpression(t) => match a {
            PatternView::RegularExpression(u) => {
                assert(seq![u][0] == seq![t][0]);
            },
            _ => {},
        },
        _ => {},
    }
}

/// An element of `s` has the key of some element that deduplicating keeps.
proof fn lemma_kept_with_key<A, K>(s: Seq<A>, key: spec_fn(A) -> K, i: int) -> (j: int)
    requires
        0 <= i < s.len(),
    ensures
        0 <= j < dedup_by(s, key).len(),
        key(dedup_by(s, key)[j]) == key(s[i]),
{
    lemma_dedup_is_set(s, key);
    choose|j: int| 0 <= j < dedup_by(s, key).len() && key(dedup_by(s, key)[j]) == key(#[trigger] s[i])
}

/// Every included path is among the paths backed up, up to `Path` equality, read relative to
/// the home directory; every path backed up is an included one so read; and no two paths
/// backed up are the same path.
pub proof fn lemma_include_keeps_every_path(home: Seq<char>, included: Seq<String>)
    ensures
        forall|i: int|
            #![trigger included[i]]
            0 <= i < included.len() ==> exists|j: int|
                0 <= j < included_set(home, included).len()
                    && same_components(
                    #[trigger] included_set(home, included)[j],
                    join_path(home, included[i]@),
                ),
        forall|j: int|
            0 <= j < included_set(home, included).len()
                ==> exists|i: int|
                0 <= i < included.len() && #[trigger] included_set(home, included)[j] == join_path(home, included[i]@),
        forall|a: int, b: int|
            0 <= a < b < included_set(home, included).len()
                ==> !same_components(
                #[trigger] included_set(home, included)[a],
                #[trigger] included_set(home, included)[b],
            ),
{
    let key = |p: Seq<char>| path_entry_key(p);
    let all = joined_paths(home, included);
    let d = dedup_by(all, key);
    assert(d == included_set(home, included));
    lemma_dedup_is_set(all, key);
    assert forall|i: int| #![trigger included[i]] 0 <= i < included.len() implies exists|j: int|
        0 <= j < d.len() && same_components(#[trigger] d[j], join_path(home, included[i]@)) by {
        let j = lemma_kept_with_key(all, key, i);
        assert(all[i] == join_path(home, included[i]@));
        assert(same_components(d[j], join_path(home, included[i]@)));
    }
    assert forall|j: int| 0 <= j < d.len() implies exists|i: int|
        0 <= i < included.len() && #[trigger] d[j] == join_path(home, included[i]@) by {
        assert(all.contains(d[j]));
        let i = choose|i: int| 0 <= i < all.len() && all[i] == d[j];
        assert(all[i] == join_path(home, included[i]@));
    }
    assert forall|a: int, b: int| 0 <= a < b < d.len() implies !same_components(
        #[trigger] d[a],
        #[trigger] d[b],
    ) by {
        assert(key(d[a]) != key(d[b]));
    }
}

/// Every excluded pattern is among the patterns left out: each regular expression with its
/// text, each path prefix and shell-style pattern with a path of the same components (a path
/// prefix read relative to the home directory); so are the mount directory and, in a sandbox,
/// the Flatpak data directory. No two patterns left out are the same pattern.
pub proof fn lemma_exclude_keeps_every_pattern(
    home: Seq<char>,
    exclude: Seq<Pattern>,
    sandboxed: bool,
    app_id: Seq<char>,
)
    ensures
        forall|i: int|
            0 <= i < exclude.len() ==> is_kept_in(
                excluded_set(home, exclude, sandboxed, app_id),
                home,
                #[trigger] exclude[i]@,
            ),
        exists|j: int|
            0 <= j < excluded_set(home, exclude, sandboxed, app_id).len() && is_prefix_pattern_for(
                #[trigger] excluded_set(home, exclude, sandboxed, app_id)[j],
                join_path(home, REPO_MOUNT_DIR@),
            ),
        sandboxed ==> exists|j: int|
            0 <= j < excluded_set(home, exclude, sandboxed, app_id).len() && is_prefix_pattern_for(
                #[trigger] excluded_set(home, exclude, sandboxed, app_id)[j],
                join_path(home, flatpak_data_dir(app_id)),
            ),
        forall|a: int, b: int|
            0 <= a < b < excluded_set(home, exclude, sandboxed, app_id).len() ==> pattern_key(
                #[trigger] excluded_set(home, exclude, sandboxed, app_id)[a],
            ) != pattern_key(
                #[trigger] excluded_set(home, exclude, sandboxed, app_id)[b],
            ),
{
    let key = |p: PatternView| pattern_key(p);
    let c = excluded_candidates(home, exclude, sandboxed, app_id);
    let d = dedup_by(c, key);
    assert(d == excluded_set(home, exclude, sandboxed, app_id));
    lemma_dedup_is_set(c, key);
    let n = exclude.len() as int;
    assert forall|i: int| 0 <= i < n implies c[i] == absolute_pattern(home, exclude[i]@) by {
        if sandboxed {
            assert(c[i] == c.drop_last()[i]);
        }
    }
    assert forall|i: int| 0 <= i < n implies is_kept_in(d, home, #[trigger] exclude[i]@) by {
        let j = lemma_kept_with_key(c, key, i);
        lemma_pattern_key_eq(d[j], c[i]);
        match exclude[i]@ {
            PatternView::RegularExpression(t) => {
                assert(d[j] == PatternView::RegularExpression(t));
            },
            PatternView::PathPrefix(q) => {
                assert(is_prefix_pattern_for(d[j], join_path(home, q)));
            },
            PatternView::PathFnMatch(q) => {
                assert(is_fn_match_pattern_for(d[j], q));
            },
        }
    }
    let mount = PatternView::PathPrefix(join_path(home, REPO_MOUNT_DIR@));
    assert(c[n] == mount) by {
        if sandboxed {
            assert(c[n] == c.drop_last()[n]);
        }
    }
    let jm = lemma_kept_with_key(c, key, n);
    lemma_pattern_key_eq(d[jm], c[n]);
    assert(is_prefix_pattern_for(d[jm], join_path(home, REPO_MOUNT_DIR@)));
    if sandboxed {
        let jf = lemma_kept_with_key(c, key, n + 1);
        lemma_pattern_key_eq(d[jf], c[n + 1]);
        assert(is_prefix_pattern_for(d[jf], join_path(home, flatpak_data_dir(app_id))));
    }
}

/// The paths that `included` backs up, read relative to `home`: of paths that are the same
/// path only the first is kept.
pub open spec fn included_set(home: Seq<char>, included: Seq<String>) -> Seq<Seq<char>> {
    dedup_by(joined_paths(home, included), |p: Seq<char>| path_entry_key(p))
}

/// The patterns left out of a backup: of patterns that are the same only the first is kept.
pub open spec fn excluded_set(
    home: Seq<char>,
    exclude: Seq<Pattern>,
    sandboxed: bool,
    app_id: Seq<char>,
) -> Seq<PatternView> {
    dedup_by(excluded_candidates(home, exclude, sandboxed, app_id), |p: PatternView| pattern_key(p))
}

/// The paths of `included`, each read relative to `home`.
pub open spec fn joined_paths(home: Seq<char>, included: Seq<String>) -> Seq<Seq<char>> {
    Seq::new(included.len(), |i: int| join_path(home, included[i]@))
}

/// The patterns that `exclude_dirs_internal` gathers, in order, before any is left out as the
/// same as an earlier one.
pub open spec fn excluded_candidates(
    home: Seq<char>,
    exclude: Seq<Pattern>,
    sandboxed: bool,
    app_id: Seq<char>,
) -> Seq<PatternView> {
    let read = Seq::new(exclude.len(), |i: int| absolute_pattern(home, exclude[i]@)).push(
        PatternView::PathPrefix(join_path(home, REPO_MOUNT_DIR@)),
    );
    if sandboxed {
        read.push(PatternView::PathPrefix(join_path(home, flatpak_data_dir(app_id))))
    } else {
        read
    }
}

/// Adds the path `item` to the set of paths `set`, whose keys are `keys`, where `set` holds
/// what deduplicating `s` keeps.
fn add_path(set: &mut Vec<String>, keys: &mut Vec<EntryKey>, item: String, Ghost(s): Ghost<Seq<Seq<char>>>)
    requires
        views(old(set)@) == dedup_by(s, |p: Seq<char>| path_entry_key(p)),
        old(keys)@.len() == old(set)@.len(),
        forall|j: int| 0 <= j < old(keys)@.len() ==> old(keys)@[j]@ == path_entry_key(#[trigger] old(set)@[j]@),
    ensures
        views(final(set)@) == dedup_by(s.push(item@), |p: Seq<char>| path_entry_key(p)),
        final(keys)@.len() == final(set)@.len(),
        forall|j: int| 0 <= j < final(keys)@.len() ==> final(keys)@[j]@ == path_entry_key(#[trigger] final(set)@[j]@),
{
    let key = path_entry_key_of(item.as_str());
    let ghost key_fn = |p: Seq<char>| path_entry_key(p);
    let ghost d = dedup_by(s, key_fn);
    let ghost before_set = set@;
    let ghost before_keys = keys@;
    proof {
        lemma_dedup_push(s, key_fn, item@);
        assert((exists|j: int| 0 <= j < before_keys.len() && before_keys[j]@ == key@) <==> (exists|j: int|
            0 <= j < d.len() && key_fn(d[j]) == key_fn(item@))) by {
            if exists|j: int| 0 <= j < before_keys.len() && before_keys[j]@ == key@ {
                let j = choose|j: int| 0 <= j < before_keys.len() && before_keys[j]@ == key@;
                assert(d[j] == before_set[j]@);
            }
            if exists|j: int| 0 <= j < d.len() && key_fn(d[j]) == key_fn(item@) {
                let j = choose|j: int| 0 <= j < d.len() && key_fn(d[j]) == key_fn(item@);
                assert(d[j] == before_set[j]@);
                assert(before_keys[j]@ == path_entry_key(before_set[j]@));
            }
        }
    }
    insert_keyed(set, keys, item, key);
    assert(views(before_set.push(item)) =~= views(before_set).push(item@));
}

/// Adds the pattern `item` to the set of patterns `set`, whose keys are `keys`, where `set`
/// holds what deduplicating `s` keeps.
fn add_pattern(set: &mut Vec<Pattern>, keys: &mut Vec<EntryKey>, item: Pattern, Ghost(s): Ghost<Seq<PatternView>>)
    requires
        pattern_views(old(set)@) == dedup_by(s, |p: PatternView| pattern_key(p)),
        old(keys)@.len() == old(set)@.len(),
        forall|j: int| 0 <= j < old(keys)@.len() ==> old(keys)@[j]@ == pattern_key(#[trigger] old(set)@[j]@),
    ensures
        pattern_views(final(set)@) == dedup_by(s.push(item@), |p: PatternView| pattern_key(p)),
        final(keys)@.len() == final(set)@.len(),
        forall|j: int| 0 <= j < final(keys)@.len() ==> final(keys)@[j]@ == pattern_key(#[trigger] final(set)@[j]@),
{
    let key = pattern_key_of(&item);
    let ghost key_fn = |p: PatternView| pattern_key(p);
    let ghost d = dedup_by(s, key_fn);
    let ghost before_set = set@;
    let ghost before_keys = keys@;
    proof {
        lemma_dedup_push(s, key_fn, item@);
        assert((exists|j: int| 0 <= j < before_keys.len() && before_keys[j]@ == key@) <==> (exists|j: int|
            0 <= j < d.len() && key_fn(d[j]) == key_fn(item@))) by {
            if exists|j: int| 0 <= j < before_keys.len() && before_keys[j]@ == key@ {
                let j = choose|j: int| 0 <= j < before_keys.len() && before_keys[j]@ == key@;
                assert(d[j] == before_set[j]@);
            }
            if exists|j: int| 0 <= j < d.len() && key_fn(d[j]) == key_fn(item@) {
                let j = choose|j: int| 0 <= j < d.len() && key_fn(d[j]) == key_fn(item@);
                assert(d[j] == before_set[j]@);
                assert(before_keys[j]@ == pattern_key(before_set[j]@));
            }
        }
    }
    insert_keyed(set, keys, item, key);
    assert(pattern_views(before_set.push(item)) =~= pattern_views(before_set).push(item@));
}

/// The pattern `p` with a path prefix read relative to the home directory `home`.
fn make_absolute(home: &str, p: &Pattern) -> (r: Pattern)
    ensures
        r@ == absolute_pattern(home@, p@),
{
    match p {
        Pattern::PathPrefix(d) => Pattern::PathPrefix(absolute(home, d.as_str())),
        Pattern::PathFnMatch(d) => Pattern::PathFnMatch(d.clone()),
        Pattern::RegularExpression(d) => Pattern::RegularExpression(d.clone()),
    }
}

/// The configured backups, in the order they were added.
#[derive(Debug, Clone, PartialEq)]
pub struct Backups(Vec<Backup>);

impl View for Backups {
    type V = Seq<Backup>;

    closed spec fn view(&self) -> Seq<Backup> {
        self.0@
    }
}

impl Default for Backups {
    fn default() -> (r: Self)
        ensures
            r@.len() == 0,
    {
        Backups(Vec::new())
    }
}

impl Backups {
    /// The configurations `backups`, in order.
    pub fn from_vec(backups: Vec<Backup>) -> (r: Self)
        ensures
            r@ == backups@,
    {
        Backups(backups)
    }

    /// The configurations, in order.
    pub fn into_vec(self) -> (r: Vec<Backup>)
        ensures
            r@ == self@,
    {
        self.0
    }

    /// The number of configurations.
    pub fn len(&self) -> (r: usize)
        ensures
            r == self@.len(),
    {
        self.0.len()
    }

    /// A configuration identified by `id` is among them.
    pub open spec fn contains_id(&self, id: Seq<char>) -> bool {
        exists|i: int| 0 <= i < self@.len() && self@[i].id@ == id
    }

    /// No two configurations share an identifier.
    pub open spec fn ids_distinct(&self) -> bool {
        ids_distinct_in(self@)
    }

    /// `i` is the position of the first configuration identified by `id`.
    pub open spec fn is_first_with_id(&self, i: int, id: Seq<char>) -> bool {
        is_first_with_id_in(self@, i, id)
    }

    /// The position of the first configuration identified by `id`.
    fn find(&self, id: &ConfigId) -> (r: Option<usize>)
        ensures
            match r {
                Some(i) => self.is_first_with_id(i as int, id@),
                None => !self.contains_id(id@),
            },
    {
        let n = self.0.len();
        let mut i: usize = 0;
        while i < n
            invariant
                i <= n,
                n == self.0@.len(),
                forall|k: int| 0 <= k < i ==> self.0@[k].id@ != id@,
            decreases n - i,
        {
            if self.0[i].id == *id {
                return Some(i);
            }
            i = i + 1;
        }
        None
    }

    pub fn exists_id(&self, id: &ConfigId) -> (r: bool)
        ensures
            r == self.contains_id(id@),
            r <==> exists|i: int| 0 <= i < self@.len() && self@[i].id@ == id@,
    {
        self.find(id).is_some()
    }

    /// Appends `new`, unless a configuration with its identifier is present.
    pub fn insert(&mut self, new: Backup) -> (r: Result<(), BackupExists>)
        ensures
            r is Ok <==> !old(self).contains_id(new.id@),
            r is Ok <==> forall|i: int| 0 <= i < old(self)@.len() ==> old(self)@[i].id@ != new.id@,
            r is Ok ==> final(self)@ == old(self)@.push(new),
            r matches Err(e) ==> e.id == new.id && *final(self) == *old(self),
    {
        if self.exists_id(&new.id) {
            Err(BackupExists { id: new.id })
        } else {
            self.0.push(new);
            Ok(())
        }
    }

    /// Removes every configuration identified by `remove`, where there is one.
    pub fn remove(&mut self, remove: &ConfigId) -> (r: Result<(), BackupNotFound>)
        ensures
            r is Ok <==> old(self).contains_id(remove@),
            r is Ok <==> exists|i: int| 0 <= i < old(self)@.len() && old(self)@[i].id@ == remove@,
            r is Ok ==> final(self)@ == without_id(old(self)@, remove@),
            r is Ok ==> forall|i: int| 0 <= i < final(self)@.len() ==> final(self)@[i].id@ != remove@,
            r is Ok ==> forall|b: Backup| old(self)@.contains(b) && b.id@ != remove@ <==> final(self)@.contains(b),
            r matches Err(e) ==> e.id@ == remove@ && *final(self) == *old(self),
    {
        if !self.exists_id(remove) {
            Err(BackupNotFound::new(ConfigId::new(String::from_str(remove.as_str()))))
        } else {
            let ghost keep = other_than(remove@);
            let ghost original = self.0@;
            let total = self.0.len();
            assert(original.len() == total);
            let mut i: usize = 0;
            let mut done: usize = 0;
            assert(original.take(0).filter(keep) =~= Seq::<Backup>::empty());
            assert(original.skip(0) =~= original);
            while i < self.0.len()
                invariant
                    done <= original.len(),
                    i <= self.0@.len(),
                    self.0@.len() - i == original.len() - done,
                    original.len() <= usize::MAX,
                    keep == other_than(remove@),
                    self.0@.take(i as int) == original.take(done as int).filter(keep),
                    self.0@.skip(i as int) == original.skip(done as int),
                decreases original.len() - done,
            {
                let ghost before = self.0@;
                proof {
                    assert(done < original.len());
                    assert(original.skip(done as int)[0] == self.0@[i as int]);
                    assert(original.take(done + 1) =~= original.take(done as int).push(
                        original[done as int],
                    ));
                    original.take(done as int).lemma_filter_push(original[done as int], keep);
                    assert(original.skip(done + 1) =~= original.skip(done as int).drop_first());
                }
                if self.0[i].id == *remove {
                    self.0.remove(i);
                    assert(!keep(original[done as int]));
                    assert(self.0@.take(i as int) =~= before.take(i as int));
                    assert(self.0@.skip(i as int) =~= before.skip(i as int).drop_first());
                } else {
                    assert(keep(original[done as int]));
                    assert(self.0@.take(i + 1) =~= before.take(i as int).push(before[i as int]));
                    assert(self.0@.skip(i + 1) =~= before.skip(i as int).drop_first());
                    i = i + 1;
                }
                done = done + 1;
            }
            assert(original.skip(done as int).len() == 0);
            assert(original.take(done as int) =~= original);
            assert(self.0@.take(i as int) =~= self.0@);
            proof {
                lemma_remove_keeps_the_others(original, remove@);
                lemma_remove_leaves_no_such_id(original, remove@);
            }
            Ok(())
        }
    }

    /// The configurations, in order.
    pub fn iter(&self) -> (r: std::slice::Iter<'_, Backup>)
        ensures
            vstd::std_specs::iter::IteratorSpec::remaining(&r).unref() == self@,
    {
        self.0.iter()
    }

    /// The configurations, in order, for changing in place.
    pub fn iter_mut(&mut self) -> (r: &mut [Backup])
        ensures
            r@ == old(self)@,
            final(self)@ == final(r)@,
    {
        self.0.as_mut_slice()
    }
}

/// Looking a configuration up by its identifier.
pub trait LookupConfigId {
    type Item;

    fn get_result_mut(&mut self, key: &ConfigId) -> Result<&mut Self::Item, BackupNotFound>;

    fn get_result(&self, key: &ConfigId) -> Result<&Self::Item, BackupNotFound>;
}

impl LookupConfigId for Backups {
    type Item = Backup;

    /// The first configuration identified by `key`, for changing in place.
    fn get_result_mut(&mut self, key: &ConfigId) -> (r: Result<&mut Backup, BackupNotFound>)
        ensures
            r is Ok <==> old(self).contains_id(key@),
            r matches Ok(b) ==> exists|i: int|
                old(self).is_first_with_id(i, key@) && *b == old(self)@[i] && final(self)@
                    == old(self)@.update(i, *final(b)),
            r matches Ok(b) ==> b.id@ == key@ && exists|i: int|
                {
                    &&& 0 <= i < old(self)@.len()
                    &&& *b == old(self)@[i]
                    &&& forall|k: int| 0 <= k < i ==> old(self)@[k].id@ != key@
                    &&& final(self)@ == old(self)@.update(i, *final(b))
                },
            r matches Err(e) ==> e.id@ == key@ && *final(self) == *old(self),
    {
        match self.find(key) {
            Some(i) => {
                proof {
                    lemma_first_with_id(self@, i as int, key@);
                }
                Ok(&mut self.0[i])
            },
            None => Err(BackupNotFound::new(ConfigId::new(String::from_str(key.as_str())))),
        }
    }

    /// The first configuration identified by `key`.
    fn get_result(&self, key: &ConfigId) -> (r: Result<&Backup, BackupNotFound>)
        ensures
            r is Ok <==> self.contains_id(key@),
            r matches Ok(b) ==> exists|i: int| self.is_first_with_id(i, key@) && *b == self@[i],
            r matches Ok(b) ==> b.id@ == key@ && exists|i: int|
                {
                    &&& 0 <= i < self@.len()
                    &&& *b == self@[i]
                    &&& forall|k: int| 0 <= k < i ==> self@[k].id@ != key@
                },
            r matches Err(e) ==> e.id@ == key@,
    {
        match self.find(key) {
            Some(i) => {
                proof {
                    lemma_first_with_id(self@, i as int, key@);
                }
                Ok(&self.0[i])
            },
            None => Err(BackupNotFound::new(ConfigId::new(String::from_str(key.as_str())))),
        }
    }
}

/// `i` is the position of the first configuration of `s` identified by `id`.
pub open spec fn is_first_with_id_in(s: Seq<Backup>, i: int, id: Seq<char>) -> bool {
    &&& 0 <= i < s.len()
    &&& s[i].id@ == id
    &&& forall|k: int| 0 <= k < i ==> s[k].id@ != id
}

/// The first position of a configuration identified by `id` holds a configuration with that
/// identifier, no earlier one has it, and there is only one such position; there is one
/// exactly where some configuration has that identifier.
pub proof fn lemma_first_with_id(s: Seq<Backup>, i: int, id: Seq<char>)
    ensures
        is_first_with_id_in(s, i, id) ==> {
            &&& 0 <= i < s.len()
            &&& s[i].id@ == id
            &&& forall|k: int| 0 <= k < i ==> s[k].id@ != id
        },
        forall|j: int| is_first_with_id_in(s, i, id) && is_first_with_id_in(s, j, id) ==> i == j,
        (exists|k: int| 0 <= k < s.len() && s[k].id@ == id) ==> exists|j: int| is_first_with_id_in(s, j, id),
{
    if exists|k: int| 0 <= k < s.len() && s[k].id@ == id {
        let k = choose|k: int| 0 <= k < s.len() && s[k].id@ == id;
        let j = lemma_least_with_id(s, id, k);
        assert(is_first_with_id_in(s, j, id));
    }
}

/// The least position at or before `k` that holds a configuration identified by `id`.
proof fn lemma_least_with_id(s: Seq<Backup>, id: Seq<char>, k: int) -> (j: int)
    requires
        0 <= k < s.len(),
        s[k].id@ == id,
    ensures
        0 <= j <= k,
        s[j].id@ == id,
        forall|m: int| 0 <= m < j ==> s[m].id@ != id,
    decreases k,
{
    if exists|m: int| 0 <= m < k && s[m].id@ == id {
        let m = choose|m: int| 0 <= m < k && s[m].id@ == id;
        lemma_least_with_id(s, id, m)
    } else {
        k
    }
}

/// The configurations of `s`, in order, except those identified by `id`.
pub open spec fn without_id(s: Seq<Backup>, id: Seq<char>) -> Seq<Backup> {
    s.filter(other_than(id))
}

/// Holds of the configurations not identified by `id`.
pub open spec fn other_than(id: Seq<char>) -> spec_fn(Backup) -> bool {
    |b: Backup| b.id@ != id
}

/// No two configurations of `s` share an identifier.
pub open spec fn ids_distinct_in(s: Seq<Backup>) -> bool {
    forall|i: int, j: int| 0 <= i < j < s.len() ==> s[i].id@ != s[j].id@
}

/// Within each repository the archive prefixes are kept apart: two configurations that share
/// a repository both have a non-empty prefix, and their prefixes differ.
pub open spec fn prefixes_apart(s: Seq<Backup>) -> bool {
    forall|i: int, j: int|
        0 <= i < s.len() && 0 <= j < s.len() && #[trigger] s[i].shares_repo_with(#[trigger] s[j])
            ==> s[i].archive_prefix@ != s[j].archive_prefix@ && s[i].archive_prefix@.len() > 0
}

/// Why the check refuses a prefix, in terms of the other configurations on the same
/// repository: it is taken exactly where one of them uses it, and it passes exactly where none
/// of them uses it or the empty prefix, and it is non-empty wherever any of them exists.
pub proof fn lemma_prefix_check_reasons(b: Backup, prefix: Seq<char>, configs: Seq<Backup>)
    ensures
        b.prefix_check(prefix, configs) == Err::<(), BackupPrefix>(BackupPrefix::Taken) <==> exists|i: int|
            0 <= i < configs.len() && configs[i].repo_id@ == b.repo_id@ && configs[i].id@ != b.id@
                && configs[i].archive_prefix@ == prefix,
        b.prefix_check(prefix, configs) is Ok <==> forall|i: int|
            0 <= i < configs.len() && configs[i].repo_id@ == b.repo_id@ && configs[i].id@ != b.id@
                ==> {
                &&& configs[i].archive_prefix@ != prefix
                &&& configs[i].archive_prefix@.len() > 0
                &&& prefix.len() > 0
            },
        b.prefix_check(prefix, configs) == Err::<(), BackupPrefix>(BackupPrefix::EmptyButOtherExists)
            ==> prefix.len() == 0,
{
}

/// A prefix that passes the check is used by no other configuration on the same repository,
/// none of those has the empty prefix, and it is empty only where no other configuration uses
/// that repository.
pub proof fn lemma_accepted_prefix_is_free(b: Backup, prefix: Seq<char>, configs: Seq<Backup>)
    requires
        b.prefix_check(prefix, configs) is Ok,
    ensures
        forall|i: int|
            0 <= i < configs.len() && #[trigger] b.shares_repo_with(configs[i]) ==> {
                &&& configs[i].archive_prefix@ != prefix
                &&& configs[i].archive_prefix@.len() > 0
                &&& prefix.len() > 0
            },
{
}

/// Giving one configuration a prefix that the check accepted, against all configurations,
/// keeps the archive prefixes within each repository apart.
pub proof fn lemma_accepted_prefix_keeps_prefixes_apart(
    configs: Seq<Backup>,
    i: int,
    prefix: ArchivePrefix,
)
    requires
        0 <= i < configs.len(),
        prefixes_apart(configs),
        configs[i].prefix_check(prefix@, configs) is Ok,
    ensures
        prefixes_apart(configs.update(i, Backup { archive_prefix: prefix, ..configs[i] })),
{
    let updated = configs.update(i, Backup { archive_prefix: prefix, ..configs[i] });
    lemma_accepted_prefix_is_free(configs[i], prefix@, configs);
    assert forall|a: int, c: int|
        0 <= a < updated.len() && 0 <= c < updated.len() && #[trigger] updated[a].shares_repo_with(
            #[trigger] updated[c],
        ) implies updated[a].archive_prefix@ != updated[c].archive_prefix@
        && updated[a].archive_prefix@.len() > 0 by {
        if a == i {
            assert(configs[i].shares_repo_with(configs[c]));
        } else if c == i {
            assert(configs[a].shares_repo_with(configs[i]));
            assert(configs[i].shares_repo_with(configs[a]));
        } else {
            assert(configs[a].shares_repo_with(configs[c]));
        }
    }
}

/// Appending a configuration whose identifier is new keeps the identifiers distinct.
pub proof fn lemma_insert_keeps_ids_distinct(backups: Backups, new: Backup)
    requires
        backups.ids_distinct(),
        !backups.contains_id(new.id@),
    ensures
        ids_distinct_in(backups@.push(new)),
{
    let s = backups@.push(new);
    assert forall|i: int, j: int| 0 <= i < j < s.len() implies s[i].id@ != s[j].id@ by {
        if j == s.len() - 1 {
            assert(s[i] == backups@[i]);
        }
    }
}

/// Removing the configurations with one identifier leaves none with that identifier, and
/// keeps distinct identifiers distinct.
pub proof fn lemma_remove_leaves_no_such_id(s: Seq<Backup>, id: Seq<char>)
    ensures
        forall|k: int| 0 <= k < without_id(s, id).len() ==> #[trigger] without_id(s, id)[k].id@ != id,
        ids_distinct_in(s) ==> ids_distinct_in(without_id(s, id)),
    decreases s.len(),
{
    broadcast use vstd::seq_lib::group_filter_ensures;

    let keep = other_than(id);
    if s.len() > 0 {
        let t = s.drop_last();
        assert(ids_distinct_in(s) ==> ids_distinct_in(t)) by {
            if ids_distinct_in(s) {
                assert forall|i: int, j: int| 0 <= i < j < t.len() implies t[i].id@ != t[j].id@ by {
                    assert(t[i] == s[i] && t[j] == s[j]);
                }
            }
        }
        lemma_remove_leaves_no_such_id(t, id);
        assert(t.push(s.last()) =~= s);
        t.lemma_filter_push(s.last(), keep);
        if ids_distinct_in(s) && keep(s.last()) {
            let f = t.filter(keep);
            let g = f.push(s.last());
            assert forall|i: int, j: int| 0 <= i < j < g.len() implies g[i].id@ != g[j].id@ by {
                if j == g.len() - 1 {
                    assert(g[i] == f[i]);
                    t.lemma_filter_contains_rev(keep, f[i]);
                    let k = choose|k: int| 0 <= k < t.len() && t[k] == f[i];
                    assert(s[k] == t[k]);
                } else {
                    assert(g[i] == f[i] && g[j] == f[j]);
                }
            }
        }
    }
}

/// Removing the configurations with one identifier keeps exactly the others.
pub proof fn lemma_remove_keeps_the_others(s: Seq<Backup>, id: Seq<char>)
    ensures
        forall|b: Backup| s.contains(b) && b.id@ != id <==> without_id(s, id).contains(b),
{
    broadcast use vstd::seq_lib::group_filter_ensures;

    let keep = other_than(id);
    assert forall|b: Backup| s.contains(b) && b.id@ != id <==> without_id(s, id).contains(b) by {
        if s.contains(b) && b.id@ != id {
            let i = choose|i: int| 0 <= i < s.len() && s[i] == b;
            assert(keep(s[i]));
        }
        if without_id(s, id).contains(b) {
            s.lemma_filter_contains_rev(keep, b);
            let k = choose|k: int| 0 <= k < without_id(s, id).len() && without_id(s, id)[k] == b;
            assert(keep(without_id(s, id)[k]));
        }
    }
}

/// Filtering out an identifier that no configuration of `s` has leaves `s` as it is.
proof fn lemma_filter_absent_id(s: Seq<Backup>, id: Seq<char>)
    requires
        forall|k: int| 0 <= k < s.len() ==> s[k].id@ != id,
    ensures
        without_id(s, id) == s,
    decreases s.len(),
{
    let keep = other_than(id);
    if s.len() > 0 {
        let t = s.drop_last();
        lemma_filter_absent_id(t, id);
        assert(t.push(s.last()) =~= s);
        t.lemma_filter_push(s.last(), keep);
    } else {
        reveal(Seq::filter);
    }
}

/// Looking up the identifier of a configuration just inserted finds that configuration.
pub proof fn lemma_insert_then_lookup(backups: Backups, new: Backup)
    requires
        !backups.contains_id(new.id@),
    ensures
        is_first_with_id_in(backups@.push(new), backups@.len() as int, new.id@),
        backups@.push(new)[backups@.len() as int] == new,
{
    let s = backups@.push(new);
    assert forall|k: int| 0 <= k < backups@.len() implies s[k].id@ != new.id@ by {
        assert(s[k] == backups@[k]);
    }
}

/// Removing a configuration right after inserting it, where its identifier was new, gives back
/// the configurations as they were.
pub proof fn lemma_insert_then_remove(backups: Backups, new: Backup)
    requires
        !backups.contains_id(new.id@),
    ensures
        without_id(backups@.push(new), new.id@) == backups@,
{
    let keep = other_than(new.id@);
    lemma_filter_absent_id(backups@, new.id@);
    backups@.lemma_filter_push(new, keep);
}

} // verus!
