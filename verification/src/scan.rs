//! Folder-scan decisions: which files a scan picks up (extension whitelist
//! and exclusion globs), whether a known file can be skipped, and the
//! running tally that becomes the scan's progress reports and summary.
//!
//! Walking the directory tree and talking to the database are done by the
//! caller, which hands each file's name, path and lookup result to these
//! functions.

use vstd::prelude::*;

use crate::models::{ScanProgress, ScanSummary};
use crate::text::{str_chars, str_eq, string_from_chars};

verus! {

#[verifier::external_type_specification]
#[verifier::external_body]
pub struct ExGlobSetBuilder(globset::GlobSetBuilder);

#[verifier::external_type_specification]
#[verifier::external_body]
pub struct ExGlobSet(globset::GlobSet);

/// Names whether `pattern` parses as a glob (`Glob::new` succeeds). The
/// glob crate decides per compile target whether a backslash escapes or
/// separates, so the name is fixed for one build target.
pub uninterp spec fn glob_valid(pattern: Seq<char>) -> bool;

/// Names whether the glob `pattern` matches `path`. Like `glob_valid`, it
/// is fixed for one build target (backslash handling differs by target);
/// the scan only hands it paths with forward slashes.
pub uninterp spec fn glob_matches(pattern: Seq<char>, path: Seq<char>) -> bool;

/// Names the patterns added to a builder, in order.
pub uninterp spec fn builder_patterns(b: globset::GlobSetBuilder) -> Seq<Seq<char>>;

/// Names whether `GlobSetBuilder::build` succeeds on a builder holding
/// exactly these patterns, in order (it compiles them into one matcher,
/// which depends on the patterns alone).
pub uninterp spec fn glob_set_builds(patterns: Seq<Seq<char>>) -> bool;

/// Names `str::to_lowercase` (Unicode lower case) of a string.
pub uninterp spec fn lowercase(s: Seq<char>) -> Seq<char>;

/// `GlobSetBuilder::new`: a builder holding no pattern.
#[verifier::external_body]
fn glob_set_builder_new() -> (b: globset::GlobSetBuilder)
    ensures
        builder_patterns(b) == Seq::<Seq<char>>::empty(),
{
    globset::GlobSetBuilder::new()
}

/// `Glob::new` on `pattern`, then `GlobSetBuilder::add` of the glob when it
/// parsed. Returns whether it parsed; the builder gains the pattern exactly
/// then.
#[verifier::external_body]
fn builder_add_pattern(b: &mut globset::GlobSetBuilder, pattern: &str) -> (added: bool)
    ensures
        added == glob_valid(pattern@),
        builder_patterns(*final(b)) == (if added {
            builder_patterns(*old(b)).push(pattern@)
        } else {
            builder_patterns(*old(b))
        }),
{
    match globset::Glob::new(pattern) {
        Ok(glob) => {
            b.add(glob);
            true
        },
        Err(_) => false,
    }
}

/// `GlobSetBuilder::build`: succeeds exactly when the builder's patterns
/// build; a builder without patterns always builds (the empty set).
#[verifier::external_body]
fn builder_build(b: &globset::GlobSetBuilder) -> (built: Option<globset::GlobSet>)
    ensures
        built is Some <==> glob_set_builds(builder_patterns(*b)),
        builder_patterns(*b).len() == 0 ==> built is Some,
{
    b.build().ok()
}

/// A folder's exclusion set: the compiled glob set and, as its view, the
/// patterns it was compiled from, in order. Only [`build_glob_set`] makes
/// one, from the builder that holds exactly those patterns.
pub struct ExcludeSet {
    set: globset::GlobSet,
    patterns: Ghost<Seq<Seq<char>>>,
}

impl View for ExcludeSet {
    type V = Seq<Seq<char>>;

    closed spec fn view(&self) -> Seq<Seq<char>> {
        self.patterns@
    }
}

/// `GlobSet::is_match` on the compiled set of `s`: whether any glob of the
/// set matches `path`. The set was compiled from the patterns `s@` (the
/// only way an `ExcludeSet` is made), so this is whether one of them
/// matches.
#[verifier::external_body]
fn glob_set_is_match(s: &ExcludeSet, path: &str) -> (r: bool)
    ensures
        r == (exists|i: int| 0 <= i < s@.len() && glob_matches(#[trigger] s@[i], path@)),
{
    s.set.is_match(path)
}

/// `str::to_lowercase`.
#[verifier::external_body]
fn str_to_lowercase(s: &str) -> (r: String)
    ensures
        r@ == lowercase(s@),
{
    s.to_lowercase()
}

/// The patterns of `ps` that parse as globs, in order.
pub open spec fn valid_patterns(ps: Seq<Seq<char>>) -> Seq<Seq<char>>
    decreases ps.len(),
{
    if ps.len() == 0 {
        Seq::empty()
    } else if glob_valid(ps.last()) {
        valid_patterns(ps.drop_last()).push(ps.last())
    } else {
        valid_patterns(ps.drop_last())
    }
}

/// The views of a vector of strings.
pub open spec fn string_views(v: Seq<String>) -> Seq<Seq<char>> {
    v.map_values(|s: String| s@)
}

/// The exclusion set of a folder: none without patterns; otherwise the set
/// of the patterns that parse (patterns that do not are skipped), which
/// exists exactly when those patterns build into one matcher (always, when
/// none parses).
pub fn build_glob_set(patterns: &Vec<String>) -> (r: Option<ExcludeSet>)
    ensures
        patterns@.len() == 0 ==> r is None,
        patterns@.len() > 0 ==> (r is Some <==> glob_set_builds(
            valid_patterns(string_views(patterns@)),
        )),
        patterns@.len() > 0 && valid_patterns(string_views(patterns@)).len() == 0 ==> r is Some,
        r matches Some(s) ==> s@ == valid_patterns(string_views(patterns@)),
{
    if patterns.len() == 0 {
        return None;
    }
    let mut builder = glob_set_builder_new();
    let n = patterns.len();
    let mut i: usize = 0;
    while i < n
        invariant
            n == patterns@.len(),
            0 <= i <= n,
            builder_patterns(builder) == valid_patterns(string_views(patterns@.take(i as int))),
        decreases n - i,
    {
        let ghost before = builder_patterns(builder);
        let _ = builder_add_pattern(&mut builder, patterns[i].as_str());
        proof {
            let vs = string_views(patterns@.take(i + 1));
            assert(vs.drop_last() =~= string_views(patterns@.take(i as int)));
            assert(vs.last() == patterns@[i as int]@);
        }
        i = i + 1;
    }
    assert(patterns@.take(n as int) =~= patterns@);
    match builder_build(&builder) {
        Some(set) => Some(ExcludeSet { set, patterns: Ghost(builder_patterns(builder)) }),
        None => None,
    }
}

/// `s` with every backslash turned into a forward slash.
pub open spec fn forward_slashes(s: Seq<char>) -> Seq<char> {
    s.map_values(|c: char| if c == '\\' { '/' } else { c })
}

/// Whether the exclusion set matches `path` once its separators are made
/// forward slashes.
pub open spec fn spec_is_excluded(exclude: Option<Seq<Seq<char>>>, path: Seq<char>) -> bool {
    match exclude {
        None => false,
        Some(ps) => exists|i: int|
            0 <= i < ps.len() && glob_matches(#[trigger] ps[i], forward_slashes(path)),
    }
}

/// The patterns of an optional exclusion set.
pub open spec fn exclude_view(exclude: Option<ExcludeSet>) -> Option<Seq<Seq<char>>> {
    match exclude {
        None => None,
        Some(s) => Some(s@),
    }
}

/// Whether a file at `path` is excluded from the scan.
pub fn is_excluded(exclude: &Option<ExcludeSet>, path: &str) -> (r: bool)
    ensures
        r == spec_is_excluded(exclude_view(*exclude), path@),
{
    match exclude {
        None => false,
        Some(set) => {
            let chars = str_chars(path);
            let n = chars.len();
            let mut out: Vec<char> = Vec::new();
            let mut i: usize = 0;
            while i < n
                invariant
                    n == chars@.len(),
                    0 <= i <= n,
                    out@ == forward_slashes(chars@.take(i as int)),
                decreases n - i,
            {
                let c = chars[i];
                out.push(if c == '\\' { '/' } else { c });
                proof {
                    assert(forward_slashes(chars@.take(i + 1)) =~= forward_slashes(
                        chars@.take(i as int),
                    ).push(if c == '\\' { '/' } else { c }));
                }
                i = i + 1;
            }
            assert(chars@.take(n as int) =~= chars@);
            let normalized = string_from_chars(out.as_slice());
            glob_set_is_match(set, normalized.as_str())
        },
    }
}

/// Index of the last `.` of `name`, or -1.
pub open spec fn last_dot(name: Seq<char>) -> int
    decreases name.len(),
{
    if name.len() == 0 {
        -1
    } else if name.last() == '.' {
        name.len() - 1
    } else {
        last_dot(name.drop_last())
    }
}

/// The extension of a file name as `Path::extension` gives it: what
/// follows the last `.`, none when there is no `.` or the only one starts
/// the name.
pub open spec fn file_extension(name: Seq<char>) -> Option<Seq<char>> {
    let k = last_dot(name);
    if k <= 0 {
        None
    } else {
        Some(name.subrange(k + 1, name.len() as int))
    }
}

/// The key a file is looked up by in the extension whitelist: `.` and the
/// lower-cased extension, empty when the name has none.
pub open spec fn extension_key_of(name: Seq<char>) -> Seq<char> {
    match file_extension(name) {
        None => Seq::empty(),
        Some(e) => seq!['.'] + lowercase(e),
    }
}

proof fn lemma_last_dot(name: Seq<char>)
    ensures
        -1 <= last_dot(name) < name.len(),
        last_dot(name) >= 0 ==> name[last_dot(name)] == '.',
        forall|j: int| last_dot(name) < j < name.len() ==> name[j] != '.',
    decreases name.len(),
{
    if name.len() > 0 && name.last() != '.' {
        let d = name.drop_last();
        lemma_last_dot(d);
        assert forall|j: int| last_dot(name) < j < name.len() implies name[j] != '.' by {
            if j < name.len() - 1 {
                assert(name[j] == d[j]);
            }
        }
    }
}

/// A file named `stem` + `.` + `ext`, with a non-empty stem and no `.` in
/// `ext`, is looked up by `.` and `ext` in lower case; a name with no `.`
/// after its first character has no key.
pub proof fn lemma_extension_key_of_name(stem: Seq<char>, ext: Seq<char>)
    requires
        stem.len() > 0,
        !ext.contains('.'),
    ensures
        extension_key_of(stem + seq!['.'] + ext) == seq!['.'] + lowercase(ext),
        !stem.drop_first().contains('.') ==> extension_key_of(stem) == Seq::<char>::empty(),
{
    let name = stem + seq!['.'] + ext;
    let n = stem.len() as int;
    lemma_last_dot(name);
    let k = last_dot(name);
    assert(name[n] == '.');
    if k > n {
        assert(name[k] == ext[k - n - 1]);
        assert(ext.contains(name[k]));
    }
    assert(k == n);
    assert(name.subrange(n + 1, name.len() as int) =~= ext);
    lemma_last_dot(stem);
    if last_dot(stem) > 0 {
        assert(stem.drop_first()[last_dot(stem) - 1] == stem[last_dot(stem)]);
    }
}

/// The whitelist key of a file name.
pub fn extension_key(file_name: &str) -> (r: String)
    ensures
        r@ == extension_key_of(file_name@),
{
    let chars = str_chars(file_name);
    let n = chars.len();
    let mut k: usize = n;
    proof {
        lemma_last_dot(chars@);
    }
    while k > 0 && chars[k - 1] != '.'
        invariant
            n == chars@.len(),
            0 <= k <= n,
            forall|j: int| k <= j < n ==> chars@[j] != '.',
            last_dot(chars@) < k,
            -1 <= last_dot(chars@) < n,
            last_dot(chars@) >= 0 ==> chars@[last_dot(chars@)] == '.',
            forall|j: int| last_dot(chars@) < j < n ==> chars@[j] != '.',
        decreases k,
    {
        k = k - 1;
    }
    if k <= 1 {
        assert(last_dot(chars@) <= 0);
        return string_from_chars(&[]);
    }
    assert(last_dot(chars@) == k - 1);
    let mut ext: Vec<char> = Vec::new();
    let mut j: usize = k;
    while j < n
        invariant
            n == chars@.len(),
            k <= j <= n,
            ext@ == chars@.subrange(k as int, j as int),
        decreases n - j,
    {
        ext.push(chars[j]);
        proof {
            assert(chars@.subrange(k as int, j + 1) =~= chars@.subrange(k as int, j as int).push(
                chars@[j as int],
            ));
        }
        j = j + 1;
    }
    let ext_str = string_from_chars(ext.as_slice());
    let lower = str_to_lowercase(ext_str.as_str());
    let mut out: Vec<char> = Vec::new();
    out.push('.');
    crate::text::push_str(&mut out, lower.as_str());
    string_from_chars(out.as_slice())
}

/// The extensions a scan accepts when the folder names none.
pub open spec fn scan_default_extensions() -> Seq<Seq<char>> {
    seq![
        seq!['.', 'f', 'l', 'a', 'c'],
        seq!['.', 'm', 'p', '3'],
        seq!['.', 'm', '4', 'a'],
        seq!['.', 'w', 'a', 'v'],
        seq!['.', 'o', 'g', 'g'],
    ]
}

/// The whitelist a scan uses: the folder's extensions lower-cased, or the
/// scan defaults when it names none.
pub open spec fn spec_effective_extensions(listed: Seq<Seq<char>>) -> Seq<Seq<char>> {
    if listed.len() == 0 {
        scan_default_extensions()
    } else {
        listed.map_values(|e: Seq<char>| lowercase(e))
    }
}

/// The extension whitelist of a scan.
pub fn effective_extensions(listed: &Vec<String>) -> (r: Vec<String>)
    ensures
        string_views(r@) == spec_effective_extensions(string_views(listed@)),
{
    let mut r: Vec<String> = Vec::new();
    if listed.len() == 0 {
        r.push(string_from_chars(&['.', 'f', 'l', 'a', 'c']));
        r.push(string_from_chars(&['.', 'm', 'p', '3']));
        r.push(string_from_chars(&['.', 'm', '4', 'a']));
        r.push(string_from_chars(&['.', 'w', 'a', 'v']));
        r.push(string_from_chars(&['.', 'o', 'g', 'g']));
        assert(string_views(r@) =~= scan_default_extensions());
        return r;
    }
    let n = listed.len();
    let mut i: usize = 0;
    while i < n
        invariant
            n == listed@.len(),
            0 <= i <= n,
            r@.len() == i,
            forall|k: int| 0 <= k < i ==> (#[trigger] r@[k])@ == lowercase(listed@[k]@),
        decreases n - i,
    {
        let lower = str_to_lowercase(listed[i].as_str());
        r.push(lower);
        i = i + 1;
    }
    assert(string_views(r@) =~= spec_effective_extensions(string_views(listed@)));
    r
}

/// Whether a file enters the scan: its extension key is whitelisted and the
/// exclusion set does not match its path.
pub open spec fn spec_is_eligible(
    file_name: Seq<char>,
    path: Seq<char>,
    extensions: Seq<Seq<char>>,
    exclude: Option<Seq<Seq<char>>>,
) -> bool {
    extensions.contains(extension_key_of(file_name)) && !spec_is_excluded(exclude, path)
}

/// Whether the file named `file_name` at `path` enters the scan.
pub fn is_eligible(
    file_name: &str,
    path: &str,
    extensions: &Vec<String>,
    exclude: &Option<ExcludeSet>,
) -> (r: bool)
    ensures
        r == spec_is_eligible(file_name@, path@, string_views(extensions@), exclude_view(*exclude)),
{
    let key = extension_key(file_name);
    let n = extensions.len();
    let mut found = false;
    let mut i: usize = 0;
    while i < n
        invariant
            n == extensions@.len(),
            0 <= i <= n,
            found == exists|k: int| 0 <= k < i && (#[trigger] extensions@[k])@ == key@,
        decreases n - i,
    {
        if str_eq(extensions[i].as_str(), key.as_str()) {
            found = true;
        }
        i = i + 1;
    }
    proof {
        let views = string_views(extensions@);
        if found {
            let k = choose|k: int| 0 <= k < n && (#[trigger] extensions@[k])@ == key@;
            assert(views[k] == key@);
        } else {
            assert forall|k: int| 0 <= k < views.len() implies views[k] != key@ by {
                assert(views[k] == extensions@[k]@);
            }
        }
    }
    if !found {
        return false;
    }
    !is_excluded(exclude, path)
}

/// The stored track a file found with `mtime_ms` and `size_bytes` is
/// unchanged from, given what the library holds for it as (id, time,
/// size): the same time and size mean the same file.
pub open spec fn spec_unchanged_track(existing: Option<(i64, i64, i64)>, mtime_ms: i64, size_bytes: i64) -> Option<i64> {
    match existing {
        Some((id, m, s)) => if m == mtime_ms && s == size_bytes {
            Some(id)
        } else {
            None
        },
        None => None,
    }
}

/// A known file is skipped when its stored time and size are those seen
/// now: the lookup gives `(track_id, mtime_ms, size_bytes)`.
pub fn unchanged_track(existing: Option<(i64, i64, i64)>, mtime_ms: i64, size_bytes: i64) -> (r:
    Option<i64>)
    ensures
        r == spec_unchanged_track(existing, mtime_ms, size_bytes),
{
    match existing {
        Some((id, m, s)) => {
            if m == mtime_ms && s == size_bytes {
                Some(id)
            } else {
                None
            }
        },
        None => None,
    }
}

/// A file is skipped as unchanged exactly when it is known and both the
/// time and the size stored for it are the ones found now; the id given
/// back is the stored one. A known file whose size or time differs is read
/// again, and an unknown file is always read.
pub proof fn lemma_unchanged_track_exact(
    existing: Option<(i64, i64, i64)>,
    mtime_ms: i64,
    size_bytes: i64,
)
    ensures
        forall|id: i64|
            spec_unchanged_track(existing, mtime_ms, size_bytes) == Some(id) <==> existing == Some(
                (id, mtime_ms, size_bytes),
            ),
        existing matches Some((id, m, s)) && s != size_bytes ==> spec_unchanged_track(
            existing,
            mtime_ms,
            size_bytes,
        ) is None,
        existing matches Some((id, m, s)) && m != mtime_ms ==> spec_unchanged_track(
            existing,
            mtime_ms,
            size_bytes,
        ) is None,
        existing is None ==> spec_unchanged_track(existing, mtime_ms, size_bytes) is None,
{
}

/// What became of one file of a scan.
#[derive(Debug, Clone, Copy, PartialEq, Eq, Structural)]
pub enum FileOutcome {
    /// Read and stored; the track's id.
    Scanned(i64),
    /// Unchanged since the last scan; the track's id.
    Skipped(i64),
    /// Could not be processed.
    Failed,
}

/// Running counts of a scan and the tracks it saw.
#[derive(Debug, Clone)]
pub struct ScanTally {
    pub total: u32,
    pub scanned: u32,
    pub skipped: u32,
    pub errors: u32,
    pub seen_track_ids: Vec<i64>,
}

impl ScanTally {
    /// A scan of `total` files that has processed none.
    pub fn new(total: u32) -> (t: Self)
        ensures
            t.total == total,
            t.scanned == 0 && t.skipped == 0 && t.errors == 0,
            t.seen_track_ids@.len() == 0,
    {
        ScanTally { total, scanned: 0, skipped: 0, errors: 0, seen_track_ids: Vec::new() }
    }

    /// Record the outcome of one file and return the progress report sent
    /// after it (files done so far, the total, the errors).
    pub fn record(&mut self, outcome: FileOutcome) -> (p: ScanProgress)
        requires
            old(self).scanned + old(self).skipped + old(self).errors < u32::MAX,
        ensures
            final(self).total == old(self).total,
            final(self).scanned == old(self).scanned + (if outcome is Scanned {
                1int
            } else {
                0int
            }),
            final(self).skipped == old(self).skipped + (if outcome is Skipped {
                1int
            } else {
                0int
            }),
            final(self).errors == old(self).errors + (if outcome is Failed {
                1int
            } else {
                0int
            }),
            final(self).seen_track_ids@ == (match outcome {
                FileOutcome::Scanned(id) => old(self).seen_track_ids@.push(id),
                FileOutcome::Skipped(id) => old(self).seen_track_ids@.push(id),
                FileOutcome::Failed => old(self).seen_track_ids@,
            }),
            p.scanned == final(self).scanned + final(self).skipped,
            p.total == final(self).total,
            p.errors == final(self).errors,
    {
        match outcome {
            FileOutcome::Scanned(id) => {
                self.scanned = self.scanned + 1;
                self.seen_track_ids.push(id);
            },
            FileOutcome::Skipped(id) => {
                self.skipped = self.skipped + 1;
                self.seen_track_ids.push(id);
            },
            FileOutcome::Failed => {
                self.errors = self.errors + 1;
            },
        }
        ScanProgress { scanned: self.scanned + self.skipped, total: self.total, errors: self.errors }
    }

    /// The summary of the finished scan.
    pub fn summary(&self, scan_id: u64, elapsed_ms: u64) -> (s: ScanSummary)
        ensures
            s.scan_id == scan_id,
            s.scanned == self.scanned,
            s.total == self.total,
            s.skipped == self.skipped,
            s.errors == self.errors,
            s.elapsed_ms == elapsed_ms,
    {
        ScanSummary {
            scan_id,
            scanned: self.scanned,
            total: self.total,
            skipped: self.skipped,
            errors: self.errors,
            elapsed_ms,
        }
    }
}

/// The counts (scanned, skipped, failed) after recording `outcomes` in
/// order, from `(sc, sk, er)`.
pub open spec fn tally_after(sc: int, sk: int, er: int, outcomes: Seq<FileOutcome>) -> (int, int, int)
    decreases outcomes.len(),
{
    if outcomes.len() == 0 {
        (sc, sk, er)
    } else {
        let o = outcomes.last();
        let (a, b, c) = tally_after(sc, sk, er, outcomes.drop_last());
        (
            a + if o is Scanned {
                1int
            } else {
                0int
            },
            b + if o is Skipped {
                1int
            } else {
                0int
            },
            c + if o is Failed {
                1int
            } else {
                0int
            },
        )
    }
}

/// The outcome of a file whose stored record is `stored` and that is found
/// with `(mtime, size)`: skipped as unchanged, or scanned again (its new
/// id is the library's to give).
pub open spec fn rescan_outcome(stored: Option<(i64, i64, i64)>, found: (i64, i64), new_id: i64) -> FileOutcome {
    match spec_unchanged_track(stored, found.0, found.1) {
        Some(id) => FileOutcome::Skipped(id),
        None => FileOutcome::Scanned(new_id),
    }
}

/// A rescan of unchanged files finds nothing to do: when the library
/// holds, for each file, the id, time and size stored at the last scan and
/// each file is found again with that time and size, every file is
/// skipped under its stored id, and a fresh tally ends with nothing
/// scanned, every file skipped and no error.
pub proof fn lemma_rescan_unchanged_skips_all(
    ids: Seq<i64>,
    found: Seq<(i64, i64)>,
    new_ids: Seq<i64>,
)
    requires
        ids.len() == found.len(),
        new_ids.len() == found.len(),
    ensures
        ({
            let outcomes = Seq::new(
                found.len(),
                |i: int| rescan_outcome(Some((ids[i], found[i].0, found[i].1)), found[i], new_ids[i]),
            );
            &&& forall|i: int| 0 <= i < found.len() ==> #[trigger] outcomes[i] == FileOutcome::Skipped(ids[i])
            &&& tally_after(0, 0, 0, outcomes) == (0int, found.len() as int, 0int)
        }),
    decreases found.len(),
{
    let outcomes = Seq::new(
        found.len(),
        |i: int| rescan_outcome(Some((ids[i], found[i].0, found[i].1)), found[i], new_ids[i]),
    );
    if found.len() > 0 {
        let n = found.len() - 1;
        lemma_rescan_unchanged_skips_all(ids.take(n), found.take(n), new_ids.take(n));
        let prev = Seq::new(
            found.take(n).len(),
            |i: int| rescan_outcome(
                Some((ids.take(n)[i], found.take(n)[i].0, found.take(n)[i].1)),
                found.take(n)[i],
                new_ids.take(n)[i],
            ),
        );
        assert(outcomes.drop_last() =~= prev);
    }
}

} // verus!
