//! The search tool: configuration, the thread-safe-aggregation state
//! reduced to a sequential reducer, and the search operations over an
//! in-memory tree of files.
use vstd::prelude::*;
use crate::results::{
    AggState, MatchV, SearchResult, SearchStats, agg_step, agg_fold, lemma_agg_fold_push, sat_cap,
    sat_add, mini_of,
};
use crate::text::{spec_contains, str_contains, str_chars};
use crate::classify::{FileCategory, spec_classify, classify};
use crate::units::{
    spec_jar_class_unit, spec_jar_class_count, scan_jar_class, append_results,
    spec_jar_package_unit, scan_jar_package, spec_jar_content_unit, spec_jar_content_counts,
    scan_jar_content, lemma_entry_counts_bound,
};
use crate::pattern::{regex_valid, regex_source, regex_new, regex_match, regex_is_match, regex_escaped, regex_escape};
use crate::results::lemma_agg_fold_concat;
use crate::classify::{spec_file_name, after_last};
use crate::units::{spec_zip_text_unit, scan_zip_text, spec_loose_unit, scan_loose_file};
use crate::ziparch::zip_ok;

verus! {

/// One file handed to the engine: its path, its byte length as the
/// filesystem reports it, and its contents.
pub struct FileEntry {
    pub path: String,
    pub size: u64,
    pub data: Vec<u8>,
}

/// The mathematical view of a file.
pub ghost struct FileEntryV {
    pub path: Seq<char>,
    pub size: u64,
    pub data: Seq<u8>,
}

impl View for FileEntry {
    type V = FileEntryV;

    open spec fn view(&self) -> FileEntryV {
        FileEntryV { path: self.path@, size: self.size, data: self.data@ }
    }
}

impl DeepView for FileEntry {
    type V = FileEntryV;

    open spec fn deep_view(&self) -> FileEntryV {
        self.view()
    }
}

/// The one user-visible hard failure: the pattern does not compile.
#[derive(Clone, Copy, Debug, PartialEq, Eq, Structural)]
pub enum SearchError {
    InvalidPattern,
}

/// A path is excluded when it contains any configured substring.
pub open spec fn spec_excluded(path: Seq<char>, excludes: Seq<Seq<char>>) -> bool {
    exists|k: int| 0 <= k < excludes.len() && spec_contains(path, #[trigger] excludes[k])
}

/// A top-level file is opened only when its path is not excluded and
/// its size passes the threshold; threshold zero admits everything.
pub open spec fn spec_should_process(
    f: FileEntryV,
    excludes: Seq<Seq<char>>,
    threshold: u64,
) -> bool {
    &&& !spec_excluded(f.path, excludes)
    &&& (threshold == 0 || f.size >= threshold)
}

/// The search tool. Matches are reduced sequentially: workers hand
/// their per-unit match lists back and the tool folds them in, so the
/// final collection and counters are deterministic for a fixed tree.
pub struct JarTool {
    results: Vec<SearchResult>,
    seen: Vec<String>,
    stats: SearchStats,
    verbose: bool,
    size_threshold: u64,
    parallel_jobs: usize,
    excludes: Vec<String>,
    mini_mode: bool,
}

impl JarTool {
    /// The aggregation state the tool holds.
    pub closed spec fn agg(self) -> AggState {
        AggState { results: self.results.deep_view(), seen: self.seen.deep_view() }
    }

    /// The configuration the tool was built with.
    pub closed spec fn cfg(self) -> (bool, u64, usize, Seq<Seq<char>>, bool) {
        (self.verbose, self.size_threshold, self.parallel_jobs, self.excludes.deep_view(), self.mini_mode)
    }

    pub closed spec fn spec_excludes(self) -> Seq<Seq<char>> {
        self.excludes.deep_view()
    }

    pub closed spec fn spec_mini(self) -> bool {
        self.mini_mode
    }

    pub closed spec fn spec_threshold(self) -> u64 {
        self.size_threshold
    }

    pub closed spec fn spec_stats(self) -> SearchStats {
        self.stats
    }

    pub closed spec fn spec_jobs(self) -> usize {
        self.parallel_jobs
    }

    /// Well-formedness: in mini mode the result collection holds one
    /// entry per seen location; outside it the seen set stays empty.
    pub closed spec fn wf(self) -> bool {
        &&& self.seen.deep_view().no_duplicates()
        &&& (self.mini_mode ==> self.results@.len() == self.seen@.len())
        &&& (!self.mini_mode ==> self.seen@.len() == 0)
    }

    pub fn new(
        verbose: bool,
        size_threshold: u64,
        parallel_jobs: usize,
        excludes: Vec<String>,
        mini_mode: bool,
    ) -> (r: JarTool)
        ensures
            r.wf(),
            r.agg() == (AggState { results: Seq::<MatchV>::empty(), seen: Seq::<Seq<char>>::empty() }),
            r.spec_stats() == SearchStats::spec_zero(),
            r.cfg() == (verbose, size_threshold, parallel_jobs, excludes.deep_view(), mini_mode),
            r.spec_excludes() == excludes.deep_view(),
            r.spec_mini() == mini_mode,
            r.spec_threshold() == size_threshold,
            r.spec_jobs() == parallel_jobs,
    {
        let r = JarTool {
            results: Vec::new(),
            seen: Vec::new(),
            stats: SearchStats::new(),
            verbose,
            size_threshold,
            parallel_jobs,
            excludes,
            mini_mode,
        };
        proof {
            assert(r.results.deep_view() =~= Seq::<MatchV>::empty());
            assert(r.seen.deep_view() =~= Seq::<Seq<char>>::empty());
        }
        r
    }

    /// The admitted results, as aggregated.
    pub fn results(&self) -> (r: &Vec<SearchResult>)
        ensures
            r.deep_view() == self.agg().results,
    {
        &self.results
    }

    /// A snapshot of the statistics record.
    pub fn stats(&self) -> (r: SearchStats)
        ensures
            r == self.spec_stats(),
    {
        self.stats
    }

    pub fn mini_mode(&self) -> (r: bool)
        ensures
            r == self.spec_mini(),
    {
        self.mini_mode
    }

    pub fn parallel_jobs(&self) -> (r: usize)
        ensures
            r == self.spec_jobs(),
    {
        self.parallel_jobs
    }

    pub fn excludes(&self) -> (r: &Vec<String>)
        ensures
            r.deep_view() == self.spec_excludes(),
    {
        &self.excludes
    }

    /// The elapsed wall-clock time is measured by the caller around the
    /// whole operation and recorded here once.
    pub fn set_elapsed_millis(&mut self, ms: u64)
        requires
            old(self).wf(),
        ensures
            final(self).wf(),
            final(self).spec_stats() == (SearchStats { elapsed_millis: ms, ..old(self).spec_stats() }),
            final(self).agg() == old(self).agg(),
            final(self).cfg() == old(self).cfg(),
    {
        self.stats.elapsed_millis = ms;
    }

    /// Whether a path contains any configured exclusion substring.
    pub fn should_exclude_path(&self, path: &str) -> (r: bool)
        ensures
            r == spec_excluded(path@, self.spec_excludes()),
    {
        let mut k: usize = 0;
        while k < self.excludes.len()
            invariant
                k <= self.excludes@.len(),
                forall|j: int|
                    0 <= j < k ==> !spec_contains(path@, #[trigger] self.excludes.deep_view()[j]),
            decreases self.excludes@.len() - k,
        {
            if str_contains(path, self.excludes[k].as_str()) {
                proof {
                    assert(spec_contains(path@, self.excludes.deep_view()[k as int]));
                }
                return true;
            }
            k += 1;
        }
        false
    }

    /// Whether a top-level file passes exclusion and size filtering.
    pub fn should_process_file(&self, f: &FileEntry) -> (r: bool)
        ensures
            r == spec_should_process(f@, self.spec_excludes(), self.spec_threshold()),
    {
        if self.should_exclude_path(f.path.as_str()) {
            return false;
        }
        if self.size_threshold == 0 {
            return true;
        }
        f.size >= self.size_threshold
    }

    /// Record one raw match: in mini mode the first match per location
    /// is admitted in reduced form and later ones are suppressed; the
    /// raw counter advances either way.
    pub fn add_result(&mut self, r: SearchResult)
        requires
            old(self).wf(),
        ensures
            final(self).wf(),
            final(self).agg() == agg_step(old(self).agg(), r@, old(self).spec_mini()),
            final(self).spec_stats() == (SearchStats {
                matches_found: (sat_cap(old(self).spec_stats().matches_found + 1) as usize),
                ..old(self).spec_stats()
            }),
            final(self).cfg() == old(self).cfg(),
    {
        if self.mini_mode {
            let mut found = false;
            let mut j: usize = 0;
            while j < self.seen.len()
                invariant
                    j <= self.seen@.len(),
                    found == exists|i: int|
                        0 <= i < j && #[trigger] self.seen.deep_view()[i] == r.file_location@,
                decreases self.seen@.len() - j,
            {
                let e = self.seen[j].eq(&r.file_location);
                proof {
                    assert(self.seen.deep_view()[j as int] == self.seen@[j as int]@);
                }
                if e {
                    found = true;
                }
                j += 1;
            }
            proof {
                if found {
                    let i = choose|i: int|
                        0 <= i < self.seen@.len() && #[trigger] self.seen.deep_view()[i]
                            == r.file_location@;
                    assert(self.seen.deep_view().contains(r.file_location@));
                } else {
                    if self.seen.deep_view().contains(r.file_location@) {
                        let i = choose|i: int|
                            0 <= i < self.seen.deep_view().len() && self.seen.deep_view()[i]
                                == r.file_location@;
                        assert(false);
                    }
                }
            }
            if !found {
                let ghost seen0 = self.seen.deep_view();
                let ghost results0 = self.results.deep_view();
                self.seen.push(r.file_location.clone());
                let mini = SearchResult {
                    file_location: r.file_location,
                    line_number: None,
                    line_content: "Found matches".to_owned(),
                    match_type: r.match_type,
                };
                proof {
                    assert(mini@ == mini_of(r@));
                }
                self.results.push(mini);
                proof {
                    assert(self.seen.deep_view() =~= seen0.push(r@.location));
                    assert(self.results.deep_view() =~= results0.push(mini_of(r@)));
                }
            }
        } else {
            let ghost results0 = self.results.deep_view();
            self.results.push(r);
            proof {
                assert(self.results.deep_view() =~= results0.push(r@));
            }
        }
        self.stats.matches_found = sat_add(self.stats.matches_found, 1);
    }

    /// Record a list of raw matches, in order.
    pub fn record_all(&mut self, v: Vec<SearchResult>)
        requires
            old(self).wf(),
        ensures
            final(self).wf(),
            final(self).agg() == agg_fold(old(self).agg(), v.deep_view(), old(self).spec_mini()),
            final(self).spec_stats() == (SearchStats {
                matches_found: (sat_cap(old(self).spec_stats().matches_found + v@.len()) as usize),
                ..old(self).spec_stats()
            }),
            final(self).cfg() == old(self).cfg(),
    {
        let ghost vd = v.deep_view();
        let n = v.len();
        let mut v = v;
        let mut i: usize = 0;
        while i < n
            invariant
                i <= n,
                n == vd.len(),
                v.deep_view() == vd,
                self.wf(),
                self.agg() == agg_fold(old(self).agg(), vd.subrange(0, i as int), old(self).spec_mini()),
                self.stats == (SearchStats {
                    matches_found: (sat_cap(old(self).spec_stats().matches_found + i) as usize),
                    ..old(self).spec_stats()
                }),
                self.cfg() == old(self).cfg(),
                self.mini_mode == old(self).spec_mini(),
            decreases n - i,
        {
            let m = v[i].clone();
            proof {
                assert(m@ == vd[i as int]);
                lemma_agg_fold_push(
                    old(self).agg(),
                    vd.subrange(0, i as int),
                    vd[i as int],
                    old(self).spec_mini(),
                );
                assert(vd.subrange(0, i as int).push(vd[i as int]) =~= vd.subrange(0, i + 1));
            }
            self.add_result(m);
            i += 1;
        }
        proof {
            assert(vd.subrange(0, vd.len() as int) =~= vd);
        }
    }
}

/// A file that a mode's walker keeps: it has the wanted category and
/// its path is not excluded.
pub open spec fn spec_is_cat(fv: FileEntryV, excl: Seq<Seq<char>>, cat: FileCategory) -> bool {
    spec_classify(fv.path) == cat && !spec_excluded(fv.path, excl)
}

/// The concatenation, in file order, of what one unit function yields
/// on each file from index `i`.
pub open spec fn spec_fold_units(
    u: spec_fn(FileEntryV) -> Seq<MatchV>,
    fs: Seq<FileEntryV>,
    i: int,
) -> Seq<MatchV>
    decreases fs.len() - i,
    when 0 <= i <= fs.len()
{
    if i >= fs.len() {
        Seq::empty()
    } else {
        u(fs[i]) + spec_fold_units(u, fs, i + 1)
    }
}

/// The sum of one counter over each file from index `i`.
pub open spec fn spec_sum_units(c: spec_fn(FileEntryV) -> int, fs: Seq<FileEntryV>, i: int) -> int
    decreases fs.len() - i,
    when 0 <= i <= fs.len()
{
    if i >= fs.len() {
        0
    } else {
        c(fs[i]) + spec_sum_units(c, fs, i + 1)
    }
}

pub proof fn lemma_sum_units_bounds(c: spec_fn(FileEntryV) -> int, fs: Seq<FileEntryV>, i: int)
    requires
        0 <= i <= fs.len(),
        forall|fv: FileEntryV| 0 <= #[trigger] c(fv),
    ensures
        0 <= spec_sum_units(c, fs, i),
        (forall|fv: FileEntryV| #[trigger] c(fv) <= 1) ==> spec_sum_units(c, fs, i) <= fs.len()
            - i,
    decreases fs.len() - i,
{
    if i < fs.len() {
        lemma_sum_units_bounds(c, fs, i + 1);
        if forall|fv: FileEntryV| #[trigger] c(fv) <= 1 {
            assert(c(fs[i]) <= 1);
        }
    }
}

/// Counts one for each non-excluded file of a category.
pub open spec fn cat_counter(excl: Seq<Seq<char>>, cat: FileCategory) -> spec_fn(FileEntryV) -> int {
    |fv: FileEntryV| if spec_is_cat(fv, excl, cat) { 1int } else { 0int }
}

/// The unit gate of a class search: a kept jar that passes the size
/// filter is scanned, everything else yields nothing.
pub open spec fn class_unit(q: Seq<char>, exact: bool, excl: Seq<Seq<char>>, th: u64) -> spec_fn(
    FileEntryV,
) -> Seq<MatchV> {
    |fv: FileEntryV|
        if spec_is_cat(fv, excl, FileCategory::Jar) && spec_should_process(fv, excl, th) {
            spec_jar_class_unit(q, exact, fv)
        } else {
            Seq::empty()
        }
}

/// Counts the jars a class search fully processes.
pub open spec fn jar_processed_counter(excl: Seq<Seq<char>>, th: u64) -> spec_fn(
    FileEntryV,
) -> int {
    |fv: FileEntryV|
        if spec_is_cat(fv, excl, FileCategory::Jar) && spec_should_process(fv, excl, th) && zip_ok(
            fv.data,
        ) {
            1int
        } else {
            0int
        }
}

/// Counts the class entries a class search sees.
pub open spec fn class_entries_counter(excl: Seq<Seq<char>>, th: u64) -> spec_fn(
    FileEntryV,
) -> int {
    |fv: FileEntryV|
        if spec_is_cat(fv, excl, FileCategory::Jar) && spec_should_process(fv, excl, th) {
            spec_jar_class_count(fv)
        } else {
            0int
        }
}

proof fn lemma_class_counter_nonneg(excl: Seq<Seq<char>>, th: u64)
    ensures
        forall|fv: FileEntryV| 0 <= #[trigger] class_entries_counter(excl, th)(fv),
{
    assert forall|fv: FileEntryV| 0 <= #[trigger] class_entries_counter(excl, th)(fv) by {
        if zip_ok(fv.data) {
            crate::units::lemma_class_count_bound(fv.data, 0);
        }
    }
}

impl JarTool {
    /// Search the jar files under the tree for class names, by the
    /// exact or the substring policy.
    fn search_class_mode(&mut self, query: &str, files: &Vec<FileEntry>, exact: bool)
        requires
            old(self).wf(),
        ensures
            final(self).wf(),
            final(self).cfg() == old(self).cfg(),
            final(self).agg() == agg_fold(
                old(self).agg(),
                spec_fold_units(
                    class_unit(
                        query@,
                        exact,
                        old(self).spec_excludes(),
                        old(self).spec_threshold(),
                    ),
                    files.deep_view(),
                    0,
                ),
                old(self).spec_mini(),
            ),
            final(self).spec_stats().total_jars as int == spec_sum_units(
                cat_counter(old(self).spec_excludes(), FileCategory::Jar),
                files.deep_view(),
                0,
            ),
            final(self).spec_stats().files_processed as int == sat_cap(
                old(self).spec_stats().files_processed + spec_sum_units(
                    jar_processed_counter(old(self).spec_excludes(), old(self).spec_threshold()),
                    files.deep_view(),
                    0,
                ),
            ),
            final(self).spec_stats().total_class_files as int == sat_cap(
                old(self).spec_stats().total_class_files + spec_sum_units(
                    class_entries_counter(old(self).spec_excludes(), old(self).spec_threshold()),
                    files.deep_view(),
                    0,
                ),
            ),
            final(self).spec_stats().matches_found as int == sat_cap(
                old(self).spec_stats().matches_found + spec_fold_units(
                    class_unit(
                        query@,
                        exact,
                        old(self).spec_excludes(),
                        old(self).spec_threshold(),
                    ),
                    files.deep_view(),
                    0,
                ).len(),
            ),
            final(self).spec_stats().total_zip_files == old(self).spec_stats().total_zip_files,
            final(self).spec_stats().total_java_files == old(self).spec_stats().total_java_files,
            final(self).spec_stats().total_other_files == old(self).spec_stats().total_other_files,
            final(self).spec_stats().elapsed_millis == old(self).spec_stats().elapsed_millis,
    {
        let ghost ex = self.spec_excludes();
        let ghost th = self.spec_threshold();
        let ghost fsd = files.deep_view();
        let ghost uq = class_unit(query@, exact, ex, th);
        let ghost cjar = cat_counter(ex, FileCategory::Jar);
        let ghost cproc = jar_processed_counter(ex, th);
        let ghost ccls = class_entries_counter(ex, th);
        let qv = str_chars(query);
        let mut raw: Vec<SearchResult> = Vec::new();
        let mut jar_count: usize = 0;
        let mut processed: usize = 0;
        let mut classes: usize = 0;
        let n = files.len();
        let mut i: usize = 0;
        proof {
            lemma_class_counter_nonneg(ex, th);
            lemma_sum_units_bounds(ccls, fsd, 0);
        }
        while i < n
            invariant
                i <= n,
                n == fsd.len(),
                fsd == files.deep_view(),
                *self == *old(self),
                qv@ == query@,
                ex == self.spec_excludes(),
                th == self.spec_threshold(),
                uq == class_unit(query@, exact, ex, th),
                cjar == cat_counter(ex, FileCategory::Jar),
                cproc == jar_processed_counter(ex, th),
                ccls == class_entries_counter(ex, th),
                jar_count <= i,
                processed <= i,
                raw.deep_view() + spec_fold_units(uq, fsd, i as int) == spec_fold_units(uq, fsd, 0),
                jar_count + spec_sum_units(cjar, fsd, i as int) == spec_sum_units(cjar, fsd, 0),
                processed + spec_sum_units(cproc, fsd, i as int) == spec_sum_units(cproc, fsd, 0),
                classes as int == sat_cap(
                    spec_sum_units(ccls, fsd, 0) - spec_sum_units(ccls, fsd, i as int),
                ),
            decreases n - i,
        {
            let ghost rawd0 = raw.deep_view();
            proof {
                lemma_class_counter_nonneg(ex, th);
                lemma_sum_units_bounds(ccls, fsd, i as int);
                lemma_sum_units_bounds(ccls, fsd, i + 1);
                assert(fsd[i as int] == files@[i as int]@);
            }
            let f = &files[i];
            let pathv = str_chars(f.path.as_str());
            let cat = classify(&pathv);
            let excluded = self.should_exclude_path(f.path.as_str());
            if cat == FileCategory::Jar && !excluded {
                jar_count += 1;
                if self.should_process_file(f) {
                    let r = scan_jar_class(&qv, exact, f);
                    let ms = r.0;
                    let cnt = r.1;
                    let opened = r.2;
                    proof {
                        assert(ms.deep_view() == uq(fsd[i as int]));
                    }
                    append_results(&mut raw, ms);
                    classes = sat_add(classes, cnt);
                    if opened {
                        processed += 1;
                    }
                } else {
                    proof {
                        assert(uq(fsd[i as int]) =~= Seq::<MatchV>::empty());
                    }
                }
            } else {
                proof {
                    assert(!spec_is_cat(fsd[i as int], ex, FileCategory::Jar));
                    assert(uq(fsd[i as int]) =~= Seq::<MatchV>::empty());
                }
            }
            i += 1;
            proof {
                assert(raw.deep_view() + spec_fold_units(uq, fsd, i as int) =~= spec_fold_units(
                    uq,
                    fsd,
                    0,
                ));
            }
        }
        proof {
            assert(spec_fold_units(uq, fsd, n as int) =~= Seq::<MatchV>::empty());
            assert(raw.deep_view() =~= spec_fold_units(uq, fsd, 0));
        }
        self.stats.total_jars = jar_count;
        self.stats.files_processed = sat_add(self.stats.files_processed, processed);
        self.stats.total_class_files = sat_add(self.stats.total_class_files, classes);
        self.record_all(raw);
    }

    /// Search every jar under the tree for an exact class name.
    pub fn search_exact_class(&mut self, query: &str, files: &Vec<FileEntry>) -> (r: Result<
        (),
        SearchError,
    >)
        requires
            old(self).wf(),
        ensures
            r is Ok,
            final(self).wf(),
            final(self).cfg() == old(self).cfg(),
            final(self).agg() == agg_fold(
                old(self).agg(),
                spec_fold_units(
                    class_unit(query@, true, old(self).spec_excludes(), old(self).spec_threshold()),
                    files.deep_view(),
                    0,
                ),
                old(self).spec_mini(),
            ),
            final(self).spec_stats().total_jars as int == spec_sum_units(
                cat_counter(old(self).spec_excludes(), FileCategory::Jar),
                files.deep_view(),
                0,
            ),
            final(self).spec_stats().matches_found as int == sat_cap(
                old(self).spec_stats().matches_found + spec_fold_units(
                    class_unit(query@, true, old(self).spec_excludes(), old(self).spec_threshold()),
                    files.deep_view(),
                    0,
                ).len(),
            ),
    {
        self.search_class_mode(query, files, true);
        Ok(())
    }

    /// Search every jar under the tree for class names containing a
    /// substring.
    pub fn search_class_substring(&mut self, query: &str, files: &Vec<FileEntry>) -> (r: Result<
        (),
        SearchError,
    >)
        requires
            old(self).wf(),
        ensures
            r is Ok,
            final(self).wf(),
            final(self).cfg() == old(self).cfg(),
            final(self).agg() == agg_fold(
                old(self).agg(),
                spec_fold_units(
                    class_unit(
                        query@,
                        false,
                        old(self).spec_excludes(),
                        old(self).spec_threshold(),
                    ),
                    files.deep_view(),
                    0,
                ),
                old(self).spec_mini(),
            ),
            final(self).spec_stats().total_jars as int == spec_sum_units(
                cat_counter(old(self).spec_excludes(), FileCategory::Jar),
                files.deep_view(),
                0,
            ),
            final(self).spec_stats().matches_found as int == sat_cap(
                old(self).spec_stats().matches_found + spec_fold_units(
                    class_unit(
                        query@,
                        false,
                        old(self).spec_excludes(),
                        old(self).spec_threshold(),
                    ),
                    files.deep_view(),
                    0,
                ).len(),
            ),
    {
        self.search_class_mode(query, files, false);
        Ok(())
    }
}

/// The unit gate of a package search.
pub open spec fn package_unit(q: Seq<char>, excl: Seq<Seq<char>>, th: u64) -> spec_fn(
    FileEntryV,
) -> Seq<MatchV> {
    |fv: FileEntryV|
        if spec_is_cat(fv, excl, FileCategory::Jar) && spec_should_process(fv, excl, th) {
            spec_jar_package_unit(q, fv)
        } else {
            Seq::empty()
        }
}

/// The unit gate of a content search over jar files.
pub open spec fn content_unit(
    p: Seq<char>,
    types: Seq<Seq<char>>,
    excl: Seq<Seq<char>>,
    th: u64,
) -> spec_fn(FileEntryV) -> Seq<MatchV> {
    |fv: FileEntryV|
        if spec_is_cat(fv, excl, FileCategory::Jar) && spec_should_process(fv, excl, th) {
            spec_jar_content_unit(p, types, fv)
        } else {
            Seq::empty()
        }
}

/// Counts the class entries a content search sees.
pub open spec fn content_class_counter(excl: Seq<Seq<char>>, th: u64) -> spec_fn(
    FileEntryV,
) -> int {
    |fv: FileEntryV|
        if spec_is_cat(fv, excl, FileCategory::Jar) && spec_should_process(fv, excl, th) {
            spec_jar_content_counts(fv).0
        } else {
            0int
        }
}

/// Counts the source entries a content search sees.
pub open spec fn content_java_counter(excl: Seq<Seq<char>>, th: u64) -> spec_fn(
    FileEntryV,
) -> int {
    |fv: FileEntryV|
        if spec_is_cat(fv, excl, FileCategory::Jar) && spec_should_process(fv, excl, th) {
            spec_jar_content_counts(fv).1
        } else {
            0int
        }
}

/// Counts the other entries a content search sees.
pub open spec fn content_other_counter(excl: Seq<Seq<char>>, th: u64) -> spec_fn(
    FileEntryV,
) -> int {
    |fv: FileEntryV|
        if spec_is_cat(fv, excl, FileCategory::Jar) && spec_should_process(fv, excl, th) {
            spec_jar_content_counts(fv).2
        } else {
            0int
        }
}

proof fn lemma_content_counters_nonneg(excl: Seq<Seq<char>>, th: u64)
    ensures
        forall|fv: FileEntryV| 0 <= #[trigger] content_class_counter(excl, th)(fv),
        forall|fv: FileEntryV| 0 <= #[trigger] content_java_counter(excl, th)(fv),
        forall|fv: FileEntryV| 0 <= #[trigger] content_other_counter(excl, th)(fv),
{
    assert forall|fv: FileEntryV| 0 <= #[trigger] content_class_counter(excl, th)(fv) by {
        if zip_ok(fv.data) {
            lemma_entry_counts_bound(fv.data, 0);
        }
    }
    assert forall|fv: FileEntryV| 0 <= #[trigger] content_java_counter(excl, th)(fv) by {
        if zip_ok(fv.data) {
            lemma_entry_counts_bound(fv.data, 0);
        }
    }
    assert forall|fv: FileEntryV| 0 <= #[trigger] content_other_counter(excl, th)(fv) by {
        if zip_ok(fv.data) {
            lemma_entry_counts_bound(fv.data, 0);
        }
    }
}

impl JarTool {
    /// Search every jar under the tree for entries of a package, named
    /// in dotted form.
    pub fn search_package(&mut self, package: &str, files: &Vec<FileEntry>) -> (r: Result<
        (),
        SearchError,
    >)
        requires
            old(self).wf(),
        ensures
            r is Ok,
            final(self).wf(),
            final(self).cfg() == old(self).cfg(),
            final(self).agg() == agg_fold(
                old(self).agg(),
                spec_fold_units(
                    package_unit(package@, old(self).spec_excludes(), old(self).spec_threshold()),
                    files.deep_view(),
                    0,
                ),
                old(self).spec_mini(),
            ),
            final(self).spec_stats().total_jars as int == spec_sum_units(
                cat_counter(old(self).spec_excludes(), FileCategory::Jar),
                files.deep_view(),
                0,
            ),
            final(self).spec_stats().files_processed as int == sat_cap(
                old(self).spec_stats().files_processed + spec_sum_units(
                    jar_processed_counter(old(self).spec_excludes(), old(self).spec_threshold()),
                    files.deep_view(),
                    0,
                ),
            ),
            final(self).spec_stats().matches_found as int == sat_cap(
                old(self).spec_stats().matches_found + spec_fold_units(
                    package_unit(package@, old(self).spec_excludes(), old(self).spec_threshold()),
                    files.deep_view(),
                    0,
                ).len(),
            ),
            final(self).spec_stats().total_class_files == old(self).spec_stats().total_class_files,
            final(self).spec_stats().total_zip_files == old(self).spec_stats().total_zip_files,
            final(self).spec_stats().total_java_files == old(self).spec_stats().total_java_files,
            final(self).spec_stats().total_other_files == old(self).spec_stats().total_other_files,
            final(self).spec_stats().elapsed_millis == old(self).spec_stats().elapsed_millis,
    {
        let ghost ex = self.spec_excludes();
        let ghost th = self.spec_threshold();
        let ghost fsd = files.deep_view();
        let ghost uq = package_unit(package@, ex, th);
        let ghost cjar = cat_counter(ex, FileCategory::Jar);
        let ghost cproc = jar_processed_counter(ex, th);
        let qv = str_chars(package);
        let mut raw: Vec<SearchResult> = Vec::new();
        let mut jar_count: usize = 0;
        let mut processed: usize = 0;
        let n = files.len();
        let mut i: usize = 0;
        while i < n
            invariant
                i <= n,
                n == fsd.len(),
                fsd == files.deep_view(),
                *self == *old(self),
                qv@ == package@,
                ex == self.spec_excludes(),
                th == self.spec_threshold(),
                uq == package_unit(package@, ex, th),
                cjar == cat_counter(ex, FileCategory::Jar),
                cproc == jar_processed_counter(ex, th),
                jar_count <= i,
                processed <= i,
                raw.deep_view() + spec_fold_units(uq, fsd, i as int) == spec_fold_units(uq, fsd, 0),
                jar_count + spec_sum_units(cjar, fsd, i as int) == spec_sum_units(cjar, fsd, 0),
                processed + spec_sum_units(cproc, fsd, i as int) == spec_sum_units(cproc, fsd, 0),
            decreases n - i,
        {
            proof {
                assert(fsd[i as int] == files@[i as int]@);
            }
            let f = &files[i];
            let pathv = str_chars(f.path.as_str());
            let cat = classify(&pathv);
            let excluded = self.should_exclude_path(f.path.as_str());
            if cat == FileCategory::Jar && !excluded {
                jar_count += 1;
                if self.should_process_file(f) {
                    let r = scan_jar_package(&qv, f);
                    proof {
                        assert(r.0.deep_view() == uq(fsd[i as int]));
                    }
                    let opened = r.1;
                    append_results(&mut raw, r.0);
                    if opened {
                        processed += 1;
                    }
                } else {
                    proof {
                        assert(uq(fsd[i as int]) =~= Seq::<MatchV>::empty());
                    }
                }
            } else {
                proof {
                    assert(!spec_is_cat(fsd[i as int], ex, FileCategory::Jar));
                    assert(uq(fsd[i as int]) =~= Seq::<MatchV>::empty());
                }
            }
            i += 1;
            proof {
                assert(raw.deep_view() + spec_fold_units(uq, fsd, i as int) =~= spec_fold_units(
                    uq,
                    fsd,
                    0,
                ));
            }
        }
        proof {
            assert(spec_fold_units(uq, fsd, n as int) =~= Seq::<MatchV>::empty());
            assert(raw.deep_view() =~= spec_fold_units(uq, fsd, 0));
        }
        self.stats.total_jars = jar_count;
        self.stats.files_processed = sat_add(self.stats.files_processed, processed);
        self.record_all(raw);
        Ok(())
    }

    /// Search every jar under the tree for content matching a pattern,
    /// in the entry kinds the type list admits. An invalid pattern
    /// fails the whole operation before any unit is touched.
    pub fn search_content(
        &mut self,
        pattern: &str,
        files: &Vec<FileEntry>,
        file_types: &Vec<String>,
    ) -> (r: Result<(), SearchError>)
        requires
            old(self).wf(),
        ensures
            r is Ok <==> regex_valid(pattern@),
            r is Err ==> *final(self) == *old(self),
            r is Err ==> r == Result::<(), SearchError>::Err(SearchError::InvalidPattern),
            final(self).wf(),
            final(self).cfg() == old(self).cfg(),
            r is Ok ==> final(self).agg() == agg_fold(
                old(self).agg(),
                spec_fold_units(
                    content_unit(
                        pattern@,
                        file_types.deep_view(),
                        old(self).spec_excludes(),
                        old(self).spec_threshold(),
                    ),
                    files.deep_view(),
                    0,
                ),
                old(self).spec_mini(),
            ),
            r is Ok ==> final(self).spec_stats().total_jars as int == spec_sum_units(
                cat_counter(old(self).spec_excludes(), FileCategory::Jar),
                files.deep_view(),
                0,
            ),
            r is Ok ==> final(self).spec_stats().files_processed as int == sat_cap(
                old(self).spec_stats().files_processed + spec_sum_units(
                    jar_processed_counter(old(self).spec_excludes(), old(self).spec_threshold()),
                    files.deep_view(),
                    0,
                ),
            ),
            r is Ok ==> final(self).spec_stats().total_class_files as int == sat_cap(
                old(self).spec_stats().total_class_files + spec_sum_units(
                    content_class_counter(old(self).spec_excludes(), old(self).spec_threshold()),
                    files.deep_view(),
                    0,
                ),
            ),
            r is Ok ==> final(self).spec_stats().total_java_files as int == sat_cap(
                old(self).spec_stats().total_java_files + spec_sum_units(
                    content_java_counter(old(self).spec_excludes(), old(self).spec_threshold()),
                    files.deep_view(),
                    0,
                ),
            ),
            r is Ok ==> final(self).spec_stats().total_other_files as int == sat_cap(
                old(self).spec_stats().total_other_files + spec_sum_units(
                    content_other_counter(old(self).spec_excludes(), old(self).spec_threshold()),
                    files.deep_view(),
                    0,
                ),
            ),
            r is Ok ==> final(self).spec_stats().matches_found as int == sat_cap(
                old(self).spec_stats().matches_found + spec_fold_units(
                    content_unit(
                        pattern@,
                        file_types.deep_view(),
                        old(self).spec_excludes(),
                        old(self).spec_threshold(),
                    ),
                    files.deep_view(),
                    0,
                ).len(),
            ),
            final(self).spec_stats().total_zip_files == old(self).spec_stats().total_zip_files,
            final(self).spec_stats().elapsed_millis == old(self).spec_stats().elapsed_millis,
    {
        let re = match regex_new(pattern) {
            Some(re) => re,
            None => {
                return Err(SearchError::InvalidPattern);
            },
        };
        let ghost p = pattern@;
        let ghost tys = file_types.deep_view();
        let ghost ex = self.spec_excludes();
        let ghost th = self.spec_threshold();
        let ghost fsd = files.deep_view();
        let ghost uq = content_unit(p, tys, ex, th);
        let ghost cjar = cat_counter(ex, FileCategory::Jar);
        let ghost cproc = jar_processed_counter(ex, th);
        let ghost ccls = content_class_counter(ex, th);
        let ghost cjav = content_java_counter(ex, th);
        let ghost coth = content_other_counter(ex, th);
        let mut raw: Vec<SearchResult> = Vec::new();
        let mut jar_count: usize = 0;
        let mut processed: usize = 0;
        let mut classes: usize = 0;
        let mut javas: usize = 0;
        let mut others: usize = 0;
        let n = files.len();
        let mut i: usize = 0;
        proof {
            lemma_content_counters_nonneg(ex, th);
            lemma_sum_units_bounds(ccls, fsd, 0);
            lemma_sum_units_bounds(cjav, fsd, 0);
            lemma_sum_units_bounds(coth, fsd, 0);
        }
        while i < n
            invariant
                i <= n,
                n == fsd.len(),
                fsd == files.deep_view(),
                *self == *old(self),
                regex_source(re) == p,
                ex == self.spec_excludes(),
                th == self.spec_threshold(),
                tys == file_types.deep_view(),
                uq == content_unit(p, tys, ex, th),
                cjar == cat_counter(ex, FileCategory::Jar),
                cproc == jar_processed_counter(ex, th),
                ccls == content_class_counter(ex, th),
                cjav == content_java_counter(ex, th),
                coth == content_other_counter(ex, th),
                jar_count <= i,
                processed <= i,
                raw.deep_view() + spec_fold_units(uq, fsd, i as int) == spec_fold_units(uq, fsd, 0),
                jar_count + spec_sum_units(cjar, fsd, i as int) == spec_sum_units(cjar, fsd, 0),
                processed + spec_sum_units(cproc, fsd, i as int) == spec_sum_units(cproc, fsd, 0),
                classes as int == sat_cap(
                    spec_sum_units(ccls, fsd, 0) - spec_sum_units(ccls, fsd, i as int),
                ),
                javas as int == sat_cap(
                    spec_sum_units(cjav, fsd, 0) - spec_sum_units(cjav, fsd, i as int),
                ),
                others as int == sat_cap(
                    spec_sum_units(coth, fsd, 0) - spec_sum_units(coth, fsd, i as int),
                ),
            decreases n - i,
        {
            proof {
                lemma_content_counters_nonneg(ex, th);
                lemma_sum_units_bounds(ccls, fsd, i as int);
                lemma_sum_units_bounds(ccls, fsd, i + 1);
                lemma_sum_units_bounds(cjav, fsd, i as int);
                lemma_sum_units_bounds(cjav, fsd, i + 1);
                lemma_sum_units_bounds(coth, fsd, i as int);
                lemma_sum_units_bounds(coth, fsd, i + 1);
                assert(fsd[i as int] == files@[i as int]@);
            }
            let f = &files[i];
            let pathv = str_chars(f.path.as_str());
            let cat = classify(&pathv);
            let excluded = self.should_exclude_path(f.path.as_str());
            if cat == FileCategory::Jar && !excluded {
                jar_count += 1;
                if self.should_process_file(f) {
                    let r = scan_jar_content(&re, file_types, f);
                    proof {
                        assert(r.0.deep_view() == uq(fsd[i as int]));
                    }
                    let opened = r.4;
                    append_results(&mut raw, r.0);
                    classes = sat_add(classes, r.1);
                    javas = sat_add(javas, r.2);
                    others = sat_add(others, r.3);
                    if opened {
                        processed += 1;
                    }
                } else {
                    proof {
                        assert(uq(fsd[i as int]) =~= Seq::<MatchV>::empty());
                    }
                }
            } else {
                proof {
                    assert(!spec_is_cat(fsd[i as int], ex, FileCategory::Jar));
                    assert(uq(fsd[i as int]) =~= Seq::<MatchV>::empty());
                }
            }
            i += 1;
            proof {
                assert(raw.deep_view() + spec_fold_units(uq, fsd, i as int) =~= spec_fold_units(
                    uq,
                    fsd,
                    0,
                ));
            }
        }
        proof {
            assert(spec_fold_units(uq, fsd, n as int) =~= Seq::<MatchV>::empty());
            assert(raw.deep_view() =~= spec_fold_units(uq, fsd, 0));
        }
        self.stats.total_jars = jar_count;
        self.stats.files_processed = sat_add(self.stats.files_processed, processed);
        self.stats.total_class_files = sat_add(self.stats.total_class_files, classes);
        self.stats.total_java_files = sat_add(self.stats.total_java_files, javas);
        self.stats.total_other_files = sat_add(self.stats.total_other_files, others);
        self.record_all(raw);
        Ok(())
    }
}

/// A loose file: neither a container nor a source file, in master mode
/// scanned as text with a binary fallback.
pub open spec fn spec_is_loose(fv: FileEntryV, excl: Seq<Seq<char>>) -> bool {
    &&& !spec_excluded(fv.path, excl)
    &&& spec_classify(fv.path) != FileCategory::Jar
    &&& spec_classify(fv.path) != FileCategory::ZipFamily
    &&& spec_classify(fv.path) != FileCategory::Java
}

/// Counts one for each non-excluded loose file.
pub open spec fn loose_counter(excl: Seq<Seq<char>>) -> spec_fn(FileEntryV) -> int {
    |fv: FileEntryV| if spec_is_loose(fv, excl) { 1int } else { 0int }
}

/// The unit gate of the text-only zip-family phase.
pub open spec fn zip_unit(p: Seq<char>, excl: Seq<Seq<char>>, th: u64) -> spec_fn(
    FileEntryV,
) -> Seq<MatchV> {
    |fv: FileEntryV|
        if spec_is_cat(fv, excl, FileCategory::ZipFamily) && spec_should_process(fv, excl, th) {
            spec_zip_text_unit(p, fv)
        } else {
            Seq::empty()
        }
}

/// Counts the zip-family containers fully processed.
pub open spec fn zip_processed_counter(excl: Seq<Seq<char>>, th: u64) -> spec_fn(
    FileEntryV,
) -> int {
    |fv: FileEntryV|
        if spec_is_cat(fv, excl, FileCategory::ZipFamily) && spec_should_process(fv, excl, th)
            && zip_ok(fv.data) {
            1int
        } else {
            0int
        }
}

/// The unit gate of the source-file phase: line-by-line text scan,
/// undecodable lines skipped one by one, no binary fallback.
pub open spec fn javafile_unit(p: Seq<char>, excl: Seq<Seq<char>>, th: u64) -> spec_fn(
    FileEntryV,
) -> Seq<MatchV> {
    |fv: FileEntryV|
        if spec_is_cat(fv, excl, FileCategory::Java) && spec_should_process(fv, excl, th) {
            spec_loose_unit(p, fv, false)
        } else {
            Seq::empty()
        }
}

/// Counts the source files fully processed.
pub open spec fn javafile_processed_counter(excl: Seq<Seq<char>>, th: u64) -> spec_fn(
    FileEntryV,
) -> int {
    |fv: FileEntryV|
        if spec_is_cat(fv, excl, FileCategory::Java) && spec_should_process(fv, excl, th) {
            1int
        } else {
            0int
        }
}

/// The unit gate of the loose-file phase: line-by-line text scan with
/// one binary fallback at the first line whose bytes do not decode.
pub open spec fn loose_unit(p: Seq<char>, excl: Seq<Seq<char>>, th: u64) -> spec_fn(
    FileEntryV,
) -> Seq<MatchV> {
    |fv: FileEntryV|
        if spec_is_loose(fv, excl) && spec_should_process(fv, excl, th) {
            spec_loose_unit(p, fv, true)
        } else {
            Seq::empty()
        }
}

/// Counts the loose files fully processed.
pub open spec fn loose_processed_counter(excl: Seq<Seq<char>>, th: u64) -> spec_fn(
    FileEntryV,
) -> int {
    |fv: FileEntryV|
        if spec_is_loose(fv, excl) && spec_should_process(fv, excl, th) {
            1int
        } else {
            0int
        }
}

/// Everything a master search records, in phase order: jar containers
/// with every entry kind admitted, zip-family containers as text,
/// source files, then all other loose files.
pub open spec fn spec_master_raw(
    p: Seq<char>,
    excl: Seq<Seq<char>>,
    th: u64,
    fs: Seq<FileEntryV>,
) -> Seq<MatchV> {
    spec_fold_units(content_unit(p, seq!["*"@], excl, th), fs, 0) + spec_fold_units(
        zip_unit(p, excl, th),
        fs,
        0,
    ) + spec_fold_units(javafile_unit(p, excl, th), fs, 0) + spec_fold_units(
        loose_unit(p, excl, th),
        fs,
        0,
    )
}

/// The pattern a source-file search compiles: the query itself for a
/// content search, else the query escaped to match literally anywhere.
pub open spec fn java_pattern(q: Seq<char>, content: bool) -> Seq<char> {
    if content {
        q
    } else {
        ".*"@ + regex_escaped(q) + ".*"@
    }
}

/// A source-file name match.
pub open spec fn java_name_match(path: Seq<char>) -> MatchV {
    MatchV {
        location: path,
        line: None,
        content: "Java file name match"@,
        category: "java_filename"@,
    }
}

/// The unit gate of a file-name search over source files: a kept
/// source file whose name the pattern matches yields one name match.
pub open spec fn javaname_unit(p: Seq<char>, excl: Seq<Seq<char>>) -> spec_fn(FileEntryV) -> Seq<
    MatchV,
> {
    |fv: FileEntryV|
        if spec_is_cat(fv, excl, FileCategory::Java) && regex_match(p, spec_file_name(fv.path)) {
            seq![java_name_match(fv.path)]
        } else {
            Seq::empty()
        }
}

impl JarTool {
    /// The export table: a header row, then one four-field row per
    /// admitted match, an absent line number as an empty field.
    pub fn export_csv(&self) -> (rows: Vec<Vec<String>>)
        ensures
            rows.deep_view().len() == self.agg().results.len() + 1,
            rows.deep_view()[0] == seq!["file_location"@, "line"@, "line_content"@, "match_type"@],
            forall|i: int|
                0 <= i < self.agg().results.len() ==> #[trigger] rows.deep_view()[i + 1]
                    == crate::records::spec_record_of(self.agg().results[i]),
    {
        let mut rows: Vec<Vec<String>> = Vec::new();
        rows.push(crate::records::export_header());
        let mut i: usize = 0;
        while i < self.results.len()
            invariant
                i <= self.results@.len(),
                rows.deep_view().len() == i + 1,
                rows.deep_view()[0] == seq![
                    "file_location"@,
                    "line"@,
                    "line_content"@,
                    "match_type"@,
                ],
                forall|j: int|
                    0 <= j < i ==> #[trigger] rows.deep_view()[j + 1]
                        == crate::records::spec_record_of(self.results.deep_view()[j]),
            decreases self.results@.len() - i,
        {
            let row = crate::records::record_of(&self.results[i]);
            proof {
                assert(row.deep_view() == crate::records::spec_record_of(
                    self.results.deep_view()[i as int],
                ));
            }
            let ghost rd0 = rows.deep_view();
            let ghost rowd = row.deep_view();
            rows.push(row);
            proof {
                assert(rows.deep_view() =~= rd0.push(rowd));
                assert forall|j: int| 0 <= j < i + 1 implies #[trigger] rows.deep_view()[j + 1]
                    == crate::records::spec_record_of(self.results.deep_view()[j]) by {
                    if j < i {
                        assert(rows.deep_view()[j + 1] == rd0[j + 1]);
                    } else {
                        assert(rows.deep_view()[j + 1] == rowd);
                    }
                }
            }
            i += 1;
        }
        rows
    }

    /// Count one container's class entries, source entries, and
    /// payload entries, for the analysis report.
    pub fn count_jar_contents(&self, f: &FileEntry) -> (r: (usize, usize, usize))
        ensures
            r.0 as int == crate::units::spec_jar_content_counts(f@).0,
            r.1 as int == crate::units::spec_jar_content_counts(f@).1,
            r.2 as int == crate::units::spec_jar_content_counts(f@).0
                + crate::units::spec_jar_content_counts(f@).1
                + crate::units::spec_jar_content_counts(f@).2,
    {
        crate::units::count_entries(f)
    }

    /// The zip-family phase: every kept zip-family container, all of
    /// its entries scanned as text.
    fn zip_phase(&self, re: &regex::Regex, files: &Vec<FileEntry>) -> (r: (
        Vec<SearchResult>,
        usize,
    ))
        ensures
            r.0.deep_view() == spec_fold_units(
                zip_unit(regex_source(*re), self.spec_excludes(), self.spec_threshold()),
                files.deep_view(),
                0,
            ),
            r.1 as int == spec_sum_units(
                zip_processed_counter(self.spec_excludes(), self.spec_threshold()),
                files.deep_view(),
                0,
            ),
    {
        let ghost ex = self.spec_excludes();
        let ghost th = self.spec_threshold();
        let ghost fsd = files.deep_view();
        let ghost p = regex_source(*re);
        let ghost uq = zip_unit(p, ex, th);
        let ghost cproc = zip_processed_counter(ex, th);
        let mut raw: Vec<SearchResult> = Vec::new();
        let mut processed: usize = 0;
        let n = files.len();
        let mut i: usize = 0;
        while i < n
            invariant
                i <= n,
                n == fsd.len(),
                fsd == files.deep_view(),
                p == regex_source(*re),
                ex == self.spec_excludes(),
                th == self.spec_threshold(),
                uq == zip_unit(p, ex, th),
                cproc == zip_processed_counter(ex, th),
                processed <= i,
                raw.deep_view() + spec_fold_units(uq, fsd, i as int) == spec_fold_units(uq, fsd, 0),
                processed + spec_sum_units(cproc, fsd, i as int) == spec_sum_units(cproc, fsd, 0),
            decreases n - i,
        {
            proof {
                assert(fsd[i as int] == files@[i as int]@);
            }
            let f = &files[i];
            let pathv = str_chars(f.path.as_str());
            let cat = classify(&pathv);
            let excluded = self.should_exclude_path(f.path.as_str());
            if cat == FileCategory::ZipFamily && !excluded && self.should_process_file(f) {
                let r = scan_zip_text(re, f);
                proof {
                    assert(r.0.deep_view() == uq(fsd[i as int]));
                }
                let opened = r.1;
                append_results(&mut raw, r.0);
                if opened {
                    processed += 1;
                }
            } else {
                proof {
                    assert(uq(fsd[i as int]) =~= Seq::<MatchV>::empty());
                }
            }
            i += 1;
            proof {
                assert(raw.deep_view() + spec_fold_units(uq, fsd, i as int) =~= spec_fold_units(
                    uq,
                    fsd,
                    0,
                ));
            }
        }
        proof {
            assert(spec_fold_units(uq, fsd, n as int) =~= Seq::<MatchV>::empty());
            assert(raw.deep_view() =~= spec_fold_units(uq, fsd, 0));
        }
        (raw, processed)
    }

    /// The source-file phase: every kept source file scanned as text,
    /// without a binary fallback.
    fn java_content_phase(&self, re: &regex::Regex, files: &Vec<FileEntry>) -> (r: (
        Vec<SearchResult>,
        usize,
    ))
        ensures
            r.0.deep_view() == spec_fold_units(
                javafile_unit(regex_source(*re), self.spec_excludes(), self.spec_threshold()),
                files.deep_view(),
                0,
            ),
            r.1 as int == spec_sum_units(
                javafile_processed_counter(self.spec_excludes(), self.spec_threshold()),
                files.deep_view(),
                0,
            ),
    {
        let ghost ex = self.spec_excludes();
        let ghost th = self.spec_threshold();
        let ghost fsd = files.deep_view();
        let ghost p = regex_source(*re);
        let ghost uq = javafile_unit(p, ex, th);
        let ghost cproc = javafile_processed_counter(ex, th);
        let mut raw: Vec<SearchResult> = Vec::new();
        let mut processed: usize = 0;
        let n = files.len();
        let mut i: usize = 0;
        while i < n
            invariant
                i <= n,
                n == fsd.len(),
                fsd == files.deep_view(),
                p == regex_source(*re),
                ex == self.spec_excludes(),
                th == self.spec_threshold(),
                uq == javafile_unit(p, ex, th),
                cproc == javafile_processed_counter(ex, th),
                processed <= i,
                raw.deep_view() + spec_fold_units(uq, fsd, i as int) == spec_fold_units(uq, fsd, 0),
                processed + spec_sum_units(cproc, fsd, i as int) == spec_sum_units(cproc, fsd, 0),
            decreases n - i,
        {
            proof {
                assert(fsd[i as int] == files@[i as int]@);
            }
            let f = &files[i];
            let pathv = str_chars(f.path.as_str());
            let cat = classify(&pathv);
            let excluded = self.should_exclude_path(f.path.as_str());
            if cat == FileCategory::Java && !excluded && self.should_process_file(f) {
                let ms = scan_loose_file(re, f, false);
                proof {
                    assert(ms.deep_view() == uq(fsd[i as int]));
                }
                append_results(&mut raw, ms);
                processed += 1;
            } else {
                proof {
                    assert(uq(fsd[i as int]) =~= Seq::<MatchV>::empty());
                }
            }
            i += 1;
            proof {
                assert(raw.deep_view() + spec_fold_units(uq, fsd, i as int) =~= spec_fold_units(
                    uq,
                    fsd,
                    0,
                ));
            }
        }
        proof {
            assert(spec_fold_units(uq, fsd, n as int) =~= Seq::<MatchV>::empty());
            assert(raw.deep_view() =~= spec_fold_units(uq, fsd, 0));
        }
        (raw, processed)
    }

    /// The loose-file phase: every other kept file scanned as text,
    /// with the binary fallback.
    fn loose_phase(&self, re: &regex::Regex, files: &Vec<FileEntry>) -> (r: (
        Vec<SearchResult>,
        usize,
    ))
        ensures
            r.0.deep_view() == spec_fold_units(
                loose_unit(regex_source(*re), self.spec_excludes(), self.spec_threshold()),
                files.deep_view(),
                0,
            ),
            r.1 as int == spec_sum_units(
                loose_processed_counter(self.spec_excludes(), self.spec_threshold()),
                files.deep_view(),
                0,
            ),
    {
        let ghost ex = self.spec_excludes();
        let ghost th = self.spec_threshold();
        let ghost fsd = files.deep_view();
        let ghost p = regex_source(*re);
        let ghost uq = loose_unit(p, ex, th);
        let ghost cproc = loose_processed_counter(ex, th);
        let mut raw: Vec<SearchResult> = Vec::new();
        let mut processed: usize = 0;
        let n = files.len();
        let mut i: usize = 0;
        while i < n
            invariant
                i <= n,
                n == fsd.len(),
                fsd == files.deep_view(),
                p == regex_source(*re),
                ex == self.spec_excludes(),
                th == self.spec_threshold(),
                uq == loose_unit(p, ex, th),
                cproc == loose_processed_counter(ex, th),
                processed <= i,
                raw.deep_view() + spec_fold_units(uq, fsd, i as int) == spec_fold_units(uq, fsd, 0),
                processed + spec_sum_units(cproc, fsd, i as int) == spec_sum_units(cproc, fsd, 0),
            decreases n - i,
        {
            proof {
                assert(fsd[i as int] == files@[i as int]@);
            }
            let f = &files[i];
            let pathv = str_chars(f.path.as_str());
            let cat = classify(&pathv);
            let excluded = self.should_exclude_path(f.path.as_str());
            let is_loose = cat != FileCategory::Jar && cat != FileCategory::ZipFamily && cat
                != FileCategory::Java;
            if is_loose && !excluded && self.should_process_file(f) {
                let ms = scan_loose_file(re, f, true);
                proof {
                    assert(ms.deep_view() == uq(fsd[i as int]));
                }
                append_results(&mut raw, ms);
                processed += 1;
            } else {
                proof {
                    assert(uq(fsd[i as int]) =~= Seq::<MatchV>::empty());
                }
            }
            i += 1;
            proof {
                assert(raw.deep_view() + spec_fold_units(uq, fsd, i as int) =~= spec_fold_units(
                    uq,
                    fsd,
                    0,
                ));
            }
        }
        proof {
            assert(spec_fold_units(uq, fsd, n as int) =~= Seq::<MatchV>::empty());
            assert(raw.deep_view() =~= spec_fold_units(uq, fsd, 0));
        }
        (raw, processed)
    }
}

impl JarTool {
    /// Master mode: search everywhere. Jar containers are scanned with
    /// every entry kind admitted, zip-family containers as text only,
    /// source files and all other loose files line by line — the loose
    /// files with a binary fallback. An invalid pattern fails the whole
    /// operation before any traversal.
    pub fn master_search(&mut self, pattern: &str, files: &Vec<FileEntry>) -> (r: Result<
        (),
        SearchError,
    >)
        requires
            old(self).wf(),
        ensures
            r is Ok <==> regex_valid(pattern@),
            r is Err ==> *final(self) == *old(self),
            r is Err ==> r == Result::<(), SearchError>::Err(SearchError::InvalidPattern),
            final(self).wf(),
            final(self).cfg() == old(self).cfg(),
            r is Ok ==> final(self).agg() == agg_fold(
                old(self).agg(),
                spec_master_raw(
                    pattern@,
                    old(self).spec_excludes(),
                    old(self).spec_threshold(),
                    files.deep_view(),
                ),
                old(self).spec_mini(),
            ),
            r is Ok ==> final(self).spec_stats().total_jars as int == spec_sum_units(
                cat_counter(old(self).spec_excludes(), FileCategory::Jar),
                files.deep_view(),
                0,
            ),
            r is Ok ==> final(self).spec_stats().total_zip_files as int == spec_sum_units(
                cat_counter(old(self).spec_excludes(), FileCategory::ZipFamily),
                files.deep_view(),
                0,
            ),
            r is Ok ==> final(self).spec_stats().total_java_files as int == sat_cap(
                spec_sum_units(
                    cat_counter(old(self).spec_excludes(), FileCategory::Java),
                    files.deep_view(),
                    0,
                ) + spec_sum_units(
                    content_java_counter(old(self).spec_excludes(), old(self).spec_threshold()),
                    files.deep_view(),
                    0,
                ),
            ),
            r is Ok ==> final(self).spec_stats().total_other_files as int == sat_cap(
                spec_sum_units(loose_counter(old(self).spec_excludes()), files.deep_view(), 0)
                    + spec_sum_units(
                    content_other_counter(old(self).spec_excludes(), old(self).spec_threshold()),
                    files.deep_view(),
                    0,
                ),
            ),
            r is Ok ==> final(self).spec_stats().total_class_files as int == sat_cap(
                old(self).spec_stats().total_class_files + spec_sum_units(
                    content_class_counter(old(self).spec_excludes(), old(self).spec_threshold()),
                    files.deep_view(),
                    0,
                ),
            ),
            r is Ok ==> final(self).spec_stats().files_processed as int == sat_cap(
                old(self).spec_stats().files_processed + spec_sum_units(
                    jar_processed_counter(old(self).spec_excludes(), old(self).spec_threshold()),
                    files.deep_view(),
                    0,
                ) + spec_sum_units(
                    zip_processed_counter(old(self).spec_excludes(), old(self).spec_threshold()),
                    files.deep_view(),
                    0,
                ) + spec_sum_units(
                    javafile_processed_counter(old(self).spec_excludes(), old(self).spec_threshold()),
                    files.deep_view(),
                    0,
                ) + spec_sum_units(
                    loose_processed_counter(old(self).spec_excludes(), old(self).spec_threshold()),
                    files.deep_view(),
                    0,
                ),
            ),
            r is Ok ==> final(self).spec_stats().matches_found as int == sat_cap(
                old(self).spec_stats().matches_found + spec_master_raw(
                    pattern@,
                    old(self).spec_excludes(),
                    old(self).spec_threshold(),
                    files.deep_view(),
                ).len(),
            ),
            final(self).spec_stats().elapsed_millis == old(self).spec_stats().elapsed_millis,
    {
        let re = match regex_new(pattern) {
            Some(re) => re,
            None => {
                return Err(SearchError::InvalidPattern);
            },
        };
        let ghost ex = self.spec_excludes();
        let ghost th = self.spec_threshold();
        let ghost fsd = files.deep_view();
        let ghost czip = cat_counter(ex, FileCategory::ZipFamily);
        let ghost cjava = cat_counter(ex, FileCategory::Java);
        let ghost cloose = loose_counter(ex);
        let mut zips: usize = 0;
        let mut javas: usize = 0;
        let mut looses: usize = 0;
        let n = files.len();
        let mut i: usize = 0;
        while i < n
            invariant
                i <= n,
                n == fsd.len(),
                fsd == files.deep_view(),
                *self == *old(self),
                ex == self.spec_excludes(),
                czip == cat_counter(ex, FileCategory::ZipFamily),
                cjava == cat_counter(ex, FileCategory::Java),
                cloose == loose_counter(ex),
                zips <= i,
                javas <= i,
                looses <= i,
                zips + spec_sum_units(czip, fsd, i as int) == spec_sum_units(czip, fsd, 0),
                javas + spec_sum_units(cjava, fsd, i as int) == spec_sum_units(cjava, fsd, 0),
                looses + spec_sum_units(cloose, fsd, i as int) == spec_sum_units(cloose, fsd, 0),
            decreases n - i,
        {
            proof {
                assert(fsd[i as int] == files@[i as int]@);
            }
            let f = &files[i];
            let pathv = str_chars(f.path.as_str());
            let cat = classify(&pathv);
            let excluded = self.should_exclude_path(f.path.as_str());
            if !excluded {
                if cat == FileCategory::ZipFamily {
                    zips += 1;
                } else if cat == FileCategory::Java {
                    javas += 1;
                } else if cat != FileCategory::Jar {
                    looses += 1;
                }
            }
            i += 1;
        }
        self.stats.total_zip_files = zips;
        self.stats.total_java_files = javas;
        self.stats.total_other_files = looses;
        let ghost st1 = *self;
        let mut types: Vec<String> = Vec::new();
        types.push("*".to_owned());
        proof {
            assert(types.deep_view() =~= seq!["*"@]);
        }
        let cr = self.search_content(pattern, files, &types);
        proof {
            assert(cr is Ok);
        }
        let ghost agg1 = self.agg();
        let z = self.zip_phase(&re, files);
        self.stats.files_processed = sat_add(self.stats.files_processed, z.1);
        self.record_all(z.0);
        let ghost agg2 = self.agg();
        let j = self.java_content_phase(&re, files);
        self.stats.files_processed = sat_add(self.stats.files_processed, j.1);
        self.record_all(j.0);
        let ghost agg3 = self.agg();
        let l = self.loose_phase(&re, files);
        self.stats.files_processed = sat_add(self.stats.files_processed, l.1);
        self.record_all(l.0);
        proof {
            let r1 = spec_fold_units(content_unit(pattern@, seq!["*"@], ex, th), fsd, 0);
            let r2 = spec_fold_units(zip_unit(pattern@, ex, th), fsd, 0);
            let r3 = spec_fold_units(javafile_unit(pattern@, ex, th), fsd, 0);
            let r4 = spec_fold_units(loose_unit(pattern@, ex, th), fsd, 0);
            lemma_agg_fold_concat(old(self).agg(), r1, r2, old(self).spec_mini());
            lemma_agg_fold_concat(old(self).agg(), r1 + r2, r3, old(self).spec_mini());
            lemma_agg_fold_concat(old(self).agg(), r1 + r2 + r3, r4, old(self).spec_mini());
            assert(spec_master_raw(pattern@, ex, th, fsd) == r1 + r2 + r3 + r4);
        }
        Ok(())
    }

    /// Search source files: by content when asked, otherwise by file
    /// name against the query taken literally. Excluded paths yield no
    /// match and are not counted.
    pub fn search_java_files(
        &mut self,
        pattern: &str,
        files: &Vec<FileEntry>,
        content_search: bool,
    ) -> (r: Result<(), SearchError>)
        requires
            old(self).wf(),
        ensures
            r is Ok <==> regex_valid(java_pattern(pattern@, content_search)),
            r is Err ==> *final(self) == *old(self),
            r is Err ==> r == Result::<(), SearchError>::Err(SearchError::InvalidPattern),
            final(self).wf(),
            final(self).cfg() == old(self).cfg(),
            r is Ok ==> final(self).spec_stats().total_java_files as int == spec_sum_units(
                cat_counter(old(self).spec_excludes(), FileCategory::Java),
                files.deep_view(),
                0,
            ),
            r is Ok && content_search ==> final(self).agg() == agg_fold(
                old(self).agg(),
                spec_fold_units(
                    javafile_unit(pattern@, old(self).spec_excludes(), old(self).spec_threshold()),
                    files.deep_view(),
                    0,
                ),
                old(self).spec_mini(),
            ),
            r is Ok && content_search ==> final(self).spec_stats().files_processed as int
                == sat_cap(
                old(self).spec_stats().files_processed + spec_sum_units(
                    javafile_processed_counter(old(self).spec_excludes(), old(self).spec_threshold()),
                    files.deep_view(),
                    0,
                ),
            ),
            r is Ok && content_search ==> final(self).spec_stats().matches_found as int == sat_cap(
                old(self).spec_stats().matches_found + spec_fold_units(
                    javafile_unit(pattern@, old(self).spec_excludes(), old(self).spec_threshold()),
                    files.deep_view(),
                    0,
                ).len(),
            ),
            r is Ok && !content_search ==> final(self).agg() == agg_fold(
                old(self).agg(),
                spec_fold_units(
                    javaname_unit(java_pattern(pattern@, false), old(self).spec_excludes()),
                    files.deep_view(),
                    0,
                ),
                old(self).spec_mini(),
            ),
            r is Ok && !content_search ==> final(self).spec_stats().files_processed == old(
                self,
            ).spec_stats().files_processed,
            r is Ok && !content_search ==> final(self).spec_stats().matches_found as int
                == sat_cap(
                old(self).spec_stats().matches_found + spec_fold_units(
                    javaname_unit(java_pattern(pattern@, false), old(self).spec_excludes()),
                    files.deep_view(),
                    0,
                ).len(),
            ),
            final(self).spec_stats().total_jars == old(self).spec_stats().total_jars,
            final(self).spec_stats().total_zip_files == old(self).spec_stats().total_zip_files,
            final(self).spec_stats().total_class_files == old(self).spec_stats().total_class_files,
            final(self).spec_stats().total_other_files == old(self).spec_stats().total_other_files,
            final(self).spec_stats().elapsed_millis == old(self).spec_stats().elapsed_millis,
    {
        let re = if content_search {
            match regex_new(pattern) {
                Some(re) => re,
                None => {
                    return Err(SearchError::InvalidPattern);
                },
            }
        } else {
            let esc = regex_escape(pattern);
            let mut w = ".*".to_owned();
            w.append(esc.as_str());
            w.append(".*");
            proof {
                assert(w@ == java_pattern(pattern@, false));
            }
            match regex_new(w.as_str()) {
                Some(re) => re,
                None => {
                    return Err(SearchError::InvalidPattern);
                },
            }
        };
        let ghost p = regex_source(re);
        let ghost ex = self.spec_excludes();
        let ghost th = self.spec_threshold();
        let ghost fsd = files.deep_view();
        let ghost cjava = cat_counter(ex, FileCategory::Java);
        let mut javas: usize = 0;
        let n = files.len();
        let mut i: usize = 0;
        while i < n
            invariant
                i <= n,
                n == fsd.len(),
                fsd == files.deep_view(),
                *self == *old(self),
                ex == self.spec_excludes(),
                cjava == cat_counter(ex, FileCategory::Java),
                javas <= i,
                javas + spec_sum_units(cjava, fsd, i as int) == spec_sum_units(cjava, fsd, 0),
            decreases n - i,
        {
            proof {
                assert(fsd[i as int] == files@[i as int]@);
            }
            let f = &files[i];
            let pathv = str_chars(f.path.as_str());
            let cat = classify(&pathv);
            let excluded = self.should_exclude_path(f.path.as_str());
            if cat == FileCategory::Java && !excluded {
                javas += 1;
            }
            i += 1;
        }
        self.stats.total_java_files = javas;
        if content_search {
            let r = self.java_content_phase(&re, files);
            self.stats.files_processed = sat_add(self.stats.files_processed, r.1);
            self.record_all(r.0);
        } else {
            let ghost uq = javaname_unit(p, ex);
            let mut raw: Vec<SearchResult> = Vec::new();
            let mut k: usize = 0;
            while k < n
                invariant
                    k <= n,
                    n == fsd.len(),
                    fsd == files.deep_view(),
                    p == regex_source(re),
                    ex == self.spec_excludes(),
                    uq == javaname_unit(p, ex),
                    raw.deep_view() + spec_fold_units(uq, fsd, k as int) == spec_fold_units(
                        uq,
                        fsd,
                        0,
                    ),
                decreases n - k,
            {
                proof {
                    assert(fsd[k as int] == files@[k as int]@);
                }
                let f = &files[k];
                let pathv = str_chars(f.path.as_str());
                let cat = classify(&pathv);
                let excluded = self.should_exclude_path(f.path.as_str());
                if cat == FileCategory::Java && !excluded {
                    let namev = after_last(&pathv, '/');
                    if regex_is_match(&re, &namev) {
                        let m = SearchResult {
                            file_location: f.path.clone(),
                            line_number: None,
                            line_content: "Java file name match".to_owned(),
                            match_type: "java_filename".to_owned(),
                        };
                        let ghost rawd0 = raw.deep_view();
                        proof {
                            assert(m@ == java_name_match(fsd[k as int].path));
                        }
                        raw.push(m);
                        proof {
                            assert(raw.deep_view() =~= rawd0.push(
                                java_name_match(fsd[k as int].path),
                            ));
                            assert(uq(fsd[k as int]) =~= seq![java_name_match(fsd[k as int].path)]);
                        }
                    } else {
                        proof {
                            assert(uq(fsd[k as int]) =~= Seq::<MatchV>::empty());
                        }
                    }
                } else {
                    proof {
                        assert(uq(fsd[k as int]) =~= Seq::<MatchV>::empty());
                    }
                }
                k += 1;
                proof {
                    assert(raw.deep_view() + spec_fold_units(uq, fsd, k as int)
                        =~= spec_fold_units(uq, fsd, 0));
                }
            }
            proof {
                assert(spec_fold_units(uq, fsd, n as int) =~= Seq::<MatchV>::empty());
                assert(raw.deep_view() =~= spec_fold_units(uq, fsd, 0));
            }
            self.record_all(raw);
        }
        Ok(())
    }
}

} // verus!
