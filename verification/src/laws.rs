//! The engine's global laws: classification partitions the tree,
//! mini-mode counting, and determinism of a run over a fixed tree.
use vstd::prelude::*;
use crate::results::{AggState, MatchV, agg_step, agg_fold};
use crate::tool::{
    FileEntryV, JarTool, spec_excluded, spec_sum_units, cat_counter, loose_counter,
    spec_master_raw, spec_fold_units, content_unit, zip_unit, javafile_unit, loose_unit,
    class_unit, package_unit, javaname_unit,
};
use crate::units::{
    from_file, entry_location, lemma_jar_class_unit_from, lemma_jar_package_unit_from,
    lemma_jar_content_unit_from, lemma_zip_text_unit_from, lemma_loose_unit_from,
};
use crate::classify::FileCategory;

verus! {

/// Counts one for each non-excluded file, of whatever category.
pub open spec fn included_counter(excl: Seq<Seq<char>>) -> spec_fn(FileEntryV) -> int {
    |fv: FileEntryV| if !spec_excluded(fv.path, excl) { 1int } else { 0int }
}

/// Classification is total and exhaustive: every file the walker keeps
/// is assigned exactly one of the eight categories, so the per-category
/// counts sum to the number of files kept.
pub proof fn lemma_classification_partition(fs: Seq<FileEntryV>, excl: Seq<Seq<char>>, i: int)
    requires
        0 <= i <= fs.len(),
    ensures
        spec_sum_units(cat_counter(excl, FileCategory::Jar), fs, i) + spec_sum_units(
            cat_counter(excl, FileCategory::ZipFamily),
            fs,
            i,
        ) + spec_sum_units(cat_counter(excl, FileCategory::Java), fs, i) + spec_sum_units(
            cat_counter(excl, FileCategory::Config),
            fs,
            i,
        ) + spec_sum_units(cat_counter(excl, FileCategory::Script), fs, i) + spec_sum_units(
            cat_counter(excl, FileCategory::Markup),
            fs,
            i,
        ) + spec_sum_units(cat_counter(excl, FileCategory::Text), fs, i) + spec_sum_units(
            cat_counter(excl, FileCategory::Other),
            fs,
            i,
        ) == spec_sum_units(included_counter(excl), fs, i),
    decreases fs.len() - i,
{
    if i < fs.len() {
        lemma_classification_partition(fs, excl, i + 1);
    }
}

/// The loose bucket is exactly the five non-container, non-source
/// categories, so the master-mode partition also sums to the number of
/// files kept.
pub proof fn lemma_master_partition(fs: Seq<FileEntryV>, excl: Seq<Seq<char>>, i: int)
    requires
        0 <= i <= fs.len(),
    ensures
        spec_sum_units(cat_counter(excl, FileCategory::Jar), fs, i) + spec_sum_units(
            cat_counter(excl, FileCategory::ZipFamily),
            fs,
            i,
        ) + spec_sum_units(cat_counter(excl, FileCategory::Java), fs, i) + spec_sum_units(
            loose_counter(excl),
            fs,
            i,
        ) == spec_sum_units(included_counter(excl), fs, i),
    decreases fs.len() - i,
{
    if i < fs.len() {
        lemma_master_partition(fs, excl, i + 1);
    }
}

/// The locations a sequence of raw matches touches.
pub open spec fn locations_of(ms: Seq<MatchV>) -> Seq<Seq<char>> {
    ms.map_values(|m: MatchV| m.location)
}

proof fn lemma_locations_cons(ms: Seq<MatchV>)
    requires
        ms.len() > 0,
    ensures
        locations_of(ms).to_set() == locations_of(ms.drop_first()).to_set().insert(
            ms[0].location,
        ),
{
    let l = locations_of(ms);
    let lr = locations_of(ms.drop_first());
    assert(lr =~= l.drop_first());
    assert forall|a: Seq<char>| l.to_set().contains(a) implies lr.to_set().insert(
        ms[0].location,
    ).contains(a) by {
        let i = choose|i: int| 0 <= i < l.len() && l[i] == a;
        if i > 0 {
            assert(lr[i - 1] == a);
            assert(lr.contains(a));
        }
    }
    assert forall|a: Seq<char>| lr.to_set().insert(ms[0].location).contains(a) implies
        l.to_set().contains(a) by {
        if a == ms[0].location {
            assert(l[0] == a);
            assert(l.contains(a));
        } else {
            let j = choose|j: int| 0 <= j < lr.len() && lr[j] == a;
            assert(l[j + 1] == a);
            assert(l.contains(a));
        }
    }
    assert(l.to_set() =~= lr.to_set().insert(ms[0].location));
}

proof fn lemma_agg_fold_mini(st: AggState, ms: Seq<MatchV>)
    requires
        st.seen.no_duplicates(),
        st.results.len() == st.seen.len(),
    ensures
        agg_fold(st, ms, true).seen.no_duplicates(),
        agg_fold(st, ms, true).results.len() == agg_fold(st, ms, true).seen.len(),
        agg_fold(st, ms, true).seen.to_set() == st.seen.to_set().union(
            locations_of(ms).to_set(),
        ),
    decreases ms.len(),
{
    if ms.len() == 0 {
        assert(locations_of(ms).to_set() =~= Set::<Seq<char>>::empty());
        assert(st.seen.to_set().union(locations_of(ms).to_set()) =~= st.seen.to_set());
    } else {
        let m = ms[0];
        let rest = ms.drop_first();
        let st1 = agg_step(st, m, true);
        assert(locations_of(rest) =~= locations_of(ms).drop_first());
        if st.seen.contains(m.location) {
            assert(st1 == st);
            lemma_agg_fold_mini(st, rest);
            lemma_locations_cons(ms);
            assert(st.seen.to_set().contains(m.location));
            assert(st.seen.to_set().union(locations_of(rest).to_set()) =~= st.seen.to_set().union(
                locations_of(ms).to_set(),
            ));
        } else {
            assert(st1.seen == st.seen.push(m.location));
            assert forall|a: int, b: int|
                0 <= a < st1.seen.len() && 0 <= b < st1.seen.len() && a != b implies st1.seen[a]
                != st1.seen[b] by {
                if a < st.seen.len() && b < st.seen.len() {
                    assert(st.seen[a] != st.seen[b]);
                } else if a == st.seen.len() {
                    assert(st.seen.contains(st.seen[b]));
                } else if b == st.seen.len() {
                    assert(st.seen.contains(st.seen[a]));
                }
            }
            assert(st1.seen.no_duplicates());
            lemma_agg_fold_mini(st1, rest);
            lemma_locations_cons(ms);
            assert forall|a: Seq<char>| st1.seen.to_set().contains(a) implies
                st.seen.to_set().insert(m.location).contains(a) by {
                let i = choose|i: int| 0 <= i < st1.seen.len() && st1.seen[i] == a;
                if i < st.seen.len() {
                    assert(st.seen.contains(a));
                }
            }
            assert forall|a: Seq<char>| st.seen.to_set().insert(m.location).contains(a) implies
                st1.seen.to_set().contains(a) by {
                if a == m.location {
                    assert(st1.seen[st.seen.len() as int] == a);
                    assert(st1.seen.contains(a));
                } else {
                    let i = choose|i: int| 0 <= i < st.seen.len() && st.seen[i] == a;
                    assert(st1.seen[i] == a);
                    assert(st1.seen.contains(a));
                }
            }
            assert(st1.seen.to_set() =~= st.seen.to_set().insert(m.location));
            assert(st.seen.to_set().insert(m.location).union(locations_of(rest).to_set())
                =~= st.seen.to_set().union(locations_of(ms).to_set()));
        }
    }
}

/// Mini-mode counting law: folding raw matches into an empty
/// aggregator in mini mode leaves exactly one result per distinct
/// location — the result collection's size equals the number of
/// distinct locations among the raw matches, while the raw counter
/// (stated in each search's contract) advances by every match.
pub proof fn lemma_mini_mode_counts(ms: Seq<MatchV>)
    ensures
        ({
            let st = agg_fold(
                AggState { results: Seq::<MatchV>::empty(), seen: Seq::<Seq<char>>::empty() },
                ms,
                true,
            );
            st.results.len() == locations_of(ms).to_set().len()
        }),
{
    let init = AggState { results: Seq::<MatchV>::empty(), seen: Seq::<Seq<char>>::empty() };
    lemma_agg_fold_mini(init, ms);
    let st = agg_fold(init, ms, true);
    assert(init.seen.to_set() =~= Set::<Seq<char>>::empty());
    assert(st.seen.to_set() =~= locations_of(ms).to_set());
    st.seen.unique_seq_to_set();
}

/// Outside mini mode every raw match is admitted unchanged, in order.
pub proof fn lemma_full_mode_keeps_all(st: AggState, ms: Seq<MatchV>)
    ensures
        agg_fold(st, ms, false).results == st.results + ms,
        agg_fold(st, ms, false).seen == st.seen,
    decreases ms.len(),
{
    if ms.len() == 0 {
        assert(st.results + ms =~= st.results);
    } else {
        lemma_full_mode_keeps_all(agg_step(st, ms[0], false), ms.drop_first());
        assert(st.results.push(ms[0]) + ms.drop_first() =~= st.results + ms);
    }
}

/// Determinism: two master searches over the same tree, pattern and
/// configuration — however their per-unit work was scheduled — hold
/// identical result sequences, and so identical counts and multisets
/// of (location, line, content, category) tuples.
pub proof fn lemma_master_deterministic(
    t1: JarTool,
    t2: JarTool,
    init: AggState,
    p: Seq<char>,
    excl: Seq<Seq<char>>,
    th: u64,
    mini: bool,
    fs: Seq<FileEntryV>,
)
    requires
        t1.agg() == agg_fold(init, spec_master_raw(p, excl, th, fs), mini),
        t2.agg() == agg_fold(init, spec_master_raw(p, excl, th, fs), mini),
    ensures
        t1.agg().results == t2.agg().results,
        t1.agg().results.len() == t2.agg().results.len(),
        t1.agg().results.to_multiset() == t2.agg().results.to_multiset(),
{
}

/// A match originates from some file the walker kept: a file whose
/// path holds no configured exclusion substring.
pub open spec fn from_kept_file(m: MatchV, excl: Seq<Seq<char>>, fs: Seq<FileEntryV>) -> bool {
    exists|j: int|
        0 <= j < fs.len() && !spec_excluded((#[trigger] fs[j]).path, excl) && from_file(m, fs[j])
}

proof fn lemma_fold_units_prov(
    u: spec_fn(FileEntryV) -> Seq<MatchV>,
    fs: Seq<FileEntryV>,
    i: int,
    pr: spec_fn(FileEntryV, MatchV) -> bool,
)
    requires
        0 <= i <= fs.len(),
        forall|fv: FileEntryV, k: int| 0 <= k < u(fv).len() ==> #[trigger] pr(fv, u(fv)[k]),
    ensures
        forall|k: int|
            0 <= k < spec_fold_units(u, fs, i).len() ==> exists|j: int|
                i <= j < fs.len() && pr(fs[j], #[trigger] spec_fold_units(u, fs, i)[k]),
    decreases fs.len() - i,
{
    if i < fs.len() {
        lemma_fold_units_prov(u, fs, i + 1, pr);
        let hd = u(fs[i]);
        let cur = spec_fold_units(u, fs, i);
        let rest = spec_fold_units(u, fs, i + 1);
        assert forall|k: int| 0 <= k < cur.len() implies exists|j: int|
            i <= j < fs.len() && pr(fs[j], #[trigger] cur[k]) by {
            if k < hd.len() {
                assert(cur[k] == hd[k]);
                assert(pr(fs[i], u(fs[i])[k]));
            } else {
                assert(cur[k] == rest[k - hd.len()]);
            }
        }
    }
}

proof fn lemma_agg_fold_results(st: AggState, ms: Seq<MatchV>, mini: bool)
    ensures
        forall|k: int|
            0 <= k < agg_fold(st, ms, mini).results.len() ==> ((k < st.results.len() && agg_fold(
                st,
                ms,
                mini,
            ).results[k] == st.results[k]) || exists|j: int|
                0 <= j < ms.len() && (#[trigger] agg_fold(st, ms, mini).results[k]).location
                    == ms[j].location),
    decreases ms.len(),
{
    if ms.len() > 0 {
        let m = ms[0];
        let rest = ms.drop_first();
        let st1 = agg_step(st, m, mini);
        lemma_agg_fold_results(st1, rest, mini);
        let res = agg_fold(st, ms, mini).results;
        assert forall|k: int| 0 <= k < res.len() implies ((k < st.results.len() && res[k]
            == st.results[k]) || exists|j: int|
            0 <= j < ms.len() && (#[trigger] res[k]).location == ms[j].location) by {
            if k < st1.results.len() && res[k] == st1.results[k] {
                if k < st.results.len() {
                    assert(st1.results[k] == st.results[k]);
                } else {
                    assert(st1.results[k].location == m.location);
                    assert(res[k].location == ms[0].location);
                }
            } else {
                let j = choose|j: int|
                    0 <= j < rest.len() && (agg_fold(st1, rest, mini).results[k]).location
                        == rest[j].location;
                assert(res[k].location == ms[j + 1].location);
            }
        }
    }
}

/// Exclusion: every match a master search admits originates from a
/// file the walker kept — one whose path holds no configured exclusion
/// substring — as that file itself or as one of its entries. An
/// excluded path can therefore stand as a location only if it
/// coincides textually with a kept container's entry location.
pub proof fn lemma_master_exclusion(
    p: Seq<char>,
    excl: Seq<Seq<char>>,
    th: u64,
    fs: Seq<FileEntryV>,
    mini: bool,
)
    ensures
        ({
            let res = agg_fold(
                AggState { results: Seq::<MatchV>::empty(), seen: Seq::<Seq<char>>::empty() },
                spec_master_raw(p, excl, th, fs),
                mini,
            ).results;
            &&& forall|k: int| 0 <= k < res.len() ==> from_kept_file(#[trigger] res[k], excl, fs)
            &&& forall|k: int, j2: int|
                0 <= k < res.len() && 0 <= j2 < fs.len() && spec_excluded(fs[j2].path, excl) && (
                #[trigger] res[k]).location == (#[trigger] fs[j2]).path ==> exists|j: int, nm: Seq<char>|
                    0 <= j < fs.len() && !spec_excluded(fs[j].path, excl) && fs[j2].path
                        == entry_location(fs[j].path, nm)
        }),
{
    let init = AggState { results: Seq::<MatchV>::empty(), seen: Seq::<Seq<char>>::empty() };
    let raw = spec_master_raw(p, excl, th, fs);
    let pr = |fv: FileEntryV, m: MatchV| !spec_excluded(fv.path, excl) && from_file(m, fv);
    let u1 = content_unit(p, seq!["*"@], excl, th);
    let u2 = zip_unit(p, excl, th);
    let u3 = javafile_unit(p, excl, th);
    let u4 = loose_unit(p, excl, th);
    assert forall|fv: FileEntryV, k: int| 0 <= k < u1(fv).len() implies #[trigger] pr(
        fv,
        u1(fv)[k],
    ) by {
        lemma_jar_content_unit_from(p, seq!["*"@], fv);
    }
    assert forall|fv: FileEntryV, k: int| 0 <= k < u2(fv).len() implies #[trigger] pr(
        fv,
        u2(fv)[k],
    ) by {
        lemma_zip_text_unit_from(p, fv);
    }
    assert forall|fv: FileEntryV, k: int| 0 <= k < u3(fv).len() implies #[trigger] pr(
        fv,
        u3(fv)[k],
    ) by {
        lemma_loose_unit_from(p, fv, false);
    }
    assert forall|fv: FileEntryV, k: int| 0 <= k < u4(fv).len() implies #[trigger] pr(
        fv,
        u4(fv)[k],
    ) by {
        lemma_loose_unit_from(p, fv, true);
    }
    lemma_fold_units_prov(u1, fs, 0, pr);
    lemma_fold_units_prov(u2, fs, 0, pr);
    lemma_fold_units_prov(u3, fs, 0, pr);
    lemma_fold_units_prov(u4, fs, 0, pr);
    let f1 = spec_fold_units(u1, fs, 0);
    let f2 = spec_fold_units(u2, fs, 0);
    let f3 = spec_fold_units(u3, fs, 0);
    let f4 = spec_fold_units(u4, fs, 0);
    assert forall|k: int| 0 <= k < raw.len() implies from_kept_file(#[trigger] raw[k], excl, fs) by {
        if k < f1.len() {
            assert(raw[k] == f1[k]);
            let j = choose|j: int| 0 <= j < fs.len() && pr(fs[j], f1[k]);
            assert(from_kept_file(raw[k], excl, fs));
        } else if k < f1.len() + f2.len() {
            assert(raw[k] == f2[k - f1.len()]);
            let j = choose|j: int| 0 <= j < fs.len() && pr(fs[j], f2[k - f1.len()]);
            assert(from_kept_file(raw[k], excl, fs));
        } else if k < f1.len() + f2.len() + f3.len() {
            assert(raw[k] == f3[k - f1.len() - f2.len()]);
            let j = choose|j: int| 0 <= j < fs.len() && pr(fs[j], f3[k - f1.len() - f2.len()]);
            assert(from_kept_file(raw[k], excl, fs));
        } else {
            assert(raw[k] == f4[k - f1.len() - f2.len() - f3.len()]);
            let j = choose|j: int|
                0 <= j < fs.len() && pr(fs[j], f4[k - f1.len() - f2.len() - f3.len()]);
            assert(from_kept_file(raw[k], excl, fs));
        }
    }
    lemma_agg_fold_results(init, raw, mini);
    let res = agg_fold(init, raw, mini).results;
    assert forall|k: int| 0 <= k < res.len() implies from_kept_file(#[trigger] res[k], excl, fs) by {
        let j = choose|j: int| 0 <= j < raw.len() && res[k].location == raw[j].location;
        assert(from_kept_file(raw[j], excl, fs));
        let j2 = choose|j2: int|
            0 <= j2 < fs.len() && !spec_excluded((#[trigger] fs[j2]).path, excl) && from_file(
                raw[j],
                fs[j2],
            );
        assert(from_file(res[k], fs[j2]));
        assert(from_kept_file(res[k], excl, fs));
    }
    assert forall|k: int, j2: int|
        0 <= k < res.len() && 0 <= j2 < fs.len() && spec_excluded(fs[j2].path, excl) && (
        #[trigger] res[k]).location == (#[trigger] fs[j2]).path implies exists|j: int, nm: Seq<char>|
        0 <= j < fs.len() && !spec_excluded(fs[j].path, excl) && fs[j2].path == entry_location(
            fs[j].path,
            nm,
        ) by {
        let j = choose|j: int|
            0 <= j < fs.len() && !spec_excluded((#[trigger] fs[j]).path, excl) && from_file(
                res[k],
                fs[j],
            );
        if res[k].location == fs[j].path {
            assert(false);
        } else {
            let nm = choose|nm: Seq<char>| res[k].location == entry_location(fs[j].path, nm);
            assert(fs[j2].path == entry_location(fs[j].path, nm));
        }
    }
}

/// Exclusion for a single unit fold: when every match a unit yields
/// originates from its own, non-excluded file, every match the
/// aggregator admits originates from a kept file.
proof fn lemma_single_fold_exclusion(
    u: spec_fn(FileEntryV) -> Seq<MatchV>,
    excl: Seq<Seq<char>>,
    fs: Seq<FileEntryV>,
    mini: bool,
    pr: spec_fn(FileEntryV, MatchV) -> bool,
)
    requires
        pr == (|fv: FileEntryV, m: MatchV| !spec_excluded(fv.path, excl) && from_file(m, fv)),
        forall|fv: FileEntryV, k: int| 0 <= k < u(fv).len() ==> #[trigger] pr(fv, u(fv)[k]),
    ensures
        ({
            let res = agg_fold(
                AggState { results: Seq::<MatchV>::empty(), seen: Seq::<Seq<char>>::empty() },
                spec_fold_units(u, fs, 0),
                mini,
            ).results;
            forall|k: int| 0 <= k < res.len() ==> from_kept_file(#[trigger] res[k], excl, fs)
        }),
{
    let init = AggState { results: Seq::<MatchV>::empty(), seen: Seq::<Seq<char>>::empty() };
    let raw = spec_fold_units(u, fs, 0);
    lemma_fold_units_prov(u, fs, 0, pr);
    assert forall|k: int| 0 <= k < raw.len() implies from_kept_file(#[trigger] raw[k], excl, fs) by {
        let j = choose|j: int| 0 <= j < fs.len() && pr(fs[j], raw[k]);
        assert(from_kept_file(raw[k], excl, fs));
    }
    lemma_agg_fold_results(init, raw, mini);
    let res = agg_fold(init, raw, mini).results;
    assert forall|k: int| 0 <= k < res.len() implies from_kept_file(#[trigger] res[k], excl, fs) by {
        let j = choose|j: int| 0 <= j < raw.len() && res[k].location == raw[j].location;
        assert(from_kept_file(raw[j], excl, fs));
        let j2 = choose|j2: int|
            0 <= j2 < fs.len() && !spec_excluded((#[trigger] fs[j2]).path, excl) && from_file(
                raw[j],
                fs[j2],
            );
        assert(from_file(res[k], fs[j2]));
        assert(from_kept_file(res[k], excl, fs));
    }
}

/// Exclusion for the class searches: every admitted match of an
/// exact or substring class search originates from a kept jar.
pub proof fn lemma_class_search_exclusion(
    q: Seq<char>,
    exact: bool,
    excl: Seq<Seq<char>>,
    th: u64,
    fs: Seq<FileEntryV>,
    mini: bool,
)
    ensures
        ({
            let res = agg_fold(
                AggState { results: Seq::<MatchV>::empty(), seen: Seq::<Seq<char>>::empty() },
                spec_fold_units(class_unit(q, exact, excl, th), fs, 0),
                mini,
            ).results;
            forall|k: int| 0 <= k < res.len() ==> from_kept_file(#[trigger] res[k], excl, fs)
        }),
{
    let u = class_unit(q, exact, excl, th);
    let pr = |fv: FileEntryV, m: MatchV| !spec_excluded(fv.path, excl) && from_file(m, fv);
    assert forall|fv: FileEntryV, k: int| 0 <= k < u(fv).len() implies #[trigger] pr(
        fv,
        u(fv)[k],
    ) by {
        lemma_jar_class_unit_from(q, exact, fv);
    }
    lemma_single_fold_exclusion(u, excl, fs, mini, pr);
}

/// Exclusion for the package search.
pub proof fn lemma_package_search_exclusion(
    q: Seq<char>,
    excl: Seq<Seq<char>>,
    th: u64,
    fs: Seq<FileEntryV>,
    mini: bool,
)
    ensures
        ({
            let res = agg_fold(
                AggState { results: Seq::<MatchV>::empty(), seen: Seq::<Seq<char>>::empty() },
                spec_fold_units(package_unit(q, excl, th), fs, 0),
                mini,
            ).results;
            forall|k: int| 0 <= k < res.len() ==> from_kept_file(#[trigger] res[k], excl, fs)
        }),
{
    let u = package_unit(q, excl, th);
    let pr = |fv: FileEntryV, m: MatchV| !spec_excluded(fv.path, excl) && from_file(m, fv);
    assert forall|fv: FileEntryV, k: int| 0 <= k < u(fv).len() implies #[trigger] pr(
        fv,
        u(fv)[k],
    ) by {
        lemma_jar_package_unit_from(q, fv);
    }
    lemma_single_fold_exclusion(u, excl, fs, mini, pr);
}

/// Exclusion for the content search over jar files.
pub proof fn lemma_content_search_exclusion(
    p: Seq<char>,
    types: Seq<Seq<char>>,
    excl: Seq<Seq<char>>,
    th: u64,
    fs: Seq<FileEntryV>,
    mini: bool,
)
    ensures
        ({
            let res = agg_fold(
                AggState { results: Seq::<MatchV>::empty(), seen: Seq::<Seq<char>>::empty() },
                spec_fold_units(content_unit(p, types, excl, th), fs, 0),
                mini,
            ).results;
            forall|k: int| 0 <= k < res.len() ==> from_kept_file(#[trigger] res[k], excl, fs)
        }),
{
    let u = content_unit(p, types, excl, th);
    let pr = |fv: FileEntryV, m: MatchV| !spec_excluded(fv.path, excl) && from_file(m, fv);
    assert forall|fv: FileEntryV, k: int| 0 <= k < u(fv).len() implies #[trigger] pr(
        fv,
        u(fv)[k],
    ) by {
        lemma_jar_content_unit_from(p, types, fv);
    }
    lemma_single_fold_exclusion(u, excl, fs, mini, pr);
}

/// Exclusion for the source-file search, both by content and by name.
pub proof fn lemma_java_search_exclusion(
    p: Seq<char>,
    excl: Seq<Seq<char>>,
    th: u64,
    fs: Seq<FileEntryV>,
    mini: bool,
    content: bool,
)
    ensures
        ({
            let u = if content {
                javafile_unit(p, excl, th)
            } else {
                javaname_unit(p, excl)
            };
            let res = agg_fold(
                AggState { results: Seq::<MatchV>::empty(), seen: Seq::<Seq<char>>::empty() },
                spec_fold_units(u, fs, 0),
                mini,
            ).results;
            forall|k: int| 0 <= k < res.len() ==> from_kept_file(#[trigger] res[k], excl, fs)
        }),
{
    let u = if content {
        javafile_unit(p, excl, th)
    } else {
        javaname_unit(p, excl)
    };
    let pr = |fv: FileEntryV, m: MatchV| !spec_excluded(fv.path, excl) && from_file(m, fv);
    assert forall|fv: FileEntryV, k: int| 0 <= k < u(fv).len() implies #[trigger] pr(
        fv,
        u(fv)[k],
    ) by {
        if content {
            lemma_loose_unit_from(p, fv, false);
        }
    }
    lemma_single_fold_exclusion(u, excl, fs, mini, pr);
}

} // verus!
