//! The result and statistics records, their mathematical views, and
//! the aggregation step that admits matches into the result collection
//! — in mini mode only the first match per distinct location.
use vstd::prelude::*;

verus! {

/// The mathematical view of one located occurrence.
pub ghost struct MatchV {
    pub location: Seq<char>,
    pub line: Option<usize>,
    pub content: Seq<char>,
    pub category: Seq<char>,
}

/// One located occurrence: where it was found, the line number when
/// the match came from a text line, the matched content (trimmed for
/// text lines), and a semantic tag.
pub struct SearchResult {
    pub file_location: String,
    pub line_number: Option<usize>,
    pub line_content: String,
    pub match_type: String,
}

impl View for SearchResult {
    type V = MatchV;

    open spec fn view(&self) -> MatchV {
        MatchV {
            location: self.file_location@,
            line: self.line_number,
            content: self.line_content@,
            category: self.match_type@,
        }
    }
}

impl DeepView for SearchResult {
    type V = MatchV;

    open spec fn deep_view(&self) -> MatchV {
        self.view()
    }
}

impl Clone for SearchResult {
    fn clone(&self) -> (r: Self)
        ensures
            r@ == self@,
    {
        SearchResult {
            file_location: self.file_location.clone(),
            line_number: match self.line_number {
                Some(n) => Some(n),
                None => None,
            },
            line_content: self.line_content.clone(),
            match_type: self.match_type.clone(),
        }
    }
}

/// Aggregate counters of one run. Counters saturate at the machine
/// limit instead of wrapping.
#[derive(Clone, Copy, PartialEq, Eq, Structural)]
pub struct SearchStats {
    pub total_jars: usize,
    pub total_zip_files: usize,
    pub total_class_files: usize,
    pub total_java_files: usize,
    pub total_other_files: usize,
    pub matches_found: usize,
    pub files_processed: usize,
    pub elapsed_millis: u64,
}

impl SearchStats {
    /// All counters zero.
    pub open spec fn spec_zero() -> SearchStats {
        SearchStats {
            total_jars: 0,
            total_zip_files: 0,
            total_class_files: 0,
            total_java_files: 0,
            total_other_files: 0,
            matches_found: 0,
            files_processed: 0,
            elapsed_millis: 0,
        }
    }

    pub fn new() -> (r: SearchStats)
        ensures
            r == SearchStats::spec_zero(),
    {
        SearchStats {
            total_jars: 0,
            total_zip_files: 0,
            total_class_files: 0,
            total_java_files: 0,
            total_other_files: 0,
            matches_found: 0,
            files_processed: 0,
            elapsed_millis: 0,
        }
    }
}

impl Default for SearchStats {
    fn default() -> (r: Self)
        ensures
            r == SearchStats::spec_zero(),
    {
        SearchStats::new()
    }
}

/// A sum capped at the machine limit.
pub open spec fn sat_cap(n: int) -> int {
    if n > usize::MAX as int {
        usize::MAX as int
    } else {
        n
    }
}

/// Saturating counter addition.
pub fn sat_add(a: usize, b: usize) -> (r: usize)
    ensures
        r as int == sat_cap(a + b),
{
    if a <= usize::MAX - b {
        a + b
    } else {
        usize::MAX
    }
}

/// The aggregation state: the admitted results and, in mini mode, the
/// distinct locations already seen, in first-seen order.
pub ghost struct AggState {
    pub results: Seq<MatchV>,
    pub seen: Seq<Seq<char>>,
}

/// The reduced form a match takes in mini mode: the location keeps its
/// tag but carries no line number and a generic marker as content.
pub open spec fn mini_of(m: MatchV) -> MatchV {
    MatchV { location: m.location, line: None, content: "Found matches"@, category: m.category }
}

/// One raw match arriving at the aggregator. In mini mode a location
/// seen before is suppressed; a new one is admitted in reduced form.
pub open spec fn agg_step(st: AggState, m: MatchV, mini: bool) -> AggState {
    if mini {
        if st.seen.contains(m.location) {
            st
        } else {
            AggState { results: st.results.push(mini_of(m)), seen: st.seen.push(m.location) }
        }
    } else {
        AggState { results: st.results.push(m), seen: st.seen }
    }
}

/// A sequence of raw matches folded into the aggregator, in order.
pub open spec fn agg_fold(st: AggState, ms: Seq<MatchV>, mini: bool) -> AggState
    decreases ms.len(),
{
    if ms.len() == 0 {
        st
    } else {
        agg_fold(agg_step(st, ms[0], mini), ms.drop_first(), mini)
    }
}

/// Folding distributes over concatenation of raw match sequences.
pub proof fn lemma_agg_fold_concat(st: AggState, a: Seq<MatchV>, b: Seq<MatchV>, mini: bool)
    ensures
        agg_fold(st, a + b, mini) == agg_fold(agg_fold(st, a, mini), b, mini),
    decreases a.len(),
{
    if a.len() == 0 {
        assert(a + b =~= b);
    } else {
        assert((a + b).drop_first() =~= a.drop_first() + b);
        lemma_agg_fold_concat(agg_step(st, a[0], mini), a.drop_first(), b, mini);
    }
}

/// Folding one more raw match is one aggregation step at the end.
pub proof fn lemma_agg_fold_push(st: AggState, ms: Seq<MatchV>, m: MatchV, mini: bool)
    ensures
        agg_fold(st, ms.push(m), mini) == agg_step(agg_fold(st, ms, mini), m, mini),
{
    assert(ms.push(m) =~= ms + seq![m]);
    lemma_agg_fold_concat(st, ms, seq![m], mini);
    let mid = agg_fold(st, ms, mini);
    assert(seq![m].drop_first() =~= Seq::<MatchV>::empty());
    assert(seq![m][0] == m);
    assert(agg_fold(mid, seq![m], mini) == agg_fold(agg_step(mid, m, mini), seq![m].drop_first(), mini));
    assert(agg_fold(agg_step(mid, m, mini), Seq::<MatchV>::empty(), mini) == agg_step(mid, m, mini));
}

} // verus!
