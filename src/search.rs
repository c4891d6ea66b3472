//! Hybrid search: normalizing and merging vector and text matches into
//! scored candidates, and curating them into a ranked, bounded list.
//! Scores are fixed-point integers with `SCORE_SCALE` standing for 1.0.

use vstd::prelude::*;

verus! {

/// Fixed-point unit of every relevance score: `SCORE_SCALE` stands for 1.0.
pub const SCORE_SCALE: u64 = 1_000_000;

/// Distance used as the normalizer when a vector result set has one element
/// (cosine distance never exceeds 2.0).
pub const DISTANCE_CAP: u64 = 2_000_000;

/// Denominator of the weights: weights are percentages.
pub const WEIGHT_UNIT: u64 = 100;

/// Weight given to each source by default (one half).
pub const DEFAULT_WEIGHT: u32 = 50;

/// Candidates pulled from each source by default.
pub const DEFAULT_MAX_RESULTS_PER_SOURCE: usize = 50;

/// Per-query tunables of the hybrid search.
#[derive(Debug, Clone, Copy, PartialEq, Eq)]
pub struct SearchConfig {
    /// How many rows each source (vector, text) may return before the merge.
    pub max_results_per_source: usize,
    /// Weight of the vector relevance, in percent.
    pub vector_weight: u32,
    /// Weight of the text relevance, in percent.
    pub text_weight: u32,
}

impl SearchConfig {
    /// The configuration a recall of `max_results` memories searches with:
    /// twice as many candidates per source, default weights.
    pub fn for_recall(max_results: usize) -> (r: SearchConfig)
        ensures
            r.max_results_per_source as int == if 2 * max_results <= usize::MAX {
                2 * max_results
            } else {
                usize::MAX as int
            },
            r.vector_weight == DEFAULT_WEIGHT,
            r.text_weight == DEFAULT_WEIGHT,
    {
        SearchConfig {
            max_results_per_source: if max_results <= usize::MAX / 2 {
                max_results * 2
            } else {
                usize::MAX
            },
            vector_weight: DEFAULT_WEIGHT,
            text_weight: DEFAULT_WEIGHT,
        }
    }
}

impl Default for SearchConfig {
    fn default() -> (r: SearchConfig)
        ensures
            r.max_results_per_source == DEFAULT_MAX_RESULTS_PER_SOURCE,
            r.vector_weight == DEFAULT_WEIGHT,
            r.text_weight == DEFAULT_WEIGHT,
    {
        SearchConfig {
            max_results_per_source: DEFAULT_MAX_RESULTS_PER_SOURCE,
            vector_weight: DEFAULT_WEIGHT,
            text_weight: DEFAULT_WEIGHT,
        }
    }
}

/// A merged candidate: a memory id and its combined relevance, plus the
/// memory's importance (in hundredths) once the record store has told it.
#[derive(Debug, Clone)]
pub struct MemorySearchResult {
    pub id: String,
    pub score: u64,
    pub importance: Option<u64>,
}

/// Largest second component of a sequence of `(id, value)` rows (0 if empty).
pub open spec fn max_value(s: Seq<(String, u64)>) -> int
    decreases s.len(),
{
    if s.len() == 0 {
        0
    } else {
        let m = max_value(s.drop_last());
        if s.last().1 > m {
            s.last().1 as int
        } else {
            m
        }
    }
}

/// Normalizer of a vector result set.
pub open spec fn distance_denominator(vs: Seq<(String, u64)>) -> int {
    if vs.len() == 1 {
        DISTANCE_CAP as int
    } else {
        max_value(vs)
    }
}

/// `1 - d / denom`, in fixed point, floored at zero; full relevance when
/// every distance is zero.
pub open spec fn vector_relevance(d: int, denom: int) -> int {
    if denom == 0 {
        SCORE_SCALE as int
    } else if d >= denom {
        0
    } else {
        (SCORE_SCALE - (d * SCORE_SCALE) / denom) as int
    }
}

/// `s / max`, in fixed point; zero when the maximum is zero.
pub open spec fn text_relevance(s: int, denom: int) -> int {
    if denom == 0 {
        0
    } else {
        (s * SCORE_SCALE) / denom
    }
}

/// `i` is the first row of `s` that carries `id`.
pub open spec fn is_first(s: Seq<(String, u64)>, id: Seq<char>, i: int) -> bool {
    &&& 0 <= i < s.len()
    &&& s[i].0@ == id
    &&& forall|k: int| 0 <= k < i ==> s[k].0@ != id
}

/// `id` occurs in some row of `s`.
pub open spec fn has_id(s: Seq<(String, u64)>, id: Seq<char>) -> bool {
    exists|i: int| 0 <= i < s.len() && s[i].0@ == id
}

/// Normalized vector relevance of `id`: that of its first (closest) row.
pub open spec fn vector_relevance_of(vs: Seq<(String, u64)>, id: Seq<char>) -> int {
    let i = choose|i: int| is_first(vs, id, i);
    vector_relevance(vs[i].1 as int, distance_denominator(vs))
}

/// Normalized text relevance of `id`: that of its first (best) row.
pub open spec fn text_relevance_of(ts: Seq<(String, u64)>, id: Seq<char>) -> int {
    let i = choose|i: int| is_first(ts, id, i);
    text_relevance(ts[i].1 as int, max_value(ts))
}

/// Combined score of `id`: the weighted sum where both sources know it,
/// else the one source's normalized value.
pub open spec fn combined_score(
    vs: Seq<(String, u64)>,
    ts: Seq<(String, u64)>,
    id: Seq<char>,
    cfg: SearchConfig,
) -> int {
    if has_id(vs, id) && has_id(ts, id) {
        (cfg.vector_weight as int * vector_relevance_of(vs, id) + cfg.text_weight as int * text_relevance_of(
            ts,
            id,
        )) / (WEIGHT_UNIT as int)
    } else if has_id(vs, id) {
        vector_relevance_of(vs, id)
    } else {
        text_relevance_of(ts, id)
    }
}

proof fn lemma_first_unique(s: Seq<(String, u64)>, id: Seq<char>, a: int, b: int)
    requires
        is_first(s, id, a),
        is_first(s, id, b),
    ensures
        a == b,
{
    if a < b {
        assert(s[a].0@ == id);
    } else if b < a {
        assert(s[b].0@ == id);
    }
}

proof fn lemma_max_value_bound(s: Seq<(String, u64)>, i: int)
    requires
        0 <= i < s.len(),
    ensures
        s[i].1 <= max_value(s),
    decreases s.len(),
{
    if i < s.len() - 1 {
        lemma_max_value_bound(s.drop_last(), i);
    }
}

fn max_of(s: &Vec<(String, u64)>) -> (r: u64)
    ensures
        r == max_value(s@),
{
    let mut m: u64 = 0;
    let mut i: usize = 0;
    while i < s.len()
        invariant
            i <= s.len(),
            m == max_value(s@.subrange(0, i as int)),
        decreases s.len() - i,
    {
        assert(s@.subrange(0, i as int + 1).drop_last() =~= s@.subrange(0, i as int));
        if s[i].1 > m {
            m = s[i].1;
        }
        i = i + 1;
    }
    assert(s@.subrange(0, s.len() as int) =~= s@);
    m
}

fn find_first(s: &Vec<(String, u64)>, id: &String) -> (r: Option<usize>)
    ensures
        r matches Some(i) ==> is_first(s@, id@, i as int),
        r is None ==> !has_id(s@, id@),
{
    let mut i: usize = 0;
    while i < s.len()
        invariant
            i <= s.len(),
            forall|k: int| 0 <= k < i ==> s@[k].0@ != id@,
        decreases s.len() - i,
    {
        if s[i].0 == *id {
            return Some(i);
        }
        i = i + 1;
    }
    None
}

fn vector_relevance_exec(d: u64, denom: u64) -> (r: u64)
    ensures
        r == vector_relevance(d as int, denom as int),
        r <= SCORE_SCALE,
{
    if denom == 0 {
        SCORE_SCALE
    } else if d >= denom {
        0
    } else {
        let q: u128 = (d as u128) * (SCORE_SCALE as u128) / (denom as u128);
        assert((d as int * SCORE_SCALE as int) / (denom as int) <= SCORE_SCALE as int) by (nonlinear_arith)
            requires
                d < denom,
                denom > 0,
        ;
        (SCORE_SCALE as u128 - q) as u64
    }
}

fn text_relevance_exec(s: u64, denom: u64) -> (r: u64)
    requires
        s <= denom,
    ensures
        r == text_relevance(s as int, denom as int),
        r <= SCORE_SCALE,
{
    if denom == 0 {
        0
    } else {
        assert((s as int * SCORE_SCALE as int) / (denom as int) <= SCORE_SCALE as int) by (nonlinear_arith)
            requires
                s <= denom,
                denom > 0,
        ;
        ((s as u128) * (SCORE_SCALE as u128) / (denom as u128)) as u64
    }
}

/// Every merged id occurs in one of the two sources.
pub open spec fn from_sources(
    r: Seq<MemorySearchResult>,
    vs: Seq<(String, u64)>,
    ts: Seq<(String, u64)>,
) -> bool {
    forall|k: int| 0 <= k < r.len() ==> has_id(vs, #[trigger] r[k].id@) || has_id(ts, r[k].id@)
}

/// Every id of `s` is among the merged ids.
pub open spec fn covers(r: Seq<MemorySearchResult>, s: Seq<(String, u64)>) -> bool {
    forall|i: int| #![trigger s[i]] 0 <= i < s.len() ==> exists|k: int| 0 <= k < r.len() && #[trigger] r[k].id@ == s[i].0@
}

/// No id occurs twice.
pub open spec fn ids_unique(r: Seq<MemorySearchResult>) -> bool {
    forall|a: int, b: int| 0 <= a < b < r.len() ==> r[a].id@ != r[b].id@
}

/// Merges the vector rows `(id, distance)` and the text rows `(id, score)`
/// by id: one candidate per distinct id, scored by `combined_score`, with no
/// importance known yet. The result is in no particular order of score.
pub fn merge_results(
    vector_rows: &Vec<(String, u64)>,
    text_rows: &Vec<(String, u64)>,
    cfg: &SearchConfig,
) -> (r: Vec<MemorySearchResult>)
    ensures
        ids_unique(r@),
        from_sources(r@, vector_rows@, text_rows@),
        covers(r@, vector_rows@),
        covers(r@, text_rows@),
        forall|k: int|
            0 <= k < r@.len() ==> (#[trigger] r@[k]).score == combined_score(
                vector_rows@,
                text_rows@,
                r@[k].id@,
                *cfg,
            ),
        forall|k: int| 0 <= k < r@.len() ==> (#[trigger] r@[k]).importance is None,
{
    let vs = vector_rows;
    let ts = text_rows;
    let vden: u64 = if vs.len() == 1 {
        DISTANCE_CAP
    } else {
        max_of(vs)
    };
    let tden = max_of(ts);
    let mut out: Vec<MemorySearchResult> = Vec::new();
    let ghost mut idx: Seq<int> = Seq::empty();
    let ghost mut vpos: Seq<int> = Seq::empty();
    let mut i: usize = 0;
    while i < vs.len()
        invariant
            i <= vs.len(),
            vden == distance_denominator(vs@),
            tden == max_value(ts@),
            idx.len() == out@.len(),
            vpos.len() == i,
            forall|k: int| 0 <= k < out@.len() ==> #[trigger] idx[k] < i && is_first(vs@, out@[k].id@, idx[k]),
            forall|a: int, b: int| 0 <= a < b < out@.len() ==> idx[a] < idx[b],
            forall|x: int|
                0 <= x < i ==> 0 <= #[trigger] vpos[x] < out@.len() && out@[vpos[x]].id@ == vs@[x].0@,
            forall|k: int|
                0 <= k < out@.len() ==> (#[trigger] out@[k]).score == combined_score(vs@, ts@, out@[k].id@, *cfg),
            forall|k: int| 0 <= k < out@.len() ==> (#[trigger] out@[k]).importance is None,
        decreases vs.len() - i,
    {
        let id = &vs[i].0;
        let f = find_first(vs, id);
        assert(vs@[i as int].0@ == id@);
        match f {
            Some(fi) => {
                if fi == i {
                    let vr = vector_relevance_exec(vs[i].1, vden);
                    let score: u64 = match find_first(ts, id) {
                        Some(ti) => {
                            proof {
                                lemma_max_value_bound(ts@, ti as int);
                            }
                            let tr = text_relevance_exec(ts[ti].1, tden);
                            proof {
                                assert(has_id(vs@, id@));
                                assert(has_id(ts@, id@));
                                let c1 = choose|c: int| is_first(vs@, id@, c);
                                lemma_first_unique(vs@, id@, c1, i as int);
                                let c2 = choose|c: int| is_first(ts@, id@, c);
                                lemma_first_unique(ts@, id@, c2, ti as int);
                                let w = cfg.vector_weight as u128;
                                let v = cfg.text_weight as u128;
                                assert(w * (vr as u128) <= 4294967295u128 * 1000000u128) by (nonlinear_arith)
                                    requires
                                        w <= 4294967295u128,
                                        vr <= 1000000,
                                ;
                                assert(v * (tr as u128) <= 4294967295u128 * 1000000u128) by (nonlinear_arith)
                                    requires
                                        v <= 4294967295u128,
                                        tr <= 1000000,
                                ;
                            }
                            (((cfg.vector_weight as u128) * (vr as u128) + (cfg.text_weight as u128) * (tr as u128))
                                / (WEIGHT_UNIT as u128)) as u64
                        },
                        None => {
                            proof {
                                assert(has_id(vs@, id@));
                                let c1 = choose|c: int| is_first(vs@, id@, c);
                                lemma_first_unique(vs@, id@, c1, i as int);
                            }
                            vr
                        },
                    };
                    proof {
                        assert forall|k: int| 0 <= k < out@.len() implies out@[k].id@ != id@ by {
                            if out@[k].id@ == id@ {
                                lemma_first_unique(vs@, id@, idx[k], i as int);
                            }
                        }
                        idx = idx.push(i as int);
                        vpos = vpos.push(out@.len() as int);
                    }
                    out.push(MemorySearchResult { id: id.clone(), score, importance: None });
                } else {
                    proof {
                        vpos = vpos.push(vpos[fi as int]);
                    }
                }
            },
            None => {
                assert(false);
            },
        }
        i = i + 1;
    }
    proof {
        assert forall|a: int, b: int| 0 <= a < b < out@.len() implies out@[a].id@ != out@[b].id@ by {
            if out@[a].id@ == out@[b].id@ {
                lemma_first_unique(vs@, out@[a].id@, idx[a], idx[b]);
            }
        }
        assert forall|k: int| 0 <= k < out@.len() implies has_id(vs@, #[trigger] out@[k].id@) by {
            assert(vs@[idx[k]].0@ == out@[k].id@);
        }
    }
    let ghost n1 = out@.len();
    let ghost mut tidx: Seq<int> = Seq::empty();
    let ghost mut tpos: Seq<int> = Seq::empty();
    let mut j: usize = 0;
    while j < ts.len()
        invariant
            j <= ts.len(),
            n1 <= out@.len(),
            tden == max_value(ts@),
            ids_unique(out@),
            tidx.len() == out@.len() - n1,
            tpos.len() == j,
            vpos.len() == vs@.len(),
            forall|k: int| 0 <= k < n1 ==> has_id(vs@, #[trigger] out@[k].id@),
            forall|k: int|
                n1 <= k < out@.len() ==> !has_id(vs@, #[trigger] out@[k].id@) && 0 <= tidx[k - n1] < j
                    && ts@[tidx[k - n1]].0@ == out@[k].id@,
            forall|x: int|
                0 <= x < vs@.len() ==> 0 <= #[trigger] vpos[x] < out@.len() && out@[vpos[x]].id@ == vs@[x].0@,
            forall|x: int|
                0 <= x < j ==> 0 <= #[trigger] tpos[x] < out@.len() && out@[tpos[x]].id@ == ts@[x].0@,
            forall|k: int|
                0 <= k < out@.len() ==> (#[trigger] out@[k]).score == combined_score(vs@, ts@, out@[k].id@, *cfg),
            forall|k: int| 0 <= k < out@.len() ==> (#[trigger] out@[k]).importance is None,
        decreases ts.len() - j,
    {
        let id = &ts[j].0;
        assert(ts@[j as int].0@ == id@);
        let f = find_first(ts, id);
        match f {
            Some(fj) => {
                if fj < j {
                    proof {
                        tpos = tpos.push(tpos[fj as int]);
                    }
                } else {
                    match find_first(vs, id) {
                        Some(vi) => {
                            proof {
                                tpos = tpos.push(vpos[vi as int]);
                            }
                        },
                        None => {
                            proof {
                                lemma_max_value_bound(ts@, j as int);
                            }
                            let tr = text_relevance_exec(ts[j].1, tden);
                            proof {
                                assert(has_id(ts@, id@));
                                let c2 = choose|c: int| is_first(ts@, id@, c);
                                lemma_first_unique(ts@, id@, c2, j as int);
                                assert forall|k: int| 0 <= k < out@.len() implies out@[k].id@ != id@ by {
                                    if k < n1 {
                                        assert(has_id(vs@, out@[k].id@));
                                    } else {
                                        assert(ts@[tidx[k - n1]].0@ == out@[k].id@);
                                    }
                                }
                                tidx = tidx.push(j as int);
                                tpos = tpos.push(out@.len() as int);
                            }
                            out.push(MemorySearchResult { id: id.clone(), score: tr, importance: None });
                        },
                    }
                }
            },
            None => {
                assert(false);
            },
        }
        j = j + 1;
    }
    proof {
        assert forall|x: int| #![trigger vs@[x]] 0 <= x < vs@.len() implies exists|k: int|
            0 <= k < out@.len() && #[trigger] out@[k].id@ == vs@[x].0@ by {
            assert(out@[vpos[x]].id@ == vs@[x].0@);
        }
        assert forall|x: int| #![trigger ts@[x]] 0 <= x < ts@.len() implies exists|k: int|
            0 <= k < out@.len() && #[trigger] out@[k].id@ == ts@[x].0@ by {
            assert(out@[tpos[x]].id@ == ts@[x].0@);
        }
        assert forall|k: int| 0 <= k < out@.len() implies has_id(vs@, #[trigger] out@[k].id@) || has_id(
            ts@,
            out@[k].id@,
        ) by {
            if k >= n1 {
                assert(ts@[tidx[k - n1]].0@ == out@[k].id@);
            }
        }
    }
    out
}


/// Score added per hundredth of importance: an importance of 1.00 adds one
/// hundredth of `SCORE_SCALE`, enough to break ties, too little to outrank a
/// clearly better match.
pub const IMPORTANCE_BOOST: u64 = 100;

/// Score that curation ranks a candidate by.
pub open spec fn adjusted_score(c: MemorySearchResult) -> int {
    match c.importance {
        Some(imp) => c.score + imp * IMPORTANCE_BOOST,
        None => c.score as int,
    }
}

/// `r` ranks its entries by non-increasing adjusted score.
pub open spec fn ranked(r: Seq<MemorySearchResult>) -> bool {
    forall|a: int, b: int| 0 <= a < b < r.len() ==> adjusted_score(r[a]) >= adjusted_score(r[b])
}

/// The id of `c` is among those of `r`.
pub open spec fn id_listed(r: Seq<MemorySearchResult>, id: Seq<char>) -> bool {
    exists|k: int| 0 <= k < r.len() && #[trigger] r[k].id@ == id
}

/// What curation owes for the candidates `cs` and the cap `max`: at most
/// `max` entries, each a candidate, ids distinct, ranked by adjusted score,
/// and every candidate left out is either a duplicate id or ranked no higher
/// than the last entry of a full list.
pub open spec fn curated(r: Seq<MemorySearchResult>, cs: Seq<MemorySearchResult>, max: nat) -> bool {
    &&& r.len() <= max
    &&& forall|k: int| 0 <= k < r.len() ==> cs.contains(#[trigger] r[k])
    &&& ids_unique(r)
    &&& ranked(r)
    &&& forall|i: int|
        0 <= i < cs.len() ==> id_listed(r, #[trigger] cs[i].id@) || (r.len() == max && (max == 0
            || adjusted_score(cs[i]) <= adjusted_score(r[r.len() - 1])))
}

fn adjusted_exec(c: &MemorySearchResult) -> (r: u128)
    ensures
        r == adjusted_score(*c),
{
    match c.importance {
        Some(imp) => (c.score as u128) + (imp as u128) * (IMPORTANCE_BOOST as u128),
        None => c.score as u128,
    }
}

fn contains_id(r: &Vec<MemorySearchResult>, id: &String) -> (b: bool)
    ensures
        b == id_listed(r@, id@),
{
    let mut i: usize = 0;
    while i < r.len()
        invariant
            i <= r.len(),
            forall|k: int| 0 <= k < i ==> r@[k].id@ != id@,
        decreases r.len() - i,
    {
        if r[i].id == *id {
            return true;
        }
        i = i + 1;
    }
    false
}

/// Index of a best candidate (highest adjusted score) whose id is not yet
/// in `taken`; `None` when every candidate id is taken.
fn best_untaken(cs: &Vec<MemorySearchResult>, taken: &Vec<MemorySearchResult>) -> (r: Option<usize>)
    ensures
        r is None ==> forall|i: int| 0 <= i < cs@.len() ==> id_listed(taken@, #[trigger] cs@[i].id@),
        r matches Some(b) ==> b < cs@.len() && !id_listed(taken@, cs@[b as int].id@) && forall|i: int|
            0 <= i < cs@.len() && !id_listed(taken@, #[trigger] cs@[i].id@) ==> adjusted_score(cs@[i])
                <= adjusted_score(cs@[b as int]),
{
    let mut best: Option<usize> = None;
    let mut best_score: u128 = 0;
    let mut i: usize = 0;
    while i < cs.len()
        invariant
            i <= cs.len(),
            best is None ==> forall|j: int| 0 <= j < i ==> id_listed(taken@, #[trigger] cs@[j].id@),
            best matches Some(b) ==> b < i && !id_listed(taken@, cs@[b as int].id@) && best_score
                == adjusted_score(cs@[b as int]) && forall|j: int|
                0 <= j < i && !id_listed(taken@, #[trigger] cs@[j].id@) ==> adjusted_score(cs@[j])
                    <= best_score,
        decreases cs.len() - i,
    {
        if !contains_id(taken, &cs[i].id) {
            let a = adjusted_exec(&cs[i]);
            if best.is_none() || a > best_score {
                best = Some(i);
                best_score = a;
            }
        }
        i = i + 1;
    }
    best
}

proof fn lemma_curated(r: Seq<MemorySearchResult>, cs: Seq<MemorySearchResult>, max: nat)
    requires
        r.len() <= max,
        forall|k: int| 0 <= k < r.len() ==> cs.contains(#[trigger] r[k]),
        ids_unique(r),
        ranked(r),
        r.len() > 0 ==> forall|i: int|
            0 <= i < cs.len() && !id_listed(r, #[trigger] cs[i].id@) ==> adjusted_score(cs[i]) <= adjusted_score(
                r[r.len() - 1],
            ),
        r.len() == max || forall|i: int| 0 <= i < cs.len() ==> id_listed(r, #[trigger] cs[i].id@),
    ensures
        curated(r, cs, max),
{
    assert forall|i: int| 0 <= i < cs.len() implies id_listed(r, #[trigger] cs[i].id@) || (r.len() == max && (
    max == 0 || adjusted_score(cs[i]) <= adjusted_score(r[r.len() - 1]))) by {}
}

/// Ranks merged candidates for a recall: drops repeated ids, orders by
/// score boosted with importance (highest first) and keeps at most
/// `max_results`. No candidates, or a cap of zero, give an empty list.
pub fn curate_results(search_results: &Vec<MemorySearchResult>, max_results: usize) -> (r: Vec<
    MemorySearchResult,
>)
    ensures
        curated(r@, search_results@, max_results as nat),
{
    let mut out: Vec<MemorySearchResult> = Vec::new();
    while out.len() < max_results
        invariant
            out@.len() <= max_results,
            forall|k: int|
                0 <= k < out@.len() ==> search_results@.contains(#[trigger] out@[k]),
            ids_unique(out@),
            ranked(out@),
            out@.len() > 0 ==> forall|i: int|
                0 <= i < search_results@.len() && !id_listed(out@, #[trigger] search_results@[i].id@) ==> adjusted_score(search_results@[i])
                    <= adjusted_score(out@[out@.len() - 1]),
        decreases max_results - out@.len(),
    {
        match best_untaken(search_results, &out) {
            None => {
                proof {
                    lemma_curated(out@, search_results@, max_results as nat);
                }
                return out;
            },
            Some(b) => {
                let ghost prev = out@;
                let c = MemorySearchResult {
                    id: search_results[b].id.clone(),
                    score: search_results[b].score,
                    importance: search_results[b].importance,
                };
                out.push(c);
                proof {
                    assert(out@[prev.len() as int] == search_results@[b as int]);
                    assert forall|k: int| 0 <= k < out@.len() implies search_results@.contains(#[trigger] out@[k]) by {
                        if k < prev.len() {
                            assert(out@[k] == prev[k]);
                        } else {
                            assert(out@[k] == search_results@[b as int]);
                        }
                    }
                    assert forall|x: int, y: int| 0 <= x < y < out@.len() implies out@[x].id@ != out@[y].id@ by {
                        if y == prev.len() {
                            if out@[x].id@ == out@[y].id@ {
                                assert(prev[x].id@ == search_results@[b as int].id@);
                            }
                        }
                    }
                    assert forall|x: int, y: int| 0 <= x < y < out@.len() implies adjusted_score(out@[x])
                        >= adjusted_score(out@[y]) by {
                        if y == prev.len() && prev.len() > 0 {
                            assert(adjusted_score(search_results@[b as int]) <= adjusted_score(prev[prev.len() - 1]));
                        }
                    }
                    assert forall|i: int|
                        0 <= i < search_results@.len() && !id_listed(out@, #[trigger] search_results@[i].id@) implies adjusted_score(search_results@[i])
                        <= adjusted_score(out@[out@.len() - 1]) by {
                        if id_listed(prev, search_results@[i].id@) {
                            let w = choose|k: int| 0 <= k < prev.len() && #[trigger] prev[k].id@ == search_results@[i].id@;
                            assert(out@[w] == prev[w]);
                        }
                    }
                }
            },
        }
    }
    proof {
        lemma_curated(out@, search_results@, max_results as nat);
    }
    out
}


/// A curated list never holds more than the cap, and an empty candidate set
/// curates to an empty list.
pub proof fn lemma_curated_bounded(r: Seq<MemorySearchResult>, cs: Seq<MemorySearchResult>, max: nat)
    requires
        curated(r, cs, max),
    ensures
        r.len() <= max,
        cs.len() == 0 ==> r.len() == 0,
{
    if cs.len() == 0 && r.len() > 0 {
        assert(cs.contains(r[0]));
    }
}

/// A candidate that outranks every candidate of another id is recalled
/// whenever at least one memory is asked for.
pub proof fn lemma_top_candidate_recalled(
    r: Seq<MemorySearchResult>,
    cs: Seq<MemorySearchResult>,
    max: nat,
    t: int,
)
    requires
        curated(r, cs, max),
        max >= 1,
        0 <= t < cs.len(),
        forall|i: int|
            0 <= i < cs.len() && cs[i].id@ != cs[t].id@ ==> adjusted_score(#[trigger] cs[i]) < adjusted_score(
                cs[t],
            ),
    ensures
        id_listed(r, cs[t].id@),
{
    if !id_listed(r, cs[t].id@) {
        let last = r[r.len() - 1];
        assert(cs.contains(last));
        let i = choose|i: int| 0 <= i < cs.len() && cs[i] == last;
        if last.id@ == cs[t].id@ {
            assert(r[r.len() - 1].id@ == cs[t].id@);
        } else {
            assert(adjusted_score(cs[i]) < adjusted_score(cs[t]));
        }
    }
}

/// A row at distance zero gets full vector relevance, the most any row gets.
pub proof fn lemma_zero_distance_full_relevance(d: int, denom: int)
    requires
        0 <= d,
        0 <= denom,
    ensures
        vector_relevance(0, denom) == SCORE_SCALE,
        vector_relevance(d, denom) <= SCORE_SCALE,
{
    if denom > 0 && d < denom {
        assert((d * SCORE_SCALE) / denom >= 0) by (nonlinear_arith)
            requires
                d >= 0,
                denom > 0,
        ;
        assert((0 * SCORE_SCALE as int) / denom == 0);
    }
    if denom > 0 {
        assert((0 * SCORE_SCALE as int) / denom == 0);
    }
}


proof fn lemma_text_relevance_bounded(ts: Seq<(String, u64)>, id: Seq<char>)
    requires
        has_id(ts, id),
    ensures
        text_relevance_of(ts, id) <= SCORE_SCALE,
{
    let w = choose|i: int| 0 <= i < ts.len() && ts[i].0@ == id;
    let f = choose|i: int| is_first(ts, id, i);
    assert(exists|i: int| is_first(ts, id, i)) by {
        lemma_has_first(ts, id, w);
    }
    lemma_max_value_bound(ts, f);
    let s = ts[f].1 as int;
    let m = max_value(ts);
    if m > 0 {
        assert((s * SCORE_SCALE) / m <= SCORE_SCALE) by (nonlinear_arith)
            requires
                0 <= s <= m,
                m > 0,
        ;
    }
}

proof fn lemma_has_first(s: Seq<(String, u64)>, id: Seq<char>, w: int)
    requires
        0 <= w < s.len(),
        s[w].0@ == id,
    ensures
        exists|i: int| is_first(s, id, i),
    decreases w,
{
    if exists|k: int| 0 <= k < w && s[k].0@ == id {
        let k = choose|k: int| 0 <= k < w && s[k].0@ == id;
        lemma_has_first(s, id, k);
    } else {
        assert(is_first(s, id, w));
    }
}

/// With equal default weights, a memory whose closest vector row is at
/// distance zero, and whose best text row (if any) carries the top non-zero
/// text score, merges to full relevance, which no merged id exceeds.
pub proof fn lemma_self_match_scores_highest(
    vs: Seq<(String, u64)>,
    ts: Seq<(String, u64)>,
    cfg: SearchConfig,
    id: Seq<char>,
    other: Seq<char>,
)
    requires
        cfg.vector_weight == DEFAULT_WEIGHT,
        cfg.text_weight == DEFAULT_WEIGHT,
        exists|i: int| is_first(vs, id, i) && vs[i].1 == 0,
        forall|j: int| is_first(ts, id, j) ==> ts[j].1 == max_value(ts) && max_value(ts) > 0,
        has_id(vs, other) || has_id(ts, other),
    ensures
        combined_score(vs, ts, id, cfg) == SCORE_SCALE,
        combined_score(vs, ts, other, cfg) <= SCORE_SCALE,
{
    let i0 = choose|i: int| is_first(vs, id, i) && vs[i].1 == 0;
    let f = choose|i: int| is_first(vs, id, i);
    lemma_first_unique(vs, id, i0, f);
    lemma_zero_distance_full_relevance(0, distance_denominator(vs));
    assert(vector_relevance_of(vs, id) == SCORE_SCALE);
    if has_id(ts, id) {
        let w = choose|i: int| 0 <= i < ts.len() && ts[i].0@ == id;
        lemma_has_first(ts, id, w);
        let j = choose|i: int| is_first(ts, id, i);
        let m = max_value(ts);
        assert(ts[j].1 == m);
        assert((m * SCORE_SCALE) / m == SCORE_SCALE) by (nonlinear_arith)
            requires
                m > 0,
        ;
        assert(text_relevance_of(ts, id) == SCORE_SCALE);
    }
    assert(has_id(vs, id));
    if has_id(vs, other) {
        let w = choose|i: int| 0 <= i < vs.len() && vs[i].0@ == other;
        lemma_has_first(vs, other, w);
        let g = choose|i: int| is_first(vs, other, i);
        lemma_zero_distance_full_relevance(vs[g].1 as int, distance_denominator(vs));
    }
    if has_id(ts, other) {
        lemma_text_relevance_bounded(ts, other);
    }
}

} // verus!
