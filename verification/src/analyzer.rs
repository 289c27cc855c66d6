use vstd::prelude::*;

verus! {

/// Whether a sequence of times never decreases.
pub open spec fn nondecreasing(s: Seq<u64>) -> bool {
    forall|i: int, j: int| 0 <= i <= j < s.len() ==> s[i] <= s[j]
}

/// The gaps between consecutive times.
pub open spec fn intervals_of(s: Seq<u64>) -> Seq<u64>
    recommends nondecreasing(s),
{
    Seq::new((if s.len() < 2 { 0 } else { s.len() - 1 }) as nat, |i: int| (s[i + 1] - s[i]) as u64)
}

/// Whether a sequence of times is in ascending order.
pub open spec fn ascending(s: Seq<u64>) -> bool {
    forall|i: int, j: int| 0 <= i < j < s.len() ==> s[i] <= s[j]
}

/// Distance between two times in milliseconds.
pub open spec fn distance(a: u64, b: u64) -> nat {
    if a >= b {
        (a - b) as nat
    } else {
        (b - a) as nat
    }
}

/// Whether `t` lies more than `gap` away from every time in `chosen`.
pub open spec fn far_from_all(chosen: Seq<u64>, t: u64, gap: u64) -> bool {
    forall|j: int| 0 <= j < chosen.len() ==> distance(t, chosen[j]) > gap
}

/// Greedy non-maximum suppression: walk the candidates from strongest to
/// weakest and keep a candidate when fewer than `max_count` are kept and it
/// lies more than `gap` away from every candidate kept so far.
/// The result lists the kept times in the order they were kept.
pub open spec fn greedy_pick(ranked: Seq<u64>, gap: u64, max_count: nat) -> Seq<u64>
    decreases ranked.len(),
{
    if ranked.len() == 0 {
        Seq::empty()
    } else {
        let kept = greedy_pick(ranked.drop_last(), gap, max_count);
        let t = ranked.last();
        if kept.len() < max_count && far_from_all(kept, t, gap) {
            kept.push(t)
        } else {
            kept
        }
    }
}

/// What the greedy selection keeps: at most `max_count` times, each one a
/// candidate, any two of them more than `gap` apart, and (when anything can be
/// kept) the strongest candidate first.
pub proof fn lemma_greedy_pick_shape(ranked: Seq<u64>, gap: u64, max_count: nat)
    ensures
        greedy_pick(ranked, gap, max_count).len() <= max_count,
        greedy_pick(ranked, gap, max_count).len() <= ranked.len(),
        forall|i: int|
            0 <= i < greedy_pick(ranked, gap, max_count).len() ==> ranked.contains(
                #[trigger] greedy_pick(ranked, gap, max_count)[i],
            ),
        forall|i: int, j: int|
            0 <= i < greedy_pick(ranked, gap, max_count).len() && 0 <= j < greedy_pick(
                ranked,
                gap,
                max_count,
            ).len() && i != j ==> distance(
                #[trigger] greedy_pick(ranked, gap, max_count)[i],
                #[trigger] greedy_pick(ranked, gap, max_count)[j],
            ) > gap,
        ranked.len() > 0 && max_count > 0 ==> greedy_pick(ranked, gap, max_count).len() > 0
            && greedy_pick(ranked, gap, max_count)[0] == ranked[0],
    decreases ranked.len(),
{
    if ranked.len() > 0 {
        let prefix = ranked.drop_last();
        lemma_greedy_pick_shape(prefix, gap, max_count);
        let kept = greedy_pick(prefix, gap, max_count);
        let g = greedy_pick(ranked, gap, max_count);
        assert forall|i: int| 0 <= i < g.len() implies ranked.contains(#[trigger] g[i]) by {
            if i < kept.len() {
                assert(prefix.contains(kept[i]));
                let k = choose|k: int| 0 <= k < prefix.len() && prefix[k] == kept[i];
                assert(ranked[k] == kept[i]);
            } else {
                assert(ranked[ranked.len() - 1] == g[i]);
            }
        }
        assert forall|i: int, j: int|
            0 <= i < g.len() && 0 <= j < g.len() && i != j implies distance(
            #[trigger] g[i],
            #[trigger] g[j],
        ) > gap by {
            if i < kept.len() && j < kept.len() {
                assert(g[i] == kept[i] && g[j] == kept[j]);
            } else if i < kept.len() {
                assert(far_from_all(kept, g[j], gap));
                assert(distance(g[j], kept[i]) > gap);
            } else {
                assert(far_from_all(kept, g[i], gap));
                assert(distance(g[i], kept[j]) > gap);
            }
        }
        if max_count > 0 {
            if prefix.len() == 0 {
                assert(kept.len() == 0);
            } else {
                assert(prefix[0] == ranked[0]);
            }
        }
    }
}

/// Whether two times lie at most `gap` milliseconds apart.
pub open spec fn within(a: u64, b: u64, gap: int) -> bool {
    a - b <= gap && b - a <= gap
}

/// Whether the time `t` lies within `gap` of some chosen time.
pub open spec fn near_some(chosen: Seq<u64>, t: u64, gap: int) -> bool {
    exists|j: int| 0 <= j < chosen.len() && within(#[trigger] chosen[j], t, gap)
}

/// Whether every candidate lies within `gap` milliseconds of some chosen
/// time (a chosen candidate lies within 0 of itself).
pub open spec fn covers(chosen: Seq<u64>, candidates: Seq<u64>, gap: int) -> bool {
    forall|k: int| 0 <= k < candidates.len() ==> near_some(chosen, #[trigger] candidates[k], gap)
}

/// The greedy selection is maximal: unless it stopped at `max_count`, every
/// candidate it left out lies within `gap` of a candidate it kept, whatever
/// the number of candidates.
pub proof fn lemma_greedy_pick_maximal(ranked: Seq<u64>, gap: u64, max_count: nat)
    ensures
        greedy_pick(ranked, gap, max_count).len() < max_count ==> covers(
            greedy_pick(ranked, gap, max_count),
            ranked,
            gap as int,
        ),
    decreases ranked.len(),
{
    if ranked.len() > 0 {
        let p = ranked.drop_last();
        lemma_greedy_pick_maximal(p, gap, max_count);
        let kept = greedy_pick(p, gap, max_count);
        let g = greedy_pick(ranked, gap, max_count);
        let t = ranked.last();
        if g.len() < max_count {
            assert(kept.len() <= g.len());
            assert(kept.len() < max_count);
            assert forall|j: int| 0 <= j < kept.len() implies g[j] == kept[j] by {}
            assert forall|k: int| 0 <= k < ranked.len() implies near_some(g, #[trigger] ranked[k], gap as int) by {
                if k < p.len() {
                    assert(ranked[k] == p[k]);
                    assert(near_some(kept, p[k], gap as int));
                    let j = choose|j: int| 0 <= j < kept.len() && within(#[trigger] kept[j], p[k], gap as int);
                    assert(g[j] == kept[j]);
                    assert(within(g[j], ranked[k], gap as int));
                } else if far_from_all(kept, t, gap) {
                    assert(g == kept.push(t));
                    assert(g[kept.len() as int] == t);
                    assert(within(g[kept.len() as int], ranked[k], gap as int));
                } else {
                    let j = choose|j: int| 0 <= j < kept.len() && !(distance(t, kept[j]) > gap);
                    assert(g[j] == kept[j]);
                    assert(within(g[j], ranked[k], gap as int));
                }
            }
        }
    }
}

/// Whether a kept candidate stronger than candidate `k` (listed before it)
/// lies within `gap` of it.
pub open spec fn near_stronger_kept(chosen: Seq<u64>, ranked: Seq<u64>, gap: int, k: int) -> bool {
    exists|i: int| 0 <= i < k && chosen.contains(#[trigger] ranked[i]) && within(ranked[i], ranked[k], gap)
}

/// Whether `x` is one of the first `k` candidates.
pub open spec fn listed_before(ranked: Seq<u64>, x: u64, k: int) -> bool {
    exists|i: int| 0 <= i < k && #[trigger] ranked[i] == x
}

/// Whether `max_count` candidates are kept and all of them are stronger than
/// candidate `k` (listed before it).
pub open spec fn full_before(chosen: Seq<u64>, ranked: Seq<u64>, max_count: nat, k: int) -> bool {
    &&& chosen.len() == max_count
    &&& forall|j: int| 0 <= j < chosen.len() ==> listed_before(ranked, #[trigger] chosen[j], k)
}

/// Whether every candidate left out of `chosen` was passed over for a cause:
/// a stronger candidate that was kept lies within `gap` of it, or
/// `max_count` candidates, all of them stronger, had already been kept.
pub open spec fn left_out_for_cause(chosen: Seq<u64>, ranked: Seq<u64>, gap: int, max_count: nat) -> bool {
    forall|k: int|
        0 <= k < ranked.len() && !chosen.contains(#[trigger] ranked[k]) ==> near_stronger_kept(chosen, ranked, gap, k)
            || full_before(chosen, ranked, max_count, k)
}

/// The greedy selection passes over a candidate only because a stronger kept
/// candidate lies within `gap` of it, or because `max_count` stronger
/// candidates were already kept.
pub proof fn lemma_greedy_pick_left_out_for_cause(ranked: Seq<u64>, gap: u64, max_count: nat)
    ensures
        left_out_for_cause(greedy_pick(ranked, gap, max_count), ranked, gap as int, max_count),
    decreases ranked.len(),
{
    if ranked.len() > 0 {
        let p = ranked.drop_last();
        lemma_greedy_pick_left_out_for_cause(p, gap, max_count);
        lemma_greedy_pick_shape(p, gap, max_count);
        let kept = greedy_pick(p, gap, max_count);
        let g = greedy_pick(ranked, gap, max_count);
        let t = ranked.last();
        let n = p.len() as int;
        assert forall|x: u64| kept.contains(x) implies g.contains(x) by {
            let j = choose|j: int| 0 <= j < kept.len() && kept[j] == x;
            assert(g[j] == kept[j]);
        }
        assert forall|k: int|
            0 <= k < ranked.len() && !g.contains(#[trigger] ranked[k]) implies near_stronger_kept(g, ranked, gap as int, k)
                || full_before(g, ranked, max_count, k) by {
            if k < n {
                assert(ranked[k] == p[k]);
                assert(!kept.contains(p[k]));
                if near_stronger_kept(kept, p, gap as int, k) {
                    let i = choose|i: int|
                        0 <= i < k && kept.contains(#[trigger] p[i]) && within(p[i], p[k], gap as int);
                    assert(ranked[i] == p[i]);
                    assert(g.contains(ranked[i]));
                    assert(near_stronger_kept(g, ranked, gap as int, k));
                } else {
                    assert(full_before(kept, p, max_count, k));
                    assert(g == kept);
                    assert forall|j: int| 0 <= j < g.len() implies listed_before(ranked, #[trigger] g[j], k) by {
                        assert(kept[j] == g[j]);
                        assert(listed_before(p, kept[j], k));
                        let i = choose|i: int| 0 <= i < k && #[trigger] p[i] == kept[j];
                        assert(ranked[i] == p[i]);
                    }
                }
            } else {
                assert(ranked[k] == t);
                if far_from_all(kept, t, gap) && kept.len() < max_count {
                    assert(g[kept.len() as int] == t);
                    assert(false);
                } else if kept.len() >= max_count {
                    assert(g == kept);
                    assert forall|j: int| 0 <= j < g.len() implies listed_before(ranked, #[trigger] g[j], k) by {
                        assert(p.contains(kept[j]));
                        let i = choose|i: int| 0 <= i < p.len() && p[i] == kept[j];
                        assert(ranked[i] == p[i]);
                    }
                } else {
                    let j = choose|j: int| 0 <= j < kept.len() && !(distance(t, kept[j]) > gap);
                    assert(p.contains(kept[j]));
                    let i = choose|i: int| 0 <= i < p.len() && p[i] == kept[j];
                    assert(ranked[i] == p[i]);
                    assert(g.contains(kept[j]));
                    assert(within(ranked[i], ranked[k], gap as int));
                }
            }
        }
        assert(left_out_for_cause(g, ranked, gap as int, max_count));
    }
}

/// Every beat interval is the difference of two consecutive beats, and a
/// list of `n >= 2` beats has exactly `n - 1` of them (none for fewer beats).
pub proof fn lemma_intervals_shape(s: Seq<u64>)
    requires
        nondecreasing(s),
    ensures
        s.len() >= 2 ==> intervals_of(s).len() == s.len() - 1,
        s.len() < 2 ==> intervals_of(s).len() == 0,
        forall|i: int| 0 <= i < intervals_of(s).len() ==> #[trigger] intervals_of(s)[i] == s[i + 1] - s[i],
{
    assert forall|i: int| 0 <= i < intervals_of(s).len() implies #[trigger] intervals_of(s)[i] == s[i + 1] - s[i] by {
        assert(s[i] <= s[i + 1]);
    }
}

/// Width of a tempo histogram bin, in milliseconds.
pub const BIN_WIDTH_MS: u64 = 50;

/// Fewest beats the selection tries to return before relaxing the spacing.
pub const TARGET_MIN: usize = 3;

/// Most beats the selection returns.
pub const TARGET_MAX: usize = 5;

/// Smallest spacing, in milliseconds, between two selected beats.
pub const MIN_GAP_FLOOR_MS: u64 = 300;

/// Two onset candidates must lie more than this many milliseconds apart.
pub const MIN_CANDIDATE_GAP_MS: u64 = 120;

/// The histogram bin an interval falls into.
pub open spec fn bin_of(v: u64) -> u64 {
    ((v / BIN_WIDTH_MS) * BIN_WIDTH_MS) as u64
}

/// How many intervals of `s` fall into bin `b`.
pub open spec fn bin_count(s: Seq<u64>, b: u64) -> nat
    decreases s.len(),
{
    if s.len() == 0 {
        0
    } else {
        bin_count(s.drop_last(), b) + if bin_of(s.last()) == b {
            1nat
        } else {
            0nat
        }
    }
}

/// Whether `b` is a most frequent bin among the intervals of `s`.
pub open spec fn is_mode_bin(s: Seq<u64>, b: u64) -> bool {
    &&& exists|i: int| 0 <= i < s.len() && bin_of(s[i]) == b
    &&& forall|i: int| 0 <= i < s.len() ==> bin_count(s, #[trigger] bin_of(s[i])) <= bin_count(s, b)
}

/// The spacing used for the first selection pass: a sixth of the span up to
/// the last onset, but never less than the floor.
pub open spec fn beat_gap_ms(last_onset_ms: u64) -> u64 {
    if last_onset_ms / 6 > MIN_GAP_FLOOR_MS {
        last_onset_ms / 6
    } else {
        MIN_GAP_FLOOR_MS
    }
}

/// The beats chosen for editing, in the order they were kept: one pass at the
/// normal spacing, and a second pass at half that spacing when the first kept
/// fewer than `TARGET_MIN` beats although at least that many candidates exist.
pub open spec fn chosen_beats(ranked: Seq<u64>, last_onset_ms: u64) -> Seq<u64> {
    let gap = beat_gap_ms(last_onset_ms);
    let first = greedy_pick(ranked, gap, TARGET_MAX as nat);
    if first.len() < TARGET_MIN && ranked.len() >= TARGET_MIN {
        greedy_pick(ranked, gap / 2, TARGET_MAX as nat)
    } else {
        first
    }
}

/// Whether an onset at `t` may follow the previously kept onset `last`.
pub open spec fn onset_admissible(last: Option<u64>, t: u64) -> bool {
    match last {
        None => true,
        Some(l) => t > l && t - l > MIN_CANDIDATE_GAP_MS,
    }
}

/// The admission rule: the first onset is always kept, and after a kept
/// onset at `l` an onset at `t` is kept exactly when `t > l + 120`, however
/// far after `l` it lies.
pub proof fn lemma_onset_admission(last: Option<u64>, t: u64)
    ensures
        last is None ==> onset_admissible(last, t),
        last matches Some(l) ==> (onset_admissible(last, t) <==> t > l + 120),
{
}

/// How many times of `s` lie in `[lo, hi)`.
pub open spec fn count_between(s: Seq<u64>, lo: int, hi: int) -> nat {
    s.filter(|v: u64| lo <= v && v < hi).len()
}

/// An interval's bin is the multiple of 50 at or below it; it falls into the
/// bin starting at a multiple `b` of 50 exactly when it lies in `[b, b + 50)`.
pub proof fn lemma_bin_window(v: u64, b: u64)
    requires
        b % 50 == 0,
    ensures
        bin_of(v) % 50 == 0,
        bin_of(v) <= v < bin_of(v) + 50,
        bin_of(v) == v / 50 * 50,
        (bin_of(v) == b) <==> (b <= v && v < b + 50),
{
}

/// The size of a bin starting at a multiple `b` of 50 is the number of
/// intervals in `[b, b + 50)`.
pub proof fn lemma_bin_count_window(s: Seq<u64>, b: u64)
    requires
        b % 50 == 0,
    ensures
        bin_count(s, b) == count_between(s, b as int, b + 50),
    decreases s.len(),
{
    reveal(Seq::filter);
    let pred = |v: u64| (b as int) <= v && v < b + 50;
    assert(count_between(s, b as int, b + 50) == s.filter(pred).len());
    if s.len() > 0 {
        lemma_bin_count_window(s.drop_last(), b);
        lemma_bin_window(s.last(), b);
        assert(count_between(s.drop_last(), b as int, b + 50) == s.drop_last().filter(pred).len());
        assert(pred(s.last()) == (bin_of(s.last()) == b));
    }
}

/// A most frequent bin is a multiple of 50 that holds an interval, and no
/// interval's 50 ms window `[w / 50 * 50, w / 50 * 50 + 50)` holds more
/// intervals than the window `[b, b + 50)`.
pub proof fn lemma_mode_bin_is_fullest_window(s: Seq<u64>, b: u64)
    requires
        is_mode_bin(s, b),
    ensures
        b % 50 == 0,
        exists|i: int| 0 <= i < s.len() && #[trigger] s[i] / 50 * 50 == b,
        forall|i: int|
            0 <= i < s.len() ==> count_between(s, #[trigger] s[i] / 50 * 50, s[i] / 50 * 50 + 50) <= count_between(
                s,
                b as int,
                b + 50,
            ),
{
    let i0 = choose|i: int| 0 <= i < s.len() && bin_of(s[i]) == b;
    lemma_bin_window(s[i0], 0);
    assert(s[i0] / 50 * 50 == b);
    lemma_bin_count_window(s, b);
    assert forall|i: int|
        0 <= i < s.len() implies count_between(s, #[trigger] s[i] / 50 * 50, s[i] / 50 * 50 + 50) <= count_between(
        s,
        b as int,
        b + 50,
    ) by {
        lemma_bin_window(s[i], 0);
        lemma_bin_count_window(s, bin_of(s[i]));
        assert(bin_count(s, bin_of(s[i])) <= bin_count(s, b));
    }
}

/// The beats chosen for editing cover the candidates: when the pass at the
/// normal spacing `g` keeps at least 3 beats (or fewer than 3 candidates
/// exist), its beats lie more than `g` apart and every candidate lies within
/// `g` of one of them unless 5 are chosen; otherwise the pass is repeated at
/// `g / 2`, again up to 5 beats, and every candidate lies within `g / 2` of a
/// chosen beat unless 5 are chosen. In either pass a candidate is left out
/// only for a stronger chosen beat within the spacing, or because 5 stronger
/// beats were already chosen.
pub proof fn lemma_chosen_beats_cover(ranked: Seq<u64>, last_onset_ms: u64)
    ensures
        ({
            let g = if last_onset_ms / 6 > 300 { last_onset_ms / 6 } else { 300 };
            let c = chosen_beats(ranked, last_onset_ms);
            let relaxed = greedy_pick(ranked, g, 5).len() < 3 && ranked.len() >= 3;
            &&& c.len() <= 5
            &&& !relaxed ==> (c.len() == 5 || covers(c, ranked, g as int))
            &&& relaxed ==> (c.len() == 5 || covers(c, ranked, (g / 2) as int))
            &&& c.len() < 3 && ranked.len() >= 3 ==> covers(c, ranked, (g / 2) as int)
            &&& !relaxed ==> left_out_for_cause(c, ranked, g as int, 5)
            &&& relaxed ==> left_out_for_cause(c, ranked, (g / 2) as int, 5)
            &&& !relaxed ==> forall|i: int, j: int|
                0 <= i < c.len() && 0 <= j < c.len() && i != j ==> !within(#[trigger] c[i], #[trigger] c[j], g as int)
            &&& relaxed ==> forall|i: int, j: int|
                0 <= i < c.len() && 0 <= j < c.len() && i != j ==> !within(
                    #[trigger] c[i],
                    #[trigger] c[j],
                    (g / 2) as int,
                )
        }),
{
    let g = beat_gap_ms(last_onset_ms);
    let first = greedy_pick(ranked, g, 5);
    let second = greedy_pick(ranked, g / 2, 5);
    let c = chosen_beats(ranked, last_onset_ms);
    if first.len() < 3 && ranked.len() >= 3 {
        assert(c == second);
        lemma_greedy_pick_shape(ranked, g / 2, 5);
        lemma_greedy_pick_maximal(ranked, g / 2, 5);
        lemma_greedy_pick_left_out_for_cause(ranked, g / 2, 5);
    } else {
        assert(c == first);
        lemma_greedy_pick_shape(ranked, g, 5);
        lemma_greedy_pick_maximal(ranked, g, 5);
        lemma_greedy_pick_left_out_for_cause(ranked, g, 5);
    }
}

/// Whether consecutive onsets lie more than the candidate gap apart.
pub open spec fn well_spaced_onsets(s: Seq<u64>) -> bool {
    forall|i: int| 0 <= i < s.len() - 1 ==> onset_admissible(Some(#[trigger] s[i]), s[i + 1])
}

/// Onsets kept by the admission rule come out in strictly increasing order,
/// so their intervals can be taken.
#[verifier::spinoff_prover]
pub proof fn lemma_admitted_onsets_increase(s: Seq<u64>)
    requires
        well_spaced_onsets(s),
    ensures
        forall|i: int, j: int| 0 <= i < j < s.len() ==> s[j] - s[i] > MIN_CANDIDATE_GAP_MS,
        nondecreasing(s),
    decreases s.len(),
{
    if s.len() > 1 {
        let p = s.drop_last();
        assert(well_spaced_onsets(p)) by {
            assert forall|i: int| 0 <= i < p.len() - 1 implies onset_admissible(Some(#[trigger] p[i]), p[i + 1]) by {
                assert(onset_admissible(Some(s[i]), s[i + 1]));
            }
        }
        lemma_admitted_onsets_increase(p);
        let n = s.len() - 1;
        assert(onset_admissible(Some(s[n - 1]), s[n]));
        assert forall|i: int, j: int| 0 <= i < j < s.len() implies s[j] - s[i] > MIN_CANDIDATE_GAP_MS by {
            if j < n {
                assert(p[i] == s[i] && p[j] == s[j]);
            } else if i < n - 1 {
                assert(p[i] == s[i] && p[n - 1] == s[n - 1]);
            }
        }
    }
}

/// Beat analysis over millisecond timestamps.
pub struct AudioAnalyzer;

impl AudioAnalyzer {
    /// The gaps between consecutive beats, in milliseconds.
    pub fn beat_intervals(beats_ms: &Vec<u64>) -> (r: Vec<u64>)
        requires
            nondecreasing(beats_ms@),
        ensures
            r@ == intervals_of(beats_ms@),
            beats_ms@.len() >= 2 ==> r@.len() == beats_ms@.len() - 1,
            beats_ms@.len() < 2 ==> r@.len() == 0,
            forall|i: int| 0 <= i < r@.len() ==> #[trigger] r@[i] == beats_ms@[i + 1] - beats_ms@[i],
    {
        proof {
            lemma_intervals_shape(beats_ms@);
        }
        let mut r: Vec<u64> = Vec::new();
        let n = beats_ms.len();
        if n < 2 {
            return r;
        }
        let mut i: usize = 1;
        while i < n
            invariant
                1 <= i <= n,
                n == beats_ms@.len(),
                nondecreasing(beats_ms@),
                r@.len() == i - 1,
                forall|k: int| 0 <= k < i - 1 ==> r@[k] == beats_ms@[k + 1] - beats_ms@[k],
            decreases n - i,
        {
            let d = beats_ms[i] - beats_ms[i - 1];
            r.push(d);
            i = i + 1;
        }
        assert(r@ =~= intervals_of(beats_ms@));
        r
    }

    /// Whether an onset candidate at `t_ms` may be kept after the previously
    /// kept candidate `last_ms`: candidates closer than the minimum gap (or not
    /// later) are dropped as duplicates of a neighbouring frame.
    pub fn onset_spacing_ok(last_ms: Option<u64>, t_ms: u64) -> (r: bool)
        ensures
            r == onset_admissible(last_ms, t_ms),
            last_ms is None ==> r,
            last_ms matches Some(l) ==> (r <==> t_ms > l + 120),
    {
        proof {
            lemma_onset_admission(last_ms, t_ms);
        }
        match last_ms {
            None => true,
            Some(l) => t_ms > l && t_ms - l > MIN_CANDIDATE_GAP_MS,
        }
    }

    /// The most frequent 50 ms bin among the given intervals, if any.
    /// Any bin of highest frequency may be returned when several tie.
    pub fn interval_mode_bin(intervals_ms: &Vec<u64>) -> (r: Option<u64>)
        ensures
            r is None <==> intervals_ms@.len() == 0,
            r matches Some(b) ==> is_mode_bin(intervals_ms@, b),
            r matches Some(b) ==> b % 50 == 0,
            r matches Some(b) ==> exists|i: int|
                0 <= i < intervals_ms@.len() && #[trigger] intervals_ms@[i] / 50 * 50 == b,
            r matches Some(b) ==> forall|i: int|
                0 <= i < intervals_ms@.len() ==> count_between(
                    intervals_ms@,
                    #[trigger] intervals_ms@[i] / 50 * 50,
                    intervals_ms@[i] / 50 * 50 + 50,
                ) <= count_between(intervals_ms@, b as int, b + 50),
    {
        let n = intervals_ms.len();
        if n == 0 {
            return None;
        }
        let mut best: u64 = intervals_ms[0] / BIN_WIDTH_MS * BIN_WIDTH_MS;
        let mut best_count: usize = Self::count_in_bin(intervals_ms, best);
        let mut i: usize = 1;
        while i < n
            invariant
                1 <= i <= n,
                n == intervals_ms@.len(),
                best_count == bin_count(intervals_ms@, best),
                exists|k: int| 0 <= k < n && bin_of(intervals_ms@[k]) == best,
                forall|k: int| 0 <= k < i ==> bin_count(intervals_ms@, #[trigger] bin_of(intervals_ms@[k])) <= best_count,
            decreases n - i,
        {
            let b = intervals_ms[i] / BIN_WIDTH_MS * BIN_WIDTH_MS;
            let c = Self::count_in_bin(intervals_ms, b);
            if c > best_count {
                best = b;
                best_count = c;
            }
            i = i + 1;
        }
        proof {
            lemma_mode_bin_is_fullest_window(intervals_ms@, best);
        }
        Some(best)
    }

    fn count_in_bin(values: &Vec<u64>, b: u64) -> (c: usize)
        ensures
            c == bin_count(values@, b),
    {
        let n = values.len();
        let mut c: usize = 0;
        let mut j: usize = 0;
        while j < n
            invariant
                j <= n,
                n == values@.len(),
                c == bin_count(values@.take(j as int), b),
                c <= j,
            decreases n - j,
        {
            proof {
                assert(values@.take(j + 1).drop_last() =~= values@.take(j as int));
            }
            if values[j] / BIN_WIDTH_MS * BIN_WIDTH_MS == b {
                c = c + 1;
            }
            j = j + 1;
        }
        assert(values@.take(n as int) =~= values@);
        c
    }

    /// Chooses the beats to show for editing from onset candidates listed
    /// strongest first, given the time of the last onset in the track.
    /// Returns the chosen times in chronological order.
    pub fn select_beats(ranked_ms: &Vec<u64>, last_onset_ms: u64) -> (r: Vec<u64>)
        ensures
            ascending(r@),
            r@.to_multiset() == chosen_beats(ranked_ms@, last_onset_ms).to_multiset(),
            r@.len() <= TARGET_MAX,
            forall|i: int| 0 <= i < r@.len() ==> ranked_ms@.contains(#[trigger] r@[i]),
            forall|i: int, j: int|
                0 <= i < j < r@.len() ==> r@[j] - r@[i] > beat_gap_ms(last_onset_ms) / 2,
            ranked_ms@.len() > 0 ==> r@.contains(ranked_ms@[0]),
            ({
                let g = if last_onset_ms / 6 > 300 { last_onset_ms / 6 } else { 300 };
                let relaxed = greedy_pick(ranked_ms@, g, 5).len() < 3 && ranked_ms@.len() >= 3;
                &&& r@.len() <= 5
                &&& !relaxed ==> forall|i: int, j: int| 0 <= i < j < r@.len() ==> r@[j] - r@[i] > g
                &&& !relaxed ==> (r@.len() == 5 || covers(r@, ranked_ms@, g as int))
                &&& relaxed ==> forall|i: int, j: int| 0 <= i < j < r@.len() ==> r@[j] - r@[i] > g / 2
                &&& relaxed ==> (r@.len() == 5 || covers(r@, ranked_ms@, (g / 2) as int))
                &&& r@.len() < 3 && ranked_ms@.len() >= 3 ==> covers(r@, ranked_ms@, (g / 2) as int)
                &&& !relaxed ==> left_out_for_cause(r@, ranked_ms@, g as int, 5)
                &&& relaxed ==> left_out_for_cause(r@, ranked_ms@, (g / 2) as int, 5)
            }),
    {
        let gap = if last_onset_ms / 6 > MIN_GAP_FLOOR_MS {
            last_onset_ms / 6
        } else {
            MIN_GAP_FLOOR_MS
        };
        let first = Self::pick_salient_beats(ranked_ms, gap, TARGET_MAX);
        let ghost relaxed = greedy_pick(ranked_ms@, gap, 5).len() < 3 && ranked_ms@.len() >= 3;
        proof {
            vstd::seq_lib::to_multiset_len(first@);
            vstd::seq_lib::to_multiset_len(greedy_pick(ranked_ms@, gap, TARGET_MAX as nat));
            assert(gap == beat_gap_ms(last_onset_ms));
            assert(relaxed == (first@.len() < 3 && ranked_ms@.len() >= 3));
        }
        if first.len() < TARGET_MIN && ranked_ms.len() >= TARGET_MIN {
            proof {
                assert(relaxed);
            }
            Self::pick_salient_beats(ranked_ms, gap / 2, TARGET_MAX)
        } else {
            proof {
                assert(!relaxed);
                assert(ranked_ms@.len() >= 3 ==> first@.len() >= 3);
            }
            first
        }
    }

    /// Picks up to `max_count` beats from candidates given strongest first,
    /// keeping each one only if it lies more than `min_gap_ms` away from every
    /// beat already kept. Returns the kept times in chronological order.
    pub fn pick_salient_beats(ranked_ms: &Vec<u64>, min_gap_ms: u64, max_count: usize) -> (r: Vec<u64>)
        ensures
            ascending(r@),
            r@.to_multiset() == greedy_pick(ranked_ms@, min_gap_ms, max_count as nat).to_multiset(),
            r@.len() <= max_count,
            forall|i: int| 0 <= i < r@.len() ==> ranked_ms@.contains(#[trigger] r@[i]),
            forall|i: int, j: int| 0 <= i < j < r@.len() ==> r@[j] - r@[i] > min_gap_ms,
            r@.len() < max_count ==> covers(r@, ranked_ms@, min_gap_ms as int),
            ranked_ms@.len() > 0 && max_count > 0 ==> r@.contains(ranked_ms@[0]),
            left_out_for_cause(r@, ranked_ms@, min_gap_ms as int, max_count as nat),
    {
        let mut selected: Vec<u64> = Vec::new();
        let n = ranked_ms.len();
        let mut i: usize = 0;
        while i < n
            invariant
                i <= n,
                n == ranked_ms@.len(),
                selected@ == greedy_pick(ranked_ms@.take(i as int), min_gap_ms, max_count as nat),
            decreases n - i,
        {
            let t = ranked_ms[i];
            proof {
                assert(ranked_ms@.take(i + 1).drop_last() =~= ranked_ms@.take(i as int));
                assert(ranked_ms@.take(i + 1).last() == t);
            }
            if selected.len() < max_count {
                let far = Self::far_from_all_exec(&selected, t, min_gap_ms);
                if far {
                    selected.push(t);
                }
            }
            i = i + 1;
        }
        assert(ranked_ms@.take(n as int) =~= ranked_ms@);
        let r = Self::sort_ascending(&selected);
        proof {
            Self::lemma_sorted_copy_keeps_spacing(ranked_ms@, min_gap_ms, max_count as nat, r@);
            Self::lemma_sorted_copy_covers(ranked_ms@, min_gap_ms, max_count as nat, r@);
        }
        r
    }

    proof fn lemma_sorted_copy_keeps_spacing(ranked: Seq<u64>, gap: u64, max_count: nat, r: Seq<u64>)
        requires
            ascending(r),
            r.to_multiset() == greedy_pick(ranked, gap, max_count).to_multiset(),
        ensures
            r.len() <= max_count,
            forall|i: int| 0 <= i < r.len() ==> ranked.contains(#[trigger] r[i]),
            forall|i: int, j: int| 0 <= i < j < r.len() ==> r[j] - r[i] > gap,
    {
        broadcast use vstd::seq_lib::group_to_multiset_ensures;
        broadcast use vstd::multiset::group_multiset_axioms;
        let g = greedy_pick(ranked, gap, max_count);
        lemma_greedy_pick_shape(ranked, gap, max_count);
        assert(g.no_duplicates()) by {
            assert forall|i: int, j: int| 0 <= i < g.len() && 0 <= j < g.len() && i != j implies g[i] != g[j] by {
                assert(distance(g[i], g[j]) > gap);
            }
        }
        g.lemma_multiset_has_no_duplicates();
        vstd::seq_lib::to_multiset_len(r);
        vstd::seq_lib::to_multiset_len(g);
        assert(r.len() == g.len());
        assert forall|i: int| 0 <= i < r.len() implies ranked.contains(#[trigger] r[i]) by {
            assert(r.contains(r[i]));
            assert(g.to_multiset().count(r[i]) > 0);
            assert(g.contains(r[i]));
            let k = choose|k: int| 0 <= k < g.len() && g[k] == r[i];
            assert(ranked.contains(g[k]));
        }
        r.lemma_multiset_has_no_duplicates_conv();
        assert forall|i: int, j: int| 0 <= i < j < r.len() implies r[j] - r[i] > gap by {
            assert(r[i] != r[j]);
            assert(r.contains(r[i]) && r.contains(r[j]));
            assert(g.to_multiset().count(r[i]) > 0 && g.to_multiset().count(r[j]) > 0);
            assert(g.contains(r[i]) && g.contains(r[j]));
            let a = choose|a: int| 0 <= a < g.len() && g[a] == r[i];
            let b = choose|b: int| 0 <= b < g.len() && g[b] == r[j];
            assert(distance(g[a], g[b]) > gap);
        }
    }

    proof fn lemma_same_elements(g: Seq<u64>, r: Seq<u64>)
        requires
            r.to_multiset() == g.to_multiset(),
        ensures
            r.len() == g.len(),
            forall|x: u64| #![trigger r.contains(x)] #![trigger g.contains(x)] r.contains(x) <==> g.contains(x),
    {
        broadcast use vstd::seq_lib::group_to_multiset_ensures;
        vstd::seq_lib::to_multiset_len(r);
        vstd::seq_lib::to_multiset_len(g);
        assert forall|x: u64| r.contains(x) <==> g.contains(x) by {
            if r.contains(x) {
                assert(r.to_multiset().count(x) > 0);
            }
            if g.contains(x) {
                assert(g.to_multiset().count(x) > 0);
            }
        }
    }

    proof fn lemma_same_elements_cover(g: Seq<u64>, r: Seq<u64>, ranked: Seq<u64>, gap: int)
        requires
            forall|x: u64| #![trigger r.contains(x)] #![trigger g.contains(x)] r.contains(x) <==> g.contains(x),
            covers(g, ranked, gap),
        ensures
            covers(r, ranked, gap),
    {
        assert forall|k: int| 0 <= k < ranked.len() implies near_some(r, #[trigger] ranked[k], gap) by {
            assert(near_some(g, ranked[k], gap));
            let a = choose|a: int| 0 <= a < g.len() && within(#[trigger] g[a], ranked[k], gap);
            assert(g.contains(g[a]));
            assert(r.contains(g[a]));
            let j = choose|j: int| 0 <= j < r.len() && r[j] == g[a];
            assert(within(r[j], ranked[k], gap));
        }
    }

    proof fn lemma_same_elements_left_out(g: Seq<u64>, r: Seq<u64>, ranked: Seq<u64>, gap: int, max_count: nat)
        requires
            r.len() == g.len(),
            forall|x: u64| #![trigger r.contains(x)] #![trigger g.contains(x)] r.contains(x) <==> g.contains(x),
            left_out_for_cause(g, ranked, gap, max_count),
        ensures
            left_out_for_cause(r, ranked, gap, max_count),
    {
        assert forall|k: int|
            0 <= k < ranked.len() && !r.contains(#[trigger] ranked[k]) implies near_stronger_kept(r, ranked, gap, k)
                || full_before(r, ranked, max_count, k) by {
            assert(!g.contains(ranked[k]));
            if near_stronger_kept(g, ranked, gap, k) {
                let i = choose|i: int| 0 <= i < k && g.contains(#[trigger] ranked[i]) && within(ranked[i], ranked[k], gap);
                assert(r.contains(ranked[i]));
                assert(near_stronger_kept(r, ranked, gap, k));
            } else {
                assert(full_before(g, ranked, max_count, k));
                assert forall|j: int| 0 <= j < r.len() implies listed_before(ranked, #[trigger] r[j], k) by {
                    let x = r[j];
                    assert(r.contains(x));
                    assert(g.contains(x));
                    let a = choose|a: int| 0 <= a < g.len() && g[a] == x;
                    assert(listed_before(ranked, g[a], k));
                }
            }
        }
    }

    proof fn lemma_sorted_copy_covers(ranked: Seq<u64>, gap: u64, max_count: nat, r: Seq<u64>)
        requires
            r.to_multiset() == greedy_pick(ranked, gap, max_count).to_multiset(),
        ensures
            r.len() < max_count ==> covers(r, ranked, gap as int),
            ranked.len() > 0 && max_count > 0 ==> r.contains(ranked[0]),
            left_out_for_cause(r, ranked, gap as int, max_count),
    {
        let g = greedy_pick(ranked, gap, max_count);
        lemma_greedy_pick_shape(ranked, gap, max_count);
        lemma_greedy_pick_maximal(ranked, gap, max_count);
        lemma_greedy_pick_left_out_for_cause(ranked, gap, max_count);
        Self::lemma_same_elements(g, r);
        if r.len() < max_count {
            Self::lemma_same_elements_cover(g, r, ranked, gap as int);
        }
        Self::lemma_same_elements_left_out(g, r, ranked, gap as int, max_count);
        if ranked.len() > 0 && max_count > 0 {
            assert(g[0] == ranked[0]);
            assert(g.contains(g[0]));
        }
    }

    fn far_from_all_exec(chosen: &Vec<u64>, t: u64, gap: u64) -> (r: bool)
        ensures
            r == far_from_all(chosen@, t, gap),
    {
        let n = chosen.len();
        let mut j: usize = 0;
        while j < n
            invariant
                j <= n,
                n == chosen@.len(),
                forall|k: int| 0 <= k < j ==> distance(t, chosen@[k]) > gap,
            decreases n - j,
        {
            let b = chosen[j];
            let d = if t >= b { t - b } else { b - t };
            if d <= gap {
                return false;
            }
            j = j + 1;
        }
        true
    }

    /// Sorts times into ascending order (insertion sort).
    fn sort_ascending(v: &Vec<u64>) -> (r: Vec<u64>)
        ensures
            ascending(r@),
            r@.to_multiset() == v@.to_multiset(),
    {
        broadcast use vstd::seq_lib::group_to_multiset_ensures;
        let mut r: Vec<u64> = Vec::new();
        let n = v.len();
        let mut i: usize = 0;
        while i < n
            invariant
                i <= n,
                n == v@.len(),
                ascending(r@),
                r@.to_multiset() == v@.take(i as int).to_multiset(),
            decreases n - i,
        {
            let x = v[i];
            let mut p: usize = 0;
            let m = r.len();
            while p < m && r[p] <= x
                invariant
                    p <= m,
                    m == r@.len(),
                    forall|k: int| 0 <= k < p ==> r@[k] <= x,
                decreases m - p,
            {
                p = p + 1;
            }
            let ghost old_r = r@;
            r.insert(p, x);
            proof {
                assert(r@ == old_r.insert(p as int, x));
                assert forall|a: int, b: int| 0 <= a < b < r@.len() implies r@[a] <= r@[b] by {
                    if b < p {
                    } else if b == p {
                    } else if a < p {
                        assert(old_r[a] <= x);
                        assert(r@[b] == old_r[b - 1]);
                        assert(old_r[p as int] > x);
                    } else if a == p {
                        assert(r@[b] == old_r[b - 1]);
                        assert(old_r[p as int] > x);
                    } else {
                    }
                }
                assert(v@.take(i + 1) =~= v@.take(i as int).push(x));
                vstd::seq_lib::to_multiset_insert(old_r, p as int, x);
                vstd::seq_lib::to_multiset_build(v@.take(i as int), x);
            }
            i = i + 1;
        }
        assert(v@.take(n as int) =~= v@);
        r
    }
}

} // verus!
