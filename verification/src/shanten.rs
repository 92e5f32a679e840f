//! Count representation of a hand and the shanten-distance search.
//!
//! A hand is aggregated into per-kind counts: one length-9 array per numbered
//! suit and a length-7 array for the honor kinds. The shanten distance is the
//! minimum number of tile exchanges separating the hand from a completed one;
//! `-1` means the hand is already complete.

use vstd::prelude::*;

use crate::mentsu::{all_melds, append_all, prepend_each, spec_pair_meld, spec_run_meld, spec_triplet_meld, views_of, is_meld, is_pair, is_run, is_triplet, leq34, lemma_all_melds_concat, lemma_contrib_append, lemma_contrib_prepend, lemma_leq_same_sum, lemma_melds_total, lemma_pair_vec, lemma_psum_add, lemma_psum_le, lemma_run_vec, lemma_tiles_vec_snoc, lemma_triplet_vec, meld_vec, tiles_vec, vec_add, Mentsu, MentsuFlag, MentsuPai, MentsuType};
use crate::tile::PaiT;

verus! {

/// Counts of one numbered suit as mathematical integers.
pub open spec fn counts9(a: [i32; 9]) -> Seq<int> {
    a@.map_values(|x: i32| x as int)
}

/// Counts of the honor kinds as mathematical integers.
pub open spec fn counts7(a: [i32; 7]) -> Seq<int> {
    a@.map_values(|x: i32| x as int)
}

/// The all-zero count vector over the 34 tile kinds.
pub open spec fn zero_counts() -> Seq<int> {
    Seq::new(34, |i: int| 0int)
}

/// Per-kind tally of a tile sequence, as a 34-entry count vector.
pub open spec fn tally(pais: Seq<PaiT>) -> Seq<int>
    decreases pais.len(),
{
    if pais.len() == 0 {
        zero_counts()
    } else {
        let prev = tally(pais.drop_last());
        let k = pais.last().pai_num as int;
        if k < 34 {
            prev.update(k, prev[k] + 1)
        } else {
            prev
        }
    }
}

/// Every tile of the sequence has an in-range kind.
pub open spec fn all_kinds_valid(pais: Seq<PaiT>) -> bool {
    forall|i: int| 0 <= i < pais.len() ==> pais[i].pai_num < 34
}

pub proof fn lemma_tally_len(pais: Seq<PaiT>)
    ensures
        tally(pais).len() == 34,
    decreases pais.len(),
{
    if pais.len() > 0 {
        lemma_tally_len(pais.drop_last());
    }
}

/// Each tally entry is at most the number of tiles, and at least zero.
pub proof fn lemma_tally_bounds(pais: Seq<PaiT>)
    ensures
        forall|k: int| 0 <= k < 34 ==> 0 <= #[trigger] tally(pais)[k] <= pais.len(),
    decreases pais.len(),
{
    lemma_tally_len(pais);
    if pais.len() > 0 {
        lemma_tally_bounds(pais.drop_last());
        lemma_tally_len(pais.drop_last());
    }
}

/// One extraction outcome for a suit: completed groups (melds), partial
/// groups (two tiles short of one), and isolated tiles.
#[derive(Clone, Copy, Debug, PartialEq, Eq, Structural)]
pub struct GroupCount {
    pub mentsu: i32,
    pub tahtsu: i32,
    pub koritsu: i32,
}

/// The two extremal outcomes a suit's search must track: neither a purely
/// isolation-minimizing nor a purely group-maximizing local choice is
/// globally optimal, so both are carried and recombined across suits.
#[derive(Clone, Copy, Debug, PartialEq, Eq, Structural)]
pub struct SuitExtremes {
    /// Fewest isolated tiles; ties broken toward fewer partial groups.
    pub min_koritsu: GroupCount,
    /// Most completed groups; ties broken toward more partial groups.
    pub max_mentsu: GroupCount,
}

/// A triple of mathematical integers standing for a [`GroupCount`].
pub open spec fn gc(g: GroupCount) -> (int, int, int) {
    (g.mentsu as int, g.tahtsu as int, g.koritsu as int)
}

/// The closed-form distance for a fixed extraction: groups capped at 4,
/// groups plus partials capped at 4, total blocks capped at 5 (4 when a pair
/// head is assumed, which then counts as one extra partial group).
pub open spec fn spec_shanten(n_mentsu: int, n_tahtsu: int, n_koritsu: int, b_atama: bool) -> int {
    let n = if b_atama {
        4int
    } else {
        5int
    };
    let m1 = if n_mentsu > 4 {
        4int
    } else {
        n_mentsu
    };
    let t1 = if n_mentsu > 4 {
        n_tahtsu + n_mentsu - 4
    } else {
        n_tahtsu
    };
    let t2 = if m1 + t1 > 4 {
        4 - m1
    } else {
        t1
    };
    let k2 = if m1 + t1 > 4 {
        n_koritsu + m1 + t1 - 4
    } else {
        n_koritsu
    };
    let k3 = if m1 + t2 + k2 > n {
        n - m1 - t2
    } else {
        k2
    };
    let t4 = if b_atama {
        t2 + 1
    } else {
        t2
    };
    13 - m1 * 3 - t4 * 2 - k3
}

/// Reduces an extraction triple to a shanten distance. `-1` means complete.
pub fn shanten(n_mentsu: i32, n_tahtsu: i32, n_koritsu: i32, b_atama: bool) -> (r: i32)
    requires
        0 <= n_mentsu <= 200,
        0 <= n_tahtsu <= 200,
        0 <= n_koritsu <= 200,
    ensures
        r == spec_shanten(n_mentsu as int, n_tahtsu as int, n_koritsu as int, b_atama),
        -1 <= r <= 13,
{
    let mut n_mentsu = n_mentsu;
    let mut n_tahtsu = n_tahtsu;
    let mut n_koritsu = n_koritsu;
    let n: i32 = if b_atama {
        4
    } else {
        5
    };
    if n_mentsu > 4 {
        n_tahtsu = n_tahtsu + n_mentsu - 4;
        n_mentsu = 4;
    }
    if n_mentsu + n_tahtsu > 4 {
        n_koritsu = n_koritsu + n_mentsu + n_tahtsu - 4;
        n_tahtsu = 4 - n_mentsu;
    }
    if n_mentsu + n_tahtsu + n_koritsu > n {
        n_koritsu = n - n_mentsu - n_tahtsu;
    }
    if b_atama {
        n_tahtsu = n_tahtsu + 1;
    }
    13 - n_mentsu * 3 - n_tahtsu * 2 - n_koritsu
}

/// State of the partial-group scan after the first `n` ranks: tiles of the
/// current connected block, partial groups seen, isolated tiles seen.
pub open spec fn spec_tk_state(h: Seq<int>, n: int) -> (int, int, int)
    decreases n,
{
    if n <= 0 {
        (0int, 0int, 0int)
    } else {
        let prev = spec_tk_state(h, n - 1);
        let m = n - 1;
        let np = prev.0 + h[m];
        if m < 7 && h[m + 1] == 0 && h[m + 2] == 0 {
            (0int, prev.1 + np / 2, prev.2 + np % 2)
        } else {
            (np, prev.1, prev.2)
        }
    }
}

/// Partial groups and isolated tiles of one suit when no meld is extracted:
/// each maximal connected block of ranks contributes half its tiles (rounded
/// down) as partial groups and its parity as an isolated tile.
pub open spec fn spec_tahtsu_koritsu(h: Seq<int>) -> (int, int, int) {
    let st = spec_tk_state(h, 9);
    (0int, st.1 + st.0 / 2, st.2 + st.0 % 2)
}

/// A well-formed suit count vector: nine ranks, each held 0 to 4 times.
pub open spec fn wf9(h: Seq<int>) -> bool {
    h.len() == 9 && (forall|i: int| 0 <= i < 9 ==> 0 <= #[trigger] h[i] <= 4)
}

proof fn lemma_tk_state_bounds(h: Seq<int>, n: int)
    requires
        wf9(h),
        0 <= n <= 9,
    ensures
        0 <= spec_tk_state(h, n).0,
        0 <= spec_tk_state(h, n).1,
        0 <= spec_tk_state(h, n).2,
        spec_tk_state(h, n).0 + 2 * spec_tk_state(h, n).1 + spec_tk_state(h, n).2 == psum(h, n),
        spec_tk_state(h, n).0 + 2 * spec_tk_state(h, n).1 + spec_tk_state(h, n).2 <= 4 * n,
    decreases n,
{
    lemma_psum_bounds(h, n);
    if n > 0 {
        lemma_tk_state_bounds(h, n - 1);
    }
}

/// Counts the partial groups and isolated tiles of a suit, assuming no melds
/// are taken from it; both extremes coincide in that case.
pub fn tahtsu_koritsu_count(hai_count: &[i32; 9]) -> (r: SuitExtremes)
    requires
        wf9(counts9(*hai_count)),
    ensures
        gc(r.min_koritsu) == spec_tahtsu_koritsu(counts9(*hai_count)),
        gc(r.max_mentsu) == spec_tahtsu_koritsu(counts9(*hai_count)),
{
    let ghost h = counts9(*hai_count);
    let mut n_pai: i32 = 0;
    let mut n_dazi: i32 = 0;
    let mut n_guli: i32 = 0;

    for n in 0..9usize
        invariant
            wf9(h),
            h == counts9(*hai_count),
            (n_pai as int, n_dazi as int, n_guli as int) == spec_tk_state(h, n as int),
    {
        proof {
            lemma_tk_state_bounds(h, n as int);
            assert(0 <= h[n as int] <= 4);
            assert(h[n as int] == hai_count@[n as int] as int);
        }
        n_pai = n_pai + hai_count[n];
        if n < 7 && hai_count[n + 1] == 0 && hai_count[n + 2] == 0 {
            n_dazi = n_dazi + n_pai / 2;
            n_guli = n_guli + n_pai % 2;
            n_pai = 0;
        }
    }
    proof {
        lemma_tk_state_bounds(h, 9);
    }
    n_dazi = n_dazi + n_pai / 2;
    n_guli = n_guli + n_pai % 2;

    let g = GroupCount { mentsu: 0, tahtsu: n_dazi, koritsu: n_guli };
    SuitExtremes { min_koritsu: g, max_mentsu: g }
}

/// Sum of the first `n` cells of a count vector.
pub open spec fn psum(h: Seq<int>, n: int) -> int
    decreases n,
{
    if n <= 0 {
        0int
    } else {
        psum(h, n - 1) + h[n - 1]
    }
}

proof fn lemma_psum_update(h: Seq<int>, i: int, v: int, n: int)
    requires
        0 <= i < h.len(),
        n <= h.len(),
    ensures
        psum(h.update(i, v), n) == psum(h, n) + (if i < n {
            v - h[i]
        } else {
            0int
        }),
    decreases n,
{
    if n > 0 {
        lemma_psum_update(h, i, v, n - 1);
    }
}

proof fn lemma_psum_bounds(h: Seq<int>, n: int)
    requires
        wf9(h),
        0 <= n <= 9,
    ensures
        0 <= psum(h, n) <= 4 * n,
    decreases n,
{
    if n > 0 {
        lemma_psum_bounds(h, n - 1);
    }
}

/// Rank cell read, clamped for use in termination measures.
pub open spec fn cell(h: Seq<int>, n: int) -> int {
    if 0 <= n < h.len() {
        h[n]
    } else {
        0int
    }
}

/// Whether extraction `a` beats `b` for the isolation-minimizing extreme:
/// fewer isolated tiles, ties broken toward fewer partial groups.
pub open spec fn better_min(a: (int, int, int), b: (int, int, int)) -> bool {
    a.2 < b.2 || (a.2 == b.2 && a.1 < b.1)
}

/// Whether extraction `a` beats `b` for the group-maximizing extreme:
/// more completed groups, ties broken toward more partial groups.
pub open spec fn better_max(a: (int, int, int), b: (int, int, int)) -> bool {
    a.0 > b.0 || (a.0 == b.0 && a.1 > b.1)
}

/// The dual-extremal meld search over one suit, scanning ranks `n..9`: at
/// each rank it branches into extracting a run, extracting a triplet, or
/// leaving the remainder to partial groups and singles, and keeps the two
/// extremal outcomes.
pub open spec fn spec_mentsu_count(h: Seq<int>, n: int) -> ((int, int, int), (int, int, int))
    decreases 9 - n, cell(h, n),
        when 0 <= n <= 9 && wf9(h)
{
    if n >= 9 {
        let t = spec_tahtsu_koritsu(h);
        (t, t)
    } else {
        let base = spec_mentsu_count(h, n + 1);
        let with_run = if n < 7 && h[n] > 0 && h[n + 1] > 0 && h[n + 2] > 0 {
            let h2 = h.update(n, h[n] - 1).update(n + 1, h[n + 1] - 1).update(n + 2, h[n + 2] - 1);
            let r = spec_mentsu_count(h2, n);
            let r0 = (r.0.0 + 1, r.0.1, r.0.2);
            let r1 = (r.1.0 + 1, r.1.1, r.1.2);
            (
                if better_min(r0, base.0) {
                    r0
                } else {
                    base.0
                },
                if better_max(r1, base.1) {
                    r1
                } else {
                    base.1
                },
            )
        } else {
            base
        };
        if h[n] >= 3 {
            let h3 = h.update(n, h[n] - 3);
            let r = spec_mentsu_count(h3, n);
            let r0 = (r.0.0 + 1, r.0.1, r.0.2);
            let r1 = (r.1.0 + 1, r.1.1, r.1.2);
            (
                if better_min(r0, with_run.0) {
                    r0
                } else {
                    with_run.0
                },
                if better_max(r1, with_run.1) {
                    r1
                } else {
                    with_run.1
                },
            )
        } else {
            with_run
        }
    }
}

/// Every outcome of the suit search is nonnegative and consumes no more
/// tiles than the suit holds.
proof fn lemma_mc_bounds(h: Seq<int>, n: int)
    requires
        wf9(h),
        0 <= n <= 9,
    ensures
        ({
            let (a, b) = spec_mentsu_count(h, n);
            &&& 0 <= a.0
            &&& 0 <= a.1
            &&& 0 <= a.2
            &&& 3 * a.0 + 2 * a.1 + a.2 <= psum(h, 9)
            &&& 0 <= b.0
            &&& 0 <= b.1
            &&& 0 <= b.2
            &&& 3 * b.0 + 2 * b.1 + b.2 <= psum(h, 9)
        }),
    decreases 9 - n, cell(h, n),
{
    lemma_tk_state_bounds(h, 9);
    if n < 9 {
        lemma_mc_bounds(h, n + 1);
        if n < 7 && h[n] > 0 && h[n + 1] > 0 && h[n + 2] > 0 {
            let h2 = h.update(n, h[n] - 1).update(n + 1, h[n + 1] - 1).update(n + 2, h[n + 2] - 1);
            lemma_mc_bounds(h2, n);
            lemma_psum_update(h, n, h[n] - 1, 9);
            lemma_psum_update(h.update(n, h[n] - 1), n + 1, h[n + 1] - 1, 9);
            lemma_psum_update(
                h.update(n, h[n] - 1).update(n + 1, h[n + 1] - 1),
                n + 2,
                h[n + 2] - 1,
                9,
            );
        }
        if h[n] >= 3 {
            let h3 = h.update(n, h[n] - 3);
            lemma_mc_bounds(h3, n);
            lemma_psum_update(h, n, h[n] - 3, 9);
        }
    }
}

/// The dual-extremal meld search over one suit: from rank `n` on, extracts
/// every combination of runs and triplets and reduces the remainder to
/// partial groups and isolated tiles, returning both extremal outcomes.
pub fn mentsu_count(hai_count: &[i32; 9], n: usize) -> (r: SuitExtremes)
    requires
        wf9(counts9(*hai_count)),
        n <= 9,
    ensures
        (gc(r.min_koritsu), gc(r.max_mentsu)) == spec_mentsu_count(
            counts9(*hai_count),
            n as int,
        ),
    decreases 9 - n, cell(counts9(*hai_count), n as int),
{
    let ghost h = counts9(*hai_count);
    if n >= 9 {
        return tahtsu_koritsu_count(hai_count);
    }

    let mut max_count = mentsu_count(hai_count, n + 1);

    // Extract a run starting at this rank.
    if n < 7 && hai_count[n] > 0 && hai_count[n + 1] > 0 && hai_count[n + 2] > 0 {
        let mut h2 = *hai_count;
        h2[n] = h2[n] - 1;
        h2[n + 1] = h2[n + 1] - 1;
        h2[n + 2] = h2[n + 2] - 1;
        proof {
            assert(counts9(h2) =~= h.update(n as int, h[n as int] - 1).update(
                n + 1,
                h[n + 1] - 1,
            ).update(n + 2, h[n + 2] - 1));
            lemma_mc_bounds(counts9(h2), n as int);
            lemma_psum_bounds(counts9(h2), 9);
        }
        let r = mentsu_count(&h2, n);
        let r0 = GroupCount { mentsu: r.min_koritsu.mentsu + 1, ..r.min_koritsu };
        let r1 = GroupCount { mentsu: r.max_mentsu.mentsu + 1, ..r.max_mentsu };
        if r0.koritsu < max_count.min_koritsu.koritsu || (r0.koritsu == max_count.min_koritsu.koritsu
            && r0.tahtsu < max_count.min_koritsu.tahtsu) {
            max_count.min_koritsu = r0;
        }
        if r1.mentsu > max_count.max_mentsu.mentsu || (r1.mentsu == max_count.max_mentsu.mentsu
            && r1.tahtsu > max_count.max_mentsu.tahtsu) {
            max_count.max_mentsu = r1;
        }
    }

    // Extract a triplet at this rank.
    if hai_count[n] >= 3 {
        let mut h3 = *hai_count;
        h3[n] = h3[n] - 3;
        proof {
            assert(counts9(h3) =~= h.update(n as int, h[n as int] - 3));
            lemma_mc_bounds(counts9(h3), n as int);
            lemma_psum_bounds(counts9(h3), 9);
        }
        let r = mentsu_count(&h3, n);
        let r0 = GroupCount { mentsu: r.min_koritsu.mentsu + 1, ..r.min_koritsu };
        let r1 = GroupCount { mentsu: r.max_mentsu.mentsu + 1, ..r.max_mentsu };
        if r0.koritsu < max_count.min_koritsu.koritsu || (r0.koritsu == max_count.min_koritsu.koritsu
            && r0.tahtsu < max_count.min_koritsu.tahtsu) {
            max_count.min_koritsu = r0;
        }
        if r1.mentsu > max_count.max_mentsu.mentsu || (r1.mentsu == max_count.max_mentsu.mentsu
            && r1.tahtsu > max_count.max_mentsu.tahtsu) {
            max_count.max_mentsu = r1;
        }
    }

    max_count
}

/// A well-formed honor count vector: seven kinds, each held 0 to 4 times.
pub open spec fn wf7(z: Seq<int>) -> bool {
    z.len() == 7 && (forall|i: int| 0 <= i < 7 ==> 0 <= #[trigger] z[i] <= 4)
}

/// A well-formed 34-kind count vector.
pub open spec fn wf34(v: Seq<int>) -> bool {
    v.len() == 34 && (forall|i: int| 0 <= i < 34 ==> 0 <= #[trigger] v[i] <= 4)
}

/// Honor extraction after the first `n` kinds: triplets, pairs, singles.
/// Honors admit no runs, so the extraction is deterministic.
pub open spec fn spec_z_state(z: Seq<int>, n: int) -> (int, int, int)
    decreases n,
{
    if n <= 0 {
        (0int, 0int, 0int)
    } else {
        let prev = spec_z_state(z, n - 1);
        if z[n - 1] >= 3 {
            (prev.0 + 1, prev.1, prev.2)
        } else if z[n - 1] == 2 {
            (prev.0, prev.1 + 1, prev.2)
        } else if z[n - 1] == 1 {
            (prev.0, prev.1, prev.2 + 1)
        } else {
            prev
        }
    }
}

proof fn lemma_z_state_bounds(z: Seq<int>, n: int)
    requires
        0 <= n <= 7,
    ensures
        0 <= spec_z_state(z, n).0 <= n,
        0 <= spec_z_state(z, n).1 <= n,
        0 <= spec_z_state(z, n).2 <= n,
    decreases n,
{
    if n > 0 {
        lemma_z_state_bounds(z, n - 1);
    }
}

/// The distance reached by one choice of per-suit extraction outcomes.
pub open spec fn spec_combo(
    a: (int, int, int),
    b: (int, int, int),
    c: (int, int, int),
    z: (int, int, int),
    n_fulo: int,
    b_atama: bool,
) -> int {
    spec_shanten(
        n_fulo + a.0 + b.0 + c.0 + z.0,
        a.1 + b.1 + c.1 + z.1,
        a.2 + b.2 + c.2 + z.2,
        b_atama,
    )
}

pub open spec fn spec_min(a: int, b: int) -> int {
    if a <= b {
        a
    } else {
        b
    }
}

/// The first nine cells of a 34-kind vector, etc.: the three numbered suits
/// and the honor kinds.
pub open spec fn suit_m(v: Seq<int>) -> Seq<int> {
    v.subrange(0, 9)
}

pub open spec fn suit_p(v: Seq<int>) -> Seq<int> {
    v.subrange(9, 18)
}

pub open spec fn suit_s(v: Seq<int>) -> Seq<int> {
    v.subrange(18, 27)
}

pub open spec fn suit_z(v: Seq<int>) -> Seq<int> {
    v.subrange(27, 34)
}

/// The best distance over every combination of two extremal outcomes per
/// suit, for a fixed choice of whether a pair head is assumed.
pub open spec fn spec_case_of(
    m: ((int, int, int), (int, int, int)),
    p: ((int, int, int), (int, int, int)),
    s: ((int, int, int), (int, int, int)),
    z: (int, int, int),
    n_fulo: int,
    b_atama: bool,
) -> int {
    spec_min(
        spec_min(
            spec_min(
                spec_min(
                    spec_min(
                        spec_min(
                            spec_min(
                                spec_min(13, spec_combo(m.0, p.0, s.0, z, n_fulo, b_atama)),
                                spec_combo(m.0, p.0, s.1, z, n_fulo, b_atama),
                            ),
                            spec_combo(m.0, p.1, s.0, z, n_fulo, b_atama),
                        ),
                        spec_combo(m.0, p.1, s.1, z, n_fulo, b_atama),
                    ),
                    spec_combo(m.1, p.0, s.0, z, n_fulo, b_atama),
                ),
                spec_combo(m.1, p.0, s.1, z, n_fulo, b_atama),
            ),
            spec_combo(m.1, p.1, s.0, z, n_fulo, b_atama),
        ),
        spec_combo(m.1, p.1, s.1, z, n_fulo, b_atama),
    )
}

/// The best distance of a whole count vector for a fixed pair-head choice.
pub open spec fn spec_case(v: Seq<int>, b_atama: bool, n_fulo: int) -> int {
    spec_case_of(
        spec_mentsu_count(suit_m(v), 0),
        spec_mentsu_count(suit_p(v), 0),
        spec_mentsu_count(suit_s(v), 0),
        spec_z_state(suit_z(v), 7),
        n_fulo,
        b_atama,
    )
}

/// The best distance over removing a pair head of any kind `>= k`.
pub open spec fn spec_min_pairs(v: Seq<int>, k: int, n_fulo: int) -> int
    decreases 34 - k,
{
    if k < 0 || k >= 34 {
        13int
    } else {
        let here = if v[k] >= 2 {
            spec_case(v.update(k, v[k] - 2), true, n_fulo)
        } else {
            13int
        };
        spec_min(here, spec_min_pairs(v, k + 1, n_fulo))
    }
}

/// The shanten distance of a count vector: the best over assuming no pair
/// head and over removing each possible pair head in turn.
pub open spec fn spec_get_shanten(v: Seq<int>, n_fulo: int) -> int {
    spec_min(spec_case(v, false, n_fulo), spec_min_pairs(v, 0, n_fulo))
}

/// The closed-form distance never goes below -1 on nonnegative extractions.
proof fn lemma_shanten_ge(n_mentsu: int, n_tahtsu: int, n_koritsu: int, b_atama: bool)
    requires
        0 <= n_mentsu,
        0 <= n_tahtsu,
        0 <= n_koritsu,
    ensures
        -1 <= spec_shanten(n_mentsu, n_tahtsu, n_koritsu, b_atama) <= 13,
{
}

proof fn lemma_case_ge(v: Seq<int>, b_atama: bool, n_fulo: int)
    requires
        wf34(v),
        0 <= n_fulo,
    ensures
        -1 <= spec_case(v, b_atama, n_fulo) <= 13,
{
    let m = spec_mentsu_count(suit_m(v), 0);
    let p = spec_mentsu_count(suit_p(v), 0);
    let s = spec_mentsu_count(suit_s(v), 0);
    let z = spec_z_state(suit_z(v), 7);
    assert(wf9(suit_m(v)));
    assert(wf9(suit_p(v)));
    assert(wf9(suit_s(v)));
    lemma_mc_bounds(suit_m(v), 0);
    lemma_mc_bounds(suit_p(v), 0);
    lemma_mc_bounds(suit_s(v), 0);
    lemma_z_state_bounds(suit_z(v), 7);
    lemma_shanten_ge(n_fulo + m.0.0 + p.0.0 + s.0.0 + z.0, m.0.1 + p.0.1 + s.0.1 + z.1, m.0.2 + p.0.2 + s.0.2 + z.2, b_atama);
    lemma_shanten_ge(n_fulo + m.0.0 + p.0.0 + s.1.0 + z.0, m.0.1 + p.0.1 + s.1.1 + z.1, m.0.2 + p.0.2 + s.1.2 + z.2, b_atama);
    lemma_shanten_ge(n_fulo + m.0.0 + p.1.0 + s.0.0 + z.0, m.0.1 + p.1.1 + s.0.1 + z.1, m.0.2 + p.1.2 + s.0.2 + z.2, b_atama);
    lemma_shanten_ge(n_fulo + m.0.0 + p.1.0 + s.1.0 + z.0, m.0.1 + p.1.1 + s.1.1 + z.1, m.0.2 + p.1.2 + s.1.2 + z.2, b_atama);
    lemma_shanten_ge(n_fulo + m.1.0 + p.0.0 + s.0.0 + z.0, m.1.1 + p.0.1 + s.0.1 + z.1, m.1.2 + p.0.2 + s.0.2 + z.2, b_atama);
    lemma_shanten_ge(n_fulo + m.1.0 + p.0.0 + s.1.0 + z.0, m.1.1 + p.0.1 + s.1.1 + z.1, m.1.2 + p.0.2 + s.1.2 + z.2, b_atama);
    lemma_shanten_ge(n_fulo + m.1.0 + p.1.0 + s.0.0 + z.0, m.1.1 + p.1.1 + s.0.1 + z.1, m.1.2 + p.1.2 + s.0.2 + z.2, b_atama);
    lemma_shanten_ge(n_fulo + m.1.0 + p.1.0 + s.1.0 + z.0, m.1.1 + p.1.1 + s.1.1 + z.1, m.1.2 + p.1.2 + s.1.2 + z.2, b_atama);
}

proof fn lemma_min_pairs_ge(v: Seq<int>, k: int, n_fulo: int)
    requires
        wf34(v),
        0 <= n_fulo,
    ensures
        -1 <= spec_min_pairs(v, k, n_fulo) <= 13,
    decreases 34 - k,
{
    if 0 <= k < 34 {
        lemma_min_pairs_ge(v, k + 1, n_fulo);
        if v[k] >= 2 {
            assert(wf34(v.update(k, v[k] - 2)));
            lemma_case_ge(v.update(k, v[k] - 2), true, n_fulo);
        }
    }
}

/// The shanten distance is never below -1 and never above 13.
pub proof fn lemma_get_shanten_range(v: Seq<int>, n_fulo: int)
    requires
        wf34(v),
        0 <= n_fulo,
    ensures
        -1 <= spec_get_shanten(v, n_fulo) <= 13,
{
    lemma_case_ge(v, false, n_fulo);
    lemma_min_pairs_ge(v, 0, n_fulo);
}

/// Removing any single tile from a complete hand leaves it at distance at
/// least -1, and adding that same tile back restores distance exactly -1:
/// the distance is a function of the counts alone, and the removal is undone
/// by the addition.
pub proof fn lemma_shanten_restore(v: Seq<int>, k: int, n_fulo: int)
    requires
        wf34(v),
        0 <= k < 34,
        v[k] >= 1,
        0 <= n_fulo,
        spec_get_shanten(v, n_fulo) == -1,
    ensures
        spec_get_shanten(v.update(k, v[k] - 1), n_fulo) >= -1,
        spec_get_shanten(
            v.update(k, v[k] - 1).update(k, v.update(k, v[k] - 1)[k] + 1),
            n_fulo,
        ) == -1,
{
    assert(wf34(v.update(k, v[k] - 1)));
    lemma_get_shanten_range(v.update(k, v[k] - 1), n_fulo);
    assert(v.update(k, v[k] - 1).update(k, v.update(k, v[k] - 1)[k] + 1) =~= v);
}

/// Both extremal outcomes of a suit, as a pair of integer triples.
pub open spec fn se(x: SuitExtremes) -> ((int, int, int), (int, int, int)) {
    (gc(x.min_koritsu), gc(x.max_mentsu))
}

/// Every component of a suit's extremal outcomes lies in `[0, 40]`.
pub open spec fn se_bounded(x: SuitExtremes) -> bool {
    &&& 0 <= x.min_koritsu.mentsu <= 40
    &&& 0 <= x.min_koritsu.tahtsu <= 40
    &&& 0 <= x.min_koritsu.koritsu <= 40
    &&& 0 <= x.max_mentsu.mentsu <= 40
    &&& 0 <= x.max_mentsu.tahtsu <= 40
    &&& 0 <= x.max_mentsu.koritsu <= 40
}

/// Takes the running minimum with one more candidate distance.
fn fold_min(acc: i32, c: i32) -> (r: i32)
    ensures
        r as int == spec_min(acc as int, c as int),
{
    if c < acc {
        c
    } else {
        acc
    }
}

/// The best distance over every combination of the three suits' extremal
/// outcomes together with the honor extraction.
#[verifier::rlimit(100)]
#[verifier::spinoff_prover]
fn case_of(m: &SuitExtremes, p: &SuitExtremes, s: &SuitExtremes, z: &GroupCount, nf: i32, b_atama: bool) -> (r: i32)
    requires
        se_bounded(*m),
        se_bounded(*p),
        se_bounded(*s),
        0 <= z.mentsu <= 7,
        0 <= z.tahtsu <= 7,
        0 <= z.koritsu <= 7,
        0 <= nf <= 4,
    ensures
        r == spec_case_of(se(*m), se(*p), se(*s), gc(*z), nf as int, b_atama),
        -1 <= r <= 13,
{
    let mut acc: i32 = 13;
    let mut c: i32;
    c = shanten(nf + m.min_koritsu.mentsu + p.min_koritsu.mentsu + s.min_koritsu.mentsu + z.mentsu,
        m.min_koritsu.tahtsu + p.min_koritsu.tahtsu + s.min_koritsu.tahtsu + z.tahtsu,
        m.min_koritsu.koritsu + p.min_koritsu.koritsu + s.min_koritsu.koritsu + z.koritsu, b_atama);
    assert(c == spec_combo(gc(m.min_koritsu), gc(p.min_koritsu), gc(s.min_koritsu), gc(*z), nf as int, b_atama));
    acc = fold_min(acc, c);
    c = shanten(nf + m.min_koritsu.mentsu + p.min_koritsu.mentsu + s.max_mentsu.mentsu + z.mentsu,
        m.min_koritsu.tahtsu + p.min_koritsu.tahtsu + s.max_mentsu.tahtsu + z.tahtsu,
        m.min_koritsu.koritsu + p.min_koritsu.koritsu + s.max_mentsu.koritsu + z.koritsu, b_atama);
    assert(c == spec_combo(gc(m.min_koritsu), gc(p.min_koritsu), gc(s.max_mentsu), gc(*z), nf as int, b_atama));
    acc = fold_min(acc, c);
    c = shanten(nf + m.min_koritsu.mentsu + p.max_mentsu.mentsu + s.min_koritsu.mentsu + z.mentsu,
        m.min_koritsu.tahtsu + p.max_mentsu.tahtsu + s.min_koritsu.tahtsu + z.tahtsu,
        m.min_koritsu.koritsu + p.max_mentsu.koritsu + s.min_koritsu.koritsu + z.koritsu, b_atama);
    assert(c == spec_combo(gc(m.min_koritsu), gc(p.max_mentsu), gc(s.min_koritsu), gc(*z), nf as int, b_atama));
    acc = fold_min(acc, c);
    c = shanten(nf + m.min_koritsu.mentsu + p.max_mentsu.mentsu + s.max_mentsu.mentsu + z.mentsu,
        m.min_koritsu.tahtsu + p.max_mentsu.tahtsu + s.max_mentsu.tahtsu + z.tahtsu,
        m.min_koritsu.koritsu + p.max_mentsu.koritsu + s.max_mentsu.koritsu + z.koritsu, b_atama);
    assert(c == spec_combo(gc(m.min_koritsu), gc(p.max_mentsu), gc(s.max_mentsu), gc(*z), nf as int, b_atama));
    acc = fold_min(acc, c);
    c = shanten(nf + m.max_mentsu.mentsu + p.min_koritsu.mentsu + s.min_koritsu.mentsu + z.mentsu,
        m.max_mentsu.tahtsu + p.min_koritsu.tahtsu + s.min_koritsu.tahtsu + z.tahtsu,
        m.max_mentsu.koritsu + p.min_koritsu.koritsu + s.min_koritsu.koritsu + z.koritsu, b_atama);
    assert(c == spec_combo(gc(m.max_mentsu), gc(p.min_koritsu), gc(s.min_koritsu), gc(*z), nf as int, b_atama));
    acc = fold_min(acc, c);
    c = shanten(nf + m.max_mentsu.mentsu + p.min_koritsu.mentsu + s.max_mentsu.mentsu + z.mentsu,
        m.max_mentsu.tahtsu + p.min_koritsu.tahtsu + s.max_mentsu.tahtsu + z.tahtsu,
        m.max_mentsu.koritsu + p.min_koritsu.koritsu + s.max_mentsu.koritsu + z.koritsu, b_atama);
    assert(c == spec_combo(gc(m.max_mentsu), gc(p.min_koritsu), gc(s.max_mentsu), gc(*z), nf as int, b_atama));
    acc = fold_min(acc, c);
    c = shanten(nf + m.max_mentsu.mentsu + p.max_mentsu.mentsu + s.min_koritsu.mentsu + z.mentsu,
        m.max_mentsu.tahtsu + p.max_mentsu.tahtsu + s.min_koritsu.tahtsu + z.tahtsu,
        m.max_mentsu.koritsu + p.max_mentsu.koritsu + s.min_koritsu.koritsu + z.koritsu, b_atama);
    assert(c == spec_combo(gc(m.max_mentsu), gc(p.max_mentsu), gc(s.min_koritsu), gc(*z), nf as int, b_atama));
    acc = fold_min(acc, c);
    c = shanten(nf + m.max_mentsu.mentsu + p.max_mentsu.mentsu + s.max_mentsu.mentsu + z.mentsu,
        m.max_mentsu.tahtsu + p.max_mentsu.tahtsu + s.max_mentsu.tahtsu + z.tahtsu,
        m.max_mentsu.koritsu + p.max_mentsu.koritsu + s.max_mentsu.koritsu + z.koritsu, b_atama);
    assert(c == spec_combo(gc(m.max_mentsu), gc(p.max_mentsu), gc(s.max_mentsu), gc(*z), nf as int, b_atama));
    acc = fold_min(acc, c);

    acc
}

/// Tiles of `suit` available to the suit search from rank `n` up, as a
/// 34-entry count vector.
pub open spec fn avail(suit: int, h: Seq<int>, n: int) -> Seq<int> {
    Seq::new(
        34,
        |k: int|
            if suit * 9 <= k < suit * 9 + 9 && k - suit * 9 >= n {
                h[k - suit * 9]
            } else {
                0int
            },
    )
}

/// One alternative a suit's enumeration may return: runs and triplets that
/// consume no more tiles than the suit offers from rank `n` up.
pub open spec fn suit_option_ok(d: Seq<Mentsu>, suit: int, h: Seq<int>, n: int) -> bool {
    all_melds(d) && leq34(tiles_vec(d), avail(suit, h, n))
}

/// Every way to extract runs and triplets of one suit from rank `n` on: at
/// the first occupied rank the search branches into taking a run (then
/// rescanning the same rank) and taking a triplet (then advancing); a rank
/// whose tiles start no meld ends that branch with its tiles unconsumed.
pub open spec fn spec_suit_options(suit: int, h: Seq<int>, n: int) -> Seq<Seq<Mentsu>>
    decreases 9 - n, cell(h, n),
        when 0 <= n <= 9 && wf9(h)
{
    if n >= 9 {
        seq![Seq::<Mentsu>::empty()]
    } else if h[n] == 0 {
        spec_suit_options(suit, h, n + 1)
    } else {
        let shuntsu = if n < 7 && h[n] > 0 && h[n + 1] > 0 && h[n + 2] > 0 {
            prepend_each(
                spec_run_meld(suit * 9 + n),
                spec_suit_options(
                    suit,
                    h.update(n, h[n] - 1).update(n + 1, h[n + 1] - 1).update(n + 2, h[n + 2] - 1),
                    n,
                ),
            )
        } else {
            Seq::<Seq<Mentsu>>::empty()
        };
        let koutsu = if h[n] >= 3 {
            prepend_each(
                spec_triplet_meld(suit * 9 + n),
                spec_suit_options(suit, h.update(n, h[n] - 3), n + 1),
            )
        } else {
            Seq::<Seq<Mentsu>>::empty()
        };
        if shuntsu.len() == 0 && koutsu.len() == 0 {
            seq![Seq::<Mentsu>::empty()]
        } else {
            shuntsu + koutsu
        }
    }
}

/// Enumerates every way to extract runs and triplets of one numbered suit
/// from rank `n` on: exactly the alternatives of [`spec_suit_options`], in
/// their order. Each alternative consumes at most what the suit holds.
pub fn all_of_suit_mentsu(suit: usize, hai_count: &[i32; 9], n: usize) -> (r: Vec<Vec<Mentsu>>)
    requires
        suit <= 2,
        n <= 9,
        wf9(counts9(*hai_count)),
    ensures
        views_of(r@) == spec_suit_options(suit as int, counts9(*hai_count), n as int),
        r@.len() >= 1,
        forall|i: int|
            0 <= i < r@.len() ==> suit_option_ok(
                (#[trigger] r@[i])@,
                suit as int,
                counts9(*hai_count),
                n as int,
            ),
    decreases 9 - n, cell(counts9(*hai_count), n as int),
{
    let ghost h = counts9(*hai_count);
    if n >= 9 {
        let mut r: Vec<Vec<Mentsu>> = Vec::new();
        let empty: Vec<Mentsu> = Vec::new();
        proof {
            assert(suit_option_ok(empty@, suit as int, h, n as int)) by {
                assert(forall|k: int|
                    0 <= k < 34 ==> #[trigger] tiles_vec(empty@)[k] == zero_counts()[k]);
            }
        }
        r.push(empty);
        proof {
            assert(views_of(r@) =~= seq![Seq::<Mentsu>::empty()]);
        }
        return r;
    }

    // A rank with no tiles left simply advances.
    if hai_count[n] == 0 {
        let r = all_of_suit_mentsu(suit, hai_count, n + 1);
        proof {
            assert(avail(suit as int, h, n as int) =~= avail(suit as int, h, n + 1));
        }
        return r;
    }

    let mut shuntsu: Vec<Vec<Mentsu>> = Vec::new();

    // Extract a run starting at this rank.
    if n < 7 && hai_count[n] > 0 && hai_count[n + 1] > 0 && hai_count[n + 2] > 0 {
        let base = (n + suit * 9) as u8;
        let m = Mentsu::new(
            &[
                MentsuPai::new(base, 0, MentsuFlag::FLAG_NONE),
                MentsuPai::new(base + 1, 0, MentsuFlag::FLAG_NONE),
                MentsuPai::new(base + 2, 0, MentsuFlag::FLAG_NONE),
                MentsuPai::new(0, 0, MentsuFlag::FLAG_NONE),
            ],
            3,
            MentsuType::TYPE_SHUNTSU,
        );
        proof {
            assert((suit * 9 + n) % 9 == n) by (nonlinear_arith)
                requires
                    suit <= 2,
                    n < 7,
            ;
            assert(is_run(m));
        }
        let mut h2 = *hai_count;
        h2[n] = h2[n] - 1;
        h2[n + 1] = h2[n + 1] - 1;
        h2[n + 2] = h2[n + 2] - 1;
        proof {
            assert(counts9(h2) =~= h.update(n as int, h[n as int] - 1).update(
                n + 1,
                h[n + 1] - 1,
            ).update(n + 2, h[n + 2] - 1));
            assert(wf9(counts9(h2)));
        }
        proof {
            assert(m.pai_list =~= spec_run_meld(suit * 9 + n).pai_list);
            assert(m == spec_run_meld(suit * 9 + n));
        }
        let rsub = all_of_suit_mentsu(suit, &h2, n);
        let ghost spec_sub = spec_suit_options(suit as int, counts9(h2), n as int);
        let ghost spec_sh = prepend_each(spec_run_meld(suit * 9 + n), spec_sub);
        let nsub = rsub.len();
        for i in 0..nsub
            invariant
                nsub == rsub@.len(),
                suit <= 2,
                n < 7,
                wf9(h),
                h == counts9(*hai_count),
                h[n as int] > 0,
                h[n + 1] > 0,
                h[n + 2] > 0,
                is_run(m),
                m == spec_run_meld(suit * 9 + n),
                m.pai_list@[0].pai_num == n + suit * 9,
                spec_sub == spec_suit_options(suit as int, counts9(h2), n as int),
                spec_sh == prepend_each(spec_run_meld(suit * 9 + n), spec_sub),
                views_of(rsub@) == spec_sub,
                views_of(shuntsu@) =~= spec_sh.take(i as int),
                forall|q: int|
                    0 <= q < rsub@.len() ==> suit_option_ok(
                        (#[trigger] rsub@[q])@,
                        suit as int,
                        counts9(h2),
                        n as int,
                    ),
                counts9(h2) =~= h.update(n as int, h[n as int] - 1).update(n + 1, h[n + 1] - 1)
                    .update(n + 2, h[n + 2] - 1),
                forall|q: int|
                    0 <= q < shuntsu@.len() ==> suit_option_ok(
                        (#[trigger] shuntsu@[q])@,
                        suit as int,
                        h,
                        n as int,
                    ),
        {
            let mut y: Vec<Mentsu> = Vec::new();
            y.push(m);
            let sub = &rsub[i];
            let sublen = sub.len();
            for j in 0..sublen
                invariant
                    sublen == sub@.len(),
                    y@ =~= seq![m] + sub@.take(j as int),
            {
                y.push(sub[j]);
                proof {
                    assert(y@ =~= seq![m] + sub@.take(j + 1));
                }
            }
            proof {
                assert(sub@.take(sublen as int) =~= sub@);
                assert(y@ =~= seq![m] + sub@);
                lemma_contrib_prepend(m, sub@);
                lemma_run_vec(m);
                assert(suit_option_ok(y@, suit as int, h, n as int)) by {
                    assert(all_melds(y@)) by {
                        assert(forall|j: int|
                            0 <= j < sub@.len() ==> y@[j + 1] == #[trigger] sub@[j]);
                    }
                    assert(leq34(tiles_vec(y@), avail(suit as int, h, n as int))) by {
                        assert(forall|k: int|
                            0 <= k < 34 ==> #[trigger] tiles_vec(y@)[k] == meld_vec(m)[k]
                                + tiles_vec(sub@)[k]);
                    }
                }
                assert(views_of(rsub@).len() == rsub@.len());
                assert(views_of(rsub@)[i as int] == rsub@[i as int]@);
                assert(sub@ == spec_sub[i as int]);
                assert(prepend_each(spec_run_meld(suit * 9 + n), spec_sub)[i as int] == seq![
                    spec_run_meld(suit * 9 + n),
                ] + spec_sub[i as int]);
                assert(spec_sh[i as int] == seq![spec_run_meld(suit * 9 + n)] + spec_sub[i as int]);
                assert(y@ =~= seq![spec_run_meld(suit * 9 + n)] + spec_sub[i as int]);
                assert(y@ == spec_sh[i as int]);
            }
            let ghost before = shuntsu@;
            shuntsu.push(y);
            proof {
                assert(shuntsu@ == before.push(y));
                assert(views_of(before).len() == before.len());
                assert forall|q: int|
                    0 <= q < shuntsu@.len() implies views_of(shuntsu@)[q] == spec_sh.take(i + 1)[q] by {
                    if q < before.len() {
                        assert(shuntsu@[q] == before[q]);
                        assert(views_of(before)[q] == spec_sh.take(i as int)[q]);
                    } else {
                        assert(shuntsu@[q] == y);
                    }
                }
                assert(views_of(shuntsu@) =~= spec_sh.take(i + 1));
            }
        }
    }
    let ghost spec_shuntsu = if n < 7 && h[n as int] > 0 && h[n + 1] > 0 && h[n + 2] > 0 {
        prepend_each(
            spec_run_meld(suit * 9 + n),
            spec_suit_options(
                suit as int,
                h.update(n as int, h[n as int] - 1).update(n + 1, h[n + 1] - 1).update(
                    n + 2,
                    h[n + 2] - 1,
                ),
                n as int,
            ),
        )
    } else {
        Seq::<Seq<Mentsu>>::empty()
    };
    proof {
        assert(views_of(shuntsu@) =~= spec_shuntsu);
    }

    let mut koutsu: Vec<Vec<Mentsu>> = Vec::new();

    // Extract a triplet at this rank.
    if hai_count[n] >= 3 {
        let base = (n + suit * 9) as u8;
        let m = Mentsu::new(
            &[
                MentsuPai::new(base, 0, MentsuFlag::FLAG_NONE),
                MentsuPai::new(base, 0, MentsuFlag::FLAG_NONE),
                MentsuPai::new(base, 0, MentsuFlag::FLAG_NONE),
                MentsuPai::new(0, 0, MentsuFlag::FLAG_NONE),
            ],
            3,
            MentsuType::TYPE_KOUTSU,
        );
        proof {
            assert(is_triplet(m));
        }
        let mut h3 = *hai_count;
        h3[n] = h3[n] - 3;
        proof {
            assert(counts9(h3) =~= h.update(n as int, h[n as int] - 3));
            assert(wf9(counts9(h3)));
        }
        proof {
            assert(m.pai_list =~= spec_triplet_meld(suit * 9 + n).pai_list);
            assert(m == spec_triplet_meld(suit * 9 + n));
        }
        let rsub = all_of_suit_mentsu(suit, &h3, n + 1);
        let ghost spec_sub = spec_suit_options(suit as int, counts9(h3), n + 1);
        let ghost spec_ko = prepend_each(spec_triplet_meld(suit * 9 + n), spec_sub);
        let nsub = rsub.len();
        for i in 0..nsub
            invariant
                nsub == rsub@.len(),
                suit <= 2,
                n < 9,
                wf9(h),
                h == counts9(*hai_count),
                h[n as int] >= 3,
                is_triplet(m),
                m == spec_triplet_meld(suit * 9 + n),
                m.pai_list@[0].pai_num == n + suit * 9,
                spec_sub == spec_suit_options(suit as int, counts9(h3), n + 1),
                spec_ko == prepend_each(spec_triplet_meld(suit * 9 + n), spec_sub),
                views_of(rsub@) == spec_sub,
                views_of(koutsu@) =~= spec_ko.take(i as int),
                forall|q: int|
                    0 <= q < rsub@.len() ==> suit_option_ok(
                        (#[trigger] rsub@[q])@,
                        suit as int,
                        counts9(h3),
                        n + 1,
                    ),
                counts9(h3) =~= h.update(n as int, h[n as int] - 3),
                forall|q: int|
                    0 <= q < koutsu@.len() ==> suit_option_ok(
                        (#[trigger] koutsu@[q])@,
                        suit as int,
                        h,
                        n as int,
                    ),
        {
            let mut y: Vec<Mentsu> = Vec::new();
            y.push(m);
            let sub = &rsub[i];
            let sublen = sub.len();
            for j in 0..sublen
                invariant
                    sublen == sub@.len(),
                    y@ =~= seq![m] + sub@.take(j as int),
            {
                y.push(sub[j]);
                proof {
                    assert(y@ =~= seq![m] + sub@.take(j + 1));
                }
            }
            proof {
                assert(sub@.take(sublen as int) =~= sub@);
                assert(y@ =~= seq![m] + sub@);
                lemma_contrib_prepend(m, sub@);
                lemma_triplet_vec(m);
                assert(suit_option_ok(y@, suit as int, h, n as int)) by {
                    assert(all_melds(y@)) by {
                        assert(forall|j: int|
                            0 <= j < sub@.len() ==> y@[j + 1] == #[trigger] sub@[j]);
                    }
                    assert(leq34(tiles_vec(y@), avail(suit as int, h, n as int))) by {
                        assert(forall|k: int|
                            0 <= k < 34 ==> #[trigger] tiles_vec(y@)[k] == meld_vec(m)[k]
                                + tiles_vec(sub@)[k]);
                    }
                }
                assert(views_of(rsub@).len() == rsub@.len());
                assert(views_of(rsub@)[i as int] == rsub@[i as int]@);
                assert(sub@ == spec_sub[i as int]);
                assert(prepend_each(spec_triplet_meld(suit * 9 + n), spec_sub)[i as int] == seq![
                    spec_triplet_meld(suit * 9 + n),
                ] + spec_sub[i as int]);
                assert(spec_ko[i as int] == seq![spec_triplet_meld(suit * 9 + n)] + spec_sub[i as int]);
                assert(y@ =~= seq![spec_triplet_meld(suit * 9 + n)] + spec_sub[i as int]);
                assert(y@ == spec_ko[i as int]);
            }
            let ghost before = koutsu@;
            koutsu.push(y);
            proof {
                assert(koutsu@ == before.push(y));
                assert(views_of(before).len() == before.len());
                assert forall|q: int|
                    0 <= q < koutsu@.len() implies views_of(koutsu@)[q] == spec_ko.take(i + 1)[q] by {
                    if q < before.len() {
                        assert(koutsu@[q] == before[q]);
                        assert(views_of(before)[q] == spec_ko.take(i as int)[q]);
                    } else {
                        assert(koutsu@[q] == y);
                    }
                }
                assert(views_of(koutsu@) =~= spec_ko.take(i + 1));
            }
        }
    }
    let ghost spec_koutsu = if h[n as int] >= 3 {
        prepend_each(
            spec_triplet_meld(suit * 9 + n),
            spec_suit_options(suit as int, h.update(n as int, h[n as int] - 3), n + 1),
        )
    } else {
        Seq::<Seq<Mentsu>>::empty()
    };
    proof {
        assert(views_of(koutsu@) =~= spec_koutsu);
    }

    // A rank whose tiles start no meld leaves its tiles unconsumed.
    if shuntsu.len() == 0 && koutsu.len() == 0 {
        let mut r: Vec<Vec<Mentsu>> = Vec::new();
        let empty: Vec<Mentsu> = Vec::new();
        proof {
            assert(suit_option_ok(empty@, suit as int, h, n as int)) by {
                assert(forall|k: int|
                    0 <= k < 34 ==> #[trigger] tiles_vec(empty@)[k] == zero_counts()[k]);
            }
        }
        r.push(empty);
        proof {
            assert(views_of(r@) =~= seq![Seq::<Mentsu>::empty()]);
        }
        r
    } else {
        let mut r = shuntsu;
        let ghost spec_sh_full = spec_shuntsu;
        let nk = koutsu.len();
        for i in 0..nk
            invariant
                nk == koutsu@.len(),
                spec_sh_full == spec_shuntsu,
                views_of(koutsu@) == spec_koutsu,
                views_of(r@) =~= spec_sh_full + spec_koutsu.take(i as int),
                forall|q: int|
                    0 <= q < koutsu@.len() ==> suit_option_ok(
                        (#[trigger] koutsu@[q])@,
                        suit as int,
                        h,
                        n as int,
                    ),
                forall|q: int|
                    0 <= q < r@.len() ==> suit_option_ok(
                        (#[trigger] r@[q])@,
                        suit as int,
                        h,
                        n as int,
                    ),
                r@.len() >= 1 || koutsu@.len() - i >= 1,
        {
            let sub = &koutsu[i];
            let sublen = sub.len();
            let mut y: Vec<Mentsu> = Vec::new();
            for j in 0..sublen
                invariant
                    sublen == sub@.len(),
                    y@ =~= sub@.take(j as int),
            {
                y.push(sub[j]);
                proof {
                    assert(y@ =~= sub@.take(j + 1));
                }
            }
            proof {
                assert(y@ =~= sub@);
                assert(views_of(koutsu@).len() == koutsu@.len());
                assert(views_of(koutsu@)[i as int] == koutsu@[i as int]@);
                assert(y@ == spec_koutsu[i as int]);
            }
            let ghost before = r@;
            r.push(y);
            proof {
                assert(r@ == before.push(y));
                assert(views_of(before).len() == before.len());
                assert forall|q: int|
                    0 <= q < r@.len() implies views_of(r@)[q] == (spec_sh_full + spec_koutsu.take(
                    i + 1,
                ))[q] by {
                    if q < before.len() {
                        assert(r@[q] == before[q]);
                        assert(views_of(before)[q] == (spec_sh_full + spec_koutsu.take(i as int))[q]);
                    } else {
                        assert(r@[q] == y);
                        assert((spec_sh_full + spec_koutsu.take(i + 1))[q] == spec_koutsu[i as int]);
                    }
                }
                assert(views_of(r@) =~= spec_sh_full + spec_koutsu.take(i + 1));
            }
        }
        proof {
            assert(spec_koutsu.take(nk as int) =~= spec_koutsu);
            assert(views_of(r@) =~= spec_shuntsu + spec_koutsu);
        }
        r
    }
}

/// Honor tiles available among the first `n` honor kinds, as a 34-entry
/// count vector.
pub open spec fn havail(z: Seq<int>, n: int) -> Seq<int> {
    Seq::new(
        34,
        |k: int|
            if 27 <= k < 27 + n {
                z[k - 27]
            } else {
                0int
            },
    )
}

/// One alternative of the whole-hand meld enumeration, before a pair head is
/// chosen: runs and triplets consuming at most what the hand holds.
pub open spec fn melds_option_ok(d: Seq<Mentsu>, v: Seq<int>) -> bool {
    all_melds(d) && leq34(tiles_vec(d), v)
}

/// One alternative of the full enumeration: a pair head of kind `0..34`
/// followed by runs and triplets, consuming at most what the hand holds.
pub open spec fn decomp_ok(d: Seq<Mentsu>, v: Seq<int>) -> bool {
    &&& d.len() >= 1
    &&& is_pair(d[0])
    &&& (forall|j: int| 1 <= j < d.len() ==> is_meld(#[trigger] d[j]))
    &&& leq34(tiles_vec(d), v)
}

/// The aggregate count representation of a hand.
#[derive(Debug, Clone)]
pub struct PaiState {
    pub hai_count_m: [i32; 9],
    pub hai_count_p: [i32; 9],
    pub hai_count_s: [i32; 9],
    pub hai_count_z: [i32; 7],
}

impl View for PaiState {
    type V = Seq<int>;

    /// The 34-entry count vector: the three numbered suits, then the honors.
    open spec fn view(&self) -> Seq<int> {
        counts9(self.hai_count_m) + counts9(self.hai_count_p) + counts9(self.hai_count_s)
            + counts7(self.hai_count_z)
    }
}

impl Default for PaiState {
    fn default() -> (r: Self)
        ensures
            r@ =~= zero_counts(),
    {
        PaiState {
            hai_count_m: [0; 9],
            hai_count_p: [0; 9],
            hai_count_s: [0; 9],
            hai_count_z: [0; 7],
        }
    }
}

impl PaiState {
    /// Aggregates a tile list into a fresh count vector.
    pub fn from(value: &[PaiT]) -> (r: Self)
        requires
            all_kinds_valid(value@),
            value@.len() < 0x7fff_ffff,
        ensures
            r@ =~= tally(value@),
    {
        let mut state = PaiState::default();
        state.init(value);
        state
    }

    /// Resets the counts to the tally of the given tile list.
    pub fn init(&mut self, value: &[PaiT])
        requires
            all_kinds_valid(value@),
            value@.len() < 0x7fff_ffff,
        ensures
            final(self)@ =~= tally(value@),
    {
        self.hai_count_m = [0; 9];
        self.hai_count_p = [0; 9];
        self.hai_count_s = [0; 9];
        self.hai_count_z = [0; 7];
        assert(self@ =~= zero_counts());
        assert(self@ =~= tally(value@.take(0)));

        let n = value.len();
        for i in 0..n
            invariant
                n == value@.len() < 0x7fff_ffff,
                all_kinds_valid(value@),
                self@.len() == 34,
                self@ =~= tally(value@.take(i as int)),
        {
            proof {
                lemma_tally_bounds(value@.take(i as int));
                assert(value@.take(i as int).len() == i);
            }
            self.append_inner(&value[i]);
            proof {
                assert(value@.take(i + 1).drop_last() =~= value@.take(i as int));
                assert(value@.take(i + 1).last() == value@[i as int]);
            }
        }
        proof {
            assert(value@.take(n as int) =~= value@);
        }
    }

    /// Adds one tile to the counts.
    pub fn append(&mut self, hai: &PaiT)
        requires
            hai.pai_num < 34,
            old(self)@.len() == 34,
            old(self)@[hai.pai_num as int] < 0x7fff_ffff,
        ensures
            final(self)@ =~= old(self)@.update(
                hai.pai_num as int,
                old(self)@[hai.pai_num as int] + 1,
            ),
    {
        self.append_inner(hai);
    }

    fn append_inner(&mut self, hai: &PaiT)
        requires
            hai.pai_num < 34,
            old(self)@.len() == 34,
            old(self)@[hai.pai_num as int] < 0x7fff_ffff,
        ensures
            final(self)@ =~= old(self)@.update(
                hai.pai_num as int,
                old(self)@[hai.pai_num as int] + 1,
            ),
    {
        let num = hai.pai_num as usize;
        if num < 9 {
            self.hai_count_m[num] = self.hai_count_m[num] + 1;
        } else if num < 18 {
            self.hai_count_p[num - 9] = self.hai_count_p[num - 9] + 1;
        } else if num < 27 {
            self.hai_count_s[num - 18] = self.hai_count_s[num - 18] + 1;
        } else {
            self.hai_count_z[num - 27] = self.hai_count_z[num - 27] + 1;
        }
    }

    /// How many tiles of kind `k` the hand holds.
    pub fn count_of(&self, k: usize) -> (c: i32)
        requires
            k < 34,
        ensures
            c as int == self@[k as int],
    {
        if k < 9 {
            self.hai_count_m[k]
        } else if k < 18 {
            self.hai_count_p[k - 9]
        } else if k < 27 {
            self.hai_count_s[k - 18]
        } else {
            self.hai_count_z[k - 27]
        }
    }

    /// A copy of the hand with one pair of kind `k` taken out.
    fn with_pair_removed(&self, k: usize) -> (r: PaiState)
        requires
            k < 34,
            self@[k as int] >= 2,
            self@[k as int] <= 0x7fff_ffff,
        ensures
            r@ =~= self@.update(k as int, self@[k as int] - 2),
    {
        let mut r = PaiState {
            hai_count_m: self.hai_count_m,
            hai_count_p: self.hai_count_p,
            hai_count_s: self.hai_count_s,
            hai_count_z: self.hai_count_z,
        };
        if k < 9 {
            r.hai_count_m[k] = r.hai_count_m[k] - 2;
        } else if k < 18 {
            r.hai_count_p[k - 9] = r.hai_count_p[k - 9] - 2;
        } else if k < 27 {
            r.hai_count_s[k - 18] = r.hai_count_s[k - 18] - 2;
        } else {
            r.hai_count_z[k - 27] = r.hai_count_z[k - 27] - 2;
        }
        r
    }

    /// The best distance for a fixed pair-head assumption, combining both
    /// extremal outcomes of each suit's search with the honor extraction.
    fn get_shanten_case(&self, b_atama: bool, n_fulo: usize) -> (r: i32)
        requires
            wf34(self@),
            n_fulo <= 4,
        ensures
            r == spec_case(self@, b_atama, n_fulo as int),
            -1 <= r <= 13,
    {
        proof {
            assert(suit_m(self@) =~= counts9(self.hai_count_m));
            assert(suit_p(self@) =~= counts9(self.hai_count_p));
            assert(suit_s(self@) =~= counts9(self.hai_count_s));
            assert(suit_z(self@) =~= counts7(self.hai_count_z));
            assert(wf9(counts9(self.hai_count_m)));
            assert(wf9(counts9(self.hai_count_p)));
            assert(wf9(counts9(self.hai_count_s)));
            lemma_mc_bounds(counts9(self.hai_count_m), 0);
            lemma_mc_bounds(counts9(self.hai_count_p), 0);
            lemma_mc_bounds(counts9(self.hai_count_s), 0);
            lemma_psum_bounds(counts9(self.hai_count_m), 9);
            lemma_psum_bounds(counts9(self.hai_count_p), 9);
            lemma_psum_bounds(counts9(self.hai_count_s), 9);
        }
        let m = mentsu_count(&self.hai_count_m, 0);
        let p = mentsu_count(&self.hai_count_p, 0);
        let s = mentsu_count(&self.hai_count_s, 0);

        let ghost zseq = suit_z(self@);
        let mut z = GroupCount { mentsu: 0, tahtsu: 0, koritsu: 0 };
        for n in 0..7usize
            invariant
                zseq == suit_z(self@),
                self@.len() == 34,
                gc(z) == spec_z_state(zseq, n as int),
        {
            proof {
                lemma_z_state_bounds(zseq, n as int);
                assert(zseq[n as int] == self.hai_count_z@[n as int] as int);
            }
            if self.hai_count_z[n] >= 3 {
                z.mentsu = z.mentsu + 1;
            } else if self.hai_count_z[n] == 2 {
                z.tahtsu = z.tahtsu + 1;
            } else if self.hai_count_z[n] == 1 {
                z.koritsu = z.koritsu + 1;
            }
        }
        proof {
            lemma_z_state_bounds(zseq, 7);
        }

        case_of(&m, &p, &s, &z, n_fulo as i32, b_atama)
    }

    /// The shanten distance of the hand, given how many melds were already
    /// declared openly. `-1` means the hand is complete.
    pub fn get_shanten(&self, n_fulo: usize) -> (r: i32)
        requires
            wf34(self@),
            n_fulo <= 4,
        ensures
            r == spec_get_shanten(self@, n_fulo as int),
            -1 <= r <= 13,
    {
        let mut min_shanten = self.get_shanten_case(false, n_fulo);

        // Try every possible pair head in turn, then recompute assuming it.
        for k in 0..34usize
            invariant
                wf34(self@),
                n_fulo <= 4,
                -1 <= min_shanten <= 13,
                spec_min(min_shanten as int, spec_min_pairs(self@, k as int, n_fulo as int))
                    == spec_get_shanten(self@, n_fulo as int),
        {
            if self.count_of(k) >= 2 {
                let st = self.with_pair_removed(k);
                proof {
                    assert(wf34(st@));
                }
                let c = st.get_shanten_case(true, n_fulo);
                if c < min_shanten {
                    min_shanten = c;
                }
            }
        }
        min_shanten
    }
}

/// The honor extraction over the first `n` honor kinds: one triplet per kind
/// held at least three times, in kind order.
pub open spec fn spec_honor_triplets(z: Seq<int>, n: int) -> Seq<Mentsu>
    decreases n,
{
    if n <= 0 {
        Seq::empty()
    } else {
        let prev = spec_honor_triplets(z, n - 1);
        if z[n - 1] >= 3 {
            prev.push(spec_triplet_meld(27 + n - 1))
        } else {
            prev
        }
    }
}

/// The first `k` of one row of the suit cross product: a fixed first-suit
/// and second-suit option, each third-suit option in turn, and the honor
/// triplets appended.
pub open spec fn cross_inner(
    a: Seq<Mentsu>,
    b: Seq<Mentsu>,
    sou: Seq<Seq<Mentsu>>,
    z: Seq<Mentsu>,
    k: int,
) -> Seq<Seq<Mentsu>>
    decreases k,
{
    if k <= 0 {
        Seq::empty()
    } else {
        cross_inner(a, b, sou, z, k - 1).push(a + b + sou[k - 1] + z)
    }
}

/// The rows of the cross product for one first-suit option and the first `j`
/// second-suit options.
pub open spec fn cross_mid(
    a: Seq<Mentsu>,
    pin: Seq<Seq<Mentsu>>,
    sou: Seq<Seq<Mentsu>>,
    z: Seq<Mentsu>,
    j: int,
) -> Seq<Seq<Mentsu>>
    decreases j,
{
    if j <= 0 {
        Seq::empty()
    } else {
        cross_mid(a, pin, sou, z, j - 1) + cross_inner(a, pin[j - 1], sou, z, sou.len() as int)
    }
}

/// The full cross product of the first `i` first-suit options with every
/// second- and third-suit option, the honor triplets appended to each.
pub open spec fn cross_all(
    man: Seq<Seq<Mentsu>>,
    pin: Seq<Seq<Mentsu>>,
    sou: Seq<Seq<Mentsu>>,
    z: Seq<Mentsu>,
    i: int,
) -> Seq<Seq<Mentsu>>
    decreases i,
{
    if i <= 0 {
        Seq::empty()
    } else {
        cross_all(man, pin, sou, z, i - 1) + cross_mid(man[i - 1], pin, sou, z, pin.len() as int)
    }
}

/// Every combination of runs and triplets over the whole hand: the three
/// suits' alternatives combined by full cross product, the honor triplets
/// appended identically to every combination.
pub open spec fn spec_without_atama(v: Seq<int>) -> Seq<Seq<Mentsu>> {
    let man = spec_suit_options(0, suit_m(v), 0);
    let pin = spec_suit_options(1, suit_p(v), 0);
    let sou = spec_suit_options(2, suit_s(v), 0);
    let z = spec_honor_triplets(suit_z(v), 7);
    cross_all(man, pin, sou, z, man.len() as int)
}

/// The one deterministic honor extraction: a triplet for every honor kind
/// held at least three times.
fn honor_triplets(hai_count_z: &[i32; 7]) -> (r: Vec<Mentsu>)
    requires
        wf7(counts7(*hai_count_z)),
    ensures
        r@ == spec_honor_triplets(counts7(*hai_count_z), 7),
        all_melds(r@),
        leq34(tiles_vec(r@), havail(counts7(*hai_count_z), 7)),
{
    let ghost z = counts7(*hai_count_z);
    let mut zihai: Vec<Mentsu> = Vec::new();
    proof {
        assert(forall|k: int| 0 <= k < 34 ==> #[trigger] tiles_vec(zihai@)[k] == zero_counts()[k]);
    }
    for n in 0..7usize
        invariant
            z == counts7(*hai_count_z),
            wf7(z),
            all_melds(zihai@),
            zihai@ == spec_honor_triplets(z, n as int),
            leq34(tiles_vec(zihai@), havail(z, n as int)),
    {
        proof {
            assert(z[n as int] == hai_count_z@[n as int] as int);
        }
        if hai_count_z[n] >= 3 {
            let base = (n + 27) as u8;
            let m = Mentsu::new(
                &[
                    MentsuPai::new(base, 0, MentsuFlag::FLAG_NONE),
                    MentsuPai::new(base, 0, MentsuFlag::FLAG_NONE),
                    MentsuPai::new(base, 0, MentsuFlag::FLAG_NONE),
                    MentsuPai::new(0, 0, MentsuFlag::FLAG_NONE),
                ],
                3,
                MentsuType::TYPE_KOUTSU,
            );
            let ghost before = zihai@;
            zihai.push(m);
            proof {
                assert(is_triplet(m));
                assert(m.pai_list =~= spec_triplet_meld(27 + n).pai_list);
                assert(m == spec_triplet_meld(27 + n));
                assert(zihai@ =~= before.push(m));
                lemma_tiles_vec_snoc(before, m);
                lemma_triplet_vec(m);
                assert(leq34(tiles_vec(zihai@), havail(z, n + 1))) by {
                    assert(forall|k: int|
                        0 <= k < 34 ==> #[trigger] tiles_vec(zihai@)[k] == tiles_vec(before)[k]
                            + meld_vec(m)[k]);
                }
            }
        } else {
            proof {
                assert(leq34(tiles_vec(zihai@), havail(z, n + 1)));
            }
        }
    }
    zihai
}

/// Enumerates every combination of runs and triplets over the whole hand:
/// the three numbered suits branch independently and are combined by full
/// cross product; the honor triplets are appended identically to every
/// combination.
fn all_of_mentsu_without_atama(pai_state: &PaiState) -> (r: Vec<Vec<Mentsu>>)
    requires
        wf34(pai_state@),
    ensures
        views_of(r@) == spec_without_atama(pai_state@),
        forall|i: int| 0 <= i < r@.len() ==> melds_option_ok((#[trigger] r@[i])@, pai_state@),
{
    let ghost v = pai_state@;
    proof {
        assert(suit_m(v) =~= counts9(pai_state.hai_count_m));
        assert(suit_p(v) =~= counts9(pai_state.hai_count_p));
        assert(suit_s(v) =~= counts9(pai_state.hai_count_s));
        assert(suit_z(v) =~= counts7(pai_state.hai_count_z));
        assert(wf9(counts9(pai_state.hai_count_m)));
        assert(wf9(counts9(pai_state.hai_count_p)));
        assert(wf9(counts9(pai_state.hai_count_s)));
        assert(wf7(counts7(pai_state.hai_count_z)));
    }
    let man = all_of_suit_mentsu(0, &pai_state.hai_count_m, 0);
    let pin = all_of_suit_mentsu(1, &pai_state.hai_count_p, 0);
    let sou = all_of_suit_mentsu(2, &pai_state.hai_count_s, 0);
    let zihai = honor_triplets(&pai_state.hai_count_z);
    let ghost manv = views_of(man@);
    let ghost pinv = views_of(pin@);
    let ghost souv = views_of(sou@);
    let ghost zv = zihai@;
    proof {
        assert(manv == spec_suit_options(0, suit_m(v), 0));
        assert(pinv == spec_suit_options(1, suit_p(v), 0));
        assert(souv == spec_suit_options(2, suit_s(v), 0));
        assert(zv == spec_honor_triplets(suit_z(v), 7));
    }

    let mut all_mentsu: Vec<Vec<Mentsu>> = Vec::new();
    let nm = man.len();
    let np = pin.len();
    let ns = sou.len();
    for i in 0..nm
        invariant
            nm == man@.len(),
            np == pin@.len(),
            ns == sou@.len(),
            manv == views_of(man@),
            pinv == views_of(pin@),
            souv == views_of(sou@),
            zv == zihai@,
            views_of(all_mentsu@) =~= cross_all(manv, pinv, souv, zv, i as int),
            wf34(v),
            v == pai_state@,
            forall|q: int|
                0 <= q < man@.len() ==> suit_option_ok(
                    (#[trigger] man@[q])@,
                    0,
                    counts9(pai_state.hai_count_m),
                    0,
                ),
            forall|q: int|
                0 <= q < pin@.len() ==> suit_option_ok(
                    (#[trigger] pin@[q])@,
                    1,
                    counts9(pai_state.hai_count_p),
                    0,
                ),
            forall|q: int|
                0 <= q < sou@.len() ==> suit_option_ok(
                    (#[trigger] sou@[q])@,
                    2,
                    counts9(pai_state.hai_count_s),
                    0,
                ),
            all_melds(zihai@),
            leq34(tiles_vec(zihai@), havail(counts7(pai_state.hai_count_z), 7)),
            forall|q: int|
                0 <= q < all_mentsu@.len() ==> melds_option_ok((#[trigger] all_mentsu@[q])@, v),
    {
        for j in 0..np
            invariant
                nm == man@.len(),
                np == pin@.len(),
                ns == sou@.len(),
                i < nm,
                manv == views_of(man@),
                pinv == views_of(pin@),
                souv == views_of(sou@),
                zv == zihai@,
                views_of(all_mentsu@) =~= cross_all(manv, pinv, souv, zv, i as int) + cross_mid(
                    manv[i as int],
                    pinv,
                    souv,
                    zv,
                    j as int,
                ),
                wf34(v),
                v == pai_state@,
                forall|q: int|
                    0 <= q < man@.len() ==> suit_option_ok(
                        (#[trigger] man@[q])@,
                        0,
                        counts9(pai_state.hai_count_m),
                        0,
                    ),
                forall|q: int|
                    0 <= q < pin@.len() ==> suit_option_ok(
                        (#[trigger] pin@[q])@,
                        1,
                        counts9(pai_state.hai_count_p),
                        0,
                    ),
                forall|q: int|
                    0 <= q < sou@.len() ==> suit_option_ok(
                        (#[trigger] sou@[q])@,
                        2,
                        counts9(pai_state.hai_count_s),
                        0,
                    ),
                all_melds(zihai@),
                leq34(tiles_vec(zihai@), havail(counts7(pai_state.hai_count_z), 7)),
                forall|q: int|
                    0 <= q < all_mentsu@.len() ==> melds_option_ok((#[trigger] all_mentsu@[q])@, v),
        {
            for k in 0..ns
                invariant
                    nm == man@.len(),
                    np == pin@.len(),
                    ns == sou@.len(),
                    i < nm,
                    j < np,
                    manv == views_of(man@),
                    pinv == views_of(pin@),
                    souv == views_of(sou@),
                    zv == zihai@,
                    views_of(all_mentsu@) =~= cross_all(manv, pinv, souv, zv, i as int)
                        + cross_mid(manv[i as int], pinv, souv, zv, j as int) + cross_inner(
                        manv[i as int],
                        pinv[j as int],
                        souv,
                        zv,
                        k as int,
                    ),
                    wf34(v),
                    v == pai_state@,
                    forall|q: int|
                        0 <= q < man@.len() ==> suit_option_ok(
                            (#[trigger] man@[q])@,
                            0,
                            counts9(pai_state.hai_count_m),
                            0,
                        ),
                    forall|q: int|
                        0 <= q < pin@.len() ==> suit_option_ok(
                            (#[trigger] pin@[q])@,
                            1,
                            counts9(pai_state.hai_count_p),
                            0,
                        ),
                    forall|q: int|
                        0 <= q < sou@.len() ==> suit_option_ok(
                            (#[trigger] sou@[q])@,
                            2,
                            counts9(pai_state.hai_count_s),
                            0,
                        ),
                    all_melds(zihai@),
                    leq34(tiles_vec(zihai@), havail(counts7(pai_state.hai_count_z), 7)),
                    forall|q: int|
                        0 <= q < all_mentsu@.len() ==> melds_option_ok(
                            (#[trigger] all_mentsu@[q])@,
                            v,
                        ),
            {
                let mut y: Vec<Mentsu> = Vec::new();
                append_all(&mut y, &man[i]);
                append_all(&mut y, &pin[j]);
                append_all(&mut y, &sou[k]);
                append_all(&mut y, &zihai);
                proof {
                    let a = man@[i as int]@;
                    let b = pin@[j as int]@;
                    let c = sou@[k as int]@;
                    let z = zihai@;
                    assert(y@ == ((Seq::<Mentsu>::empty() + a + b) + c) + z);
                    assert(Seq::<Mentsu>::empty() + a =~= a);
                    lemma_all_melds_concat(a, b);
                    lemma_all_melds_concat(a + b, c);
                    lemma_all_melds_concat((a + b) + c, z);
                    lemma_contrib_append(a, b);
                    lemma_contrib_append(a + b, c);
                    lemma_contrib_append((a + b) + c, z);
                    assert(melds_option_ok(y@, v)) by {
                        assert(forall|q: int|
                            0 <= q < 34 ==> #[trigger] tiles_vec(y@)[q] == tiles_vec(a)[q]
                                + tiles_vec(b)[q] + tiles_vec(c)[q] + tiles_vec(z)[q]);
                        assert(forall|q: int|
                            0 <= q < 34 ==> avail(0, counts9(pai_state.hai_count_m), 0)[q] + avail(
                                1,
                                counts9(pai_state.hai_count_p),
                                0,
                            )[q] + avail(2, counts9(pai_state.hai_count_s), 0)[q] + havail(
                                counts7(pai_state.hai_count_z),
                                7,
                            )[q] == #[trigger] v[q]);
                    }
                    assert(manv[i as int] == man@[i as int]@);
                    assert(pinv[j as int] == pin@[j as int]@);
                    assert(souv[k as int] == sou@[k as int]@);
                    assert(y@ =~= manv[i as int] + pinv[j as int] + souv[k as int] + zv);
                }
                let ghost before = all_mentsu@;
                all_mentsu.push(y);
                proof {
                    let ghost target = cross_all(manv, pinv, souv, zv, i as int) + cross_mid(
                        manv[i as int],
                        pinv,
                        souv,
                        zv,
                        j as int,
                    ) + cross_inner(manv[i as int], pinv[j as int], souv, zv, k + 1);
                    assert(all_mentsu@ == before.push(y));
                    assert(views_of(before).len() == before.len());
                    assert(cross_inner(manv[i as int], pinv[j as int], souv, zv, k + 1)
                        == cross_inner(manv[i as int], pinv[j as int], souv, zv, k as int).push(
                        manv[i as int] + pinv[j as int] + souv[k as int] + zv,
                    ));
                    assert forall|q: int|
                        0 <= q < all_mentsu@.len() implies views_of(all_mentsu@)[q] == target[q] by {
                        if q < before.len() {
                            assert(all_mentsu@[q] == before[q]);
                            assert(views_of(before)[q] == (cross_all(manv, pinv, souv, zv, i as int)
                                + cross_mid(manv[i as int], pinv, souv, zv, j as int)
                                + cross_inner(manv[i as int], pinv[j as int], souv, zv, k as int))[
                                q]);
                        } else {
                            assert(all_mentsu@[q] == y);
                        }
                    }
                    assert(views_of(all_mentsu@) =~= target);
                }
            }
            proof {
                assert(souv.len() == ns);
                assert(cross_mid(manv[i as int], pinv, souv, zv, j + 1) == cross_mid(
                    manv[i as int],
                    pinv,
                    souv,
                    zv,
                    j as int,
                ) + cross_inner(manv[i as int], pinv[j as int], souv, zv, souv.len() as int));
                assert(views_of(all_mentsu@) =~= cross_all(manv, pinv, souv, zv, i as int)
                    + cross_mid(manv[i as int], pinv, souv, zv, j + 1));
            }
        }
        proof {
            assert(pinv.len() == np);
            assert(cross_all(manv, pinv, souv, zv, i + 1) == cross_all(manv, pinv, souv, zv, i as int)
                + cross_mid(manv[i as int], pinv, souv, zv, pinv.len() as int));
            assert(views_of(all_mentsu@) =~= cross_all(manv, pinv, souv, zv, i + 1));
        }
    }
    proof {
        assert(manv.len() == nm);
        assert(views_of(all_mentsu@) =~= spec_without_atama(v));
    }
    all_mentsu
}

/// All decompositions that use a pair head of kind `kind`.
/// A well-formed count vector sums to at most the deck's size.
pub proof fn lemma_psum34_bound(v: Seq<int>, n: int)
    requires
        wf34(v),
        0 <= n <= 34,
    ensures
        0 <= psum(v, n) <= 4 * n,
    decreases n,
{
    if n > 0 {
        lemma_psum34_bound(v, n - 1);
    }
}

/// A decomposition within a well-formed hand holds at most forty-six
/// blocks, and every meld's leading tile is an in-range kind.
pub proof fn lemma_decomp_len(d: Seq<Mentsu>, v: Seq<int>)
    requires
        decomp_ok(d, v),
        wf34(v),
    ensures
        1 <= d.len() <= 46,
        forall|j: int| 0 <= j < d.len() ==> (#[trigger] d[j]).pai_list@[0].pai_num < 34,
        forall|j: int| 0 <= j < d.len() ==> (#[trigger] d[j]).pai_len <= 4,
{
    let rest = d.drop_first();
    assert(all_melds(rest)) by {
        assert(forall|j: int| 0 <= j < rest.len() ==> rest[j] == #[trigger] d[j + 1]);
    }
    lemma_melds_total(rest);
    assert(d =~= seq![d[0]] + rest);
    lemma_contrib_prepend(d[0], rest);
    lemma_pair_vec(d[0]);
    lemma_psum_add(meld_vec(d[0]), tiles_vec(rest), 34);
    assert(psum(tiles_vec(seq![d[0]] + rest), 34) == psum(
        vec_add(meld_vec(d[0]), tiles_vec(rest)),
        34,
    )) by {
        assert(tiles_vec(seq![d[0]] + rest) =~= vec_add(meld_vec(d[0]), tiles_vec(rest)));
    }
    assert(psum(tiles_vec(d), 34) == 2 + 3 * rest.len());
    lemma_psum_le(tiles_vec(d), v, 34);
    lemma_psum34_bound(v, 34);
}

/// Every decomposition using a pair head of the given kind: the head in
/// front of every whole-hand combination of the reduced counts.
pub open spec fn spec_head_options(v: Seq<int>, kind: int) -> Seq<Seq<Mentsu>> {
    prepend_each(spec_pair_meld(kind), spec_without_atama(v.update(kind, v[kind] - 2)))
}

/// The decompositions gathered over the first `t` of the thirty-six
/// pair-head steps: step `t` examines rank `t / 4` of suit `t % 4` (the
/// honor suit stops at its seventh rank) and contributes every
/// decomposition headed by that kind when it is held at least twice.
pub open spec fn spec_all_heads(v: Seq<int>, t: int) -> Seq<Seq<Mentsu>>
    decreases t,
{
    if t <= 0 {
        Seq::empty()
    } else {
        let prev = spec_all_heads(v, t - 1);
        let n = (t - 1) / 4;
        let suit = (t - 1) % 4;
        let kind = n + suit * 9;
        if (suit < 3 || n < 7) && v[kind] >= 2 {
            prev + spec_head_options(v, kind)
        } else {
            prev
        }
    }
}

/// The first `i` alternatives that reach the five-block floor, in order.
pub open spec fn spec_filter_blocks(opts: Seq<Seq<Mentsu>>, n_fulo: int, i: int) -> Seq<
    Seq<Mentsu>,
>
    decreases i,
{
    if i <= 0 {
        Seq::empty()
    } else {
        let prev = spec_filter_blocks(opts, n_fulo, i - 1);
        if opts[i - 1].len() + n_fulo >= 5 {
            prev.push(opts[i - 1])
        } else {
            prev
        }
    }
}

/// Every decomposition of the hand into a pair head plus runs and triplets
/// that together with the declared melds reaches the five blocks of a
/// complete hand, in the enumerator's order.
pub open spec fn spec_all_of_mentsu(v: Seq<int>, n_fulo: int) -> Seq<Seq<Mentsu>> {
    let all = spec_all_heads(v, 36);
    spec_filter_blocks(all, n_fulo, all.len() as int)
}

fn decomps_with_head(pai_state: &PaiState, kind: usize) -> (r: Vec<Vec<Mentsu>>)
    requires
        wf34(pai_state@),
        kind < 34,
        pai_state@[kind as int] >= 2,
    ensures
        views_of(r@) == spec_head_options(pai_state@, kind as int),
        forall|i: int| 0 <= i < r@.len() ==> decomp_ok((#[trigger] r@[i])@, pai_state@),
{
    let ghost v = pai_state@;
    let atama = Mentsu::new(
        &[
            MentsuPai::new(kind as u8, 0, MentsuFlag::FLAG_NONE),
            MentsuPai::new(kind as u8, 0, MentsuFlag::FLAG_NONE),
            MentsuPai::new(0, 0, MentsuFlag::FLAG_NONE),
            MentsuPai::new(0, 0, MentsuFlag::FLAG_NONE),
        ],
        2,
        MentsuType::TYPE_ATAMA,
    );
    proof {
        assert(is_pair(atama));
        assert(atama.pai_list =~= spec_pair_meld(kind as int).pai_list);
        assert(atama == spec_pair_meld(kind as int));
    }
    let reduced = pai_state.with_pair_removed(kind);
    proof {
        assert(wf34(reduced@));
    }
    let sub = all_of_mentsu_without_atama(&reduced);
    let ghost subv = views_of(sub@);
    let ghost target = prepend_each(spec_pair_meld(kind as int), subv);
    proof {
        assert(subv == spec_without_atama(v.update(kind as int, v[kind as int] - 2)));
        assert(target == spec_head_options(v, kind as int));
    }
    let mut r: Vec<Vec<Mentsu>> = Vec::new();
    let nsub = sub.len();
    for i in 0..nsub
        invariant
            nsub == sub@.len(),
            kind < 34,
            wf34(v),
            v == pai_state@,
            v[kind as int] >= 2,
            is_pair(atama),
            atama == spec_pair_meld(kind as int),
            atama.pai_list@[0].pai_num == kind,
            subv == views_of(sub@),
            target == prepend_each(spec_pair_meld(kind as int), subv),
            target == spec_head_options(v, kind as int),
            views_of(r@) =~= target.take(i as int),
            reduced@ =~= v.update(kind as int, v[kind as int] - 2),
            forall|q: int| 0 <= q < sub@.len() ==> melds_option_ok((#[trigger] sub@[q])@, reduced@),
            forall|q: int| 0 <= q < r@.len() ==> decomp_ok((#[trigger] r@[q])@, v),
    {
        let mut y: Vec<Mentsu> = Vec::new();
        y.push(atama);
        append_all(&mut y, &sub[i]);
        proof {
            let rest = sub@[i as int]@;
            assert(y@ == seq![atama] + rest);
            lemma_contrib_prepend(atama, rest);
            lemma_pair_vec(atama);
            assert(decomp_ok(y@, v)) by {
                assert(y@[0] == atama);
                assert(forall|j: int| 1 <= j < y@.len() ==> y@[j] == #[trigger] rest[j - 1]);
                assert(forall|q: int|
                    0 <= q < 34 ==> #[trigger] tiles_vec(y@)[q] == meld_vec(atama)[q] + tiles_vec(
                        rest,
                    )[q]);
            }
            assert(views_of(sub@).len() == sub@.len());
            assert(subv[i as int] == sub@[i as int]@);
            assert(target[i as int] == seq![spec_pair_meld(kind as int)] + subv[i as int]);
            assert(y@ == target[i as int]);
        }
        let ghost before = r@;
        r.push(y);
        proof {
            assert(r@ == before.push(y));
            assert(views_of(before).len() == before.len());
            assert forall|q: int| 0 <= q < r@.len() implies views_of(r@)[q] == target.take(i + 1)[q] by {
                if q < before.len() {
                    assert(r@[q] == before[q]);
                    assert(views_of(before)[q] == target.take(i as int)[q]);
                } else {
                    assert(r@[q] == y);
                }
            }
            assert(views_of(r@) =~= target.take(i + 1));
        }
    }
    proof {
        assert(target.take(nsub as int) =~= target);
    }
    r
}

/// Enumerates every decomposition of the hand into a pair head plus runs and
/// triplets that together with `n_fulo` declared melds reach the five blocks
/// of a complete hand. An impossible hand yields an empty list.
///
/// Every returned decomposition consumes no more tiles than the hand holds;
/// when the hand holds exactly the `14 - 3 * n_fulo` tiles of a complete
/// hand, the decomposition's tile counts equal the hand's counts exactly: no
/// tile is invented or dropped.
pub fn all_of_mentsu(pai_state: &PaiState, n_fulo: usize) -> (r: Vec<Vec<Mentsu>>)
    requires
        wf34(pai_state@),
        n_fulo <= 4,
    ensures
        views_of(r@) == spec_all_of_mentsu(pai_state@, n_fulo as int),
        forall|i: int|
            0 <= i < r@.len() ==> {
                let d = (#[trigger] r@[i])@;
                &&& decomp_ok(d, pai_state@)
                &&& d.len() + n_fulo >= 5
                &&& (psum(pai_state@, 34) == 14 - 3 * n_fulo ==> tiles_vec(d) =~= pai_state@)
            },
{
    let ghost v = pai_state@;
    let mut all_mentsu: Vec<Vec<Mentsu>> = Vec::new();
    for n in 0..9usize
        invariant
            wf34(v),
            v == pai_state@,
            n_fulo <= 4,
            views_of(all_mentsu@) =~= spec_all_heads(v, 4 * n),
            forall|q: int| 0 <= q < all_mentsu@.len() ==> decomp_ok((#[trigger] all_mentsu@[q])@, v),
    {
        let mut suit: usize = 0;
        while suit < 4
            invariant
                suit <= 4,
                n < 9,
                wf34(v),
                v == pai_state@,
                views_of(all_mentsu@) =~= spec_all_heads(v, 4 * n + suit),
                forall|q: int|
                    0 <= q < all_mentsu@.len() ==> decomp_ok((#[trigger] all_mentsu@[q])@, v),
            decreases 4 - suit,
        {
            let ghost t0 = 4 * n + suit;
            if suit < 3 || n < 7 {
                let kind = n + suit * 9;
                if pai_state.count_of(kind) >= 2 {
                    let part = decomps_with_head(pai_state, kind);
                    let ghost partv = views_of(part@);
                    let npart = part.len();
                    for t in 0..npart
                        invariant
                            npart == part@.len(),
                            wf34(v),
                            v == pai_state@,
                            t0 == 4 * n + suit,
                            partv == views_of(part@),
                            partv == spec_head_options(v, n + suit * 9),
                            views_of(all_mentsu@) =~= spec_all_heads(v, t0) + partv.take(t as int),
                            forall|q: int|
                                0 <= q < part@.len() ==> decomp_ok((#[trigger] part@[q])@, v),
                            forall|q: int|
                                0 <= q < all_mentsu@.len() ==> decomp_ok(
                                    (#[trigger] all_mentsu@[q])@,
                                    v,
                                ),
                    {
                        let src = &part[t];
                        let srclen = src.len();
                        let mut y: Vec<Mentsu> = Vec::new();
                        append_all(&mut y, src);
                        proof {
                            assert(y@ =~= src@);
                            assert(views_of(part@).len() == part@.len());
                            assert(y@ == partv[t as int]);
                        }
                        let ghost before = all_mentsu@;
                        all_mentsu.push(y);
                        proof {
                            assert(all_mentsu@ == before.push(y));
                            assert(views_of(before).len() == before.len());
                            assert forall|q: int|
                                0 <= q < all_mentsu@.len() implies views_of(all_mentsu@)[q] == (
                            spec_all_heads(v, t0) + partv.take(t + 1))[q] by {
                                if q < before.len() {
                                    assert(all_mentsu@[q] == before[q]);
                                    assert(views_of(before)[q] == (spec_all_heads(v, t0)
                                        + partv.take(t as int))[q]);
                                } else {
                                    assert(all_mentsu@[q] == y);
                                }
                            }
                            assert(views_of(all_mentsu@) =~= spec_all_heads(v, t0) + partv.take(
                                t + 1,
                            ));
                        }
                    }
                    proof {
                        assert(partv.take(npart as int) =~= partv);
                    }
                }
            }
            proof {
                assert((4 * n + suit) / 4 == n && (4 * n + suit) % 4 == suit) by (nonlinear_arith)
                    requires
                        0 <= suit < 4,
                        0 <= n,
                ;
                assert(views_of(all_mentsu@) =~= spec_all_heads(v, 4 * n + suit + 1));
            }
            suit = suit + 1;
        }
    }

    // Keep only the alternatives that reach the required meld count.
    let ghost allv = views_of(all_mentsu@);
    proof {
        assert(allv == spec_all_heads(v, 36));
    }
    let mut out: Vec<Vec<Mentsu>> = Vec::new();
    let nall = all_mentsu.len();
    for i in 0..nall
        invariant
            nall == all_mentsu@.len(),
            wf34(v),
            v == pai_state@,
            n_fulo <= 4,
            allv == views_of(all_mentsu@),
            allv == spec_all_heads(v, 36),
            views_of(out@) =~= spec_filter_blocks(allv, n_fulo as int, i as int),
            forall|q: int| 0 <= q < all_mentsu@.len() ==> decomp_ok((#[trigger] all_mentsu@[q])@, v),
            forall|q: int|
                0 <= q < out@.len() ==> {
                    let d = (#[trigger] out@[q])@;
                    &&& decomp_ok(d, v)
                    &&& d.len() + n_fulo >= 5
                },
    {
        proof {
            assert(views_of(all_mentsu@).len() == all_mentsu@.len());
            assert(allv[i as int] == all_mentsu@[i as int]@);
        }
        if all_mentsu[i].len() >= 5 - n_fulo {
            let src = &all_mentsu[i];
            let mut y: Vec<Mentsu> = Vec::new();
            append_all(&mut y, src);
            proof {
                assert(y@ =~= src@);
                assert(y@ == allv[i as int]);
            }
            let ghost before = out@;
            out.push(y);
            proof {
                assert(out@ == before.push(y));
                assert(views_of(before).len() == before.len());
                assert forall|q: int|
                    0 <= q < out@.len() implies views_of(out@)[q] == spec_filter_blocks(
                    allv,
                    n_fulo as int,
                    i + 1,
                )[q] by {
                    if q < before.len() {
                        assert(out@[q] == before[q]);
                        assert(views_of(before)[q] == spec_filter_blocks(
                            allv,
                            n_fulo as int,
                            i as int,
                        )[q]);
                    } else {
                        assert(out@[q] == y);
                    }
                }
                assert(views_of(out@) =~= spec_filter_blocks(allv, n_fulo as int, i + 1));
            }
        } else {
            proof {
                assert(views_of(out@) =~= spec_filter_blocks(allv, n_fulo as int, i + 1));
            }
        }
    }
    proof {
        assert(allv.len() == nall);
        assert(views_of(out@) =~= spec_all_of_mentsu(v, n_fulo as int));
    }

    proof {
        assert forall|i: int|
            0 <= i < out@.len() implies {
            let d = (#[trigger] out@[i])@;
            psum(v, 34) == 14 - 3 * n_fulo ==> tiles_vec(d) =~= v
        } by {
            let d = out@[i]@;
            if psum(v, 34) == 14 - 3 * n_fulo {
                let rest = d.drop_first();
                assert(all_melds(rest)) by {
                    assert(forall|j: int| 0 <= j < rest.len() ==> rest[j] == #[trigger] d[j + 1]);
                }
                lemma_melds_total(rest);
                assert(d =~= seq![d[0]] + rest);
                lemma_contrib_prepend(d[0], rest);
                lemma_pair_vec(d[0]);
                lemma_psum_add(meld_vec(d[0]), tiles_vec(rest), 34);
                assert(psum(tiles_vec(seq![d[0]] + rest), 34) == psum(
                    vec_add(meld_vec(d[0]), tiles_vec(rest)),
                    34,
                )) by {
                    assert(tiles_vec(seq![d[0]] + rest) =~= vec_add(
                        meld_vec(d[0]),
                        tiles_vec(rest),
                    ));
                }
                assert(psum(tiles_vec(d), 34) == 2 + 3 * rest.len());
                lemma_psum_le(tiles_vec(d), v, 34);
                assert(psum(tiles_vec(d), 34) == psum(v, 34));
                lemma_leq_same_sum(tiles_vec(d), v);
                assert(tiles_vec(d).len() == 34) by {
                    assert(tiles_vec(d) =~= vec_add(meld_vec(d[0]), tiles_vec(rest)));
                }
                assert(tiles_vec(d) =~= v);
            }
        }
    }
    out
}

} // verus!
