//! Classification and scoring of a completed hand: the structural summary of
//! one decomposition, the battery of yaku predicates, and the fu and score
//! arithmetic, with the best-scoring interpretation selected over all
//! decompositions.

use vstd::prelude::*;

use crate::mentsu::{meld_vec, tiles_vec, views_of, Mentsu, MentsuFlag, MentsuPai, MentsuType};
use crate::shanten::{counts7, counts9, psum};
use crate::tile::Pai;
use crate::CoreError;

verus! {

broadcast use vstd::array::axiom_spec_array_update, vstd::array::axiom_array_ext_equal;


/// Run counts per suit and rank, from one decomposition.
#[derive(Clone, Copy, Debug)]
pub struct Shuntsu {
    pub m: [i32; 9],
    pub p: [i32; 9],
    pub s: [i32; 9],
}

/// Triplet (or pair) counts per suit and rank, and per honor kind.
#[derive(Clone, Copy, Debug)]
pub struct Koutsu {
    pub m: [i32; 9],
    pub p: [i32; 9],
    pub s: [i32; 9],
    pub z: [i32; 7],
}

/// The derived, read-only summary of one decomposition: per-kind group
/// counts, concealment and wait flags, the fu accumulator and the table
/// context. It is rebuilt fresh for every candidate decomposition.
#[derive(Clone, Copy, Debug)]
pub struct AgariState {
    pub fu: i32,
    pub menzen: bool,
    pub tsumo: bool,
    pub shuntsu: Shuntsu,
    pub koutsu: Koutsu,
    pub toitsu: Koutsu,
    pub n_toitsu: i32,
    pub n_shuntsu: i32,
    pub n_koutsu: i32,
    pub n_ankou: i32,
    pub n_kantsu: i32,
    pub n_yaochu: i32,
    pub n_zihai: i32,
    pub tanki: bool,
    pub pinfu: bool,
    pub kokushi: bool,
    pub churen: bool,
    pub bakaze: u32,
    pub zikaze: u32,
}

/// A scored hand: the point base, the multiplier total, the final score and
/// the named categories that produced them.
#[derive(Clone, Debug)]
pub struct Agari {
    pub score: i32,
    pub fu: i32,
    pub han: i32,
    pub yaku: Vec<(String, i32)>,
}

impl Default for Agari {
    fn default() -> (r: Self)
        ensures
            r.score == 0 && r.fu == 0 && r.han == 0 && r.yaku@ =~= Seq::<(String, i32)>::empty(),
    {
        Agari { score: 0, fu: 0, han: 0, yaku: Vec::new() }
    }
}

/// The mathematical model of an [`AgariState`]: the same facts over
/// unbounded integers and sequences.
#[verifier::ext_equal]
pub struct AgariModel {
    pub fu: int,
    pub menzen: bool,
    pub tsumo: bool,
    pub shuntsu_m: Seq<int>,
    pub shuntsu_p: Seq<int>,
    pub shuntsu_s: Seq<int>,
    pub koutsu_m: Seq<int>,
    pub koutsu_p: Seq<int>,
    pub koutsu_s: Seq<int>,
    pub koutsu_z: Seq<int>,
    pub toitsu_m: Seq<int>,
    pub toitsu_p: Seq<int>,
    pub toitsu_s: Seq<int>,
    pub toitsu_z: Seq<int>,
    pub n_toitsu: int,
    pub n_shuntsu: int,
    pub n_koutsu: int,
    pub n_ankou: int,
    pub n_kantsu: int,
    pub n_yaochu: int,
    pub n_zihai: int,
    pub tanki: bool,
    pub pinfu: bool,
    pub kokushi: bool,
    pub churen: bool,
    pub bakaze: int,
    pub zikaze: int,
}

impl View for AgariState {
    type V = AgariModel;

    open spec fn view(&self) -> AgariModel {
        AgariModel {
            fu: self.fu as int,
            menzen: self.menzen,
            tsumo: self.tsumo,
            shuntsu_m: counts9(self.shuntsu.m),
            shuntsu_p: counts9(self.shuntsu.p),
            shuntsu_s: counts9(self.shuntsu.s),
            koutsu_m: counts9(self.koutsu.m),
            koutsu_p: counts9(self.koutsu.p),
            koutsu_s: counts9(self.koutsu.s),
            koutsu_z: counts7(self.koutsu.z),
            toitsu_m: counts9(self.toitsu.m),
            toitsu_p: counts9(self.toitsu.p),
            toitsu_s: counts9(self.toitsu.s),
            toitsu_z: counts7(self.toitsu.z),
            n_toitsu: self.n_toitsu as int,
            n_shuntsu: self.n_shuntsu as int,
            n_koutsu: self.n_koutsu as int,
            n_ankou: self.n_ankou as int,
            n_kantsu: self.n_kantsu as int,
            n_yaochu: self.n_yaochu as int,
            n_zihai: self.n_zihai as int,
            tanki: self.tanki,
            pinfu: self.pinfu,
            kokushi: self.kokushi,
            churen: self.churen,
            bakaze: self.bakaze as int,
            zikaze: self.zikaze as int,
        }
    }
}

/// All counters of the summary are small and nonnegative, the winds are in
/// range, and the fu accumulator is within the machine's comfort.
pub open spec fn wf_agari(v: AgariModel) -> bool {
    &&& (forall|i: int| 0 <= i < 9 ==> 0 <= #[trigger] v.shuntsu_m[i] <= 100)
    &&& (forall|i: int| 0 <= i < 9 ==> 0 <= #[trigger] v.shuntsu_p[i] <= 100)
    &&& (forall|i: int| 0 <= i < 9 ==> 0 <= #[trigger] v.shuntsu_s[i] <= 100)
    &&& (forall|i: int| 0 <= i < 9 ==> 0 <= #[trigger] v.koutsu_m[i] <= 100)
    &&& (forall|i: int| 0 <= i < 9 ==> 0 <= #[trigger] v.koutsu_p[i] <= 100)
    &&& (forall|i: int| 0 <= i < 9 ==> 0 <= #[trigger] v.koutsu_s[i] <= 100)
    &&& (forall|i: int| 0 <= i < 7 ==> 0 <= #[trigger] v.koutsu_z[i] <= 100)
    &&& (forall|i: int| 0 <= i < 9 ==> 0 <= #[trigger] v.toitsu_m[i] <= 100)
    &&& (forall|i: int| 0 <= i < 9 ==> 0 <= #[trigger] v.toitsu_p[i] <= 100)
    &&& (forall|i: int| 0 <= i < 9 ==> 0 <= #[trigger] v.toitsu_s[i] <= 100)
    &&& (forall|i: int| 0 <= i < 7 ==> 0 <= #[trigger] v.toitsu_z[i] <= 100)
    &&& 0 <= v.n_toitsu <= 100
    &&& 0 <= v.n_shuntsu <= 100
    &&& 0 <= v.n_koutsu <= 100
    &&& 0 <= v.n_ankou <= 100
    &&& 0 <= v.n_kantsu <= 100
    &&& 0 <= v.n_yaochu <= 200
    &&& 0 <= v.n_zihai <= 100
    &&& 0 <= v.fu <= 100000
    &&& 0 <= v.bakaze < 4
    &&& 0 <= v.zikaze < 4
}

/// Some slot of the meld carries the winning-tile mark.
pub open spec fn has_agari_flag(m: Mentsu) -> bool {
    exists|t: int| 0 <= t < 4 && m.pai_list@[t].flag == MentsuFlag::FLAG_AGARI
}

/// The winning tile completes this meld as its pair: a single wait.
fn is_tanki(mentsu: &Mentsu) -> (r: bool)
    ensures
        r == has_agari_flag(*mentsu),
{
    let mut t: usize = 0;
    while t < 4
        invariant
            t <= 4,
            forall|q: int| 0 <= q < t ==> mentsu.pai_list@[q].flag != MentsuFlag::FLAG_AGARI,
        decreases 4 - t,
    {
        if mentsu.pai_list[t].flag() == MentsuFlag::FLAG_AGARI {
            return true;
        }
        t = t + 1;
    }
    false
}

/// The winning tile is the middle tile of a run: a closed wait.
pub open spec fn spec_is_kanchan(m: Mentsu) -> bool {
    m.pai_list@[0].flag != MentsuFlag::FLAG_AGARI && m.pai_list@[1].flag == MentsuFlag::FLAG_AGARI
}

fn is_kanchan(mentsu: &Mentsu) -> (r: bool)
    ensures
        r == spec_is_kanchan(*mentsu),
{
    mentsu.pai_list[0].flag() != MentsuFlag::FLAG_AGARI && mentsu.pai_list[1].flag()
        == MentsuFlag::FLAG_AGARI
}

/// The winning tile completes a run anchored at a suit's edge.
pub open spec fn spec_is_penchan(m: Mentsu) -> bool {
    ||| (m.pai_list@[0].flag != MentsuFlag::FLAG_AGARI && m.pai_list@[1].flag
        != MentsuFlag::FLAG_AGARI && m.pai_list@[2].flag == MentsuFlag::FLAG_AGARI
        && m.pai_list@[2].pai_num % 9 == 2)
    ||| (m.pai_list@[0].flag == MentsuFlag::FLAG_AGARI && m.pai_list@[0].pai_num % 9 == 6)
}

fn is_penchan(mentsu: &Mentsu) -> (r: bool)
    ensures
        r == spec_is_penchan(*mentsu),
{
    if mentsu.pai_list[0].flag() == MentsuFlag::FLAG_AGARI {
        return mentsu.pai_list[0].pai_num() % 9 == 6;
    }
    if mentsu.pai_list[1].flag() == MentsuFlag::FLAG_AGARI {
        return false;
    }
    if mentsu.pai_list[2].flag() == MentsuFlag::FLAG_AGARI {
        return mentsu.pai_list[2].pai_num() % 9 == 2;
    }
    false
}

/// The kind whose tiles a given bonus indicator rewards: the next rank of
/// the same suit, wrapping inside the suit, the winds and the dragons.
pub open spec fn spec_dora_pai_num(pai_num: u8) -> int {
    if pai_num == 30 {
        27int
    } else if pai_num == 33 {
        31int
    } else if pai_num % 9 == 8 {
        pai_num - 8
    } else {
        pai_num + 1
    }
}

pub fn dora_pai_num(pai_num: u8) -> (r: u8)
    requires
        pai_num < 34,
    ensures
        r == spec_dora_pai_num(pai_num),
{
    if pai_num == 30 {
        return 27;
    }
    if pai_num == 33 {
        return 31;
    }
    if pai_num % 9 == 8 {
        return pai_num - 8;
    }
    pai_num + 1
}

/// Some slot of the meld holds a tile of the winning kind.
pub open spec fn meld_has_kind(m: Mentsu, k: int) -> bool {
    ||| m.pai_list@[0].pai_num == k
    ||| m.pai_list@[1].pai_num == k
    ||| m.pai_list@[2].pai_num == k
    ||| m.pai_list@[3].pai_num == k
}

/// The first slot of the meld holding a tile of kind `k`.
pub open spec fn spec_first_slot(m: Mentsu, k: int) -> int {
    if m.pai_list@[0].pai_num == k {
        0int
    } else if m.pai_list@[1].pai_num == k {
        1int
    } else if m.pai_list@[2].pai_num == k {
        2int
    } else {
        3int
    }
}

/// The meld with the winning-tile mark set on its first slot of kind `k`;
/// every other slot, the used length and the shape are unchanged.
pub open spec fn spec_marked_meld(m: Mentsu, k: int) -> Mentsu {
    let t = spec_first_slot(m, k);
    let slot = m.pai_list@[t];
    Mentsu {
        pai_list: vstd::array::spec_array_update(
            m.pai_list,
            t,
            MentsuPai { pai_num: slot.pai_num, id: slot.id, flag: MentsuFlag::FLAG_AGARI },
        ),
        ..m
    }
}

/// The marked variants of one decomposition over its first `n` melds: one
/// copy per meld holding the winning kind, that meld marked, in meld order.
pub open spec fn spec_decomp_variants(d: Seq<Mentsu>, k: int, n: int) -> Seq<Seq<Mentsu>>
    decreases n,
{
    if n <= 0 {
        Seq::empty()
    } else {
        let prev = spec_decomp_variants(d, k, n - 1);
        if meld_has_kind(d[n - 1], k) {
            prev.push(d.update(n - 1, spec_marked_meld(d[n - 1], k)))
        } else {
            prev
        }
    }
}

/// The marked variants of the first `n` decompositions, in input order.
pub open spec fn spec_machi_variants(all: Seq<Seq<Mentsu>>, k: int, n: int) -> Seq<Seq<Mentsu>>
    decreases n,
{
    if n <= 0 {
        Seq::empty()
    } else {
        spec_machi_variants(all, k, n - 1) + spec_decomp_variants(
            all[n - 1],
            k,
            all[n - 1].len() as int,
        )
    }
}

/// Every marked variant of the given decompositions for winning kind `k`.
pub open spec fn spec_add_machi(all: Seq<Seq<Mentsu>>, k: int) -> Seq<Seq<Mentsu>> {
    spec_machi_variants(all, k, all.len() as int)
}

/// The marked meld keeps its used length, shape and tile kinds; only the
/// marked slot's flag changes.
pub proof fn lemma_marked_shape(m: Mentsu, k: int)
    ensures
        ({
            let m2 = spec_marked_meld(m, k);
            &&& m2.pai_len == m.pai_len
            &&& m2.mentsu_type == m.mentsu_type
            &&& forall|t: int| 0 <= t < 4 ==> m2.pai_list@[t].pai_num == m.pai_list@[t].pai_num
        }),
{
    let t = spec_first_slot(m, k);
    let m2 = spec_marked_meld(m, k);
    assert(m2.pai_list@ == m.pai_list@.update(
        t,
        MentsuPai {
            pai_num: m.pai_list@[t].pai_num,
            id: m.pai_list@[t].id,
            flag: MentsuFlag::FLAG_AGARI,
        },
    ));
}

/// Replacing one meld by another holding the same tiles leaves the
/// decomposition's tile counts unchanged.
pub proof fn lemma_tiles_vec_update(d: Seq<Mentsu>, idx: int, m2: Mentsu)
    requires
        0 <= idx < d.len(),
        meld_vec(m2) == meld_vec(d[idx]),
    ensures
        tiles_vec(d.update(idx, m2)) =~= tiles_vec(d),
    decreases d.len(),
{
    if idx == 0 {
        assert(d.update(0, m2).drop_first() =~= d.drop_first());
    } else {
        assert(d.update(idx, m2).drop_first() =~= d.drop_first().update(idx - 1, m2));
        assert(d.update(idx, m2)[0] == d[0]);
        lemma_tiles_vec_update(d.drop_first(), idx - 1, m2);
        assert(forall|q: int|
            0 <= q < 34 ==> #[trigger] tiles_vec(d.update(idx, m2))[q] == meld_vec(d[0])[q]
                + tiles_vec(d.drop_first().update(idx - 1, m2))[q]);
        assert(forall|q: int|
            0 <= q < 34 ==> #[trigger] tiles_vec(d)[q] == meld_vec(d[0])[q] + tiles_vec(
                d.drop_first(),
            )[q]);
    }
}

/// Every marked variant of a decomposition is itself a decomposition of the
/// same hand, of the same length and the same tile counts.
pub proof fn lemma_variants_preserve(d: Seq<Mentsu>, k: int, n: int, v: Seq<int>)
    requires
        crate::shanten::decomp_ok(d, v),
        forall|j: int| 0 <= j < d.len() ==> (#[trigger] d[j]).pai_len <= 4,
        0 <= n <= d.len(),
    ensures
        forall|i: int|
            0 <= i < spec_decomp_variants(d, k, n).len() ==> {
                let e = #[trigger] spec_decomp_variants(d, k, n)[i];
                &&& crate::shanten::decomp_ok(e, v)
                &&& e.len() == d.len()
                &&& tiles_vec(e) == tiles_vec(d)
            },
    decreases n,
{
    if n > 0 {
        lemma_variants_preserve(d, k, n - 1, v);
        if meld_has_kind(d[n - 1], k) {
            let m2 = spec_marked_meld(d[n - 1], k);
            let e = d.update(n - 1, m2);
            lemma_marked_shape(d[n - 1], k);
            crate::mentsu::lemma_meld_vec_same_kinds(m2, d[n - 1]);
            lemma_tiles_vec_update(d, n - 1, m2);
            assert(crate::shanten::decomp_ok(e, v)) by {
                assert(crate::mentsu::is_pair(e[0]));
                assert(forall|j: int|
                    1 <= j < e.len() ==> crate::mentsu::is_meld(#[trigger] e[j]));
                assert(crate::mentsu::leq34(tiles_vec(e), v));
            }
            assert(forall|i: int|
                0 <= i < spec_decomp_variants(d, k, n - 1).len() ==> spec_decomp_variants(
                    d,
                    k,
                    n,
                )[i] == #[trigger] spec_decomp_variants(d, k, n - 1)[i]);
        }
    }
}

/// Every marked variant over a list of decompositions of one hand is itself
/// a decomposition of that hand, no longer than the longest input.
pub proof fn lemma_machi_preserve(all: Seq<Seq<Mentsu>>, k: int, n: int, v: Seq<int>, len_cap: int)
    requires
        0 <= n <= all.len(),
        forall|q: int|
            0 <= q < all.len() ==> crate::shanten::decomp_ok(#[trigger] all[q], v) && all[q].len()
                <= len_cap && (forall|j: int|
                0 <= j < all[q].len() ==> (#[trigger] all[q][j]).pai_len <= 4),
    ensures
        forall|i: int|
            0 <= i < spec_machi_variants(all, k, n).len() ==> {
                let e = #[trigger] spec_machi_variants(all, k, n)[i];
                &&& crate::shanten::decomp_ok(e, v)
                &&& e.len() <= len_cap
            },
    decreases n,
{
    if n > 0 {
        lemma_machi_preserve(all, k, n - 1, v, len_cap);
        lemma_variants_preserve(all[n - 1], k, all[n - 1].len() as int, v);
        let prev = spec_machi_variants(all, k, n - 1);
        let block = spec_decomp_variants(all[n - 1], k, all[n - 1].len() as int);
        assert forall|i: int|
            0 <= i < (prev + block).len() implies {
            let e = #[trigger] (prev + block)[i];
            &&& crate::shanten::decomp_ok(e, v)
            &&& e.len() <= len_cap
        } by {
            if i < prev.len() {
                assert((prev + block)[i] == prev[i]);
            } else {
                assert((prev + block)[i] == block[i - prev.len()]);
            }
        }
    }
}

/// Marks the winning tile: for every decomposition and every meld holding a
/// tile of the winning kind, emits one variant of that decomposition with
/// the mark on the first such slot of that meld, in input order. Melds
/// without the kind contribute no variant.
pub fn add_machi_to_mentsu(mentsu: &Vec<Vec<Mentsu>>, p: &Pai) -> (r: Vec<Vec<Mentsu>>)
    ensures
        views_of(r@) == spec_add_machi(views_of(mentsu@), p.pai_num as int),
{
    let ghost allv = views_of(mentsu@);
    let ghost k = p.pai_num as int;
    let mut result: Vec<Vec<Mentsu>> = Vec::new();
    let nv = mentsu.len();

    for v in 0..nv
        invariant
            nv == mentsu@.len(),
            allv == views_of(mentsu@),
            k == p.pai_num as int,
            views_of(result@) =~= spec_machi_variants(allv, k, v as int),
    {
        let mentsu_vec = &mentsu[v];
        let nm = mentsu_vec.len();
        proof {
            assert(views_of(mentsu@).len() == mentsu@.len());
            assert(allv[v as int] == mentsu_vec@);
        }

        for index in 0..nm
            invariant
                nm == mentsu_vec@.len(),
                nv == mentsu@.len(),
                v < nv,
                allv == views_of(mentsu@),
                k == p.pai_num as int,
                mentsu_vec == &mentsu@[v as int],
                allv[v as int] == mentsu_vec@,
                views_of(result@) =~= spec_machi_variants(allv, k, v as int)
                    + spec_decomp_variants(mentsu_vec@, k, index as int),
        {
            let m = &mentsu_vec[index];
            // The mark goes on the first slot holding the winning kind.
            let slot_idx: usize = if m.pai_list[0].pai_num() == p.pai_num {
                0
            } else if m.pai_list[1].pai_num() == p.pai_num {
                1
            } else if m.pai_list[2].pai_num() == p.pai_num {
                2
            } else if m.pai_list[3].pai_num() == p.pai_num {
                3
            } else {
                4
            };
            if slot_idx < 4 {
                proof {
                    assert(meld_has_kind(mentsu_vec@[index as int], k));
                    assert(slot_idx as int == spec_first_slot(mentsu_vec@[index as int], k));
                }
                let mut pl = m.pai_list;
                let slot = pl[slot_idx];
                pl[slot_idx] = MentsuPai {
                    pai_num: slot.pai_num,
                    id: slot.id,
                    flag: MentsuFlag::FLAG_AGARI,
                };
                let marked = Mentsu {
                    pai_list: pl,
                    pai_len: m.pai_len,
                    mentsu_type: m.mentsu_type,
                };
                proof {
                    assert(pl =~= vstd::array::spec_array_update(
                        m.pai_list,
                        slot_idx as int,
                        MentsuPai {
                            pai_num: m.pai_list@[slot_idx as int].pai_num,
                            id: m.pai_list@[slot_idx as int].id,
                            flag: MentsuFlag::FLAG_AGARI,
                        },
                    ));
                    assert(marked == spec_marked_meld(mentsu_vec@[index as int], k));
                }
                let mut temp: Vec<Mentsu> = Vec::new();
                crate::mentsu::append_all(&mut temp, mentsu_vec);
                temp[index] = marked;
                proof {
                    assert(temp@ =~= mentsu_vec@.update(index as int, marked));
                }
                let ghost before = result@;
                result.push(temp);
                proof {
                    let ghost target = spec_machi_variants(allv, k, v as int)
                        + spec_decomp_variants(mentsu_vec@, k, index + 1);
                    assert(result@ == before.push(temp));
                    assert(views_of(before).len() == before.len());
                    assert(spec_decomp_variants(mentsu_vec@, k, index + 1) == spec_decomp_variants(
                        mentsu_vec@,
                        k,
                        index as int,
                    ).push(mentsu_vec@.update(index as int, spec_marked_meld(
                        mentsu_vec@[index as int],
                        k,
                    ))));
                    assert forall|q: int|
                        0 <= q < result@.len() implies views_of(result@)[q] == target[q] by {
                        if q < before.len() {
                            assert(result@[q] == before[q]);
                            assert(views_of(before)[q] == (spec_machi_variants(allv, k, v as int)
                                + spec_decomp_variants(mentsu_vec@, k, index as int))[q]);
                        } else {
                            assert(result@[q] == temp);
                        }
                    }
                    assert(views_of(result@) =~= target);
                }
            } else {
                proof {
                    assert(!meld_has_kind(mentsu_vec@[index as int], k));
                    assert(views_of(result@) =~= spec_machi_variants(allv, k, v as int)
                        + spec_decomp_variants(mentsu_vec@, k, index + 1));
                }
            }
        }
        proof {
            assert(spec_machi_variants(allv, k, v + 1) == spec_machi_variants(allv, k, v as int)
                + spec_decomp_variants(allv[v as int], k, allv[v as int].len() as int));
            assert(views_of(result@) =~= spec_machi_variants(allv, k, v + 1));
        }
    }
    proof {
        assert(allv.len() == nv);
    }
    result
}

/// Exec-to-spec view of an optional named category.
pub open spec fn opt_view(o: Option<(String, i32)>) -> Option<(Seq<char>, int)> {
    match o {
        Option::Some(p) => Option::Some((p.0@, p.1 as int)),
        Option::None => Option::None,
    }
}

/// The sequence a category option contributes to the yaku list.
pub open spec fn opt_seq(o: Option<(Seq<char>, int)>) -> Seq<(Seq<char>, int)> {
    match o {
        Option::Some(p) => seq![p],
        Option::None => Seq::empty(),
    }
}

/// Spec view of a yaku list: names as character sequences, values as ints.
pub open spec fn yaku_view(ys: Seq<(String, i32)>) -> Seq<(Seq<char>, int)> {
    ys.map_values(|p: (String, i32)| (p.0@, p.1 as int))
}

/// Appends a category to the list when it applies.
fn push_opt(out: &mut Vec<(String, i32)>, o: Option<(String, i32)>)
    ensures
        yaku_view(final(out)@) == yaku_view(old(out)@) + opt_seq(opt_view(o)),
        o is None ==> final(out)@ == old(out)@,
        o is Some ==> final(out)@ == old(out)@.push(o->Some_0),
{
    match o {
        Option::Some(p) => {
            out.push(p);
            proof {
                assert(yaku_view(out@) =~= yaku_view(old(out)@) + opt_seq(opt_view(o)));
            }
        },
        Option::None => {
            proof {
                assert(yaku_view(out@) =~= yaku_view(old(out)@) + opt_seq(opt_view(o)));
            }
        },
    }
}

/// Sum of the first nine cells of a group-count array.
fn sum9(a: &[i32; 9]) -> (r: i32)
    requires
        forall|i: int| 0 <= i < 9 ==> 0 <= #[trigger] counts9(*a)[i] <= 100,
    ensures
        r as int == psum(counts9(*a), 9),
        0 <= r <= 900,
{
    let ghost h = counts9(*a);
    let mut r: i32 = 0;
    for n in 0..9usize
        invariant
            h == counts9(*a),
            forall|i: int| 0 <= i < 9 ==> 0 <= #[trigger] h[i] <= 100,
            r as int == psum(h, n as int),
            0 <= r <= 100 * n,
    {
        proof {
            assert(h[n as int] == a@[n as int] as int);
        }
        r = r + a[n];
    }
    r
}

/// Sum of halves (rounded down) of the first `n` cells.
pub open spec fn phalf(h: Seq<int>, n: int) -> int
    decreases n,
{
    if n <= 0 {
        0int
    } else {
        phalf(h, n - 1) + h[n - 1] / 2
    }
}

/// Each rank's run count halved and summed: how many identical run pairs the
/// suit contributes.
fn half_sum9(a: &[i32; 9]) -> (r: i32)
    requires
        forall|i: int| 0 <= i < 9 ==> 0 <= #[trigger] counts9(*a)[i] <= 100,
    ensures
        r as int == phalf(counts9(*a), 9),
        0 <= r <= 450,
{
    let ghost h = counts9(*a);
    let mut r: i32 = 0;
    for n in 0..9usize
        invariant
            h == counts9(*a),
            forall|i: int| 0 <= i < 9 ==> 0 <= #[trigger] h[i] <= 100,
            r as int == phalf(h, n as int),
            0 <= r <= 50 * n,
    {
        proof {
            assert(h[n as int] == a@[n as int] as int);
        }
        r = r + a[n] / 2;
    }
    r
}

// The situational categories, decided by the table state rather than the
// tiles.

pub open spec fn spec_riichi(declared: bool) -> Option<(Seq<char>, int)> {
    if declared {
        Option::Some(("立直"@, 1int))
    } else {
        Option::None
    }
}

pub open spec fn spec_ippatsu(within_turn: bool) -> Option<(Seq<char>, int)> {
    if within_turn {
        Option::Some(("一発"@, 1int))
    } else {
        Option::None
    }
}

/// Declared ready hand.
fn is_riichi(declared: bool) -> (r: Option<(String, i32)>)
    ensures
        opt_view(r) == spec_riichi(declared),
{
    if declared {
        Some(("立直".to_owned(), 1))
    } else {
        None
    }
}

/// Won within one turn of declaring ready.
fn is_ippatsu(within_turn: bool) -> (r: Option<(String, i32)>)
    ensures
        opt_view(r) == spec_ippatsu(within_turn),
{
    if within_turn {
        Some(("一発".to_owned(), 1))
    } else {
        None
    }
}

// The structural categories over the classified hand.

pub open spec fn spec_menzen_tsumo(v: AgariModel) -> Option<(Seq<char>, int)> {
    if v.menzen && v.tsumo {
        Option::Some(("門前清自摸和"@, 1int))
    } else {
        Option::None
    }
}

fn is_menzen_tsumo(state: &AgariState) -> (r: Option<(String, i32)>)
    ensures
        opt_view(r) == spec_menzen_tsumo(state@),
{
    if state.menzen && state.tsumo {
        Some(("門前清自摸和".to_owned(), 1))
    } else {
        None
    }
}

pub open spec fn spec_tanyao(v: AgariModel) -> Option<(Seq<char>, int)> {
    if v.n_yaochu == 0 {
        Option::Some(("断么九"@, 1int))
    } else {
        Option::None
    }
}

fn is_tanyao(state: &AgariState) -> (r: Option<(String, i32)>)
    ensures
        opt_view(r) == spec_tanyao(state@),
{
    if state.n_yaochu == 0 {
        Some(("断么九".to_owned(), 1))
    } else {
        None
    }
}

pub open spec fn spec_pinfu(v: AgariModel) -> Option<(Seq<char>, int)> {
    if v.pinfu {
        Option::Some(("平和"@, 1int))
    } else {
        Option::None
    }
}

fn is_pinfu(state: &AgariState) -> (r: Option<(String, i32)>)
    ensures
        opt_view(r) == spec_pinfu(state@),
{
    if state.pinfu {
        Some(("平和".to_owned(), 1))
    } else {
        None
    }
}

/// The display name of a wind as the table's round-wind category.
pub open spec fn spec_bakaze_name(b: int) -> Seq<char> {
    if b == 0 {
        "場風 東"@
    } else if b == 1 {
        "場風 南"@
    } else if b == 2 {
        "場風 西"@
    } else {
        "場風 北"@
    }
}

/// The display name of a wind as the player's seat-wind category.
pub open spec fn spec_zikaze_name(b: int) -> Seq<char> {
    if b == 0 {
        "自風 東"@
    } else if b == 1 {
        "自風 南"@
    } else if b == 2 {
        "自風 西"@
    } else {
        "自風 北"@
    }
}

pub open spec fn spec_bakaze_yaku(v: AgariModel) -> Option<(Seq<char>, int)> {
    if v.koutsu_z[v.bakaze] == 1 {
        Option::Some((spec_bakaze_name(v.bakaze), 1int))
    } else {
        Option::None
    }
}

fn is_bakaze(state: &AgariState) -> (r: Option<(String, i32)>)
    requires
        state.bakaze < 4,
    ensures
        opt_view(r) == spec_bakaze_yaku(state@),
{
    let b = state.bakaze as usize;
    if state.koutsu.z[b] == 1 {
        let name = if b == 0 {
            "場風 東".to_owned()
        } else if b == 1 {
            "場風 南".to_owned()
        } else if b == 2 {
            "場風 西".to_owned()
        } else {
            "場風 北".to_owned()
        };
        Some((name, 1))
    } else {
        None
    }
}

pub open spec fn spec_zikaze_yaku(v: AgariModel) -> Option<(Seq<char>, int)> {
    if v.koutsu_z[v.zikaze] == 1 {
        Option::Some((spec_zikaze_name(v.zikaze), 1int))
    } else {
        Option::None
    }
}

fn is_zikaze(state: &AgariState) -> (r: Option<(String, i32)>)
    requires
        state.zikaze < 4,
    ensures
        opt_view(r) == spec_zikaze_yaku(state@),
{
    let b = state.zikaze as usize;
    if state.koutsu.z[b] == 1 {
        let name = if b == 0 {
            "自風 東".to_owned()
        } else if b == 1 {
            "自風 南".to_owned()
        } else if b == 2 {
            "自風 西".to_owned()
        } else {
            "自風 北".to_owned()
        };
        Some((name, 1))
    } else {
        None
    }
}

pub open spec fn spec_haku(v: AgariModel) -> Option<(Seq<char>, int)> {
    if v.koutsu_z[4] == 1 {
        Option::Some(("役牌 白"@, 1int))
    } else {
        Option::None
    }
}

fn is_haku(state: &AgariState) -> (r: Option<(String, i32)>)
    ensures
        opt_view(r) == spec_haku(state@),
{
    if state.koutsu.z[4] == 1 {
        Some(("役牌 白".to_owned(), 1))
    } else {
        None
    }
}

pub open spec fn spec_hatsu(v: AgariModel) -> Option<(Seq<char>, int)> {
    if v.koutsu_z[5] == 1 {
        Option::Some(("役牌 發"@, 1int))
    } else {
        Option::None
    }
}

fn is_hatsu(state: &AgariState) -> (r: Option<(String, i32)>)
    ensures
        opt_view(r) == spec_hatsu(state@),
{
    if state.koutsu.z[5] == 1 {
        Some(("役牌 發".to_owned(), 1))
    } else {
        None
    }
}

pub open spec fn spec_chun(v: AgariModel) -> Option<(Seq<char>, int)> {
    if v.koutsu_z[6] == 1 {
        Option::Some(("役牌 中"@, 1int))
    } else {
        Option::None
    }
}

fn is_chun(state: &AgariState) -> (r: Option<(String, i32)>)
    ensures
        opt_view(r) == spec_chun(state@),
{
    if state.koutsu.z[6] == 1 {
        Some(("役牌 中".to_owned(), 1))
    } else {
        None
    }
}

/// How many identical run pairs the hand holds.
pub open spec fn spec_peikou_count(v: AgariModel) -> int {
    phalf(v.shuntsu_m, 9) + phalf(v.shuntsu_p, 9) + phalf(v.shuntsu_s, 9)
}

pub open spec fn spec_iipeikou(v: AgariModel) -> Option<(Seq<char>, int)> {
    if v.menzen && spec_peikou_count(v) == 1 {
        Option::Some(("一盃口"@, 1int))
    } else {
        Option::None
    }
}

fn is_iipeikou(state: &AgariState) -> (r: Option<(String, i32)>)
    requires
        wf_agari(state@),
    ensures
        opt_view(r) == spec_iipeikou(state@),
{
    if !state.menzen {
        return None;
    }
    let peikou = half_sum9(&state.shuntsu.m) + half_sum9(&state.shuntsu.p) + half_sum9(
        &state.shuntsu.s,
    );
    if peikou == 1 {
        Some(("一盃口".to_owned(), 1))
    } else {
        None
    }
}

pub open spec fn spec_sanshoku_doushun(v: AgariModel) -> Option<(Seq<char>, int)> {
    if exists|i: int| 0 <= i < 7 && #[trigger] v.shuntsu_m[i] > 0 && v.shuntsu_p[i] > 0
        && v.shuntsu_s[i] > 0 {
        Option::Some(
            ("三色同順"@, if v.menzen {
                2int
            } else {
                1int
            }),
        )
    } else {
        Option::None
    }
}

fn is_sanshoku_doushun(state: &AgariState) -> (r: Option<(String, i32)>)
    ensures
        opt_view(r) == spec_sanshoku_doushun(state@),
{
    let ghost v = state@;
    for i in 0..7usize
        invariant
            v == state@,
            forall|q: int|
                0 <= q < i ==> !(#[trigger] v.shuntsu_m[q] > 0 && v.shuntsu_p[q] > 0
                    && v.shuntsu_s[q] > 0),
    {
        proof {
            assert(v.shuntsu_m[i as int] == state.shuntsu.m@[i as int] as int);
            assert(v.shuntsu_p[i as int] == state.shuntsu.p@[i as int] as int);
            assert(v.shuntsu_s[i as int] == state.shuntsu.s@[i as int] as int);
        }
        if state.shuntsu.m[i] > 0 && state.shuntsu.p[i] > 0 && state.shuntsu.s[i] > 0 {
            return Some(("三色同順".to_owned(), if state.menzen {
                2
            } else {
                1
            }));
        }
    }
    None
}

pub open spec fn spec_ittsu(v: AgariModel) -> Option<(Seq<char>, int)> {
    if (v.shuntsu_m[0] > 0 && v.shuntsu_m[3] > 0 && v.shuntsu_m[6] > 0) || (v.shuntsu_p[0] > 0
        && v.shuntsu_p[3] > 0 && v.shuntsu_p[6] > 0) || (v.shuntsu_s[0] > 0 && v.shuntsu_s[3] > 0
        && v.shuntsu_s[6] > 0) {
        Option::Some(
            ("一気通貫"@, if v.menzen {
                2int
            } else {
                1int
            }),
        )
    } else {
        Option::None
    }
}

fn is_ittsu(state: &AgariState) -> (r: Option<(String, i32)>)
    ensures
        opt_view(r) == spec_ittsu(state@),
{
    let han: i32 = if state.menzen {
        2
    } else {
        1
    };
    if state.shuntsu.m[0] > 0 && state.shuntsu.m[3] > 0 && state.shuntsu.m[6] > 0 {
        return Some(("一気通貫".to_owned(), han));
    }
    if state.shuntsu.p[0] > 0 && state.shuntsu.p[3] > 0 && state.shuntsu.p[6] > 0 {
        return Some(("一気通貫".to_owned(), han));
    }
    if state.shuntsu.s[0] > 0 && state.shuntsu.s[3] > 0 && state.shuntsu.s[6] > 0 {
        return Some(("一気通貫".to_owned(), han));
    }
    None
}

pub open spec fn spec_chanta(v: AgariModel) -> Option<(Seq<char>, int)> {
    if v.n_yaochu >= 5 && v.n_zihai > 0 && v.n_shuntsu > 0 {
        Option::Some(
            ("混全帯么九"@, if v.menzen {
                2int
            } else {
                1int
            }),
        )
    } else {
        Option::None
    }
}

fn is_chanta(state: &AgariState) -> (r: Option<(String, i32)>)
    ensures
        opt_view(r) == spec_chanta(state@),
{
    if state.n_yaochu >= 5 && state.n_zihai > 0 && state.n_shuntsu > 0 {
        Some(("混全帯么九".to_owned(), if state.menzen {
            2
        } else {
            1
        }))
    } else {
        None
    }
}

pub open spec fn spec_chitoi(v: AgariModel) -> Option<(Seq<char>, int)> {
    if v.n_toitsu >= 7 {
        Option::Some(("七対子"@, 2int))
    } else {
        Option::None
    }
}

fn is_chitoi(state: &AgariState) -> (r: Option<(String, i32)>)
    ensures
        opt_view(r) == spec_chitoi(state@),
{
    if state.n_toitsu >= 7 {
        Some(("七対子".to_owned(), 2))
    } else {
        None
    }
}

pub open spec fn spec_toitoi(v: AgariModel) -> Option<(Seq<char>, int)> {
    if v.n_koutsu >= 4 {
        Option::Some(("対々和"@, 2int))
    } else {
        Option::None
    }
}

fn is_toitoi(state: &AgariState) -> (r: Option<(String, i32)>)
    ensures
        opt_view(r) == spec_toitoi(state@),
{
    if state.n_koutsu >= 4 {
        Some(("対々和".to_owned(), 2))
    } else {
        None
    }
}

pub open spec fn spec_sanankou(v: AgariModel) -> Option<(Seq<char>, int)> {
    if v.n_ankou == 3 {
        Option::Some(("三暗刻"@, 2int))
    } else {
        Option::None
    }
}

fn is_sanankou(state: &AgariState) -> (r: Option<(String, i32)>)
    ensures
        opt_view(r) == spec_sanankou(state@),
{
    if state.n_ankou == 3 {
        Some(("三暗刻".to_owned(), 2))
    } else {
        None
    }
}

pub open spec fn spec_sankantsu(v: AgariModel) -> Option<(Seq<char>, int)> {
    if v.n_kantsu == 3 {
        Option::Some(("三槓子"@, 2int))
    } else {
        Option::None
    }
}

fn is_sankantsu(state: &AgariState) -> (r: Option<(String, i32)>)
    ensures
        opt_view(r) == spec_sankantsu(state@),
{
    if state.n_kantsu == 3 {
        Some(("三槓子".to_owned(), 2))
    } else {
        None
    }
}

pub open spec fn spec_sanshoku_doukou(v: AgariModel) -> Option<(Seq<char>, int)> {
    if exists|i: int| 0 <= i < 9 && #[trigger] v.koutsu_m[i] > 0 && v.koutsu_p[i] > 0
        && v.koutsu_s[i] > 0 {
        Option::Some(("三色同刻"@, 2int))
    } else {
        Option::None
    }
}

fn is_sanshoku_doukou(state: &AgariState) -> (r: Option<(String, i32)>)
    ensures
        opt_view(r) == spec_sanshoku_doukou(state@),
{
    let ghost v = state@;
    for i in 0..9usize
        invariant
            v == state@,
            forall|q: int|
                0 <= q < i ==> !(#[trigger] v.koutsu_m[q] > 0 && v.koutsu_p[q] > 0 && v.koutsu_s[q]
                    > 0),
    {
        proof {
            assert(v.koutsu_m[i as int] == state.koutsu.m@[i as int] as int);
            assert(v.koutsu_p[i as int] == state.koutsu.p@[i as int] as int);
            assert(v.koutsu_s[i as int] == state.koutsu.s@[i as int] as int);
        }
        if state.koutsu.m[i] > 0 && state.koutsu.p[i] > 0 && state.koutsu.s[i] > 0 {
            return Some(("三色同刻".to_owned(), 2));
        }
    }
    None
}

pub open spec fn spec_honroutou(v: AgariModel) -> Option<(Seq<char>, int)> {
    if v.n_shuntsu == 0 && v.n_zihai > 0 && ((v.n_yaochu >= 4 && v.n_koutsu == 4) || (v.n_yaochu
        >= 7 && v.n_toitsu >= 7)) {
        Option::Some(("混老頭"@, 2int))
    } else {
        Option::None
    }
}

fn is_honroutou(state: &AgariState) -> (r: Option<(String, i32)>)
    ensures
        opt_view(r) == spec_honroutou(state@),
{
    if state.n_shuntsu == 0 && state.n_zihai > 0 {
        if (state.n_yaochu >= 4 && state.n_koutsu == 4) || (state.n_yaochu >= 7 && state.n_toitsu
            >= 7) {
            return Some(("混老頭".to_owned(), 2));
        }
    }
    None
}

pub open spec fn spec_shosangen(v: AgariModel) -> Option<(Seq<char>, int)> {
    if v.koutsu_z[4] + v.koutsu_z[5] + v.koutsu_z[6] == 2 && v.toitsu_z[4] + v.toitsu_z[5]
        + v.toitsu_z[6] == 1 {
        Option::Some(("小三元"@, 2int))
    } else {
        Option::None
    }
}

fn is_shosangen(state: &AgariState) -> (r: Option<(String, i32)>)
    requires
        wf_agari(state@),
    ensures
        opt_view(r) == spec_shosangen(state@),
{
    if state.koutsu.z[4] + state.koutsu.z[5] + state.koutsu.z[6] == 2 && state.toitsu.z[4]
        + state.toitsu.z[5] + state.toitsu.z[6] == 1 {
        Some(("小三元".to_owned(), 2))
    } else {
        None
    }
}

/// Tiles of one suit across runs, triplets and pairs, counted in groups.
pub open spec fn spec_suit_total(sh: Seq<int>, ko: Seq<int>, to: Seq<int>) -> int {
    psum(sh, 9) + psum(ko, 9) + psum(to, 9)
}

pub open spec fn spec_honitsu(v: AgariModel) -> Option<(Seq<char>, int)> {
    let han = if v.menzen {
        3int
    } else {
        2int
    };
    if v.n_zihai == 0 {
        Option::None
    } else if spec_suit_total(v.shuntsu_m, v.koutsu_m, v.toitsu_m) + v.n_zihai >= 5 {
        Option::Some(("混一色"@, han))
    } else if spec_suit_total(v.shuntsu_p, v.koutsu_p, v.toitsu_p) + v.n_zihai >= 5 {
        Option::Some(("混一色"@, han))
    } else if spec_suit_total(v.shuntsu_s, v.koutsu_s, v.toitsu_s) + v.n_zihai >= 5 {
        Option::Some(("混一色"@, han))
    } else {
        Option::None
    }
}

fn is_honitsu(state: &AgariState) -> (r: Option<(String, i32)>)
    requires
        wf_agari(state@),
    ensures
        opt_view(r) == spec_honitsu(state@),
{
    if state.n_zihai == 0 {
        return None;
    }
    let han: i32 = if state.menzen {
        3
    } else {
        2
    };
    let manzu = sum9(&state.shuntsu.m) + sum9(&state.koutsu.m) + sum9(&state.toitsu.m);
    if manzu + state.n_zihai >= 5 {
        return Some(("混一色".to_owned(), han));
    }
    let pinzu = sum9(&state.shuntsu.p) + sum9(&state.koutsu.p) + sum9(&state.toitsu.p);
    if pinzu + state.n_zihai >= 5 {
        return Some(("混一色".to_owned(), han));
    }
    let souzu = sum9(&state.shuntsu.s) + sum9(&state.koutsu.s) + sum9(&state.toitsu.s);
    if souzu + state.n_zihai >= 5 {
        return Some(("混一色".to_owned(), han));
    }
    None
}

pub open spec fn spec_junchan(v: AgariModel) -> Option<(Seq<char>, int)> {
    if v.n_yaochu >= 5 && v.n_shuntsu > 0 && v.n_zihai == 0 {
        Option::Some(
            ("混全帯么九"@, if v.menzen {
                2int
            } else {
                1int
            }),
        )
    } else {
        Option::None
    }
}

fn is_junchan(state: &AgariState) -> (r: Option<(String, i32)>)
    ensures
        opt_view(r) == spec_junchan(state@),
{
    if state.n_yaochu >= 5 && state.n_shuntsu > 0 && state.n_zihai == 0 {
        Some(("混全帯么九".to_owned(), if state.menzen {
            2
        } else {
            1
        }))
    } else {
        None
    }
}

pub open spec fn spec_ryampeikou(v: AgariModel) -> Option<(Seq<char>, int)> {
    if v.menzen && spec_peikou_count(v) == 2 {
        Option::Some(("二盃口"@, 3int))
    } else {
        Option::None
    }
}

fn is_ryampeikou(state: &AgariState) -> (r: Option<(String, i32)>)
    requires
        wf_agari(state@),
    ensures
        opt_view(r) == spec_ryampeikou(state@),
{
    if !state.menzen {
        return None;
    }
    let peikou = half_sum9(&state.shuntsu.m) + half_sum9(&state.shuntsu.p) + half_sum9(
        &state.shuntsu.s,
    );
    if peikou == 2 {
        Some(("二盃口".to_owned(), 3))
    } else {
        None
    }
}

pub open spec fn spec_chinitsu(v: AgariModel) -> Option<(Seq<char>, int)> {
    let han = if v.menzen {
        6int
    } else {
        5int
    };
    if v.n_zihai > 0 {
        Option::None
    } else if spec_suit_total(v.shuntsu_m, v.koutsu_m, v.toitsu_m) >= 5 {
        Option::Some(("清一色"@, han))
    } else if spec_suit_total(v.shuntsu_p, v.koutsu_p, v.toitsu_p) >= 5 {
        Option::Some(("清一色"@, han))
    } else if spec_suit_total(v.shuntsu_s, v.koutsu_s, v.toitsu_s) >= 5 {
        Option::Some(("清一色"@, han))
    } else {
        Option::None
    }
}

fn is_chinitsu(state: &AgariState) -> (r: Option<(String, i32)>)
    requires
        wf_agari(state@),
    ensures
        opt_view(r) == spec_chinitsu(state@),
{
    if state.n_zihai > 0 {
        return None;
    }
    let han: i32 = if state.menzen {
        6
    } else {
        5
    };
    let manzu = sum9(&state.shuntsu.m) + sum9(&state.koutsu.m) + sum9(&state.toitsu.m);
    if manzu >= 5 {
        return Some(("清一色".to_owned(), han));
    }
    let pinzu = sum9(&state.shuntsu.p) + sum9(&state.koutsu.p) + sum9(&state.toitsu.p);
    if pinzu >= 5 {
        return Some(("清一色".to_owned(), han));
    }
    let souzu = sum9(&state.shuntsu.s) + sum9(&state.koutsu.s) + sum9(&state.toitsu.s);
    if souzu >= 5 {
        return Some(("清一色".to_owned(), han));
    }
    None
}

pub open spec fn spec_kokushi(v: AgariModel) -> Option<(Seq<char>, int)> {
    if v.kokushi {
        if v.tanki {
            Option::Some(("国士無双１３面"@, -2int))
        } else {
            Option::Some(("国士無双"@, -1int))
        }
    } else {
        Option::None
    }
}

fn is_kokushi(state: &AgariState) -> (r: Option<(String, i32)>)
    ensures
        opt_view(r) == spec_kokushi(state@),
{
    if state.kokushi {
        if state.tanki {
            Some(("国士無双１３面".to_owned(), -2))
        } else {
            Some(("国士無双".to_owned(), -1))
        }
    } else {
        None
    }
}

pub open spec fn spec_suanko(v: AgariModel) -> Option<(Seq<char>, int)> {
    if v.n_ankou >= 4 {
        if v.tanki {
            Option::Some(("四暗刻単騎"@, -2int))
        } else {
            Option::Some(("四暗刻"@, -1int))
        }
    } else {
        Option::None
    }
}

fn is_suanko(state: &AgariState) -> (r: Option<(String, i32)>)
    ensures
        opt_view(r) == spec_suanko(state@),
{
    if state.n_ankou >= 4 {
        if state.tanki {
            Some(("四暗刻単騎".to_owned(), -2))
        } else {
            Some(("四暗刻".to_owned(), -1))
        }
    } else {
        None
    }
}

pub open spec fn spec_daisangen(v: AgariModel) -> Option<(Seq<char>, int)> {
    if v.koutsu_z[4] + v.koutsu_z[5] + v.koutsu_z[6] == 3 {
        Option::Some(("大三元"@, -1int))
    } else {
        Option::None
    }
}

fn is_daisangen(state: &AgariState) -> (r: Option<(String, i32)>)
    requires
        wf_agari(state@),
    ensures
        opt_view(r) == spec_daisangen(state@),
{
    if state.koutsu.z[4] + state.koutsu.z[5] + state.koutsu.z[6] == 3 {
        Some(("大三元".to_owned(), -1))
    } else {
        None
    }
}

pub open spec fn spec_sushiho(v: AgariModel) -> Option<(Seq<char>, int)> {
    if v.koutsu_z[0] + v.koutsu_z[1] + v.koutsu_z[2] + v.koutsu_z[3] == 4 {
        Option::Some(("大四喜"@, -2int))
    } else if v.koutsu_z[0] + v.koutsu_z[1] + v.koutsu_z[2] + v.koutsu_z[3] + v.toitsu_z[0]
        + v.toitsu_z[1] + v.toitsu_z[2] + v.toitsu_z[3] >= 4 {
        Option::Some(("小四喜"@, -1int))
    } else {
        Option::None
    }
}

fn is_sushiho(state: &AgariState) -> (r: Option<(String, i32)>)
    requires
        wf_agari(state@),
    ensures
        opt_view(r) == spec_sushiho(state@),
{
    if state.koutsu.z[0] + state.koutsu.z[1] + state.koutsu.z[2] + state.koutsu.z[3] == 4 {
        return Some(("大四喜".to_owned(), -2));
    }
    if state.koutsu.z[0] + state.koutsu.z[1] + state.koutsu.z[2] + state.koutsu.z[3]
        + state.toitsu.z[0] + state.toitsu.z[1] + state.toitsu.z[2] + state.toitsu.z[3] >= 4 {
        return Some(("小四喜".to_owned(), -1));
    }
    None
}

pub open spec fn spec_tsuiso(v: AgariModel) -> Option<(Seq<char>, int)> {
    if psum(v.toitsu_z, 7) >= 7 {
        Option::Some(("字一色"@, -1int))
    } else if psum(v.koutsu_z, 7) + psum(v.toitsu_z, 7) >= 5 {
        Option::Some(("字一色"@, -1int))
    } else {
        Option::None
    }
}

fn is_tsuiso(state: &AgariState) -> (r: Option<(String, i32)>)
    requires
        wf_agari(state@),
    ensures
        opt_view(r) == spec_tsuiso(state@),
{
    let ghost v = state@;
    let tz = &state.toitsu.z;
    let kz = &state.koutsu.z;
    proof {
        assert(forall|i: int| 0 <= i < 7 ==> (#[trigger] tz@[i]) as int == v.toitsu_z[i]);
        assert(forall|i: int| 0 <= i < 7 ==> (#[trigger] kz@[i]) as int == v.koutsu_z[i]);
    }
    let z_toitsu = tz[0] + tz[1] + tz[2] + tz[3] + tz[4] + tz[5] + tz[6];
    proof {
        reveal_with_fuel(psum, 8);
        assert(z_toitsu as int == psum(v.toitsu_z, 7));
    }
    if z_toitsu >= 7 {
        return Some(("字一色".to_owned(), -1));
    }
    let z_koutsu = kz[0] + kz[1] + kz[2] + kz[3] + kz[4] + kz[5] + kz[6];
    proof {
        reveal_with_fuel(psum, 8);
        assert(z_koutsu as int == psum(v.koutsu_z, 7));
    }
    if z_koutsu + z_toitsu >= 5 {
        return Some(("字一色".to_owned(), -1));
    }
    None
}

pub open spec fn spec_ryuiso(v: AgariModel) -> Option<(Seq<char>, int)> {
    let n_atama = v.toitsu_s[1] + v.toitsu_s[2] + v.toitsu_s[3] + v.toitsu_s[5] + v.toitsu_s[7]
        + v.toitsu_z[5];
    let n_shuntsu = v.shuntsu_s[1];
    let n_koutsu = v.koutsu_s[1] + v.koutsu_s[2] + v.koutsu_s[3] + v.koutsu_s[5] + v.koutsu_s[7]
        + v.koutsu_z[5];
    if n_atama > 0 && n_shuntsu + n_koutsu >= 4 {
        Option::Some(("緑一色"@, -1int))
    } else {
        Option::None
    }
}

fn is_ryuiso(state: &AgariState) -> (r: Option<(String, i32)>)
    requires
        wf_agari(state@),
    ensures
        opt_view(r) == spec_ryuiso(state@),
{
    proof {
        assert(forall|i: int| 0 <= i < 9 ==> (#[trigger] state.toitsu.s@[i]) as int == state@.toitsu_s[i]);
        assert(forall|i: int| 0 <= i < 9 ==> (#[trigger] state.koutsu.s@[i]) as int == state@.koutsu_s[i]);
        assert(forall|i: int| 0 <= i < 7 ==> (#[trigger] state.toitsu.z@[i]) as int == state@.toitsu_z[i]);
        assert(forall|i: int| 0 <= i < 7 ==> (#[trigger] state.koutsu.z@[i]) as int == state@.koutsu_z[i]);
        assert(forall|i: int| 0 <= i < 9 ==> (#[trigger] state.shuntsu.s@[i]) as int == state@.shuntsu_s[i]);
    }
    let n_atama = state.toitsu.s[1] + state.toitsu.s[2] + state.toitsu.s[3] + state.toitsu.s[5]
        + state.toitsu.s[7] + state.toitsu.z[5];
    let n_shuntsu = state.shuntsu.s[1];
    let n_koutsu = state.koutsu.s[1] + state.koutsu.s[2] + state.koutsu.s[3] + state.koutsu.s[5]
        + state.koutsu.s[7] + state.koutsu.z[5];
    if n_atama > 0 && n_shuntsu + n_koutsu >= 4 {
        Some(("緑一色".to_owned(), -1))
    } else {
        None
    }
}

pub open spec fn spec_chinroto(v: AgariModel) -> Option<(Seq<char>, int)> {
    let n_koutsu = v.koutsu_m[0] + v.koutsu_m[8] + v.koutsu_p[0] + v.koutsu_p[8] + v.koutsu_s[0]
        + v.koutsu_s[8];
    let n_atama = v.toitsu_m[0] + v.toitsu_m[8] + v.toitsu_p[0] + v.toitsu_p[8] + v.toitsu_s[0]
        + v.toitsu_s[8];
    if n_atama > 0 && n_koutsu >= 4 {
        Option::Some(("清老頭"@, -1int))
    } else {
        Option::None
    }
}

fn is_chinroto(state: &AgariState) -> (r: Option<(String, i32)>)
    requires
        wf_agari(state@),
    ensures
        opt_view(r) == spec_chinroto(state@),
{
    proof {
        assert(forall|i: int| 0 <= i < 9 ==> (#[trigger] state.koutsu.m@[i]) as int == state@.koutsu_m[i]);
        assert(forall|i: int| 0 <= i < 9 ==> (#[trigger] state.koutsu.p@[i]) as int == state@.koutsu_p[i]);
        assert(forall|i: int| 0 <= i < 9 ==> (#[trigger] state.koutsu.s@[i]) as int == state@.koutsu_s[i]);
        assert(forall|i: int| 0 <= i < 9 ==> (#[trigger] state.toitsu.m@[i]) as int == state@.toitsu_m[i]);
        assert(forall|i: int| 0 <= i < 9 ==> (#[trigger] state.toitsu.p@[i]) as int == state@.toitsu_p[i]);
        assert(forall|i: int| 0 <= i < 9 ==> (#[trigger] state.toitsu.s@[i]) as int == state@.toitsu_s[i]);
    }
    let n_koutsu = state.koutsu.m[0] + state.koutsu.m[8] + state.koutsu.p[0] + state.koutsu.p[8]
        + state.koutsu.s[0] + state.koutsu.s[8];
    let n_atama = state.toitsu.m[0] + state.toitsu.m[8] + state.toitsu.p[0] + state.toitsu.p[8]
        + state.toitsu.s[0] + state.toitsu.s[8];
    if n_atama > 0 && n_koutsu >= 4 {
        Some(("清老頭".to_owned(), -1))
    } else {
        None
    }
}

pub open spec fn spec_sukantsu(v: AgariModel) -> Option<(Seq<char>, int)> {
    if v.n_kantsu == 4 {
        Option::Some(("四槓子"@, -1int))
    } else {
        Option::None
    }
}

fn is_sukantsu(state: &AgariState) -> (r: Option<(String, i32)>)
    ensures
        opt_view(r) == spec_sukantsu(state@),
{
    if state.n_kantsu == 4 {
        Some(("四槓子".to_owned(), -1))
    } else {
        None
    }
}

pub open spec fn spec_churen(v: AgariModel) -> Option<(Seq<char>, int)> {
    if v.churen {
        Option::Some(("九蓮宝燈"@, -1int))
    } else {
        Option::None
    }
}

fn is_churen(state: &AgariState) -> (r: Option<(String, i32)>)
    ensures
        opt_view(r) == spec_churen(state@),
{
    if state.churen {
        Some(("九蓮宝燈".to_owned(), -1))
    } else {
        None
    }
}

/// The first quarter of the battery, in its fixed order.
pub open spec fn spec_yaku_list_a(v: AgariModel) -> Seq<(Seq<char>, int)> {
    Seq::empty() + opt_seq(spec_menzen_tsumo(v)) + opt_seq(spec_tanyao(v)) + opt_seq(spec_pinfu(v))
        + opt_seq(spec_bakaze_yaku(v)) + opt_seq(spec_zikaze_yaku(v)) + opt_seq(spec_haku(v))
        + opt_seq(spec_hatsu(v)) + opt_seq(spec_chun(v))
}

/// The battery through the run-based categories.
pub open spec fn spec_yaku_list_b(v: AgariModel) -> Seq<(Seq<char>, int)> {
    spec_yaku_list_a(v) + opt_seq(spec_iipeikou(v)) + opt_seq(spec_sanshoku_doushun(v)) + opt_seq(
        spec_ittsu(v),
    ) + opt_seq(spec_chanta(v)) + opt_seq(spec_chitoi(v)) + opt_seq(spec_toitoi(v)) + opt_seq(
        spec_sanankou(v),
    ) + opt_seq(spec_sankantsu(v))
}

/// The battery through the one-suit categories.
pub open spec fn spec_yaku_list_c(v: AgariModel) -> Seq<(Seq<char>, int)> {
    spec_yaku_list_b(v) + opt_seq(spec_sanshoku_doukou(v)) + opt_seq(spec_honroutou(v)) + opt_seq(
        spec_shosangen(v),
    ) + opt_seq(spec_honitsu(v)) + opt_seq(spec_junchan(v)) + opt_seq(spec_ryampeikou(v))
        + opt_seq(spec_chinitsu(v)) + opt_seq(spec_kokushi(v))
}

/// The full battery of structural categories, in its fixed order.
pub open spec fn spec_yaku_list(v: AgariModel) -> Seq<(Seq<char>, int)> {
    spec_yaku_list_c(v) + opt_seq(spec_suanko(v)) + opt_seq(spec_daisangen(v)) + opt_seq(
        spec_sushiho(v),
    ) + opt_seq(spec_tsuiso(v)) + opt_seq(spec_ryuiso(v)) + opt_seq(spec_chinroto(v)) + opt_seq(
        spec_sukantsu(v),
    ) + opt_seq(spec_churen(v))
}

/// Entries of a category list all carry multipliers between -2 and 6.
pub open spec fn bounded_yaku(s: Seq<(Seq<char>, int)>) -> bool {
    forall|i: int| 0 <= i < s.len() ==> -2 <= (#[trigger] s[i]).1 <= 6
}

proof fn lemma_bounds_step(s: Seq<(Seq<char>, int)>, o: Option<(Seq<char>, int)>)
    requires
        bounded_yaku(s),
        o matches Some(p) ==> -2 <= p.1 <= 6,
    ensures
        bounded_yaku(s + opt_seq(o)),
        (s + opt_seq(o)).len() <= s.len() + 1,
{
    assert forall|i: int| 0 <= i < (s + opt_seq(o)).len() implies -2 <= (#[trigger] (s + opt_seq(
        o,
    ))[i]).1 <= 6 by {
        if i < s.len() {
            assert((s + opt_seq(o))[i] == s[i]);
        } else {
            assert((s + opt_seq(o))[i] == opt_seq(o)[i - s.len()]);
        }
    }
}

#[verifier::rlimit(60)]
#[verifier::spinoff_prover]
proof fn lemma_yaku_stage_a_bounds(v: AgariModel)
    ensures
        spec_yaku_list_a(v).len() <= 8,
        bounded_yaku(spec_yaku_list_a(v)),
{
    let s0 = Seq::<(Seq<char>, int)>::empty();
    let s1 = s0 + opt_seq(spec_menzen_tsumo(v));
    let s2 = s1 + opt_seq(spec_tanyao(v));
    let s3 = s2 + opt_seq(spec_pinfu(v));
    let s4 = s3 + opt_seq(spec_bakaze_yaku(v));
    let s5 = s4 + opt_seq(spec_zikaze_yaku(v));
    let s6 = s5 + opt_seq(spec_haku(v));
    let s7 = s6 + opt_seq(spec_hatsu(v));
    lemma_bounds_step(s0, spec_menzen_tsumo(v));
    lemma_bounds_step(s1, spec_tanyao(v));
    lemma_bounds_step(s2, spec_pinfu(v));
    lemma_bounds_step(s3, spec_bakaze_yaku(v));
    lemma_bounds_step(s4, spec_zikaze_yaku(v));
    lemma_bounds_step(s5, spec_haku(v));
    lemma_bounds_step(s6, spec_hatsu(v));
    lemma_bounds_step(s7, spec_chun(v));
}

#[verifier::rlimit(60)]
#[verifier::spinoff_prover]
proof fn lemma_yaku_stage_b_bounds(v: AgariModel)
    ensures
        spec_yaku_list_b(v).len() <= 16,
        bounded_yaku(spec_yaku_list_b(v)),
{
    lemma_yaku_stage_a_bounds(v);
    let s0 = spec_yaku_list_a(v);
    let s1 = s0 + opt_seq(spec_iipeikou(v));
    let s2 = s1 + opt_seq(spec_sanshoku_doushun(v));
    let s3 = s2 + opt_seq(spec_ittsu(v));
    let s4 = s3 + opt_seq(spec_chanta(v));
    let s5 = s4 + opt_seq(spec_chitoi(v));
    let s6 = s5 + opt_seq(spec_toitoi(v));
    let s7 = s6 + opt_seq(spec_sanankou(v));
    lemma_bounds_step(s0, spec_iipeikou(v));
    lemma_bounds_step(s1, spec_sanshoku_doushun(v));
    lemma_bounds_step(s2, spec_ittsu(v));
    lemma_bounds_step(s3, spec_chanta(v));
    lemma_bounds_step(s4, spec_chitoi(v));
    lemma_bounds_step(s5, spec_toitoi(v));
    lemma_bounds_step(s6, spec_sanankou(v));
    lemma_bounds_step(s7, spec_sankantsu(v));
}

#[verifier::rlimit(60)]
#[verifier::spinoff_prover]
proof fn lemma_yaku_stage_c_bounds(v: AgariModel)
    ensures
        spec_yaku_list_c(v).len() <= 24,
        bounded_yaku(spec_yaku_list_c(v)),
{
    lemma_yaku_stage_b_bounds(v);
    let s0 = spec_yaku_list_b(v);
    let s1 = s0 + opt_seq(spec_sanshoku_doukou(v));
    let s2 = s1 + opt_seq(spec_honroutou(v));
    let s3 = s2 + opt_seq(spec_shosangen(v));
    let s4 = s3 + opt_seq(spec_honitsu(v));
    let s5 = s4 + opt_seq(spec_junchan(v));
    let s6 = s5 + opt_seq(spec_ryampeikou(v));
    let s7 = s6 + opt_seq(spec_chinitsu(v));
    lemma_bounds_step(s0, spec_sanshoku_doukou(v));
    lemma_bounds_step(s1, spec_honroutou(v));
    lemma_bounds_step(s2, spec_shosangen(v));
    lemma_bounds_step(s3, spec_honitsu(v));
    lemma_bounds_step(s4, spec_junchan(v));
    lemma_bounds_step(s5, spec_ryampeikou(v));
    lemma_bounds_step(s6, spec_chinitsu(v));
    lemma_bounds_step(s7, spec_kokushi(v));
}

/// Every structural category contributes between -2 and 6 to the total, and
/// the battery never yields more than 32 entries.
#[verifier::rlimit(60)]
#[verifier::spinoff_prover]
pub proof fn lemma_yaku_list_bounds(v: AgariModel)
    ensures
        spec_yaku_list(v).len() <= 32,
        bounded_yaku(spec_yaku_list(v)),
{
    lemma_yaku_stage_c_bounds(v);
    let s0 = spec_yaku_list_c(v);
    let s1 = s0 + opt_seq(spec_suanko(v));
    let s2 = s1 + opt_seq(spec_daisangen(v));
    let s3 = s2 + opt_seq(spec_sushiho(v));
    let s4 = s3 + opt_seq(spec_tsuiso(v));
    let s5 = s4 + opt_seq(spec_ryuiso(v));
    let s6 = s5 + opt_seq(spec_chinroto(v));
    let s7 = s6 + opt_seq(spec_sukantsu(v));
    lemma_bounds_step(s0, spec_suanko(v));
    lemma_bounds_step(s1, spec_daisangen(v));
    lemma_bounds_step(s2, spec_sushiho(v));
    lemma_bounds_step(s3, spec_tsuiso(v));
    lemma_bounds_step(s4, spec_ryuiso(v));
    lemma_bounds_step(s5, spec_chinroto(v));
    lemma_bounds_step(s6, spec_sukantsu(v));
    lemma_bounds_step(s7, spec_churen(v));
}

impl AgariState {
    /// Runs the fixed, order-independent battery of structural predicates
    /// and collects every category that applies with its multiplier;
    /// negative multipliers mark the maximal-tier categories.
    #[verifier::rlimit(100)]
    #[verifier::spinoff_prover]
    pub fn get_yaku_list(&self) -> (r: Vec<(String, i32)>)
        requires
            wf_agari(self@),
        ensures
            yaku_view(r@) == spec_yaku_list(self@),
    {
        let mut out: Vec<(String, i32)> = Vec::new();
        push_opt(&mut out, is_menzen_tsumo(self));
        push_opt(&mut out, is_tanyao(self));
        push_opt(&mut out, is_pinfu(self));
        push_opt(&mut out, is_bakaze(self));
        push_opt(&mut out, is_zikaze(self));
        push_opt(&mut out, is_haku(self));
        push_opt(&mut out, is_hatsu(self));
        push_opt(&mut out, is_chun(self));
        proof {
            assert(yaku_view(out@) == spec_yaku_list_a(self@));
        }
        push_opt(&mut out, is_iipeikou(self));
        push_opt(&mut out, is_sanshoku_doushun(self));
        push_opt(&mut out, is_ittsu(self));
        push_opt(&mut out, is_chanta(self));
        push_opt(&mut out, is_chitoi(self));
        push_opt(&mut out, is_toitoi(self));
        push_opt(&mut out, is_sanankou(self));
        push_opt(&mut out, is_sankantsu(self));
        proof {
            assert(yaku_view(out@) == spec_yaku_list_b(self@));
        }
        push_opt(&mut out, is_sanshoku_doukou(self));
        push_opt(&mut out, is_honroutou(self));
        push_opt(&mut out, is_shosangen(self));
        push_opt(&mut out, is_honitsu(self));
        push_opt(&mut out, is_junchan(self));
        push_opt(&mut out, is_ryampeikou(self));
        push_opt(&mut out, is_chinitsu(self));
        push_opt(&mut out, is_kokushi(self));
        proof {
            assert(yaku_view(out@) == spec_yaku_list_c(self@));
        }
        push_opt(&mut out, is_suanko(self));
        push_opt(&mut out, is_daisangen(self));
        push_opt(&mut out, is_sushiho(self));
        push_opt(&mut out, is_tsuiso(self));
        push_opt(&mut out, is_ryuiso(self));
        push_opt(&mut out, is_chinroto(self));
        push_opt(&mut out, is_sukantsu(self));
        push_opt(&mut out, is_churen(self));
        out
    }
}

/// The all-zero count vectors of the group summaries.
pub open spec fn zero9() -> Seq<int> {
    Seq::new(9, |i: int| 0int)
}

pub open spec fn zero7() -> Seq<int> {
    Seq::new(7, |i: int| 0int)
}

/// The summary before any meld is accounted: 20 base fu, all counts zero,
/// concealed and self-drawn until told otherwise.
pub open spec fn spec_agari_init(bakaze: int, zikaze: int, menzen: bool) -> AgariModel {
    AgariModel {
        fu: 20,
        menzen,
        tsumo: true,
        shuntsu_m: zero9(),
        shuntsu_p: zero9(),
        shuntsu_s: zero9(),
        koutsu_m: zero9(),
        koutsu_p: zero9(),
        koutsu_s: zero9(),
        koutsu_z: zero7(),
        toitsu_m: zero9(),
        toitsu_p: zero9(),
        toitsu_s: zero9(),
        toitsu_z: zero7(),
        n_toitsu: 0,
        n_shuntsu: 0,
        n_koutsu: 0,
        n_ankou: 0,
        n_kantsu: 0,
        n_yaochu: 0,
        n_zihai: 0,
        tanki: false,
        pinfu: false,
        kokushi: false,
        churen: false,
        bakaze,
        zikaze,
    }
}

/// Accounts one triplet-shaped group (triplet or quad, concealed or open):
/// the base fu doubles on a terminal or honor kind, and the kind is recorded
/// in the triplet table.
pub open spec fn spec_koutsu_like(
    v: AgariModel,
    num: int,
    base_fu: int,
    add_koutsu: bool,
    add_ankou: bool,
    add_kantsu: bool,
) -> AgariModel {
    let v1 = AgariModel {
        n_koutsu: v.n_koutsu + if add_koutsu {
            1int
        } else {
            0int
        },
        n_ankou: v.n_ankou + if add_ankou {
            1int
        } else {
            0int
        },
        n_kantsu: v.n_kantsu + if add_kantsu {
            1int
        } else {
            0int
        },
        ..v
    };
    if num >= 27 {
        AgariModel {
            fu: v1.fu + base_fu * 2,
            n_zihai: v1.n_zihai + 1,
            n_yaochu: v1.n_yaochu + 1,
            koutsu_z: v1.koutsu_z.update(num - 27, v1.koutsu_z[num - 27] + 1),
            ..v1
        }
    } else {
        let terminal = num % 9 == 0 || num % 9 == 8;
        let fu = if terminal {
            v1.fu + base_fu * 2
        } else {
            v1.fu + base_fu
        };
        let yaochu = if terminal {
            v1.n_yaochu + 1
        } else {
            v1.n_yaochu
        };
        if num >= 18 {
            AgariModel {
                fu,
                n_yaochu: yaochu,
                koutsu_s: v1.koutsu_s.update(num % 9, v1.koutsu_s[num % 9] + 1),
                ..v1
            }
        } else if num >= 9 {
            AgariModel {
                fu,
                n_yaochu: yaochu,
                koutsu_p: v1.koutsu_p.update(num % 9, v1.koutsu_p[num % 9] + 1),
                ..v1
            }
        } else {
            AgariModel {
                fu,
                n_yaochu: yaochu,
                koutsu_m: v1.koutsu_m.update(num % 9, v1.koutsu_m[num % 9] + 1),
                ..v1
            }
        }
    }
}

/// Accounts one run: wait fu (for concealed runs), the run table, and a
/// terminal-reaching run counts toward the terminal/honor tally.
pub open spec fn spec_add_shuntsu(v: AgariModel, m: Mentsu, with_wait_fu: bool) -> AgariModel {
    let num = m.pai_list@[0].pai_num as int;
    let wait_fu: int = (if with_wait_fu && spec_is_kanchan(m) {
        2int
    } else {
        0int
    }) + (if with_wait_fu && spec_is_penchan(m) {
        2int
    } else {
        0int
    });
    let v1 = AgariModel { fu: v.fu + wait_fu, n_shuntsu: v.n_shuntsu + 1, ..v };
    let edge = num % 9 == 0 || num % 9 == 6;
    let yaochu = if edge {
        v1.n_yaochu + 1
    } else {
        v1.n_yaochu
    };
    if num >= 18 {
        AgariModel {
            n_yaochu: yaochu,
            shuntsu_s: v1.shuntsu_s.update(num % 9, v1.shuntsu_s[num % 9] + 1),
            ..v1
        }
    } else if num >= 9 {
        AgariModel {
            n_yaochu: yaochu,
            shuntsu_p: v1.shuntsu_p.update(num % 9, v1.shuntsu_p[num % 9] + 1),
            ..v1
        }
    } else {
        AgariModel {
            n_yaochu: yaochu,
            shuntsu_m: v1.shuntsu_m.update(num % 9, v1.shuntsu_m[num % 9] + 1),
            ..v1
        }
    }
}

/// Accounts the pair: single-wait fu, value-tile fu (round wind, seat wind
/// and dragons each add), and the pair table. Note that the first wind's
/// kind number is a multiple of nine, so a pair of it raises the
/// terminal/honor tally twice: once as an honor and once through the
/// suit-edge test.
pub open spec fn spec_add_atama(v: AgariModel, m: Mentsu) -> AgariModel {
    let num = m.pai_list@[0].pai_num as int;
    let tanki = has_agari_flag(m);
    let v1 = AgariModel {
        n_toitsu: v.n_toitsu + 1,
        tanki: v.tanki || tanki,
        fu: v.fu + if tanki {
            2int
        } else {
            0int
        },
        ..v
    };
    let v2 = if num >= 27 {
        let wind_fu: int = (if num - 27 == v1.bakaze {
            2int
        } else {
            0int
        }) + (if num - 27 == v1.zikaze {
            2int
        } else {
            0int
        }) + (if num >= 31 {
            2int
        } else {
            0int
        });
        AgariModel {
            fu: v1.fu + wind_fu,
            n_zihai: v1.n_zihai + 1,
            n_yaochu: v1.n_yaochu + 1,
            toitsu_z: v1.toitsu_z.update(num - 27, v1.toitsu_z[num - 27] + 1),
            ..v1
        }
    } else if num >= 18 {
        AgariModel { toitsu_s: v1.toitsu_s.update(num % 9, v1.toitsu_s[num % 9] + 1), ..v1 }
    } else if num >= 9 {
        AgariModel { toitsu_p: v1.toitsu_p.update(num % 9, v1.toitsu_p[num % 9] + 1), ..v1 }
    } else {
        AgariModel { toitsu_m: v1.toitsu_m.update(num % 9, v1.toitsu_m[num % 9] + 1), ..v1 }
    };
    if num % 9 == 0 || num % 9 == 8 {
        AgariModel { n_yaochu: v2.n_yaochu + 1, ..v2 }
    } else {
        v2
    }
}

/// Accounts one concealed group of the decomposition.
pub open spec fn spec_add_mentsu(v: AgariModel, m: Mentsu) -> AgariModel {
    match m.mentsu_type {
        MentsuType::TYPE_ATAMA => spec_add_atama(v, m),
        MentsuType::TYPE_KOUTSU => spec_koutsu_like(
            v,
            m.pai_list@[0].pai_num as int,
            4,
            true,
            true,
            false,
        ),
        MentsuType::TYPE_SHUNTSU => spec_add_shuntsu(v, m, true),
        _ => v,
    }
}

/// Accounts one declared open group.
pub open spec fn spec_add_fulo(v: AgariModel, m: Mentsu) -> AgariModel {
    match m.mentsu_type {
        MentsuType::TYPE_ANKAN => spec_koutsu_like(
            v,
            m.pai_list@[0].pai_num as int,
            16,
            false,
            true,
            true,
        ),
        MentsuType::TYPE_MINKAN => spec_koutsu_like(
            v,
            m.pai_list@[0].pai_num as int,
            8,
            false,
            false,
            true,
        ),
        MentsuType::TYPE_KOUTSU => spec_koutsu_like(
            v,
            m.pai_list@[0].pai_num as int,
            2,
            true,
            false,
            false,
        ),
        MentsuType::TYPE_SHUNTSU => spec_add_shuntsu(v, m, false),
        _ => v,
    }
}

/// The summary after the first `n` concealed groups.
pub open spec fn spec_fold_mentsu(v: AgariModel, ms: Seq<Mentsu>, n: int) -> AgariModel
    decreases n,
{
    if n <= 0 {
        v
    } else {
        spec_add_mentsu(spec_fold_mentsu(v, ms, n - 1), ms[n - 1])
    }
}

/// The summary after the first `n` open groups.
pub open spec fn spec_fold_fulo(v: AgariModel, ms: Seq<Mentsu>, n: int) -> AgariModel
    decreases n,
{
    if n <= 0 {
        v
    } else {
        spec_add_fulo(spec_fold_fulo(v, ms, n - 1), ms[n - 1])
    }
}

/// The next multiple of ten at or above `x`.
pub open spec fn round_up10(x: int) -> int {
    ((x + 9) / 10) * 10
}

/// Rounding up to the nearest ten lands on a multiple of ten no more than
/// nine above the raw value.
pub proof fn lemma_fu_round_up(raw: int)
    requires
        raw >= 0,
    ensures
        round_up10(raw) % 10 == 0,
        0 <= round_up10(raw) - raw < 10,
{
}

/// Closes the summary: the seven-pairs shape short-circuits fu to a fixed
/// 25; otherwise the no-points shape is detected, the self-draw or
/// concealed-win bonus lands, and the fu rounds up to the nearest ten.
pub open spec fn spec_finalize(v: AgariModel) -> AgariModel {
    if v.n_toitsu >= 7 {
        AgariModel { fu: 25, ..v }
    } else {
        let pinfu = v.menzen && v.fu == 20;
        let fu2 = if v.tsumo {
            if !pinfu {
                v.fu + 2
            } else {
                v.fu
            }
        } else if v.menzen {
            v.fu + 10
        } else if v.fu == 20 {
            30int
        } else {
            v.fu
        };
        AgariModel { pinfu, fu: round_up10(fu2), ..v }
    }
}

/// The classified summary of one decomposition plus its open melds.
pub open spec fn spec_build_agari(
    bakaze: int,
    zikaze: int,
    mentsu: Seq<Mentsu>,
    fulo: Seq<Mentsu>,
) -> AgariModel {
    let v0 = spec_agari_init(bakaze, zikaze, fulo.len() == 0);
    let v1 = spec_fold_mentsu(v0, mentsu, mentsu.len() as int);
    spec_finalize(spec_fold_fulo(v1, fulo, fulo.len() as int))
}

/// All counters of the summary are at most `b`, and the fu accumulator at
/// most `20 + 40 * b`.
pub open spec fn agari_ok(v: AgariModel, b: int) -> bool {
    &&& v.shuntsu_m.len() == 9
    &&& v.shuntsu_p.len() == 9
    &&& v.shuntsu_s.len() == 9
    &&& v.koutsu_m.len() == 9
    &&& v.koutsu_p.len() == 9
    &&& v.koutsu_s.len() == 9
    &&& v.koutsu_z.len() == 7
    &&& v.toitsu_m.len() == 9
    &&& v.toitsu_p.len() == 9
    &&& v.toitsu_s.len() == 9
    &&& v.toitsu_z.len() == 7
    &&& (forall|i: int| 0 <= i < 9 ==> 0 <= #[trigger] v.shuntsu_m[i] <= b)
    &&& (forall|i: int| 0 <= i < 9 ==> 0 <= #[trigger] v.shuntsu_p[i] <= b)
    &&& (forall|i: int| 0 <= i < 9 ==> 0 <= #[trigger] v.shuntsu_s[i] <= b)
    &&& (forall|i: int| 0 <= i < 9 ==> 0 <= #[trigger] v.koutsu_m[i] <= b)
    &&& (forall|i: int| 0 <= i < 9 ==> 0 <= #[trigger] v.koutsu_p[i] <= b)
    &&& (forall|i: int| 0 <= i < 9 ==> 0 <= #[trigger] v.koutsu_s[i] <= b)
    &&& (forall|i: int| 0 <= i < 7 ==> 0 <= #[trigger] v.koutsu_z[i] <= b)
    &&& (forall|i: int| 0 <= i < 9 ==> 0 <= #[trigger] v.toitsu_m[i] <= b)
    &&& (forall|i: int| 0 <= i < 9 ==> 0 <= #[trigger] v.toitsu_p[i] <= b)
    &&& (forall|i: int| 0 <= i < 9 ==> 0 <= #[trigger] v.toitsu_s[i] <= b)
    &&& (forall|i: int| 0 <= i < 7 ==> 0 <= #[trigger] v.toitsu_z[i] <= b)
    &&& 0 <= v.n_toitsu <= b
    &&& 0 <= v.n_shuntsu <= b
    &&& 0 <= v.n_koutsu <= b
    &&& 0 <= v.n_ankou <= b
    &&& 0 <= v.n_kantsu <= b
    &&& 0 <= v.n_yaochu <= 2 * b
    &&& 0 <= v.n_zihai <= b
    &&& 20 <= v.fu <= 20 + 40 * b
}

proof fn lemma_koutsu_like_ok(v: AgariModel, num: int, base: int, nk: bool, ank: bool, kan: bool, b: int)
    requires
        agari_ok(v, b),
        0 <= num < 34,
        0 <= base <= 16,
        0 <= b,
    ensures
        agari_ok(spec_koutsu_like(v, num, base, nk, ank, kan), b + 1),
{
}

proof fn lemma_shuntsu_ok(v: AgariModel, m: Mentsu, wf: bool, b: int)
    requires
        agari_ok(v, b),
        m.pai_list@[0].pai_num < 34,
        0 <= b,
    ensures
        agari_ok(spec_add_shuntsu(v, m, wf), b + 1),
{
}

proof fn lemma_atama_ok(v: AgariModel, m: Mentsu, b: int)
    requires
        agari_ok(v, b),
        m.pai_list@[0].pai_num < 34,
        0 <= b,
    ensures
        agari_ok(spec_add_atama(v, m), b + 1),
{
}

proof fn lemma_add_mentsu_ok(v: AgariModel, m: Mentsu, b: int)
    requires
        agari_ok(v, b),
        m.pai_list@[0].pai_num < 34,
        0 <= b,
    ensures
        agari_ok(spec_add_mentsu(v, m), b + 1),
        agari_ok(spec_add_fulo(v, m), b + 1),
{
    let num = m.pai_list@[0].pai_num as int;
    lemma_koutsu_like_ok(v, num, 4, true, true, false, b);
    lemma_koutsu_like_ok(v, num, 16, false, true, true, b);
    lemma_koutsu_like_ok(v, num, 8, false, false, true, b);
    lemma_koutsu_like_ok(v, num, 2, true, false, false, b);
    lemma_shuntsu_ok(v, m, true, b);
    lemma_shuntsu_ok(v, m, false, b);
    lemma_atama_ok(v, m, b);
}

/// One tile of `num` kind and copy id, used to build meld-table updates.
#[verifier::rlimit(100)]
#[verifier::spinoff_prover]
fn account_koutsu_like(
    agari: AgariState,
    num: u8,
    base_fu: i32,
    add_koutsu: bool,
    add_ankou: bool,
    add_kantsu: bool,
) -> (r: AgariState)
    requires
        num < 34,
        0 <= base_fu <= 16,
        agari_ok(agari@, 100),
    ensures
        r@ == spec_koutsu_like(
            agari@,
            num as int,
            base_fu as int,
            add_koutsu,
            add_ankou,
            add_kantsu,
        ),
{
    let ghost goal = spec_koutsu_like(
        agari@,
        num as int,
        base_fu as int,
        add_koutsu,
        add_ankou,
        add_kantsu,
    );
    let mut a = agari;
    if add_koutsu {
        a.n_koutsu = a.n_koutsu + 1;
    }
    if add_ankou {
        a.n_ankou = a.n_ankou + 1;
    }
    if add_kantsu {
        a.n_kantsu = a.n_kantsu + 1;
    }
    if num >= 27 {
        a.n_zihai = a.n_zihai + 1;
        a.n_yaochu = a.n_yaochu + 1;
        let i = (num - 27) as usize;
        proof {
            assert(a.koutsu.z@[i as int] as int == agari@.koutsu_z[i as int]);
            assert(0 <= agari@.koutsu_z[i as int] <= 100);
        }
        a.koutsu.z[i] = a.koutsu.z[i] + 1;
        a.fu = a.fu + base_fu * 2;
        proof {
            assert(counts7(a.koutsu.z) =~= counts7(agari.koutsu.z).update(
                num - 27,
                counts7(agari.koutsu.z)[num as int - 27] + 1,
            ));
            assert(a@ =~= goal);
        }
        a
    } else {
        let terminal = num % 9 == 0 || num % 9 == 8;
        if terminal {
            a.n_yaochu = a.n_yaochu + 1;
        }
        let fu_add = if terminal {
            base_fu * 2
        } else {
            base_fu
        };
        let i = (num % 9) as usize;
        if num >= 18 {
            proof {
                assert(a.koutsu.s@[i as int] as int == agari@.koutsu_s[i as int]);
                assert(0 <= agari@.koutsu_s[i as int] <= 100);
            }
            a.koutsu.s[i] = a.koutsu.s[i] + 1;
            a.fu = a.fu + fu_add;
            proof {
                assert(counts9(a.koutsu.s) =~= counts9(agari.koutsu.s).update(
                    num as int % 9,
                    counts9(agari.koutsu.s)[num as int % 9] + 1,
                ));
                assert(a@ =~= goal);
            }
            a
        } else if num >= 9 {
            proof {
                assert(a.koutsu.p@[i as int] as int == agari@.koutsu_p[i as int]);
                assert(0 <= agari@.koutsu_p[i as int] <= 100);
            }
            a.koutsu.p[i] = a.koutsu.p[i] + 1;
            a.fu = a.fu + fu_add;
            proof {
                assert(counts9(a.koutsu.p) =~= counts9(agari.koutsu.p).update(
                    num as int % 9,
                    counts9(agari.koutsu.p)[num as int % 9] + 1,
                ));
                assert(a@ =~= goal);
            }
            a
        } else {
            proof {
                assert(a.koutsu.m@[i as int] as int == agari@.koutsu_m[i as int]);
                assert(0 <= agari@.koutsu_m[i as int] <= 100);
            }
            a.koutsu.m[i] = a.koutsu.m[i] + 1;
            a.fu = a.fu + fu_add;
            proof {
                assert(counts9(a.koutsu.m) =~= counts9(agari.koutsu.m).update(
                    num as int % 9,
                    counts9(agari.koutsu.m)[num as int % 9] + 1,
                ));
                assert(a@ =~= goal);
            }
            a
        }
    }
}

/// Accounts one concealed group, mirroring the summary's step function.
#[verifier::rlimit(60)]
#[verifier::spinoff_prover]
fn account_mentsu(agari: AgariState, item: &Mentsu) -> (r: AgariState)
    requires
        item.pai_list@[0].pai_num < 34,
        agari.bakaze < 4,
        agari.zikaze < 4,
        agari_ok(agari@, 100),
    ensures
        r@ == spec_add_mentsu(agari@, *item),
{
    match item.mentsu_type() {
        MentsuType::TYPE_ATAMA => {
            let mut a = agari;
            let num = item.pai_list[0].pai_num();
            a.n_toitsu = a.n_toitsu + 1;
            if is_tanki(item) {
                a.tanki = true;
                a.fu = a.fu + 2;
            }
            if num >= 27 {
                if num - 27 == agari.bakaze as u8 {
                    a.fu = a.fu + 2;
                }
                if num - 27 == agari.zikaze as u8 {
                    a.fu = a.fu + 2;
                }
                if num >= 31 {
                    a.fu = a.fu + 2;
                }
                a.n_zihai = a.n_zihai + 1;
                a.n_yaochu = a.n_yaochu + 1;
                let i = (num - 27) as usize;
                proof {
                    assert(a.toitsu.z@[i as int] as int == agari@.toitsu_z[i as int]);
                    assert(0 <= agari@.toitsu_z[i as int] <= 100);
                }
                a.toitsu.z[i] = a.toitsu.z[i] + 1;
                proof {
                    assert(counts7(a.toitsu.z) =~= counts7(agari.toitsu.z).update(
                        num - 27,
                        counts7(agari.toitsu.z)[num as int - 27] + 1,
                    ));
                }
            } else if num >= 18 {
                let i = (num % 9) as usize;
                proof {
                assert(a.toitsu.s@[i as int] as int == agari@.toitsu_s[i as int]);
                assert(0 <= agari@.toitsu_s[i as int] <= 100);
            }
            a.toitsu.s[i] = a.toitsu.s[i] + 1;
                proof {
                    assert(counts9(a.toitsu.s) =~= counts9(agari.toitsu.s).update(
                        num as int % 9,
                        counts9(agari.toitsu.s)[num as int % 9] + 1,
                    ));
                }
            } else if num >= 9 {
                let i = (num % 9) as usize;
                proof {
                assert(a.toitsu.p@[i as int] as int == agari@.toitsu_p[i as int]);
                assert(0 <= agari@.toitsu_p[i as int] <= 100);
            }
            a.toitsu.p[i] = a.toitsu.p[i] + 1;
                proof {
                    assert(counts9(a.toitsu.p) =~= counts9(agari.toitsu.p).update(
                        num as int % 9,
                        counts9(agari.toitsu.p)[num as int % 9] + 1,
                    ));
                }
            } else {
                let i = (num % 9) as usize;
                proof {
                assert(a.toitsu.m@[i as int] as int == agari@.toitsu_m[i as int]);
                assert(0 <= agari@.toitsu_m[i as int] <= 100);
            }
            a.toitsu.m[i] = a.toitsu.m[i] + 1;
                proof {
                    assert(counts9(a.toitsu.m) =~= counts9(agari.toitsu.m).update(
                        num as int % 9,
                        counts9(agari.toitsu.m)[num as int % 9] + 1,
                    ));
                }
            }
            if num % 9 == 0 || num % 9 == 8 {
                a.n_yaochu = a.n_yaochu + 1;
            }
            proof {
                assert(a@ =~= spec_add_atama(agari@, *item));
            }
            a
        },
        MentsuType::TYPE_KOUTSU => account_koutsu_like(
            agari,
            item.pai_list[0].pai_num(),
            4,
            true,
            true,
            false,
        ),
        MentsuType::TYPE_SHUNTSU => account_shuntsu(agari, item, true),
        _ => agari,
    }
}

/// Accounts one run, mirroring the summary's step function.
#[verifier::rlimit(60)]
#[verifier::spinoff_prover]
fn account_shuntsu(agari: AgariState, item: &Mentsu, with_wait_fu: bool) -> (r: AgariState)
    requires
        item.pai_list@[0].pai_num < 34,
        agari_ok(agari@, 100),
    ensures
        r@ == spec_add_shuntsu(agari@, *item, with_wait_fu),
{
    let mut a = agari;
    a.n_shuntsu = a.n_shuntsu + 1;
    if with_wait_fu && is_kanchan(item) {
        a.fu = a.fu + 2;
    }
    if with_wait_fu && is_penchan(item) {
        a.fu = a.fu + 2;
    }
    let num = item.pai_list[0].pai_num();
    if num % 9 == 0 || num % 9 == 6 {
        a.n_yaochu = a.n_yaochu + 1;
    }
    let i = (num % 9) as usize;
    if num >= 18 {
        proof {
            assert(a.shuntsu.s@[i as int] as int == agari@.shuntsu_s[i as int]);
            assert(0 <= agari@.shuntsu_s[i as int] <= 100);
        }
        a.shuntsu.s[i] = a.shuntsu.s[i] + 1;
        proof {
            assert(counts9(a.shuntsu.s) =~= counts9(agari.shuntsu.s).update(
                num as int % 9,
                counts9(agari.shuntsu.s)[num as int % 9] + 1,
            ));
        }
    } else if num >= 9 {
        proof {
            assert(a.shuntsu.p@[i as int] as int == agari@.shuntsu_p[i as int]);
            assert(0 <= agari@.shuntsu_p[i as int] <= 100);
        }
        a.shuntsu.p[i] = a.shuntsu.p[i] + 1;
        proof {
            assert(counts9(a.shuntsu.p) =~= counts9(agari.shuntsu.p).update(
                num as int % 9,
                counts9(agari.shuntsu.p)[num as int % 9] + 1,
            ));
        }
    } else {
        proof {
            assert(a.shuntsu.m@[i as int] as int == agari@.shuntsu_m[i as int]);
            assert(0 <= agari@.shuntsu_m[i as int] <= 100);
        }
        a.shuntsu.m[i] = a.shuntsu.m[i] + 1;
        proof {
            assert(counts9(a.shuntsu.m) =~= counts9(agari.shuntsu.m).update(
                num as int % 9,
                counts9(agari.shuntsu.m)[num as int % 9] + 1,
            ));
        }
    }
    proof {
        assert(a@ =~= spec_add_shuntsu(agari@, *item, with_wait_fu));
    }
    a
}

/// Accounts one declared open group.
fn account_fulo(agari: AgariState, item: &Mentsu) -> (r: AgariState)
    requires
        item.pai_list@[0].pai_num < 34,
        agari_ok(agari@, 100),
    ensures
        r@ == spec_add_fulo(agari@, *item),
{
    match item.mentsu_type() {
        MentsuType::TYPE_ANKAN => account_koutsu_like(
            agari,
            item.pai_list[0].pai_num(),
            16,
            false,
            true,
            true,
        ),
        MentsuType::TYPE_MINKAN => account_koutsu_like(
            agari,
            item.pai_list[0].pai_num(),
            8,
            false,
            false,
            true,
        ),
        MentsuType::TYPE_KOUTSU => account_koutsu_like(
            agari,
            item.pai_list[0].pai_num(),
            2,
            true,
            false,
            false,
        ),
        MentsuType::TYPE_SHUNTSU => account_shuntsu(agari, item, false),
        _ => agari,
    }
}

/// Every meld's leading tile has an in-range kind.
pub open spec fn valid_meld_kinds(ms: Seq<Mentsu>) -> bool {
    forall|j: int| 0 <= j < ms.len() ==> (#[trigger] ms[j]).pai_list@[0].pai_num < 34
}

/// Classifies one decomposition plus its open melds into the summary the
/// scoring predicates read: per-kind group tables, concealment and wait
/// flags, and the fully accumulated and rounded fu.
pub fn build_agari_state(bakaze: u32, zikaze: u32, mentsu: &Vec<Mentsu>, fulo: &Vec<Mentsu>) -> (r:
    AgariState)
    requires
        bakaze < 4,
        zikaze < 4,
        mentsu@.len() + fulo@.len() <= 100,
        valid_meld_kinds(mentsu@),
        valid_meld_kinds(fulo@),
    ensures
        r@ == spec_build_agari(bakaze as int, zikaze as int, mentsu@, fulo@),
        wf_agari(r@),
{
    let menzen = fulo.len() == 0;
    let mut agari = AgariState {
        fu: 20,
        menzen,
        tsumo: true,
        shuntsu: Shuntsu { m: [0; 9], p: [0; 9], s: [0; 9] },
        koutsu: Koutsu { m: [0; 9], p: [0; 9], s: [0; 9], z: [0; 7] },
        toitsu: Koutsu { m: [0; 9], p: [0; 9], s: [0; 9], z: [0; 7] },
        n_toitsu: 0,
        n_shuntsu: 0,
        n_koutsu: 0,
        n_ankou: 0,
        n_kantsu: 0,
        n_yaochu: 0,
        n_zihai: 0,
        kokushi: false,
        churen: false,
        tanki: false,
        pinfu: false,
        bakaze,
        zikaze,
    };
    let ghost v0 = spec_agari_init(bakaze as int, zikaze as int, menzen);
    proof {
        assert(agari@ =~= v0);
        assert(agari_ok(agari@, 0));
    }

    let nm = mentsu.len();
    for i in 0..nm
        invariant
            nm == mentsu@.len(),
            mentsu@.len() + fulo@.len() <= 100,
            valid_meld_kinds(mentsu@),
            agari.bakaze == bakaze < 4,
            agari.zikaze == zikaze < 4,
            v0 == spec_agari_init(bakaze as int, zikaze as int, menzen),
            agari@ == spec_fold_mentsu(v0, mentsu@, i as int),
            agari_ok(agari@, i as int),
    {
        proof {
            lemma_add_mentsu_ok(agari@, mentsu@[i as int], i as int);
        }
        agari = account_mentsu(agari, &mentsu[i]);
    }

    let nf = fulo.len();
    let ghost v1 = spec_fold_mentsu(v0, mentsu@, mentsu@.len() as int);
    for j in 0..nf
        invariant
            nf == fulo@.len(),
            nm == mentsu@.len(),
            mentsu@.len() + fulo@.len() <= 100,
            valid_meld_kinds(fulo@),
            agari.bakaze == bakaze < 4,
            agari.zikaze == zikaze < 4,
            v1 == spec_fold_mentsu(v0, mentsu@, mentsu@.len() as int),
            agari@ == spec_fold_fulo(v1, fulo@, j as int),
            agari_ok(agari@, nm + j),
    {
        proof {
            lemma_add_mentsu_ok(agari@, fulo@[j as int], nm + j);
        }
        agari = account_fulo(agari, &fulo[j]);
    }

    let ghost before = agari@;
    if agari.n_toitsu >= 7 {
        agari.fu = 25;
    } else {
        agari.pinfu = agari.menzen && agari.fu == 20;
        if agari.tsumo {
            if !agari.pinfu {
                agari.fu = agari.fu + 2;
            }
        } else {
            if agari.menzen {
                agari.fu = agari.fu + 10;
            } else if agari.fu == 20 {
                agari.fu = 30;
            }
        }
        agari.fu = (agari.fu + 9) / 10 * 10;
    }
    proof {
        assert(agari@ =~= spec_finalize(before));
    }
    agari
}

/// Sum of the maximal-tier (negative) multipliers of a category list.
pub open spec fn spec_sum_neg(ys: Seq<(Seq<char>, int)>) -> int
    decreases ys.len(),
{
    if ys.len() == 0 {
        0int
    } else {
        spec_sum_neg(ys.drop_last()) + if ys.last().1 < 0 {
            ys.last().1
        } else {
            0int
        }
    }
}

/// Sum of the standard (positive) multipliers of a category list.
pub open spec fn spec_sum_pos(ys: Seq<(Seq<char>, int)>) -> int
    decreases ys.len(),
{
    if ys.len() == 0 {
        0int
    } else {
        spec_sum_pos(ys.drop_last()) + if ys.last().1 > 0 {
            ys.last().1
        } else {
            0int
        }
    }
}

/// The maximal-tier entries of a category list, in order.
pub open spec fn spec_keep_neg(ys: Seq<(Seq<char>, int)>) -> Seq<(Seq<char>, int)>
    decreases ys.len(),
{
    if ys.len() == 0 {
        Seq::empty()
    } else if ys.last().1 < 0 {
        spec_keep_neg(ys.drop_last()).push(ys.last())
    } else {
        spec_keep_neg(ys.drop_last())
    }
}

/// The doubling factor applied to the point base below the fixed bands: two
/// to the power of the multiplier total plus four.
pub open spec fn spec_fu_factor(han: int) -> int {
    if han <= 0 {
        16int
    } else if han == 1 {
        32int
    } else if han == 2 {
        64int
    } else if han == 3 {
        128int
    } else if han == 4 {
        256int
    } else {
        512int
    }
}

/// The scored result of one interpretation: `(score, fu, han, yaku)`. An
/// empty category list scores zero. A maximal-tier presence fixes the score
/// at 32000 per (stacked) maximal multiplier and reports zero fu. Otherwise
/// the banded thresholds apply, and below them the fu-based closed formula,
/// rounded up to hundreds and capped at 8000.
pub open spec fn spec_score(fu: int, ys: Seq<(Seq<char>, int)>) -> (int, int, int, Seq<
    (Seq<char>, int),
>) {
    if ys.len() == 0 {
        (0int, 0int, 0int, Seq::empty())
    } else {
        let yakumans = spec_sum_neg(ys);
        let han = spec_sum_pos(ys);
        if yakumans < 0 {
            (32000 * -yakumans, 0int, 0int, spec_keep_neg(ys))
        } else {
            let score = if han >= 13 {
                32000int
            } else if han >= 11 {
                24000int
            } else if han >= 8 {
                16000int
            } else if han >= 6 {
                12000int
            } else {
                let base = ((fu * spec_fu_factor(han) + 99) / 100) * 100;
                if base < 8000 {
                    base
                } else {
                    8000int
                }
            };
            (score, fu, han, ys)
        }
    }
}

/// The spec view of a scored result.
pub open spec fn agari_view(a: Agari) -> (int, int, int, Seq<(Seq<char>, int)>) {
    (a.score as int, a.fu as int, a.han as int, yaku_view(a.yaku@))
}

/// Every entry's multiplier lies within the machine-safe band.
pub open spec fn yaku_values_ok(ys: Seq<(String, i32)>) -> bool {
    forall|i: int| 0 <= i < ys.len() ==> -2 <= (#[trigger] ys[i]).1 <= 100000
}

/// Every spec-level entry's multiplier lies within the machine-safe band.
pub open spec fn bounded_values(s: Seq<(Seq<char>, int)>) -> bool {
    forall|i: int| 0 <= i < s.len() ==> -2 <= (#[trigger] s[i]).1 <= 100000
}

/// A list whose view has in-band multipliers has them itself.
pub proof fn lemma_values_from_view(ys: Seq<(String, i32)>)
    requires
        bounded_values(yaku_view(ys)),
    ensures
        yaku_values_ok(ys),
{
    assert forall|i: int| 0 <= i < ys.len() implies -2 <= (#[trigger] ys[i]).1 <= 100000 by {
        assert(yaku_view(ys)[i].1 == ys[i].1 as int);
    }
}

/// Concatenating in-band lists stays in band.
pub proof fn lemma_bounded_concat(a: Seq<(Seq<char>, int)>, b: Seq<(Seq<char>, int)>)
    requires
        bounded_values(a),
        bounded_values(b),
    ensures
        bounded_values(a + b),
{
    assert forall|i: int| 0 <= i < (a + b).len() implies -2 <= (#[trigger] (a + b)[i]).1
        <= 100000 by {
        if i < a.len() {
            assert((a + b)[i] == a[i]);
        } else {
            assert((a + b)[i] == b[i - a.len()]);
        }
    }
}

impl AgariState {
    /// Converts one interpretation's category list into its final score:
    /// maximal-tier categories stack at 32000 apiece, otherwise the banded
    /// thresholds and the capped fu formula apply. A hand with no category
    /// scores zero.
    pub fn get_agari(&self, yaku: &Vec<(String, i32)>) -> (r: Agari)
        requires
            0 <= self.fu <= 100000,
            yaku@.len() <= 1000,
            yaku_values_ok(yaku@),
        ensures
            agari_view(r) == spec_score(self.fu as int, yaku_view(yaku@)),
            0 <= r.score <= 32000 + 64000 * yaku@.len(),
    {
        let ghost ys = yaku_view(yaku@);
        let n = yaku.len();
        if n == 0 {
            let r = Agari::default();
            proof {
                assert(yaku_view(r.yaku@) =~= Seq::<(Seq<char>, int)>::empty());
            }
            return r;
        }

        let mut yakumans: i32 = 0;
        let mut han: i32 = 0;
        for i in 0..n
            invariant
                n == yaku@.len() <= 1000,
                yaku_values_ok(yaku@),
                ys == yaku_view(yaku@),
                yakumans as int == spec_sum_neg(ys.take(i as int)),
                han as int == spec_sum_pos(ys.take(i as int)),
                -2 * i <= yakumans <= 0,
                0 <= han <= 100000 * i,
        {
            let v = yaku[i].1;
            proof {
                assert(ys.take(i + 1).drop_last() =~= ys.take(i as int));
                assert(ys.take(i + 1).last() == ys[i as int]);
                assert(ys[i as int].1 == yaku@[i as int].1 as int);
            }
            if v < 0 {
                yakumans = yakumans + v;
            } else if v > 0 {
                han = han + v;
            }
        }
        proof {
            assert(ys.take(n as int) =~= ys);
        }

        if yakumans < 0 {
            // A maximal-tier hand: only the maximal categories are reported.
            let mut kept: Vec<(String, i32)> = Vec::new();
            for i in 0..n
                invariant
                    n == yaku@.len(),
                    ys == yaku_view(yaku@),
                    yaku_view(kept@) == spec_keep_neg(ys.take(i as int)),
            {
                proof {
                    assert(ys.take(i + 1).drop_last() =~= ys.take(i as int));
                    assert(ys.take(i + 1).last() == ys[i as int]);
                }
                if yaku[i].1 < 0 {
                    let name = yaku[i].0.clone();
                    let value = yaku[i].1;
                    let ghost before = kept@;
                    kept.push((name, value));
                    proof {
                        assert(yaku_view(before).len() == before.len());
                        assert(kept@ == before.push((name, value)));
                        assert(name == yaku@[i as int].0);
                        assert(ys[i as int] == (yaku@[i as int].0@, yaku@[i as int].1 as int));
                        assert forall|j: int| 0 <= j < kept@.len() implies yaku_view(kept@)[j]
                            == spec_keep_neg(ys.take(i + 1))[j] by {
                            if j < before.len() {
                                assert(kept@[j] == before[j]);
                                assert(yaku_view(before)[j] == spec_keep_neg(ys.take(i as int))[j]);
                            } else {
                                assert(kept@[j] == (name, value));
                            }
                        }
                        assert(yaku_view(kept@) =~= spec_keep_neg(ys.take(i + 1)));
                    }
                } else {
                    proof {
                        assert(ys[i as int].1 == yaku@[i as int].1 as int);
                    }
                }
            }
            proof {
                assert(ys.take(n as int) =~= ys);
            }
            Agari { score: 32000 * -yakumans, fu: 0, han: 0, yaku: kept }
        } else {
            let mut copied: Vec<(String, i32)> = Vec::new();
            for i in 0..n
                invariant
                    n == yaku@.len(),
                    ys == yaku_view(yaku@),
                    yaku_view(copied@) == ys.take(i as int),
            {
                let name = yaku[i].0.clone();
                let value = yaku[i].1;
                let ghost before = copied@;
                copied.push((name, value));
                proof {
                    assert(yaku_view(before).len() == before.len());
                    assert(before.len() == i);
                    assert(copied@ == before.push((name, value)));
                    assert(name == yaku@[i as int].0);
                    assert(ys[i as int] == (yaku@[i as int].0@, yaku@[i as int].1 as int));
                    assert forall|j: int| 0 <= j < copied@.len() implies yaku_view(copied@)[j]
                        == ys.take(i + 1)[j] by {
                        if j < before.len() {
                            assert(copied@[j] == before[j]);
                            assert(yaku_view(before)[j] == ys.take(i as int)[j]);
                        } else {
                            assert(copied@[j] == (name, value));
                        }
                    }
                    assert(yaku_view(copied@) =~= ys.take(i + 1));
                }
            }
            proof {
                assert(ys.take(n as int) =~= ys);
            }
            let score: i32 = if han >= 13 {
                32000
            } else if han >= 11 {
                24000
            } else if han >= 8 {
                16000
            } else if han >= 6 {
                12000
            } else {
                let factor: i32 = if han <= 0 {
                    16
                } else if han == 1 {
                    32
                } else if han == 2 {
                    64
                } else if han == 3 {
                    128
                } else if han == 4 {
                    256
                } else {
                    512
                };
                proof {
                    assert(0 <= self.fu as int * factor as int <= 51200000) by (nonlinear_arith)
                        requires
                            0 <= self.fu as int <= 100000,
                            0 <= factor as int <= 512,
                    ;
                }
                let base = ((self.fu * factor + 99) / 100) * 100;
                if base < 8000 {
                    base
                } else {
                    8000
                }
            };
            Agari { score, fu: self.fu, han, yaku: copied }
        }
    }
}

/// The situational categories list for the given table flags.
pub open spec fn spec_condition_yaku(riichi: bool, ippatsu: bool) -> Seq<(Seq<char>, int)> {
    Seq::empty() + opt_seq(spec_riichi(riichi)) + opt_seq(spec_ippatsu(ippatsu))
}

/// How many of the indicators reward tiles of kind `k`.
pub open spec fn dora_matches(doras: Seq<u8>, k: int) -> int
    decreases doras.len(),
{
    if doras.len() == 0 {
        0int
    } else {
        dora_matches(doras.drop_last(), k) + if spec_dora_pai_num(doras.last()) == k {
            1int
        } else {
            0int
        }
    }
}

/// The slots of a meld that hold tiles.
pub open spec fn slots_used(m: Mentsu) -> int {
    if m.pai_len <= 4 {
        m.pai_len as int
    } else {
        4int
    }
}

/// Indicator matches over the first `t` slots of one meld.
pub open spec fn meld_dora(doras: Seq<u8>, m: Mentsu, t: int) -> int
    decreases t,
{
    if t <= 0 {
        0int
    } else {
        meld_dora(doras, m, t - 1) + dora_matches(doras, m.pai_list@[t - 1].pai_num as int)
    }
}

/// Indicator matches over the first `n` melds of a list.
pub open spec fn melds_dora(doras: Seq<u8>, ms: Seq<Mentsu>, n: int) -> int
    decreases n,
{
    if n <= 0 {
        0int
    } else {
        melds_dora(doras, ms, n - 1) + meld_dora(doras, ms[n - 1], slots_used(ms[n - 1]))
    }
}

/// Indicator matches over a whole decomposition plus its open melds.
pub open spec fn spec_dora_count(doras: Seq<u8>, mentsu: Seq<Mentsu>, fulo: Seq<Mentsu>) -> int {
    melds_dora(doras, mentsu, mentsu.len() as int) + melds_dora(doras, fulo, fulo.len() as int)
}

/// The bonus categories: indicator matches plus extracted bonus tiles, and,
/// for a declared ready hand, the hidden indicators too. They are counted
/// unconditionally and gated by no other category.
pub open spec fn spec_dora_yaku(
    doras: Seq<u8>,
    uradoras: Seq<u8>,
    riichi: bool,
    mentsu: Seq<Mentsu>,
    fulo: Seq<Mentsu>,
    nukidora: int,
) -> Seq<(Seq<char>, int)> {
    let dn = spec_dora_count(doras, mentsu, fulo) + nukidora;
    let un = if riichi {
        spec_dora_count(uradoras, mentsu, fulo)
    } else {
        0int
    };
    (if dn > 0 {
        seq![("ドラ"@, dn)]
    } else {
        Seq::empty()
    }) + (if un > 0 {
        seq![("裏ドラ"@, un)]
    } else {
        Seq::empty()
    })
}

proof fn lemma_dora_matches_bound(doras: Seq<u8>, k: int)
    ensures
        0 <= dora_matches(doras, k) <= doras.len(),
    decreases doras.len(),
{
    if doras.len() > 0 {
        lemma_dora_matches_bound(doras.drop_last(), k);
    }
}

proof fn lemma_meld_dora_bound(doras: Seq<u8>, m: Mentsu, t: int)
    requires
        doras.len() <= 8,
        t <= 4,
    ensures
        0 <= meld_dora(doras, m, t),
        t >= 0 ==> meld_dora(doras, m, t) <= 8 * t,
    decreases t,
{
    if t > 0 {
        lemma_meld_dora_bound(doras, m, t - 1);
        lemma_dora_matches_bound(doras, m.pai_list@[t - 1].pai_num as int);
    }
}

proof fn lemma_melds_dora_bound(doras: Seq<u8>, ms: Seq<Mentsu>, n: int)
    requires
        doras.len() <= 8,
        n <= ms.len(),
    ensures
        0 <= melds_dora(doras, ms, n),
        n >= 0 ==> melds_dora(doras, ms, n) <= 32 * n,
    decreases n,
{
    if n > 0 {
        lemma_melds_dora_bound(doras, ms, n - 1);
        lemma_meld_dora_bound(doras, ms[n - 1], slots_used(ms[n - 1]));
    }
}

/// The full category list and score of one interpretation of the hand.
pub open spec fn spec_eval_one(
    bakaze: int,
    zikaze: int,
    riichi: bool,
    ippatsu: bool,
    doras: Seq<u8>,
    uradoras: Seq<u8>,
    d: Seq<Mentsu>,
    fulo: Seq<Mentsu>,
    nukidora: int,
) -> (int, int, int, Seq<(Seq<char>, int)>) {
    let st = spec_build_agari(bakaze, zikaze, d, fulo);
    let ys = spec_condition_yaku(riichi, ippatsu) + spec_yaku_list(st) + spec_dora_yaku(
        doras,
        uradoras,
        riichi,
        d,
        fulo,
        nukidora,
    );
    spec_score(st.fu, ys)
}

/// The best-scoring interpretation among the first `n` decompositions; on a
/// tie, the later one is kept.
pub open spec fn spec_best_agari(
    bakaze: int,
    zikaze: int,
    riichi: bool,
    ippatsu: bool,
    doras: Seq<u8>,
    uradoras: Seq<u8>,
    ds: Seq<Seq<Mentsu>>,
    fulo: Seq<Mentsu>,
    nukidora: int,
    n: int,
) -> (int, int, int, Seq<(Seq<char>, int)>)
    decreases n,
{
    if n <= 1 {
        spec_eval_one(bakaze, zikaze, riichi, ippatsu, doras, uradoras, ds[0], fulo, nukidora)
    } else {
        let prev = spec_best_agari(
            bakaze,
            zikaze,
            riichi,
            ippatsu,
            doras,
            uradoras,
            ds,
            fulo,
            nukidora,
            n - 1,
        );
        let c = spec_eval_one(
            bakaze,
            zikaze,
            riichi,
            ippatsu,
            doras,
            uradoras,
            ds[n - 1],
            fulo,
            nukidora,
        );
        if c.0 >= prev.0 {
            c
        } else {
            prev
        }
    }
}

/// Scoring the same decompositions twice under the same context yields the
/// same result: the best interpretation is a function of its inputs alone.
pub proof fn lemma_best_interpretation_deterministic(
    a1: Agari,
    a2: Agari,
    bakaze: int,
    zikaze: int,
    riichi: bool,
    ippatsu: bool,
    doras: Seq<u8>,
    uradoras: Seq<u8>,
    ds: Seq<Seq<Mentsu>>,
    fulo: Seq<Mentsu>,
    nukidora: int,
)
    requires
        agari_view(a1) == spec_best_agari(
            bakaze,
            zikaze,
            riichi,
            ippatsu,
            doras,
            uradoras,
            ds,
            fulo,
            nukidora,
            ds.len() as int,
        ),
        agari_view(a2) == spec_best_agari(
            bakaze,
            zikaze,
            riichi,
            ippatsu,
            doras,
            uradoras,
            ds,
            fulo,
            nukidora,
            ds.len() as int,
        ),
    ensures
        a1.score == a2.score,
        a1.fu == a2.fu,
        a1.han == a2.han,
        yaku_view(a1.yaku@) == yaku_view(a2.yaku@),
{
}

/// The situational categories are at most two entries of one multiplier.
pub proof fn lemma_condition_yaku_bounds(riichi: bool, ippatsu: bool)
    ensures
        spec_condition_yaku(riichi, ippatsu).len() <= 2,
        bounded_values(spec_condition_yaku(riichi, ippatsu)),
{
}

/// The bonus categories are at most two entries, each within the machine's
/// band for the given list sizes.
pub proof fn lemma_dora_yaku_bounds(
    doras: Seq<u8>,
    uradoras: Seq<u8>,
    riichi: bool,
    mentsu: Seq<Mentsu>,
    fulo: Seq<Mentsu>,
    nukidora: int,
)
    requires
        doras.len() <= 8,
        uradoras.len() <= 8,
        mentsu.len() + fulo.len() <= 100,
        0 <= nukidora <= 1000,
    ensures
        spec_dora_yaku(doras, uradoras, riichi, mentsu, fulo, nukidora).len() <= 2,
        bounded_values(spec_dora_yaku(doras, uradoras, riichi, mentsu, fulo, nukidora)),
{
    lemma_melds_dora_bound(doras, mentsu, mentsu.len() as int);
    lemma_melds_dora_bound(doras, fulo, fulo.len() as int);
    lemma_melds_dora_bound(uradoras, mentsu, mentsu.len() as int);
    lemma_melds_dora_bound(uradoras, fulo, fulo.len() as int);
}

/// Appends a copy of every category of `src` to `dst`.
pub fn extend_yaku(dst: &mut Vec<(String, i32)>, src: &Vec<(String, i32)>)
    ensures
        yaku_view(final(dst)@) == yaku_view(old(dst)@) + yaku_view(src@),
        final(dst)@.len() == old(dst)@.len() + src@.len(),
{
    let n = src.len();
    for j in 0..n
        invariant
            n == src@.len(),
            dst@.len() == old(dst)@.len() + j,
            yaku_view(dst@) =~= yaku_view(old(dst)@) + yaku_view(src@.take(j as int)),
    {
        let name = src[j].0.clone();
        let value = src[j].1;
        let ghost before = dst@;
        dst.push((name, value));
        proof {
            assert(yaku_view(before).len() == before.len());
            assert(dst@ == before.push((name, value)));
            assert(name == src@[j as int].0);
            assert(yaku_view(src@)[j as int] == (src@[j as int].0@, src@[j as int].1 as int));
            assert forall|q: int| 0 <= q < dst@.len() implies yaku_view(dst@)[q] == (yaku_view(
                old(dst)@,
            ) + yaku_view(src@.take(j + 1)))[q] by {
                if q < before.len() {
                    assert(dst@[q] == before[q]);
                    assert(yaku_view(before)[q] == (yaku_view(old(dst)@) + yaku_view(
                        src@.take(j as int),
                    ))[q]);
                } else {
                    assert(dst@[q] == (name, value));
                    assert(yaku_view(src@.take(j + 1))[j as int] == (src@[j as int].0@, src@[
                        j as int].1 as int));
                }
            }
            assert(yaku_view(dst@) =~= yaku_view(old(dst)@) + yaku_view(src@.take(j + 1)));
        }
    }
    proof {
        assert(src@.take(n as int) =~= src@);
        assert(yaku_view(old(dst)@) + yaku_view(src@.take(n as int)) =~= yaku_view(old(dst)@)
            + yaku_view(src@));
    }
}

/// What a game state offers the scoring layer: classification of one
/// decomposition, the situational and bonus categories, and the selection of
/// the best-scoring interpretation.
pub trait AgariBehavior {
    /// The table's round wind.
    spec fn spec_bakaze(&self) -> int;

    /// The seat wind of the given player.
    spec fn spec_zikaze(&self, who: int) -> int;

    /// Whether the given player has declared ready.
    spec fn spec_is_riichi(&self, who: int) -> bool;

    /// Whether the given player is within one turn of declaring ready.
    spec fn spec_is_ippatsu(&self, who: int) -> bool;

    /// The kinds of the open bonus indicators.
    spec fn spec_dora(&self) -> Seq<u8>;

    /// The kinds of the hidden bonus indicators.
    spec fn spec_uradora(&self) -> Seq<u8>;

    /// The player index and the indicator lists are within the engine's
    /// ranges.
    spec fn spec_ctx_ok(&self, who: int) -> bool;

    /// Classifies one decomposition plus the open melds into the summary the
    /// scoring predicates read.
    fn get_agari(&self, who: usize, mentsu: &Vec<Mentsu>, fulo: &Vec<Mentsu>) -> (r: AgariState)
        requires
            self.spec_ctx_ok(who as int),
            mentsu@.len() + fulo@.len() <= 100,
            valid_meld_kinds(mentsu@),
            valid_meld_kinds(fulo@),
        ensures
            r@ == spec_build_agari(self.spec_bakaze(), self.spec_zikaze(who as int), mentsu@, fulo@),
            wf_agari(r@),
    ;

    /// The situational categories of the given player.
    fn get_condition_yaku(&self, who: usize, state: &AgariState) -> (r: Vec<(String, i32)>)
        requires
            self.spec_ctx_ok(who as int),
        ensures
            yaku_view(r@) == spec_condition_yaku(
                self.spec_is_riichi(who as int),
                self.spec_is_ippatsu(who as int),
            ),
    ;

    /// The bonus categories of one decomposition.
    fn get_dora_yaku(
        &self,
        who: usize,
        mentsu: &Vec<Mentsu>,
        fulo: &Vec<Mentsu>,
        nukidora: usize,
    ) -> (r: Vec<(String, i32)>)
        requires
            self.spec_ctx_ok(who as int),
            mentsu@.len() + fulo@.len() <= 100,
            nukidora <= 1000,
        ensures
            yaku_view(r@) == spec_dora_yaku(
                self.spec_dora(),
                self.spec_uradora(),
                self.spec_is_riichi(who as int),
                mentsu@,
                fulo@,
                nukidora as int,
            ),
    ;

    /// Scores every decomposition and keeps the best; an empty decomposition
    /// list and a best interpretation with no category at all are both
    /// illegal wins and are reported as such.
    fn get_best_agari(
        &self,
        who: usize,
        mentsu: &Vec<Vec<Mentsu>>,
        fulo: &Vec<Mentsu>,
        nukidora: usize,
    ) -> (r: Result<Agari, CoreError>)
        requires
            self.spec_ctx_ok(who as int),
            forall|i: int|
                0 <= i < mentsu@.len() ==> (#[trigger] mentsu@[i])@.len() + fulo@.len() <= 100
                    && valid_meld_kinds(mentsu@[i]@),
            valid_meld_kinds(fulo@),
            nukidora <= 1000,
        ensures
            ({
                let best = spec_best_agari(
                    self.spec_bakaze(),
                    self.spec_zikaze(who as int),
                    self.spec_is_riichi(who as int),
                    self.spec_is_ippatsu(who as int),
                    self.spec_dora(),
                    self.spec_uradora(),
                    views_of(mentsu@),
                    fulo@,
                    nukidora as int,
                    mentsu@.len() as int,
                );
                match r {
                    Ok(a) => mentsu@.len() > 0 && best.3.len() > 0 && agari_view(a) == best && 0
                        <= a.score <= 3_000_000,
                    Err(e) => (mentsu@.len() == 0 && e == CoreError::NoValidDecomposition) || (
                    mentsu@.len() > 0 && best.3.len() == 0 && e == CoreError::NoYaku),
                }
            }),
    ;
}

} // verus!
