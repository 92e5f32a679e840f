//! Melds: the three-or-four tile groups (runs, triplets, quads) and the pair
//! that partition a completed hand, together with the count-vector spec
//! machinery used to account for the tiles a decomposition consumes.

use vstd::prelude::*;

use crate::shanten::{psum, zero_counts};

verus! {

/// How a slot of a meld was acquired, and whether it is the winning tile.
#[allow(non_camel_case_types)]
#[derive(Clone, Copy, Debug, PartialEq, Eq, Structural)]
pub enum MentsuFlag {
    FLAG_NONE,
    FLAG_AGARI,
    FLAG_KAMICHA,
    FLAG_TOIMEN,
    FLAG_SIMOCHA,
}

/// The shape of a meld: pair, run, triplet, concealed quad, open quad.
#[allow(non_camel_case_types)]
#[derive(Clone, Copy, Debug, PartialEq, Eq, Structural)]
pub enum MentsuType {
    TYPE_NONE,
    TYPE_ATAMA,
    TYPE_SHUNTSU,
    TYPE_KOUTSU,
    TYPE_ANKAN,
    TYPE_MINKAN,
}

/// One tile slot of a meld.
#[derive(Clone, Copy, Debug, PartialEq, Eq, Structural)]
pub struct MentsuPai {
    pub pai_num: u8,
    pub id: u8,
    pub flag: MentsuFlag,
}

impl MentsuPai {
    pub fn new(pai_num: u8, id: u8, flag: MentsuFlag) -> (r: MentsuPai)
        ensures
            r == (MentsuPai { pai_num, id, flag }),
    {
        MentsuPai { pai_num, id, flag }
    }

    pub fn pai_num(&self) -> (r: u8)
        ensures
            r == self.pai_num,
    {
        self.pai_num
    }

    pub fn flag(&self) -> (r: MentsuFlag)
        ensures
            r == self.flag,
    {
        self.flag
    }
}

/// A meld: up to four tile slots, how many are used, and the shape.
#[derive(Clone, Copy, Debug)]
pub struct Mentsu {
    pub pai_list: [MentsuPai; 4],
    pub pai_len: u8,
    pub mentsu_type: MentsuType,
}

impl PartialEq for Mentsu {
    fn eq(&self, other: &Mentsu) -> (r: bool) {
        self.pai_list[0] == other.pai_list[0] && self.pai_list[1] == other.pai_list[1]
            && self.pai_list[2] == other.pai_list[2] && self.pai_list[3] == other.pai_list[3]
            && self.pai_len == other.pai_len && self.mentsu_type == other.mentsu_type
    }
}

impl vstd::std_specs::cmp::PartialEqSpecImpl for Mentsu {
    open spec fn obeys_eq_spec() -> bool {
        true
    }

    /// Two melds are equal when their slots, used length and shape agree.
    open spec fn eq_spec(&self, other: &Mentsu) -> bool {
        self.pai_list@ =~= other.pai_list@ && self.pai_len == other.pai_len
            && self.mentsu_type == other.mentsu_type
    }
}

impl Mentsu {
    pub fn new(pai_list: &[MentsuPai; 4], pai_len: u8, mentsu_type: MentsuType) -> (r: Mentsu)
        ensures
            r == (Mentsu { pai_list: *pai_list, pai_len, mentsu_type }),
    {
        Mentsu { pai_list: *pai_list, pai_len, mentsu_type }
    }

    pub fn pai_list(&self) -> (r: &[MentsuPai; 4])
        ensures
            r == self.pai_list,
    {
        &self.pai_list
    }

    pub fn pai_len(&self) -> (r: u8)
        ensures
            r == self.pai_len,
    {
        self.pai_len
    }

    pub fn mentsu_type(&self) -> (r: MentsuType)
        ensures
            r == self.mentsu_type,
    {
        self.mentsu_type
    }
}

/// Tiles of kind `k` among the tile slots `l`.
pub open spec fn count_in(l: Seq<MentsuPai>, k: int) -> int
    decreases l.len(),
{
    if l.len() == 0 {
        0int
    } else {
        count_in(l.drop_last(), k) + if l.last().pai_num == k {
            1int
        } else {
            0int
        }
    }
}

/// The 34-entry count vector of the tiles one meld holds.
pub open spec fn meld_vec(m: Mentsu) -> Seq<int> {
    Seq::new(34, |k: int| count_in(m.pai_list@.take(m.pai_len as int), k))
}

/// Pointwise sum of two 34-entry count vectors.
pub open spec fn vec_add(a: Seq<int>, b: Seq<int>) -> Seq<int> {
    Seq::new(34, |k: int| a[k] + b[k])
}

/// The 34-entry count vector of all tiles a meld list holds.
pub open spec fn tiles_vec(ms: Seq<Mentsu>) -> Seq<int>
    decreases ms.len(),
{
    if ms.len() == 0 {
        zero_counts()
    } else {
        vec_add(meld_vec(ms[0]), tiles_vec(ms.drop_first()))
    }
}

/// `a` is pointwise at most `b` over the 34 kinds.
pub open spec fn leq34(a: Seq<int>, b: Seq<int>) -> bool {
    forall|k: int| 0 <= k < 34 ==> #[trigger] a[k] <= b[k]
}

/// A run: three consecutive ranks of one numbered suit.
pub open spec fn is_run(m: Mentsu) -> bool {
    &&& m.mentsu_type == MentsuType::TYPE_SHUNTSU
    &&& m.pai_len == 3
    &&& m.pai_list@[0].pai_num + 2 < 27
    &&& m.pai_list@[0].pai_num % 9 < 7
    &&& m.pai_list@[1].pai_num == m.pai_list@[0].pai_num + 1
    &&& m.pai_list@[2].pai_num == m.pai_list@[0].pai_num + 2
}

/// A triplet: three identical tiles.
pub open spec fn is_triplet(m: Mentsu) -> bool {
    &&& m.mentsu_type == MentsuType::TYPE_KOUTSU
    &&& m.pai_len == 3
    &&& m.pai_list@[0].pai_num < 34
    &&& m.pai_list@[1].pai_num == m.pai_list@[0].pai_num
    &&& m.pai_list@[2].pai_num == m.pai_list@[0].pai_num
}

/// The pair (head): two identical tiles.
pub open spec fn is_pair(m: Mentsu) -> bool {
    &&& m.mentsu_type == MentsuType::TYPE_ATAMA
    &&& m.pai_len == 2
    &&& m.pai_list@[0].pai_num < 34
    &&& m.pai_list@[1].pai_num == m.pai_list@[0].pai_num
}

/// A concealed meld the enumerator may emit: a run or a triplet.
pub open spec fn is_meld(m: Mentsu) -> bool {
    is_run(m) || is_triplet(m)
}

proof fn lemma_contrib_concat(a: Seq<Mentsu>, b: Seq<Mentsu>)
    ensures
        tiles_vec(a + b) =~= vec_add(tiles_vec(a), tiles_vec(b)),
    decreases a.len(),
{
    if a.len() == 0 {
        assert(a + b =~= b);
    } else {
        lemma_contrib_concat(a.drop_first(), b);
        assert((a + b).drop_first() =~= a.drop_first() + b);
    }
}

/// Adding a meld in front adds its tiles to the contribution.
pub proof fn lemma_contrib_prepend(m: Mentsu, rest: Seq<Mentsu>)
    ensures
        tiles_vec(seq![m] + rest) =~= vec_add(meld_vec(m), tiles_vec(rest)),
{
    assert((seq![m] + rest)[0] == m);
    assert((seq![m] + rest).drop_first() =~= rest);
}

/// Concatenating meld lists adds their contributions.
pub proof fn lemma_contrib_append(a: Seq<Mentsu>, b: Seq<Mentsu>)
    ensures
        tiles_vec(a + b) =~= vec_add(tiles_vec(a), tiles_vec(b)),
{
    lemma_contrib_concat(a, b);
}

/// Appending a meld at the end adds its tiles to the contribution.
pub proof fn lemma_tiles_vec_snoc(ms: Seq<Mentsu>, m: Mentsu)
    ensures
        tiles_vec(ms.push(m)) =~= vec_add(tiles_vec(ms), meld_vec(m)),
{
    lemma_contrib_concat(ms, seq![m]);
    assert(ms.push(m) =~= ms + seq![m]);
    lemma_contrib_prepend(m, Seq::<Mentsu>::empty());
    assert(seq![m] + Seq::<Mentsu>::empty() =~= seq![m]);
}

/// Copies every meld of `src` to the end of `dst`.
pub fn append_all(dst: &mut Vec<Mentsu>, src: &Vec<Mentsu>)
    ensures
        final(dst)@ == old(dst)@ + src@,
{
    let n = src.len();
    for j in 0..n
        invariant
            n == src@.len(),
            dst@ =~= old(dst)@ + src@.take(j as int),
    {
        dst.push(src[j]);
        proof {
            assert(dst@ =~= old(dst)@ + src@.take(j + 1));
        }
    }
    proof {
        assert(old(dst)@ + src@.take(n as int) =~= old(dst)@ + src@);
    }
}

/// The meld lists a list of vectors holds, as plain sequences.
pub open spec fn views_of(r: Seq<Vec<Mentsu>>) -> Seq<Seq<Mentsu>> {
    Seq::new(r.len(), |i: int| r[i]@)
}

/// The run meld starting at kind `base`, as the enumerator emits it.
pub open spec fn spec_run_meld(base: int) -> Mentsu {
    Mentsu {
        pai_list: [
            MentsuPai { pai_num: base as u8, id: 0, flag: MentsuFlag::FLAG_NONE },
            MentsuPai { pai_num: (base + 1) as u8, id: 0, flag: MentsuFlag::FLAG_NONE },
            MentsuPai { pai_num: (base + 2) as u8, id: 0, flag: MentsuFlag::FLAG_NONE },
            MentsuPai { pai_num: 0, id: 0, flag: MentsuFlag::FLAG_NONE },
        ],
        pai_len: 3,
        mentsu_type: MentsuType::TYPE_SHUNTSU,
    }
}

/// The triplet meld of kind `kind`, as the enumerator emits it.
pub open spec fn spec_triplet_meld(kind: int) -> Mentsu {
    Mentsu {
        pai_list: [
            MentsuPai { pai_num: kind as u8, id: 0, flag: MentsuFlag::FLAG_NONE },
            MentsuPai { pai_num: kind as u8, id: 0, flag: MentsuFlag::FLAG_NONE },
            MentsuPai { pai_num: kind as u8, id: 0, flag: MentsuFlag::FLAG_NONE },
            MentsuPai { pai_num: 0, id: 0, flag: MentsuFlag::FLAG_NONE },
        ],
        pai_len: 3,
        mentsu_type: MentsuType::TYPE_KOUTSU,
    }
}

/// The pair of kind `kind`, as the enumerator emits it.
pub open spec fn spec_pair_meld(kind: int) -> Mentsu {
    Mentsu {
        pai_list: [
            MentsuPai { pai_num: kind as u8, id: 0, flag: MentsuFlag::FLAG_NONE },
            MentsuPai { pai_num: kind as u8, id: 0, flag: MentsuFlag::FLAG_NONE },
            MentsuPai { pai_num: 0, id: 0, flag: MentsuFlag::FLAG_NONE },
            MentsuPai { pai_num: 0, id: 0, flag: MentsuFlag::FLAG_NONE },
        ],
        pai_len: 2,
        mentsu_type: MentsuType::TYPE_ATAMA,
    }
}

/// Each meld of the list in front of every option of a list of options.
pub open spec fn prepend_each(m: Mentsu, opts: Seq<Seq<Mentsu>>) -> Seq<Seq<Mentsu>> {
    Seq::new(opts.len(), |i: int| seq![m] + opts[i])
}

/// Melds that agree on slots, used length and shape except for the slot
/// flags hold the same tiles.
pub proof fn lemma_meld_vec_same_kinds(m1: Mentsu, m2: Mentsu)
    requires
        m1.pai_len == m2.pai_len,
        m1.pai_len <= 4,
        forall|t: int| 0 <= t < 4 ==> m1.pai_list@[t].pai_num == m2.pai_list@[t].pai_num,
    ensures
        meld_vec(m1) =~= meld_vec(m2),
{
    assert forall|k: int| 0 <= k < 34 implies count_in(m1.pai_list@.take(m1.pai_len as int), k)
        == count_in(m2.pai_list@.take(m2.pai_len as int), k) by {
        lemma_count_in_kinds(
            m1.pai_list@.take(m1.pai_len as int),
            m2.pai_list@.take(m2.pai_len as int),
            k,
        );
    }
}

proof fn lemma_count_in_kinds(l1: Seq<MentsuPai>, l2: Seq<MentsuPai>, k: int)
    requires
        l1.len() == l2.len(),
        forall|t: int| 0 <= t < l1.len() ==> l1[t].pai_num == l2[t].pai_num,
    ensures
        count_in(l1, k) == count_in(l2, k),
    decreases l1.len(),
{
    if l1.len() > 0 {
        lemma_count_in_kinds(l1.drop_last(), l2.drop_last(), k);
    }
}

/// Concatenating two meld lists keeps every element a run or triplet.
pub proof fn lemma_all_melds_concat(a: Seq<Mentsu>, b: Seq<Mentsu>)
    requires
        all_melds(a),
        all_melds(b),
    ensures
        all_melds(a + b),
{
    assert forall|j: int| 0 <= j < (a + b).len() implies is_meld((a + b)[j]) by {
        if j < a.len() {
            assert((a + b)[j] == a[j]);
        } else {
            assert((a + b)[j] == b[j - a.len()]);
        }
    }
}

/// The 34-entry vector holding a single tile of kind `j`.
pub open spec fn unit(j: int) -> Seq<int> {
    Seq::new(34, |k: int| if k == j {
        1int
    } else {
        0int
    })
}

proof fn lemma_psum_unit_upto(j: int, n: int)
    requires
        0 <= n <= 34,
    ensures
        psum(unit(j), n) == if 0 <= j < n {
            1int
        } else {
            0int
        },
    decreases n,
{
    if n > 0 {
        lemma_psum_unit_upto(j, n - 1);
    }
}

/// A single tile sums to one.
pub proof fn lemma_psum_unit(j: int)
    requires
        0 <= j < 34,
    ensures
        psum(unit(j), 34) == 1,
{
    lemma_psum_unit_upto(j, 34);
}

/// Summing a pointwise sum of vectors adds their sums.
pub proof fn lemma_psum_add(a: Seq<int>, b: Seq<int>, n: int)
    requires
        0 <= n <= 34,
    ensures
        psum(vec_add(a, b), n) == psum(a, n) + psum(b, n),
    decreases n,
{
    if n > 0 {
        lemma_psum_add(a, b, n - 1);
    }
}

proof fn lemma_count_in3(l: Seq<MentsuPai>, k: int)
    requires
        l.len() == 3,
    ensures
        count_in(l, k) == (if l[0].pai_num == k {
            1int
        } else {
            0int
        }) + (if l[1].pai_num == k {
            1int
        } else {
            0int
        }) + (if l[2].pai_num == k {
            1int
        } else {
            0int
        }),
{
    let l2 = l.drop_last();
    let l1 = l2.drop_last();
    let l0 = l1.drop_last();
    assert(count_in(l0, k) == 0);
    assert(count_in(l1, k) == count_in(l0, k) + if l1.last().pai_num == k {
        1int
    } else {
        0int
    });
    assert(count_in(l2, k) == count_in(l1, k) + if l2.last().pai_num == k {
        1int
    } else {
        0int
    });
}

proof fn lemma_count_in2(l: Seq<MentsuPai>, k: int)
    requires
        l.len() == 2,
    ensures
        count_in(l, k) == (if l[0].pai_num == k {
            1int
        } else {
            0int
        }) + (if l[1].pai_num == k {
            1int
        } else {
            0int
        }),
{
    let l1 = l.drop_last();
    let l0 = l1.drop_last();
    assert(count_in(l0, k) == 0);
    assert(count_in(l1, k) == count_in(l0, k) + if l1.last().pai_num == k {
        1int
    } else {
        0int
    });
}

/// A run holds one tile each of its three consecutive kinds.
pub proof fn lemma_run_vec(m: Mentsu)
    requires
        is_run(m),
    ensures
        ({
            let b = m.pai_list@[0].pai_num as int;
            &&& meld_vec(m) =~= vec_add(vec_add(unit(b), unit(b + 1)), unit(b + 2))
            &&& psum(meld_vec(m), 34) == 3
        }),
{
    let b = m.pai_list@[0].pai_num as int;
    let l = m.pai_list@.take(3);
    assert forall|k: int| true implies count_in(l, k) == (if k == b {
        1int
    } else {
        0int
    }) + (if k == b + 1 {
        1int
    } else {
        0int
    }) + (if k == b + 2 {
        1int
    } else {
        0int
    }) by {
        lemma_count_in3(l, k);
    }
    assert(meld_vec(m) =~= vec_add(vec_add(unit(b), unit(b + 1)), unit(b + 2)));
    lemma_psum_add(vec_add(unit(b), unit(b + 1)), unit(b + 2), 34);
    lemma_psum_add(unit(b), unit(b + 1), 34);
    lemma_psum_unit(b);
    lemma_psum_unit(b + 1);
    lemma_psum_unit(b + 2);
}

/// A triplet holds three tiles of its kind.
pub proof fn lemma_triplet_vec(m: Mentsu)
    requires
        is_triplet(m),
    ensures
        ({
            let b = m.pai_list@[0].pai_num as int;
            &&& meld_vec(m) =~= vec_add(vec_add(unit(b), unit(b)), unit(b))
            &&& psum(meld_vec(m), 34) == 3
        }),
{
    let b = m.pai_list@[0].pai_num as int;
    let l = m.pai_list@.take(3);
    assert forall|k: int| true implies count_in(l, k) == (if k == b {
        3int
    } else {
        0int
    }) by {
        lemma_count_in3(l, k);
    }
    assert(meld_vec(m) =~= vec_add(vec_add(unit(b), unit(b)), unit(b)));
    lemma_psum_add(vec_add(unit(b), unit(b)), unit(b), 34);
    lemma_psum_add(unit(b), unit(b), 34);
    lemma_psum_unit(b);
}

/// A pair holds two tiles of its kind.
pub proof fn lemma_pair_vec(m: Mentsu)
    requires
        is_pair(m),
    ensures
        ({
            let b = m.pai_list@[0].pai_num as int;
            &&& meld_vec(m) =~= vec_add(unit(b), unit(b))
            &&& psum(meld_vec(m), 34) == 2
        }),
{
    let b = m.pai_list@[0].pai_num as int;
    let l = m.pai_list@.take(2);
    assert forall|k: int| true implies count_in(l, k) == (if k == b {
        2int
    } else {
        0int
    }) by {
        lemma_count_in2(l, k);
    }
    assert(meld_vec(m) =~= vec_add(unit(b), unit(b)));
    lemma_psum_add(unit(b), unit(b), 34);
    lemma_psum_unit(b);
}

/// Every meld of the list is a run or a triplet.
pub open spec fn all_melds(d: Seq<Mentsu>) -> bool {
    forall|j: int| 0 <= j < d.len() ==> is_meld(#[trigger] d[j])
}

/// A list of runs and triplets holds exactly three tiles per meld.
pub proof fn lemma_melds_total(d: Seq<Mentsu>)
    requires
        all_melds(d),
    ensures
        psum(tiles_vec(d), 34) == 3 * d.len(),
        forall|k: int| 0 <= k < 34 ==> 0 <= #[trigger] tiles_vec(d)[k],
    decreases d.len(),
{
    if d.len() == 0 {
        assert(psum(zero_counts(), 34) == 0) by {
            lemma_psum_unit_upto(34, 34);
            assert(zero_counts() =~= unit(34));
        }
    } else {
        assert(all_melds(d.drop_first()));
        lemma_melds_total(d.drop_first());
        lemma_psum_add(meld_vec(d[0]), tiles_vec(d.drop_first()), 34);
        if is_run(d[0]) {
            lemma_run_vec(d[0]);
        } else {
            lemma_triplet_vec(d[0]);
        }
    }
}

pub proof fn lemma_psum_le(a: Seq<int>, b: Seq<int>, n: int)
    requires
        0 <= n <= 34,
        leq34(a, b),
    ensures
        psum(a, n) <= psum(b, n),
    decreases n,
{
    if n > 0 {
        lemma_psum_le(a, b, n - 1);
    }
}

proof fn lemma_psum_gap(a: Seq<int>, b: Seq<int>, k: int, n: int)
    requires
        0 <= k < n <= 34,
        leq34(a, b),
    ensures
        psum(b, n) - psum(a, n) >= b[k] - a[k],
    decreases n,
{
    if k == n - 1 {
        lemma_psum_le(a, b, n - 1);
    } else {
        lemma_psum_gap(a, b, k, n - 1);
    }
}

/// A pointwise-bounded vector with the same total is pointwise equal.
pub proof fn lemma_leq_same_sum(a: Seq<int>, b: Seq<int>)
    requires
        leq34(a, b),
        psum(a, 34) == psum(b, 34),
    ensures
        forall|k: int| 0 <= k < 34 ==> #[trigger] a[k] == b[k],
{
    assert forall|k: int| 0 <= k < 34 implies a[k] == b[k] by {
        lemma_psum_gap(a, b, k, 34);
    }
}

} // verus!
