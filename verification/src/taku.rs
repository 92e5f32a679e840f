//! The table's wall: the fixed 136-tile deck, loading a recorded wall,
//! shuffling a fresh one, and reading tiles and ranges out of it.

use vstd::prelude::*;

use rand::seq::SliceRandom;

use crate::tile::PaiT;
use crate::CoreError;

verus! {

/// The full deck in kind order: four copies of each of the 34 kinds, the
/// copies numbered 1 to 4.
pub open spec fn full_deck() -> Seq<PaiT> {
    Seq::new(
        136,
        |i: int|
            PaiT {
                pai_num: (i / 4) as u8,
                id: (i % 4 + 1) as u8,
                is_tsumogiri: false,
                is_riichi: false,
                is_nakare: false,
            },
    )
}

/// The wall: 136 tile slots in draw order.
#[derive(Clone, Copy, Debug)]
pub struct TakuT {
    pub n1: [PaiT; 32],
    pub n2: [PaiT; 32],
    pub n3: [PaiT; 32],
    pub n4: [PaiT; 32],
    pub n5: [PaiT; 8],
    pub length: u32,
}

/// Operations every wall representation offers.
pub trait TakuControl: Sized {
    /// All tiles of the wall in draw order.
    spec fn pais(&self) -> Seq<PaiT>;

    /// How many slots of the wall are filled.
    spec fn spec_length(&self) -> int;

    /// Builds a wall from recorded tile identifiers: each is four times the
    /// kind plus the copy id.
    fn load(list: &[u32]) -> (r: Self)
        requires
            list@.len() == 136,
            forall|i: int| 0 <= i < 136 ==> #[trigger] list@[i] < 1024,
        ensures
            r.pais().len() == 136,
            r.spec_length() == 136,
            forall|i: int|
                0 <= i < 136 ==> (#[trigger] r.pais()[i]).pai_num == list@[i] / 4
                    && r.pais()[i].id == list@[i] % 4 && !r.pais()[i].is_tsumogiri
                    && !r.pais()[i].is_riichi && !r.pais()[i].is_nakare,
    ;

    /// Builds a freshly shuffled wall: a permutation of the full deck.
    fn create_shuffled() -> (r: Self)
        ensures
            r.pais().len() == 136,
            r.spec_length() == 136,
            r.pais().to_multiset() == full_deck().to_multiset(),
    ;

    /// The position of the first slot holding exactly the given tile.
    fn search(&self, target: &PaiT) -> (r: Result<usize, CoreError>)
        ensures
            match r {
                Ok(i) => 0 <= i < self.pais().len() && self.pais()[i as int] == *target && (forall|
                    j: int,
                |
                    0 <= j < i ==> self.pais()[j] != *target),
                Err(e) => e == CoreError::NotFound && (forall|j: int|
                    0 <= j < self.pais().len() ==> self.pais()[j] != *target),
            },
    ;

    /// The tile in the given slot.
    fn get(&self, index: usize) -> (r: Result<PaiT, CoreError>)
        ensures
            index < 136 ==> r == Ok::<PaiT, CoreError>(self.pais()[index as int]),
            index >= 136 ==> r == Err::<PaiT, CoreError>(CoreError::IndexOutOfRange),
    ;

    /// The tiles of the given range of slots; the range must end before the
    /// wall's filled length.
    fn get_range(&self, r: core::ops::Range<usize>) -> (res: Result<Vec<PaiT>, CoreError>)
        requires
            r.start <= r.end,
            self.spec_length() <= 136,
        ensures
            match res {
                Ok(v) => r.end < self.spec_length() && v@ == self.pais().subrange(
                    r.start as int,
                    r.end as int,
                ),
                Err(e) => e == CoreError::IndexOutOfRange && r.end >= self.spec_length(),
            },
    ;
}

/// Relies on rand's `SliceRandom::shuffle`: an in-place permutation of the
/// slice, uniformly chosen; the tiles are rearranged and none is added or
/// lost, whatever the randomness.
#[verifier::external_body]
fn shuffle_pais(v: &mut Vec<PaiT>)
    ensures
        final(v)@.to_multiset() == old(v)@.to_multiset(),
        final(v)@.len() == old(v)@.len(),
{
    let mut rng = rand::rng();
    v.shuffle(&mut rng);
}

impl TakuT {
    /// The tile in slot `index`, read across the five banks.
    fn tile_at(&self, index: usize) -> (r: PaiT)
        requires
            index < 136,
        ensures
            r == self.pais()[index as int],
    {
        if index < 32 {
            self.n1[index]
        } else if index < 64 {
            self.n2[index - 32]
        } else if index < 96 {
            self.n3[index - 64]
        } else if index < 128 {
            self.n4[index - 96]
        } else {
            self.n5[index - 128]
        }
    }

    /// Fills the banks from 136 tiles in draw order.
    fn from_pais(v: &Vec<PaiT>) -> (r: TakuT)
        requires
            v@.len() == 136,
        ensures
            r.pais() == v@,
            r.length == 136,
    {
        let filler = PaiT::default();
        let mut n1: [PaiT; 32] = [filler; 32];
        let mut n2: [PaiT; 32] = [filler; 32];
        let mut n3: [PaiT; 32] = [filler; 32];
        let mut n4: [PaiT; 32] = [filler; 32];
        let mut n5: [PaiT; 8] = [filler; 8];
        for i in 0..32usize
            invariant
                v@.len() == 136,
                forall|q: int| 0 <= q < i ==> n1@[q] == v@[q],
        {
            n1[i] = v[i];
        }
        for i in 0..32usize
            invariant
                v@.len() == 136,
                forall|q: int| 0 <= q < 32 ==> n1@[q] == v@[q],
                forall|q: int| 0 <= q < i ==> n2@[q] == v@[q + 32],
        {
            n2[i] = v[i + 32];
        }
        for i in 0..32usize
            invariant
                v@.len() == 136,
                forall|q: int| 0 <= q < 32 ==> n1@[q] == v@[q],
                forall|q: int| 0 <= q < 32 ==> n2@[q] == v@[q + 32],
                forall|q: int| 0 <= q < i ==> n3@[q] == v@[q + 64],
        {
            n3[i] = v[i + 64];
        }
        for i in 0..32usize
            invariant
                v@.len() == 136,
                forall|q: int| 0 <= q < 32 ==> n1@[q] == v@[q],
                forall|q: int| 0 <= q < 32 ==> n2@[q] == v@[q + 32],
                forall|q: int| 0 <= q < 32 ==> n3@[q] == v@[q + 64],
                forall|q: int| 0 <= q < i ==> n4@[q] == v@[q + 96],
        {
            n4[i] = v[i + 96];
        }
        for i in 0..8usize
            invariant
                v@.len() == 136,
                forall|q: int| 0 <= q < 32 ==> n1@[q] == v@[q],
                forall|q: int| 0 <= q < 32 ==> n2@[q] == v@[q + 32],
                forall|q: int| 0 <= q < 32 ==> n3@[q] == v@[q + 64],
                forall|q: int| 0 <= q < 32 ==> n4@[q] == v@[q + 96],
                forall|q: int| 0 <= q < i ==> n5@[q] == v@[q + 128],
        {
            n5[i] = v[i + 128];
        }
        let r = TakuT { n1, n2, n3, n4, n5, length: 136 };
        proof {
            assert(r.pais() =~= v@);
        }
        r
    }
}

impl TakuControl for TakuT {
    open spec fn pais(&self) -> Seq<PaiT> {
        self.n1@ + self.n2@ + self.n3@ + self.n4@ + self.n5@
    }

    open spec fn spec_length(&self) -> int {
        self.length as int
    }

    fn load(list: &[u32]) -> (r: Self) {
        let mut v: Vec<PaiT> = Vec::new();
        for i in 0..136usize
            invariant
                list@.len() == 136,
                forall|q: int| 0 <= q < 136 ==> #[trigger] list@[q] < 1024,
                v@.len() == i,
                forall|q: int|
                    0 <= q < i ==> (#[trigger] v@[q]).pai_num == list@[q] / 4 && v@[q].id == list@[q]
                        % 4 && !v@[q].is_tsumogiri && !v@[q].is_riichi && !v@[q].is_nakare,
        {
            let x = list[i];
            v.push(
                PaiT {
                    pai_num: (x / 4) as u8,
                    id: (x % 4) as u8,
                    is_tsumogiri: false,
                    is_riichi: false,
                    is_nakare: false,
                },
            );
        }
        Self::from_pais(&v)
    }

    fn create_shuffled() -> (r: Self) {
        let mut hai_array: Vec<PaiT> = Vec::new();
        for pai_num in 0..34u8
            invariant
                hai_array@.len() == 4 * pai_num,
                forall|q: int| 0 <= q < hai_array@.len() ==> #[trigger] hai_array@[q] == full_deck()[q],
        {
            let mut id: u8 = 1;
            while id <= 4
                invariant
                    1 <= id <= 5,
                    pai_num < 34,
                    hai_array@.len() == 4 * pai_num + id - 1,
                    forall|q: int|
                        0 <= q < hai_array@.len() ==> #[trigger] hai_array@[q] == full_deck()[q],
                decreases 5 - id,
            {
                hai_array.push(
                    PaiT {
                        pai_num,
                        id,
                        is_tsumogiri: false,
                        is_riichi: false,
                        is_nakare: false,
                    },
                );
                id = id + 1;
            }
        }
        proof {
            assert(hai_array@ =~= full_deck());
        }
        shuffle_pais(&mut hai_array);
        Self::from_pais(&hai_array)
    }

    fn search(&self, target: &PaiT) -> (r: Result<usize, CoreError>) {
        let mut idx: usize = 0;
        while idx < 136
            invariant
                idx <= 136,
                forall|j: int| 0 <= j < idx ==> self.pais()[j] != *target,
            decreases 136 - idx,
        {
            let t = self.tile_at(idx);
            if t == *target {
                return Ok(idx);
            }
            idx = idx + 1;
        }
        Err(CoreError::NotFound)
    }

    fn get(&self, index: usize) -> (r: Result<PaiT, CoreError>) {
        if index < 136 {
            Ok(self.tile_at(index))
        } else {
            Err(CoreError::IndexOutOfRange)
        }
    }

    fn get_range(&self, r: core::ops::Range<usize>) -> (res: Result<Vec<PaiT>, CoreError>) {
        if r.end >= self.length as usize {
            return Err(CoreError::IndexOutOfRange);
        }
        let mut v: Vec<PaiT> = Vec::new();
        let start = r.start;
        let end = r.end;
        for i in start..end
            invariant
                start <= i <= end,
                end < 136,
                v@ =~= self.pais().subrange(start as int, i as int),
        {
            v.push(self.tile_at(i));
            proof {
                assert(v@ =~= self.pais().subrange(start as int, i + 1));
            }
        }
        Ok(v)
    }
}

} // verus!
