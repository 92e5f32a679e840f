//! Tile identity. A tile kind is an integer in `[0, 34)`: kinds 0-8 are the
//! first numbered suit, 9-17 the second, 18-26 the third, and 27-33 the seven
//! honor kinds. Each kind exists in four physical copies told apart by a copy
//! id in `[0, 4)` that never influences rule logic.

use vstd::prelude::*;

verus! {

/// Number of distinct tile kinds.
pub const PAI_KINDS: u8 = 34;

/// A tile in its compact form, as it sits in the wall.
#[derive(Clone, Copy, Debug, PartialEq, Eq, Structural)]
pub struct Pai {
    pub pai_num: u8,
    pub id: u8,
    pub is_tsumogiri: bool,
    pub is_riichi: bool,
    pub is_nakare: bool,
}

/// A tile in its unpacked working form; same content as [`Pai`].
#[derive(Clone, Copy, Debug, PartialEq, Eq, Structural)]
pub struct PaiT {
    pub pai_num: u8,
    pub id: u8,
    pub is_tsumogiri: bool,
    pub is_riichi: bool,
    pub is_nakare: bool,
}

impl Pai {
    pub fn new(pai_num: u8, id: u8, is_tsumogiri: bool, is_riichi: bool, is_nakare: bool) -> (r:
        Pai)
        ensures
            r == (Pai { pai_num, id, is_tsumogiri, is_riichi, is_nakare }),
    {
        Pai { pai_num, id, is_tsumogiri, is_riichi, is_nakare }
    }

    /// The unpacked form of this tile.
    pub fn unpack(&self) -> (r: PaiT)
        ensures
            r == self.view(),
    {
        PaiT {
            pai_num: self.pai_num,
            id: self.id,
            is_tsumogiri: self.is_tsumogiri,
            is_riichi: self.is_riichi,
            is_nakare: self.is_nakare,
        }
    }
}

impl View for Pai {
    type V = PaiT;

    open spec fn view(&self) -> PaiT {
        PaiT {
            pai_num: self.pai_num,
            id: self.id,
            is_tsumogiri: self.is_tsumogiri,
            is_riichi: self.is_riichi,
            is_nakare: self.is_nakare,
        }
    }
}

impl Default for PaiT {
    fn default() -> (r: Self)
        ensures
            r == (PaiT {
                pai_num: 0,
                id: 0,
                is_tsumogiri: false,
                is_riichi: false,
                is_nakare: false,
            }),
    {
        PaiT { pai_num: 0, id: 0, is_tsumogiri: false, is_riichi: false, is_nakare: false }
    }
}

impl PaiT {
    /// The compact form of this tile.
    pub fn pack(&self) -> (r: Pai)
        ensures
            r@ == *self,
    {
        Pai {
            pai_num: self.pai_num,
            id: self.id,
            is_tsumogiri: self.is_tsumogiri,
            is_riichi: self.is_riichi,
            is_nakare: self.is_nakare,
        }
    }

    /// A dense identifier unique per physical tile: four ids per kind.
    pub fn get_pai_id(&self) -> (r: u32)
        ensures
            r == self.pai_num * 4 + self.id,
    {
        (self.pai_num as u32) * 4 + self.id as u32
    }

    /// Whether the kind and copy id are inside the fixed deck's ranges.
    pub fn is_valid(&self) -> (r: bool)
        ensures
            r == (self.pai_num < PAI_KINDS && self.id < 4),
    {
        let num = self.pai_num;
        let id = self.id;
        if id >= 4 {
            return false;
        }
        if num >= PAI_KINDS {
            return false;
        }
        true
    }
}

impl PartialOrd for PaiT {
    fn partial_cmp(&self, other: &Self) -> (r: Option<core::cmp::Ordering>) {
        if self.pai_num < other.pai_num {
            Some(core::cmp::Ordering::Less)
        } else if self.pai_num > other.pai_num {
            Some(core::cmp::Ordering::Greater)
        } else if self.id < other.id {
            Some(core::cmp::Ordering::Less)
        } else if self.id > other.id {
            Some(core::cmp::Ordering::Greater)
        } else {
            None
        }
    }
}

impl vstd::std_specs::cmp::PartialOrdSpecImpl for PaiT {
    open spec fn obeys_partial_cmp_spec() -> bool {
        true
    }

    /// Tiles order by kind, then by copy id; two identical tiles compare to
    /// no ordering at all.
    open spec fn partial_cmp_spec(&self, other: &Self) -> Option<core::cmp::Ordering> {
        if self.pai_num < other.pai_num {
            Some(core::cmp::Ordering::Less)
        } else if self.pai_num > other.pai_num {
            Some(core::cmp::Ordering::Greater)
        } else if self.id < other.id {
            Some(core::cmp::Ordering::Less)
        } else if self.id > other.id {
            Some(core::cmp::Ordering::Greater)
        } else {
            None
        }
    }
}

/// The sort key of a tile: its dense per-copy identifier.
pub open spec fn pai_key(p: PaiT) -> int {
    p.pai_num * 4 + p.id
}

/// The tiles are in nondecreasing key order.
pub open spec fn sorted_pais(s: Seq<PaiT>) -> bool {
    forall|i: int, j: int| 0 <= i < j < s.len() ==> pai_key(#[trigger] s[i]) <= pai_key(
        #[trigger] s[j],
    )
}

/// Sorts tiles by kind, then copy id; the tiles themselves are only
/// rearranged.
pub fn sort_pais(v: &mut Vec<PaiT>)
    ensures
        sorted_pais(final(v)@),
        final(v)@.to_multiset() == old(v)@.to_multiset(),
        final(v)@.len() == old(v)@.len(),
{
    broadcast use vstd::seq_lib::group_to_multiset_ensures;

    let mut out: Vec<PaiT> = Vec::new();
    while v.len() > 0
        invariant
            out@.to_multiset().add(v@.to_multiset()) =~= old(v)@.to_multiset(),
            out@.len() + v@.len() == old(v)@.len(),
            sorted_pais(out@),
            forall|i: int, j: int|
                0 <= i < out@.len() && 0 <= j < v@.len() ==> pai_key(#[trigger] out@[i]) <= pai_key(
                    #[trigger] v@[j],
                ),
        decreases v@.len(),
    {
        // Pick the smallest remaining tile.
        let mut mi: usize = 0;
        let n = v.len();
        for c in 1..n
            invariant
                n == v@.len(),
                mi < c <= n,
                forall|j: int|
                    0 <= j < c ==> pai_key(v@[mi as int]) <= pai_key(#[trigger] v@[j]),
        {
            let a = &v[c];
            let b = &v[mi];
            if (a.pai_num as u32) * 4 + (a.id as u32) < (b.pai_num as u32) * 4 + (b.id as u32) {
                mi = c;
            }
        }
        let ghost vb = v@;
        let ghost ob = out@;
        let t = v.remove(mi);
        out.push(t);
        proof {
            vb.to_multiset_ensures();
            ob.to_multiset_ensures();
            assert(v@ == vb.remove(mi as int));
            assert(vb.remove(mi as int).to_multiset() =~= vb.to_multiset().remove(
                vb[mi as int],
            ));
            assert(out@ == ob.push(t));
            assert(ob.push(t).to_multiset() =~= ob.to_multiset().insert(t));
            assert(v@.to_multiset() =~= vb.to_multiset().remove(t));
            assert(out@.to_multiset() =~= ob.to_multiset().insert(t));
            assert(vb.to_multiset().count(t) >= 1) by {
                assert(vb[mi as int] == t);
                assert(vb.contains(t));
            }
            assert(out@.to_multiset().add(v@.to_multiset()) =~= ob.to_multiset().add(
                vb.to_multiset(),
            ));
            assert(forall|j: int|
                0 <= j < v@.len() ==> #[trigger] v@[j] == vb[j] || v@[j] == vb[j + 1]);
        }
    }
    *v = out;
}

/// Checks a tile list at ingestion: every tile must be inside the fixed
/// deck's ranges; an out-of-range tile is rejected, never silently clamped.
pub fn validate_pais(pais: &[PaiT]) -> (r: Result<(), crate::CoreError>)
    ensures
        r is Ok <==> (forall|i: int|
            0 <= i < pais@.len() ==> (#[trigger] pais@[i]).pai_num < PAI_KINDS && pais@[i].id < 4),
{
    let n = pais.len();
    for i in 0..n
        invariant
            n == pais@.len(),
            forall|q: int|
                0 <= q < i ==> (#[trigger] pais@[q]).pai_num < PAI_KINDS && pais@[q].id < 4,
    {
        if !pais[i].is_valid() {
            return Err(crate::CoreError::InvalidTile);
        }
    }
    Ok(())
}

/// A fixed 256-byte string buffer in eight 32-byte banks.
#[derive(Clone, Copy, Debug)]
pub struct FixedStringT {
    pub n1: [u8; 32],
    pub n2: [u8; 32],
    pub n3: [u8; 32],
    pub n4: [u8; 32],
    pub n5: [u8; 32],
    pub n6: [u8; 32],
    pub n7: [u8; 32],
    pub n8: [u8; 32],
}

impl Default for FixedStringT {
    fn default() -> (r: Self)
        ensures
            forall|i: int| 0 <= i < 32 ==> r.n1@[i] == 0 && r.n2@[i] == 0 && r.n3@[i] == 0
                && r.n4@[i] == 0 && r.n5@[i] == 0 && r.n6@[i] == 0 && r.n7@[i] == 0 && r.n8@[i]
                == 0,
    {
        FixedStringT {
            n1: [0; 32],
            n2: [0; 32],
            n3: [0; 32],
            n4: [0; 32],
            n5: [0; 32],
            n6: [0; 32],
            n7: [0; 32],
            n8: [0; 32],
        }
    }
}

/// Copies as much of `src` as fits into `dst`, leaving the rest of `dst`
/// unchanged.
pub fn copy_slice_partial(dst: &mut [u8; 32], src: &[u8])
    ensures
        forall|i: int|
            0 <= i < 32 ==> final(dst)@[i] == if i < src@.len() {
                src@[i]
            } else {
                old(dst)@[i]
            },
{
    let min_len = if src.len() < 32 {
        src.len()
    } else {
        32
    };
    for i in 0..min_len
        invariant
            min_len <= src@.len(),
            min_len <= 32,
            forall|q: int|
                0 <= q < 32 ==> dst@[q] == if q < i {
                    src@[q]
                } else {
                    old(dst)@[q]
                },
    {
        dst[i] = src[i];
    }
}

impl FixedStringT {
    /// The first 32-byte bank of the bytes from `offset` on, zero padded.
    fn bank_from(src: &[u8], offset: usize) -> (r: [u8; 32])
        requires
            offset <= 128,
        ensures
            forall|i: int|
                0 <= i < 32 ==> r@[i] == if offset + i < src@.len() {
                    src@[offset + i]
                } else {
                    0u8
                },
    {
        let mut bank: [u8; 32] = [0; 32];
        let mut i: usize = 0;
        while i < 32
            invariant
                i <= 32,
                offset <= 128,
                forall|q: int|
                    0 <= q < 32 ==> bank@[q] == if q < i && offset + q < src@.len() {
                        src@[offset + q]
                    } else {
                        0u8
                    },
            decreases 32 - i,
        {
            if offset + i < src.len() {
                bank[i] = src[offset + i];
            }
            i = i + 1;
        }
        bank
    }

    /// Fills the buffer from a byte string. At most the first 128 bytes are
    /// kept: a string that fills the first four banks ends there.
    pub fn from(src: &[u8]) -> (r: Self)
        ensures
            forall|i: int|
                0 <= i < 128 ==> r.bytes()[i] == if i < src@.len() {
                    src@[i]
                } else {
                    0u8
                },
            forall|i: int| 128 <= i < 256 ==> r.bytes()[i] == 0u8,
    {
        let mut s = FixedStringT::default();
        s.n1 = Self::bank_from(src, 0);
        if src.len() > 32 {
            s.n2 = Self::bank_from(src, 32);
        }
        if src.len() > 64 {
            s.n3 = Self::bank_from(src, 64);
        }
        if src.len() > 96 {
            s.n4 = Self::bank_from(src, 96);
        }
        proof {
            assert(forall|i: int| 0 <= i < 256 ==> s.bytes()[i] == s.bytes()[i]);
        }
        s
    }

    /// All 256 bytes of the buffer in order.
    pub open spec fn bytes(&self) -> Seq<u8> {
        self.n1@ + self.n2@ + self.n3@ + self.n4@ + self.n5@ + self.n6@ + self.n7@ + self.n8@
    }

    /// The buffer's bytes as one owned vector.
    pub fn into_bytes(self) -> (r: Vec<u8>)
        ensures
            r@ == self.bytes(),
    {
        let mut t: Vec<u8> = Vec::new();
        let banks: [[u8; 32]; 8] = [
            self.n1,
            self.n2,
            self.n3,
            self.n4,
            self.n5,
            self.n6,
            self.n7,
            self.n8,
        ];
        for b in 0..8usize
            invariant
                banks@.len() == 8,
                banks@[0] == self.n1 && banks@[1] == self.n2 && banks@[2] == self.n3 && banks@[3]
                    == self.n4 && banks@[4] == self.n5 && banks@[5] == self.n6 && banks@[6]
                    == self.n7 && banks@[7] == self.n8,
                t@.len() == 32 * b,
                forall|i: int| 0 <= i < t@.len() ==> t@[i] == self.bytes()[i],
        {
            let bank = &banks[b];
            for i in 0..32usize
                invariant
                    banks@.len() == 8,
                    b < 8,
                    bank == banks@[b as int],
                    banks@[0] == self.n1 && banks@[1] == self.n2 && banks@[2] == self.n3
                        && banks@[3] == self.n4 && banks@[4] == self.n5 && banks@[5] == self.n6
                        && banks@[6] == self.n7 && banks@[7] == self.n8,
                    t@.len() == 32 * b + i,
                    forall|q: int| 0 <= q < t@.len() ==> t@[q] == self.bytes()[q],
            {
                t.push(bank[i]);
                proof {
                    assert(self.bytes()[32 * b + i] == bank@[i as int]);
                }
            }
        }
        t
    }
}

} // verus!
