//! Parsing of recorded hand strings: a hand is written as suit letters
//! followed by rank digits (`m`, `p`, `s`, `z`), and declared melds follow
//! after commas, with a call mark after the called tile.

use vstd::prelude::*;

use crate::mentsu::{Mentsu, MentsuFlag, MentsuPai, MentsuType};
use crate::tile::PaiT;

use vstd::string::StringSliceAdditionalSpecFns;

verus! {

/// A byte a hand string may hold: a suit letter or a rank digit.
pub open spec fn hand_byte_ok(b: u8) -> bool {
    b == 109 || b == 112 || b == 115 || b == 122 || (49 <= b <= 57)
}

/// The suit a letter selects, if any.
pub open spec fn suit_of_byte(b: u8) -> Option<int> {
    if b == 109 {
        Some(0int)
    } else if b == 112 {
        Some(1int)
    } else if b == 115 {
        Some(2int)
    } else if b == 122 {
        Some(3int)
    } else {
        None
    }
}

/// The parser state after the first `n` bytes: the current suit and the
/// tiles read so far.
pub open spec fn pais_state(s: Seq<u8>, n: int) -> (int, Seq<PaiT>)
    decreases n,
{
    if n <= 0 {
        (0int, Seq::empty())
    } else {
        let prev = pais_state(s, n - 1);
        let b = s[n - 1];
        match suit_of_byte(b) {
            Some(suit) => (suit, prev.1),
            None => (
                prev.0,
                prev.1.push(
                    PaiT {
                        pai_num: (prev.0 * 9 + (b - 49)) as u8,
                        id: 0,
                        is_tsumogiri: false,
                        is_riichi: false,
                        is_nakare: false,
                    },
                ),
            ),
        }
    }
}

/// The tiles a hand string denotes.
pub open spec fn spec_str_to_pais(s: Seq<u8>) -> Seq<PaiT> {
    pais_state(s, s.len() as int).1
}

/// Reads a hand string into tiles: a suit letter switches the suit, a digit
/// appends that rank of the current suit.
pub fn str_to_pais(input: &str) -> (r: Vec<PaiT>)
    requires
        forall|i: int| 0 <= i < input.spec_bytes().len() ==> hand_byte_ok(#[trigger] input.spec_bytes()[i]),
    ensures
        r@ == spec_str_to_pais(input.spec_bytes()),
{
    let ghost bs = input.spec_bytes();
    let bytes = input.as_bytes();
    let mut ret: Vec<PaiT> = Vec::new();
    let mut suit: u8 = 0;
    let n = bytes.len();
    for i in 0..n
        invariant
            n == bs.len(),
            bytes@ == bs,
            forall|q: int| 0 <= q < bs.len() ==> hand_byte_ok(#[trigger] bs[q]),
            suit <= 3,
            (suit as int, ret@) == pais_state(bs, i as int),
    {
        let b = bytes[i];
        if b == 109 {
            suit = 0;
        } else if b == 112 {
            suit = 1;
        } else if b == 115 {
            suit = 2;
        } else if b == 122 {
            suit = 3;
        } else {
            ret.push(
                PaiT {
                    pai_num: suit * 9 + (b - 49),
                    id: 0,
                    is_tsumogiri: false,
                    is_riichi: false,
                    is_nakare: false,
                },
            );
        }
    }
    ret
}

/// A byte a meld string may hold: a hand byte or a call mark.
pub open spec fn fulo_byte_ok(b: u8) -> bool {
    hand_byte_ok(b) || b == 45 || b == 61 || b == 43
}

/// The call mark a byte denotes, if any: taken from the left, across, or the
/// right.
pub open spec fn flag_of_byte(b: u8) -> Option<MentsuFlag> {
    if b == 45 {
        Some(MentsuFlag::FLAG_KAMICHA)
    } else if b == 61 {
        Some(MentsuFlag::FLAG_TOIMEN)
    } else if b == 43 {
        Some(MentsuFlag::FLAG_SIMOCHA)
    } else {
        None
    }
}

/// The meld parser state after the first `n` bytes: current suit, slots
/// filled, whether a call mark was seen, and the slots.
pub open spec fn fulo_state(s: Seq<u8>, n: int) -> (int, int, bool, Seq<MentsuPai>)
    decreases n,
{
    if n <= 0 {
        (0int, 0int, false, Seq::new(4, |i: int| MentsuPai { pai_num: 0, id: 0, flag: MentsuFlag::FLAG_NONE }))
    } else {
        let prev = fulo_state(s, n - 1);
        let b = s[n - 1];
        match suit_of_byte(b) {
            Some(suit) => (suit, prev.1, prev.2, prev.3),
            None => match flag_of_byte(b) {
                Some(flag) => (
                    prev.0,
                    prev.1,
                    true,
                    prev.3.update(prev.1 - 1, MentsuPai { flag, ..prev.3[prev.1 - 1] }),
                ),
                None => (
                    prev.0,
                    prev.1 + 1,
                    prev.2,
                    prev.3.update(
                        prev.1,
                        MentsuPai { pai_num: (prev.0 * 9 + (b - 49)) as u8, id: 0, flag: MentsuFlag::FLAG_NONE },
                    ),
                ),
            },
        }
    }
}

/// The meld a meld string denotes: four tiles make a quad (open when a call
/// mark is present), two equal leading tiles a triplet, anything else a run.
pub open spec fn spec_str_to_fulo(s: Seq<u8>) -> Mentsu {
    let st = fulo_state(s, s.len() as int);
    let mtype = if st.1 == 4 {
        if st.2 {
            MentsuType::TYPE_MINKAN
        } else {
            MentsuType::TYPE_ANKAN
        }
    } else if st.3[0].pai_num == st.3[1].pai_num {
        MentsuType::TYPE_KOUTSU
    } else {
        MentsuType::TYPE_SHUNTSU
    };
    Mentsu {
        pai_list: [st.3[0], st.3[1], st.3[2], st.3[3]],
        pai_len: st.1 as u8,
        mentsu_type: mtype,
    }
}

/// A meld string has a tile before any call mark and at most four tiles.
pub open spec fn fulo_counts_ok(s: Seq<u8>) -> bool {
    forall|n: int|
        0 <= n < s.len() ==> ((flag_of_byte(s[n]) is Some ==> (#[trigger] fulo_state(s, n)).1
            >= 1) && ((flag_of_byte(s[n]) is None && suit_of_byte(s[n]) is None) ==> fulo_state(
            s,
            n,
        ).1 < 4))
}

/// Reads one declared meld from its string form.
pub fn str_to_fulo(s: &str) -> (r: Mentsu)
    requires
        forall|i: int| 0 <= i < s.spec_bytes().len() ==> fulo_byte_ok(#[trigger] s.spec_bytes()[i]),
        fulo_counts_ok(s.spec_bytes()),
    ensures
        r == spec_str_to_fulo(s.spec_bytes()),
{
    let ghost bs = s.spec_bytes();
    let bytes = s.as_bytes();
    let mut pai_list: [MentsuPai; 4] = [MentsuPai { pai_num: 0, id: 0, flag: MentsuFlag::FLAG_NONE }; 4];
    let mut suit: u8 = 0;
    let mut index: usize = 0;
    let mut naki = false;
    proof {
        assert(pai_list@ =~= fulo_state(bs, 0).3);
    }
    let n = bytes.len();
    for i in 0..n
        invariant
            n == bs.len(),
            bytes@ == bs,
            forall|q: int| 0 <= q < bs.len() ==> fulo_byte_ok(#[trigger] bs[q]),
            fulo_counts_ok(bs),
            suit <= 3,
            index <= 4,
            (suit as int, index as int, naki, pai_list@) == fulo_state(bs, i as int),
    {
        let b = bytes[i];
        if b == 109 {
            suit = 0;
        } else if b == 112 {
            suit = 1;
        } else if b == 115 {
            suit = 2;
        } else if b == 122 {
            suit = 3;
        } else if b == 45 {
            proof {
                assert(flag_of_byte(bs[i as int]) is Some);
                assert(fulo_state(bs, i as int).1 >= 1);
            }
            let slot = pai_list[index - 1];
            pai_list[index - 1] = MentsuPai { pai_num: slot.pai_num, id: slot.id, flag: MentsuFlag::FLAG_KAMICHA };
            naki = true;
        } else if b == 61 {
            proof {
                assert(flag_of_byte(bs[i as int]) is Some);
                assert(fulo_state(bs, i as int).1 >= 1);
            }
            let slot = pai_list[index - 1];
            pai_list[index - 1] = MentsuPai { pai_num: slot.pai_num, id: slot.id, flag: MentsuFlag::FLAG_TOIMEN };
            naki = true;
        } else if b == 43 {
            proof {
                assert(flag_of_byte(bs[i as int]) is Some);
                assert(fulo_state(bs, i as int).1 >= 1);
            }
            let slot = pai_list[index - 1];
            pai_list[index - 1] = MentsuPai { pai_num: slot.pai_num, id: slot.id, flag: MentsuFlag::FLAG_SIMOCHA };
            naki = true;
        } else {
            proof {
                assert(flag_of_byte(bs[i as int]) is None && suit_of_byte(bs[i as int]) is None);
                assert(fulo_state(bs, i as int).1 < 4);
            }
            pai_list[index] = MentsuPai { pai_num: suit * 9 + (b - 49), id: 0, flag: MentsuFlag::FLAG_NONE };
            index = index + 1;
        }
        proof {
            assert(pai_list@ =~= fulo_state(bs, i + 1).3);
        }
    }
    let mentsu_type = if index == 4 {
        if naki {
            MentsuType::TYPE_MINKAN
        } else {
            MentsuType::TYPE_ANKAN
        }
    } else if pai_list[0].pai_num == pai_list[1].pai_num {
        MentsuType::TYPE_KOUTSU
    } else {
        MentsuType::TYPE_SHUNTSU
    };
    let r = Mentsu { pai_list, pai_len: index as u8, mentsu_type };
    proof {
        assert(r.pai_list@ =~= spec_str_to_fulo(bs).pai_list@);
        assert(r.pai_list =~= spec_str_to_fulo(bs).pai_list);
    }
    r
}

/// A winning hand read back from a record: the hand, its declared melds and
/// the recorded verdict to hold the engine against.
pub struct ParquetAgari {
    pub tehai: Vec<PaiT>,
    pub fulo: Vec<Mentsu>,
    pub yaku: Vec<(String, i32)>,
    pub fu: i32,
    pub han: i32,
    pub score: i32,
    pub machipai: PaiT,
    pub dora: Vec<PaiT>,
    pub uradora: Vec<PaiT>,
    pub nukidora: u32,
}

impl ParquetAgari {
    /// An empty record.
    pub fn new() -> (r: Self)
        ensures
            r.tehai@.len() == 0 && r.fulo@.len() == 0 && r.yaku@.len() == 0 && r.fu == 0 && r.han
                == 0 && r.score == 0 && r.nukidora == 0,
    {
        ParquetAgari {
            tehai: Vec::new(),
            fulo: Vec::new(),
            yaku: Vec::new(),
            fu: 0,
            han: 0,
            score: 0,
            machipai: PaiT::default(),
            dora: Vec::new(),
            uradora: Vec::new(),
            nukidora: 0,
        }
    }

    /// Reads a recorded hand: the segment before the first comma is the
    /// concealed hand, and every further comma-separated segment one
    /// declared meld.
    pub fn parse_tehai_string(&mut self, hand: &str, melds: &Vec<&str>)
        requires
            forall|i: int|
                0 <= i < hand.spec_bytes().len() ==> hand_byte_ok(#[trigger] hand.spec_bytes()[i]),
            forall|j: int|
                0 <= j < melds@.len() ==> {
                    let m = #[trigger] melds@[j];
                    &&& (forall|i: int|
                        0 <= i < m.spec_bytes().len() ==> fulo_byte_ok(#[trigger] m.spec_bytes()[i]))
                    &&& fulo_counts_ok(m.spec_bytes())
                },
        ensures
            final(self).tehai@ == spec_str_to_pais(hand.spec_bytes()),
            final(self).fulo@.len() == old(self).fulo@.len() + melds@.len(),
            forall|j: int|
                0 <= j < melds@.len() ==> final(self).fulo@[old(self).fulo@.len() + j]
                    == spec_str_to_fulo((#[trigger] melds@[j]).spec_bytes()),
            forall|j: int|
                0 <= j < old(self).fulo@.len() ==> final(self).fulo@[j] == old(self).fulo@[j],
            final(self).yaku == old(self).yaku,
            final(self).fu == old(self).fu,
            final(self).han == old(self).han,
            final(self).score == old(self).score,
            final(self).machipai == old(self).machipai,
            final(self).dora == old(self).dora,
            final(self).uradora == old(self).uradora,
            final(self).nukidora == old(self).nukidora,
    {
        self.tehai = str_to_pais(hand);
        let n = melds.len();
        for j in 0..n
            invariant
                n == melds@.len(),
                forall|q: int|
                    0 <= q < melds@.len() ==> {
                        let m = #[trigger] melds@[q];
                        &&& (forall|i: int|
                            0 <= i < m.spec_bytes().len() ==> fulo_byte_ok(
                                #[trigger] m.spec_bytes()[i],
                            ))
                        &&& fulo_counts_ok(m.spec_bytes())
                    },
                self.fulo@.len() == old(self).fulo@.len() + j,
                forall|q: int|
                    0 <= q < j ==> self.fulo@[old(self).fulo@.len() + q] == spec_str_to_fulo(
                        (#[trigger] melds@[q]).spec_bytes(),
                    ),
                self.tehai@ == spec_str_to_pais(hand.spec_bytes()),
                forall|q: int|
                    0 <= q < old(self).fulo@.len() ==> self.fulo@[q] == old(self).fulo@[q],
                self.yaku == old(self).yaku,
                self.fu == old(self).fu,
                self.han == old(self).han,
                self.score == old(self).score,
                self.machipai == old(self).machipai,
                self.dora == old(self).dora,
                self.uradora == old(self).uradora,
                self.nukidora == old(self).nukidora,
        {
            let m = str_to_fulo(melds[j]);
            self.fulo.push(m);
        }
    }
}

} // verus!
