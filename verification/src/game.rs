//! The table state around the evaluation engine: players, the rule sheet,
//! dealing, drawing and discarding, and the winning-hand entry point.

use vstd::prelude::*;

use crate::agari::{
    add_machi_to_mentsu, agari_view, build_agari_state, lemma_yaku_list_bounds, spec_add_machi,
    spec_best_agari, spec_condition_yaku, spec_dora_yaku, spec_eval_one, spec_yaku_list,
    valid_meld_kinds, yaku_view, Agari, AgariBehavior, AgariState,
};
use crate::mentsu::{views_of, Mentsu};
use crate::shanten::{all_kinds_valid, all_of_mentsu, spec_all_of_mentsu, tally, wf34, PaiState};
use crate::taku::{TakuControl, TakuT};
use crate::tile::{sort_pais, sorted_pais, FixedStringT, PaiT};
use crate::CoreError;

verus! {

/// One action a player can take on their turn.
#[allow(non_camel_case_types)]
#[derive(Clone, Copy, Debug, PartialEq, Eq, Structural)]
pub enum ActionType {
    ACTION_NONE,
    ACTION_SYNC,
    ACTION_SUTEHAI,
    ACTION_RIICHI,
    ACTION_CHII,
    ACTION_PON,
    ACTION_KAN,
    ACTION_TSUMO,
    ACTION_NAGASHI,
}

/// The rule sheet of a game.
#[derive(Clone, Copy, Debug, PartialEq, Eq, Structural)]
pub struct RuleT {
    pub enable_kuitan: bool,
    pub enable_kansaki: bool,
    pub enable_pao: bool,
    pub initial_score: u32,
    pub enable_tobi: bool,
    pub enable_wareme: bool,
    pub aka_type: u32,
    pub shanyu_score: i32,
    pub nannyu_score: i32,
    pub enable_kuinaoshi: bool,
    pub uradora_type: u32,
    pub enable_minus_riichi: bool,
    pub enable_ryanhan_shibari: bool,
    pub enable_keiten: bool,
    pub oyanagare_type: u32,
    pub kan_in_riichi: u32,
    pub enable_kiriage: bool,
}

impl RuleT {
    /// Resets every option to the house default.
    pub fn update_to_default(&mut self)
        ensures
            *final(self) == (RuleT {
                enable_kuitan: true,
                enable_kansaki: false,
                enable_pao: false,
                initial_score: 25000,
                enable_tobi: true,
                enable_wareme: false,
                aka_type: 0,
                shanyu_score: 0,
                nannyu_score: -1i32,
                enable_kuinaoshi: true,
                uradora_type: 2,
                enable_minus_riichi: true,
                enable_ryanhan_shibari: false,
                enable_keiten: true,
                oyanagare_type: 0x0f,
                kan_in_riichi: 1,
                enable_kiriage: false,
            }),
    {
        self.enable_kuitan = true;
        self.enable_kansaki = false;
        self.enable_pao = false;
        self.initial_score = 25000;
        self.enable_tobi = true;
        self.enable_wareme = false;
        self.aka_type = 0;
        self.shanyu_score = 0;
        self.nannyu_score = -1;
        self.enable_kuinaoshi = true;
        self.uradora_type = 2;
        self.enable_minus_riichi = true;
        self.enable_ryanhan_shibari = false;
        self.enable_keiten = true;
        self.oyanagare_type = 0x0f;
        self.kan_in_riichi = 1;
        self.enable_kiriage = false;
    }
}

/// One seat at the table.
#[derive(Clone, Copy, Debug)]
pub struct PlayerT {
    pub name: FixedStringT,
    pub score: i32,
    pub cursol: u32,
    pub tehai: [PaiT; 13],
    pub tehai_len: u32,
    pub kawahai: [PaiT; 136],
    pub kawahai_len: u32,
    pub tsumohai: PaiT,
    pub is_tsumo: bool,
    pub is_riichi: bool,
    pub is_ippatsu: bool,
}

impl Default for PlayerT {
    fn default() -> (r: Self)
        ensures
            r.score == 0 && r.cursol == 0 && r.tehai_len == 0 && r.kawahai_len == 0 && !r.is_tsumo
                && !r.is_riichi && !r.is_ippatsu && r.tsumohai.pai_num == 0 && r.tsumohai.id == 0,
    {
        PlayerT {
            name: FixedStringT::default(),
            score: 0,
            cursol: 0,
            tehai: [PaiT {
                pai_num: 0,
                id: 0,
                is_tsumogiri: false,
                is_riichi: false,
                is_nakare: false,
            }; 13],
            tehai_len: 0,
            kawahai: [PaiT {
                pai_num: 0,
                id: 0,
                is_tsumogiri: false,
                is_riichi: false,
                is_nakare: false,
            }; 136],
            kawahai_len: 0,
            tsumohai: PaiT {
                pai_num: 0,
                id: 0,
                is_tsumogiri: false,
                is_riichi: false,
                is_nakare: false,
            },
            is_tsumo: false,
            is_riichi: false,
            is_ippatsu: false,
        }
    }
}

impl PlayerT {
    /// A seat is taken once a name has been written into it.
    pub fn is_registered(&self) -> (r: bool)
        ensures
            r == (self.name.n1@[0] != 0),
    {
        self.name.n1[0] != 0
    }
}

/// Read access to the tile a player has just drawn.
pub trait GetTsumo {
    /// The drawn tile, when one is held.
    spec fn spec_tsumohai(&self) -> Option<PaiT>;

    fn get_tsumohai(&self) -> (r: Option<PaiT>)
        ensures
            r == self.spec_tsumohai(),
    ;
}

impl GetTsumo for PlayerT {
    open spec fn spec_tsumohai(&self) -> Option<PaiT> {
        if self.is_tsumo {
            Some(self.tsumohai)
        } else {
            None
        }
    }

    fn get_tsumohai(&self) -> (r: Option<PaiT>) {
        if self.is_tsumo {
            Some(self.tsumohai)
        } else {
            None
        }
    }
}

/// The whole table: rules, wall, seats and turn bookkeeping.
#[derive(Clone, Copy, Debug)]
pub struct GameStateT {
    pub player_len: u32,
    pub players: [PlayerT; 4],
    pub rule: RuleT,
    pub title: FixedStringT,
    pub game_id: [u8; 16],
    pub taku: TakuT,
    pub taku_cursol: u32,
    pub is_non_duplicate: bool,
    pub teban: u32,
    pub oya: u32,
    pub bakaze: u32,
    pub dora_len: u32,
    pub uradora_len: u32,
    pub seq: u64,
    pub kyoku_id: u64,
    pub tsumobou: u32,
    pub riichibou: u32,
}

/// Relies on uuid's `Uuid::new_v4` and `Uuid::into_bytes`: a freshly drawn
/// random identifier as its sixteen raw bytes. Nothing can be promised of a
/// random value.
#[verifier::external_body]
fn fresh_game_id() -> [u8; 16] {
    uuid::Uuid::new_v4().into_bytes()
}

/// Relies on chrono's `Utc::now` and `DateTime::timestamp`: the seconds of
/// the current wall-clock time since the epoch. Nothing can be promised of
/// the clock.
#[verifier::external_body]
fn unix_timestamp_now() -> i64 {
    chrono::Utc::now().timestamp()
}

impl Default for GameStateT {
    fn default() -> (r: Self)
        ensures
            r.player_len == 0 && r.taku_cursol == 0 && r.teban == 0 && r.oya == 0 && r.bakaze == 0
                && r.dora_len == 0 && r.uradora_len == 0 && r.seq == 0 && r.kyoku_id == 0
                && r.tsumobou == 0 && r.riichibou == 0 && !r.is_non_duplicate,
    {
        let player = PlayerT::default();
        GameStateT {
            player_len: 0,
            players: [player; 4],
            rule: RuleT {
                enable_kuitan: false,
                enable_kansaki: false,
                enable_pao: false,
                initial_score: 0,
                enable_tobi: false,
                enable_wareme: false,
                aka_type: 0,
                shanyu_score: 0,
                nannyu_score: 0,
                enable_kuinaoshi: false,
                uradora_type: 0,
                enable_minus_riichi: false,
                enable_ryanhan_shibari: false,
                enable_keiten: false,
                oyanagare_type: 0,
                kan_in_riichi: 0,
                enable_kiriage: false,
            },
            title: FixedStringT::default(),
            game_id: [0; 16],
            taku: TakuT {
                n1: [PaiT {
                    pai_num: 0,
                    id: 0,
                    is_tsumogiri: false,
                    is_riichi: false,
                    is_nakare: false,
                }; 32],
                n2: [PaiT {
                    pai_num: 0,
                    id: 0,
                    is_tsumogiri: false,
                    is_riichi: false,
                    is_nakare: false,
                }; 32],
                n3: [PaiT {
                    pai_num: 0,
                    id: 0,
                    is_tsumogiri: false,
                    is_riichi: false,
                    is_nakare: false,
                }; 32],
                n4: [PaiT {
                    pai_num: 0,
                    id: 0,
                    is_tsumogiri: false,
                    is_riichi: false,
                    is_nakare: false,
                }; 32],
                n5: [PaiT {
                    pai_num: 0,
                    id: 0,
                    is_tsumogiri: false,
                    is_riichi: false,
                    is_nakare: false,
                }; 8],
                length: 0,
            },
            taku_cursol: 0,
            is_non_duplicate: false,
            teban: 0,
            oya: 0,
            bakaze: 0,
            dora_len: 0,
            uradora_len: 0,
            seq: 0,
            kyoku_id: 0,
            tsumobou: 0,
            riichibou: 0,
        }
    }
}

/// The seat wind of a player: their distance around the table from the
/// dealer.
pub open spec fn spec_zikaze(g: GameStateT, who: int) -> int {
    let diff = who - g.oya;
    if diff < 0 {
        diff + g.player_len
    } else {
        diff
    }
}

/// Where each seat's private draw window begins in the wall.
pub open spec fn spec_yama_start(i: int) -> int {
    if i == 0 {
        14int
    } else if i == 1 {
        45int
    } else if i == 2 {
        75int
    } else {
        105int
    }
}

/// How many tiles the first `n` seats have drawn past their window starts.
pub open spec fn spec_drawn(g: GameStateT, n: int) -> int
    decreases n,
{
    if n <= 0 {
        0int
    } else {
        spec_drawn(g, n - 1) + (g.players@[n - 1].cursol - spec_yama_start(n - 1))
    }
}

/// With every cursor past its window start, the drawn tally grows with the
/// seats counted.
proof fn lemma_drawn_nonneg(g: GameStateT, n: int, m: int)
    requires
        0 <= n <= m <= 4,
        forall|i: int| 0 <= i < m ==> (#[trigger] g.players@[i].cursol) >= spec_yama_start(i),
    ensures
        0 <= spec_drawn(g, n) <= spec_drawn(g, m),
    decreases m,
{
    if n < m {
        lemma_drawn_nonneg(g, n, m - 1);
    } else if n > 0 {
        lemma_drawn_nonneg(g, n - 1, m - 1);
    }
}

impl GameStateT {
    /// Sets a game up: default rules, the given title, a fresh random game
    /// identifier, and every seat funded with the initial score.
    pub fn create(&mut self, title: &[u8], player_len: u32)
        requires
            player_len <= 4,
        ensures
            final(self).player_len == player_len,
            final(self).rule.initial_score == 25000,
            forall|i: int|
                0 <= i < player_len ==> final(self).players@[i].score == 25000,
    {
        self.player_len = player_len;
        let mut rule = self.rule;
        rule.update_to_default();
        self.rule = rule;
        self.title = FixedStringT::from(title);
        self.game_id = fresh_game_id();

        let mut idx: u32 = 0;
        while idx < self.player_len
            invariant
                self.player_len == player_len <= 4,
                self.rule.initial_score == 25000,
                idx <= player_len,
                forall|i: int| 0 <= i < idx ==> self.players@[i].score == 25000,
            decreases player_len - idx,
        {
            let mut player = self.players[idx as usize];
            player.score = self.rule.initial_score as i32;
            self.players[idx as usize] = player;
            idx = idx + 1;
        }
    }

    /// Replaces the wall with a freshly shuffled full deck.
    pub fn shuffle(&mut self)
        ensures
            final(self).taku.pais().to_multiset() == crate::taku::full_deck().to_multiset(),
            final(self).taku.length == 136,
            *final(self) == (GameStateT { taku: final(self).taku, ..*old(self) }),
    {
        self.taku = TakuT::create_shuffled();
    }

    /// Replaces the wall with a recorded tile list.
    pub fn load(&mut self, hai_ids: &[u32])
        requires
            hai_ids@.len() == 136,
            forall|i: int| 0 <= i < 136 ==> #[trigger] hai_ids@[i] < 1024,
        ensures
            final(self).taku.length == 136,
            forall|i: int|
                0 <= i < 136 ==> (#[trigger] final(self).taku.pais()[i]).pai_num == hai_ids@[i] / 4
                    && final(self).taku.pais()[i].id == hai_ids@[i] % 4,
            *final(self) == (GameStateT { taku: final(self).taku, ..*old(self) }),
    {
        self.taku = TakuT::load(hai_ids);
    }

    /// Advances whichever draw cursor the duplicate setting selects.
    pub fn next_cursol(&mut self)
        requires
            old(self).teban < 4,
            old(self).taku_cursol < 0xffff_ffff,
            old(self).players@[old(self).teban as int].cursol < 0xffff_ffff,
        ensures
            old(self).is_non_duplicate ==> *final(self) == (GameStateT {
                taku_cursol: (old(self).taku_cursol + 1) as u32,
                ..*old(self)
            }),
            !old(self).is_non_duplicate ==> final(self).players@ =~= old(self).players@.update(
                old(self).teban as int,
                PlayerT {
                    cursol: (old(self).players@[old(self).teban as int].cursol + 1) as u32,
                    ..old(self).players@[old(self).teban as int]
                },
            ),
            !old(self).is_non_duplicate ==> *final(self) == (GameStateT {
                players: final(self).players,
                ..*old(self)
            }),
    {
        if self.is_non_duplicate {
            self.taku_cursol = self.taku_cursol + 1;
        } else {
            let teban = self.teban as usize;
            let mut player = self.players[teban];
            player.cursol = player.cursol + 1;
            self.players[teban] = player;
        }
    }

    /// The seat wind of the given player.
    pub fn get_zikaze(&self, who: usize) -> (r: u32)
        requires
            1 <= self.player_len <= 4,
            who < self.player_len,
            self.oya < self.player_len,
        ensures
            r == spec_zikaze(*self, who as int),
            r < self.player_len,
    {
        let diff = (who as i32) - (self.oya as i32);
        if diff < 0 {
            (diff + self.player_len as i32) as u32
        } else {
            diff as u32
        }
    }

    /// How many tiles are left to draw.
    /// How many tiles are left to draw: the wall past the dealt fourteen,
    /// less what every seat has drawn from its own window.
    pub fn remain(&self) -> (r: u32)
        requires
            self.is_non_duplicate ==> self.taku_cursol <= 136,
            !self.is_non_duplicate ==> 1 <= self.player_len <= 4,
            !self.is_non_duplicate ==> (forall|i: int|
                0 <= i < self.player_len ==> (#[trigger] self.players@[i].cursol)
                    >= spec_yama_start(i)),
            !self.is_non_duplicate ==> spec_drawn(*self, self.player_len as int) <= 122,
        ensures
            self.is_non_duplicate ==> r == 136 - self.taku_cursol,
            !self.is_non_duplicate ==> r == 122 - spec_drawn(*self, self.player_len as int),
    {
        if self.is_non_duplicate {
            136 - self.taku_cursol
        } else {
            let start_of_yama: [u32; 4] = [14, 45, 75, 105];
            proof {
                assert(forall|i: int| 0 <= i < 4 ==> start_of_yama@[i] == spec_yama_start(i));
                lemma_drawn_nonneg(*self, 0, self.player_len as int);
            }
            let mut used: u32 = 0;
            let mut idx: usize = 0;
            while idx < self.player_len as usize
                invariant
                    1 <= self.player_len <= 4,
                    idx <= self.player_len,
                    start_of_yama@ == seq![14u32, 45u32, 75u32, 105u32],
                    forall|i: int|
                        0 <= i < self.player_len ==> (#[trigger] self.players@[i].cursol)
                            >= spec_yama_start(i),
                    spec_drawn(*self, self.player_len as int) <= 122,
                    used as int == spec_drawn(*self, idx as int),
                decreases self.player_len - idx,
            {
                proof {
                    lemma_drawn_nonneg(*self, idx + 1, self.player_len as int);
                    assert(start_of_yama@[idx as int] == spec_yama_start(idx as int));
                }
                let c = self.players[idx].cursol;
                let s = start_of_yama[idx];
                used = used + (c - s);
                idx = idx + 1;
            }
            136 - 14 - used
        }
    }

    /// A copy of the given seat.
    pub fn get_player(&self, index: usize) -> (r: PlayerT)
        requires
            index < 4,
        ensures
            r == self.players@[index as int],
    {
        self.players[index]
    }

    /// Records the given bonus indicators at the front of the wall.
    pub fn copy_dora(&mut self, dora: &Vec<PaiT>)
        requires
            dora@.len() <= 8,
        ensures
            final(self).dora_len == dora@.len(),
            forall|i: int| 0 <= i < dora@.len() ==> final(self).taku.n1@[i] == dora@[i],
            final(self).uradora_len == old(self).uradora_len,
            forall|i: int|
                dora@.len() <= i < 32 ==> final(self).taku.n1@[i] == old(self).taku.n1@[i],
    {
        self.dora_len = dora.len() as u32;
        let n = dora.len();
        for i in 0..n
            invariant
                n == dora@.len() <= 8,
                self.dora_len == n,
                self.uradora_len == old(self).uradora_len,
                forall|q: int| 0 <= q < i ==> self.taku.n1@[q] == dora@[q],
                forall|q: int| i <= q < 32 ==> self.taku.n1@[q] == old(self).taku.n1@[q],
        {
            self.taku.n1[i] = dora[i];
        }
    }

    /// Records the given hidden indicators behind the open ones.
    pub fn copy_uradora(&mut self, uradora: &Vec<PaiT>)
        requires
            uradora@.len() <= 8,
        ensures
            final(self).uradora_len == uradora@.len(),
            forall|i: int| 0 <= i < uradora@.len() ==> final(self).taku.n1@[i + 5] == uradora@[i],
            final(self).dora_len == old(self).dora_len,
            forall|i: int| 0 <= i < 5 ==> final(self).taku.n1@[i] == old(self).taku.n1@[i],
            forall|i: int|
                uradora@.len() + 5 <= i < 32 ==> final(self).taku.n1@[i] == old(self).taku.n1@[i],
    {
        self.uradora_len = uradora.len() as u32;
        let n = uradora.len();
        for i in 0..n
            invariant
                n == uradora@.len() <= 8,
                self.uradora_len == n,
                self.dora_len == old(self).dora_len,
                forall|q: int| 0 <= q < i ==> self.taku.n1@[q + 5] == uradora@[q],
                forall|q: int| 0 <= q < 5 ==> self.taku.n1@[q] == old(self).taku.n1@[q],
                forall|q: int| i + 5 <= q < 32 ==> self.taku.n1@[q] == old(self).taku.n1@[q],
        {
            self.taku.n1[i + 5] = uradora[i];
        }
    }

    /// The open bonus indicators.
    pub fn get_dora(&self) -> (r: Vec<PaiT>)
        requires
            self.dora_len <= 8,
        ensures
            r@ == self.taku.n1@.subrange(0, self.dora_len as int),
    {
        let mut r: Vec<PaiT> = Vec::new();
        let n = self.dora_len as usize;
        for i in 0..n
            invariant
                n == self.dora_len <= 8,
                r@ =~= self.taku.n1@.subrange(0, i as int),
        {
            r.push(self.taku.n1[i]);
            proof {
                assert(r@ =~= self.taku.n1@.subrange(0, i + 1));
            }
        }
        r
    }

    /// The hidden bonus indicators.
    pub fn get_uradora(&self) -> (r: Vec<PaiT>)
        requires
            self.uradora_len <= 8,
        ensures
            r@ == self.taku.n1@.subrange(5, 5 + self.uradora_len as int),
    {
        let mut r: Vec<PaiT> = Vec::new();
        let n = self.uradora_len as usize;
        for i in 0..n
            invariant
                n == self.uradora_len <= 8,
                r@ =~= self.taku.n1@.subrange(5, 5 + i as int),
        {
            r.push(self.taku.n1[i + 5]);
            proof {
                assert(r@ =~= self.taku.n1@.subrange(5, 5 + i + 1));
            }
        }
        r
    }
}

/// The draw cursor a seat starts the deal at.
pub open spec fn spec_start_cursol(idx: int) -> int {
    14 + idx * (if idx < 2 {
        31int
    } else {
        30int
    })
}

impl GameStateT {
    /// Deals the round: every seat draws its thirteen starting tiles from
    /// its window of the wall and sorts them, and the session identifier is
    /// stamped from the clock.
    pub fn start(&mut self)
        requires
            1 <= old(self).player_len <= 4,
            old(self).oya < old(self).player_len,
            old(self).taku.length == 136,
        ensures
            final(self).taku_cursol >= 14,
            final(self).dora_len == 1,
            final(self).uradora_len == 0,
            final(self).seq == 0,
            forall|i: int|
                0 <= i < final(self).player_len ==> {
                    let p = #[trigger] final(self).players@[i];
                    &&& p.tehai_len == 13
                    &&& sorted_pais(p.tehai@)
                    &&& (!final(self).is_non_duplicate ==> p.tehai@.to_multiset()
                        == final(self).taku.pais().subrange(
                        spec_start_cursol(i),
                        spec_start_cursol(i) + 13,
                    ).to_multiset())
                    &&& (!final(self).is_non_duplicate ==> p.cursol == spec_start_cursol(i) + 13)
                    &&& (final(self).is_non_duplicate ==> p.cursol == spec_start_cursol(i))
                },
            final(self).is_non_duplicate ==> final(self).taku_cursol == 14 + 13 * final(
                self).player_len,
            !final(self).is_non_duplicate ==> final(self).taku_cursol == 14,
            final(self).taku == old(self).taku,
            final(self).player_len == old(self).player_len,
    {
        self.taku_cursol = 14;
        self.dora_len = 1;
        self.uradora_len = 0;
        self.seq = 0;
        let ts = unix_timestamp_now();
        let ts_clamped: i64 = if ts < 0 {
            0
        } else if ts > 4_000_000_000_000i64 {
            4_000_000_000_000i64
        } else {
            ts
        };
        self.kyoku_id = ((ts_clamped / 86400) * 100000) as u64;

        let mut idx: u32 = 0;
        while idx < self.player_len
            invariant
                1 <= self.player_len <= 4,
                idx <= self.player_len,
                self.taku.length == 136,
                self.taku == old(self).taku,
                self.player_len == old(self).player_len,
                self.taku_cursol >= 14,
                self.is_non_duplicate ==> self.taku_cursol == 14 + 13 * idx,
                !self.is_non_duplicate ==> self.taku_cursol == 14,
                self.dora_len == 1,
                self.uradora_len == 0,
                self.seq == 0,
                forall|i: int|
                    0 <= i < idx ==> {
                        let p = #[trigger] self.players@[i];
                        &&& p.tehai_len == 13
                        &&& sorted_pais(p.tehai@)
                        &&& (!self.is_non_duplicate ==> p.tehai@.to_multiset()
                            == self.taku.pais().subrange(
                            spec_start_cursol(i),
                            spec_start_cursol(i) + 13,
                        ).to_multiset())
                        &&& (!self.is_non_duplicate ==> p.cursol == spec_start_cursol(i) + 13)
                        &&& (self.is_non_duplicate ==> p.cursol == spec_start_cursol(i))
                    },
            decreases self.player_len - idx,
        {
            let i = idx as usize;
            let mut player = self.players[i];
            player.cursol = 14 + (idx * if idx < 2 {
                31
            } else {
                30
            });
            let cursol: u32 = if self.is_non_duplicate {
                self.taku_cursol
            } else {
                player.cursol
            };
            proof {
                assert(!self.is_non_duplicate ==> cursol == spec_start_cursol(idx as int));
                assert(cursol <= 122);
            }
            let r = self.taku.get_range((cursol as usize)..(cursol as usize + 13));
            match r {
                Ok(v) => {
                    let mut v = v;
                    sort_pais(&mut v);
                    proof {
                        assert(v@.len() == 13);
                    }
                    let mut t: usize = 0;
                    while t < 13
                        invariant
                            t <= 13,
                            v@.len() == 13,
                            idx < 4,
                            player.cursol as int == spec_start_cursol(idx as int),
                            forall|q: int| 0 <= q < t ==> player.tehai@[q] == v@[q],
                        decreases 13 - t,
                    {
                        player.tehai[t] = v[t];
                        t = t + 1;
                    }
                    proof {
                        assert(player.tehai@ =~= v@);
                    }
                    player.tehai_len = 13;
                },
                Err(_) => {
                    proof {
                        assert(false);
                    }
                },
            }
            // The consumed cursor moves past the dealt window: the shared
            // one in non-duplicate play, the seat's own one otherwise.
            if self.is_non_duplicate {
                self.taku_cursol = self.taku_cursol + 13;
            } else {
                player.cursol = player.cursol + 13;
            }
            self.players[i] = player;
            idx = idx + 1;
        }
    }

    /// Draws the next tile from the wall for the player whose turn it is.
    pub fn tsumo(&mut self) -> (r: Result<(), CoreError>)
        requires
            old(self).teban < old(self).player_len <= 4,
            old(self).taku_cursol < 0xffff_0000,
            old(self).players@[old(self).teban as int].cursol < 0xffff_0000,
            old(self).seq < 0xffff_ffff_ffff_0000,
        ensures
            ({
                let teban = old(self).teban as int;
                let cursol = if old(self).is_non_duplicate {
                    old(self).taku_cursol as int
                } else {
                    old(self).players@[teban].cursol as int
                };
                match r {
                    Ok(_) => cursol < 136 && final(self).players@[teban].is_tsumo && final(
                        self).players@[teban].tsumohai == old(self).taku.pais()[cursol] && final(
                        self).seq == old(self).seq + 1,
                    Err(e) => cursol >= 136 && e == CoreError::IndexOutOfRange && *final(self)
                        == (GameStateT {
                        players: final(self).players,
                        ..*old(self)
                    }),
                }
            }),
    {
        let teban = self.teban as usize;
        let mut player = self.players[teban];
        player.is_tsumo = true;

        let cursol = if self.is_non_duplicate {
            self.taku_cursol
        } else {
            player.cursol
        };
        match self.taku.get(cursol as usize) {
            Ok(t) => {
                player.tsumohai = t;
            },
            Err(e) => {
                self.players[teban] = player;
                return Err(e);
            },
        }
        self.players[teban] = player;
        self.seq = self.seq + 1;
        self.next_cursol();
        Ok(())
    }

    /// Discards a tile: slot 13 throws the drawn tile back, any other slot
    /// swaps the drawn tile into the hand and re-sorts it. A ready
    /// declaration costs a thousand points and arms the one-turn window.
    pub fn sutehai(&mut self, index: usize, is_riichi: bool)
        requires
            old(self).teban < old(self).player_len <= 4,
            index <= 13,
            old(self).players@[old(self).teban as int].kawahai_len < 136,
            old(self).players@[old(self).teban as int].score > i32::MIN + 1000,
            old(self).seq < 0xffff_ffff_ffff_0000,
        ensures
            ({
                let teban = old(self).teban as int;
                let before = old(self).players@[teban];
                let after = final(self).players@[teban];
                &&& final(self).teban as int == if old(self).teban + 1 == old(self).player_len {
                    0int
                } else {
                    old(self).teban + 1
                }
                &&& after.kawahai_len == before.kawahai_len + 1
                &&& !after.is_tsumo
                &&& (is_riichi ==> after.is_riichi && after.is_ippatsu && after.score
                    == before.score - 1000)
                &&& (!is_riichi ==> !after.is_ippatsu && after.score == before.score)
                &&& (index == 13 ==> after.kawahai@[before.kawahai_len as int] == before.tsumohai
                    && after.tehai@ == before.tehai@)
                &&& (index < 13 ==> after.kawahai@[before.kawahai_len as int]
                    == before.tehai@[index as int] && sorted_pais(after.tehai@)
                    && after.tehai@.to_multiset() == before.tehai@.to_multiset().remove(
                    before.tehai@[index as int],
                ).insert(before.tsumohai))
            }),
    {
        broadcast use vstd::seq_lib::group_to_multiset_ensures;

        let teban = self.teban as usize;
        let mut player = self.players[teban];
        let ghost before = player;

        if is_riichi {
            player.is_riichi = true;
            player.is_ippatsu = true;
            player.score = player.score - 1000;
        } else {
            player.is_ippatsu = false;
        }

        if index != 13 {
            let mut tehai: Vec<PaiT> = Vec::new();
            let mut t: usize = 0;
            while t < 13
                invariant
                    t <= 13,
                    tehai@ =~= before.tehai@.take(t as int),
                    player.tehai == before.tehai,
                decreases 13 - t,
            {
                tehai.push(player.tehai[t]);
                proof {
                    assert(tehai@ =~= before.tehai@.take(t + 1));
                }
                t = t + 1;
            }
            proof {
                assert(tehai@ =~= before.tehai@);
            }
            let kawahai = tehai.remove(index);
            tehai.push(player.tsumohai);
            proof {
                before.tehai@.to_multiset_ensures();
                before.tehai@.remove(index as int).to_multiset_ensures();
                assert(tehai@ == before.tehai@.remove(index as int).push(before.tsumohai));
                assert(tehai@.to_multiset() =~= before.tehai@.to_multiset().remove(
                    before.tehai@[index as int],
                ).insert(before.tsumohai));
            }
            sort_pais(&mut tehai);
            let mut t: usize = 0;
            while t < 13
                invariant
                    t <= 13,
                    tehai@.len() == 13,
                    sorted_pais(tehai@),
                    tehai@.to_multiset() == before.tehai@.to_multiset().remove(
                        before.tehai@[index as int],
                    ).insert(before.tsumohai),
                    forall|q: int| 0 <= q < t ==> player.tehai@[q] == tehai@[q],
                    player.kawahai_len == before.kawahai_len,
                    player.kawahai == before.kawahai,
                    player.tsumohai == before.tsumohai,
                    player.is_tsumo == before.is_tsumo,
                    player.is_riichi == (before.is_riichi || is_riichi),
                    player.is_ippatsu == is_riichi,
                    player.score as int == if is_riichi {
                        before.score - 1000
                    } else {
                        before.score as int
                    },
                decreases 13 - t,
            {
                player.tehai[t] = tehai[t];
                t = t + 1;
            }
            proof {
                assert(player.tehai@ =~= tehai@);
            }
            player.kawahai[player.kawahai_len as usize] = kawahai;
        } else {
            player.kawahai[player.kawahai_len as usize] = player.tsumohai;
        }
        self.seq = self.seq + 1;

        player.kawahai_len = player.kawahai_len + 1;
        player.tsumohai = PaiT::default();
        player.is_tsumo = false;
        self.players[teban] = player;
        self.teban = self.teban + 1;
        if self.teban == self.player_len {
            self.teban = 0;
        }
    }
}

/// Every marked decomposition of a hand plus its drawn tile: the whole-hand
/// enumeration with the winning tile marked in every position.
pub open spec fn spec_win_candidates(v: Seq<int>, k: int) -> Seq<Seq<Mentsu>> {
    spec_add_machi(spec_all_of_mentsu(v, 0), k)
}

impl GameStateT {
    /// Declares a self-drawn win for the player whose turn it is: the hand
    /// plus the drawn tile is decomposed every way, the winning tile is
    /// marked in every position, the best-scoring interpretation is chosen,
    /// and its score is paid to the winner. The win is owed exactly when a
    /// marked decomposition exists and the best one carries a category; a
    /// hand with no decomposition and a hand with no category are rejected
    /// unchanged.
    pub fn tsumo_agari(&mut self) -> (r: Result<Agari, CoreError>)
        requires
            old(self).spec_ctx_ok(old(self).teban as int),
            old(self).teban < old(self).player_len,
            all_kinds_valid(
                old(self).players@[old(self).teban as int].tehai@.push(
                    old(self).players@[old(self).teban as int].tsumohai,
                ),
            ),
            wf34(
                tally(
                    old(self).players@[old(self).teban as int].tehai@.push(
                        old(self).players@[old(self).teban as int].tsumohai,
                    ),
                ),
            ),
            -2_000_000_000 <= old(self).players@[old(self).teban as int].score <= 2_000_000_000,
        ensures
            ({
                let teban = old(self).teban as int;
                let before = old(self).players@[teban];
                let cands = spec_win_candidates(
                    tally(before.tehai@.push(before.tsumohai)),
                    before.tsumohai.pai_num as int,
                );
                let best = spec_best_agari(
                    old(self).bakaze as int,
                    spec_zikaze(*old(self), teban),
                    before.is_riichi,
                    before.is_ippatsu,
                    old(self).spec_dora(),
                    old(self).spec_uradora(),
                    cands,
                    Seq::<Mentsu>::empty(),
                    0,
                    cands.len() as int,
                );
                match r {
                    Ok(a) => cands.len() > 0 && best.3.len() > 0 && agari_view(a) == best
                        && a.yaku@.len() > 0 && 0 <= a.score <= 3_000_000 && final(
                        self).players@ =~= old(self).players@.update(
                        teban,
                        PlayerT { score: (before.score + a.score) as i32, ..before },
                    ) && *final(self) == (GameStateT {
                        players: final(self).players,
                        ..*old(self)
                    }),
                    Err(e) => *final(self) == *old(self) && ((e
                        == CoreError::NoValidDecomposition && cands.len() == 0) || (e
                        == CoreError::NoYaku && cands.len() > 0 && best.3.len() == 0)),
                }
            }),
    {
        let teban = self.teban as usize;
        let player = self.players[teban];
        let ghost hand = player.tehai@.push(player.tsumohai);
        let mut tehai: Vec<PaiT> = Vec::new();
        let mut t: usize = 0;
        while t < 13
            invariant
                t <= 13,
                tehai@ =~= player.tehai@.take(t as int),
            decreases 13 - t,
        {
            tehai.push(player.tehai[t]);
            proof {
                assert(tehai@ =~= player.tehai@.take(t + 1));
            }
            t = t + 1;
        }
        let machipai = player.tsumohai;
        tehai.push(machipai);
        proof {
            assert(player.tehai@.take(13) =~= player.tehai@);
            assert(tehai@ =~= hand);
        }

        let state = PaiState::from(&tehai);
        let ghost v = tally(hand);
        let ghost k = machipai.pai_num as int;
        proof {
            assert(state@ =~= v);
        }
        let all_mentsu = all_of_mentsu(&state, 0);
        let candidates = add_machi_to_mentsu(&all_mentsu, &machipai.pack());
        let ghost allv = views_of(all_mentsu@);
        let ghost cands = views_of(candidates@);
        proof {
            assert(allv == spec_all_of_mentsu(v, 0));
            assert(cands == spec_win_candidates(v, k));
            // Every enumerated decomposition is sound and short, and the
            // marking keeps it so.
            assert(views_of(all_mentsu@).len() == all_mentsu@.len());
            assert forall|q: int|
                0 <= q < allv.len() implies crate::shanten::decomp_ok(#[trigger] allv[q], v)
                    && allv[q].len() <= 46 && (forall|j: int|
                    0 <= j < allv[q].len() ==> (#[trigger] allv[q][j]).pai_len <= 4) by {
                assert(allv[q] == all_mentsu@[q]@);
                assert(crate::shanten::decomp_ok(allv[q], v));
                crate::shanten::lemma_decomp_len(allv[q], v);
            }
            crate::agari::lemma_machi_preserve(allv, k, allv.len() as int, v, 46);
        }

        if candidates.len() == 0 {
            return Err(CoreError::NoValidDecomposition);
        }

        let fulo: Vec<Mentsu> = Vec::new();
        proof {
            assert(fulo@ =~= Seq::<Mentsu>::empty());
            assert(views_of(candidates@).len() == candidates@.len());
            assert forall|i: int|
                0 <= i < candidates@.len() implies (#[trigger] candidates@[i])@.len() + fulo@.len()
                    <= 100 && valid_meld_kinds(candidates@[i]@) by {
                assert(cands[i] == candidates@[i]@);
                assert(crate::shanten::decomp_ok(cands[i], v));
                let d = candidates@[i]@;
                assert forall|j: int|
                    0 <= j < d.len() implies (#[trigger] d[j]).pai_list@[0].pai_num < 34 by {
                    if j == 0 {
                        assert(crate::mentsu::is_pair(d[0]));
                    } else {
                        assert(crate::mentsu::is_meld(d[j]));
                    }
                }
            }
        }
        let best = AgariBehavior::get_best_agari(self, teban, &candidates, &fulo, 0);
        match best {
            Ok(a) => {
                let mut player = self.players[teban];
                player.score = player.score + a.score;
                self.players[teban] = player;
                Ok(a)
            },
            Err(e) => Err(e),
        }
    }

    /// Dispatches one player action: drawing, discarding (with or without a
    /// ready declaration) and declaring a self-drawn win. Acting out of turn
    /// is rejected; a draw request out of turn is quietly accepted.
    pub fn action(&mut self, action_type: ActionType, player_index: usize, param: u32) -> (r:
        Result<(), CoreError>)
        requires
            old(self).teban < old(self).player_len <= 4,
            action_type == ActionType::ACTION_RIICHI || action_type == ActionType::ACTION_SYNC
                || action_type == ActionType::ACTION_SUTEHAI || action_type
                == ActionType::ACTION_TSUMO,
            (action_type == ActionType::ACTION_RIICHI || action_type
                == ActionType::ACTION_SUTEHAI) && player_index == old(self).teban ==> param <= 13
                && old(self).players@[old(self).teban as int].kawahai_len < 136 && old(
                self,
            ).players@[old(self).teban as int].score > i32::MIN + 1000 && old(self).seq
                < 0xffff_ffff_ffff_0000,
            action_type == ActionType::ACTION_SYNC && player_index == old(self).teban ==> old(
                self,
            ).taku_cursol < 0xffff_0000 && old(self).players@[old(self).teban as int].cursol
                < 0xffff_0000 && old(self).seq < 0xffff_ffff_ffff_0000,
            action_type == ActionType::ACTION_TSUMO && player_index == old(self).teban ==> old(
                self,
            ).spec_ctx_ok(old(self).teban as int) && all_kinds_valid(
                old(self).players@[old(self).teban as int].tehai@.push(
                    old(self).players@[old(self).teban as int].tsumohai,
                ),
            ) && wf34(
                tally(
                    old(self).players@[old(self).teban as int].tehai@.push(
                        old(self).players@[old(self).teban as int].tsumohai,
                    ),
                ),
            ) && -2_000_000_000 <= old(self).players@[old(self).teban as int].score
                <= 2_000_000_000,
        ensures
            (action_type == ActionType::ACTION_RIICHI || action_type
                == ActionType::ACTION_SUTEHAI || action_type == ActionType::ACTION_TSUMO)
                && player_index != old(self).teban ==> r == Err::<(), CoreError>(
                CoreError::NotTeban,
            ) && *final(self) == *old(self),
            action_type == ActionType::ACTION_SYNC && player_index != old(self).teban ==> r == Ok::<
                (),
                CoreError,
            >(()) && *final(self) == *old(self),
    {
        match action_type {
            ActionType::ACTION_RIICHI => {
                if player_index == self.teban as usize {
                    self.sutehai(param as usize, true);
                    Ok(())
                } else {
                    Err(CoreError::NotTeban)
                }
            },
            ActionType::ACTION_SYNC => {
                if player_index == self.teban as usize {
                    self.tsumo()
                } else {
                    Ok(())
                }
            },
            ActionType::ACTION_SUTEHAI => {
                if player_index == self.teban as usize {
                    self.sutehai(param as usize, false);
                    Ok(())
                } else {
                    Err(CoreError::NotTeban)
                }
            },
            ActionType::ACTION_TSUMO => {
                if player_index == self.teban as usize {
                    match self.tsumo_agari() {
                        Ok(_) => Ok(()),
                        Err(e) => Err(e),
                    }
                } else {
                    Err(CoreError::NotTeban)
                }
            },
            _ => Err(CoreError::NotTeban),
        }
    }
}

impl AgariBehavior for GameStateT {
    open spec fn spec_bakaze(&self) -> int {
        self.bakaze as int
    }

    open spec fn spec_zikaze(&self, who: int) -> int {
        spec_zikaze(*self, who)
    }

    open spec fn spec_is_riichi(&self, who: int) -> bool {
        self.players@[who].is_riichi
    }

    open spec fn spec_is_ippatsu(&self, who: int) -> bool {
        self.players@[who].is_ippatsu
    }

    open spec fn spec_dora(&self) -> Seq<u8> {
        self.taku.n1@.subrange(0, self.dora_len as int).map_values(|p: PaiT| p.pai_num)
    }

    open spec fn spec_uradora(&self) -> Seq<u8> {
        self.taku.n1@.subrange(5, 5 + self.uradora_len as int).map_values(|p: PaiT| p.pai_num)
    }

    open spec fn spec_ctx_ok(&self, who: int) -> bool {
        &&& 1 <= self.player_len <= 4
        &&& 0 <= who < self.player_len
        &&& self.oya < self.player_len
        &&& self.bakaze < 4
        &&& self.dora_len <= 8
        &&& self.uradora_len <= 8
        &&& (forall|i: int| 0 <= i < self.dora_len ==> (#[trigger] self.taku.n1@[i]).pai_num < 34)
        &&& (forall|i: int|
            5 <= i < 5 + self.uradora_len ==> (#[trigger] self.taku.n1@[i]).pai_num < 34)
    }

    fn get_agari(&self, who: usize, mentsu: &Vec<Mentsu>, fulo: &Vec<Mentsu>) -> (r: AgariState) {
        let zikaze = self.get_zikaze(who);
        build_agari_state(self.bakaze, zikaze, mentsu, fulo)
    }

    fn get_condition_yaku(&self, who: usize, state: &AgariState) -> (r: Vec<(String, i32)>) {
        let player = &self.players[who];
        let mut out: Vec<(String, i32)> = Vec::new();
        if player.is_riichi {
            out.push(("立直".to_owned(), 1));
        }
        if player.is_ippatsu {
            out.push(("一発".to_owned(), 1));
        }
        proof {
            assert(yaku_view(out@) =~= spec_condition_yaku(
                self.spec_is_riichi(who as int),
                self.spec_is_ippatsu(who as int),
            ));
        }
        out
    }

    fn get_dora_yaku(
        &self,
        who: usize,
        mentsu: &Vec<Mentsu>,
        fulo: &Vec<Mentsu>,
        nukidora: usize,
    ) -> (r: Vec<(String, i32)>) {
        let dora_pais = self.get_dora_kinds();
        let uradora_pais = self.get_uradora_kinds();
        let riichi = self.players[who].is_riichi;

        let dora_count = count_dora(&dora_pais, mentsu) + count_dora(&dora_pais, fulo);
        let dora_num = dora_count + nukidora as i32;
        let uradora_num: i32 = if riichi {
            count_dora(&uradora_pais, mentsu) + count_dora(&uradora_pais, fulo)
        } else {
            0
        };

        let mut ret: Vec<(String, i32)> = Vec::new();
        if dora_num > 0 {
            ret.push(("ドラ".to_owned(), dora_num));
        }
        if uradora_num > 0 {
            ret.push(("裏ドラ".to_owned(), uradora_num));
        }
        proof {
            assert(yaku_view(ret@) =~= spec_dora_yaku(
                self.spec_dora(),
                self.spec_uradora(),
                self.spec_is_riichi(who as int),
                mentsu@,
                fulo@,
                nukidora as int,
            ));
        }
        ret
    }

    #[verifier::rlimit(100)]
    #[verifier::spinoff_prover]
    fn get_best_agari(
        &self,
        who: usize,
        mentsu: &Vec<Vec<Mentsu>>,
        fulo: &Vec<Mentsu>,
        nukidora: usize,
    ) -> (r: Result<Agari, CoreError>) {
        let n = mentsu.len();
        if n == 0 {
            return Err(CoreError::NoValidDecomposition);
        }
        let mut best = self.eval_one(who, &mentsu[0], fulo, nukidora);
        proof {
            assert(views_of(mentsu@)[0] == mentsu@[0]@);
            assert(agari_view(best) == spec_best_agari(
                self.spec_bakaze(),
                spec_zikaze(*self, who as int),
                self.spec_is_riichi(who as int),
                self.spec_is_ippatsu(who as int),
                self.spec_dora(),
                self.spec_uradora(),
                views_of(mentsu@),
                fulo@,
                nukidora as int,
                1,
            ));
        }
        for i in 1..n
            invariant
                n == mentsu@.len(),
                self.spec_ctx_ok(who as int),
                forall|q: int|
                    0 <= q < mentsu@.len() ==> (#[trigger] mentsu@[q])@.len() + fulo@.len() <= 100
                        && valid_meld_kinds(mentsu@[q]@),
                valid_meld_kinds(fulo@),
                nukidora <= 1000,
                0 <= best.score <= 3_000_000,
                agari_view(best) == spec_best_agari(
                    self.spec_bakaze(),
                    spec_zikaze(*self, who as int),
                    self.spec_is_riichi(who as int),
                    self.spec_is_ippatsu(who as int),
                    self.spec_dora(),
                    self.spec_uradora(),
                    views_of(mentsu@),
                    fulo@,
                    nukidora as int,
                    i as int,
                ),
        {
            let cand = self.eval_one(who, &mentsu[i], fulo, nukidora);
            if cand.score >= best.score {
                best = cand;
            }
        }
        if best.yaku.len() == 0 {
            proof {
                assert(yaku_view(best.yaku@).len() == 0);
            }
            Err(CoreError::NoYaku)
        } else {
            proof {
                assert(yaku_view(best.yaku@).len() > 0);
            }
            Ok(best)
        }
    }
}

/// How many bonus matches the indicators score against one meld list.
fn count_dora(dora_kinds: &Vec<u8>, ms: &Vec<Mentsu>) -> (r: i32)
    requires
        dora_kinds@.len() <= 8,
        forall|i: int| 0 <= i < dora_kinds@.len() ==> #[trigger] dora_kinds@[i] < 34,
        ms@.len() <= 100,
    ensures
        r as int == crate::agari::melds_dora(dora_kinds@, ms@, ms@.len() as int),
        0 <= r <= 3200,
{
    let n = ms.len();
    let mut total: i32 = 0;
    for i in 0..n
        invariant
            n == ms@.len() <= 100,
            dora_kinds@.len() <= 8,
            forall|q: int| 0 <= q < dora_kinds@.len() ==> #[trigger] dora_kinds@[q] < 34,
            total as int == crate::agari::melds_dora(dora_kinds@, ms@, i as int),
            0 <= total <= 32 * i,
    {
        let m = &ms[i];
        let used: usize = if m.pai_len <= 4 {
            m.pai_len as usize
        } else {
            4
        };
        let mut md: i32 = 0;
        let mut t: usize = 0;
        while t < used
            invariant
                t <= used <= 4,
                used == crate::agari::slots_used(*m),
                dora_kinds@.len() <= 8,
                forall|q: int| 0 <= q < dora_kinds@.len() ==> #[trigger] dora_kinds@[q] < 34,
                md as int == crate::agari::meld_dora(dora_kinds@, *m, t as int),
                0 <= md <= 8 * t,
            decreases used - t,
        {
            let kind = m.pai_list[t].pai_num;
            let mut dm: i32 = 0;
            let nd = dora_kinds.len();
            for d in 0..nd
                invariant
                    nd == dora_kinds@.len() <= 8,
                    forall|q: int| 0 <= q < dora_kinds@.len() ==> #[trigger] dora_kinds@[q] < 34,
                    dm as int == crate::agari::dora_matches(
                        dora_kinds@.take(d as int),
                        kind as int,
                    ),
                    0 <= dm <= d,
            {
                proof {
                    assert(dora_kinds@.take(d + 1).drop_last() =~= dora_kinds@.take(d as int));
                    assert(dora_kinds@.take(d + 1).last() == dora_kinds@[d as int]);
                }
                let dk = dora_kinds[d];
                if crate::agari::dora_pai_num(dk) == kind {
                    dm = dm + 1;
                }
            }
            proof {
                assert(dora_kinds@.take(nd as int) =~= dora_kinds@);
            }
            md = md + dm;
            t = t + 1;
        }
        total = total + md;
    }
    total
}

impl GameStateT {
    /// The kinds of the open bonus indicators.
    fn get_dora_kinds(&self) -> (r: Vec<u8>)
        requires
            self.dora_len <= 8,
        ensures
            r@ == self.spec_dora(),
            r@.len() <= 8,
    {
        let mut r: Vec<u8> = Vec::new();
        let n = self.dora_len as usize;
        for i in 0..n
            invariant
                n == self.dora_len <= 8,
                r@ =~= self.taku.n1@.subrange(0, i as int).map_values(|p: PaiT| p.pai_num),
        {
            r.push(self.taku.n1[i].pai_num);
            proof {
                assert(r@ =~= self.taku.n1@.subrange(0, i + 1).map_values(|p: PaiT| p.pai_num));
            }
        }
        proof {
            assert(r@ =~= self.spec_dora());
        }
        r
    }

    /// The kinds of the hidden bonus indicators.
    fn get_uradora_kinds(&self) -> (r: Vec<u8>)
        requires
            self.uradora_len <= 8,
        ensures
            r@ == self.spec_uradora(),
            r@.len() <= 8,
    {
        let mut r: Vec<u8> = Vec::new();
        let n = self.uradora_len as usize;
        for i in 0..n
            invariant
                n == self.uradora_len <= 8,
                r@ =~= self.taku.n1@.subrange(5, 5 + i as int).map_values(|p: PaiT| p.pai_num),
        {
            r.push(self.taku.n1[i + 5].pai_num);
            proof {
                assert(r@ =~= self.taku.n1@.subrange(5, 5 + i + 1).map_values(
                    |p: PaiT| p.pai_num,
                ));
            }
        }
        proof {
            assert(r@ =~= self.spec_uradora());
        }
        r
    }

    /// Classifies and scores one decomposition under this table's context.
    fn eval_one(&self, who: usize, d: &Vec<Mentsu>, fulo: &Vec<Mentsu>, nukidora: usize) -> (r:
        Agari)
        requires
            self.spec_ctx_ok(who as int),
            d@.len() + fulo@.len() <= 100,
            valid_meld_kinds(d@),
            valid_meld_kinds(fulo@),
            nukidora <= 1000,
        ensures
            agari_view(r) == spec_eval_one(
                self.spec_bakaze(),
                spec_zikaze(*self, who as int),
                self.spec_is_riichi(who as int),
                self.spec_is_ippatsu(who as int),
                self.spec_dora(),
                self.spec_uradora(),
                d@,
                fulo@,
                nukidora as int,
            ),
            0 <= r.score <= 3_000_000,
    {
        let agari = AgariBehavior::get_agari(self, who, d, fulo);
        let mut yakus = AgariBehavior::get_condition_yaku(self, who, &agari);
        let battery = agari.get_yaku_list();
        crate::agari::extend_yaku(&mut yakus, &battery);
        let dora = AgariBehavior::get_dora_yaku(self, who, d, fulo, nukidora);
        crate::agari::extend_yaku(&mut yakus, &dora);
        proof {
            let cond = spec_condition_yaku(
                self.spec_is_riichi(who as int),
                self.spec_is_ippatsu(who as int),
            );
            let battery = spec_yaku_list(agari@);
            let bonus = spec_dora_yaku(
                self.spec_dora(),
                self.spec_uradora(),
                self.spec_is_riichi(who as int),
                d@,
                fulo@,
                nukidora as int,
            );
            crate::agari::lemma_condition_yaku_bounds(
                self.spec_is_riichi(who as int),
                self.spec_is_ippatsu(who as int),
            );
            lemma_yaku_list_bounds(agari@);
            assert(crate::agari::bounded_values(battery)) by {
                assert(forall|q: int|
                    0 <= q < battery.len() ==> -2 <= (#[trigger] battery[q]).1 <= 6);
            }
            crate::agari::lemma_dora_yaku_bounds(
                self.spec_dora(),
                self.spec_uradora(),
                self.spec_is_riichi(who as int),
                d@,
                fulo@,
                nukidora as int,
            );
            crate::agari::lemma_bounded_concat(cond, battery);
            crate::agari::lemma_bounded_concat(cond + battery, bonus);
            assert(yaku_view(yakus@) == (cond + battery) + bonus);
            crate::agari::lemma_values_from_view(yakus@);
            assert(yaku_view(yakus@).len() <= 36);
            assert(yakus@.len() == yaku_view(yakus@).len());
        }
        let r = agari.get_agari(&yakus);
        r
    }
}

} // verus!
