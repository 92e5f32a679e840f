use mahjong_core::agari::AgariBehavior;
use mahjong_core::game::{ActionType, GameStateT};
use mahjong_core::interface::{MJMI, MJPI, RULE};
use mahjong_core::mentsu::{Mentsu, MentsuFlag, MentsuPai, MentsuType};
use mahjong_core::parse::{str_to_fulo, str_to_pais};
use mahjong_core::taku::{TakuControl, TakuT};
use mahjong_core::tile::{sort_pais, validate_pais, PaiT};
use mahjong_core::CoreError;

#[test]
fn pai_id_and_validity() {
    let p = PaiT { pai_num: 33, id: 3, is_tsumogiri: false, is_riichi: false, is_nakare: false };
    assert_eq!(p.get_pai_id(), 33 * 4 + 3);
    assert!(p.is_valid());
    let bad_kind =
        PaiT { pai_num: 34, id: 0, is_tsumogiri: false, is_riichi: false, is_nakare: false };
    assert!(!bad_kind.is_valid());
    let bad_copy =
        PaiT { pai_num: 0, id: 4, is_tsumogiri: false, is_riichi: false, is_nakare: false };
    assert!(!bad_copy.is_valid());
}

#[test]
fn sorting_orders_by_kind_then_copy() {
    let mut v = vec![
        PaiT { pai_num: 9, id: 1, is_tsumogiri: false, is_riichi: false, is_nakare: false },
        PaiT { pai_num: 0, id: 2, is_tsumogiri: false, is_riichi: false, is_nakare: false },
        PaiT { pai_num: 9, id: 0, is_tsumogiri: false, is_riichi: false, is_nakare: false },
        PaiT { pai_num: 0, id: 1, is_tsumogiri: false, is_riichi: false, is_nakare: false },
    ];
    sort_pais(&mut v);
    let ids: Vec<u32> = v.iter().map(|p| p.get_pai_id()).collect();
    assert_eq!(ids, vec![1, 2, 36, 37]);
}

#[test]
fn message_numbers_decode_in_order() {
    assert_eq!(MJPI::from_value(1), Some(MJPI::MJPI_INITIALIZE));
    assert_eq!(MJPI::from_value(10), Some(MJPI::MJPI_CREATEINSTANCE));
    assert_eq!(MJPI::from_value(0), None);
    assert_eq!(MJPI::from_value(14), None);
    assert_eq!(MJMI::from_value(1), Some(MJMI::MJMI_GETTEHAI));
    assert_eq!(MJMI::from_value(23), Some(MJMI::MJMI_ANKANABILITY));
    assert_eq!(RULE::from_value(1), Some(RULE::MJRL_KUITAN));
    assert_eq!(RULE::from_value(26), Some(RULE::MJRL_DBLRONCHONBO));
    assert_eq!(RULE::from_value(27), None);
}

#[test]
fn parse_hand_string() {
    let pais = str_to_pais("m123p45z7");
    let kinds: Vec<u8> = pais.iter().map(|p| p.pai_num).collect();
    assert_eq!(kinds, vec![0, 1, 2, 12, 13, 33]);
}

#[test]
fn parse_called_triplet() {
    let m = str_to_fulo("m333+");
    assert_eq!(m.mentsu_type(), MentsuType::TYPE_KOUTSU);
    assert_eq!(m.pai_len(), 3);
    assert_eq!(m.pai_list()[0].pai_num(), 2);
    assert_eq!(m.pai_list()[2].flag(), MentsuFlag::FLAG_SIMOCHA);
}

#[test]
fn parse_concealed_quad() {
    let m = str_to_fulo("z1111");
    assert_eq!(m.mentsu_type(), MentsuType::TYPE_ANKAN);
    assert_eq!(m.pai_len(), 4);
    assert_eq!(m.pai_list()[3].pai_num(), 27);
}

/// Bonus indicators reward the following kind: an indicator one rank below
/// the hand's run adds one bonus per matching tile.
#[test]
fn dora_counts_matching_tiles() {
    let mut state = GameStateT::default();
    state.player_len = 1;
    // The indicator m1 rewards m2.
    state.taku.n1[0] =
        PaiT { pai_num: 0, id: 0, is_tsumogiri: false, is_riichi: false, is_nakare: false };
    state.dora_len = 1;
    let mentsu = vec![Mentsu::new(
        &[
            MentsuPai::new(1, 0, MentsuFlag::FLAG_NONE),
            MentsuPai::new(2, 0, MentsuFlag::FLAG_NONE),
            MentsuPai::new(3, 0, MentsuFlag::FLAG_NONE),
            MentsuPai::new(0, 0, MentsuFlag::FLAG_NONE),
        ],
        3,
        MentsuType::TYPE_SHUNTSU,
    )];
    let fulo: Vec<Mentsu> = Vec::new();
    let bonus = state.get_dora_yaku(0, &mentsu, &fulo, 0);
    assert_eq!(bonus.len(), 1);
    assert_eq!(bonus[0].0, "ドラ");
    assert_eq!(bonus[0].1, 1);
}

/// Extracted bonus tiles are added even with no indicator match.
#[test]
fn nukidora_added_unconditionally() {
    let mut state = GameStateT::default();
    state.player_len = 1;
    let mentsu: Vec<Mentsu> = Vec::new();
    let fulo: Vec<Mentsu> = Vec::new();
    let bonus = state.get_dora_yaku(0, &mentsu, &fulo, 3);
    assert_eq!(bonus.len(), 1);
    assert_eq!(bonus[0].1, 3);
}

#[test]
fn out_of_range_tiles_are_rejected_at_ingestion() {
    let good = vec![
        PaiT { pai_num: 0, id: 0, is_tsumogiri: false, is_riichi: false, is_nakare: false },
        PaiT { pai_num: 33, id: 3, is_tsumogiri: false, is_riichi: false, is_nakare: false },
    ];
    assert!(validate_pais(&good).is_ok());
    let bad = vec![
        PaiT { pai_num: 34, id: 0, is_tsumogiri: false, is_riichi: false, is_nakare: false },
    ];
    assert_eq!(validate_pais(&bad).unwrap_err(), CoreError::InvalidTile);
}

#[test]
fn acting_out_of_turn_is_rejected() {
    let mut state = GameStateT::default();
    state.create("test".as_bytes(), 2);
    state.shuffle();
    state.start();
    // Seat one acts while seat zero holds the turn.
    let r = state.action(ActionType::ACTION_SUTEHAI, 1, 0);
    assert_eq!(r.unwrap_err(), CoreError::NotTeban);
}

#[test]
fn searching_for_an_absent_tile_fails() {
    let taku = TakuT::create_shuffled();
    // No tile of the deck carries copy id 9.
    let ghostly =
        PaiT { pai_num: 0, id: 9, is_tsumogiri: false, is_riichi: false, is_nakare: false };
    assert_eq!(taku.search(&ghostly).unwrap_err(), CoreError::NotFound);
}
