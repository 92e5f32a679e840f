use mahjong_core::shanten::PaiState;
use mahjong_core::tile::PaiT;

fn tile(kind: u8) -> PaiT {
    PaiT { pai_num: kind, id: 1, is_tsumogiri: false, is_riichi: false, is_nakare: false }
}

fn hand(kinds: &[u8]) -> Vec<PaiT> {
    kinds.iter().map(|k| tile(*k)).collect()
}

/// A complete hand is at distance -1.
#[test]
fn complete_hand_is_minus_one() {
    // m1 m2 m3, m4 m5 m6, m7 m8 m9, p1 p1 p1, s5 s5
    let mut state = PaiState::from(&hand(&[0, 1, 2, 3, 4, 5, 6, 7, 8, 9, 9, 9, 22, 22]));
    assert_eq!(state.get_shanten(0), -1);
}

/// Removing one tile from a complete hand leaves it one draw away, and
/// adding that tile back restores completion.
#[test]
fn removing_and_restoring_a_tile() {
    let full = [0u8, 1, 2, 3, 4, 5, 6, 7, 8, 9, 9, 9, 22, 22];
    for drop_at in 0..full.len() {
        let mut reduced: Vec<u8> = full.to_vec();
        let removed = reduced.remove(drop_at);
        let mut state = PaiState::from(&hand(&reduced));
        assert!(state.get_shanten(0) >= -1);
        state.append(&tile(removed));
        assert_eq!(state.get_shanten(0), -1);
    }
}

/// Thirteen unconnected tiles sit at the formula's far end.
#[test]
fn scattered_hand_distance() {
    let mut state = PaiState::from(&hand(&[0, 3, 6, 9, 12, 15, 18, 21, 24, 27, 28, 29, 30]));
    assert_eq!(state.get_shanten(0), 8);
}

/// One tile short of a run keeps the hand at distance zero.
#[test]
fn tenpai_hand_distance() {
    // m1 m2 m3, m4 m5 m6, m7 m8, p1 p1 p1, s5 s5
    let mut state = PaiState::from(&hand(&[0, 1, 2, 3, 4, 5, 6, 7, 9, 9, 9, 22, 22]));
    assert_eq!(state.get_shanten(0), 0);
}

/// Declared open melds lower the required concealed groups.
#[test]
fn open_melds_count_toward_completion() {
    // m1 m2 m3, p1 p1 p1, s5 s5 concealed, two melds already declared.
    let mut state = PaiState::from(&hand(&[0, 1, 2, 9, 9, 9, 22, 22]));
    assert_eq!(state.get_shanten(2), -1);
}
