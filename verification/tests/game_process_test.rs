use mahjong_core::game::GameStateT;
use mahjong_core::tile::PaiT;

#[test]
fn game_start_test() {
    let mut state = GameStateT::default();

    // A single-seat game.
    state.create("test".as_bytes(), 1);
    state.shuffle();

    state.start();

    assert!(state.tsumo().is_ok(), "ツモ失敗");

    let mut player = state.get_player(0);

    assert_eq!(player.tehai_len, 13);
    assert_ne!(player.tsumohai, PaiT::default());

    state.sutehai(10, false);
    assert!(state.tsumo().is_ok(), "ツモ失敗");

    player = state.get_player(0);

    assert_eq!(player.tehai_len, 13);
    assert_ne!(player.tsumohai, PaiT::default());
}

/// Dealing hands the seat a sorted thirteen-tile hand and the discard swaps
/// the drawn tile in while keeping the hand sorted.
#[test]
fn start_deals_sorted_hands() {
    let mut state = GameStateT::default();
    state.create("test".as_bytes(), 2);
    state.shuffle();
    state.start();
    for idx in 0..2 {
        let p = state.get_player(idx);
        assert_eq!(p.tehai_len, 13);
        for t in 1..13 {
            assert!(p.tehai[t - 1].get_pai_id() <= p.tehai[t].get_pai_id());
        }
    }
}

/// The default rule sheet funds every seat.
#[test]
fn create_funds_players() {
    let mut state = GameStateT::default();
    state.create("test".as_bytes(), 4);
    for idx in 0..4 {
        assert_eq!(state.get_player(idx).score, 25000);
    }
}

/// Dealing consumes each seat's window: the seat cursor ends just past its
/// thirteen dealt tiles, and the remaining-tile count reflects the deal.
#[test]
fn start_advances_the_draw_cursor() {
    let mut state = GameStateT::default();
    state.create("test".as_bytes(), 1);
    let mut ids: Vec<u32> = Vec::new();
    for kind in 0..34u32 {
        for copy in 0..4u32 {
            ids.push(kind * 4 + copy);
        }
    }
    state.load(&ids);
    state.start();

    let player = state.get_player(0);
    assert_eq!(player.cursol, 27);
    assert_eq!(state.remain(), 122 - 13);

    // The first draw comes from past the dealt window, not from the hand.
    assert!(state.tsumo().is_ok());
    let player = state.get_player(0);
    // Slot 27 of the identity wall holds kind 6, copy 3.
    assert_eq!(player.tsumohai.pai_num, 6);
    assert_eq!(player.tsumohai.id, 3);
}
