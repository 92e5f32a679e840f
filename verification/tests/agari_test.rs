use mahjong_core::agari::{add_machi_to_mentsu, AgariBehavior};
use mahjong_core::game::GameStateT;
use mahjong_core::mentsu::{Mentsu, MentsuFlag, MentsuPai, MentsuType};
use mahjong_core::shanten::{all_of_mentsu, PaiState};
use mahjong_core::tile::{Pai, PaiT};
use mahjong_core::CoreError;

#[test]
fn test_add_machi_to_mentsu() {
    let mentsu = vec![
        vec![
            Mentsu::new(
                &[
                    MentsuPai::new(1, 0, MentsuFlag::FLAG_NONE),
                    MentsuPai::new(2, 0, MentsuFlag::FLAG_NONE),
                    MentsuPai::new(3, 0, MentsuFlag::FLAG_NONE),
                    MentsuPai::new(0, 0, MentsuFlag::FLAG_NONE),
                ],
                3,
                MentsuType::TYPE_SHUNTSU,
            ),
            Mentsu::new(
                &[
                    MentsuPai::new(4, 0, MentsuFlag::FLAG_NONE),
                    MentsuPai::new(5, 0, MentsuFlag::FLAG_NONE),
                    MentsuPai::new(6, 0, MentsuFlag::FLAG_NONE),
                    MentsuPai::new(0, 0, MentsuFlag::FLAG_NONE),
                ],
                3,
                MentsuType::TYPE_SHUNTSU,
            ),
        ],
        vec![
            Mentsu::new(
                &[
                    MentsuPai::new(7, 0, MentsuFlag::FLAG_NONE),
                    MentsuPai::new(8, 0, MentsuFlag::FLAG_NONE),
                    MentsuPai::new(9, 0, MentsuFlag::FLAG_NONE),
                    MentsuPai::new(0, 0, MentsuFlag::FLAG_NONE),
                ],
                3,
                MentsuType::TYPE_SHUNTSU,
            ),
            Mentsu::new(
                &[
                    MentsuPai::new(1, 0, MentsuFlag::FLAG_NONE),
                    MentsuPai::new(2, 0, MentsuFlag::FLAG_NONE),
                    MentsuPai::new(3, 0, MentsuFlag::FLAG_NONE),
                    MentsuPai::new(0, 0, MentsuFlag::FLAG_NONE),
                ],
                3,
                MentsuType::TYPE_SHUNTSU,
            ),
        ],
    ];

    let p = Pai::new(2, 0, false, false, false);

    let result = add_machi_to_mentsu(&mentsu, &p);

    assert_eq!(
        result,
        vec![
            vec![
                Mentsu::new(
                    &[
                        MentsuPai::new(1, 0, MentsuFlag::FLAG_NONE),
                        MentsuPai::new(2, 0, MentsuFlag::FLAG_AGARI),
                        MentsuPai::new(3, 0, MentsuFlag::FLAG_NONE),
                        MentsuPai::new(0, 0, MentsuFlag::FLAG_NONE),
                    ],
                    3,
                    MentsuType::TYPE_SHUNTSU,
                ),
                Mentsu::new(
                    &[
                        MentsuPai::new(4, 0, MentsuFlag::FLAG_NONE),
                        MentsuPai::new(5, 0, MentsuFlag::FLAG_NONE),
                        MentsuPai::new(6, 0, MentsuFlag::FLAG_NONE),
                        MentsuPai::new(0, 0, MentsuFlag::FLAG_NONE),
                    ],
                    3,
                    MentsuType::TYPE_SHUNTSU,
                ),
            ],
            vec![
                Mentsu::new(
                    &[
                        MentsuPai::new(7, 0, MentsuFlag::FLAG_NONE),
                        MentsuPai::new(8, 0, MentsuFlag::FLAG_NONE),
                        MentsuPai::new(9, 0, MentsuFlag::FLAG_NONE),
                        MentsuPai::new(0, 0, MentsuFlag::FLAG_NONE),
                    ],
                    3,
                    MentsuType::TYPE_SHUNTSU,
                ),
                Mentsu::new(
                    &[
                        MentsuPai::new(1, 0, MentsuFlag::FLAG_NONE),
                        MentsuPai::new(2, 0, MentsuFlag::FLAG_AGARI),
                        MentsuPai::new(3, 0, MentsuFlag::FLAG_NONE),
                        MentsuPai::new(0, 0, MentsuFlag::FLAG_NONE),
                    ],
                    3,
                    MentsuType::TYPE_SHUNTSU,
                ),
            ],
        ]
    );
}

#[test]
fn test_add_machi_to_mentsu2() {
    let mentsu = vec![
        vec![
            Mentsu::new(
                &[
                    MentsuPai::new(2, 0, MentsuFlag::FLAG_NONE),
                    MentsuPai::new(2, 0, MentsuFlag::FLAG_NONE),
                    MentsuPai::new(2, 0, MentsuFlag::FLAG_NONE),
                    MentsuPai::new(0, 0, MentsuFlag::FLAG_NONE),
                ],
                3,
                MentsuType::TYPE_KOUTSU,
            ),
            Mentsu::new(
                &[
                    MentsuPai::new(4, 0, MentsuFlag::FLAG_NONE),
                    MentsuPai::new(5, 0, MentsuFlag::FLAG_NONE),
                    MentsuPai::new(6, 0, MentsuFlag::FLAG_NONE),
                    MentsuPai::new(0, 0, MentsuFlag::FLAG_NONE),
                ],
                3,
                MentsuType::TYPE_SHUNTSU,
            ),
        ],
        vec![
            Mentsu::new(
                &[
                    MentsuPai::new(2, 0, MentsuFlag::FLAG_NONE),
                    MentsuPai::new(3, 0, MentsuFlag::FLAG_NONE),
                    MentsuPai::new(4, 0, MentsuFlag::FLAG_NONE),
                    MentsuPai::new(0, 0, MentsuFlag::FLAG_NONE),
                ],
                3,
                MentsuType::TYPE_SHUNTSU,
            ),
            Mentsu::new(
                &[
                    MentsuPai::new(1, 0, MentsuFlag::FLAG_NONE),
                    MentsuPai::new(2, 0, MentsuFlag::FLAG_NONE),
                    MentsuPai::new(3, 0, MentsuFlag::FLAG_NONE),
                    MentsuPai::new(0, 0, MentsuFlag::FLAG_NONE),
                ],
                3,
                MentsuType::TYPE_SHUNTSU,
            ),
        ],
    ];

    let p = Pai::new(2, 0, false, false, false);

    let result = add_machi_to_mentsu(&mentsu, &p);

    assert_eq!(
        result,
        vec![
            vec![
                Mentsu::new(
                    &[
                        MentsuPai::new(2, 0, MentsuFlag::FLAG_AGARI),
                        MentsuPai::new(2, 0, MentsuFlag::FLAG_NONE),
                        MentsuPai::new(2, 0, MentsuFlag::FLAG_NONE),
                        MentsuPai::new(0, 0, MentsuFlag::FLAG_NONE),
                    ],
                    3,
                    MentsuType::TYPE_KOUTSU,
                ),
                Mentsu::new(
                    &[
                        MentsuPai::new(4, 0, MentsuFlag::FLAG_NONE),
                        MentsuPai::new(5, 0, MentsuFlag::FLAG_NONE),
                        MentsuPai::new(6, 0, MentsuFlag::FLAG_NONE),
                        MentsuPai::new(0, 0, MentsuFlag::FLAG_NONE),
                    ],
                    3,
                    MentsuType::TYPE_SHUNTSU,
                ),
            ],
            vec![
                Mentsu::new(
                    &[
                        MentsuPai::new(2, 0, MentsuFlag::FLAG_AGARI),
                        MentsuPai::new(3, 0, MentsuFlag::FLAG_NONE),
                        MentsuPai::new(4, 0, MentsuFlag::FLAG_NONE),
                        MentsuPai::new(0, 0, MentsuFlag::FLAG_NONE),
                    ],
                    3,
                    MentsuType::TYPE_SHUNTSU,
                ),
                Mentsu::new(
                    &[
                        MentsuPai::new(1, 0, MentsuFlag::FLAG_NONE),
                        MentsuPai::new(2, 0, MentsuFlag::FLAG_NONE),
                        MentsuPai::new(3, 0, MentsuFlag::FLAG_NONE),
                        MentsuPai::new(0, 0, MentsuFlag::FLAG_NONE),
                    ],
                    3,
                    MentsuType::TYPE_SHUNTSU,
                ),
            ],
            vec![
                Mentsu::new(
                    &[
                        MentsuPai::new(2, 0, MentsuFlag::FLAG_NONE),
                        MentsuPai::new(3, 0, MentsuFlag::FLAG_NONE),
                        MentsuPai::new(4, 0, MentsuFlag::FLAG_NONE),
                        MentsuPai::new(0, 0, MentsuFlag::FLAG_NONE),
                    ],
                    3,
                    MentsuType::TYPE_SHUNTSU,
                ),
                Mentsu::new(
                    &[
                        MentsuPai::new(1, 0, MentsuFlag::FLAG_NONE),
                        MentsuPai::new(2, 0, MentsuFlag::FLAG_AGARI),
                        MentsuPai::new(3, 0, MentsuFlag::FLAG_NONE),
                        MentsuPai::new(0, 0, MentsuFlag::FLAG_NONE),
                    ],
                    3,
                    MentsuType::TYPE_SHUNTSU,
                ),
            ],
        ]
    );
}

fn tile(kind: u8) -> PaiT {
    PaiT { pai_num: kind, id: 0, is_tsumogiri: false, is_riichi: false, is_nakare: false }
}

/// A pure run-through hand completing on its pair tile by self-draw: the
/// single decomposition carries the pure-straight and self-draw categories.
#[test]
fn straight_hand_scores_ittsu() {
    let mut state = GameStateT::default();
    state.player_len = 1;
    let mut player = state.get_player(0);
    // m1..m9, p1 p1 p1, s5 in hand; winning on the second s5.
    let kinds = [0u8, 1, 2, 3, 4, 5, 6, 7, 8, 9, 9, 9, 22];
    for (i, k) in kinds.iter().enumerate() {
        player.tehai[i] = tile(*k);
    }
    player.tehai_len = 13;
    player.tsumohai = tile(22);
    player.is_tsumo = true;
    state.players[0] = player;

    let before = state.get_player(0).score;
    let agari = state.tsumo_agari().expect("a complete hand must score");
    assert_eq!(agari.fu, 40);
    assert_eq!(agari.han, 3);
    assert_eq!(agari.score, 5200);
    assert!(agari.yaku.iter().any(|y| y.0 == "一気通貫" && y.1 == 2));
    assert!(agari.yaku.iter().any(|y| y.0 == "門前清自摸和" && y.1 == 1));
    assert_eq!(state.get_player(0).score, before + 5200);
}

/// The fu of a straight hand rounds up to a multiple of ten at most nine
/// above the raw value: 20 base + 2 single wait + 8 terminal triplet + 2
/// self-draw is 32, reported as 40.
#[test]
fn fu_rounds_up_to_ten() {
    let mut state = GameStateT::default();
    state.player_len = 1;
    let mut player = state.get_player(0);
    let kinds = [0u8, 1, 2, 3, 4, 5, 6, 7, 8, 9, 9, 9, 22];
    for (i, k) in kinds.iter().enumerate() {
        player.tehai[i] = tile(*k);
    }
    player.tehai_len = 13;
    player.tsumohai = tile(22);
    player.is_tsumo = true;
    state.players[0] = player;

    let agari = state.tsumo_agari().unwrap();
    assert_eq!(agari.fu % 10, 0);
    assert!(agari.fu - 32 >= 0 && agari.fu - 32 < 10);
}

/// Scoring the same hand twice under the same context yields the same
/// result.
#[test]
fn scoring_is_deterministic() {
    let mut s1 = GameStateT::default();
    s1.player_len = 1;
    let mut player = s1.get_player(0);
    let kinds = [0u8, 1, 2, 3, 4, 5, 6, 7, 8, 9, 9, 9, 22];
    for (i, k) in kinds.iter().enumerate() {
        player.tehai[i] = tile(*k);
    }
    player.tehai_len = 13;
    player.tsumohai = tile(22);
    player.is_tsumo = true;
    s1.players[0] = player;
    let mut s2 = s1;

    let a1 = s1.tsumo_agari().unwrap();
    let a2 = s2.tsumo_agari().unwrap();
    assert_eq!(a1.score, a2.score);
    assert_eq!(a1.fu, a2.fu);
    assert_eq!(a1.han, a2.han);
    assert_eq!(a1.yaku, a2.yaku);
}

/// Seven identical-looking pairs decompose into two double runs of one
/// suit: the enumerator never yields a seven-pair partition, so the hand
/// scores as a concealed flush with two identical run pairs.
#[test]
fn seven_pairs_hand_scores_as_double_runs() {
    let mut state = GameStateT::default();
    state.player_len = 1;
    let mut player = state.get_player(0);
    let kinds = [0u8, 0, 1, 1, 2, 2, 3, 3, 4, 4, 5, 5, 6];
    for (i, k) in kinds.iter().enumerate() {
        player.tehai[i] = tile(*k);
    }
    player.tehai_len = 13;
    player.tsumohai = tile(6);
    player.is_tsumo = true;
    state.players[0] = player;

    let agari = state.tsumo_agari().unwrap();
    // Self-draw 1, no-points shape 1, two identical run pairs 3, flush 6.
    assert_eq!(agari.han, 11);
    assert_eq!(agari.score, 24000);
    assert!(agari.yaku.iter().any(|y| y.0 == "二盃口" && y.1 == 3));
    assert!(agari.yaku.iter().any(|y| y.0 == "清一色" && y.1 == 6));
    assert!(agari.yaku.iter().all(|y| y.0 != "七対子"));
}

/// An open hand with no qualifying category is an illegal win and is
/// reported as such, even though fu and han could be computed.
#[test]
fn no_yaku_win_is_rejected() {
    let mut state = GameStateT::default();
    state.player_len = 1;
    // Concealed after the win: p3 p4 p5, s6 s7 s8, s7 s8 s9, m2 m2.
    let hand = vec![
        tile(11),
        tile(12),
        tile(13),
        tile(23),
        tile(24),
        tile(25),
        tile(24),
        tile(25),
        tile(26),
        tile(1),
        tile(1),
    ];
    let mut pai_state = PaiState::from(&hand);
    // One run called from the left: m2 m3 m4.
    let fulo = vec![Mentsu::new(
        &[
            MentsuPai::new(1, 0, MentsuFlag::FLAG_KAMICHA),
            MentsuPai::new(2, 0, MentsuFlag::FLAG_NONE),
            MentsuPai::new(3, 0, MentsuFlag::FLAG_NONE),
            MentsuPai::new(0, 0, MentsuFlag::FLAG_NONE),
        ],
        3,
        MentsuType::TYPE_SHUNTSU,
    )];
    let all = all_of_mentsu(&mut pai_state, fulo.len());
    assert!(all.len() > 0);
    let with_machi = add_machi_to_mentsu(&all, &tile(11).pack());
    let best = state.get_best_agari(0, &with_machi, &fulo, 0);
    assert_eq!(best.unwrap_err(), CoreError::NoYaku);
}

/// An empty decomposition list means the claimed win has no legal shape.
#[test]
fn impossible_hand_yields_no_decomposition() {
    let state = GameStateT::default();
    let empty: Vec<Vec<Mentsu>> = Vec::new();
    let fulo: Vec<Mentsu> = Vec::new();
    let mut s = state;
    s.player_len = 1;
    let r = s.get_best_agari(0, &empty, &fulo, 0);
    assert_eq!(r.unwrap_err(), CoreError::NoValidDecomposition);
}

/// Every decomposition of a complete hand consumes exactly the hand's tiles.
#[test]
fn decompositions_consume_exactly_the_hand() {
    let hand = vec![
        tile(0),
        tile(0),
        tile(1),
        tile(1),
        tile(2),
        tile(2),
        tile(3),
        tile(3),
        tile(4),
        tile(4),
        tile(5),
        tile(5),
        tile(6),
        tile(6),
    ];
    let mut pai_state = PaiState::from(&hand);
    let all = all_of_mentsu(&mut pai_state, 0);
    assert_eq!(all.len(), 3);
    for d in &all {
        let mut counts = [0i32; 34];
        for m in d {
            for t in 0..m.pai_len() as usize {
                counts[m.pai_list()[t].pai_num() as usize] += 1;
            }
        }
        let mut expected = [0i32; 34];
        for t in &hand {
            expected[t.pai_num as usize] += 1;
        }
        assert_eq!(counts, expected);
    }
}
