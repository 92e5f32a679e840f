use mahjong_core::taku::{TakuControl, TakuT};
use mahjong_core::tile::PaiT;

#[test]
fn taku_shuffle_test() {
    let taku = TakuT::create_shuffled();

    let target = PaiT {
        pai_num: 30,
        id: 2,
        is_tsumogiri: false,
        is_riichi: false,
        is_nakare: false,
    };

    assert!(taku.search(&target).is_ok(), "シャッフルした牌が見つからない");

    assert!(taku.get(135).is_ok(), "雀卓の牌を取得できない");
}

#[test]
fn taku_get_range_test() {
    let taku = TakuT::create_shuffled();

    let r = taku.get_range(0..13);

    assert!(r.is_ok(), "成功");

    assert_eq!(r.unwrap().len(), 13);

    let r2 = taku.get_range(14..40);

    assert!(r2.is_ok(), "成功");

    assert_eq!(r2.unwrap().len(), 26);

    let r3 = taku.get_range(34..130);

    assert!(r3.is_ok(), "成功");

    assert_eq!(r3.unwrap().len(), 96);
}

/// Loading a recorded wall keeps every tile in its recorded slot.
#[test]
fn taku_load_keeps_order() {
    let mut ids: Vec<u32> = Vec::new();
    for kind in 0..34u32 {
        for copy in 0..4u32 {
            ids.push(kind * 4 + copy);
        }
    }
    let taku = TakuT::load(&ids);
    let first = taku.get(0).unwrap();
    assert_eq!(first.pai_num, 0);
    assert_eq!(first.id, 0);
    let last = taku.get(135).unwrap();
    assert_eq!(last.pai_num, 33);
    assert_eq!(last.id, 3);
    assert!(taku.get(136).is_err());
}
