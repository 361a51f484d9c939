use minobot::compressor::compress_key;
use minobot::compressor::compress_move;
use minobot::compressor::convert_compressed;
use minobot::compressor::decompress_key;
use minobot::compressor::decompress_move;
use minobot::data::ComboTable;
use minobot::data::KickTable;
use minobot::data::Mino;
use minobot::data::Move;
use minobot::data::Spin;
use minobot::game::Game;

#[test]
fn block_tables_match_the_catalogue() {
    assert_eq!(Mino::I.rot(0), [(0, 1), (1, 1), (2, 1), (3, 1)]);
    assert_eq!(Mino::I.rot(1), [(1, 3), (1, 2), (1, 1), (1, 0)]);
    assert_eq!(Mino::T.rot(0), [(1, 0), (0, 1), (1, 1), (2, 1)]);
    assert_eq!(Mino::S.rot(1), [(0, 2), (0, 1), (1, 1), (1, 0)]);
    assert_eq!(Mino::O.rot(3), [(1, 0), (1, 1), (0, 0), (0, 1)]);
    assert_eq!(Mino::I.width(), 4);
    assert_eq!(Mino::O.width(), 2);
    assert_eq!(Mino::Z.width(), 3);
    let d = Mino::J.data();
    assert_eq!(d.w, 3);
    assert_eq!(d.rots[2], [(0, 2), (2, 1), (1, 1), (0, 1)]);
}

#[test]
fn kick_tables_match_the_catalogue() {
    assert_eq!(KickTable::get_index(0, 1), 0);
    assert_eq!(KickTable::get_index(1, 0), 1);
    assert_eq!(KickTable::get_index(0, 2), 8);
    assert_eq!(KickTable::get_index(3, 1), 11);
    assert_eq!(
        KickTable::SRS.data(Mino::T, 0, 1),
        [(0, 0), (-1, 0), (-1, -1), (0, 2), (-1, 2)]
    );
    assert_eq!(
        KickTable::SRSPlus.data(Mino::T, 0, 1),
        [(0, 0), (-1, 0), (-1, -1), (0, 2), (-1, 2)]
    );
    assert_eq!(
        KickTable::SRS.data(Mino::I, 0, 1),
        [(0, 0), (-2, 0), (1, 0), (-2, 1), (1, -2)]
    );
    assert_eq!(
        KickTable::SRSPlus.data(Mino::I, 0, 1),
        [(0, 0), (1, 0), (-2, 0), (-2, 1), (1, -2)]
    );
    assert_eq!(
        KickTable::SRSPlus.data(Mino::I, 1, 3),
        [(0, 0), (1, 0), (0, 0), (0, 0), (0, 0)]
    );
}

#[test]
fn combo_tables() {
    assert_eq!(ComboTable::Off.get(), vec![0]);
    assert_eq!(ComboTable::Classic.get(), vec![0, 1, 1, 2, 2, 3, 3, 4, 4, 4, 5]);
    assert_eq!(
        ComboTable::Modern.get(),
        vec![0, 1, 1, 2, 2, 2, 3, 3, 3, 3, 3, 3, 4]
    );
}

#[test]
fn names() {
    assert_eq!(Mino::T.str(), "T");
    assert_eq!(Spin::Mini.str(), "mini");
    assert_eq!(Move::HardDrop.str(), "hard drop");
    assert_eq!(Move::Left.triangle_key(), "moveLeft");
    assert_eq!(Move::Flip.triangle_key(), "rotate180");
    assert_eq!(Move::HardDrop.triangle_key(), "hardDrop");
}

#[test]
fn compressed_keys_round_trip() {
    let mut g = Game::new(Mino::T, [Mino::I; 32]);
    g.piece.x = 7;
    g.piece.y = 21;
    g.piece.rot = 2;
    let k = compress_key(&g, Move::CW);
    let (x, y, rot, mv) = decompress_key(k);
    assert_eq!((x, y, rot), (7, 21, 2));
    assert_eq!(mv, Move::CW);
    let mk = compress_move(&g, true);
    let (x2, y2, rot2, hold) = decompress_move(mk);
    assert_eq!((x2, y2, rot2, hold), (7, 21, 2, true));
    let converted = convert_compressed(k, true);
    let (x3, y3, rot3, hold3) = decompress_move(converted);
    assert_eq!((x3, y3, rot3, hold3), (7, 21, 2, true));
    let cleared = convert_compressed(k, false);
    assert_eq!(decompress_move(cleared).3, false);
}
