use ginseng_paisho::board::{is_in_bounds, square_id, square_of};
use ginseng_paisho::codec::ACTION_SLOTS;
use ginseng_paisho::movegen::MAX_NUM_POSSIBLE_MOVES;
use ginseng_paisho::{
    DecodeError, Direction, Ginseng, GinsengNet, MortalPiece, Move, Piece, PlayerID,
};

fn empty_game(player: PlayerID) -> Ginseng {
    let mut g = Ginseng::new();
    for r in 0..17usize {
        for c in 0..17usize {
            if is_in_bounds(r as i64, c as i64) {
                g.remove(r, c);
            }
        }
    }
    g.player = player;
    g
}

fn mv(
    player: PlayerID,
    piece: Piece,
    from: (usize, usize),
    to: (usize, usize),
    effect: Option<Direction>,
    exchange_into: Option<MortalPiece>,
) -> Move {
    Move {
        player,
        piece,
        from: square_id(from.0, from.1),
        to: square_id(to.0, to.1),
        effect,
        exchange_into,
    }
}

#[test]
fn start_is_not_terminal() {
    let g = Ginseng::new();
    assert_eq!(g.winner(), None);
    assert!(!g.is_over());
    assert_eq!(g.reward(PlayerID::Host), 0);
    assert_eq!(g.reward(PlayerID::Guest), 0);
    assert_eq!(g.player(), PlayerID::Guest);
    assert!(!g.legal_moves().is_empty());
}

#[test]
fn start_is_deterministic() {
    let a = Ginseng::new();
    let b = Ginseng::new();
    assert_eq!(a.player, b.player);
    for i in 0..289 {
        assert_eq!(a.board[i], b.board[i]);
    }
}

#[test]
fn start_layout() {
    let g = Ginseng::new();
    assert_eq!(g.occupant(8, 1), Some(Piece::Lotus { player: PlayerID::Host }));
    assert_eq!(g.occupant(8, 15), Some(Piece::Lotus { player: PlayerID::Guest }));
    assert_eq!(g.occupant(6, 14), Some(Piece::Dragon { player: PlayerID::Guest }));
    assert_eq!(g.occupant(12, 3), Some(Piece::SkyBison { player: PlayerID::Host }));
    assert_eq!(g.occupant(0, 0), Some(Piece::OutOfBounds));
    assert_eq!(g.occupant(8, 8), None);
    let mut tiles = 0;
    for r in 0..17 {
        for c in 0..17 {
            match g.occupant(r, c) {
                Some(Piece::OutOfBounds) | None => {}
                Some(_) => tiles += 1,
            }
        }
    }
    assert_eq!(tiles, 32);
}

#[test]
fn legal_moves_round_trip_through_codec() {
    let mut g = Ginseng::new();
    for _ in 0..6 {
        let moves = g.legal_moves();
        for m in moves.iter() {
            let index = m.to_index();
            assert!(index < ACTION_SLOTS);
            assert_eq!(Move::from_index(index), Ok(*m));
        }
        let first = moves[0];
        if g.step(&first) {
            break;
        }
    }
}

#[test]
fn action_space_is_bounded() {
    let g = Ginseng::new();
    assert!(g.legal_moves().len() <= MAX_NUM_POSSIBLE_MOVES);
    assert_eq!(MAX_NUM_POSSIBLE_MOVES, 2034);
}

#[test]
fn turns_alternate() {
    let mut g = Ginseng::new();
    let before = g.player();
    let m = g.legal_moves()[0];
    let over = g.step(&m);
    assert!(!over);
    assert_eq!(g.player(), before.next());
    assert_eq!(g.player(), PlayerID::Host);
    let m = g.legal_moves()[0];
    g.step(&m);
    assert_eq!(g.player(), PlayerID::Guest);
}

#[test]
fn no_move_lands_on_own_tile() {
    let g = Ginseng::new();
    for m in g.legal_moves() {
        let (r, c) = square_of(m.to).unwrap();
        match g.occupant(r, c) {
            Some(Piece::OutOfBounds) => panic!("move onto the marker"),
            Some(q) => assert_ne!(q.owner_of(), Some(m.player)),
            None => {}
        }
        assert_ne!(m.from, m.to);
        assert_eq!(m.player, PlayerID::Guest);
    }
}

#[test]
fn host_lotus_across_the_middle_wins() {
    let mut g = empty_game(PlayerID::Guest);
    g.place(8, 10, Piece::Lotus { player: PlayerID::Host });
    g.place(8, 12, Piece::Lotus { player: PlayerID::Guest });
    assert_eq!(g.winner(), Some(PlayerID::Host));
    assert_eq!(g.reward(PlayerID::Host), 1);
    assert_eq!(g.reward(PlayerID::Guest), -1);
    assert!(g.is_over());
    assert!(g.is_over());
}

#[test]
fn guest_lotus_across_the_middle_wins() {
    let mut g = empty_game(PlayerID::Host);
    g.place(4, 7, Piece::Lotus { player: PlayerID::Guest });
    assert_eq!(g.winner(), Some(PlayerID::Guest));
    assert_eq!(g.reward(PlayerID::Guest), 1);
    assert_eq!(g.reward(PlayerID::Host), -1);
}

#[test]
fn lotus_on_the_middle_column_does_not_win() {
    let mut g = empty_game(PlayerID::Host);
    g.place(8, 8, Piece::Lotus { player: PlayerID::Host });
    g.place(9, 8, Piece::Lotus { player: PlayerID::Guest });
    assert_eq!(g.winner(), None);
}

#[test]
fn side_without_moves_gets_empty_sequence() {
    let mut g = empty_game(PlayerID::Guest);
    g.place(8, 1, Piece::Lotus { player: PlayerID::Host });
    assert!(g.legal_moves().is_empty());
    assert_eq!(g.winner(), None);
    assert!(g.is_over());
    assert_eq!(g.reward(PlayerID::Guest), 0);
}

#[test]
fn lotus_steps_one_square_and_never_captures() {
    let mut g = empty_game(PlayerID::Host);
    g.place(8, 1, Piece::Lotus { player: PlayerID::Host });
    g.place(8, 2, Piece::Koi { player: PlayerID::Guest });
    let moves = g.legal_moves();
    // eight neighbours, minus the one holding the Koi
    assert_eq!(moves.len(), 7);
    assert!(moves.iter().all(|m| m.effect.is_none() && m.exchange_into.is_none()));
}

#[test]
fn lone_koi_slides_five_squares_each_way() {
    let mut g = empty_game(PlayerID::Guest);
    g.place(8, 8, Piece::Koi { player: PlayerID::Guest });
    assert_eq!(g.legal_moves().len(), 40);
}

#[test]
fn dragon_extends_range_of_neighbours() {
    let mut g = empty_game(PlayerID::Guest);
    g.place(8, 8, Piece::Koi { player: PlayerID::Guest });
    g.place(8, 9, Piece::Dragon { player: PlayerID::Guest });
    let moves = g.legal_moves();
    // Koi: seven open directions of six steps; Dragon: seven of five
    assert_eq!(moves.len(), 42 + 35);
    let far = mv(
        PlayerID::Guest,
        Piece::Koi { player: PlayerID::Guest },
        (8, 8),
        (2, 8),
        None,
        None,
    );
    assert!(moves.contains(&far));
}

#[test]
fn wheel_slides_eight_squares() {
    let mut g = empty_game(PlayerID::Host);
    g.place(8, 8, Piece::Wheel { player: PlayerID::Host });
    // the straight lines run eight steps to the rim; each diagonal leaves the
    // playing area at its seventh step, where the corners are cut off
    let moves = g.legal_moves();
    assert_eq!(moves.len(), 4 * 8 + 4 * 6);
}

#[test]
fn capture_offers_exchange_into_captured_kind() {
    let mut g = empty_game(PlayerID::Guest);
    g.place(8, 8, Piece::Koi { player: PlayerID::Guest });
    g.place(8, 10, Piece::Orchid { player: PlayerID::Host });
    g.place(8, 1, Piece::Lotus { player: PlayerID::Host });
    let moves = g.legal_moves();
    assert_eq!(moves.len(), 38);
    let koi = Piece::Koi { player: PlayerID::Guest };
    let plain = mv(PlayerID::Guest, koi, (8, 8), (8, 10), None, None);
    let exchange = mv(
        PlayerID::Guest,
        koi,
        (8, 8),
        (8, 10),
        None,
        Some(MortalPiece::Orchid { player: PlayerID::Guest }),
    );
    assert!(moves.contains(&plain));
    assert!(moves.contains(&exchange));
    let beyond = mv(PlayerID::Guest, koi, (8, 8), (8, 11), None, None);
    assert!(!moves.contains(&beyond));
    let over = g.step(&exchange);
    assert!(!over);
    assert_eq!(g.occupant(8, 10), Some(Piece::Orchid { player: PlayerID::Guest }));
    assert_eq!(g.occupant(8, 8), None);
}

#[test]
fn badgermole_effect_pushes_neighbour() {
    let mut g = empty_game(PlayerID::Guest);
    let bm = Piece::BadgerMole { player: PlayerID::Guest };
    g.place(8, 8, bm);
    g.place(7, 9, Piece::Koi { player: PlayerID::Guest });
    let moves = g.legal_moves();
    let push = mv(PlayerID::Guest, bm, (8, 8), (8, 9), Some(Direction::North), None);
    assert!(moves.contains(&push));
    let blocked = mv(PlayerID::Guest, bm, (8, 8), (8, 9), Some(Direction::South), None);
    assert!(!moves.contains(&blocked));
    g.step(&push);
    assert_eq!(g.occupant(8, 9), Some(bm));
    assert_eq!(g.occupant(8, 8), None);
    assert_eq!(g.occupant(7, 9), None);
    assert_eq!(g.occupant(6, 9), Some(Piece::Koi { player: PlayerID::Guest }));
    assert_eq!(g.player(), PlayerID::Host);
}

#[test]
fn koi_has_no_effects() {
    let mut g = empty_game(PlayerID::Guest);
    g.place(8, 8, Piece::Koi { player: PlayerID::Guest });
    g.place(7, 9, Piece::Koi { player: PlayerID::Guest });
    assert!(g.legal_moves().iter().all(|m| m.effect.is_none()));
}

#[test]
fn encode_exact_value() {
    let m = Move {
        player: PlayerID::Guest,
        piece: Piece::Lotus { player: PlayerID::Guest },
        from: -128,
        to: -127,
        effect: None,
        exchange_into: None,
    };
    assert_eq!(m.to_index(), 4609);
    let n = Move {
        player: PlayerID::Host,
        piece: Piece::Wheel { player: PlayerID::Host },
        from: 0,
        to: 1,
        effect: Some(Direction::NorthWest),
        exchange_into: Some(MortalPiece::Koi { player: PlayerID::Host }),
    };
    let expected = 2 * (8 + 9 * (128 + 256 * (129 + 256 * (8 + 9 * 6))));
    assert_eq!(n.to_index(), expected);
    assert_eq!(Move::from_index(expected), Ok(n));
}

#[test]
fn decode_rejects_out_of_range() {
    assert_eq!(Move::from_index(ACTION_SLOTS), Err(DecodeError::OutOfRange));
    assert_eq!(Move::from_index(usize::MAX), Err(DecodeError::OutOfRange));
    assert!(Move::from_index(ACTION_SLOTS - 1).is_ok());
}

#[test]
fn decode_zero() {
    let m = Move::from_index(0).unwrap();
    assert_eq!(m.player, PlayerID::Host);
    assert_eq!(m.piece, Piece::Lotus { player: PlayerID::Host });
    assert_eq!(m.from, -128);
    assert_eq!(m.to, -128);
    assert_eq!(m.effect, None);
    assert_eq!(m.exchange_into, None);
}

#[test]
fn square_ids_cover_playable_squares() {
    let mut count = 0;
    for r in 0..17usize {
        for c in 0..17usize {
            if is_in_bounds(r as i64, c as i64) {
                let id = square_id(r, c);
                assert_eq!(id as i32, count - 128);
                assert_eq!(square_of(id), Some((r, c)));
                count += 1;
            }
        }
    }
    assert_eq!(count, 249);
    assert_eq!(square_id(0, 4), -128);
    assert_eq!(square_id(16, 12), 120);
    assert_eq!(square_of(121), None);
    assert_eq!(square_of(127), None);
    assert!(!is_in_bounds(0, 3));
    assert!(is_in_bounds(3, 1));
    assert!(!is_in_bounds(13, 16));
    assert!(!is_in_bounds(-1, 8));
}

#[test]
fn iterator_hands_out_legal_moves() {
    let g = Ginseng::new();
    let mut it = g.iter_actions();
    let mut seen = Vec::new();
    while let Some(m) = it.next() {
        seen.push(m);
    }
    assert_eq!(seen, g.legal_moves());
    assert_eq!(it.next(), None);
}

#[test]
fn net_reads_action_indices_of_legal_moves() {
    let g = Ginseng::new();
    let net = GinsengNet::new();
    let indices = net.legal_action_indices(&g);
    let moves = g.legal_moves();
    assert_eq!(indices.len(), moves.len());
    for (i, m) in moves.iter().enumerate() {
        assert_eq!(indices[i], m.to_index());
    }
}

#[test]
fn players_alternate_and_label() {
    assert_eq!(PlayerID::Host.next(), PlayerID::Guest);
    assert_eq!(PlayerID::Guest.next(), PlayerID::Host);
    assert_eq!(PlayerID::Host.prev(), PlayerID::Guest);
    assert_eq!(PlayerID::Guest.prev(), PlayerID::Host);
    assert_eq!(PlayerID::Host.symbol(), 'H');
    assert_eq!(PlayerID::Guest.symbol(), 'G');
}

#[test]
fn remove_returns_what_stood_there() {
    let mut g = Ginseng::new();
    assert_eq!(g.remove(8, 1), Some(Piece::Lotus { player: PlayerID::Host }));
    assert_eq!(g.occupant(8, 1), None);
    assert_eq!(g.remove(8, 1), None);
}

fn lotus_count(g: &Ginseng, player: PlayerID) -> usize {
    let mut n = 0;
    for r in 0..17 {
        for c in 0..17 {
            if g.occupant(r, c) == Some(Piece::Lotus { player }) {
                n += 1;
            }
        }
    }
    n
}

#[test]
fn each_side_keeps_one_lotus() {
    let mut g = Ginseng::new();
    for turn in 0..40 {
        assert_eq!(lotus_count(&g, PlayerID::Host), 1);
        assert_eq!(lotus_count(&g, PlayerID::Guest), 1);
        let moves = g.legal_moves();
        let m = moves[(turn * 7) % moves.len()];
        if g.step(&m) {
            break;
        }
    }
    assert_eq!(lotus_count(&g, PlayerID::Host), 1);
    assert_eq!(lotus_count(&g, PlayerID::Guest), 1);
}

#[test]
fn legal_moves_hold_no_duplicates() {
    let mut g = Ginseng::new();
    for turn in 0..10 {
        let moves = g.legal_moves();
        for a in 0..moves.len() {
            for b in (a + 1)..moves.len() {
                assert_ne!(moves[a], moves[b]);
            }
        }
        let m = moves[(turn * 13) % moves.len()];
        if g.step(&m) {
            break;
        }
    }
}
