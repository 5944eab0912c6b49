use dots_and_boxes::game::Game;
use dots_and_boxes::game_move::Move;
use dots_and_boxes::moves::MoveType;
use dots_and_boxes::state::GameState;
use dots_and_boxes::state::GameStatus;
use dots_and_boxes::state::Line;
use dots_and_boxes::state::LineDirection;
use dots_and_boxes::state::Reason;
use dots_and_boxes::state::MAX_BOXES;

fn game() -> Game {
    Game {
        player_1: "alice".to_string(),
        player_2: "bob".to_string(),
    }
}

fn place(author: &str, x: usize, y: usize, direction: LineDirection) -> Move {
    Move {
        game: "match-1".to_string(),
        author: author.to_string(),
        move_type: MoveType::Place { x, y, direction },
        previous_move: String::new(),
    }
}

fn apply(state: &GameState, mv: &Move) -> GameState {
    let g = game();
    assert_eq!(mv.is_valid(g.clone(), state.clone()), Ok(()));
    state.evolve(g, mv)
}

#[test]
fn initial_state_is_empty() {
    let s = GameState::initial();
    assert!(s.moves.is_empty());
    assert!(s.lines.is_empty());
    assert_eq!(s.player1_boxes, 0);
    assert_eq!(s.player2_boxes, 0);
    assert_eq!(s.status, GameStatus::Ready);
    assert_eq!(s.next_player, 2);
}

#[test]
fn replay_is_deterministic() {
    let moves = vec![
        place("bob", 0, 0, LineDirection::Right),
        place("alice", 0, 0, LineDirection::Up),
        place("bob", 0, 1, LineDirection::Right),
        place("alice", 1, 0, LineDirection::Up),
    ];
    let mut first = GameState::initial();
    for mv in &moves {
        first = apply(&first, mv);
    }
    let mut second = GameState::initial();
    for mv in &moves {
        second = apply(&second, mv);
    }
    assert_eq!(first, second);
}

#[test]
fn alternation_rejects_same_author() {
    let s = apply(&GameState::initial(), &place("bob", 0, 0, LineDirection::Right));
    // bob's opening line finished no box, so bob may not move again ...
    let again = place("bob", 0, 1, LineDirection::Right);
    assert_eq!(again.is_valid(game(), s.clone()), Err(Reason::WrongTurn));
    // ... while alice may.
    let other = place("alice", 0, 1, LineDirection::Right);
    assert_eq!(other.is_valid(game(), s), Ok(()));
}

#[test]
fn extra_turn_allows_same_author() {
    let mut s = GameState::initial();
    s = apply(&s, &place("bob", 0, 0, LineDirection::Right));
    s = apply(&s, &place("alice", 0, 0, LineDirection::Up));
    s = apply(&s, &place("bob", 0, 1, LineDirection::Right));
    // alice closes the lower-left box and earns another turn.
    s = apply(&s, &place("alice", 1, 0, LineDirection::Up));
    assert_eq!(s.player1_boxes, 1);
    assert_eq!(s.player2_boxes, 0);
    assert_eq!(s.next_player, 1);
    let bob_follow = place("bob", 1, 1, LineDirection::Right);
    assert_eq!(bob_follow.is_valid(game(), s.clone()), Err(Reason::WrongTurn));
    let alice_follow = place("alice", 1, 1, LineDirection::Right);
    assert_eq!(alice_follow.is_valid(game(), s.clone()), Ok(()));
    s = apply(&s, &alice_follow);
    assert_eq!(s.next_player, 2);
}

#[test]
fn double_box_credits_two() {
    // Every edge of the two left-hand boxes except the one they share.
    let s = GameState {
        moves: Vec::new(),
        lines: vec![
            Line { x: 0, y: 0, direction: LineDirection::Right },
            Line { x: 0, y: 0, direction: LineDirection::Up },
            Line { x: 1, y: 0, direction: LineDirection::Up },
            Line { x: 0, y: 2, direction: LineDirection::Right },
            Line { x: 0, y: 1, direction: LineDirection::Up },
            Line { x: 1, y: 1, direction: LineDirection::Up },
        ],
        player1_boxes: 0,
        player2_boxes: 0,
        status: GameStatus::InProgress,
        next_player: 1,
    };
    let shared = Line { x: 0, y: 1, direction: LineDirection::Right };
    assert_eq!(shared.is_part_of_box(&s), 2);
    let next = s.evolve(game(), &place("alice", 0, 1, LineDirection::Right));
    assert_eq!(next.player1_boxes, 2);
    assert_eq!(next.player2_boxes, 0);
    assert_eq!(next.next_player, 1);
    assert_eq!(next.status, GameStatus::InProgress);
}

#[test]
fn single_box_counts_one() {
    let mut s = GameState::initial();
    s = apply(&s, &place("bob", 0, 0, LineDirection::Right));
    s = apply(&s, &place("alice", 0, 0, LineDirection::Up));
    s = apply(&s, &place("bob", 0, 1, LineDirection::Right));
    let closing = Line { x: 1, y: 0, direction: LineDirection::Up };
    assert_eq!(closing.is_part_of_box(&s), 1);
    let open = Line { x: 2, y: 0, direction: LineDirection::Up };
    assert_eq!(open.is_part_of_box(&s), 0);
}

#[test]
fn completion_exactly_at_full_board() {
    // The whole board except the edge shared by the two left-hand boxes;
    // the two right-hand boxes are already done and credited.
    let mut lines = Vec::new();
    for x in 0..2 {
        for y in 0..3 {
            if !(x == 0 && y == 1) {
                lines.push(Line { x, y, direction: LineDirection::Right });
            }
        }
    }
    for x in 0..3 {
        for y in 0..2 {
            lines.push(Line { x, y, direction: LineDirection::Up });
        }
    }
    let s = GameState {
        moves: Vec::new(),
        lines,
        player1_boxes: 1,
        player2_boxes: 1,
        status: GameStatus::InProgress,
        next_player: 2,
    };
    let finishing = s.evolve(game(), &place("bob", 0, 1, LineDirection::Right));
    assert_eq!(finishing.player2_boxes, 3);
    assert_eq!(finishing.player1_boxes + finishing.player2_boxes, MAX_BOXES);
    assert_eq!(finishing.status, GameStatus::Completed);

    // One box short: still in progress.
    let short = GameState { player2_boxes: 0, ..s };
    let nearly = short.evolve(game(), &place("bob", 0, 1, LineDirection::Right));
    assert_eq!(nearly.player1_boxes + nearly.player2_boxes, 3);
    assert_eq!(nearly.status, GameStatus::InProgress);
}

#[test]
fn bounds_rejection() {
    let vertical = Line { x: 3, y: 0, direction: LineDirection::Up };
    assert_eq!(vertical.is_in_bounds(), Err(Reason::OutOfBounds));
    let horizontal = Line { x: 0, y: 3, direction: LineDirection::Right };
    assert_eq!(horizontal.is_in_bounds(), Err(Reason::OutOfBounds));
    let fine = Line { x: 2, y: 1, direction: LineDirection::Up };
    assert_eq!(fine.is_in_bounds(), Ok(()));

    // Through the validator on a fresh game, with the right author.
    let mv = place("bob", 3, 0, LineDirection::Up);
    assert_eq!(mv.is_valid(game(), GameState::initial()), Err(Reason::OutOfBounds));
    let mv2 = place("bob", 0, 3, LineDirection::Right);
    assert_eq!(mv2.is_valid(game(), GameState::initial()), Err(Reason::OutOfBounds));
}

#[test]
fn duplicate_rejection() {
    let s = apply(&GameState::initial(), &place("bob", 1, 1, LineDirection::Up));
    // The same edge again, by the other author, fails on occupancy.
    let dup = place("alice", 1, 1, LineDirection::Up);
    assert_eq!(dup.is_valid(game(), s.clone()), Err(Reason::CellOccupied));
    let line = Line { x: 1, y: 1, direction: LineDirection::Up };
    assert_eq!(line.is_empty(&s), Err(Reason::CellOccupied));
    assert_eq!(line.is_empty(&GameState::initial()), Ok(()));
}

#[test]
fn first_move_must_be_player_2() {
    let fresh = GameState::initial();
    let by_alice = place("alice", 0, 0, LineDirection::Right);
    assert_eq!(by_alice.is_valid(game(), fresh.clone()), Err(Reason::FirstMoveInvalid));
    let by_stranger = place("carol", 0, 0, LineDirection::Right);
    assert_eq!(by_stranger.is_valid(game(), fresh.clone()), Err(Reason::FirstMoveInvalid));
    let by_bob = place("bob", 0, 0, LineDirection::Right);
    assert_eq!(by_bob.is_valid(game(), fresh), Ok(()));
}

#[test]
fn render_is_stable() {
    let mut s = GameState::initial();
    s = apply(&s, &place("bob", 0, 0, LineDirection::Right));
    let once = s.render();
    let twice = s.render();
    assert_eq!(once, twice);
}

#[test]
fn render_of_initial_state() {
    let s = GameState::initial();
    let expected = "\n2· · ·\n      \n1· · ·\n      \n0· · ·\n 0 1 2\n\nPlayer 1 boxes completed:0\nPlayer 2 boxes completed:0\nGame Status:Ready\nNext Player's Turn:2\n";
    assert_eq!(s.render(), expected);
}

#[test]
fn render_shows_lines_and_counts() {
    let s = GameState {
        moves: Vec::new(),
        lines: vec![
            Line { x: 0, y: 0, direction: LineDirection::Right },
            Line { x: 0, y: 0, direction: LineDirection::Up },
        ],
        player1_boxes: 0,
        player2_boxes: 0,
        status: GameStatus::InProgress,
        next_player: 1,
    };
    let text = s.render();
    // The horizontal line sits between the first two dots of the bottom
    // row; the vertical line sits above the origin dot.
    assert!(text.contains("0·―· ·\n"));
    assert!(text.contains("|"));
    assert!(text.contains("Game Status:InProgress\n"));
    assert!(text.contains("Next Player's Turn:1\n"));
}

#[test]
fn render_of_two_digit_counters() {
    let s = GameState {
        moves: Vec::new(),
        lines: Vec::new(),
        player1_boxes: 12,
        player2_boxes: 0,
        status: GameStatus::InProgress,
        next_player: 1,
    };
    let text = s.render();
    assert!(text.contains("Player 1 boxes completed:12\n"));
}

#[test]
fn describe_lists_one_example_per_shape() {
    let shapes = MoveType::describe();
    assert_eq!(shapes.len(), 1);
    assert_eq!(
        shapes[0],
        MoveType::Place { x: 0, y: 0, direction: LineDirection::Up }
    );
}

#[test]
fn move_records_keep_their_fields() {
    let mv = place("bob", 2, 1, LineDirection::Up);
    let copy = mv.clone();
    assert_eq!(mv, copy);
    assert_eq!(copy.author, "bob");
    assert_eq!(copy.move_type, MoveType::Place { x: 2, y: 1, direction: LineDirection::Up });

    let input = dots_and_boxes::game_move::MoveInput {
        game: "match-1".to_string(),
        move_type: "Place".to_string(),
        from: dots_and_boxes::game_move::Pos { x: 0, y: 0 },
        to: dots_and_boxes::game_move::Pos { x: 0, y: 1 },
    };
    assert_eq!(input.from, dots_and_boxes::game_move::Pos { x: 0, y: 0 });
    assert_ne!(input.from, input.to);
}

#[test]
fn evolve_appends_move_and_line() {
    let s = apply(&GameState::initial(), &place("bob", 1, 2, LineDirection::Right));
    assert_eq!(s.moves.len(), 1);
    assert_eq!(s.moves[0].author, "bob");
    assert_eq!(s.lines, vec![Line { x: 1, y: 2, direction: LineDirection::Right }]);
    assert_eq!(s.status, GameStatus::InProgress);
    assert_eq!(s.next_player, 1);
}
