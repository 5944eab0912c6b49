//! Board geometry and game state: lines, bounds, box completion, state
//! evolution and rendering.

use vstd::prelude::*;
use vstd::string::StringExecFns;
use crate::game::Game;
use crate::game_move::Move;
use crate::moves::MoveType;
use crate::moves::spec_line_of;
use crate::text::push_char;
use crate::text::append_decimal;
use crate::text::spec_decimal;

verus! {

/// Number of dots per side of the board.
pub const BOARD_SIZE: usize = 3;

/// Number of unit boxes on the board: `(BOARD_SIZE - 1)` squared.
/// `lemma_max_boxes` relates the two constants.
pub const MAX_BOXES: usize = 4;

/// The box count is derived from the board size: a board with `N` dots per
/// side has `(N - 1) * (N - 1)` unit boxes.
pub proof fn lemma_max_boxes()
    ensures
        MAX_BOXES == (BOARD_SIZE - 1) * (BOARD_SIZE - 1),
{
    assert(BOARD_SIZE == 3);
    assert(MAX_BOXES == 4);
    assert((3 - 1) * (3 - 1) == 4) by (nonlinear_arith);
}

/// The character a single-digit number renders as; anything larger than
/// one digit renders as a blank.
pub open spec fn spec_digit_char(n: int) -> char {
    if n == 0 { '0' }
    else if n == 1 { '1' }
    else if n == 2 { '2' }
    else if n == 3 { '3' }
    else if n == 4 { '4' }
    else if n == 5 { '5' }
    else if n == 6 { '6' }
    else if n == 7 { '7' }
    else if n == 8 { '8' }
    else if n == 9 { '9' }
    else { ' ' }
}

/// Renders a single-digit number as its character; larger numbers render
/// as a blank.
pub fn digit_to_char(number: &usize) -> (c: char)
    ensures
        c == spec_digit_char(*number as int),
{
    match *number {
        0 => '0',
        1 => '1',
        2 => '2',
        3 => '3',
        4 => '4',
        5 => '5',
        6 => '6',
        7 => '7',
        8 => '8',
        9 => '9',
        _ => ' ',
    }
}

/// Why a candidate move was rejected.
#[derive(Clone, Copy, Debug, PartialEq, Eq, Structural)]
pub enum Reason {
    /// The proposed line's coordinates exceed the legal range for its
    /// orientation.
    OutOfBounds,
    /// The proposed line duplicates a line already on the board.
    CellOccupied,
    /// The author is not the player entitled to move next.
    WrongTurn,
    /// A fresh game received its first move from someone other than the
    /// designated opener (player 2, by fixed convention).
    FirstMoveInvalid,
}

/// Orientation of a drawn line: from a vertex, `Up` draws a vertical
/// segment and `Right` a horizontal one.
#[derive(Clone, Copy, Debug, PartialEq, Eq, Structural)]
pub enum LineDirection {
    Up,
    Right,
}

/// A drawn edge of the grid: a segment from vertex `(x, y)` extending in
/// `direction`. Two lines are the same edge iff all three fields agree.
#[derive(Clone, Copy, Debug, PartialEq, Eq, Structural)]
pub struct Line {
    pub x: usize,
    pub y: usize,
    pub direction: LineDirection,
}

/// A line fits on the board: a vertical segment needs `x < N` and
/// `y < N - 1`; a horizontal one needs `x < N - 1` and `y < N`.
pub open spec fn spec_in_bounds(l: Line) -> bool {
    match l.direction {
        LineDirection::Up => l.x < BOARD_SIZE && l.y < BOARD_SIZE - 1,
        LineDirection::Right => l.x < BOARD_SIZE - 1 && l.y < BOARD_SIZE,
    }
}

/// Whether the board already holds this exact edge.
pub fn contains_line(lines: &Vec<Line>, l: &Line) -> (r: bool)
    ensures
        r == lines@.contains(*l),
{
    let mut i: usize = 0;
    while i < lines.len()
        invariant
            i <= lines@.len(),
            forall|j: int| 0 <= j < i ==> lines@[j] != *l,
        decreases lines@.len() - i,
    {
        if lines[i] == *l {
            assert(lines@.contains(*l));
            return true;
        }
        i += 1;
    }
    assert(!lines@.contains(*l));
    false
}

/// How many unit boxes the line `l` would finish if drawn now, given the
/// lines already on the board: for each of the up to two boxes that have
/// `l` as an edge (gated so that the box itself is on the board), one box
/// is counted iff its other three edges are all present. `l` itself being
/// present or absent does not change the answer.
pub open spec fn spec_boxes_completed(lines: Seq<Line>, l: Line) -> int {
    match l.direction {
        LineDirection::Right => {
            let above: int = if l.y < BOARD_SIZE - 1
                && lines.contains(Line { x: l.x, y: l.y, direction: LineDirection::Up })
                && lines.contains(
                    Line { x: l.x, y: (l.y + 1) as usize, direction: LineDirection::Right },
                )
                && lines.contains(
                    Line { x: (l.x + 1) as usize, y: l.y, direction: LineDirection::Up },
                ) { 1 } else { 0 };
            let below: int = if l.y > 0
                && lines.contains(
                    Line { x: (l.x + 1) as usize, y: (l.y - 1) as usize, direction: LineDirection::Up },
                )
                && lines.contains(
                    Line { x: l.x, y: (l.y - 1) as usize, direction: LineDirection::Right },
                )
                && lines.contains(
                    Line { x: l.x, y: (l.y - 1) as usize, direction: LineDirection::Up },
                ) { 1 } else { 0 };
            above + below
        },
        LineDirection::Up => {
            let right: int = if l.x < BOARD_SIZE - 1
                && lines.contains(
                    Line { x: l.x, y: (l.y + 1) as usize, direction: LineDirection::Right },
                )
                && lines.contains(
                    Line { x: (l.x + 1) as usize, y: l.y, direction: LineDirection::Up },
                )
                && lines.contains(Line { x: l.x, y: l.y, direction: LineDirection::Right })
                { 1 } else { 0 };
            let left: int = if l.x > 0
                && lines.contains(
                    Line { x: (l.x - 1) as usize, y: l.y, direction: LineDirection::Right },
                )
                && lines.contains(
                    Line { x: (l.x - 1) as usize, y: l.y, direction: LineDirection::Up },
                )
                && lines.contains(
                    Line { x: (l.x - 1) as usize, y: (l.y + 1) as usize, direction: LineDirection::Right },
                ) { 1 } else { 0 };
            right + left
        },
    }
}

impl Line {
    /// Bounds check per orientation.
    pub fn is_in_bounds(&self) -> (r: Result<(), Reason>)
        ensures
            r is Ok <==> spec_in_bounds(*self),
            r is Err ==> r->Err_0 == Reason::OutOfBounds,
    {
        match self.direction {
            LineDirection::Up => {
                if self.x < BOARD_SIZE && self.y < BOARD_SIZE - 1 {
                    Ok(())
                } else {
                    Err(Reason::OutOfBounds)
                }
            },
            LineDirection::Right => {
                if self.x < BOARD_SIZE - 1 && self.y < BOARD_SIZE {
                    Ok(())
                } else {
                    Err(Reason::OutOfBounds)
                }
            },
        }
    }

    /// Emptiness check: the exact same edge must not already be drawn.
    pub fn is_empty(&self, game_state: &GameState) -> (r: Result<(), Reason>)
        ensures
            r is Ok <==> !game_state.lines@.contains(*self),
            r is Err ==> r->Err_0 == Reason::CellOccupied,
    {
        if contains_line(&game_state.lines, self) {
            Err(Reason::CellOccupied)
        } else {
            Ok(())
        }
    }

    /// Counts the boxes (0, 1 or 2) that drawing this line would finish,
    /// given the lines already in `game_state`. The line itself is not
    /// assumed to be on the board yet.
    pub fn is_part_of_box(&self, game_state: &GameState) -> (num_boxes: usize)
        requires
            spec_in_bounds(*self),
        ensures
            num_boxes == spec_boxes_completed(game_state.lines@, *self),
            num_boxes <= 2,
    {
        let mut num_boxes: usize = 0;
        match self.direction {
            LineDirection::Right => {
                // A horizontal line can finish the box above it ...
                if self.y < BOARD_SIZE - 1 {
                    let l1 = Line { x: self.x, y: self.y, direction: LineDirection::Up };
                    let l2 = Line { x: self.x, y: self.y + 1, direction: LineDirection::Right };
                    let l3 = Line { x: self.x + 1, y: self.y, direction: LineDirection::Up };
                    if contains_line(&game_state.lines, &l1)
                        && contains_line(&game_state.lines, &l2)
                        && contains_line(&game_state.lines, &l3) {
                        num_boxes = num_boxes + 1;
                    }
                }
                // ... and the box below it.
                if self.y > 0 {
                    let l4 = Line { x: self.x + 1, y: self.y - 1, direction: LineDirection::Up };
                    let l5 = Line { x: self.x, y: self.y - 1, direction: LineDirection::Right };
                    let l6 = Line { x: self.x, y: self.y - 1, direction: LineDirection::Up };
                    if contains_line(&game_state.lines, &l4)
                        && contains_line(&game_state.lines, &l5)
                        && contains_line(&game_state.lines, &l6) {
                        num_boxes = num_boxes + 1;
                    }
                }
                num_boxes
            },
            LineDirection::Up => {
                // A vertical line can finish the box to its right ...
                if self.x < BOARD_SIZE - 1 {
                    let l1 = Line { x: self.x, y: self.y + 1, direction: LineDirection::Right };
                    let l2 = Line { x: self.x + 1, y: self.y, direction: LineDirection::Up };
                    let l3 = Line { x: self.x, y: self.y, direction: LineDirection::Right };
                    if contains_line(&game_state.lines, &l1)
                        && contains_line(&game_state.lines, &l2)
                        && contains_line(&game_state.lines, &l3) {
                        num_boxes = num_boxes + 1;
                    }
                }
                // ... and the box to its left.
                if self.x > 0 {
                    let l4 = Line { x: self.x - 1, y: self.y, direction: LineDirection::Right };
                    let l5 = Line { x: self.x - 1, y: self.y, direction: LineDirection::Up };
                    let l6 = Line { x: self.x - 1, y: self.y + 1, direction: LineDirection::Right };
                    if contains_line(&game_state.lines, &l4)
                        && contains_line(&game_state.lines, &l5)
                        && contains_line(&game_state.lines, &l6) {
                        num_boxes = num_boxes + 1;
                    }
                }
                num_boxes
            },
        }
    }
}

/// Copies a vector of lines, element for element.
fn copy_lines(v: &Vec<Line>) -> (r: Vec<Line>)
    ensures
        r@ == v@,
{
    let mut r: Vec<Line> = Vec::new();
    let mut i: usize = 0;
    while i < v.len()
        invariant
            i <= v@.len(),
            r@ == v@.subrange(0, i as int),
        decreases v@.len() - i,
    {
        r.push(v[i]);
        assert(r@ =~= v@.subrange(0, i + 1 as int));
        i += 1;
    }
    assert(r@ =~= v@);
    r
}

/// Copies a vector of move records, element for element.
fn clone_moves(v: &Vec<Move>) -> (r: Vec<Move>)
    ensures
        r@ == v@,
{
    let mut r: Vec<Move> = Vec::new();
    let mut i: usize = 0;
    while i < v.len()
        invariant
            i <= v@.len(),
            r@ == v@.subrange(0, i as int),
        decreases v@.len() - i,
    {
        r.push(v[i].clone());
        assert(r@ =~= v@.subrange(0, i + 1 as int));
        i += 1;
    }
    assert(r@ =~= v@);
    r
}

/// Whether the move's author is player 1 of the match (anyone else is
/// treated as player 2).
pub open spec fn spec_mover_is_player1(game: Game, mv: Move) -> bool {
    game.player_1@ == mv.author@
}

/// Player 1's box count once `mv` is applied to `state`: credited with the
/// boxes the move finishes iff player 1 is the author and the move finishes
/// at least one.
pub open spec fn spec_player1_boxes_after(state: GameState, game: Game, mv: Move) -> int {
    let n = spec_boxes_completed(state.lines@, spec_line_of(mv.move_type));
    if spec_mover_is_player1(game, mv) && n > 0 {
        state.player1_boxes + n
    } else {
        state.player1_boxes as int
    }
}

/// Player 2's box count once `mv` is applied to `state`.
pub open spec fn spec_player2_boxes_after(state: GameState, game: Game, mv: Move) -> int {
    let n = spec_boxes_completed(state.lines@, spec_line_of(mv.move_type));
    if !spec_mover_is_player1(game, mv) && n > 0 {
        state.player2_boxes + n
    } else {
        state.player2_boxes as int
    }
}

/// Whose turn follows `mv`: the same player again if the move finished a
/// box (the extra-turn rule), the other player otherwise.
pub open spec fn spec_next_player_after(state: GameState, game: Game, mv: Move) -> int {
    let n = spec_boxes_completed(state.lines@, spec_line_of(mv.move_type));
    if spec_mover_is_player1(game, mv) {
        if n > 0 { 1int } else { 2int }
    } else {
        if n > 0 { 2int } else { 1int }
    }
}

/// The status once `mv` is applied: `Completed` exactly when every box on
/// the board has been claimed, `InProgress` otherwise.
pub open spec fn spec_status_after(state: GameState, game: Game, mv: Move) -> GameStatus {
    if spec_player1_boxes_after(state, game, mv) + spec_player2_boxes_after(state, game, mv)
        == MAX_BOXES {
        GameStatus::Completed
    } else {
        GameStatus::InProgress
    }
}

/// The character at column `cx`, row `cy` of the rendered board. The board
/// is a `2N x 2N` character grid: dots at the (odd, odd) cells mark the
/// vertices, column 0 and row 0 carry the coordinate labels at the odd
/// offsets, and the cells between two vertices show a line glyph when that
/// edge has been drawn.
pub open spec fn spec_cell(lines: Seq<Line>, cx: int, cy: int) -> char {
    if cx % 2 == 1 && cy % 2 == 1 {
        '·'
    } else if cx == 0 && cy % 2 == 1 {
        spec_digit_char((cy - 1) / 2)
    } else if cy == 0 && cx % 2 == 1 {
        spec_digit_char((cx - 1) / 2)
    } else if cx % 2 == 0 && cx > 0 && cy % 2 == 1 {
        if lines.contains(
            Line { x: (cx / 2 - 1) as usize, y: ((cy - 1) / 2) as usize, direction: LineDirection::Right },
        ) {
            '―'
        } else {
            ' '
        }
    } else if cy % 2 == 0 && cy > 0 && cx % 2 == 1 {
        if lines.contains(
            Line { x: ((cx - 1) / 2) as usize, y: (cy / 2 - 1) as usize, direction: LineDirection::Up },
        ) {
            '|'
        } else {
            ' '
        }
    } else {
        ' '
    }
}

/// One row of the rendered board, at character row `cy`.
pub open spec fn spec_row(lines: Seq<Line>, cy: int) -> Seq<char> {
    Seq::new((2 * BOARD_SIZE) as nat, |cx: int| spec_cell(lines, cx, cy))
}

/// The board rows from character row `n - 1` down to 0, each followed by a
/// newline. The board prints top row first.
pub open spec fn spec_grid_rows(lines: Seq<Line>, n: nat) -> Seq<char>
    decreases n,
{
    if n == 0 {
        Seq::empty()
    } else {
        spec_row(lines, n - 1) + seq!['\n'] + spec_grid_rows(lines, (n - 1) as nat)
    }
}

/// The label the status renders as.
pub open spec fn spec_status_label(st: GameStatus) -> Seq<char> {
    match st {
        GameStatus::Ready => "Ready"@,
        GameStatus::InProgress => "InProgress"@,
        GameStatus::Surrendered => "Surrendered"@,
        GameStatus::Completed => "Completed"@,
    }
}

/// The full rendering of a state: a leading newline, the board top row
/// first, a blank line, then both box counters, the status label and whose
/// turn is next.
pub open spec fn spec_render(state: GameState) -> Seq<char> {
    seq!['\n'] + spec_grid_rows(state.lines@, (2 * BOARD_SIZE) as nat) + seq!['\n']
        + "Player 1 boxes completed:"@ + spec_decimal(state.player1_boxes as int) + seq!['\n']
        + "Player 2 boxes completed:"@ + spec_decimal(state.player2_boxes as int) + seq!['\n']
        + "Game Status:"@ + spec_status_label(state.status) + seq!['\n']
        + "Next Player's Turn:"@ + spec_decimal(state.next_player as int) + seq!['\n']
}

/// The character at column `cx`, row `cy` of the rendered board.
fn cell_char(lines: &Vec<Line>, cx: usize, cy: usize) -> (c: char)
    requires
        cx < 2 * BOARD_SIZE,
        cy < 2 * BOARD_SIZE,
    ensures
        c == spec_cell(lines@, cx as int, cy as int),
{
    if cx % 2 == 1 && cy % 2 == 1 {
        '·'
    } else if cx == 0 && cy % 2 == 1 {
        digit_to_char(&((cy - 1) / 2))
    } else if cy == 0 && cx % 2 == 1 {
        digit_to_char(&((cx - 1) / 2))
    } else if cx % 2 == 0 && cx > 0 && cy % 2 == 1 {
        let l = Line { x: cx / 2 - 1, y: (cy - 1) / 2, direction: LineDirection::Right };
        if contains_line(lines, &l) {
            '―'
        } else {
            ' '
        }
    } else if cy % 2 == 0 && cy > 0 && cx % 2 == 1 {
        let l = Line { x: (cx - 1) / 2, y: cy / 2 - 1, direction: LineDirection::Up };
        if contains_line(lines, &l) {
            '|'
        } else {
            ' '
        }
    } else {
        ' '
    }
}

/// The unit box with lower-left vertex `(bx, by)` has all four of its
/// edges drawn.
pub open spec fn spec_box_complete(lines: Seq<Line>, bx: int, by: int) -> bool {
    &&& lines.contains(Line { x: bx as usize, y: by as usize, direction: LineDirection::Right })
    &&& lines.contains(
        Line { x: bx as usize, y: (by + 1) as usize, direction: LineDirection::Right },
    )
    &&& lines.contains(Line { x: bx as usize, y: by as usize, direction: LineDirection::Up })
    &&& lines.contains(
        Line { x: (bx + 1) as usize, y: by as usize, direction: LineDirection::Up },
    )
}

/// 1 if the box at `(bx, by)` is complete, 0 otherwise.
pub open spec fn spec_box_flag(lines: Seq<Line>, bx: int, by: int) -> int {
    if spec_box_complete(lines, bx, by) {
        1
    } else {
        0
    }
}

/// How many of the board's boxes are complete.
pub open spec fn spec_complete_boxes(lines: Seq<Line>) -> int {
    spec_box_flag(lines, 0, 0) + spec_box_flag(lines, 0, 1) + spec_box_flag(lines, 1, 0)
        + spec_box_flag(lines, 1, 1)
}

/// There are never more complete boxes than boxes on the board.
pub proof fn lemma_complete_boxes_bounded(lines: Seq<Line>)
    ensures
        0 <= spec_complete_boxes(lines) <= MAX_BOXES,
{
}

proof fn lemma_contains_push(s: Seq<Line>, l: Line, e: Line)
    ensures
        s.push(l).contains(e) <==> (s.contains(e) || e == l),
{
    if s.contains(e) {
        let i = choose|i: int| 0 <= i < s.len() && s[i] == e;
        assert(s.push(l)[i] == e);
        assert(s.push(l).contains(e));
    }
    if e == l {
        assert(s.push(l)[s.len() as int] == e);
        assert(s.push(l).contains(e));
    }
    if s.push(l).contains(e) && e != l {
        let i = choose|i: int| 0 <= i < s.push(l).len() && s.push(l)[i] == e;
        assert(i < s.len());
        assert(s[i] == e);
    }
}

/// Drawing a new line raises the number of complete boxes on the board by
/// exactly the number of boxes the line finishes — the count the mover is
/// credited with — and never by more.
pub proof fn lemma_boxes_completed_delta(lines: Seq<Line>, l: Line)
    requires
        spec_in_bounds(l),
        !lines.contains(l),
    ensures
        spec_complete_boxes(lines.push(l)) == spec_complete_boxes(lines) + spec_boxes_completed(
            lines,
            l,
        ),
{
    assert forall|e: Line| #[trigger] lines.push(l).contains(e) <==> (lines.contains(e) || e
        == l) by {
        lemma_contains_push(lines, l, e);
    }
}

/// Whenever the two counters account exactly for the complete boxes on the
/// board, they still do after a legal move is applied: the move's author
/// is credited with exactly the boxes the new line finishes. In
/// particular, together with `lemma_complete_boxes_bounded`, the counters
/// never sum past `MAX_BOXES` along a legally played game.
pub proof fn lemma_evolve_keeps_box_accounting(state: GameState, game: Game, mv: Move)
    requires
        state.player1_boxes + state.player2_boxes == spec_complete_boxes(state.lines@),
        spec_in_bounds(spec_line_of(mv.move_type)),
        !state.lines@.contains(spec_line_of(mv.move_type)),
    ensures
        spec_player1_boxes_after(state, game, mv) + spec_player2_boxes_after(state, game, mv)
            == spec_complete_boxes(state.lines@.push(spec_line_of(mv.move_type))),
{
    lemma_boxes_completed_delta(state.lines@, spec_line_of(mv.move_type));
}

/// The successor state is a function of the previous state's content, the
/// match context and the move alone: two states that agree field for field
/// are carried to successors that agree field for field, so replaying one
/// list of moves from the initial state always rebuilds the same states.
pub proof fn lemma_evolve_deterministic(s1: GameState, s2: GameState, game: Game, mv: Move)
    requires
        s1.moves@ == s2.moves@,
        s1.lines@ == s2.lines@,
        s1.player1_boxes == s2.player1_boxes,
        s1.player2_boxes == s2.player2_boxes,
        s1.status == s2.status,
        s1.next_player == s2.next_player,
    ensures
        spec_player1_boxes_after(s1, game, mv) == spec_player1_boxes_after(s2, game, mv),
        spec_player2_boxes_after(s1, game, mv) == spec_player2_boxes_after(s2, game, mv),
        spec_next_player_after(s1, game, mv) == spec_next_player_after(s2, game, mv),
        spec_status_after(s1, game, mv) == spec_status_after(s2, game, mv),
{
}

/// Where a match stands.
#[derive(Clone, Copy, Debug, PartialEq, Eq, Structural)]
pub enum GameStatus {
    Ready,
    InProgress,
    Surrendered,
    Completed,
}

/// The full derived aggregate of one match: every accepted move, every
/// drawn line, both box counters, the status and whose turn is next.
/// Advanced only through `evolve`, which returns a new value and leaves
/// its input untouched.
#[derive(Clone, Debug, PartialEq, Eq)]
pub struct GameState {
    pub moves: Vec<Move>,
    pub lines: Vec<Line>,
    pub player1_boxes: usize,
    pub player2_boxes: usize,
    pub status: GameStatus,
    pub next_player: usize,
}

impl GameState {
    /// Every drawn line fits on the board.
    pub open spec fn lines_in_bounds(self) -> bool {
        forall|i: int| 0 <= i < self.lines@.len() ==> spec_in_bounds(#[trigger] self.lines@[i])
    }

    /// Every recorded move asks for a line that fits on the board.
    pub open spec fn moves_in_bounds(self) -> bool {
        forall|i: int| 0 <= i < self.moves@.len()
            ==> spec_in_bounds(spec_line_of(#[trigger] self.moves@[i].move_type))
    }

    /// The state a fresh match starts from: no moves, no lines, both
    /// counters zero, status `Ready`, and player 2 (the fixed opener) to
    /// move.
    pub fn initial() -> (r: GameState)
        ensures
            r.moves@ == Seq::<Move>::empty(),
            r.lines@ == Seq::<Line>::empty(),
            r.player1_boxes == 0,
            r.player2_boxes == 0,
            r.status == GameStatus::Ready,
            r.next_player == 2,
    {
        GameState {
            moves: Vec::new(),
            lines: Vec::new(),
            player1_boxes: 0,
            player2_boxes: 0,
            status: GameStatus::Ready,
            next_player: 2,
        }
    }

    /// Renders the state for human display: the board grid with coordinate
    /// labels, then both players' box counts, the status label and whose
    /// turn is next. A pure projection of the state: the same state always
    /// yields the same text.
    pub fn render(&self) -> (r: String)
        ensures
            r@ == spec_render(*self),
    {
        let mut disp = String::new();
        push_char(&mut disp, '\n');

        let ghost full = seq!['\n'] + spec_grid_rows(self.lines@, (2 * BOARD_SIZE) as nat);
        let mut cy: usize = 2 * BOARD_SIZE;
        while cy > 0
            invariant
                cy <= 2 * BOARD_SIZE,
                disp@ + spec_grid_rows(self.lines@, cy as nat) == full,
            decreases cy,
        {
            let row = cy - 1;
            let ghost row_start = disp@;
            let mut cx: usize = 0;
            while cx < 2 * BOARD_SIZE
                invariant
                    cx <= 2 * BOARD_SIZE,
                    row == cy - 1,
                    cy <= 2 * BOARD_SIZE,
                    cy > 0,
                    disp@ == row_start + spec_row(self.lines@, row as int).subrange(
                        0,
                        cx as int,
                    ),
                    row_start + spec_grid_rows(self.lines@, cy as nat) == full,
                decreases 2 * BOARD_SIZE - cx,
            {
                let c = cell_char(&self.lines, cx, row);
                push_char(&mut disp, c);
                assert(disp@ =~= row_start + spec_row(self.lines@, row as int).subrange(
                    0,
                    cx + 1 as int,
                ));
                cx += 1;
            }
            push_char(&mut disp, '\n');
            proof {
                assert(spec_row(self.lines@, row as int).subrange(0, (2 * BOARD_SIZE) as int)
                    =~= spec_row(self.lines@, row as int));
                assert(disp@ + spec_grid_rows(self.lines@, (cy - 1) as nat) =~= row_start
                    + spec_grid_rows(self.lines@, cy as nat));
            }
            cy -= 1;
        }
        assert(spec_grid_rows(self.lines@, 0) =~= Seq::<char>::empty());
        assert(disp@ =~= full);

        push_char(&mut disp, '\n');
        disp.append("Player 1 boxes completed:");
        append_decimal(&mut disp, self.player1_boxes);
        push_char(&mut disp, '\n');
        disp.append("Player 2 boxes completed:");
        append_decimal(&mut disp, self.player2_boxes);
        push_char(&mut disp, '\n');
        disp.append("Game Status:");
        let ghost before_label = disp@;
        match self.status {
            GameStatus::Ready => {
                disp.append("Ready");
                assert(disp@ == before_label + spec_status_label(self.status));
            },
            GameStatus::InProgress => {
                disp.append("InProgress");
                assert(disp@ == before_label + spec_status_label(self.status));
            },
            GameStatus::Surrendered => {
                disp.append("Surrendered");
                assert(disp@ == before_label + spec_status_label(self.status));
            },
            GameStatus::Completed => {
                disp.append("Completed");
                assert(disp@ == before_label + spec_status_label(self.status));
            },
        }
        push_char(&mut disp, '\n');
        disp.append("Next Player's Turn:");
        append_decimal(&mut disp, self.next_player);
        push_char(&mut disp, '\n');
        assert(disp@ =~= spec_render(*self));
        disp
    }

    /// Folds one accepted move into the state and returns the successor
    /// state; the input is left untouched. The caller must have validated
    /// the move first: `evolve` performs no re-validation. Every field of
    /// the result is a function of the inputs alone, so replaying one move
    /// sequence always rebuilds the same state.
    pub fn evolve(&self, game: Game, next_move: &Move) -> (r: GameState)
        requires
            self.player1_boxes + self.player2_boxes <= MAX_BOXES,
            spec_in_bounds(spec_line_of(next_move.move_type)),
        ensures
            r.moves@ == self.moves@.push(*next_move),
            r.lines@ == self.lines@.push(spec_line_of(next_move.move_type)),
            r.player1_boxes == spec_player1_boxes_after(*self, game, *next_move),
            r.player2_boxes == spec_player2_boxes_after(*self, game, *next_move),
            r.next_player == spec_next_player_after(*self, game, *next_move),
            r.status == spec_status_after(*self, game, *next_move),
            r.status == GameStatus::Completed <==> r.player1_boxes + r.player2_boxes
                == MAX_BOXES,
            self.lines_in_bounds() ==> r.lines_in_bounds(),
            self.moves_in_bounds() ==> r.moves_in_bounds(),
    {
        let mut moves = clone_moves(&self.moves);
        let mut lines = copy_lines(&self.lines);
        let mut player1_boxes = self.player1_boxes;
        let mut player2_boxes = self.player2_boxes;
        let status: GameStatus;
        let next_player: usize;

        moves.push(next_move.clone());

        match next_move.move_type {
            MoveType::Place { x, y, direction } => {
                let next_line = Line { x, y, direction };
                let num_boxes = next_line.is_part_of_box(self);

                if game.player_1 == next_move.author {
                    if num_boxes > 0 {
                        player1_boxes = player1_boxes + num_boxes;
                        next_player = 1;
                    } else {
                        next_player = 2;
                    }
                } else {
                    if num_boxes > 0 {
                        player2_boxes = player2_boxes + num_boxes;
                        next_player = 2;
                    } else {
                        next_player = 1;
                    }
                }
                lines.push(next_line);
                if player1_boxes + player2_boxes == MAX_BOXES {
                    status = GameStatus::Completed;
                } else {
                    status = GameStatus::InProgress;
                }

                let r = GameState {
                    moves,
                    lines,
                    player1_boxes,
                    player2_boxes,
                    status,
                    next_player,
                };
                assert(r.lines@ == self.lines@.push(next_line));
                assert(self.lines_in_bounds() ==> r.lines_in_bounds()) by {
                    if self.lines_in_bounds() {
                        assert(forall|i: int| 0 <= i < r.lines@.len()
                            ==> spec_in_bounds(#[trigger] r.lines@[i])) by {
                            assert(forall|i: int| 0 <= i < self.lines@.len()
                                ==> r.lines@[i] == self.lines@[i]);
                        }
                    }
                }
                assert(self.moves_in_bounds() ==> r.moves_in_bounds()) by {
                    if self.moves_in_bounds() {
                        assert(forall|i: int| 0 <= i < r.moves@.len()
                            ==> spec_in_bounds(spec_line_of(#[trigger] r.moves@[i].move_type)))
                            by {
                            assert(forall|i: int| 0 <= i < self.moves@.len()
                                ==> r.moves@[i] == self.moves@[i]);
                        }
                    }
                }
                r
            },
        }
    }
}

} // verus!
