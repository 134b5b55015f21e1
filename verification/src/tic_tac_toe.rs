//! The rules of Tic-Tac-Toe on a three-by-three board.
//!
//! A game is a board and the player whose turn it is. [`spec_has_won`] and
//! [`spec_is_filled`] say when a game is over; the methods of [`TicTacToe`]
//! are proved against them.

use vstd::prelude::*;

verus! {

/// Number of rows, and of columns, on the board.
pub const BOARD_SIZE: usize = 3;

/// What [`TicTacToe::fix_spot`] answers for a spot that is not on the board.
pub const OUT_OF_BOUNDS: &'static str = "Spot is out of bounds. Use numbers between 1 and 3.";

/// What [`TicTacToe::fix_spot`] answers for a spot that holds a mark.
pub const ALREADY_TAKEN: &'static str = "Spot is already taken.";

/// One of the two players.
#[derive(Debug, Clone, Copy, PartialEq, Eq, Structural)]
pub enum Player {
    X,
    O,
}

/// One spot on the board.
#[derive(Debug, Clone, Copy, PartialEq, Eq, Structural)]
pub enum Cell {
    Empty,
    Occupied(Player),
}

/// How far a game has come.
#[derive(Debug, PartialEq, Eq, Structural)]
pub enum GameState {
    InProgress,
    Win(Player),
    Draw,
}

/// A game: the board and the player whose turn it is.
pub struct TicTacToe {
    board: [[Cell; 3]; 3],
    current_player: Player,
}

/// The mathematical value of a game. `cells[row][col]` is the spot in the
/// given row and column, both counted from zero.
pub ghost struct GameView {
    pub cells: Seq<Seq<Cell>>,
    pub current_player: Player,
}

/// The player who is not `player`.
pub open spec fn spec_other(player: Player) -> Player {
    match player {
        Player::X => Player::O,
        Player::O => Player::X,
    }
}

/// Whether `cells` is a full three-by-three grid.
pub open spec fn is_grid(cells: Seq<Seq<Cell>>) -> bool {
    &&& cells.len() == BOARD_SIZE
    &&& forall|row: int| 0 <= row < BOARD_SIZE ==> (#[trigger] cells[row]).len() == BOARD_SIZE
}

/// Whether `player` holds a whole row, a whole column or one of the two
/// diagonals.
pub open spec fn spec_has_won(cells: Seq<Seq<Cell>>, player: Player) -> bool {
    let mark = Cell::Occupied(player);
    ||| exists|row: int|
        0 <= row < 3 && (#[trigger] cells[row])[0] == mark && cells[row][1] == mark
            && cells[row][2] == mark
    ||| exists|col: int|
        0 <= col < 3 && (#[trigger] cells[0][col]) == mark && cells[1][col] == mark
            && cells[2][col] == mark
    ||| cells[0][0] == mark && cells[1][1] == mark && cells[2][2] == mark
    ||| cells[0][2] == mark && cells[1][1] == mark && cells[2][0] == mark
}

/// Whether no spot on the board is empty.
pub open spec fn spec_is_filled(cells: Seq<Seq<Cell>>) -> bool {
    forall|row: int, col: int|
        0 <= row < 3 && 0 <= col < 3 ==> (#[trigger] cells[row][col]) != Cell::Empty
}

/// How far a game has come, judged for the player whose turn it is: a win
/// for that player comes before a draw.
pub open spec fn spec_game_state(game: GameView) -> GameState {
    if spec_has_won(game.cells, game.current_player) {
        GameState::Win(game.current_player)
    } else if spec_is_filled(game.cells) {
        GameState::Draw
    } else {
        GameState::InProgress
    }
}

/// The board with `mark` put on the given spot.
pub open spec fn spec_place(cells: Seq<Seq<Cell>>, row: int, col: int, mark: Cell) -> Seq<
    Seq<Cell>,
> {
    cells.update(row, cells[row].update(col, mark))
}

impl Player {
    /// Returns the other player.
    pub fn swap(&self) -> (other: Player)
        ensures
            other == spec_other(*self),
    {
        match self {
            Player::X => Player::O,
            Player::O => Player::X,
        }
    }

    /// The letter that stands for the player.
    pub fn symbol(&self) -> (c: char)
        ensures
            c == (match *self {
                Player::X => 'X',
                Player::O => 'O',
            }),
    {
        match self {
            Player::X => 'X',
            Player::O => 'O',
        }
    }
}

impl Cell {
    /// The character that stands for the spot: the letter of the player who
    /// holds it, or a dash.
    pub fn symbol(&self) -> (c: char)
        ensures
            c == (match *self {
                Cell::Empty => '-',
                Cell::Occupied(Player::X) => 'X',
                Cell::Occupied(Player::O) => 'O',
            }),
    {
        match self {
            Cell::Empty => '-',
            Cell::Occupied(player) => player.symbol(),
        }
    }
}

impl View for TicTacToe {
    type V = GameView;

    closed spec fn view(&self) -> GameView {
        GameView {
            cells: Seq::new(3, |row: int| self.board@[row]@),
            current_player: self.current_player,
        }
    }
}

impl TicTacToe {
    /// A game with an empty board, in which `starting_player` moves first.
    pub fn new(starting_player: Player) -> (game: TicTacToe)
        ensures
            is_grid(game@.cells),
            forall|row: int, col: int|
                0 <= row < 3 && 0 <= col < 3 ==> (#[trigger] game@.cells[row][col]) == Cell::Empty,
            game@.current_player == starting_player,
    {
        TicTacToe { board: [[Cell::Empty; 3]; 3], current_player: starting_player }
    }

    /// The board of every game is a full grid.
    pub proof fn lemma_grid(&self)
        ensures
            is_grid(self@.cells),
    {
    }

    /// Returns the player whose turn it is.
    pub fn current_player(&self) -> (player: Player)
        ensures
            player == self@.current_player,
    {
        self.current_player
    }

    /// Returns the spot in the given row and column, or nothing if there is
    /// no such spot.
    pub fn cell(&self, row: usize, col: usize) -> (c: Option<Cell>)
        ensures
            c == (if row < 3 && col < 3 {
                Some(self@.cells[row as int][col as int])
            } else {
                None
            }),
    {
        if row < BOARD_SIZE && col < BOARD_SIZE {
            Some(self.board[row][col])
        } else {
            None
        }
    }

    /// Puts the mark of the player whose turn it is on the given spot.
    ///
    /// Fails with [`OUT_OF_BOUNDS`] if there is no such spot and with
    /// [`ALREADY_TAKEN`] if the spot holds a mark; the game is then
    /// unchanged. The turn does not pass to the other player.
    pub fn fix_spot(&mut self, row: usize, col: usize) -> (r: Result<(), &'static str>)
        ensures
            final(self)@.current_player == old(self)@.current_player,
            row >= 3 || col >= 3 ==> r is Err && r->Err_0@ == OUT_OF_BOUNDS@ && final(self)@
                == old(self)@,
            row < 3 && col < 3 && old(self)@.cells[row as int][col as int] != Cell::Empty ==> r
                is Err && r->Err_0@ == ALREADY_TAKEN@ && final(self)@ == old(self)@,
            row < 3 && col < 3 && old(self)@.cells[row as int][col as int] == Cell::Empty ==> r
                is Ok && final(self)@.cells == spec_place(
                old(self)@.cells,
                row as int,
                col as int,
                Cell::Occupied(old(self)@.current_player),
            ),
    {
        if row >= BOARD_SIZE || col >= BOARD_SIZE {
            return Err(OUT_OF_BOUNDS);
        }
        if self.board[row][col] != Cell::Empty {
            return Err(ALREADY_TAKEN);
        }
        let mut cells = self.board[row];
        cells[col] = Cell::Occupied(self.current_player);
        self.board[row] = cells;
        assert(self@.cells =~~= spec_place(
            old(self)@.cells,
            row as int,
            col as int,
            Cell::Occupied(old(self)@.current_player),
        ));
        Ok(())
    }

    /// Says whether the player whose turn it is has won, the board is full,
    /// or the game goes on.
    pub fn check_game_state(&self) -> (state: GameState)
        ensures
            state == spec_game_state(self@),
    {
        if self.has_player_won(self.current_player) {
            return GameState::Win(self.current_player);
        }
        if self.is_board_filled() {
            return GameState::Draw;
        }
        GameState::InProgress
    }

    /// Passes the turn to the other player.
    pub fn swap_player_turn(&mut self)
        ensures
            final(self)@.cells == old(self)@.cells,
            final(self)@.current_player == spec_other(old(self)@.current_player),
    {
        self.current_player = self.current_player.swap();
    }

    /// Checks whether `player` holds a winning line.
    fn has_player_won(&self, player: Player) -> (won: bool)
        ensures
            won == spec_has_won(self@.cells, player),
    {
        let mark = Cell::Occupied(player);
        let ghost cells = self@.cells;
        let mut i: usize = 0;
        while i < BOARD_SIZE
            invariant
                i <= 3,
                cells == self@.cells,
                mark == Cell::Occupied(player),
                forall|row: int|
                    0 <= row < i ==> !((#[trigger] cells[row])[0] == mark && cells[row][1] == mark
                        && cells[row][2] == mark),
                forall|col: int|
                    0 <= col < i ==> !((#[trigger] cells[0][col]) == mark && cells[1][col] == mark
                        && cells[2][col] == mark),
            decreases 3 - i,
        {
            let row_win = self.board[i][0] == mark && self.board[i][1] == mark && self.board[i][2]
                == mark;
            let col_win = self.board[0][i] == mark && self.board[1][i] == mark && self.board[2][i]
                == mark;
            if row_win || col_win {
                proof {
                    if row_win {
                        assert(cells[i as int][0] == mark);
                    } else {
                        assert(cells[0][i as int] == mark);
                    }
                }
                return true;
            }
            i = i + 1;
        }
        let main_diagonal = self.board[0][0] == mark && self.board[1][1] == mark
            && self.board[2][2] == mark;
        let anti_diagonal = self.board[0][2] == mark && self.board[1][1] == mark
            && self.board[2][0] == mark;
        main_diagonal || anti_diagonal
    }

    /// Checks whether every spot holds a mark.
    fn is_board_filled(&self) -> (filled: bool)
        ensures
            filled == spec_is_filled(self@.cells),
    {
        let ghost cells = self@.cells;
        let mut row: usize = 0;
        while row < BOARD_SIZE
            invariant
                row <= 3,
                cells == self@.cells,
                forall|r: int, c: int|
                    0 <= r < row && 0 <= c < 3 ==> (#[trigger] cells[r][c]) != Cell::Empty,
            decreases 3 - row,
        {
            let mut col: usize = 0;
            while col < BOARD_SIZE
                invariant
                    row < 3,
                    col <= 3,
                    cells == self@.cells,
                    forall|r: int, c: int|
                        0 <= r < row && 0 <= c < 3 ==> (#[trigger] cells[r][c]) != Cell::Empty,
                    forall|c: int| 0 <= c < col ==> (#[trigger] cells[row as int][c]) != Cell::Empty,
                decreases 3 - col,
            {
                if self.board[row][col] == Cell::Empty {
                    assert(cells[row as int][col as int] == Cell::Empty);
                    return false;
                }
                col = col + 1;
            }
            row = row + 1;
        }
        true
    }
}

/// A mark changes the spot it is put on and no other.
pub proof fn lemma_place_changes_one_spot(
    cells: Seq<Seq<Cell>>,
    row: int,
    col: int,
    mark: Cell,
    other_row: int,
    other_col: int,
)
    requires
        is_grid(cells),
        0 <= row < 3,
        0 <= col < 3,
        0 <= other_row < 3,
        0 <= other_col < 3,
    ensures
        is_grid(spec_place(cells, row, col, mark)),
        spec_place(cells, row, col, mark)[row][col] == mark,
        (other_row != row || other_col != col) ==> spec_place(
            cells,
            row,
            col,
            mark,
        )[other_row][other_col] == cells[other_row][other_col],
{
}

/// A game cannot be won by a player without a mark on the board: on an
/// empty board the game is in progress, whoever is to move.
pub proof fn lemma_empty_board_in_progress(game: GameView)
    requires
        is_grid(game.cells),
        forall|row: int, col: int|
            0 <= row < 3 && 0 <= col < 3 ==> (#[trigger] game.cells[row][col]) == Cell::Empty,
    ensures
        spec_game_state(game) == GameState::InProgress,
{
    assert(game.cells[0][0] == Cell::Empty);
    assert(game.cells[1][1] == Cell::Empty);
    assert forall|row: int| 0 <= row < 3 implies (#[trigger] game.cells[row])[0] == Cell::Empty by {
        assert(game.cells[row][0] == Cell::Empty);
    }
    assert forall|col: int| 0 <= col < 3 implies (#[trigger] game.cells[0][col]) == Cell::Empty by {}
}

/// Swapping twice gives the player one started with.
pub proof fn lemma_swap_twice(player: Player)
    ensures
        spec_other(spec_other(player)) == player,
        spec_other(player) != player,
{
}

} // verus!
