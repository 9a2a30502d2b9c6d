//! The chess rules this library relies on: positions, moves and the legal
//! move generator of the `chess` crate.
//!
//! Nothing in this module is proved. The prover sees a position and a move
//! as values without contents, and takes each function's contract on trust:
//! every contract says which function of `chess` is called and names what it
//! returns, so that the rest of the library can say exactly which calls a
//! session makes, and with which arguments.

use vstd::prelude::*;
use chess::{Board, ChessMove, MoveGen};
use std::str::FromStr;
use crate::fen::fen_is_safe;

verus! {

/// `chess::Board`, a position. Its contents are not visible to the prover.
#[verifier::external_type_specification]
#[verifier::external_body]
pub struct ExBoard(chess::Board);

/// `chess::ChessMove`, a move by source square, target square and promotion.
#[verifier::external_type_specification]
#[verifier::external_body]
pub struct ExChessMove(chess::ChessMove);

/// The position that `Board::from_str` builds from a FEN text, `None` where it
/// returns an error.
pub uninterp spec fn board_of_fen(fen: Seq<char>) -> Option<Board>;

/// The move that `ChessMove::from_str` reads from a token in long algebraic
/// notation, `None` where it returns an error.
pub uninterp spec fn move_of_token(token: Seq<char>) -> Option<ChessMove>;

/// The moves that `MoveGen::new_legal` yields for a position, in the order in
/// which the generator yields them.
pub uninterp spec fn legal_moves(board: Board) -> Seq<ChessMove>;

/// The position that `Board::make_move_new` returns.
pub uninterp spec fn board_after(board: Board, mv: ChessMove) -> Board;

/// What `Board::is_sane` returns: whether a position is well formed, with
/// one king of each side among other things.
pub uninterp spec fn board_is_sane(board: Board) -> bool;

/// The number of pieces of the side to move: the number of squares in
/// `Board::color_combined` for `Board::side_to_move`.
pub uninterp spec fn side_piece_count(board: Board) -> nat;

/// The text that `ChessMove`'s `Display` writes for a move.
pub uninterp spec fn move_text(mv: ChessMove) -> Seq<char>;

/// The FEN text of the standard starting position.
pub open spec fn start_fen() -> Seq<char> {
    "rnbqkbnr/pppppppp/8/8/8/8/PPPPPPPP/RNBQKBNR w KQkq - 0 1"@
}

/// Whether the legal move generator can be run on a position. It looks the
/// king of the side to move up in its tables without testing that there is
/// one, which `Board::is_sane` tests. And it lists the moves piece by piece
/// in a list of eighteen places, one for each piece of the side to move and
/// up to two for captures in passing, and does not look whether a place is
/// left: with more than sixteen pieces it must not be called.
pub open spec fn searchable(board: Board) -> bool {
    board_is_sane(board) && side_piece_count(board) <= 16
}

/// The standard starting position.
pub open spec fn start_board() -> Board {
    board_of_fen(start_fen()).unwrap()
}

/// Calls `Board::default`. Trusted: it returns the position that
/// `Board::from_str` gives for `start_fen`, which is how `chess` defines it.
#[verifier::external_body]
pub(crate) fn new_start_board() -> (board: Board)
    ensures
        board_of_fen(start_fen()) == Some(board),
{
    Board::default()
}

/// Calls `Board::from_str` on a FEN text. Trusted: the result is a function
/// of the text alone, named `board_of_fen`; nothing is claimed about which
/// texts give a position. The error, which carries no more than the text, is
/// dropped. The call is made only with a text whose piece field puts no
/// piece on a square twice and holds both kings: `chess` looks the king of
/// the side to move up in its tables before it tests that there is one.
#[verifier::external_body]
pub(crate) fn parse_fen(fen: &str) -> (board: Option<Board>)
    requires
        fen_is_safe(fen@),
    ensures
        board == board_of_fen(fen@),
{
    Board::from_str(fen).ok()
}

/// Calls `ChessMove::from_str` on a move token. Trusted: the result is a
/// function of the token alone, named `move_of_token`; nothing is claimed
/// about which tokens give a move. The error is dropped.
#[verifier::external_body]
pub(crate) fn parse_move(token: &str) -> (mv: Option<ChessMove>)
    ensures
        mv == move_of_token(token@),
{
    ChessMove::from_str(token).ok()
}

/// Runs `MoveGen::new_legal` on a position and collects what it yields.
/// Trusted: the moves and their order are a function of the position alone,
/// named `legal_moves`.
/// The call is made only on a position that is `searchable`.
#[verifier::external_body]
pub(crate) fn generate_legal_moves(board: &Board) -> (moves: Vec<ChessMove>)
    requires
        searchable(*board),
    ensures
        moves@ == legal_moves(*board),
{
    MoveGen::new_legal(board).collect()
}

/// Calls `Board::legal`. Trusted: it says whether the move is among
/// `legal_moves` of the position, since `chess` defines it as a search of
/// what `MoveGen::new_legal` yields for a move equal to the given one.
/// The call runs the generator, and is made only on a position that is
/// `searchable`.
#[verifier::external_body]
pub(crate) fn is_legal(board: &Board, mv: ChessMove) -> (legal: bool)
    requires
        searchable(*board),
    ensures
        legal == legal_moves(*board).contains(mv),
{
    board.legal(mv)
}

/// Calls `Board::is_sane`. Trusted: the result is a function of the position
/// alone, named `board_is_sane`.
#[verifier::external_body]
pub(crate) fn check_sane(board: &Board) -> (sane: bool)
    ensures
        sane == board_is_sane(*board),
{
    board.is_sane()
}

/// Counts the pieces of the side to move: `BitBoard::popcnt` of
/// `Board::color_combined` for `Board::side_to_move`. Trusted: the count is
/// a function of the position alone, named `side_piece_count`.
#[verifier::external_body]
pub(crate) fn count_side_pieces(board: &Board) -> (count: u32)
    ensures
        count == side_piece_count(*board),
{
    board.color_combined(board.side_to_move()).popcnt()
}

/// Calls `Board::make_move_new`, which leaves the given position as it is
/// and returns a new one. Trusted: for a legal move the result is a function
/// of the position and the move, named `board_after`. The call is not made
/// with any other move: `chess` may panic on one that takes a king.
#[verifier::external_body]
pub(crate) fn make_move(board: &Board, mv: ChessMove) -> (next: Board)
    requires
        legal_moves(*board).contains(mv),
    ensures
        next == board_after(*board, mv),
{
    board.make_move_new(mv)
}

/// Writes a move with `ChessMove`'s `Display`. Trusted: the text is a
/// function of the move alone, named `move_text`.
#[verifier::external_body]
pub(crate) fn move_to_text(mv: ChessMove) -> (text: String)
    ensures
        text@ == move_text(mv),
{
    mv.to_string()
}

} // verus!
