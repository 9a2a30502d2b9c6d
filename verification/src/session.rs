//! The session: the current position and the configured options, the step
//! that a command makes on them, and the lines that answer it.

use vstd::prelude::*;
use vstd::string::*;
use chess::{Board, ChessMove};
use crate::command::{parse_command, parse_line, Command, CommandText};
use crate::decimal::{number_of, number_text, number_to_text, parse_number};
use crate::fen::{fen_is_safe, fen_text_is_safe};
use crate::rules::{
    board_after, board_of_fen, check_sane, count_side_pieces, generate_legal_moves, is_legal, legal_moves,
    make_move, move_of_token, move_text, move_to_text, new_start_board, parse_fen, parse_move,
    searchable, start_board,
};
use crate::text::{same_text, texts, to_chars};

verus! {

/// What a session holds, as the contracts see it.
pub struct SessionState {
    /// The current position.
    pub board: Board,
    /// How many moves a search reports. At least one in every session.
    pub line_count: nat,
}

/// A session with a controller.
pub struct Session {
    board: Board,
    line_count: usize,
}

/// The answer to one command.
#[derive(Debug)]
pub struct Reply {
    /// The lines to send, in order.
    pub lines: Vec<String>,
    /// Whether the command ends the session.
    pub quit: bool,
}

/// The position that a FEN text gives, or none: a text that is not safe to
/// hand to the rules counts as malformed, and so does one whose position
/// the move generator cannot be run on.
pub open spec fn fen_board(text: Seq<char>) -> Option<Board> {
    if fen_is_safe(text) && board_of_fen(text) is Some && searchable(board_of_fen(text).unwrap()) {
        board_of_fen(text)
    } else {
        None
    }
}

/// The position that a `position` command starts from: the one that the FEN
/// text gives, or the starting position where there is no text or the text
/// gives none.
pub open spec fn origin_board(fen: Option<Seq<char>>) -> Board {
    match fen {
        Some(text) => match fen_board(text) {
            Some(board) => board,
            None => start_board(),
        },
        None => start_board(),
    }
}

/// Whether a token names a move that is legal in a position. No token does
/// in a position that the move generator cannot be run on.
pub open spec fn playable(board: Board, token: Seq<char>) -> bool {
    searchable(board) && move_of_token(token) is Some && legal_moves(board).contains(
        move_of_token(token).unwrap(),
    )
}

/// The legal moves of a position as texts, in the generator's order; none
/// for a position that the generator cannot be run on.
pub open spec fn known_moves(board: Board) -> Seq<Seq<char>> {
    if searchable(board) {
        move_texts(legal_moves(board))
    } else {
        Seq::empty()
    }
}

/// The position after a move token: the move is made where the token names a
/// legal move, and the position stays as it is where it does not.
pub open spec fn play(board: Board, token: Seq<char>) -> Board {
    if playable(board, token) {
        board_after(board, move_of_token(token).unwrap())
    } else {
        board
    }
}

/// The position after a list of move tokens, each played in the position
/// that the tokens before it gave.
pub open spec fn replay(board: Board, tokens: Seq<Seq<char>>) -> Board
    decreases tokens.len(),
{
    if tokens.len() == 0 {
        board
    } else {
        play(replay(board, tokens.drop_last()), tokens.last())
    }
}

/// The number of reported moves after an option is set. Only the option
/// `MultiPV` changes it, and only with a value that writes a number of at
/// least one: zero, like a text that writes no number, leaves it as it was.
pub open spec fn count_after(count: nat, name: Seq<char>, value: Seq<char>) -> nat {
    if name == "MultiPV"@ {
        match number_of(value) {
            Some(n) => if n >= 1 {
                n
            } else {
                count
            },
            None => count,
        }
    } else {
        count
    }
}

/// The session after a command.
pub open spec fn step(state: SessionState, command: CommandText) -> SessionState {
    match command {
        CommandText::UciNewGame => SessionState { board: start_board(), ..state },
        CommandText::Position { fen, moves } => SessionState {
            board: replay(origin_board(fen), moves),
            ..state
        },
        CommandText::SetOption { name, value } => SessionState {
            line_count: count_after(state.line_count, name, value),
            ..state
        },
        _ => state,
    }
}

/// The three lines that answer `uci`.
pub open spec fn handshake_lines() -> Seq<Seq<char>> {
    seq!["id name "@ + "KippersGambit"@, "id author "@ + "N.K.James"@, "uciok"@]
}

/// The line that reports the move of the given rank, counted from one.
pub open spec fn report_line(rank: nat, mv: Seq<char>) -> Seq<char> {
    "info multipv "@ + number_text(rank) + " pv "@ + mv
}

/// The line that names the move to play.
pub open spec fn best_line(mv: Seq<char>) -> Seq<char> {
    "bestmove "@ + mv
}

/// How many moves are reported: `count`, or all where there are fewer.
pub open spec fn shown(moves: Seq<Seq<char>>, count: nat) -> nat {
    if count < moves.len() {
        count
    } else {
        moves.len()
    }
}

/// The lines that answer `go`, given the legal moves as texts, in the order
/// of the generator: a line on depth and score, a report line for each of
/// the first `count` moves, and the first move as the one to play. Where
/// there is no legal move, the one line `bestmove 0000`.
pub open spec fn search_lines(moves: Seq<Seq<char>>, count: nat) -> Seq<Seq<char>> {
    if moves.len() == 0 {
        seq!["bestmove 0000"@]
    } else {
        seq!["info depth 1 score cp 0"@] + Seq::new(
            shown(moves, count),
            |k: int| report_line((k + 1) as nat, moves[k]),
        ) + seq![best_line(moves[0])]
    }
}

/// The texts of a list of moves.
pub open spec fn move_texts(moves: Seq<ChessMove>) -> Seq<Seq<char>> {
    Seq::new(moves.len(), |i: int| move_text(moves[i]))
}

/// The lines that answer a command.
pub open spec fn reply_lines(state: SessionState, command: CommandText) -> Seq<Seq<char>> {
    match command {
        CommandText::Uci => handshake_lines(),
        CommandText::IsReady => seq!["readyok"@],
        CommandText::Go => search_lines(known_moves(state.board), state.line_count),
        _ => Seq::empty(),
    }
}

/// Answers `uci`: the engine's name, its author, and `uciok`.
pub fn handshake_reply() -> (lines: Vec<String>)
    ensures
        texts(lines@) == handshake_lines(),
{
    let mut name = String::from_str("id name ");
    name.append("KippersGambit");
    let mut author = String::from_str("id author ");
    author.append("N.K.James");
    let mut lines: Vec<String> = Vec::new();
    lines.push(name);
    lines.push(author);
    lines.push(String::from_str("uciok"));
    proof {
        assert(texts(lines@) =~= handshake_lines());
    }
    lines
}

/// Answers `go` for the given legal moves, written as texts.
pub fn search_reply(moves: &Vec<String>, count: usize) -> (lines: Vec<String>)
    ensures
        texts(lines@) == search_lines(texts(moves@), count as nat),
{
    let mut lines: Vec<String> = Vec::new();
    if moves.len() == 0 {
        lines.push(String::from_str("bestmove 0000"));
        proof {
            assert(texts(lines@) =~= search_lines(texts(moves@), count as nat));
        }
        return lines;
    }
    lines.push(String::from_str("info depth 1 score cp 0"));
    let shown: usize = if count < moves.len() {
        count
    } else {
        moves.len()
    };
    let ghost head = seq!["info depth 1 score cp 0"@];
    let mut k: usize = 0;
    while k < shown
        invariant
            k <= shown <= moves.len(),
            head == seq!["info depth 1 score cp 0"@],
            texts(lines@) == head + Seq::new(
                k as nat,
                |i: int| report_line((i + 1) as nat, texts(moves@)[i]),
            ),
        decreases shown - k,
    {
        let mut line = String::from_str("info multipv ");
        let rank = number_to_text(k + 1);
        line.append(rank.as_str());
        line.append(" pv ");
        line.append(moves[k].as_str());
        let ghost before = texts(lines@);
        lines.push(line);
        proof {
            assert(texts(lines@) =~= before.push(report_line((k + 1) as nat, texts(moves@)[k as int])));
            assert(texts(lines@) =~= head + Seq::new(
                (k + 1) as nat,
                |i: int| report_line((i + 1) as nat, texts(moves@)[i]),
            ));
        }
        k += 1;
    }
    let mut best = String::from_str("bestmove ");
    best.append(moves[0].as_str());
    let ghost before = texts(lines@);
    lines.push(best);
    proof {
        assert(texts(lines@) =~= before.push(best_line(texts(moves@)[0])));
        assert(texts(lines@) =~= search_lines(texts(moves@), count as nat));
    }
    lines
}

/// The number of reported moves after the option `name` is set to `value`.
pub fn next_line_count(count: usize, name: &str, value: &str) -> (next: usize)
    ensures
        next == count_after(count as nat, name@, value@),
{
    if same_text(name, "MultiPV") {
        let digits = to_chars(value);
        match parse_number(&digits) {
            Some(n) => if n >= 1 {
                n
            } else {
                count
            },
            None => count,
        }
    } else {
        count
    }
}

/// Tests whether the move generator can be run on a position.
pub fn can_search(board: &Board) -> (can: bool)
    ensures
        can == searchable(*board),
{
    check_sane(board) && count_side_pieces(board) <= 16
}

/// Reads a FEN text: returns the position it gives, or none where the text
/// is malformed, is not safe to hand to the rules, or gives a position that
/// the move generator cannot be run on.
pub fn read_fen(text: &str) -> (board: Option<Board>)
    ensures
        board == fen_board(text@),
{
    if !fen_text_is_safe(text) {
        return None;
    }
    match parse_fen(text) {
        Some(board) => if can_search(&board) {
            Some(board)
        } else {
            None
        },
        None => None,
    }
}

/// Plays a move token in a position: returns the position after the move
/// where the token names a legal move, and the position itself where not.
pub fn play_token(board: &Board, token: &str) -> (next: Board)
    ensures
        next == play(*board, token@),
{
    match parse_move(token) {
        Some(mv) => if can_search(board) && is_legal(board, mv) {
            make_move(board, mv)
        } else {
            *board
        },
        None => *board,
    }
}

/// Plays a list of move tokens from a position, skipping each token that
/// names no legal move where it stands.
pub fn replay_tokens(board: &Board, tokens: &Vec<String>) -> (last: Board)
    ensures
        last == replay(*board, texts(tokens@)),
{
    let mut current: Board = *board;
    let mut i: usize = 0;
    while i < tokens.len()
        invariant
            i <= tokens.len(),
            current == replay(*board, texts(tokens@).take(i as int)),
        decreases tokens.len() - i,
    {
        proof {
            assert(texts(tokens@).take(i + 1).drop_last() =~= texts(tokens@).take(i as int));
        }
        current = play_token(&current, tokens[i].as_str());
        i += 1;
    }
    proof {
        assert(texts(tokens@).take(i as int) =~= texts(tokens@));
    }
    current
}

/// The legal moves of a position as texts, in the generator's order; none
/// for a position that the generator cannot be run on.
pub fn legal_move_texts(board: &Board) -> (moves: Vec<String>)
    ensures
        texts(moves@) == known_moves(*board),
{
    let mut moves: Vec<String> = Vec::new();
    if !can_search(board) {
        proof {
            assert(texts(moves@) =~= known_moves(*board));
        }
        return moves;
    }
    let found = generate_legal_moves(board);
    let mut i: usize = 0;
    while i < found.len()
        invariant
            i <= found.len(),
            texts(moves@) == move_texts(found@.take(i as int)),
        decreases found.len() - i,
    {
        let ghost before = texts(moves@);
        moves.push(move_to_text(found[i]));
        proof {
            assert(texts(moves@) =~= before.push(move_text(found@[i as int])));
            assert(texts(moves@) =~= move_texts(found@.take(i + 1)));
        }
        i += 1;
    }
    proof {
        assert(found@.take(i as int) =~= found@);
    }
    moves
}

impl View for Session {
    type V = SessionState;

    closed spec fn view(&self) -> SessionState {
        SessionState { board: self.board, line_count: self.line_count as nat }
    }
}

impl Session {
    #[verifier::type_invariant]
    spec fn valid(self) -> bool {
        self.line_count >= 1
    }

    /// A new session: the starting position, and one reported move.
    pub fn new() -> (session: Session)
        ensures
            session@ == (SessionState { board: start_board(), line_count: 1 }),
    {
        Session { board: new_start_board(), line_count: 1 }
    }

    /// The current position.
    pub fn board(&self) -> (board: Board)
        ensures
            board == self@.board,
    {
        self.board
    }

    /// How many moves a search reports: at least one.
    pub fn line_count(&self) -> (count: usize)
        ensures
            count == self@.line_count,
            count >= 1,
    {
        proof {
            use_type_invariant(self);
        }
        self.line_count
    }

    /// Applies a command: makes its step on the session and returns the
    /// lines that answer it, and whether it ends the session.
    pub fn apply(&mut self, command: &Command) -> (reply: Reply)
        ensures
            final(self)@ == step(old(self)@, command@),
            texts(reply.lines@) == reply_lines(old(self)@, command@),
            reply.quit == (command@ is Quit),
    {
        let mut lines: Vec<String> = Vec::new();
        let mut quit = false;
        proof {
            use_type_invariant(&*self);
        }
        match command {
            Command::Uci => {
                lines = handshake_reply();
            },
            Command::IsReady => {
                lines.push(String::from_str("readyok"));
                proof {
                    assert(texts(lines@) =~= seq!["readyok"@]);
                }
            },
            Command::UciNewGame => {
                self.board = new_start_board();
            },
            Command::Position { fen, moves } => {
                let origin = match fen {
                    Some(text) => match read_fen(text.as_str()) {
                        Some(board) => board,
                        None => new_start_board(),
                    },
                    None => new_start_board(),
                };
                self.board = replay_tokens(&origin, moves);
            },
            Command::SetOption { name, value } => {
                self.line_count = next_line_count(self.line_count, name.as_str(), value.as_str());
            },
            Command::Go => {
                let moves = legal_move_texts(&self.board);
                lines = search_reply(&moves, self.line_count);
            },
            Command::Quit => {
                quit = true;
            },
            Command::Unknown(_) => {},
        }
        proof {
            assert(texts(lines@) =~= reply_lines(old(self)@, command@));
        }
        Reply { lines, quit }
    }

    /// Reads a line and applies the command it reads as.
    pub fn handle_line(&mut self, line: &str) -> (reply: Reply)
        ensures
            final(self)@ == step(old(self)@, parse_line(line@)),
            texts(reply.lines@) == reply_lines(old(self)@, parse_line(line@)),
            reply.quit == (parse_line(line@) is Quit),
    {
        let command = parse_command(line);
        self.apply(&command)
    }
}

} // verus!
