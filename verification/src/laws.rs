//! What holds of every session, proved from the definitions of the step and
//! of the reply.

use vstd::prelude::*;
use chess::Board;
use crate::command::CommandText;
use crate::rules::{
    board_after, legal_moves, move_of_token, move_text, searchable, start_board,
};
use crate::session::{
    best_line, known_moves, play, playable, replay, reply_lines, shown, step, SessionState,
};

verus! {

/// Announcing a new game twice in a row leaves the session as announcing it
/// once does: at the starting position, with the options as they were.
pub proof fn lemma_new_game_idempotent(state: SessionState)
    ensures
        step(step(state, CommandText::UciNewGame), CommandText::UciNewGame) == step(
            state,
            CommandText::UciNewGame,
        ),
        step(state, CommandText::UciNewGame).board == start_board(),
        step(state, CommandText::UciNewGame).line_count == state.line_count,
{
}

/// Replaying two lists of tokens one after the other is replaying the second
/// from where the first ended.
pub proof fn lemma_replay_concat(board: Board, first: Seq<Seq<char>>, second: Seq<Seq<char>>)
    ensures
        replay(board, first + second) == replay(replay(board, first), second),
    decreases second.len(),
{
    if second.len() == 0 {
        assert(first + second =~= first);
    } else {
        assert((first + second).drop_last() =~= first + second.drop_last());
        assert((first + second).last() == second.last());
        lemma_replay_concat(board, first, second.drop_last());
    }
}

/// A token that names no legal move where it stands leaves no trace: the
/// tokens behind it are played as if it had not been there.
pub proof fn lemma_replay_skips_unplayable(
    board: Board,
    before: Seq<Seq<char>>,
    token: Seq<char>,
    after: Seq<Seq<char>>,
)
    requires
        !playable(replay(board, before), token),
    ensures
        replay(board, before + seq![token] + after) == replay(board, before + after),
{
    lemma_replay_concat(board, before + seq![token], after);
    lemma_replay_concat(board, before, seq![token]);
    lemma_replay_concat(board, before, after);
    assert(seq![token].drop_last() =~= Seq::<Seq<char>>::empty());
    assert(replay(replay(board, before), seq![token]) == play(
        replay(replay(board, before), Seq::empty()),
        token,
    ));
}

/// A token that names a legal move where it stands is played: the position
/// behind it is the one that the rules give for that move.
pub proof fn lemma_replay_plays_legal(board: Board, before: Seq<Seq<char>>, token: Seq<char>)
    requires
        playable(replay(board, before), token),
    ensures
        replay(board, before.push(token)) == board_after(
            replay(board, before),
            move_of_token(token).unwrap(),
        ),
{
    assert(before.push(token).drop_last() =~= before);
}

/// A token that names no legal move, followed by one that names a legal move
/// of the position in which the first was skipped: the second is played
/// there, and the result is what it would be without the first.
pub proof fn lemma_replay_illegal_then_legal(
    board: Board,
    before: Seq<Seq<char>>,
    bad: Seq<char>,
    good: Seq<char>,
)
    requires
        !playable(replay(board, before), bad),
        playable(replay(board, before), good),
    ensures
        replay(board, before + seq![bad, good]) == board_after(
            replay(board, before),
            move_of_token(good).unwrap(),
        ),
        replay(board, before + seq![bad, good]) == replay(board, before + seq![good]),
{
    lemma_replay_skips_unplayable(board, before, bad, seq![good]);
    lemma_replay_plays_legal(board, before, good);
    assert(before + seq![bad] + seq![good] =~= before + seq![bad, good]);
    assert(before + seq![good] =~= before.push(good));
}

/// In a position with a legal move, the last line that answers `go` names a
/// legal move of that position: the first that the generator yields.
pub proof fn lemma_best_move_is_legal(state: SessionState)
    requires
        searchable(state.board),
        legal_moves(state.board).len() > 0,
    ensures
        legal_moves(state.board).contains(legal_moves(state.board)[0]),
        reply_lines(state, CommandText::Go).last() == best_line(
            move_text(legal_moves(state.board)[0]),
        ),
        reply_lines(state, CommandText::Go).len() == shown(
            known_moves(state.board),
            state.line_count,
        ) + 2,
{
}

/// In a position without a legal move, `go` is answered by the one line
/// `bestmove 0000`.
pub proof fn lemma_no_move_no_report(state: SessionState)
    requires
        searchable(state.board) ==> legal_moves(state.board).len() == 0,
    ensures
        reply_lines(state, CommandText::Go) == seq!["bestmove 0000"@],
{
}

/// A search changes nothing in the session, and neither do the handshake,
/// the readiness check, the end of the session or a line that is no command.
pub proof fn lemma_only_three_commands_change_state(state: SessionState, command: CommandText)
    requires
        !(command is UciNewGame),
        !(command is Position),
        !(command is SetOption),
    ensures
        step(state, command) == state,
{
}

/// The number of reported moves is at least one after every command, if it
/// was before.
pub proof fn lemma_line_count_stays_positive(state: SessionState, command: CommandText)
    requires
        state.line_count >= 1,
    ensures
        step(state, command).line_count >= 1,
{
}

} // verus!
