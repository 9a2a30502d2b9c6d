//! A test on the piece field of a FEN text, made before the text is handed
//! to the rules: that the field puts no piece on a square twice, gives
//! neither side more than sixteen pieces, and holds both kings.

use vstd::prelude::*;
use crate::text::to_chars;

verus! {

/// What has been read of a piece field: the rank that is being filled,
/// counted from one, the squares filled in it, the pieces of each side, and
/// whether each side's king was among them.
pub struct Tally {
    pub ranks: nat,
    pub files: nat,
    pub white: nat,
    pub black: nat,
    pub white_king: bool,
    pub black_king: bool,
}

/// Whether `c` writes a white piece.
pub open spec fn is_white_piece(c: char) -> bool {
    c == 'P' || c == 'N' || c == 'B' || c == 'R' || c == 'Q' || c == 'K'
}

/// Whether `c` writes a black piece.
pub open spec fn is_black_piece(c: char) -> bool {
    c == 'p' || c == 'n' || c == 'b' || c == 'r' || c == 'q' || c == 'k'
}

/// The number of empty squares that `c` writes: its value for a digit from
/// one to eight, zero for any other character.
pub open spec fn empty_squares(c: char) -> nat {
    if '1' <= c && c <= '8' {
        (c as nat - 48) as nat
    } else {
        0
    }
}

/// The tally before the first character: the first rank, nothing in it.
pub open spec fn tally_start() -> Tally {
    Tally { ranks: 1, files: 0, white: 0, black: 0, white_king: false, black_king: false }
}

/// The tally after one more character, or none where the character is not
/// one of a piece field, starts a ninth rank, fills a ninth square of a
/// rank, or writes a seventeenth piece of a side.
pub open spec fn tally_next(t: Tally, c: char) -> Option<Tally> {
    if c == '/' {
        if t.ranks < 8 {
            Some(Tally { ranks: t.ranks + 1, files: 0, ..t })
        } else {
            None
        }
    } else if is_white_piece(c) {
        if t.files < 8 && t.white < 16 {
            Some(
                Tally {
                    files: t.files + 1,
                    white: t.white + 1,
                    white_king: t.white_king || c == 'K',
                    ..t
                },
            )
        } else {
            None
        }
    } else if is_black_piece(c) {
        if t.files < 8 && t.black < 16 {
            Some(
                Tally {
                    files: t.files + 1,
                    black: t.black + 1,
                    black_king: t.black_king || c == 'k',
                    ..t
                },
            )
        } else {
            None
        }
    } else if empty_squares(c) > 0 && t.files + empty_squares(c) <= 8 {
        Some(Tally { files: t.files + empty_squares(c), ..t })
    } else {
        None
    }
}

/// The tally at the end of the piece field, which runs from `from` up to
/// the first space or the end of the text, starting from the tally `t`.
pub open spec fn tally_from(s: Seq<char>, from: int, t: Tally) -> Option<Tally>
    decreases s.len() - from,
{
    if from < 0 || from >= s.len() || s[from] == ' ' {
        Some(t)
    } else {
        match tally_next(t, s[from]) {
            Some(next) => tally_from(s, from + 1, next),
            None => None,
        }
    }
}

/// Whether a FEN text can be handed to the rules: its piece field, the text
/// up to the first space, holds pieces, digits and rank separators only,
/// has at most eight ranks of at most eight squares each, so that no square
/// is written twice, at most sixteen pieces of each side, and a king of
/// each.
pub open spec fn fen_is_safe(fen: Seq<char>) -> bool {
    match tally_from(fen, 0, tally_start()) {
        Some(t) => t.white_king && t.black_king,
        None => false,
    }
}

/// The number of empty squares that a character writes.
fn empty_squares_of(c: char) -> (n: usize)
    ensures
        n == empty_squares(c),
{
    match c {
        '1' => 1,
        '2' => 2,
        '3' => 3,
        '4' => 4,
        '5' => 5,
        '6' => 6,
        '7' => 7,
        '8' => 8,
        _ => 0,
    }
}

/// Tests whether a FEN text can be handed to the rules.
pub fn fen_text_is_safe(fen: &str) -> (safe: bool)
    ensures
        safe == fen_is_safe(fen@),
{
    let chars = to_chars(fen);
    let mut ranks: usize = 1;
    let mut files: usize = 0;
    let mut white: usize = 0;
    let mut black: usize = 0;
    let mut white_king = false;
    let mut black_king = false;
    let mut i: usize = 0;
    while i < chars.len() && chars[i] != ' '
        invariant
            chars@ == fen@,
            i <= chars.len(),
            ranks <= 8,
            files <= 8,
            white <= 16,
            black <= 16,
            tally_from(
                chars@,
                i as int,
                Tally {
                    ranks: ranks as nat,
                    files: files as nat,
                    white: white as nat,
                    black: black as nat,
                    white_king,
                    black_king,
                },
            ) == tally_from(chars@, 0, tally_start()),
        decreases chars.len() - i,
    {
        let c = chars[i];
        let gap = empty_squares_of(c);
        if c == '/' {
            if ranks >= 8 {
                return false;
            }
            ranks += 1;
            files = 0;
        } else if c == 'P' || c == 'N' || c == 'B' || c == 'R' || c == 'Q' || c == 'K' {
            if files >= 8 || white >= 16 {
                return false;
            }
            files += 1;
            white += 1;
            white_king = white_king || c == 'K';
        } else if c == 'p' || c == 'n' || c == 'b' || c == 'r' || c == 'q' || c == 'k' {
            if files >= 8 || black >= 16 {
                return false;
            }
            files += 1;
            black += 1;
            black_king = black_king || c == 'k';
        } else if gap > 0 && files + gap <= 8 {
            files += gap;
        } else {
            return false;
        }
        i += 1;
    }
    white_king && black_king
}

} // verus!
