//! The commands of the protocol and the parser that reads one from a line.

use vstd::prelude::*;
use vstd::string::*;
use crate::text::{
    find, find_chars, same_text, split_tokens, texts, to_chars, tokens, trim, trim_range,
};

verus! {

/// One line of input, read.
#[derive(Debug, Clone, PartialEq, Eq)]
pub enum Command {
    /// Asks the engine to identify itself.
    Uci,
    /// Asks whether the engine is ready.
    IsReady,
    /// Announces a new game.
    UciNewGame,
    /// Sets the position: from a FEN text, or from the starting position where
    /// there is none, followed by moves to play from there.
    Position { fen: Option<String>, moves: Vec<String> },
    /// Sets an option. The value is empty where the line gave none.
    SetOption { name: String, value: String },
    /// Asks for a move in the current position.
    Go,
    /// Ends the session.
    Quit,
    /// Any other line, kept as it came.
    Unknown(String),
}

/// A command as the contracts see it: texts are sequences of characters.
pub enum CommandText {
    Uci,
    IsReady,
    UciNewGame,
    Position { fen: Option<Seq<char>>, moves: Seq<Seq<char>> },
    SetOption { name: Seq<char>, value: Seq<char> },
    Go,
    Quit,
    Unknown(Seq<char>),
}

impl View for Command {
    type V = CommandText;

    open spec fn view(&self) -> CommandText {
        match self {
            Command::Uci => CommandText::Uci,
            Command::IsReady => CommandText::IsReady,
            Command::UciNewGame => CommandText::UciNewGame,
            Command::Position { fen, moves } => CommandText::Position {
                fen: match fen {
                    Some(text) => Some(text@),
                    None => None,
                },
                moves: texts(moves@),
            },
            Command::SetOption { name, value } => CommandText::SetOption {
                name: name@,
                value: value@,
            },
            Command::Go => CommandText::Go,
            Command::Quit => CommandText::Quit,
            Command::Unknown(raw) => CommandText::Unknown(raw@),
        }
    }
}

/// The index of the first word `moves` at or after `from`, or the number of
/// words where there is none.
pub open spec fn moves_at(words: Seq<Seq<char>>, from: int) -> int
    decreases words.len() - from,
{
    if from < 0 || from >= words.len() {
        words.len() as int
    } else if words[from] == "moves"@ {
        from
    } else {
        moves_at(words, from + 1)
    }
}

/// The words behind the first word `moves` that stands at or after `from`:
/// the moves to play. Empty where no such word stands there.
pub open spec fn move_list(words: Seq<Seq<char>>, from: int) -> Seq<Seq<char>> {
    let at = moves_at(words, from);
    if at < words.len() {
        words.skip(at + 1)
    } else {
        Seq::empty()
    }
}

/// The words with one space between each two of them.
pub open spec fn join(words: Seq<Seq<char>>) -> Seq<char>
    decreases words.len(),
{
    if words.len() == 0 {
        Seq::empty()
    } else if words.len() == 1 {
        words[0]
    } else {
        join(words.drop_last()) + seq![' '] + words.last()
    }
}

/// What a line that begins with the word `position` reads as, by its words.
pub open spec fn position_command(line: Seq<char>, words: Seq<Seq<char>>) -> CommandText {
    if words.len() >= 2 && words[1] == "startpos"@ {
        CommandText::Position { fen: None, moves: move_list(words, 2) }
    } else if words.len() >= 2 && words[1] == "fen"@ {
        CommandText::Position {
            fen: Some(join(words.subrange(2, moves_at(words, 2)))),
            moves: move_list(words, 2),
        }
    } else {
        CommandText::Unknown(line)
    }
}

/// What a line that begins with the word `setoption` reads as. The texts
/// `name` and `value` are searched in the whole line, not among its words.
/// The name is what stands between the end of the first `name` and the start
/// of the first `value`, or the end of the line; it is empty where `value`
/// comes first. The value is what follows the first `value`. Both are
/// trimmed.
pub open spec fn option_command(line: Seq<char>) -> CommandText {
    match find(line, "name"@) {
        None => CommandText::Unknown(line),
        Some(n) => {
            let from = n + "name"@.len();
            match find(line, "value"@) {
                None => CommandText::SetOption {
                    name: trim(line.subrange(from, line.len() as int)),
                    value: Seq::empty(),
                },
                Some(v) => CommandText::SetOption {
                    name: if from <= v {
                        trim(line.subrange(from, v))
                    } else {
                        Seq::empty()
                    },
                    value: trim(line.subrange(v + "value"@.len(), line.len() as int)),
                },
            }
        },
    }
}

/// What a line reads as. The first word selects the command; a line without
/// words, or with a first word that is no command, is kept as `Unknown`.
pub open spec fn parse_line(line: Seq<char>) -> CommandText {
    let words = tokens(line);
    if words.len() == 0 {
        CommandText::Unknown(line)
    } else if words[0] == "uci"@ {
        CommandText::Uci
    } else if words[0] == "isready"@ {
        CommandText::IsReady
    } else if words[0] == "ucinewgame"@ {
        CommandText::UciNewGame
    } else if words[0] == "position"@ {
        position_command(line, words)
    } else if words[0] == "setoption"@ {
        option_command(line)
    } else if words[0] == "go"@ {
        CommandText::Go
    } else if words[0] == "quit"@ {
        CommandText::Quit
    } else {
        CommandText::Unknown(line)
    }
}

/// Where the first word `moves` at or after `from` stands at `at`,
/// `moves_at` gives `at`.
pub proof fn lemma_moves_at(words: Seq<Seq<char>>, from: int, at: int)
    requires
        0 <= from <= at < words.len(),
        words[at] == "moves"@,
        forall|i: int| from <= i < at ==> words[i] != "moves"@,
    ensures
        moves_at(words, from) == at,
    decreases at - from,
{
    if from < at {
        lemma_moves_at(words, from + 1, at);
    }
}

/// A line of the words `position fen`, then the words of a FEN text, then
/// `moves` and move tokens, whatever whitespace stands between and around
/// them, reads as the FEN words joined by single spaces and the tokens.
pub proof fn lemma_position_fen(line: Seq<char>, fen: Seq<Seq<char>>, moves: Seq<Seq<char>>)
    requires
        tokens(line) == seq!["position"@, "fen"@] + fen + seq!["moves"@] + moves,
        forall|i: int| 0 <= i < fen.len() ==> fen[i] != "moves"@,
    ensures
        parse_line(line) == (CommandText::Position { fen: Some(join(fen)), moves }),
{
    let words = tokens(line);
    let at: int = fen.len() as int + 2;
    lemma_moves_at(words, 2, at);
    lemma_position_is_no_other_word();
    assert(words.subrange(2, at) =~= fen);
    assert(words.skip(at + 1) =~= moves);
}

/// A line of the words `position startpos`, then `moves` and move tokens,
/// reads as the starting position and the tokens.
pub proof fn lemma_position_startpos(line: Seq<char>, moves: Seq<Seq<char>>)
    requires
        tokens(line) == seq!["position"@, "startpos"@, "moves"@] + moves,
    ensures
        parse_line(line) == (CommandText::Position { fen: None, moves }),
{
    let words = tokens(line);
    lemma_moves_at(words, 2, 2);
    lemma_position_is_no_other_word();
    assert(words.skip(3) =~= moves);
}

/// The word `position` is none of the commands that are tested before it,
/// and `fen` is not `startpos`.
proof fn lemma_position_is_no_other_word()
    ensures
        "position"@ != "uci"@,
        "position"@ != "isready"@,
        "position"@ != "ucinewgame"@,
        "fen"@ != "startpos"@,
{
    reveal_strlit("position");
    reveal_strlit("uci");
    reveal_strlit("isready");
    reveal_strlit("ucinewgame");
    reveal_strlit("fen");
    reveal_strlit("startpos");
    assert("position"@.len() == 8);
    assert("uci"@.len() == 3);
    assert("isready"@.len() == 7);
    assert("ucinewgame"@.len() == 10);
    assert("fen"@.len() == 3);
    assert("startpos"@.len() == 8);
}

/// Finds the first word `moves` at or after `from`.
fn find_moves(words: &Vec<String>, from: usize) -> (at: usize)
    requires
        from <= words.len(),
    ensures
        at == moves_at(texts(words@), from as int),
        from <= at <= words.len(),
{
    let mut i: usize = from;
    while i < words.len()
        invariant
            from <= i <= words.len(),
            moves_at(texts(words@), i as int) == moves_at(texts(words@), from as int),
        decreases words.len() - i,
    {
        if same_text(words[i].as_str(), "moves") {
            return i;
        }
        i += 1;
    }
    i
}

/// Copies the words from `from` on.
fn words_from(words: &Vec<String>, from: usize) -> (rest: Vec<String>)
    requires
        from <= words.len(),
    ensures
        texts(rest@) == texts(words@).skip(from as int),
{
    let mut rest: Vec<String> = Vec::new();
    let mut i: usize = from;
    while i < words.len()
        invariant
            from <= i <= words.len(),
            texts(rest@) == texts(words@).subrange(from as int, i as int),
        decreases words.len() - i,
    {
        let ghost before = texts(rest@);
        rest.push(words[i].clone());
        proof {
            assert(texts(rest@) =~= before.push(words@[i as int]@));
            assert(texts(rest@) =~= texts(words@).subrange(from as int, i + 1));
        }
        i += 1;
    }
    proof {
        assert(texts(rest@) =~= texts(words@).skip(from as int));
    }
    rest
}

/// Joins the words from `lo` up to `hi` with single spaces.
fn join_words(words: &Vec<String>, lo: usize, hi: usize) -> (joined: String)
    requires
        lo <= hi <= words.len(),
    ensures
        joined@ == join(texts(words@).subrange(lo as int, hi as int)),
{
    let mut joined = String::new();
    let mut i: usize = lo;
    while i < hi
        invariant
            lo <= i <= hi <= words.len(),
            joined@ == join(texts(words@).subrange(lo as int, i as int)),
        decreases hi - i,
    {
        let ghost part = texts(words@).subrange(lo as int, i + 1);
        proof {
            reveal_strlit(" ");
            assert(part.drop_last() =~= texts(words@).subrange(lo as int, i as int));
            assert(part.last() == words@[i as int]@);
            assert(" "@ =~= seq![' ']);
        }
        if i > lo {
            joined.append(" ");
        }
        joined.append(words[i].as_str());
        proof {
            assert(joined@ =~= join(part));
        }
        i += 1;
    }
    joined
}

/// Reads a line whose first word is `position`.
fn parse_position(input: &str, words: &Vec<String>) -> (command: Command)
    ensures
        command@ == position_command(input@, texts(words@)),
{
    if words.len() < 2 {
        return Command::Unknown(String::from_str(input));
    }
    let kind = words[1].as_str();
    if same_text(kind, "startpos") {
        let at = find_moves(words, 2);
        let moves = if at < words.len() {
            words_from(words, at + 1)
        } else {
            Vec::new()
        };
        proof {
            assert(texts(moves@) =~= move_list(texts(words@), 2));
        }
        Command::Position { fen: None, moves }
    } else if same_text(kind, "fen") {
        let at = find_moves(words, 2);
        let fen = join_words(words, 2, at);
        let moves = if at < words.len() {
            words_from(words, at + 1)
        } else {
            Vec::new()
        };
        proof {
            assert(texts(moves@) =~= move_list(texts(words@), 2));
        }
        Command::Position { fen: Some(fen), moves }
    } else {
        Command::Unknown(String::from_str(input))
    }
}

/// Reads a line whose first word is `setoption`.
fn parse_option(input: &str) -> (command: Command)
    ensures
        command@ == option_command(input@),
{
    let chars = to_chars(input);
    let name_word = to_chars("name");
    let value_word = to_chars("value");
    match find_chars(&chars, &name_word) {
        None => Command::Unknown(String::from_str(input)),
        Some(n) => {
            let from = n + name_word.len();
            match find_chars(&chars, &value_word) {
                None => {
                    let (a, b) = trim_range(&chars, from, chars.len());
                    Command::SetOption {
                        name: String::from_str(input.substring_char(a, b)),
                        value: String::new(),
                    }
                },
                Some(v) => {
                    let name = if from <= v {
                        let (a, b) = trim_range(&chars, from, v);
                        String::from_str(input.substring_char(a, b))
                    } else {
                        String::new()
                    };
                    let (a, b) = trim_range(&chars, v + value_word.len(), chars.len());
                    Command::SetOption {
                        name,
                        value: String::from_str(input.substring_char(a, b)),
                    }
                },
            }
        },
    }
}

/// Reads one line of input. Every line reads as a command: what is no
/// command of the protocol is returned as `Unknown` with the line itself.
pub fn parse_command(input: &str) -> (command: Command)
    ensures
        command@ == parse_line(input@),
{
    let words = split_tokens(input);
    if words.len() == 0 {
        return Command::Unknown(String::from_str(input));
    }
    let head = words[0].as_str();
    if same_text(head, "uci") {
        Command::Uci
    } else if same_text(head, "isready") {
        Command::IsReady
    } else if same_text(head, "ucinewgame") {
        Command::UciNewGame
    } else if same_text(head, "position") {
        parse_position(input, &words)
    } else if same_text(head, "setoption") {
        parse_option(input)
    } else if same_text(head, "go") {
        Command::Go
    } else if same_text(head, "quit") {
        Command::Quit
    } else {
        Command::Unknown(String::from_str(input))
    }
}

} // verus!
