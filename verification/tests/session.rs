use chess::{Board, ChessMove};
use kippers_gambit::command::{parse_command, Command};
use kippers_gambit::fen::fen_text_is_safe;
use kippers_gambit::session::{
    can_search, handshake_reply, legal_move_texts, next_line_count, play_token, read_fen,
    replay_tokens, search_reply, Session,
};
use std::str::FromStr;

fn strings(items: &[&str]) -> Vec<String> {
    items.iter().map(|s| s.to_string()).collect()
}

fn board_of(fen: &str) -> Board {
    Board::from_str(fen).unwrap()
}

const AFTER_E4_E5: &str = "rnbqkbnr/pppp1ppp/8/4p3/4P3/8/PPPP1PPP/RNBQKBNR w KQkq - 0 2";
const MATED: &str = "rnb1kbnr/pppp1ppp/8/4p3/6Pq/5P2/PPPPP2P/RNBQKBNR w KQkq - 1 3";
const STALEMATE: &str = "7k/5Q2/6K1/8/8/8/8/8 b - - 0 1";

#[test]
#[allow(deprecated)]
fn test_uci_engine() {
    let mut session = Session::new();

    let lines = session.handle_line("uci").lines;
    assert!(
        lines.iter().any(|line| line == "uciok"),
        "Engine did not respond with 'uciok'"
    );

    let lines = session.handle_line("isready").lines;
    assert!(
        lines.iter().any(|line| line == "readyok"),
        "Engine did not respond with 'readyok'"
    );

    assert!(session.handle_line("ucinewgame").lines.is_empty());
    let lines = session.handle_line("isready").lines;
    assert!(
        lines.iter().any(|line| line == "readyok"),
        "Engine did not respond with 'readyok' after ucinewgame"
    );

    assert!(session.handle_line("position startpos moves e2e4 e7e5").lines.is_empty());
    let lines = session.handle_line("go").lines;
    let bestmove_line = lines
        .iter()
        .find(|line| line.starts_with("bestmove"))
        .expect("No bestmove found");
    println!("Best Move: {}", bestmove_line);

    let parts: Vec<&str> = bestmove_line.split_whitespace().collect();
    assert!(
        parts.len() >= 2,
        "Invalid bestmove format: {}",
        bestmove_line
    );
    let best_move_str = parts[1];
    assert!(
        best_move_str.len() == 4 || best_move_str.len() == 5,
        "Invalid move length: {}",
        best_move_str
    );
    let board =
        Board::from_fen("rnbqkbnr/pppp1ppp/8/4p3/4P3/8/PPPP1PPP/RNBQKBNR w KQkq - 0 2".to_string())
            .unwrap();
    let mv = best_move_str.parse::<ChessMove>();
    assert!(mv.is_ok(), "Invalid move notation: {}", best_move_str);
    assert!(
        board.legal(*mv.as_ref().unwrap()),
        "Engine suggested an illegal move: {}",
        best_move_str
    );

    let reply = session.handle_line("quit");
    assert!(reply.quit);
    assert!(reply.lines.is_empty());
}

#[test]
fn new_session_is_at_the_start() {
    let session = Session::new();
    assert_eq!(session.board(), Board::default());
    assert_eq!(session.line_count(), 1);
}

#[test]
fn handshake_gives_three_lines_in_order() {
    let mut session = Session::new();
    let reply = session.handle_line("uci");
    assert_eq!(
        reply.lines,
        strings(&["id name KippersGambit", "id author N.K.James", "uciok"])
    );
    assert!(!reply.quit);
    assert_eq!(handshake_reply(), reply.lines);
    assert_eq!(session.board(), Board::default());
    assert_eq!(session.line_count(), 1);
}

#[test]
fn readiness_check_gives_one_line() {
    let mut session = Session::new();
    let reply = session.handle_line("isready");
    assert_eq!(reply.lines, strings(&["readyok"]));
    assert!(!reply.quit);
}

#[test]
fn multipv_three_is_applied() {
    let mut session = Session::new();
    let command = parse_command("setoption name MultiPV value 3");
    let reply = session.apply(&command);
    assert!(reply.lines.is_empty());
    assert_eq!(session.line_count(), 3);
}

#[test]
fn multipv_zero_leaves_the_count() {
    let mut session = Session::new();
    session.handle_line("setoption name MultiPV value 0");
    assert_eq!(session.line_count(), 1);
    session.handle_line("setoption name MultiPV value 4");
    assert_eq!(session.line_count(), 4);
    session.handle_line("setoption name MultiPV value 0");
    assert_eq!(session.line_count(), 4);
}

#[test]
fn multipv_unreadable_value_leaves_the_count() {
    let mut session = Session::new();
    session.handle_line("setoption name MultiPV value 5");
    for line in [
        "setoption name MultiPV value many",
        "setoption name MultiPV value -2",
        "setoption name MultiPV value 2 3",
        "setoption name MultiPV value",
        "setoption name MultiPV",
        "setoption name MultiPV value 99999999999999999999999",
    ] {
        session.handle_line(line);
        assert_eq!(session.line_count(), 5, "{}", line);
    }
}

#[test]
fn other_options_change_nothing() {
    let mut session = Session::new();
    session.handle_line("setoption name Hash value 128");
    session.handle_line("setoption name multipv value 7");
    assert_eq!(session.line_count(), 1);
    assert_eq!(session.board(), Board::default());
}

#[test]
fn next_line_count_cases() {
    assert_eq!(next_line_count(2, "MultiPV", "3"), 3);
    assert_eq!(next_line_count(2, "MultiPV", "1"), 1);
    assert_eq!(next_line_count(2, "MultiPV", "+6"), 6);
    assert_eq!(next_line_count(2, "MultiPV", "0"), 2);
    assert_eq!(next_line_count(2, "MultiPV", ""), 2);
    assert_eq!(next_line_count(2, "MultiPV", "x"), 2);
    assert_eq!(next_line_count(2, "Hash", "3"), 2);
}

#[test]
fn position_then_search_names_a_legal_move() {
    let mut session = Session::new();
    session.apply(&Command::Position {
        fen: None,
        moves: strings(&["e2e4", "e7e5"]),
    });
    assert_eq!(session.board(), board_of(AFTER_E4_E5));
    let reply = session.apply(&Command::Go);
    let last = reply.lines.last().unwrap();
    let text = last.strip_prefix("bestmove ").unwrap();
    let mv = ChessMove::from_str(text).unwrap();
    assert!(board_of(AFTER_E4_E5).legal(mv));
    assert_eq!(session.board(), board_of(AFTER_E4_E5));
}

#[test]
fn search_lines_from_the_start() {
    let mut session = Session::new();
    let moves = legal_move_texts(&Board::default());
    assert_eq!(moves.len(), 20);
    let reply = session.handle_line("go");
    assert_eq!(
        reply.lines,
        vec![
            "info depth 1 score cp 0".to_string(),
            format!("info multipv 1 pv {}", moves[0]),
            format!("bestmove {}", moves[0]),
        ]
    );
    session.handle_line("setoption name MultiPV value 3");
    let reply = session.handle_line("go depth 3");
    assert_eq!(
        reply.lines,
        vec![
            "info depth 1 score cp 0".to_string(),
            format!("info multipv 1 pv {}", moves[0]),
            format!("info multipv 2 pv {}", moves[1]),
            format!("info multipv 3 pv {}", moves[2]),
            format!("bestmove {}", moves[0]),
        ]
    );
}

#[test]
fn search_reports_no_more_than_the_legal_moves() {
    let mut session = Session::new();
    session.handle_line("setoption name MultiPV value 500");
    let reply = session.handle_line("go");
    assert_eq!(reply.lines.len(), 22);
    assert!(reply.lines[20].starts_with("info multipv 20 pv "));
    assert!(reply.lines[21].starts_with("bestmove "));
}

#[test]
fn legal_move_texts_follow_the_generator() {
    let board = Board::default();
    let expected: Vec<String> = chess::MoveGen::new_legal(&board).map(|m| m.to_string()).collect();
    assert_eq!(legal_move_texts(&board), expected);
    assert!(expected.contains(&"e2e4".to_string()));
}

#[test]
fn search_reply_exact_lines() {
    assert_eq!(search_reply(&vec![], 3), strings(&["bestmove 0000"]));
    assert_eq!(
        search_reply(&strings(&["a2a3", "b2b3", "e7e8q"]), 2),
        strings(&[
            "info depth 1 score cp 0",
            "info multipv 1 pv a2a3",
            "info multipv 2 pv b2b3",
            "bestmove a2a3",
        ])
    );
    assert_eq!(
        search_reply(&strings(&["a2a3"]), 5),
        strings(&["info depth 1 score cp 0", "info multipv 1 pv a2a3", "bestmove a2a3"])
    );
    assert_eq!(
        search_reply(&strings(&["a2a3"]), 0),
        strings(&["info depth 1 score cp 0", "bestmove a2a3"])
    );
}

#[test]
fn search_reply_ranks_with_two_digits() {
    let moves: Vec<String> = (0..12).map(|i| format!("m{}", i)).collect();
    let lines = search_reply(&moves, 12);
    assert_eq!(lines.len(), 14);
    assert_eq!(lines[10], "info multipv 10 pv m9");
    assert_eq!(lines[12], "info multipv 12 pv m11");
    assert_eq!(lines[13], "bestmove m0");
}

#[test]
fn checkmate_gives_the_null_move() {
    let mut session = Session::new();
    session.handle_line(&format!("position fen {}", MATED));
    assert_eq!(session.board(), board_of(MATED));
    let reply = session.handle_line("go");
    assert_eq!(reply.lines, strings(&["bestmove 0000"]));
    assert!(!reply.lines.iter().any(|line| line.starts_with("info multipv")));
}

#[test]
fn stalemate_gives_the_null_move() {
    let mut session = Session::new();
    session.handle_line("setoption name MultiPV value 4");
    session.handle_line(&format!("position fen {}", STALEMATE));
    let reply = session.handle_line("go");
    assert_eq!(reply.lines, strings(&["bestmove 0000"]));
}

#[test]
fn new_game_twice_is_new_game_once() {
    let mut once = Session::new();
    once.handle_line("position startpos moves e2e4");
    once.handle_line("setoption name MultiPV value 2");
    once.handle_line("ucinewgame");
    let mut twice = Session::new();
    twice.handle_line("position startpos moves e2e4");
    twice.handle_line("setoption name MultiPV value 2");
    twice.handle_line("ucinewgame");
    assert_eq!(twice.board(), Board::default());
    twice.handle_line("ucinewgame");
    assert_eq!(twice.board(), Board::default());
    assert_eq!(once.board(), twice.board());
    assert_eq!(once.line_count(), twice.line_count());
    assert_eq!(twice.line_count(), 2);
}

#[test]
fn replay_skips_an_illegal_token() {
    let mut session = Session::new();
    session.handle_line("position startpos moves e2e5 e2e4");
    let mut plain = Session::new();
    plain.handle_line("position startpos moves e2e4");
    assert_eq!(session.board(), plain.board());
    assert_eq!(
        session.board(),
        board_of("rnbqkbnr/pppppppp/8/8/4P3/8/PPPP1PPP/RNBQKBNR b KQkq - 0 1")
    );
}

#[test]
fn replay_skips_unreadable_tokens() {
    let start = Board::default();
    let with_noise = replay_tokens(&start, &strings(&["zz", "e2e4", "", "e7e5", "e7e5", "x9y9"]));
    assert_eq!(with_noise, board_of(AFTER_E4_E5));
    assert_eq!(replay_tokens(&start, &vec![]), start);
}

#[test]
fn play_token_makes_legal_moves_only() {
    let start = Board::default();
    assert_eq!(
        play_token(&start, "e2e4"),
        board_of("rnbqkbnr/pppppppp/8/8/4P3/8/PPPP1PPP/RNBQKBNR b KQkq - 0 1")
    );
    assert_ne!(play_token(&start, "e2e4"), start);
    assert_eq!(play_token(&start, "e2e5"), start);
    assert_eq!(play_token(&start, "e7e5"), start);
    assert_eq!(play_token(&start, "e2"), start);
    assert_eq!(play_token(&start, "hello"), start);
    assert_eq!(play_token(&start, "e2e4q"), start);
}

#[test]
fn position_replaces_the_board() {
    let mut session = Session::new();
    session.handle_line("position startpos moves e2e4 e7e5");
    session.handle_line("position startpos");
    assert_eq!(session.board(), Board::default());
    session.handle_line(&format!("position fen {} moves g1f3", AFTER_E4_E5));
    assert_eq!(
        session.board(),
        board_of(AFTER_E4_E5).make_move_new(ChessMove::from_str("g1f3").unwrap())
    );
}

#[test]
fn bad_fen_falls_back_to_the_start() {
    let mut session = Session::new();
    session.handle_line("position startpos moves e2e4 e7e5");
    session.handle_line("position fen this is not a position");
    assert_eq!(session.board(), Board::default());
    session.handle_line("position startpos moves d2d4");
    session.handle_line("position fen nonsense moves e2e4");
    let mut plain = Session::new();
    plain.handle_line("position startpos moves e2e4");
    assert_eq!(session.board(), plain.board());
}

#[test]
fn unknown_lines_change_nothing() {
    let mut session = Session::new();
    session.handle_line("position startpos moves e2e4");
    session.handle_line("setoption name MultiPV value 2");
    let board = session.board();
    for line in ["", "   ", "hello", "position", "setoption", "stop", "\u{1}\u{2}"] {
        let reply = session.handle_line(line);
        assert!(reply.lines.is_empty(), "{:?}", line);
        assert!(!reply.quit);
        assert_eq!(session.board(), board);
        assert_eq!(session.line_count(), 2);
    }
}

#[test]
fn only_quit_ends_the_session() {
    let mut session = Session::new();
    for line in ["uci", "isready", "ucinewgame", "position startpos", "go", "nothing"] {
        assert!(!session.handle_line(line).quit, "{}", line);
    }
    let reply = session.handle_line("quit");
    assert!(reply.quit);
    assert!(reply.lines.is_empty());
    assert_eq!(session.board(), Board::default());
}

#[test]
fn promotion_moves_are_written_with_the_piece() {
    let board = board_of("8/P6k/8/8/8/8/8/K7 w - - 0 1");
    let moves = legal_move_texts(&board);
    assert!(moves.contains(&"a7a8q".to_string()));
    assert!(moves.contains(&"a7a8n".to_string()));
    let next = play_token(&board, "a7a8q");
    assert_eq!(next, board.make_move_new(ChessMove::from_str("a7a8q").unwrap()));
    assert_ne!(next, board);
}

const CROWDED: &str = "k7/8/PPPPPPPP/8/PPPPPPPP/8/PPPPPPPP/7K w - - 0 1";
const EMPTY_BOARD: &str = "8/8/8/8/8/8/8/8 w - - 0 1";
const START: &str = "rnbqkbnr/pppppppp/8/8/8/8/PPPPPPPP/RNBQKBNR w KQkq - 0 1";

#[test]
fn fen_text_safety() {
    assert!(fen_text_is_safe(START));
    assert!(fen_text_is_safe(AFTER_E4_E5));
    assert!(fen_text_is_safe(MATED));
    assert!(fen_text_is_safe(STALEMATE));
    assert!(fen_text_is_safe("8/P6k/8/8/8/8/8/K7 w - - 0 1"));
    assert!(fen_text_is_safe("k7/8/8/8/8/8/8/K"));
    assert!(fen_text_is_safe("kK"));
    assert!(!fen_text_is_safe(""));
    assert!(!fen_text_is_safe(EMPTY_BOARD));
    assert!(!fen_text_is_safe(CROWDED));
    assert!(!fen_text_is_safe("K7/8/pppppppp/8/pppppppp/8/pppppppp/7k b - - 0 1"));
    assert!(!fen_text_is_safe("8/8/8/8/8/8/8/K7 w - - 0 1"));
    assert!(!fen_text_is_safe("8/8/8/8/8/8/8/k7 b - - 0 1"));
    assert!(!fen_text_is_safe("K7PP/8/8/8/8/8/8/k7 w - - 0 1"));
    assert!(!fen_text_is_safe("K8/8/8/8/8/8/8/k7 w - - 0 1"));
    assert!(!fen_text_is_safe("k7/8/8/8/8/8/8/8/K7 w - - 0 1"));
    assert!(!fen_text_is_safe("k7/8/8/8/8/8/8/K6x w - - 0 1"));
    assert!(!fen_text_is_safe("k7/8/8/8/8/8/8/K09 w - - 0 1"));
    assert!(!fen_text_is_safe(" k7/8/8/8/8/8/8/K7 w - - 0 1"));
    assert!(!fen_text_is_safe("this is not a position"));
}

#[test]
fn read_fen_gives_the_position_of_the_text() {
    assert_eq!(read_fen(START), Some(Board::default()));
    assert_eq!(read_fen(AFTER_E4_E5), Some(board_of(AFTER_E4_E5)));
    assert_ne!(read_fen(AFTER_E4_E5), Some(Board::default()));
    assert_eq!(read_fen(MATED), Some(board_of(MATED)));
}

#[test]
fn read_fen_refuses_what_the_rules_cannot_take() {
    assert_eq!(read_fen(EMPTY_BOARD), None);
    assert_eq!(read_fen(CROWDED), None);
    assert_eq!(read_fen(""), None);
    assert_eq!(read_fen("nonsense"), None);
    assert_eq!(read_fen("k7/8/8/8/8/8/8/K7"), None);
    assert_eq!(read_fen("k7/8/8/8/8/8/8/K7 x - - 0 1"), None);
    assert_eq!(read_fen("kK6/8/8/8/8/8/8/8 w - - 0 1"), None);
}

#[test]
fn crowded_position_counts_as_malformed() {
    let mut session = Session::new();
    session.handle_line("position startpos moves e2e4");
    session.handle_line(&format!("position fen {} moves a6a7", CROWDED));
    assert_eq!(session.board(), Board::default());
    let reply = session.handle_line("go");
    assert_eq!(reply.lines.len(), 3);
    assert!(reply.lines[2].starts_with("bestmove "));
}

#[test]
fn position_without_kings_counts_as_malformed() {
    let mut session = Session::new();
    session.handle_line("position startpos moves e2e4");
    session.handle_line(&format!("position fen {}", EMPTY_BOARD));
    assert_eq!(session.board(), Board::default());
    session.handle_line(&format!("position fen {} moves e2e4", EMPTY_BOARD));
    assert_eq!(
        session.board(),
        board_of("rnbqkbnr/pppppppp/8/8/4P3/8/PPPP1PPP/RNBQKBNR b KQkq - 0 1")
    );
}

#[test]
fn usual_positions_can_be_searched() {
    assert!(can_search(&Board::default()));
    assert!(can_search(&board_of(AFTER_E4_E5)));
    assert!(can_search(&board_of(STALEMATE)));
}

#[test]
fn crowded_position_is_not_searched() {
    let crowded = board_of(CROWDED);
    assert!(!can_search(&crowded));
    assert_eq!(legal_move_texts(&crowded), Vec::<String>::new());
    assert_eq!(play_token(&crowded, "a6a7"), crowded);
    assert_eq!(replay_tokens(&crowded, &strings(&["a6a7", "h1g1"])), crowded);
}
