use pgn_processor::text::{chars_of, render};
use pgn_processor::tokens::{blank_headers, is_noise_word, is_space_char, split_words, tokenize};
use pgn_processor::{CastleSide, Played, ResolvedMove};

fn chars(s: &str) -> Vec<char> {
    s.chars().collect()
}

fn words(list: &[&str]) -> Vec<Vec<char>> {
    list.iter().map(|w| w.chars().collect()).collect()
}

#[test]
fn characters_come_out_in_order() {
    assert_eq!(chars_of("Nf3+"), vec!['N', 'f', '3', '+']);
    assert_eq!(chars_of(""), Vec::<char>::new());
    assert_eq!(chars_of("\u{e9}4\u{2654}"), vec!['\u{e9}', '4', '\u{2654}']);
}

#[test]
fn white_space_is_blank_tab_and_line_ends() {
    assert!(is_space_char(' '));
    assert!(is_space_char('\t'));
    assert!(is_space_char('\n'));
    assert!(is_space_char('\r'));
    assert!(!is_space_char('.'));
    assert!(!is_space_char('e'));
}

#[test]
fn words_are_cut_at_white_space() {
    assert_eq!(split_words(&chars("1. e4 e5")), words(&["1.", "e4", "e5"]));
    assert_eq!(split_words(&chars("  e4\n\te5 \r\n")), words(&["e4", "e5"]));
    assert_eq!(split_words(&chars("e4")), words(&["e4"]));
    assert_eq!(split_words(&chars("")), words(&[]));
    assert_eq!(split_words(&chars(" \n ")), words(&[]));
    assert_eq!(split_words(&chars("a b  c")), words(&["a", "b", "c"]));
}

#[test]
fn headers_are_blanked_bracket_to_bracket() {
    assert_eq!(blank_headers(&chars("[a b] e4")), chars("      e4"));
    assert_eq!(blank_headers(&chars("e4 [x] e5")), chars("e4     e5"));
    assert_eq!(blank_headers(&chars("e4 [x")), chars("e4   "));
    assert_eq!(blank_headers(&chars("e4] e5")), chars("e4] e5"));
    assert_eq!(blank_headers(&chars("[[a]b]")), chars("    b]"));
    assert_eq!(blank_headers(&chars("[a][b]")), chars("      "));
    assert_eq!(blank_headers(&chars("")), chars(""));
}

#[test]
fn move_numbers_and_results_are_noise() {
    assert!(is_noise_word(&chars("1.")));
    assert!(is_noise_word(&chars("12.")));
    assert!(is_noise_word(&chars("3...")));
    assert!(is_noise_word(&chars(".")));
    assert!(is_noise_word(&chars("1-0")));
    assert!(is_noise_word(&chars("0-1")));
    assert!(is_noise_word(&chars("1/2-1/2")));
    assert!(!is_noise_word(&chars("e4")));
    assert!(!is_noise_word(&chars("O-O")));
    assert!(!is_noise_word(&chars("1-1")));
    assert!(!is_noise_word(&chars("1/2-1/3")));
    assert!(!is_noise_word(&chars("1.e4")));
    assert!(!is_noise_word(&chars("")));
}

#[test]
fn tokens_are_the_words_that_are_moves() {
    assert_eq!(tokenize(&chars("1. e4 e5 2. Nf3 Nc6")), words(&["e4", "e5", "Nf3", "Nc6"]));
    assert_eq!(
        tokenize(&chars("[Event \"F/S Return\"]\n[Result \"1-0\"]\n\n1. e4 e5 8.\nd4 Nh6+ 1-0")),
        words(&["e4", "e5", "d4", "Nh6+"])
    );
    assert_eq!(tokenize(&chars("11. Nc3 Qe7 21. Nh6+ 1/2-1/2")), words(&["Nc3", "Qe7", "Nh6+"]));
    assert_eq!(tokenize(&chars("")), words(&[]));
    assert_eq!(tokenize(&chars("1. 2. 0-1")), words(&[]));
}

#[test]
fn move_is_written_as_origin_and_destination() {
    assert_eq!(render(&Played::Move(ResolvedMove { origin: 12, destination: 28 })), "e2e4");
    assert_eq!(render(&Played::Move(ResolvedMove { origin: 0, destination: 63 })), "a1h8");
    assert_eq!(render(&Played::Move(ResolvedMove { origin: 7, destination: 56 })), "h1a8");
    assert_eq!(render(&Played::Move(ResolvedMove { origin: 62, destination: 45 })), "g8f6");
}

#[test]
fn castle_is_written_as_its_token() {
    assert_eq!(render(&Played::Castle(CastleSide::KingSide)), "O-O");
    assert_eq!(render(&Played::Castle(CastleSide::QueenSide)), "O-O-O");
}
