use pgn_processor::classify::{
    classify, classify_chars, file_from_char, get_piece_type, rank_from_char, square_from_chars,
    strip_check_marks,
};
use pgn_processor::{CastleSide, ParsedToken, PieceType, Token, TokenError};

fn chars(s: &str) -> Vec<char> {
    s.chars().collect()
}

fn parsed(
    piece: PieceType,
    file_hint: Option<u8>,
    rank_hint: Option<u8>,
    capture: bool,
    target: u8,
) -> Result<Token, TokenError> {
    Ok(Token::Move(ParsedToken { piece, file_hint, rank_hint, capture, target }))
}

#[test]
fn castles_are_recognised_verbatim() {
    assert_eq!(classify("O-O"), Ok(Token::Castle(CastleSide::KingSide)));
    assert_eq!(classify("O-O-O"), Ok(Token::Castle(CastleSide::QueenSide)));
    assert_eq!(classify("O-O-"), Err(TokenError::Malformed));
    assert_eq!(classify("O-O-O-O"), Err(TokenError::Malformed));
    assert_eq!(classify("o-o"), Err(TokenError::Malformed));
    assert_eq!(classify("0-0"), Err(TokenError::Malformed));
}

#[test]
fn pawn_push_names_its_target_only() {
    assert_eq!(classify("e4"), parsed(PieceType::Pawn, None, None, false, 28));
    assert_eq!(classify("a1"), parsed(PieceType::Pawn, None, None, false, 0));
    assert_eq!(classify("h8"), parsed(PieceType::Pawn, None, None, false, 63));
    assert_eq!(classify("h1"), parsed(PieceType::Pawn, None, None, false, 7));
    assert_eq!(classify("a8"), parsed(PieceType::Pawn, None, None, false, 56));
}

#[test]
fn pawn_capture_names_its_file() {
    assert_eq!(classify("exd5"), parsed(PieceType::Pawn, Some(4), None, true, 35));
    assert_eq!(classify("axb3"), parsed(PieceType::Pawn, Some(0), None, true, 17));
    assert_eq!(classify("hxg8"), parsed(PieceType::Pawn, Some(7), None, true, 62));
}

#[test]
fn pawn_token_with_more_after_the_target_is_malformed() {
    assert_eq!(classify("e4e5"), Err(TokenError::Malformed));
    assert_eq!(classify("e4Q"), Err(TokenError::Malformed));
    assert_eq!(classify("exd5e"), Err(TokenError::Malformed));
    assert_eq!(classify("ex"), Err(TokenError::Malformed));
    assert_eq!(classify("exd"), Err(TokenError::Malformed));
    assert_eq!(classify("e"), Err(TokenError::Malformed));
    assert_eq!(classify("e9"), Err(TokenError::Malformed));
    assert_eq!(classify("e0"), Err(TokenError::Malformed));
    assert_eq!(classify("exi5"), Err(TokenError::Malformed));
}

#[test]
fn promotion_suffix_is_told_apart() {
    assert_eq!(classify("e8=Q"), Err(TokenError::PromotionUnsupported));
    assert_eq!(classify("a1=N"), Err(TokenError::PromotionUnsupported));
    assert_eq!(classify("exd8=R"), Err(TokenError::PromotionUnsupported));
    assert_eq!(classify("e8="), Err(TokenError::PromotionUnsupported));
    assert_eq!(classify("e9=Q"), Err(TokenError::Malformed));
}

#[test]
fn piece_move_without_hints() {
    assert_eq!(classify("Nf3"), parsed(PieceType::Knight, None, None, false, 21));
    assert_eq!(classify("Bb5"), parsed(PieceType::Bishop, None, None, false, 33));
    assert_eq!(classify("Ra1"), parsed(PieceType::Rook, None, None, false, 0));
    assert_eq!(classify("Qh8"), parsed(PieceType::Queen, None, None, false, 63));
    assert_eq!(classify("Ke2"), parsed(PieceType::King, None, None, false, 12));
    assert_eq!(classify("Nxd2"), parsed(PieceType::Knight, None, None, true, 11));
}

#[test]
fn piece_move_with_hints() {
    assert_eq!(classify("Nbd2"), parsed(PieceType::Knight, Some(1), None, false, 11));
    assert_eq!(classify("N1d2"), parsed(PieceType::Knight, None, Some(0), false, 11));
    assert_eq!(classify("R1a3"), parsed(PieceType::Rook, None, Some(0), false, 16));
    assert_eq!(classify("Qh4e1"), parsed(PieceType::Queen, Some(7), Some(3), false, 4));
    assert_eq!(classify("Raxa1"), parsed(PieceType::Rook, Some(0), None, true, 0));
    assert_eq!(classify("N5xf6"), parsed(PieceType::Knight, None, Some(4), true, 45));
    assert_eq!(classify("Qh4xe1"), parsed(PieceType::Queen, Some(7), Some(3), true, 4));
    assert_eq!(classify("Ngf6"), parsed(PieceType::Knight, Some(6), None, false, 45));
}

#[test]
fn target_is_never_read_as_a_hint() {
    assert_eq!(classify("Nb1"), parsed(PieceType::Knight, None, None, false, 1));
    assert_eq!(classify("Nbb1"), parsed(PieceType::Knight, Some(1), None, false, 1));
    assert_eq!(classify("R11"), Err(TokenError::Malformed));
    assert_eq!(classify("Rb11"), Err(TokenError::Malformed));
}

#[test]
fn piece_token_out_of_order_or_too_long_is_malformed() {
    assert_eq!(classify("N"), Err(TokenError::Malformed));
    assert_eq!(classify("Nf"), Err(TokenError::Malformed));
    assert_eq!(classify("N1bd2"), Err(TokenError::Malformed));
    assert_eq!(classify("Nbcd2"), Err(TokenError::Malformed));
    assert_eq!(classify("Nxbd2"), Err(TokenError::Malformed));
    assert_eq!(classify("Nb1cd2"), Err(TokenError::Malformed));
    assert_eq!(classify("Nb1xxd2"), Err(TokenError::Malformed));
    assert_eq!(classify("Nzd2"), Err(TokenError::Malformed));
    assert_eq!(classify("N9d2"), Err(TokenError::Malformed));
    assert_eq!(classify("N0d2"), Err(TokenError::Malformed));
    assert_eq!(classify("Nf3e"), Err(TokenError::Malformed));
    assert_eq!(classify("Nd9"), Err(TokenError::Malformed));
    assert_eq!(classify("Nxd"), Err(TokenError::Malformed));
    assert_eq!(classify("Nf3=Q"), Err(TokenError::Malformed));
}

#[test]
fn unknown_leading_characters_have_no_shape() {
    assert_eq!(classify(""), Err(TokenError::Malformed));
    assert_eq!(classify("Zf3"), Err(TokenError::Malformed));
    assert_eq!(classify("if3"), Err(TokenError::Malformed));
    assert_eq!(classify("1"), Err(TokenError::Malformed));
    assert_eq!(classify("Pe4"), Err(TokenError::Malformed));
    assert_eq!(classify("\u{e9}4"), Err(TokenError::Malformed));
}

#[test]
fn classify_chars_agrees_with_classify() {
    for token in ["O-O", "e4", "exd5", "Nbd2", "Qh4xe1", "e8=Q", "Zz", ""] {
        assert_eq!(classify_chars(&chars(token)), classify(token), "{}", token);
    }
}

#[test]
fn check_marks_come_off_the_end_only() {
    assert_eq!(strip_check_marks(&chars("Nh6+")), chars("Nh6"));
    assert_eq!(strip_check_marks(&chars("Qxf7#")), chars("Qxf7"));
    assert_eq!(strip_check_marks(&chars("e4+#+")), chars("e4"));
    assert_eq!(strip_check_marks(&chars("e4")), chars("e4"));
    assert_eq!(strip_check_marks(&chars("+e4")), chars("+e4"));
    assert_eq!(strip_check_marks(&chars("e+4")), chars("e+4"));
    assert_eq!(strip_check_marks(&chars("+#")), chars(""));
    assert_eq!(strip_check_marks(&chars("")), chars(""));
}

#[test]
fn file_and_rank_characters() {
    assert_eq!(file_from_char('a'), Some(0));
    assert_eq!(file_from_char('e'), Some(4));
    assert_eq!(file_from_char('h'), Some(7));
    assert_eq!(file_from_char('i'), None);
    assert_eq!(file_from_char('`'), None);
    assert_eq!(file_from_char('A'), None);
    assert_eq!(rank_from_char('1'), Some(0));
    assert_eq!(rank_from_char('8'), Some(7));
    assert_eq!(rank_from_char('0'), None);
    assert_eq!(rank_from_char('9'), None);
}

#[test]
fn square_index_is_rank_times_eight_plus_file() {
    assert_eq!(square_from_chars('a', '1'), Some(0));
    assert_eq!(square_from_chars('h', '1'), Some(7));
    assert_eq!(square_from_chars('a', '2'), Some(8));
    assert_eq!(square_from_chars('e', '4'), Some(28));
    assert_eq!(square_from_chars('h', '8'), Some(63));
    assert_eq!(square_from_chars('i', '1'), None);
    assert_eq!(square_from_chars('a', '9'), None);
    assert_eq!(square_from_chars('1', 'a'), None);
}

#[test]
fn piece_letters() {
    assert_eq!(get_piece_type('N'), Some(PieceType::Knight));
    assert_eq!(get_piece_type('B'), Some(PieceType::Bishop));
    assert_eq!(get_piece_type('R'), Some(PieceType::Rook));
    assert_eq!(get_piece_type('Q'), Some(PieceType::Queen));
    assert_eq!(get_piece_type('K'), Some(PieceType::King));
    assert_eq!(get_piece_type('P'), None);
    assert_eq!(get_piece_type('n'), None);
    assert_eq!(get_piece_type('O'), None);
}
