use fsconcat::digits::{parse_usize, usize_to_decimal};
use fsconcat::error::ProgramError;
use fsconcat::user_input::{parse_total, trim_ascii, UserInput};

#[test]
fn decimal_formatting_matches_standard_rendering() {
    assert_eq!(usize_to_decimal(0), b"0".to_vec());
    assert_eq!(usize_to_decimal(7), b"7".to_vec());
    assert_eq!(usize_to_decimal(10), b"10".to_vec());
    assert_eq!(usize_to_decimal(12345), b"12345".to_vec());
    assert_eq!(usize_to_decimal(usize::MAX), format!("{}", usize::MAX).into_bytes());
}

#[test]
fn parse_accepts_exactly_fitting_digit_strings() {
    assert_eq!(parse_usize(&b"0".to_vec()), Some(0));
    assert_eq!(parse_usize(&b"42".to_vec()), Some(42));
    assert_eq!(parse_usize(&b"007".to_vec()), Some(7));
    assert_eq!(parse_usize(&format!("{}", usize::MAX).into_bytes()), Some(usize::MAX));
}

#[test]
fn parse_rejects_empty_and_non_digit_and_oversized() {
    assert_eq!(parse_usize(&b"".to_vec()), None);
    assert_eq!(parse_usize(&b"12a".to_vec()), None);
    assert_eq!(parse_usize(&b"-1".to_vec()), None);
    assert_eq!(parse_usize(&b" 1".to_vec()), None);
    assert_eq!(parse_usize(&b"999999999999999999999999999999".to_vec()), None);
    let too_big = (usize::MAX as u128 + 1).to_string().into_bytes();
    assert_eq!(parse_usize(&too_big), None);
}

#[test]
fn trimming_strips_ascii_whitespace_at_both_ends() {
    assert_eq!(trim_ascii(&b"  42\r\n".to_vec()), b"42".to_vec());
    assert_eq!(trim_ascii(&b"\ta b \n".to_vec()), b"a b".to_vec());
    assert_eq!(trim_ascii(&b"   \n".to_vec()), Vec::<u8>::new());
    assert_eq!(trim_ascii(&b"x".to_vec()), b"x".to_vec());
}

#[test]
fn total_must_be_a_positive_number() {
    assert_eq!(parse_total(&b" 42\n".to_vec()), Ok(42));
    assert_eq!(parse_total(&b"3".to_vec()), Ok(3));
    assert_eq!(parse_total(&b"0".to_vec()), Err(ProgramError::InvalidInput));
    assert_eq!(parse_total(&b"abc".to_vec()), Err(ProgramError::InvalidInput));
    assert_eq!(parse_total(&b"  \n".to_vec()), Err(ProgramError::InvalidInput));
    assert_eq!(parse_total(&b"4 2".to_vec()), Err(ProgramError::InvalidInput));
}

#[test]
fn user_input_keeps_what_it_was_given() {
    let input = UserInput::new(b"some/dir".to_vec(), 9);
    assert_eq!(input.path, b"some/dir".to_vec());
    assert_eq!(input.total_files, 9);
}
