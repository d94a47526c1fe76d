use from_base::alphabet::lookup;
use from_base::base::{convert, str_to_binary};
use from_base::error::{BaseError, Span};

const SPAN: Span = Span { start: 3, end: 12 };

#[test]
fn decode_then_convert_in_radix_21() {
    let table = "123456789achlmnACHLMN";
    let digits = str_to_binary("1am9llMhc", table, &SPAN).unwrap();
    assert_eq!(digits, vec![0, 9, 13, 8, 12, 12, 19, 11, 10]);
    assert_eq!(convert(&digits, 21, 16), vec![0x04, 0x0A, 0xBA, 0xCA, 0x16]);
}

#[test]
fn unknown_character_after_known_ones() {
    assert_eq!(
        str_to_binary("abc", "ab", &SPAN),
        Err(BaseError::UnknownCharacter { position: 2, span: SPAN })
    );
}

#[test]
fn unknown_character_alone() {
    let result = str_to_binary("x", "abc", &SPAN);
    assert!(matches!(result, Err(BaseError::UnknownCharacter { .. })));
    assert_eq!(result, Err(BaseError::UnknownCharacter { position: 0, span: SPAN }));
}

#[test]
fn first_unknown_character_is_reported() {
    assert_eq!(
        str_to_binary("ab?a!", "ab", &SPAN),
        Err(BaseError::UnknownCharacter { position: 2, span: SPAN })
    );
}

#[test]
fn error_carries_the_span_it_was_given() {
    let span = Span { start: 40, end: 41 };
    assert_eq!(str_to_binary("z", "", &span).unwrap_err().span(), span);
}

#[test]
fn known_text_decodes_to_positions() {
    let table = "0123456789abcdef";
    let digits = str_to_binary("ff00a9", table, &SPAN).unwrap();
    assert_eq!(digits, vec![15, 15, 0, 0, 10, 9]);
    assert_eq!(digits.len(), 6);
    assert!(digits.iter().all(|d| usize::from(*d) < table.len()));
}

#[test]
fn empty_text_decodes_to_no_digits() {
    assert_eq!(str_to_binary("", "abc", &SPAN), Ok(vec![]));
    assert_eq!(str_to_binary("", "", &SPAN), Ok(vec![]));
}

#[test]
fn empty_table_knows_no_character() {
    assert_eq!(
        str_to_binary("a", "", &SPAN),
        Err(BaseError::UnknownCharacter { position: 0, span: SPAN })
    );
}

#[test]
fn repeated_character_takes_its_first_position() {
    assert_eq!(str_to_binary("ab", "aab", &SPAN), Ok(vec![0, 2]));
    assert_eq!(lookup("abca", 'a'), Some(0));
}

#[test]
fn positions_count_characters_not_bytes() {
    let table = "αβγ";
    assert_eq!(str_to_binary("γαβ", table, &SPAN), Ok(vec![2, 0, 1]));
    assert_eq!(
        str_to_binary("αxβ", table, &SPAN),
        Err(BaseError::UnknownCharacter { position: 1, span: SPAN })
    );
}

#[test]
fn lookup_finds_positions() {
    assert_eq!(lookup("abc", 'a'), Some(0));
    assert_eq!(lookup("abc", 'c'), Some(2));
    assert_eq!(lookup("abc", 'd'), None);
    assert_eq!(lookup("", 'd'), None);
}

#[test]
fn positions_past_a_byte_wrap() {
    let table: String = (0..300u32).map(|i| char::from_u32(0x4E00 + i).unwrap()).collect();
    let at = |i: u32| char::from_u32(0x4E00 + i).unwrap();
    assert_eq!(lookup(&table, at(255)), Some(255));
    assert_eq!(lookup(&table, at(256)), Some(0));
    assert_eq!(lookup(&table, at(299)), Some(43));
    assert_eq!(lookup(&table, at(300)), None);
}
