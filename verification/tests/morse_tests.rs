use morse_code::looks_like_code;
use morse_code::morse;
use morse_code::parse;
use morse_code::TranslationError;

#[test]
fn roundtrip_encode_decode() {
    let s = "hello world";
    let enc = morse(s).unwrap();
    let dec = parse(&enc).unwrap();
    assert_eq!(s, dec)
}

#[test]
fn encode_hello_world_exact() {
    assert_eq!(
        morse("hello world").unwrap(),
        ".... . .-.. .-.. ---/.-- --- .-. .-.. -.."
    );
}

#[test]
fn decode_hello_world_exact() {
    assert_eq!(
        parse(".... . .-.. .-.. ---/.-- --- .-. .-.. -..").unwrap(),
        "hello world"
    );
}

#[test]
fn encode_digits_exact() {
    assert_eq!(morse("73").unwrap(), "--... ...--");
}

#[test]
fn encode_sos_exact() {
    assert_eq!(morse("sos").unwrap(), "... --- ...");
}

#[test]
fn encode_unknown_symbol() {
    assert_eq!(morse("h#llo"), Err(TranslationError::UnknownSymbol('#')));
}

#[test]
fn decode_unknown_code() {
    assert_eq!(
        parse(".... . deadbeef"),
        Err(TranslationError::UnknownCode("deadbeef".to_string()))
    );
}

#[test]
fn encode_reports_first_offender() {
    assert_eq!(morse("ab? cd!"), Err(TranslationError::UnknownSymbol('?')));
}

#[test]
fn decode_reports_first_offender() {
    assert_eq!(
        parse(".- xx/-- yy"),
        Err(TranslationError::UnknownCode("xx".to_string()))
    );
}

#[test]
fn word_delimiter_fidelity() {
    let enc = morse("hi there").unwrap();
    assert_eq!(enc, ".... ../- .... . .-. .");
    assert_eq!(enc.matches('/').count(), 1);
    assert_eq!(parse(&enc).unwrap(), "hi there");
}

#[test]
fn case_insensitive() {
    assert_eq!(morse("HELLO").unwrap(), morse("hello").unwrap());
}

#[test]
fn kelvin_sign_folds_to_k() {
    assert_eq!(morse("\u{212A}").unwrap(), "-.-");
    assert_eq!(morse("\u{212A}").unwrap(), morse("k").unwrap());
}

#[test]
fn mixed_case_roundtrip() {
    let enc = morse("Hello World").unwrap();
    assert_eq!(parse(&enc).unwrap(), "hello world");
}

#[test]
fn empty_encode_is_empty() {
    assert_eq!(morse("").unwrap(), "");
}

#[test]
fn empty_decode_is_empty() {
    assert_eq!(parse("").unwrap(), "");
}

#[test]
fn empty_input_roundtrips() {
    assert_eq!(parse(&morse("").unwrap()).unwrap(), "");
}

#[test]
fn decode_trailing_empty_word_fails() {
    assert_eq!(
        parse(".-/"),
        Err(TranslationError::UnknownCode(String::new()))
    );
}

#[test]
fn double_space_encodes_empty_word() {
    assert_eq!(morse("a  b").unwrap(), ".-//-...");
}

#[test]
fn decode_empty_word_fails() {
    assert_eq!(
        parse(".-//-..."),
        Err(TranslationError::UnknownCode(String::new()))
    );
}

#[test]
fn full_alphabet_roundtrip() {
    let s = "abcdefghijklmnopqrstuvwxyz 0123456789";
    let enc = morse(s).unwrap();
    assert_eq!(parse(&enc).unwrap(), s);
}

#[test]
fn dispatch_inspects_first_character() {
    assert!(looks_like_code(".- -"));
    assert!(looks_like_code("-"));
    assert!(!looks_like_code("abc"));
    assert!(!looks_like_code(""));
    assert!(!looks_like_code("a.-"));
}
