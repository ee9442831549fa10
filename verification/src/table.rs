//! The fixed lookup table: each supported alphabet symbol (the letters
//! `a`-`z` and the digits `0`-`9`, case-insensitive) paired with its code
//! symbol, a non-empty string of the glyphs `.` and `-`. The table is a
//! bijection: no alphabet symbol and no code symbol appears twice.

use vstd::prelude::*;

verus! {

/// Case folding: maps `A`-`Z` to `a`-`z`, folds the Kelvin sign (the one
/// other scalar whose full lowercase form is a single character of the
/// alphabet) to `k`, and leaves every other character unchanged.
pub open spec fn lower_char(c: char) -> char {
    if c == 'A' { 'a' }
    else if c == 'B' { 'b' }
    else if c == 'C' { 'c' }
    else if c == 'D' { 'd' }
    else if c == 'E' { 'e' }
    else if c == 'F' { 'f' }
    else if c == 'G' { 'g' }
    else if c == 'H' { 'h' }
    else if c == 'I' { 'i' }
    else if c == 'J' { 'j' }
    else if c == 'K' { 'k' }
    else if c == 'L' { 'l' }
    else if c == 'M' { 'm' }
    else if c == 'N' { 'n' }
    else if c == 'O' { 'o' }
    else if c == 'P' { 'p' }
    else if c == 'Q' { 'q' }
    else if c == 'R' { 'r' }
    else if c == 'S' { 's' }
    else if c == 'T' { 't' }
    else if c == 'U' { 'u' }
    else if c == 'V' { 'v' }
    else if c == 'W' { 'w' }
    else if c == 'X' { 'x' }
    else if c == 'Y' { 'y' }
    else if c == 'Z' { 'z' }
    else if c == '\u{212A}' { 'k' }
    else { c }
}

/// The alphabet symbols, in table order.
pub open spec fn alphabet() -> Seq<char> {
    seq![
        'a', 'b', 'c', 'd', 'e', 'f', 'g', 'h', 'i', 'j', 'k', 'l', 'm',
        'n', 'o', 'p', 'q', 'r', 's', 't', 'u', 'v', 'w', 'x', 'y', 'z',
        '0', '1', '2', '3', '4', '5', '6', '7', '8', '9',
    ]
}

/// The code symbol of an alphabet symbol, or `None` if the character is
/// not in the table. Lookup expects the character already case-folded.
pub open spec fn code_of(c: char) -> Option<Seq<char>> {
    if c == 'a' { Some(seq!['.', '-']) }
    else if c == 'b' { Some(seq!['-', '.', '.', '.']) }
    else if c == 'c' { Some(seq!['-', '.', '-', '.']) }
    else if c == 'd' { Some(seq!['-', '.', '.']) }
    else if c == 'e' { Some(seq!['.']) }
    else if c == 'f' { Some(seq!['.', '.', '-', '.']) }
    else if c == 'g' { Some(seq!['-', '-', '.']) }
    else if c == 'h' { Some(seq!['.', '.', '.', '.']) }
    else if c == 'i' { Some(seq!['.', '.']) }
    else if c == 'j' { Some(seq!['.', '-', '-', '-']) }
    else if c == 'k' { Some(seq!['-', '.', '-']) }
    else if c == 'l' { Some(seq!['.', '-', '.', '.']) }
    else if c == 'm' { Some(seq!['-', '-']) }
    else if c == 'n' { Some(seq!['-', '.']) }
    else if c == 'o' { Some(seq!['-', '-', '-']) }
    else if c == 'p' { Some(seq!['.', '-', '-', '.']) }
    else if c == 'q' { Some(seq!['-', '-', '.', '-']) }
    else if c == 'r' { Some(seq!['.', '-', '.']) }
    else if c == 's' { Some(seq!['.', '.', '.']) }
    else if c == 't' { Some(seq!['-']) }
    else if c == 'u' { Some(seq!['.', '.', '-']) }
    else if c == 'v' { Some(seq!['.', '.', '.', '-']) }
    else if c == 'w' { Some(seq!['.', '-', '-']) }
    else if c == 'x' { Some(seq!['-', '.', '.', '-']) }
    else if c == 'y' { Some(seq!['-', '.', '-', '-']) }
    else if c == 'z' { Some(seq!['-', '-', '.', '.']) }
    else if c == '0' { Some(seq!['-', '-', '-', '-', '-']) }
    else if c == '1' { Some(seq!['.', '-', '-', '-', '-']) }
    else if c == '2' { Some(seq!['.', '.', '-', '-', '-']) }
    else if c == '3' { Some(seq!['.', '.', '.', '-', '-']) }
    else if c == '4' { Some(seq!['.', '.', '.', '.', '-']) }
    else if c == '5' { Some(seq!['.', '.', '.', '.', '.']) }
    else if c == '6' { Some(seq!['-', '.', '.', '.', '.']) }
    else if c == '7' { Some(seq!['-', '-', '.', '.', '.']) }
    else if c == '8' { Some(seq!['-', '-', '-', '.', '.']) }
    else if c == '9' { Some(seq!['-', '-', '-', '-', '.']) }
    else { None }
}

/// The alphabet symbol of a code symbol, or `None` if the exact string is
/// not in the table. Checked in the same table order as `code_of`.
pub open spec fn char_of(t: Seq<char>) -> Option<char> {
    if t == seq!['.', '-'] { Some('a') }
    else if t == seq!['-', '.', '.', '.'] { Some('b') }
    else if t == seq!['-', '.', '-', '.'] { Some('c') }
    else if t == seq!['-', '.', '.'] { Some('d') }
    else if t == seq!['.'] { Some('e') }
    else if t == seq!['.', '.', '-', '.'] { Some('f') }
    else if t == seq!['-', '-', '.'] { Some('g') }
    else if t == seq!['.', '.', '.', '.'] { Some('h') }
    else if t == seq!['.', '.'] { Some('i') }
    else if t == seq!['.', '-', '-', '-'] { Some('j') }
    else if t == seq!['-', '.', '-'] { Some('k') }
    else if t == seq!['.', '-', '.', '.'] { Some('l') }
    else if t == seq!['-', '-'] { Some('m') }
    else if t == seq!['-', '.'] { Some('n') }
    else if t == seq!['-', '-', '-'] { Some('o') }
    else if t == seq!['.', '-', '-', '.'] { Some('p') }
    else if t == seq!['-', '-', '.', '-'] { Some('q') }
    else if t == seq!['.', '-', '.'] { Some('r') }
    else if t == seq!['.', '.', '.'] { Some('s') }
    else if t == seq!['-'] { Some('t') }
    else if t == seq!['.', '.', '-'] { Some('u') }
    else if t == seq!['.', '.', '.', '-'] { Some('v') }
    else if t == seq!['.', '-', '-'] { Some('w') }
    else if t == seq!['-', '.', '.', '-'] { Some('x') }
    else if t == seq!['-', '.', '-', '-'] { Some('y') }
    else if t == seq!['-', '-', '.', '.'] { Some('z') }
    else if t == seq!['-', '-', '-', '-', '-'] { Some('0') }
    else if t == seq!['.', '-', '-', '-', '-'] { Some('1') }
    else if t == seq!['.', '.', '-', '-', '-'] { Some('2') }
    else if t == seq!['.', '.', '.', '-', '-'] { Some('3') }
    else if t == seq!['.', '.', '.', '.', '-'] { Some('4') }
    else if t == seq!['.', '.', '.', '.', '.'] { Some('5') }
    else if t == seq!['-', '.', '.', '.', '.'] { Some('6') }
    else if t == seq!['-', '-', '.', '.', '.'] { Some('7') }
    else if t == seq!['-', '-', '-', '.', '.'] { Some('8') }
    else if t == seq!['-', '-', '-', '-', '.'] { Some('9') }
    else { None }
}

/// A character is supported when its case-folded form is in the table.
pub open spec fn supported(c: char) -> bool {
    code_of(lower_char(c)) is Some
}

/// A code symbol consists of the two glyphs only.
pub open spec fn is_glyph_seq(t: Seq<char>) -> bool {
    forall|j: int| 0 <= j < t.len() ==> t[j] == '.' || t[j] == '-'
}

/// Connects each code-symbol string literal with its character sequence,
/// so that executable code returning the literals meets contracts stated
/// over `code_of` and `char_of`.
proof fn lemma_code_literals()
    ensures
        ".-"@ == seq!['.', '-'],
        "-..."@ == seq!['-', '.', '.', '.'],
        "-.-."@ == seq!['-', '.', '-', '.'],
        "-.."@ == seq!['-', '.', '.'],
        "."@ == seq!['.'],
        "..-."@ == seq!['.', '.', '-', '.'],
        "--."@ == seq!['-', '-', '.'],
        "...."@ == seq!['.', '.', '.', '.'],
        ".."@ == seq!['.', '.'],
        ".---"@ == seq!['.', '-', '-', '-'],
        "-.-"@ == seq!['-', '.', '-'],
        ".-.."@ == seq!['.', '-', '.', '.'],
        "--"@ == seq!['-', '-'],
        "-."@ == seq!['-', '.'],
        "---"@ == seq!['-', '-', '-'],
        ".--."@ == seq!['.', '-', '-', '.'],
        "--.-"@ == seq!['-', '-', '.', '-'],
        ".-."@ == seq!['.', '-', '.'],
        "..."@ == seq!['.', '.', '.'],
        "-"@ == seq!['-'],
        "..-"@ == seq!['.', '.', '-'],
        "...-"@ == seq!['.', '.', '.', '-'],
        ".--"@ == seq!['.', '-', '-'],
        "-..-"@ == seq!['-', '.', '.', '-'],
        "-.--"@ == seq!['-', '.', '-', '-'],
        "--.."@ == seq!['-', '-', '.', '.'],
        "-----"@ == seq!['-', '-', '-', '-', '-'],
        ".----"@ == seq!['.', '-', '-', '-', '-'],
        "..---"@ == seq!['.', '.', '-', '-', '-'],
        "...--"@ == seq!['.', '.', '.', '-', '-'],
        "....-"@ == seq!['.', '.', '.', '.', '-'],
        "....."@ == seq!['.', '.', '.', '.', '.'],
        "-...."@ == seq!['-', '.', '.', '.', '.'],
        "--..."@ == seq!['-', '-', '.', '.', '.'],
        "---.."@ == seq!['-', '-', '-', '.', '.'],
        "----."@ == seq!['-', '-', '-', '-', '.'],
{
    reveal_strlit(".-");
    reveal_strlit("-...");
    reveal_strlit("-.-.");
    reveal_strlit("-..");
    reveal_strlit(".");
    reveal_strlit("..-.");
    reveal_strlit("--.");
    reveal_strlit("....");
    reveal_strlit("..");
    reveal_strlit(".---");
    reveal_strlit("-.-");
    reveal_strlit(".-..");
    reveal_strlit("--");
    reveal_strlit("-.");
    reveal_strlit("---");
    reveal_strlit(".--.");
    reveal_strlit("--.-");
    reveal_strlit(".-.");
    reveal_strlit("...");
    reveal_strlit("-");
    reveal_strlit("..-");
    reveal_strlit("...-");
    reveal_strlit(".--");
    reveal_strlit("-..-");
    reveal_strlit("-.--");
    reveal_strlit("--..");
    reveal_strlit("-----");
    reveal_strlit(".----");
    reveal_strlit("..---");
    reveal_strlit("...--");
    reveal_strlit("....-");
    reveal_strlit(".....");
    reveal_strlit("-....");
    reveal_strlit("--...");
    reveal_strlit("---..");
    reveal_strlit("----.");
    assert(".-"@ =~= seq!['.', '-']);
    assert("-..."@ =~= seq!['-', '.', '.', '.']);
    assert("-.-."@ =~= seq!['-', '.', '-', '.']);
    assert("-.."@ =~= seq!['-', '.', '.']);
    assert("."@ =~= seq!['.']);
    assert("..-."@ =~= seq!['.', '.', '-', '.']);
    assert("--."@ =~= seq!['-', '-', '.']);
    assert("...."@ =~= seq!['.', '.', '.', '.']);
    assert(".."@ =~= seq!['.', '.']);
    assert(".---"@ =~= seq!['.', '-', '-', '-']);
    assert("-.-"@ =~= seq!['-', '.', '-']);
    assert(".-.."@ =~= seq!['.', '-', '.', '.']);
    assert("--"@ =~= seq!['-', '-']);
    assert("-."@ =~= seq!['-', '.']);
    assert("---"@ =~= seq!['-', '-', '-']);
    assert(".--."@ =~= seq!['.', '-', '-', '.']);
    assert("--.-"@ =~= seq!['-', '-', '.', '-']);
    assert(".-."@ =~= seq!['.', '-', '.']);
    assert("..."@ =~= seq!['.', '.', '.']);
    assert("-"@ =~= seq!['-']);
    assert("..-"@ =~= seq!['.', '.', '-']);
    assert("...-"@ =~= seq!['.', '.', '.', '-']);
    assert(".--"@ =~= seq!['.', '-', '-']);
    assert("-..-"@ =~= seq!['-', '.', '.', '-']);
    assert("-.--"@ =~= seq!['-', '.', '-', '-']);
    assert("--.."@ =~= seq!['-', '-', '.', '.']);
    assert("-----"@ =~= seq!['-', '-', '-', '-', '-']);
    assert(".----"@ =~= seq!['.', '-', '-', '-', '-']);
    assert("..---"@ =~= seq!['.', '.', '-', '-', '-']);
    assert("...--"@ =~= seq!['.', '.', '.', '-', '-']);
    assert("....-"@ =~= seq!['.', '.', '.', '.', '-']);
    assert("....."@ =~= seq!['.', '.', '.', '.', '.']);
    assert("-...."@ =~= seq!['-', '.', '.', '.', '.']);
    assert("--..."@ =~= seq!['-', '-', '.', '.', '.']);
    assert("---.."@ =~= seq!['-', '-', '-', '.', '.']);
    assert("----."@ =~= seq!['-', '-', '-', '-', '.']);
}

/// Every code symbol in the table is non-empty and consists of the two
/// glyphs only; in particular it contains neither a space nor a slash.
pub proof fn lemma_code_wf(c: char)
    ensures
        code_of(c) matches Some(t) ==> t.len() >= 1 && is_glyph_seq(t),
{
}

/// Decoding inverts encoding on every table entry: if a character has a
/// code symbol, that code symbol resolves back to the character.
pub proof fn lemma_code_bijective(c: char)
    ensures
        code_of(c) matches Some(t) ==> char_of(t) == Some(c),
{
    assert(seq!['.', '-'].len() == 2 && seq!['.', '-'][0] == '.' && seq!['.', '-'][1] == '-');
    assert(seq!['-', '.', '.', '.'].len() == 4 && seq!['-', '.', '.', '.'][0] == '-' && seq!['-', '.', '.', '.'][1] == '.' && seq!['-', '.', '.', '.'][2] == '.' && seq!['-', '.', '.', '.'][3] == '.');
    assert(seq!['-', '.', '-', '.'].len() == 4 && seq!['-', '.', '-', '.'][0] == '-' && seq!['-', '.', '-', '.'][1] == '.' && seq!['-', '.', '-', '.'][2] == '-' && seq!['-', '.', '-', '.'][3] == '.');
    assert(seq!['-', '.', '.'].len() == 3 && seq!['-', '.', '.'][0] == '-' && seq!['-', '.', '.'][1] == '.' && seq!['-', '.', '.'][2] == '.');
    assert(seq!['.'].len() == 1 && seq!['.'][0] == '.');
    assert(seq!['.', '.', '-', '.'].len() == 4 && seq!['.', '.', '-', '.'][0] == '.' && seq!['.', '.', '-', '.'][1] == '.' && seq!['.', '.', '-', '.'][2] == '-' && seq!['.', '.', '-', '.'][3] == '.');
    assert(seq!['-', '-', '.'].len() == 3 && seq!['-', '-', '.'][0] == '-' && seq!['-', '-', '.'][1] == '-' && seq!['-', '-', '.'][2] == '.');
    assert(seq!['.', '.', '.', '.'].len() == 4 && seq!['.', '.', '.', '.'][0] == '.' && seq!['.', '.', '.', '.'][1] == '.' && seq!['.', '.', '.', '.'][2] == '.' && seq!['.', '.', '.', '.'][3] == '.');
    assert(seq!['.', '.'].len() == 2 && seq!['.', '.'][0] == '.' && seq!['.', '.'][1] == '.');
    assert(seq!['.', '-', '-', '-'].len() == 4 && seq!['.', '-', '-', '-'][0] == '.' && seq!['.', '-', '-', '-'][1] == '-' && seq!['.', '-', '-', '-'][2] == '-' && seq!['.', '-', '-', '-'][3] == '-');
    assert(seq!['-', '.', '-'].len() == 3 && seq!['-', '.', '-'][0] == '-' && seq!['-', '.', '-'][1] == '.' && seq!['-', '.', '-'][2] == '-');
    assert(seq!['.', '-', '.', '.'].len() == 4 && seq!['.', '-', '.', '.'][0] == '.' && seq!['.', '-', '.', '.'][1] == '-' && seq!['.', '-', '.', '.'][2] == '.' && seq!['.', '-', '.', '.'][3] == '.');
    assert(seq!['-', '-'].len() == 2 && seq!['-', '-'][0] == '-' && seq!['-', '-'][1] == '-');
    assert(seq!['-', '.'].len() == 2 && seq!['-', '.'][0] == '-' && seq!['-', '.'][1] == '.');
    assert(seq!['-', '-', '-'].len() == 3 && seq!['-', '-', '-'][0] == '-' && seq!['-', '-', '-'][1] == '-' && seq!['-', '-', '-'][2] == '-');
    assert(seq!['.', '-', '-', '.'].len() == 4 && seq!['.', '-', '-', '.'][0] == '.' && seq!['.', '-', '-', '.'][1] == '-' && seq!['.', '-', '-', '.'][2] == '-' && seq!['.', '-', '-', '.'][3] == '.');
    assert(seq!['-', '-', '.', '-'].len() == 4 && seq!['-', '-', '.', '-'][0] == '-' && seq!['-', '-', '.', '-'][1] == '-' && seq!['-', '-', '.', '-'][2] == '.' && seq!['-', '-', '.', '-'][3] == '-');
    assert(seq!['.', '-', '.'].len() == 3 && seq!['.', '-', '.'][0] == '.' && seq!['.', '-', '.'][1] == '-' && seq!['.', '-', '.'][2] == '.');
    assert(seq!['.', '.', '.'].len() == 3 && seq!['.', '.', '.'][0] == '.' && seq!['.', '.', '.'][1] == '.' && seq!['.', '.', '.'][2] == '.');
    assert(seq!['-'].len() == 1 && seq!['-'][0] == '-');
    assert(seq!['.', '.', '-'].len() == 3 && seq!['.', '.', '-'][0] == '.' && seq!['.', '.', '-'][1] == '.' && seq!['.', '.', '-'][2] == '-');
    assert(seq!['.', '.', '.', '-'].len() == 4 && seq!['.', '.', '.', '-'][0] == '.' && seq!['.', '.', '.', '-'][1] == '.' && seq!['.', '.', '.', '-'][2] == '.' && seq!['.', '.', '.', '-'][3] == '-');
    assert(seq!['.', '-', '-'].len() == 3 && seq!['.', '-', '-'][0] == '.' && seq!['.', '-', '-'][1] == '-' && seq!['.', '-', '-'][2] == '-');
    assert(seq!['-', '.', '.', '-'].len() == 4 && seq!['-', '.', '.', '-'][0] == '-' && seq!['-', '.', '.', '-'][1] == '.' && seq!['-', '.', '.', '-'][2] == '.' && seq!['-', '.', '.', '-'][3] == '-');
    assert(seq!['-', '.', '-', '-'].len() == 4 && seq!['-', '.', '-', '-'][0] == '-' && seq!['-', '.', '-', '-'][1] == '.' && seq!['-', '.', '-', '-'][2] == '-' && seq!['-', '.', '-', '-'][3] == '-');
    assert(seq!['-', '-', '.', '.'].len() == 4 && seq!['-', '-', '.', '.'][0] == '-' && seq!['-', '-', '.', '.'][1] == '-' && seq!['-', '-', '.', '.'][2] == '.' && seq!['-', '-', '.', '.'][3] == '.');
    assert(seq!['-', '-', '-', '-', '-'].len() == 5 && seq!['-', '-', '-', '-', '-'][0] == '-' && seq!['-', '-', '-', '-', '-'][1] == '-' && seq!['-', '-', '-', '-', '-'][2] == '-' && seq!['-', '-', '-', '-', '-'][3] == '-' && seq!['-', '-', '-', '-', '-'][4] == '-');
    assert(seq!['.', '-', '-', '-', '-'].len() == 5 && seq!['.', '-', '-', '-', '-'][0] == '.' && seq!['.', '-', '-', '-', '-'][1] == '-' && seq!['.', '-', '-', '-', '-'][2] == '-' && seq!['.', '-', '-', '-', '-'][3] == '-' && seq!['.', '-', '-', '-', '-'][4] == '-');
    assert(seq!['.', '.', '-', '-', '-'].len() == 5 && seq!['.', '.', '-', '-', '-'][0] == '.' && seq!['.', '.', '-', '-', '-'][1] == '.' && seq!['.', '.', '-', '-', '-'][2] == '-' && seq!['.', '.', '-', '-', '-'][3] == '-' && seq!['.', '.', '-', '-', '-'][4] == '-');
    assert(seq!['.', '.', '.', '-', '-'].len() == 5 && seq!['.', '.', '.', '-', '-'][0] == '.' && seq!['.', '.', '.', '-', '-'][1] == '.' && seq!['.', '.', '.', '-', '-'][2] == '.' && seq!['.', '.', '.', '-', '-'][3] == '-' && seq!['.', '.', '.', '-', '-'][4] == '-');
    assert(seq!['.', '.', '.', '.', '-'].len() == 5 && seq!['.', '.', '.', '.', '-'][0] == '.' && seq!['.', '.', '.', '.', '-'][1] == '.' && seq!['.', '.', '.', '.', '-'][2] == '.' && seq!['.', '.', '.', '.', '-'][3] == '.' && seq!['.', '.', '.', '.', '-'][4] == '-');
    assert(seq!['.', '.', '.', '.', '.'].len() == 5 && seq!['.', '.', '.', '.', '.'][0] == '.' && seq!['.', '.', '.', '.', '.'][1] == '.' && seq!['.', '.', '.', '.', '.'][2] == '.' && seq!['.', '.', '.', '.', '.'][3] == '.' && seq!['.', '.', '.', '.', '.'][4] == '.');
    assert(seq!['-', '.', '.', '.', '.'].len() == 5 && seq!['-', '.', '.', '.', '.'][0] == '-' && seq!['-', '.', '.', '.', '.'][1] == '.' && seq!['-', '.', '.', '.', '.'][2] == '.' && seq!['-', '.', '.', '.', '.'][3] == '.' && seq!['-', '.', '.', '.', '.'][4] == '.');
    assert(seq!['-', '-', '.', '.', '.'].len() == 5 && seq!['-', '-', '.', '.', '.'][0] == '-' && seq!['-', '-', '.', '.', '.'][1] == '-' && seq!['-', '-', '.', '.', '.'][2] == '.' && seq!['-', '-', '.', '.', '.'][3] == '.' && seq!['-', '-', '.', '.', '.'][4] == '.');
    assert(seq!['-', '-', '-', '.', '.'].len() == 5 && seq!['-', '-', '-', '.', '.'][0] == '-' && seq!['-', '-', '-', '.', '.'][1] == '-' && seq!['-', '-', '-', '.', '.'][2] == '-' && seq!['-', '-', '-', '.', '.'][3] == '.' && seq!['-', '-', '-', '.', '.'][4] == '.');
    assert(seq!['-', '-', '-', '-', '.'].len() == 5 && seq!['-', '-', '-', '-', '.'][0] == '-' && seq!['-', '-', '-', '-', '.'][1] == '-' && seq!['-', '-', '-', '-', '.'][2] == '-' && seq!['-', '-', '-', '-', '.'][3] == '-' && seq!['-', '-', '-', '-', '.'][4] == '.');
    if c == 'a' {
        assert(char_of(seq!['.', '-']) == Some('a'));
    }
    else if c == 'b' {
        assert(char_of(seq!['-', '.', '.', '.']) == Some('b'));
    }
    else if c == 'c' {
        assert(char_of(seq!['-', '.', '-', '.']) == Some('c'));
    }
    else if c == 'd' {
        assert(char_of(seq!['-', '.', '.']) == Some('d'));
    }
    else if c == 'e' {
        assert(char_of(seq!['.']) == Some('e'));
    }
    else if c == 'f' {
        assert(char_of(seq!['.', '.', '-', '.']) == Some('f'));
    }
    else if c == 'g' {
        assert(char_of(seq!['-', '-', '.']) == Some('g'));
    }
    else if c == 'h' {
        assert(char_of(seq!['.', '.', '.', '.']) == Some('h'));
    }
    else if c == 'i' {
        assert(char_of(seq!['.', '.']) == Some('i'));
    }
    else if c == 'j' {
        assert(char_of(seq!['.', '-', '-', '-']) == Some('j'));
    }
    else if c == 'k' {
        assert(char_of(seq!['-', '.', '-']) == Some('k'));
    }
    else if c == 'l' {
        assert(char_of(seq!['.', '-', '.', '.']) == Some('l'));
    }
    else if c == 'm' {
        assert(char_of(seq!['-', '-']) == Some('m'));
    }
    else if c == 'n' {
        assert(char_of(seq!['-', '.']) == Some('n'));
    }
    else if c == 'o' {
        assert(char_of(seq!['-', '-', '-']) == Some('o'));
    }
    else if c == 'p' {
        assert(char_of(seq!['.', '-', '-', '.']) == Some('p'));
    }
    else if c == 'q' {
        assert(char_of(seq!['-', '-', '.', '-']) == Some('q'));
    }
    else if c == 'r' {
        assert(char_of(seq!['.', '-', '.']) == Some('r'));
    }
    else if c == 's' {
        assert(char_of(seq!['.', '.', '.']) == Some('s'));
    }
    else if c == 't' {
        assert(char_of(seq!['-']) == Some('t'));
    }
    else if c == 'u' {
        assert(char_of(seq!['.', '.', '-']) == Some('u'));
    }
    else if c == 'v' {
        assert(char_of(seq!['.', '.', '.', '-']) == Some('v'));
    }
    else if c == 'w' {
        assert(char_of(seq!['.', '-', '-']) == Some('w'));
    }
    else if c == 'x' {
        assert(char_of(seq!['-', '.', '.', '-']) == Some('x'));
    }
    else if c == 'y' {
        assert(char_of(seq!['-', '.', '-', '-']) == Some('y'));
    }
    else if c == 'z' {
        assert(char_of(seq!['-', '-', '.', '.']) == Some('z'));
    }
    else if c == '0' {
        assert(char_of(seq!['-', '-', '-', '-', '-']) == Some('0'));
    }
    else if c == '1' {
        assert(char_of(seq!['.', '-', '-', '-', '-']) == Some('1'));
    }
    else if c == '2' {
        assert(char_of(seq!['.', '.', '-', '-', '-']) == Some('2'));
    }
    else if c == '3' {
        assert(char_of(seq!['.', '.', '.', '-', '-']) == Some('3'));
    }
    else if c == '4' {
        assert(char_of(seq!['.', '.', '.', '.', '-']) == Some('4'));
    }
    else if c == '5' {
        assert(char_of(seq!['.', '.', '.', '.', '.']) == Some('5'));
    }
    else if c == '6' {
        assert(char_of(seq!['-', '.', '.', '.', '.']) == Some('6'));
    }
    else if c == '7' {
        assert(char_of(seq!['-', '-', '.', '.', '.']) == Some('7'));
    }
    else if c == '8' {
        assert(char_of(seq!['-', '-', '-', '.', '.']) == Some('8'));
    }
    else if c == '9' {
        assert(char_of(seq!['-', '-', '-', '-', '.']) == Some('9'));
    }
}

/// Encoding inverts decoding on every table entry: if a token resolves to
/// a character, that character's code symbol is the token itself.
pub proof fn lemma_char_of_in_table(t: Seq<char>)
    ensures
        char_of(t) matches Some(c) ==> code_of(c) == Some(t),
{
}

/// The table is a bijection, stated over the alphabet by index: at every
/// position, encoding the alphabet symbol and decoding the resulting code
/// symbol returns the same alphabet symbol.
pub proof fn lemma_table_bijection(i: int)
    requires
        0 <= i < alphabet().len(),
    ensures
        code_of(alphabet()[i]) is Some,
        char_of(code_of(alphabet()[i])->0) == Some(alphabet()[i]),
{
    lemma_code_bijective(alphabet()[i]);
}

/// Case folding in executable form.
pub fn to_lower(c: char) -> (r: char)
    ensures
        r == lower_char(c),
{
    match c {
        'A' => 'a',
        'B' => 'b',
        'C' => 'c',
        'D' => 'd',
        'E' => 'e',
        'F' => 'f',
        'G' => 'g',
        'H' => 'h',
        'I' => 'i',
        'J' => 'j',
        'K' => 'k',
        'L' => 'l',
        'M' => 'm',
        'N' => 'n',
        'O' => 'o',
        'P' => 'p',
        'Q' => 'q',
        'R' => 'r',
        'S' => 's',
        'T' => 't',
        'U' => 'u',
        'V' => 'v',
        'W' => 'w',
        'X' => 'x',
        'Y' => 'y',
        'Z' => 'z',
        '\u{212A}' => 'k',
        _ => c,
    }
}

/// Table lookup from an alphabet symbol (already case-folded) to its code
/// symbol.
pub fn encode_symbol(c: char) -> (r: Option<&'static str>)
    ensures
        match r {
            Some(t) => code_of(c) == Some(t@),
            None => code_of(c) is None,
        },
{
    proof {
        lemma_code_literals();
    }
    match c {
        'a' => Some(".-"),
        'b' => Some("-..."),
        'c' => Some("-.-."),
        'd' => Some("-.."),
        'e' => Some("."),
        'f' => Some("..-."),
        'g' => Some("--."),
        'h' => Some("...."),
        'i' => Some(".."),
        'j' => Some(".---"),
        'k' => Some("-.-"),
        'l' => Some(".-.."),
        'm' => Some("--"),
        'n' => Some("-."),
        'o' => Some("---"),
        'p' => Some(".--."),
        'q' => Some("--.-"),
        'r' => Some(".-."),
        's' => Some("..."),
        't' => Some("-"),
        'u' => Some("..-"),
        'v' => Some("...-"),
        'w' => Some(".--"),
        'x' => Some("-..-"),
        'y' => Some("-.--"),
        'z' => Some("--.."),
        '0' => Some("-----"),
        '1' => Some(".----"),
        '2' => Some("..---"),
        '3' => Some("...--"),
        '4' => Some("....-"),
        '5' => Some("....."),
        '6' => Some("-...."),
        '7' => Some("--..."),
        '8' => Some("---.."),
        '9' => Some("----."),
        _ => None,
    }
}

/// Character-by-character string equality.
pub fn str_eq(a: &str, b: &str) -> (r: bool)
    ensures
        r == (a@ == b@),
{
    let n = a.unicode_len();
    let m = b.unicode_len();
    if n != m {
        return false;
    }
    let mut i: usize = 0;
    while i < n
        invariant
            n == a@.len(),
            n == b@.len(),
            0 <= i <= n,
            forall|j: int| 0 <= j < i ==> a@[j] == b@[j],
        decreases n - i,
    {
        if a.get_char(i) != b.get_char(i) {
            return false;
        }
        i = i + 1;
    }
    proof {
        assert(a@ =~= b@);
    }
    true
}

/// Table lookup from a code-symbol token back to its alphabet symbol,
/// scanning the table in order.
pub fn decode_symbol(t: &str) -> (r: Option<char>)
    ensures
        r == char_of(t@),
{
    proof {
        lemma_code_literals();
    }
    if str_eq(t, ".-") { Some('a') }
    else if str_eq(t, "-...") { Some('b') }
    else if str_eq(t, "-.-.") { Some('c') }
    else if str_eq(t, "-..") { Some('d') }
    else if str_eq(t, ".") { Some('e') }
    else if str_eq(t, "..-.") { Some('f') }
    else if str_eq(t, "--.") { Some('g') }
    else if str_eq(t, "....") { Some('h') }
    else if str_eq(t, "..") { Some('i') }
    else if str_eq(t, ".---") { Some('j') }
    else if str_eq(t, "-.-") { Some('k') }
    else if str_eq(t, ".-..") { Some('l') }
    else if str_eq(t, "--") { Some('m') }
    else if str_eq(t, "-.") { Some('n') }
    else if str_eq(t, "---") { Some('o') }
    else if str_eq(t, ".--.") { Some('p') }
    else if str_eq(t, "--.-") { Some('q') }
    else if str_eq(t, ".-.") { Some('r') }
    else if str_eq(t, "...") { Some('s') }
    else if str_eq(t, "-") { Some('t') }
    else if str_eq(t, "..-") { Some('u') }
    else if str_eq(t, "...-") { Some('v') }
    else if str_eq(t, ".--") { Some('w') }
    else if str_eq(t, "-..-") { Some('x') }
    else if str_eq(t, "-.--") { Some('y') }
    else if str_eq(t, "--..") { Some('z') }
    else if str_eq(t, "-----") { Some('0') }
    else if str_eq(t, ".----") { Some('1') }
    else if str_eq(t, "..---") { Some('2') }
    else if str_eq(t, "...--") { Some('3') }
    else if str_eq(t, "....-") { Some('4') }
    else if str_eq(t, ".....") { Some('5') }
    else if str_eq(t, "-....") { Some('6') }
    else if str_eq(t, "--...") { Some('7') }
    else if str_eq(t, "---..") { Some('8') }
    else if str_eq(t, "----.") { Some('9') }
    else { None }
}

} // verus!
