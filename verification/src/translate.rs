//! The executable translator: `morse` turns text into code form, `parse`
//! turns code form back into text, and `looks_like_code` is the dispatch
//! heuristic that decides which direction a raw input line calls for.

use vstd::prelude::*;
use vstd::string::StrSliceExecFns;
use vstd::string::StringExecFns;

use crate::model::code_decodable;
use crate::model::find_first;
use crate::model::first_unknown_token;
use crate::model::first_unsupported;
use crate::model::lemma_decode_chars;
use crate::model::lemma_encode_chars;
use crate::model::lemma_find_first;
use crate::model::spec_decode;
use crate::model::spec_decode_word;
use crate::model::spec_decode_words;
use crate::model::spec_encode;
use crate::model::spec_encode_word;
use crate::model::text_encodable;
use crate::model::tokens;
use crate::table::code_of;
use crate::table::decode_symbol;
use crate::table::encode_symbol;
use crate::table::lemma_char_of_in_table;
use crate::table::to_lower;

verus! {

/// Why a translation failed: an unsupported character during encoding, or
/// an unknown code-symbol token during decoding. The first offending
/// input is carried; no partial output is returned.
#[derive(Debug, PartialEq, Eq)]
pub enum TranslationError {
    UnknownSymbol(char),
    UnknownCode(String),
}

/// The position of the first occurrence of `d`, scanning left to right.
fn find_char(s: &str, d: char) -> (r: Option<usize>)
    ensures
        match r {
            Some(i) => find_first(s@, d) == Some(i as int),
            None => find_first(s@, d) is None,
        },
{
    let n = s.unicode_len();
    let mut i: usize = 0;
    while i < n
        invariant
            n == s@.len(),
            0 <= i <= n,
            forall|j: int| 0 <= j < i ==> s@[j] != d,
        decreases n - i,
    {
        if s.get_char(i) == d {
            proof {
                lemma_find_first(s@, d);
            }
            return Some(i);
        }
        i = i + 1;
    }
    proof {
        lemma_find_first(s@, d);
    }
    None
}

/// Encodes one space-free word: each character case-folded and replaced
/// by its code symbol, the code symbols joined by single spaces.
fn encode_word(w: &str) -> (r: Result<String, TranslationError>)
    ensures
        ({
            let m = spec_encode_word(w@);
            &&& (r is Ok <==> m is Ok)
            &&& (r matches Ok(out) ==> out@ == m->Ok_0)
            &&& (r matches Err(e) ==> m is Err && e == TranslationError::UnknownSymbol(m->Err_0))
        }),
    decreases w@.len(),
{
    let n = w.unicode_len();
    if n == 0 {
        return Ok(String::new());
    }
    let c = w.get_char(0);
    let lc = to_lower(c);
    match encode_symbol(lc) {
        None => Err(TranslationError::UnknownSymbol(c)),
        Some(code) => {
            if n == 1 {
                Ok(code.to_owned())
            } else {
                let rest = w.substring_char(1, n);
                proof {
                    assert(rest@ =~= w@.drop_first());
                }
                match encode_word(rest) {
                    Err(e) => Err(e),
                    Ok(r2) => {
                        let mut out = code.to_owned();
                        out.append(" ");
                        out.append(r2.as_str());
                        proof {
                            reveal_strlit(" ");
                            assert(" "@ =~= seq![' ']);
                        }
                        Ok(out)
                    },
                }
            }
        },
    }
}

/// Encodes a line of text: the input is split on spaces into words, each
/// word is encoded by `encode_word`, and the encoded words are joined by
/// `/`. Succeeds exactly when every character is a space or a supported
/// symbol; otherwise reports the first unsupported character and returns
/// no partial output.
pub fn morse(latin: &str) -> (r: Result<String, TranslationError>)
    ensures
        ({
            let m = spec_encode(latin@);
            &&& (r is Ok <==> m is Ok)
            &&& (r matches Ok(out) ==> out@ == m->Ok_0)
            &&& (r matches Err(e) ==> m is Err && e == TranslationError::UnknownSymbol(m->Err_0))
        }),
        r is Ok <==> text_encodable(latin@),
        r is Err ==> r == Err::<String, TranslationError>(
            TranslationError::UnknownSymbol(first_unsupported(latin@)),
        ),
    decreases latin@.len(),
{
    proof {
        lemma_encode_chars(latin@);
        lemma_find_first(latin@, ' ');
    }
    match find_char(latin, ' ') {
        None => encode_word(latin),
        Some(i) => {
            let n = latin.unicode_len();
            let w = latin.substring_char(0, i);
            let rest = latin.substring_char(i + 1, n);
            match encode_word(w) {
                Err(e) => Err(e),
                Ok(out) => {
                    match morse(rest) {
                        Err(e) => Err(e),
                        Ok(r2) => {
                            let mut out = out;
                            out.append("/");
                            out.append(r2.as_str());
                            proof {
                                reveal_strlit("/");
                                assert("/"@ =~= seq!['/']);
                            }
                            Ok(out)
                        },
                    }
                },
            }
        },
    }
}

/// The one-character string of an alphabet symbol, for assembling decoded
/// text.
fn symbol_str(c: char) -> (r: &'static str)
    requires
        code_of(c) is Some,
    ensures
        r@ == seq![c],
{
    proof {
        reveal_strlit("a");
        reveal_strlit("b");
        reveal_strlit("c");
        reveal_strlit("d");
        reveal_strlit("e");
        reveal_strlit("f");
        reveal_strlit("g");
        reveal_strlit("h");
        reveal_strlit("i");
        reveal_strlit("j");
        reveal_strlit("k");
        reveal_strlit("l");
        reveal_strlit("m");
        reveal_strlit("n");
        reveal_strlit("o");
        reveal_strlit("p");
        reveal_strlit("q");
        reveal_strlit("r");
        reveal_strlit("s");
        reveal_strlit("t");
        reveal_strlit("u");
        reveal_strlit("v");
        reveal_strlit("w");
        reveal_strlit("x");
        reveal_strlit("y");
        reveal_strlit("z");
        reveal_strlit("0");
        reveal_strlit("1");
        reveal_strlit("2");
        reveal_strlit("3");
        reveal_strlit("4");
        reveal_strlit("5");
        reveal_strlit("6");
        reveal_strlit("7");
        reveal_strlit("8");
        reveal_strlit("9");
        assert("a"@ =~= seq!['a']);
        assert("b"@ =~= seq!['b']);
        assert("c"@ =~= seq!['c']);
        assert("d"@ =~= seq!['d']);
        assert("e"@ =~= seq!['e']);
        assert("f"@ =~= seq!['f']);
        assert("g"@ =~= seq!['g']);
        assert("h"@ =~= seq!['h']);
        assert("i"@ =~= seq!['i']);
        assert("j"@ =~= seq!['j']);
        assert("k"@ =~= seq!['k']);
        assert("l"@ =~= seq!['l']);
        assert("m"@ =~= seq!['m']);
        assert("n"@ =~= seq!['n']);
        assert("o"@ =~= seq!['o']);
        assert("p"@ =~= seq!['p']);
        assert("q"@ =~= seq!['q']);
        assert("r"@ =~= seq!['r']);
        assert("s"@ =~= seq!['s']);
        assert("t"@ =~= seq!['t']);
        assert("u"@ =~= seq!['u']);
        assert("v"@ =~= seq!['v']);
        assert("w"@ =~= seq!['w']);
        assert("x"@ =~= seq!['x']);
        assert("y"@ =~= seq!['y']);
        assert("z"@ =~= seq!['z']);
        assert("0"@ =~= seq!['0']);
        assert("1"@ =~= seq!['1']);
        assert("2"@ =~= seq!['2']);
        assert("3"@ =~= seq!['3']);
        assert("4"@ =~= seq!['4']);
        assert("5"@ =~= seq!['5']);
        assert("6"@ =~= seq!['6']);
        assert("7"@ =~= seq!['7']);
        assert("8"@ =~= seq!['8']);
        assert("9"@ =~= seq!['9']);
    }
    match c {
        'a' => "a",
        'b' => "b",
        'c' => "c",
        'd' => "d",
        'e' => "e",
        'f' => "f",
        'g' => "g",
        'h' => "h",
        'i' => "i",
        'j' => "j",
        'k' => "k",
        'l' => "l",
        'm' => "m",
        'n' => "n",
        'o' => "o",
        'p' => "p",
        'q' => "q",
        'r' => "r",
        's' => "s",
        't' => "t",
        'u' => "u",
        'v' => "v",
        'w' => "w",
        'x' => "x",
        'y' => "y",
        'z' => "z",
        '0' => "0",
        '1' => "1",
        '2' => "2",
        '3' => "3",
        '4' => "4",
        '5' => "5",
        '6' => "6",
        '7' => "7",
        '8' => "8",
        '9' => "9",
        _ => {
            proof {
                assert(false);
            }
            ""
        },
    }
}

/// Decodes one slash-free code word: the word is split on spaces into
/// tokens, each token resolved through the table, and the characters
/// concatenated.
fn decode_word(w: &str) -> (r: Result<String, TranslationError>)
    ensures
        ({
            let m = spec_decode_word(w@);
            &&& (r is Ok <==> m is Ok)
            &&& (r matches Ok(out) ==> out@ == m->Ok_0)
            &&& (r matches Err(e) ==> m is Err && (e matches TranslationError::UnknownCode(t)
                && t@ == m->Err_0))
        }),
    decreases w@.len(),
{
    let n = w.unicode_len();
    match find_char(w, ' ') {
        None => {
            match decode_symbol(w) {
                None => Err(TranslationError::UnknownCode(w.to_owned())),
                Some(c) => {
                    proof {
                        lemma_char_of_in_table(w@);
                    }
                    Ok(symbol_str(c).to_owned())
                },
            }
        },
        Some(i) => {
            proof {
                lemma_find_first(w@, ' ');
            }
            let tok = w.substring_char(0, i);
            let rest = w.substring_char(i + 1, n);
            match decode_symbol(tok) {
                None => Err(TranslationError::UnknownCode(tok.to_owned())),
                Some(c) => {
                    match decode_word(rest) {
                        Err(e) => Err(e),
                        Ok(r2) => {
                            proof {
                                lemma_char_of_in_table(tok@);
                            }
                            let mut out = symbol_str(c).to_owned();
                            out.append(r2.as_str());
                            Ok(out)
                        },
                    }
                },
            }
        },
    }
}

/// Decodes the code words of a line: the line is split on `/` into code
/// words, each word is decoded by `decode_word`, and the decoded words
/// are joined by single spaces. An empty code word fails on its empty
/// token; only `parse` treats the whole-empty line specially.
fn decode_line(code: &str) -> (r: Result<String, TranslationError>)
    ensures
        ({
            let m = spec_decode_words(code@);
            &&& (r is Ok <==> m is Ok)
            &&& (r matches Ok(out) ==> out@ == m->Ok_0)
            &&& (r matches Err(e) ==> m is Err && (e matches TranslationError::UnknownCode(t)
                && t@ == m->Err_0))
        }),
    decreases code@.len(),
{
    proof {
        lemma_find_first(code@, '/');
    }
    match find_char(code, '/') {
        None => decode_word(code),
        Some(i) => {
            let n = code.unicode_len();
            let w = code.substring_char(0, i);
            let rest = code.substring_char(i + 1, n);
            match decode_word(w) {
                Err(e) => Err(e),
                Ok(out) => {
                    match decode_line(rest) {
                        Err(e) => Err(e),
                        Ok(r2) => {
                            let mut out = out;
                            out.append(" ");
                            out.append(r2.as_str());
                            proof {
                                reveal_strlit(" ");
                                assert(" "@ =~= seq![' ']);
                            }
                            Ok(out)
                        },
                    }
                },
            }
        },
    }
}

/// Decodes a line of code form: the empty line decodes to the empty
/// text, mirroring that the empty text encodes to the empty line; any
/// other line is split on `/` into code words, each word is decoded
/// through the table, and the decoded words are joined by single spaces.
/// Succeeds exactly when the line is empty or every token is a code
/// symbol of the table; otherwise reports the first unknown token and
/// returns no partial output.
pub fn parse(code: &str) -> (r: Result<String, TranslationError>)
    ensures
        ({
            let m = spec_decode(code@);
            &&& (r is Ok <==> m is Ok)
            &&& (r matches Ok(out) ==> out@ == m->Ok_0)
            &&& (r matches Err(e) ==> m is Err && (e matches TranslationError::UnknownCode(t)
                && t@ == m->Err_0))
        }),
        r is Ok <==> code_decodable(code@),
        r matches Err(e) ==> (e matches TranslationError::UnknownCode(t) && t@
            == first_unknown_token(tokens(code@))),
{
    if code.unicode_len() == 0 {
        return Ok(String::new());
    }
    proof {
        lemma_decode_chars(code@);
    }
    decode_line(code)
}

/// The dispatch heuristic for a raw input line: it inspects only the
/// first character, and chooses decoding exactly when that character is a
/// code glyph.
pub fn looks_like_code(s: &str) -> (r: bool)
    ensures
        r == (s@.len() > 0 && (s@[0] == '.' || s@[0] == '-')),
{
    if s.unicode_len() == 0 {
        false
    } else {
        let c = s.get_char(0);
        c == '.' || c == '-'
    }
}

} // verus!
