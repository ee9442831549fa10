//! The mathematical model of translation: sequence-level encoding and
//! decoding, the tokenization of code-form input, and the predicates that
//! say exactly when each direction succeeds and which token it reports
//! when it fails.

use vstd::prelude::*;

use crate::table::char_of;
use crate::table::code_of;
use crate::table::lower_char;
use crate::table::supported;

verus! {

/// The position of the first occurrence of `d` in `s`, if any.
pub open spec fn find_first(s: Seq<char>, d: char) -> Option<int>
    decreases s.len(),
{
    if s.len() == 0 {
        None
    } else if s[0] == d {
        Some(0int)
    } else {
        match find_first(s.drop_first(), d) {
            None => None,
            Some(i) => Some(i + 1),
        }
    }
}

/// `find_first` returns the least index holding `d`, or `None` exactly
/// when `d` does not occur.
pub proof fn lemma_find_first(s: Seq<char>, d: char)
    ensures
        match find_first(s, d) {
            Some(i) => 0 <= i < s.len() && s[i] == d && (forall|j: int|
                0 <= j < i ==> s[j] != d),
            None => forall|j: int| 0 <= j < s.len() ==> s[j] != d,
        },
    decreases s.len(),
{
    if s.len() == 0 {
    } else if s[0] == d {
    } else {
        let t = s.drop_first();
        lemma_find_first(t, d);
        match find_first(t, d) {
            None => {
                assert forall|j: int| 0 <= j < s.len() implies s[j] != d by {
                    if j > 0 {
                        assert(t[j - 1] != d);
                    }
                }
            },
            Some(i) => {
                assert(find_first(s, d) == Some(i + 1));
                assert(s[i + 1] == t[i]);
                assert forall|j: int| 0 <= j < i + 1 implies s[j] != d by {
                    if j > 0 {
                        assert(t[j - 1] != d);
                    }
                }
            },
        }
    }
}

/// Case folding applied to every character of a sequence.
pub open spec fn lower_seq(s: Seq<char>) -> Seq<char> {
    s.map_values(|c: char| lower_char(c))
}

/// Encoding succeeds exactly when every character is a space or a
/// supported alphabet symbol.
pub open spec fn text_encodable(s: Seq<char>) -> bool {
    forall|i: int| 0 <= i < s.len() ==> s[i] == ' ' || supported(s[i])
}

/// The first character, in order, that is neither a space nor supported:
/// the character an encoding failure reports.
pub open spec fn first_unsupported(s: Seq<char>) -> char
    decreases s.len(),
{
    if s.len() == 0 {
        arbitrary()
    } else if s[0] != ' ' && !supported(s[0]) {
        s[0]
    } else {
        first_unsupported(s.drop_first())
    }
}

/// The code form of one word: each character case-folded and replaced by
/// its code symbol, the code symbols joined by single spaces. The error
/// carries the first character without a table entry.
pub open spec fn spec_encode_word(w: Seq<char>) -> Result<Seq<char>, char>
    decreases w.len(),
{
    if w.len() == 0 {
        Ok(Seq::empty())
    } else {
        match code_of(lower_char(w[0])) {
            None => Err(w[0]),
            Some(code) => if w.len() == 1 {
                Ok(code)
            } else {
                match spec_encode_word(w.drop_first()) {
                    Ok(rest) => Ok(code + seq![' '] + rest),
                    Err(c) => Err(c),
                }
            },
        }
    }
}

/// The code form of a whole text: the words (maximal space-free runs,
/// every space a delimiter) encoded by `spec_encode_word` and joined by
/// `/`. The error carries the first character without a table entry, in
/// left-to-right, word-major order.
pub open spec fn spec_encode(s: Seq<char>) -> Result<Seq<char>, char>
    decreases s.len(),
{
    match find_first(s, ' ') {
        None => spec_encode_word(s),
        Some(i) => {
            proof {
                lemma_find_first(s, ' ');
            }
            match spec_encode_word(s.subrange(0, i)) {
                Err(c) => Err(c),
                Ok(w) => match spec_encode(s.subrange(i + 1, s.len() as int)) {
                    Err(c) => Err(c),
                    Ok(rest) => Ok(w + seq!['/'] + rest),
                },
            }
        },
    }
}

/// A word delimiter of code-form input: the space between code symbols or
/// the slash between words.
pub open spec fn is_delim(c: char) -> bool {
    c == ' ' || c == '/'
}

/// The position of the first delimiter in code-form input, if any.
pub open spec fn find_first_delim(s: Seq<char>) -> Option<int> {
    match (find_first(s, ' '), find_first(s, '/')) {
        (None, None) => None,
        (Some(i), None) => Some(i),
        (None, Some(j)) => Some(j),
        (Some(i), Some(j)) => Some(if i <= j { i } else { j }),
    }
}

/// `find_first_delim` returns the least index holding a delimiter, or
/// `None` exactly when no delimiter occurs.
pub proof fn lemma_find_first_delim(s: Seq<char>)
    ensures
        match find_first_delim(s) {
            Some(i) => 0 <= i < s.len() && is_delim(s[i]) && (forall|j: int|
                0 <= j < i ==> !is_delim(s[j])),
            None => forall|j: int| 0 <= j < s.len() ==> !is_delim(s[j]),
        },
{
    lemma_find_first(s, ' ');
    lemma_find_first(s, '/');
}

/// The code-symbol tokens of code-form input: the (possibly empty) runs
/// between delimiters, in order. Splitting on every delimiter at once
/// yields the same tokens as splitting words on `/` first and code
/// symbols on spaces second.
pub open spec fn tokens(s: Seq<char>) -> Seq<Seq<char>>
    decreases s.len(),
{
    match find_first_delim(s) {
        None => seq![s],
        Some(i) => {
            proof {
                lemma_find_first_delim(s);
            }
            seq![s.subrange(0, i)] + tokens(s.subrange(i + 1, s.len() as int))
        },
    }
}

/// Every token of the input is a code symbol of the table.
pub open spec fn all_tokens_known(s: Seq<char>) -> bool {
    forall|i: int| 0 <= i < tokens(s).len() ==> char_of(tokens(s)[i]) is Some
}

/// Decoding succeeds exactly when the input is empty or every token is a
/// code symbol of the table.
pub open spec fn code_decodable(s: Seq<char>) -> bool {
    s.len() == 0 || all_tokens_known(s)
}

/// The first token, in order, without a table entry: the token a decoding
/// failure reports.
pub open spec fn first_unknown_token(ts: Seq<Seq<char>>) -> Seq<char>
    decreases ts.len(),
{
    if ts.len() == 0 {
        arbitrary()
    } else if char_of(ts[0]) is None {
        ts[0]
    } else {
        first_unknown_token(ts.drop_first())
    }
}

/// The text form of one code word: the word split on spaces into code
/// symbols, each resolved through the table, the characters concatenated.
/// The error carries the first token without a table entry.
pub open spec fn spec_decode_word(w: Seq<char>) -> Result<Seq<char>, Seq<char>>
    decreases w.len(),
{
    match find_first(w, ' ') {
        None => match char_of(w) {
            None => Err(w),
            Some(c) => Ok(seq![c]),
        },
        Some(i) => {
            proof {
                lemma_find_first(w, ' ');
            }
            match char_of(w.subrange(0, i)) {
                None => Err(w.subrange(0, i)),
                Some(c) => match spec_decode_word(w.subrange(i + 1, w.len() as int)) {
                    Err(t) => Err(t),
                    Ok(rest) => Ok(seq![c] + rest),
                },
            }
        },
    }
}

/// The text form of the code words of a line: the line split on `/` into
/// code words, each decoded by `spec_decode_word`, the results joined by
/// single spaces. The error carries the first token without a table
/// entry, in left-to-right, word-major order. An empty line here is one
/// empty code word, whose empty token fails.
pub open spec fn spec_decode_words(s: Seq<char>) -> Result<Seq<char>, Seq<char>>
    decreases s.len(),
{
    match find_first(s, '/') {
        None => spec_decode_word(s),
        Some(i) => {
            proof {
                lemma_find_first(s, '/');
            }
            match spec_decode_word(s.subrange(0, i)) {
                Err(t) => Err(t),
                Ok(w) => match spec_decode_words(s.subrange(i + 1, s.len() as int)) {
                    Err(t) => Err(t),
                    Ok(rest) => Ok(w + seq![' '] + rest),
                },
            }
        },
    }
}

/// The text form of a whole code line. The empty line decodes to the
/// empty text, mirroring that the empty text encodes to the empty line;
/// any other line is decoded word by word by `spec_decode_words`, so an
/// empty code word inside a non-empty line still fails on its empty
/// token.
pub open spec fn spec_decode(s: Seq<char>) -> Result<Seq<char>, Seq<char>> {
    if s.len() == 0 {
        Ok(Seq::empty())
    } else {
        spec_decode_words(s)
    }
}

/// Word-level success: encoding a space-free word succeeds exactly when
/// every character is supported, and a failure reports the first
/// unsupported character.
pub proof fn lemma_encode_word_chars(w: Seq<char>)
    requires
        forall|i: int| 0 <= i < w.len() ==> w[i] != ' ',
    ensures
        spec_encode_word(w) is Ok <==> text_encodable(w),
        spec_encode_word(w) is Err ==> spec_encode_word(w) == Err::<Seq<char>, char>(
            first_unsupported(w),
        ),
    decreases w.len(),
{
    if w.len() == 0 {
    } else {
        let t = w.drop_first();
        assert(forall|j: int| 0 <= j < t.len() ==> t[j] == w[j + 1]);
        match code_of(lower_char(w[0])) {
            None => {
                assert(!supported(w[0]));
                assert(!text_encodable(w));
            },
            Some(code) => {
                assert(supported(w[0]));
                if w.len() == 1 {
                    assert(text_encodable(w));
                } else {
                    lemma_encode_word_chars(t);
                    if text_encodable(t) {
                        assert forall|i: int|
                            0 <= i < w.len() implies w[i] == ' ' || supported(w[i]) by {
                            if i > 0 {
                                assert(t[i - 1] == ' ' || supported(t[i - 1]));
                            }
                        }
                    } else {
                        let i = choose|i: int|
                            0 <= i < t.len() && !(t[i] == ' ' || supported(t[i]));
                        assert(!(w[i + 1] == ' ' || supported(w[i + 1])));
                        assert(!text_encodable(w));
                    }
                }
            },
        }
    }
}

/// Where the first unsupported character of a text with one more word
/// lies: in the first word if the first word has one, in the remainder
/// otherwise.
proof fn lemma_first_unsupported_split(u: Seq<char>, v: Seq<char>)
    ensures
        !text_encodable(u) ==> first_unsupported(u + seq![' '] + v) == first_unsupported(u),
        text_encodable(u) ==> first_unsupported(u + seq![' '] + v) == first_unsupported(v),
    decreases u.len(),
{
    let s = u + seq![' '] + v;
    if u.len() == 0 {
        assert(s[0] == ' ');
        assert(s.drop_first() =~= v);
        assert(text_encodable(u));
    } else {
        let u2 = u.drop_first();
        lemma_first_unsupported_split(u2, v);
        assert(s[0] == u[0]);
        assert(s.drop_first() =~= u2 + seq![' '] + v);
        assert(forall|j: int| 0 <= j < u2.len() ==> u2[j] == u[j + 1]);
        if u[0] != ' ' && !supported(u[0]) {
            assert(!text_encodable(u));
        } else {
            if text_encodable(u) {
                assert(text_encodable(u2));
            } else {
                let i = choose|i: int| 0 <= i < u.len() && !(u[i] == ' ' || supported(u[i]));
                assert(i > 0);
                assert(!(u2[i - 1] == ' ' || supported(u2[i - 1])));
                assert(!text_encodable(u2));
            }
        }
    }
}

/// Encoding succeeds exactly on encodable text, and a failure reports the
/// first character without a table entry, in left-to-right, word-major
/// order.
pub proof fn lemma_encode_chars(s: Seq<char>)
    ensures
        spec_encode(s) is Ok <==> text_encodable(s),
        spec_encode(s) is Err ==> spec_encode(s) == Err::<Seq<char>, char>(first_unsupported(s)),
    decreases s.len(),
{
    lemma_find_first(s, ' ');
    match find_first(s, ' ') {
        None => {
            lemma_encode_word_chars(s);
        },
        Some(i) => {
            let w = s.subrange(0, i);
            let rest = s.subrange(i + 1, s.len() as int);
            assert(s =~= w + seq![' '] + rest);
            assert(forall|j: int| 0 <= j < w.len() ==> w[j] == s[j]);
            assert(forall|j: int| 0 <= j < rest.len() ==> rest[j] == s[i + 1 + j]);
            lemma_encode_word_chars(w);
            lemma_encode_chars(rest);
            lemma_first_unsupported_split(w, rest);
            if text_encodable(w) && text_encodable(rest) {
                assert forall|j: int|
                    0 <= j < s.len() implies s[j] == ' ' || supported(s[j]) by {
                    if j < i {
                        assert(w[j] == s[j]);
                    } else if j > i {
                        assert(rest[j - i - 1] == s[j]);
                    }
                }
            }
            if text_encodable(s) {
                assert(text_encodable(w));
                assert(text_encodable(rest));
            }
        },
    }
}

/// Splitting at a delimiter splits the token list: the tokens of
/// `u + [d] + v` are the tokens of `u` followed by the tokens of `v`.
proof fn lemma_tokens_split(u: Seq<char>, d: char, v: Seq<char>)
    requires
        is_delim(d),
    ensures
        tokens(u + seq![d] + v) == tokens(u) + tokens(v),
    decreases u.len(),
{
    let s = u + seq![d] + v;
    lemma_find_first_delim(u);
    lemma_find_first_delim(s);
    assert(s[u.len() as int] == d);
    match find_first_delim(u) {
        None => {
            match find_first_delim(s) {
                None => {
                    assert(false);
                },
                Some(k) => {
                    if k < u.len() {
                        assert(s[k] == u[k]);
                        assert(false);
                    }
                    if k > u.len() {
                        assert(!is_delim(s[u.len() as int]));
                        assert(false);
                    }
                    assert(s.subrange(0, u.len() as int) =~= u);
                    assert(s.subrange(u.len() as int + 1, s.len() as int) =~= v);
                    assert(tokens(s) =~= tokens(u) + tokens(v));
                },
            }
        },
        Some(i) => {
            assert(s[i] == u[i]);
            match find_first_delim(s) {
                None => {
                    assert(false);
                },
                Some(k) => {
                    if k < i {
                        assert(s[k] == u[k]);
                        assert(false);
                    }
                    if k > i {
                        assert(!is_delim(s[i]));
                        assert(false);
                    }
                    let u2 = u.subrange(i + 1, u.len() as int);
                    assert(s.subrange(0, i) =~= u.subrange(0, i));
                    assert(s.subrange(i + 1, s.len() as int) =~= u2 + seq![d] + v);
                    lemma_tokens_split(u2, d, v);
                    assert(tokens(s) =~= tokens(u) + tokens(v));
                },
            }
        },
    }
}

/// Which token a concatenated token list reports first: the first unknown
/// token of the front part if it has one, of the back part otherwise.
proof fn lemma_first_unknown_token_concat(t1: Seq<Seq<char>>, t2: Seq<Seq<char>>)
    ensures
        (forall|i: int| 0 <= i < t1.len() ==> char_of(t1[i]) is Some) ==> first_unknown_token(
            t1 + t2,
        ) == first_unknown_token(t2),
        !(forall|i: int| 0 <= i < t1.len() ==> char_of(t1[i]) is Some) ==> first_unknown_token(
            t1 + t2,
        ) == first_unknown_token(t1),
    decreases t1.len(),
{
    if t1.len() == 0 {
        assert(t1 + t2 =~= t2);
    } else {
        let r = t1.drop_first();
        lemma_first_unknown_token_concat(r, t2);
        assert((t1 + t2)[0] == t1[0]);
        assert((t1 + t2).drop_first() =~= r + t2);
        assert(forall|j: int| 0 <= j < r.len() ==> r[j] == t1[j + 1]);
        if char_of(t1[0]) is None {
        } else {
            if forall|i: int| 0 <= i < t1.len() ==> char_of(t1[i]) is Some {
                assert(forall|i: int| 0 <= i < r.len() ==> char_of(r[i]) is Some);
            } else {
                let i = choose|i: int| 0 <= i < t1.len() && !(char_of(t1[i]) is Some);
                assert(i > 0);
                assert(!(char_of(r[i - 1]) is Some));
                assert(!(forall|i: int| 0 <= i < r.len() ==> char_of(r[i]) is Some));
            }
        }
    }
}

/// Word-level success: decoding a slash-free code word succeeds exactly
/// when each of its tokens is a code symbol, and a failure reports the
/// first token that is not.
pub proof fn lemma_decode_word_chars(w: Seq<char>)
    requires
        forall|i: int| 0 <= i < w.len() ==> w[i] != '/',
    ensures
        spec_decode_word(w) is Ok <==> (forall|i: int|
            0 <= i < tokens(w).len() ==> char_of(tokens(w)[i]) is Some),
        spec_decode_word(w) is Err ==> spec_decode_word(w) == Err::<Seq<char>, Seq<char>>(
            first_unknown_token(tokens(w)),
        ),
    decreases w.len(),
{
    lemma_find_first(w, ' ');
    lemma_find_first(w, '/');
    match find_first(w, '/') {
        Some(k) => {
            assert(false);
        },
        None => {},
    }
    match find_first(w, ' ') {
        None => {
            assert(tokens(w) == seq![w]);
            assert(tokens(w)[0] == w);
            if char_of(w) is Some {
                assert forall|i: int|
                    0 <= i < tokens(w).len() implies char_of(tokens(w)[i]) is Some by {
                    assert(i == 0);
                }
            }
        },
        Some(i) => {
            let tok = w.subrange(0, i);
            let rest = w.subrange(i + 1, w.len() as int);
            assert(forall|j: int| 0 <= j < rest.len() ==> rest[j] == w[i + 1 + j]);
            lemma_decode_word_chars(rest);
            let ts = seq![tok] + tokens(rest);
            assert(tokens(w) == ts);
            assert(ts[0] == tok);
            assert(forall|j: int| 0 <= j < tokens(rest).len() ==> ts[j + 1] == tokens(rest)[j]);
            match char_of(tok) {
                None => {
                    assert(first_unknown_token(ts) == tok);
                },
                Some(c) => {
                    assert(ts.drop_first() =~= tokens(rest));
                    if forall|j: int| 0 <= j < tokens(rest).len() ==> char_of(
                        tokens(rest)[j],
                    ) is Some {
                        assert forall|j: int|
                            0 <= j < ts.len() implies char_of(ts[j]) is Some by {
                            if j > 0 {
                                assert(char_of(tokens(rest)[j - 1]) is Some);
                            }
                        }
                    } else {
                        let j = choose|j: int|
                            0 <= j < tokens(rest).len() && !(char_of(tokens(rest)[j]) is Some);
                        assert(!(char_of(ts[j + 1]) is Some));
                    }
                },
            }
        },
    }
}

/// Word-by-word decoding succeeds exactly when every token is known, and
/// a failure reports the first token without a table entry, in
/// left-to-right, word-major order.
pub proof fn lemma_decode_chars(s: Seq<char>)
    ensures
        spec_decode_words(s) is Ok <==> all_tokens_known(s),
        spec_decode_words(s) is Err ==> spec_decode_words(s) == Err::<Seq<char>, Seq<char>>(
            first_unknown_token(tokens(s)),
        ),
    decreases s.len(),
{
    lemma_find_first(s, '/');
    match find_first(s, '/') {
        None => {
            lemma_decode_word_chars(s);
        },
        Some(i) => {
            let w = s.subrange(0, i);
            let rest = s.subrange(i + 1, s.len() as int);
            assert(s =~= w + seq!['/'] + rest);
            assert(forall|j: int| 0 <= j < w.len() ==> w[j] == s[j]);
            lemma_decode_word_chars(w);
            lemma_decode_chars(rest);
            lemma_tokens_split(w, '/', rest);
            let t1 = tokens(w);
            let t2 = tokens(rest);
            assert(tokens(s) == t1 + t2);
            lemma_first_unknown_token_concat(t1, t2);
            assert(forall|j: int| 0 <= j < t1.len() ==> (t1 + t2)[j] == t1[j]);
            assert(forall|j: int| 0 <= j < t2.len() ==> (t1 + t2)[t1.len() + j] == t2[j]);
            let good1 = forall|j: int| 0 <= j < t1.len() ==> char_of(t1[j]) is Some;
            let good2 = forall|j: int| 0 <= j < t2.len() ==> char_of(t2[j]) is Some;
            if good1 && good2 {
                assert forall|j: int|
                    0 <= j < tokens(s).len() implies char_of(tokens(s)[j]) is Some by {
                    if j < t1.len() {
                        assert(char_of(t1[j]) is Some);
                    } else {
                        assert(char_of(t2[j - t1.len()]) is Some);
                    }
                }
            }
            if all_tokens_known(s) {
                assert(good1);
                assert(good2);
            }
        },
    }
}

} // verus!
