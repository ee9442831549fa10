//! The laws that relate the two directions of translation: encoding a
//! well-formed text and decoding the result gives the text back in
//! lowercase, and encoding does not distinguish letter case.

use vstd::prelude::*;

use crate::model::find_first;
use crate::model::lemma_find_first;
use crate::model::lower_seq;
use crate::model::spec_decode;
use crate::model::spec_decode_word;
use crate::model::spec_encode;
use crate::model::spec_encode_word;
use crate::table::code_of;
use crate::table::lemma_code_bijective;
use crate::table::lemma_code_wf;
use crate::table::lower_char;
use crate::table::supported;

verus! {

/// Text that encoding maps into its round-trippable fragment: every
/// character a supported alphabet symbol or a space, and the words
/// separated by single spaces (so no word is empty). The empty text
/// qualifies: it encodes to the empty line, which decodes back to it.
pub open spec fn well_formed_text(s: Seq<char>) -> bool {
    &&& (s.len() > 0 ==> s[0] != ' ' && s[s.len() - 1] != ' ')
    &&& (forall|i: int| 0 <= i < s.len() - 1 ==> (#[trigger] s[i]) != ' ' || s[i + 1] != ' ')
    &&& (forall|i: int| 0 <= i < s.len() ==> s[i] == ' ' || supported(s[i]))
}

/// Round trip of one word: encoding a non-empty, fully supported word
/// yields a non-empty code word of glyphs and spaces that decodes back to
/// the word in lowercase.
proof fn lemma_encode_word_props(w: Seq<char>)
    requires
        w.len() > 0,
        forall|i: int| 0 <= i < w.len() ==> supported(w[i]),
    ensures
        spec_encode_word(w) is Ok,
        spec_encode_word(w)->Ok_0.len() > 0,
        forall|j: int| 0 <= j < spec_encode_word(w)->Ok_0.len() ==> (spec_encode_word(w)->Ok_0[j]
            == '.' || spec_encode_word(w)->Ok_0[j] == '-' || spec_encode_word(w)->Ok_0[j] == ' '),
        spec_decode_word(spec_encode_word(w)->Ok_0) == Ok::<Seq<char>, Seq<char>>(lower_seq(w)),
    decreases w.len(),
{
    let lc = lower_char(w[0]);
    lemma_code_wf(lc);
    lemma_code_bijective(lc);
    let code = code_of(lc)->0;
    assert(forall|j: int| 0 <= j < code.len() ==> code[j] != ' ' && code[j] != '/');
    if w.len() == 1 {
        lemma_find_first(code, ' ');
        match find_first(code, ' ') {
            Some(k) => {
                assert(false);
            },
            None => {},
        }
        assert(lower_seq(w) =~= seq![lc]);
    } else {
        let t = w.drop_first();
        assert(forall|j: int| 0 <= j < t.len() ==> t[j] == w[j + 1]);
        lemma_encode_word_props(t);
        let e2 = spec_encode_word(t)->Ok_0;
        let e = code + seq![' '] + e2;
        assert(spec_encode_word(w)->Ok_0 == e);
        assert(e[code.len() as int] == ' ');
        assert forall|j: int|
            0 <= j < e.len() implies (e[j] == '.' || e[j] == '-' || e[j] == ' ') by {
            if j < code.len() {
                assert(e[j] == code[j]);
            } else if j > code.len() {
                assert(e[j] == e2[j - code.len() - 1]);
            }
        }
        lemma_find_first(e, ' ');
        match find_first(e, ' ') {
            None => {
                assert(false);
            },
            Some(k) => {
                if k < code.len() {
                    assert(e[k] == code[k]);
                    assert(false);
                }
                if k > code.len() {
                    assert(false);
                }
                assert(e.subrange(0, k) =~= code);
                assert(e.subrange(k + 1, e.len() as int) =~= e2);
                assert(seq![lc] + lower_seq(t) =~= lower_seq(w));
            },
        }
    }
}

/// Round trip: encoding a well-formed text succeeds, and decoding the
/// encoded form gives the text back, case-normalized to lowercase.
pub proof fn lemma_round_trip(s: Seq<char>)
    requires
        well_formed_text(s),
    ensures
        spec_encode(s) is Ok,
        spec_decode(spec_encode(s)->Ok_0) == Ok::<Seq<char>, Seq<char>>(lower_seq(s)),
    decreases s.len(),
{
    if s.len() == 0 {
        assert(lower_seq(s) =~= Seq::<char>::empty());
    } else {
        lemma_round_trip_words(s);
    }
}

/// Round trip of a non-empty well-formed text, word by word.
proof fn lemma_round_trip_words(s: Seq<char>)
    requires
        well_formed_text(s),
        s.len() > 0,
    ensures
        spec_encode(s) is Ok,
        spec_decode(spec_encode(s)->Ok_0) == Ok::<Seq<char>, Seq<char>>(lower_seq(s)),
    decreases s.len(),
{
    lemma_find_first(s, ' ');
    match find_first(s, ' ') {
        None => {
            lemma_encode_word_props(s);
            let e = spec_encode_word(s)->Ok_0;
            lemma_find_first(e, '/');
            match find_first(e, '/') {
                Some(k) => {
                    assert(false);
                },
                None => {},
            }
        },
        Some(i) => {
            let w = s.subrange(0, i);
            let rest = s.subrange(i + 1, s.len() as int);
            assert(w.len() > 0);
            assert(forall|j: int| 0 <= j < w.len() ==> w[j] == s[j]);
            assert(forall|j: int| 0 <= j < w.len() ==> supported(w[j]));
            lemma_encode_word_props(w);
            assert(i + 1 < s.len());
            assert(forall|j: int| 0 <= j < rest.len() ==> rest[j] == s[i + 1 + j]);
            assert(rest[0] != ' ');
            assert(rest[rest.len() - 1] == s[s.len() - 1]);
            assert forall|j: int|
                0 <= j < rest.len() - 1 implies (#[trigger] rest[j]) != ' ' || rest[j + 1]
                != ' ' by {
                assert(rest[j] == s[i + 1 + j]);
                assert(rest[j + 1] == s[i + 1 + j + 1]);
            }
            lemma_round_trip_words(rest);
            let ew = spec_encode_word(w)->Ok_0;
            let er = spec_encode(rest)->Ok_0;
            if er.len() == 0 {
                assert(lower_seq(rest).len() == rest.len());
                assert(false);
            }
            let e = ew + seq!['/'] + er;
            assert(spec_encode(s)->Ok_0 == e);
            assert(e[ew.len() as int] == '/');
            lemma_find_first(e, '/');
            match find_first(e, '/') {
                None => {
                    assert(false);
                },
                Some(k) => {
                    if k < ew.len() {
                        assert(e[k] == ew[k]);
                        assert(false);
                    }
                    if k > ew.len() {
                        assert(false);
                    }
                    assert(e.subrange(0, k) =~= ew);
                    assert(e.subrange(k + 1, e.len() as int) =~= er);
                    assert(lower_seq(w) + seq![' '] + lower_seq(rest) =~= lower_seq(s));
                },
            }
        },
    }
}

/// Case folding fixes spaces and nothing folds to a space.
proof fn lemma_lower_space(c: char)
    ensures
        (lower_char(c) == ' ') == (c == ' '),
{
}

/// Case folding is idempotent.
proof fn lemma_lower_idem(c: char)
    ensures
        lower_char(lower_char(c)) == lower_char(c),
{
}

/// A character whose folded form is unsupported is already folded: every
/// uppercase letter folds into the table.
proof fn lemma_lower_unsupported(c: char)
    ensures
        code_of(lower_char(c)) is None ==> lower_char(c) == c,
{
}

/// Case folding moves no space, so both forms split into words at the
/// same positions.
proof fn lemma_find_first_space_lower(s: Seq<char>)
    ensures
        find_first(lower_seq(s), ' ') == find_first(s, ' '),
{
    let ls = lower_seq(s);
    lemma_find_first(s, ' ');
    lemma_find_first(ls, ' ');
    match (find_first(s, ' '), find_first(ls, ' ')) {
        (None, None) => {},
        (Some(i), None) => {
            assert(ls[i] == ' ');
            assert(false);
        },
        (None, Some(k)) => {
            lemma_lower_space(s[k]);
            assert(false);
        },
        (Some(i), Some(k)) => {
            if i < k {
                assert(ls[i] == ' ');
                assert(false);
            }
            if k < i {
                lemma_lower_space(s[k]);
                assert(false);
            }
        },
    }
}

/// Encoding one word does not distinguish letter case.
proof fn lemma_encode_word_fold(w: Seq<char>)
    ensures
        spec_encode_word(lower_seq(w)) == spec_encode_word(w),
    decreases w.len(),
{
    let lw = lower_seq(w);
    if w.len() == 0 {
    } else {
        lemma_lower_idem(w[0]);
        assert(lw[0] == lower_char(w[0]));
        match code_of(lower_char(w[0])) {
            None => {
                lemma_lower_unsupported(w[0]);
            },
            Some(code) => {
                if w.len() > 1 {
                    lemma_encode_word_fold(w.drop_first());
                    assert(lw.drop_first() =~= lower_seq(w.drop_first()));
                }
            },
        }
    }
}

/// Case insensitivity: encoding a text and encoding its lowercase form
/// give the same result, success and failure alike.
pub proof fn lemma_case_insensitive(s: Seq<char>)
    ensures
        spec_encode(lower_seq(s)) == spec_encode(s),
    decreases s.len(),
{
    let ls = lower_seq(s);
    lemma_find_first_space_lower(s);
    lemma_find_first(s, ' ');
    match find_first(s, ' ') {
        None => {
            lemma_encode_word_fold(s);
        },
        Some(i) => {
            lemma_encode_word_fold(s.subrange(0, i));
            lemma_case_insensitive(s.subrange(i + 1, s.len() as int));
            assert(ls.subrange(0, i) =~= lower_seq(s.subrange(0, i)));
            assert(ls.subrange(i + 1, ls.len() as int) =~= lower_seq(
                s.subrange(i + 1, s.len() as int),
            ));
        },
    }
}

} // verus!
