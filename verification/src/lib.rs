//! A bidirectional translator between plain text and Morse code.
//!
//! Text is encoded character by character through a fixed lookup table:
//! code symbols within a word are joined by single spaces, and words are
//! joined by `/`. Decoding splits on those delimiters and maps each code
//! symbol back to its character. Both directions report the first
//! untranslatable token instead of producing partial output.

mod laws;
mod model;
mod table;
mod translate;

pub use laws::lemma_case_insensitive;
pub use laws::lemma_round_trip;
pub use laws::well_formed_text;
pub use model::code_decodable;
pub use model::first_unknown_token;
pub use model::first_unsupported;
pub use model::lower_seq;
pub use model::spec_decode;
pub use model::spec_encode;
pub use model::text_encodable;
pub use model::tokens;
pub use table::alphabet;
pub use table::char_of;
pub use table::code_of;
pub use table::lemma_table_bijection;
pub use table::lower_char;
pub use table::supported;
pub use translate::looks_like_code;
pub use translate::morse;
pub use translate::parse;
pub use translate::TranslationError;
