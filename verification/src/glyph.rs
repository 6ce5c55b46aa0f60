//! What a generated glyph is made of, and the encoding of a message into the
//! symbols that both glyph shapes draw.

use vstd::prelude::*;
use crate::encoder::{encode, symbol_code, lemma_plain_symbol_codes};
use crate::text::{normalize_message, normalized, supported_input_char};

verus! {

/// A generated glyph: its SVG document and the symbol codes it encodes.
#[derive(Debug, Clone)]
pub struct StegSvg {
    pub svg: String,
    pub encoded: Vec<i8>,
}

/// Every character of a normalised message is a lowercase latin letter or
/// the space.
pub proof fn lemma_normalized_is_plain(message: Seq<char>)
    ensures
        forall|k: int| 0 <= k < normalized(message).len() ==> supported_input_char(#[trigger] normalized(message)[k]),
{
    let filtered = crate::text::lowercased(crate::text::trimmed(message)).filter(|x: char| supported_input_char(x));
    if filtered.len() == 0 {
        reveal_strlit("the hidden line");
    } else {
        assert forall|k: int| 0 <= k < filtered.len() implies supported_input_char(#[trigger] filtered[k]) by {
            crate::text::lowercased(crate::text::trimmed(message)).lemma_filter_pred(|x: char| supported_input_char(x), k);
        }
    }
}

/// The normalised message and its symbol codes, which are all below 27.
pub fn encode_message(message: &str) -> (res: (String, Vec<i8>))
    ensures
        res.0@ == normalized(message@),
        res.1@.len() == res.0@.len(),
        forall|k: int| 0 <= k < res.0@.len() ==> res.1@[k] == symbol_code(#[trigger] res.0@[k]),
        forall|k: int| 0 <= k < res.1@.len() ==> 0 <= #[trigger] res.1@[k] <= 26,
{
    let normalized_message = normalize_message(message);
    let encoded = encode(normalized_message.as_str());
    proof {
        lemma_normalized_is_plain(message@);
        assert forall|k: int| 0 <= k < encoded@.len() implies 0 <= #[trigger] encoded@[k] <= 26 by {
            lemma_plain_symbol_codes(normalized_message@[k]);
        }
    }
    (normalized_message, encoded)
}

} // verus!
