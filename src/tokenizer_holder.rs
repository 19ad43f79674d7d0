//! The text-to-token-ids capability, backed by a pretrained tokenizer.
use vstd::prelude::*;
use tokenizers::Tokenizer;

verus! {

#[verifier::external_type_specification]
#[verifier::external_body]
pub struct ExTokenizer(Tokenizer);

/// Relies on tokenizers::Tokenizer::encode with special tokens added, and on
/// Encoding::get_ids: the ids of the encoded text, or nothing when encoding
/// fails. What the ids are depends on the loaded vocabulary.
#[verifier::external_body]
fn encode_ids(t: &Tokenizer, text: String) -> (r: Option<Vec<u32>>) {
    t.encode(text, true).ok().map(|e| e.get_ids().to_vec())
}

/// Relies on tokenizers::Tokenizer::token_to_id: the id of a token of the
/// vocabulary, or nothing for an unknown token.
#[verifier::external_body]
fn vocab_id(t: &Tokenizer, token: &str) -> (r: Option<u32>) {
    t.token_to_id(token)
}

/// A loaded tokenizer.
pub enum TokenizerHolder {
    HuggingFace(Tokenizer),
}

impl TokenizerHolder {
    /// The token ids of `data`, or nothing when the tokenizer fails on it;
    /// such a record is skipped.
    pub fn get_ids(&mut self, data: String) -> (r: Option<Vec<u32>>)
        ensures
            *final(self) == *old(self),
    {
        match self {
            TokenizerHolder::HuggingFace(x) => encode_ids(x, data),
        }
    }

    /// The id of a special or ordinary token.
    pub fn token_to_id(&self, token: &str) -> (r: Option<u32>) {
        match self {
            TokenizerHolder::HuggingFace(x) => vocab_id(x, token),
        }
    }
}

} // verus!
