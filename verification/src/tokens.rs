//! Host expressions as token sequences.

use vstd::prelude::*;

verus! {

/// Whether `proc_macro2` reads `text` as a sequence of tokens: whether
/// `TokenStream::from_str` answers it with `Ok`.
pub uninterp spec fn lexes(text: Seq<char>) -> bool;

/// Asks `proc_macro2::TokenStream::from_str` (through `str::parse`) whether
/// `text` is a sequence of tokens.
///
/// The contract claims one thing of that function: that its verdict rests
/// on the text alone. This crate takes `proc-macro2` without its
/// `proc-macro` feature, so the lexer is the crate's own, which reads its
/// argument and nothing else and returns from every input.
#[verifier::external_body]
pub(crate) fn is_token_stream(text: &str) -> (ok: bool)
    ensures
        ok == lexes(text@),
{
    text.parse::<proc_macro2::TokenStream>().is_ok()
}

} // verus!
