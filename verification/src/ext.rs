//! Calls into the outside crates that the generator leans on: name
//! re-casing, string joining, and the Rust parser used to canonicalise
//! type text and to check emitted glue.  Each wrapper's contract names
//! what it relies on; results that depend on the input text alone are
//! given uninterpreted names.
use itertools::Itertools;
use vstd::prelude::*;

verus! {

use crate::text::{join_of, opt_text, texts_of};

/// The CamelCase re-casing of a piece of text.
pub uninterp spec fn camel_of(s: Seq<char>) -> Seq<char>;

/// The canonical token text of a Rust type, or `None` where the text
/// does not parse as a type.
pub uninterp spec fn canon_type_of(s: Seq<char>) -> Option<Seq<char>>;

/// Whether a piece of text parses as one Rust item.
pub uninterp spec fn item_parses(s: Seq<char>) -> bool;

/// Whether a piece of text is a Rust identifier.
pub uninterp spec fn ident_parses(s: Seq<char>) -> bool;

/// Relies on heck's `CamelCase::to_camel_case`: the result depends on
/// the characters of the input alone.
#[verifier::external_body]
pub fn to_camel_case(s: &str) -> (r: String)
    ensures
        r@ == camel_of(s@),
{
    heck::CamelCase::to_camel_case(s)
}

/// Relies on itertools' `Itertools::join`: the elements, `Display`ed
/// (identity on `&str`), concatenated with the separator between
/// consecutive ones.
#[verifier::external_body]
pub fn join_strings(parts: &Vec<String>, sep: &str) -> (r: String)
    ensures
        r@ == join_of(texts_of(parts@), sep@),
{
    parts.iter().map(|p| p.as_str()).join(sep)
}

/// Relies on syn's `parse_str::<syn::Type>` and quote's token printing:
/// whether the text parses as a Rust type, and the canonical token text
/// it prints back as, depend on the input text alone.  This crate runs
/// outside procedural-macro expansion, so proc-macro2 always prints
/// with its own stable lexer, never the compiler's.
#[verifier::external_body]
pub fn canonical_type_text(s: &str) -> (r: Option<String>)
    ensures
        opt_text(r) == canon_type_of(s@),
{
    match syn::parse_str::<syn::Type>(s) {
        Ok(t) => Some(quote::ToTokens::to_token_stream(&t).to_string()),
        Err(_) => None,
    }
}

/// Relies on syn's `parse_str::<syn::Item>`: whether the text parses as
/// one Rust item depends on the text alone.
#[verifier::external_body]
pub fn rust_item_parses(code: &str) -> (r: bool)
    ensures
        r == item_parses(code@),
{
    syn::parse_str::<syn::Item>(code).is_ok()
}

/// The UTF-16 code units of one character: the scalar value itself
/// for a character of the basic plane, a surrogate pair above it.
pub open spec fn utf16_of_char(c: char) -> Seq<u16> {
    if (c as int) < 0x10000 {
        seq![(c as int) as u16]
    } else {
        seq![
            (0xD800 + ((c as int) - 0x10000) / 0x400) as u16,
            (0xDC00 + ((c as int) - 0x10000) % 0x400) as u16,
        ]
    }
}

/// The UTF-16 code units of a piece of text: those of its characters
/// in order.
pub open spec fn utf16_of(s: Seq<char>) -> Seq<u16>
    decreases s.len(),
{
    if s.len() == 0 {
        Seq::<u16>::empty()
    } else {
        utf16_of_char(s[0]) + utf16_of(s.subrange(1, s.len() as int))
    }
}

/// Relies on `str::encode_utf16`, which encodes each character in
/// order: as its own scalar value below the surrogate threshold, as a
/// surrogate pair above it.
#[verifier::external_body]
pub fn utf16_units(s: &str) -> (r: Vec<u16>)
    ensures
        r@ == utf16_of(s@),
{
    s.encode_utf16().collect()
}

/// The code units of `s` with the zero terminator the string ABI
/// hands across appended.
pub fn utf16_nul_units(s: &str) -> (r: Vec<u16>)
    ensures
        r@ == utf16_of(s@).push(0u16),
{
    let mut v = utf16_units(s);
    v.push(0);
    v
}

/// Relies on syn's `parse_str::<syn::Ident>`: whether the text is a
/// Rust identifier depends on the text alone.
#[verifier::external_body]
pub fn is_rust_ident(s: &str) -> (r: bool)
    ensures
        r == ident_parses(s@),
{
    syn::parse_str::<syn::Ident>(s).is_ok()
}

} // verus!
