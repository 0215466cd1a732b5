use bstr::BStr;
use std::collections::hash_map::DefaultHasher;
use std::hash::Hash;
use vstd::prelude::*;

verus! {

/// The text that `BStr` displays for the given bytes: the bytes decoded as
/// UTF-8, with a replacement character for each run that is not valid.
pub uninterp spec fn display_text(bytes: Seq<u8>) -> Seq<char>;

/// The text that `BStr` writes when debugged: the given bytes between double
/// quotes, with escapes for what is not printable.
pub uninterp spec fn debug_text(bytes: Seq<u8>) -> Seq<char>;

/// The state in which the default hasher is left after `BStr` has hashed the
/// given bytes into it, from the state it was in before.
pub uninterp spec fn hashed_state(before: Seq<Seq<u8>>, bytes: Seq<u8>) -> Seq<Seq<u8>>;

/// `Display` of `bstr::BStr`, written with no width or alignment. What it
/// writes depends on the bytes alone and is named `display_text`.
#[verifier::external_body]
pub(crate) fn bstr_display(bytes: &[u8]) -> (text: String)
    ensures
        text@ == display_text(bytes@),
{
    format!("{}", BStr::new(bytes))
}

/// `Debug` of `bstr::BStr`. What it writes depends on the bytes alone and is
/// named `debug_text`.
#[verifier::external_body]
pub(crate) fn bstr_debug(bytes: &[u8]) -> (text: String)
    ensures
        text@ == debug_text(bytes@),
{
    format!("{:?}", BStr::new(bytes))
}

/// `Hash` of `bstr::BStr`, into the default hasher. It hashes the bytes as a
/// byte slice is hashed, so the state after depends on the state before and
/// on the bytes alone; it is named `hashed_state`.
#[verifier::external_body]
pub(crate) fn bstr_hash(bytes: &[u8], state: &mut DefaultHasher)
    ensures
        final(state)@ == hashed_state(old(state)@, bytes@),
{
    BStr::new(bytes).hash(state)
}

} // verus!
