use crate::long_str::StrAllocator;
use bumpalo::Bump;
use vstd::prelude::*;

verus! {

/// `bumpalo::Bump`, an arena that hands out memory which lives as long as
/// the arena does.
#[verifier::external_type_specification]
#[verifier::external_body]
pub struct ExBump<const MIN_ALIGN: usize>(Bump<MIN_ALIGN>);

/// `Bump::alloc_slice_copy`: copies a slice into the arena. The copy holds
/// the bytes of the slice and lives as long as the arena. The call does not
/// return if the arena cannot reserve the space.
#[verifier::external_body]
fn bump_copy<'a>(bump: &'a Bump, data: &[u8]) -> (copy: &'a [u8])
    ensures
        copy@ == data@,
{
    bump.alloc_slice_copy(data)
}

impl<'a> StrAllocator<'a> for &'a Bump {
    fn allocate(self, data: &[u8]) -> (ret: &'a [u8]) {
        bump_copy(self, data)
    }
}

} // verus!
