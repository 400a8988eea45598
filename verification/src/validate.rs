//! The geometric checks on a kernel's section boundaries.

use vstd::prelude::*;
use crate::error::{ImageError, LayoutCheck};
use crate::meta::KernelMeta;

verus! {

/// Whether `meta` breaks the rule that `check` names, for a kernel binary
/// of `kernel_len` bytes.
pub open spec fn violates(check: LayoutCheck, kernel_len: nat, meta: KernelMeta) -> bool {
    match check {
        LayoutCheck::KernelEnd => kernel_len > meta.layout.kernel_end,
        LayoutCheck::Text => meta.layout.text_start > meta.layout.text_end,
        LayoutCheck::Rodata => meta.layout.rodata_start > meta.layout.rodata_end,
        LayoutCheck::Data => meta.layout.data_start > meta.layout.data_end,
        LayoutCheck::Bss => meta.layout.bss_start > meta.layout.bss_end,
    }
}

/// The layout is consistent: the kernel binary ends at or before
/// `kernel_end`, and no section ends before it starts.
pub open spec fn layout_ok(kernel_len: nat, meta: KernelMeta) -> bool {
    forall|check: LayoutCheck| !violates(check, kernel_len, meta)
}

/// The first broken rule, in the order `KernelEnd`, `Text`, `Rodata`,
/// `Data`, `Bss`.
pub open spec fn validate_spec(kernel_len: nat, meta: KernelMeta) -> Result<(), ImageError> {
    if violates(LayoutCheck::KernelEnd, kernel_len, meta) {
        Err(ImageError::InvariantViolation { check: LayoutCheck::KernelEnd })
    } else if violates(LayoutCheck::Text, kernel_len, meta) {
        Err(ImageError::InvariantViolation { check: LayoutCheck::Text })
    } else if violates(LayoutCheck::Rodata, kernel_len, meta) {
        Err(ImageError::InvariantViolation { check: LayoutCheck::Rodata })
    } else if violates(LayoutCheck::Data, kernel_len, meta) {
        Err(ImageError::InvariantViolation { check: LayoutCheck::Data })
    } else if violates(LayoutCheck::Bss, kernel_len, meta) {
        Err(ImageError::InvariantViolation { check: LayoutCheck::Bss })
    } else {
        Ok(())
    }
}

/// Validation passes exactly the consistent layouts, and a failure names a
/// rule that is in fact broken.
pub proof fn lemma_validate_sound(kernel_len: nat, meta: KernelMeta)
    ensures
        validate_spec(kernel_len, meta) is Ok <==> layout_ok(kernel_len, meta),
        match validate_spec(kernel_len, meta) {
            Ok(_) => true,
            Err(ImageError::InvariantViolation { check }) => violates(check, kernel_len, meta),
            Err(_) => false,
        },
{
    if validate_spec(kernel_len, meta) is Ok {
        assert forall|check: LayoutCheck| !violates(check, kernel_len, meta) by {
            match check {
                LayoutCheck::KernelEnd => {},
                LayoutCheck::Text => {},
                LayoutCheck::Rodata => {},
                LayoutCheck::Data => {},
                LayoutCheck::Bss => {},
            }
        }
    } else {
        let check = validate_spec(kernel_len, meta)->Err_0->InvariantViolation_check;
        assert(violates(check, kernel_len, meta));
    }
}

/// The place of a rule in the order in which the rules are checked.
pub open spec fn rank(check: LayoutCheck) -> nat {
    match check {
        LayoutCheck::KernelEnd => 0,
        LayoutCheck::Text => 1,
        LayoutCheck::Rodata => 2,
        LayoutCheck::Data => 3,
        LayoutCheck::Bss => 4,
    }
}

/// A record that breaks a rule, and none of the rules checked before it,
/// fails validation on that rule. So does, in particular, a record that
/// breaks one rule only.
pub proof fn lemma_first_violation(check: LayoutCheck, kernel_len: nat, meta: KernelMeta)
    requires
        violates(check, kernel_len, meta),
        forall|earlier: LayoutCheck|
            rank(earlier) < rank(check) ==> !violates(earlier, kernel_len, meta),
    ensures
        validate_spec(kernel_len, meta) == Err::<(), ImageError>(
            ImageError::InvariantViolation { check },
        ),
{
    assert(rank(LayoutCheck::KernelEnd) < rank(check) ==> !violates(
        LayoutCheck::KernelEnd,
        kernel_len,
        meta,
    ));
    assert(rank(LayoutCheck::Text) < rank(check) ==> !violates(LayoutCheck::Text, kernel_len, meta));
    assert(rank(LayoutCheck::Rodata) < rank(check) ==> !violates(
        LayoutCheck::Rodata,
        kernel_len,
        meta,
    ));
    assert(rank(LayoutCheck::Data) < rank(check) ==> !violates(LayoutCheck::Data, kernel_len, meta));
}

/// Checks the section boundaries of `meta` against each other and against
/// the length of the kernel binary, and reports the first rule that is
/// broken.
pub fn validate(kernel_len: usize, meta: &KernelMeta) -> (r: Result<(), ImageError>)
    ensures
        r == validate_spec(kernel_len as nat, *meta),
{
    if kernel_len as u64 > meta.layout.kernel_end as u64 {
        Err(ImageError::InvariantViolation { check: LayoutCheck::KernelEnd })
    } else if meta.layout.text_start > meta.layout.text_end {
        Err(ImageError::InvariantViolation { check: LayoutCheck::Text })
    } else if meta.layout.rodata_start > meta.layout.rodata_end {
        Err(ImageError::InvariantViolation { check: LayoutCheck::Rodata })
    } else if meta.layout.data_start > meta.layout.data_end {
        Err(ImageError::InvariantViolation { check: LayoutCheck::Data })
    } else if meta.layout.bss_start > meta.layout.bss_end {
        Err(ImageError::InvariantViolation { check: LayoutCheck::Bss })
    } else {
        Ok(())
    }
}

} // verus!
