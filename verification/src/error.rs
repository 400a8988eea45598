//! The ways in which building an image fails.

use vstd::prelude::*;

verus! {

/// One of the geometric checks on a kernel's section boundaries, named by
/// the field that it guards.
#[derive(Clone, Copy, Debug, PartialEq, Eq, Structural)]
pub enum LayoutCheck {
    /// `kernel_end` lies at or behind the end of the kernel binary.
    KernelEnd,
    /// `text_start` is not behind `text_end`.
    Text,
    /// `rodata_start` is not behind `rodata_end`.
    Rodata,
    /// `data_start` is not behind `data_end`.
    Data,
    /// `bss_start` is not behind `bss_end`.
    Bss,
}

/// Why an image could not be built.
#[derive(Clone, Copy, Debug, PartialEq, Eq, Structural)]
pub enum ImageError {
    /// The kernel binary holds no metadata marker, or what is to be decoded
    /// does not start with it.
    MalformedInput,
    /// The first metadata marker sits at the very start of the kernel binary,
    /// where entry code belongs, or further in than the entry stub reaches.
    SuspiciousOffset {
        /// Where the first marker was found.
        offset: usize,
    },
    /// The image was finished before both a kernel and a loader were packed.
    IncompleteBuild,
    /// The kernel's section boundaries contradict each other or the size of
    /// the binary. Such a kernel cannot be repacked into a bootable image.
    InvariantViolation {
        /// The first rule that the layout breaks.
        check: LayoutCheck,
    },
    /// A read ran past the end of its input, or a write to the compressed
    /// stream failed.
    IoFailure,
}

impl ImageError {
    /// What `message` says of each failure.
    pub open spec fn message_spec(self) -> Seq<char> {
        match self {
            ImageError::MalformedInput => "Malformed kernel binary!"@,
            ImageError::SuspiciousOffset { .. } => "suspicious metadata offset found; please confirm"@,
            ImageError::IncompleteBuild => "cannot build kernel image without Kernel or Loader"@,
            ImageError::InvariantViolation { check } => match check {
                LayoutCheck::KernelEnd => "kernel binary reaches beyond kernel_end"@,
                LayoutCheck::Text => "text_start lies behind text_end"@,
                LayoutCheck::Rodata => "rodata_start lies behind rodata_end"@,
                LayoutCheck::Data => "data_start lies behind data_end"@,
                LayoutCheck::Bss => "bss_start lies behind bss_end"@,
            },
            ImageError::IoFailure => "input ended early or compressed stream could not be written"@,
        }
    }

    /// A line that says what went wrong, for whoever runs the build.
    pub fn message(&self) -> (text: String)
        ensures
            text@ == self.message_spec(),
    {
        match self {
            ImageError::MalformedInput => "Malformed kernel binary!".to_owned(),
            ImageError::SuspiciousOffset { .. } => {
                "suspicious metadata offset found; please confirm".to_owned()
            },
            ImageError::IncompleteBuild => {
                "cannot build kernel image without Kernel or Loader".to_owned()
            },
            ImageError::InvariantViolation { check } => match check {
                LayoutCheck::KernelEnd => "kernel binary reaches beyond kernel_end".to_owned(),
                LayoutCheck::Text => "text_start lies behind text_end".to_owned(),
                LayoutCheck::Rodata => "rodata_start lies behind rodata_end".to_owned(),
                LayoutCheck::Data => "data_start lies behind data_end".to_owned(),
                LayoutCheck::Bss => "bss_start lies behind bss_end".to_owned(),
            },
            ImageError::IoFailure => {
                "input ended early or compressed stream could not be written".to_owned()
            },
        }
    }
}

/// A result that holds bytes, with the bytes as a sequence.
pub open spec fn bytes_of(r: Result<Vec<u8>, ImageError>) -> Result<Seq<u8>, ImageError> {
    match r {
        Ok(bytes) => Ok(bytes@),
        Err(e) => Err(e),
    }
}

} // verus!
