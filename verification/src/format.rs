use vstd::prelude::*;
use crate::error::ConvertError;

verus! {

/// How the components of a format are encoded.
#[derive(Debug, Clone, Copy, PartialEq, Eq)]
pub enum NumericKind {
    Uint,
    Sint,
    Sfloat,
}

/// The pixel formats an interface variable can have: one to four 32-bit components.
#[derive(Debug, Clone, Copy, PartialEq, Eq)]
pub enum Format {
    R32Uint,
    R32Sint,
    R32Sfloat,
    R32G32Uint,
    R32G32Sint,
    R32G32Sfloat,
    R32G32B32Uint,
    R32G32B32Sint,
    R32G32B32Sfloat,
    R32G32B32A32Uint,
    R32G32B32A32Sint,
    R32G32B32A32Sfloat,
}

impl Format {
    /// Number of components, from one to four.
    pub open spec fn components(self) -> int {
        match self {
            Format::R32Uint | Format::R32Sint | Format::R32Sfloat => 1,
            Format::R32G32Uint | Format::R32G32Sint | Format::R32G32Sfloat => 2,
            Format::R32G32B32Uint | Format::R32G32B32Sint | Format::R32G32B32Sfloat => 3,
            Format::R32G32B32A32Uint | Format::R32G32B32A32Sint | Format::R32G32B32A32Sfloat => 4,
        }
    }

    /// Encoding of each component.
    pub open spec fn kind(self) -> NumericKind {
        match self {
            Format::R32Uint | Format::R32G32Uint | Format::R32G32B32Uint
            | Format::R32G32B32A32Uint => NumericKind::Uint,
            Format::R32Sint | Format::R32G32Sint | Format::R32G32B32Sint
            | Format::R32G32B32A32Sint => NumericKind::Sint,
            Format::R32Sfloat | Format::R32G32Sfloat | Format::R32G32B32Sfloat
            | Format::R32G32B32A32Sfloat => NumericKind::Sfloat,
        }
    }
}

/// Lowest format code with a translation.
pub const FIRST_FORMAT_CODE: u32 = 1;

/// Highest format code with a translation.
pub const LAST_FORMAT_CODE: u32 = 12;

/// The format codes that the table has an entry for. Code 0 stands for an undefined format.
pub open spec fn is_known_format(code: u32) -> bool {
    FIRST_FORMAT_CODE <= code <= LAST_FORMAT_CODE
}

/// The encoding that a known format code stands for: codes run through unsigned, signed and
/// floating point for each component count in turn.
pub open spec fn kind_of_code(code: u32) -> NumericKind {
    if (code - FIRST_FORMAT_CODE) % 3 == 0 {
        NumericKind::Uint
    } else if (code - FIRST_FORMAT_CODE) % 3 == 1 {
        NumericKind::Sint
    } else {
        NumericKind::Sfloat
    }
}

/// The component count that a known format code stands for.
pub open spec fn components_of_code(code: u32) -> int {
    (code - FIRST_FORMAT_CODE) / 3 + 1
}

/// The format with a given component count and encoding.
pub open spec fn format_with(components: int, kind: NumericKind) -> Format {
    match kind {
        NumericKind::Uint => if components == 1 {
            Format::R32Uint
        } else if components == 2 {
            Format::R32G32Uint
        } else if components == 3 {
            Format::R32G32B32Uint
        } else {
            Format::R32G32B32A32Uint
        },
        NumericKind::Sint => if components == 1 {
            Format::R32Sint
        } else if components == 2 {
            Format::R32G32Sint
        } else if components == 3 {
            Format::R32G32B32Sint
        } else {
            Format::R32G32B32A32Sint
        },
        NumericKind::Sfloat => if components == 1 {
            Format::R32Sfloat
        } else if components == 2 {
            Format::R32G32Sfloat
        } else if components == 3 {
            Format::R32G32B32Sfloat
        } else {
            Format::R32G32B32A32Sfloat
        },
    }
}

/// The format table: the translation of a format code, or the error for a code without one.
pub open spec fn format_table(code: u32) -> Result<Format, ConvertError> {
    if is_known_format(code) {
        Ok(format_with(components_of_code(code), kind_of_code(code)))
    } else {
        Err(ConvertError::UnknownFormat)
    }
}

/// A format is determined by its component count and encoding.
pub proof fn lemma_format_determined(f: Format)
    ensures
        1 <= f.components() <= 4,
        format_with(f.components(), f.kind()) == f,
{
}

/// Translates a format code. Every code outside the table is an error: none is given a
/// default format.
pub fn format_of(code: u32) -> (r: Result<Format, ConvertError>)
    ensures
        r == format_table(code),
        r is Ok <==> is_known_format(code),
{
    if code == 1 {
        Ok(Format::R32Uint)
    } else if code == 2 {
        Ok(Format::R32Sint)
    } else if code == 3 {
        Ok(Format::R32Sfloat)
    } else if code == 4 {
        Ok(Format::R32G32Uint)
    } else if code == 5 {
        Ok(Format::R32G32Sint)
    } else if code == 6 {
        Ok(Format::R32G32Sfloat)
    } else if code == 7 {
        Ok(Format::R32G32B32Uint)
    } else if code == 8 {
        Ok(Format::R32G32B32Sint)
    } else if code == 9 {
        Ok(Format::R32G32B32Sfloat)
    } else if code == 10 {
        Ok(Format::R32G32B32A32Uint)
    } else if code == 11 {
        Ok(Format::R32G32B32A32Sint)
    } else if code == 12 {
        Ok(Format::R32G32B32A32Sfloat)
    } else {
        Err(ConvertError::UnknownFormat)
    }
}

} // verus!
