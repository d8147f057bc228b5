use vstd::prelude::*;

verus! {

/// The value types that can appear in a module function signature.
///
/// `Ref` is structurally reachable so that layout code has one exhaustive
/// match, but it is never a supported aggregate member: every public entry
/// point rejects or excludes it before layout or trampoline work begins.
#[derive(Clone, Copy, PartialEq, Eq, Structural, Debug)]
pub enum ValueType {
    I32,
    I64,
    F32,
    F64,
    V128,
    Ref,
}

impl ValueType {
    /// Natural byte size of one value of this type in linear memory.
    pub open spec fn natural_size(self) -> int {
        match self {
            ValueType::I32 | ValueType::F32 => 4,
            ValueType::I64 | ValueType::F64 => 8,
            ValueType::V128 => 16,
            ValueType::Ref => 0,
        }
    }

    /// The four numeric types accepted through the public request mapping.
    pub open spec fn is_requestable(self) -> bool {
        match self {
            ValueType::I32 | ValueType::I64 | ValueType::F32 | ValueType::F64 => true,
            ValueType::V128 | ValueType::Ref => false,
        }
    }
}

/// Every failure the transformation can report.
///
/// Structural problems of the module: `NoMemory`, `NoStackPointer`,
/// `InvalidStackPointerType`. Problems with one requested function's
/// signature: `ExportNotFound`, `AlreadyHasResults`, `MissingReturnPointer`,
/// `WrongReturnPointerType`. Problems with the request itself:
/// `NoFunctionsRequested`, `UnsupportedType`, `MalformedSignature`.
/// `Codec` covers input bytes that do not decode as a module.
#[derive(Clone, Copy, PartialEq, Eq, Structural, Debug)]
pub enum Error {
    NoMemory,
    NoStackPointer,
    InvalidStackPointerType,
    ExportNotFound,
    AlreadyHasResults,
    MissingReturnPointer,
    WrongReturnPointerType,
    NoFunctionsRequested,
    UnsupportedType,
    MalformedSignature,
    Codec,
}

} // verus!
