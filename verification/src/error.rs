//! The error taxonomy: the process-level error codes that cross the
//! plugin boundary, and the structured diagnoses of a malformed binary
//! container.
use vstd::prelude::*;

verus! {

/// The error codes the system reports, each with a fixed numeric value
/// suitable for a 32-bit plugin status or a process exit code.
#[derive(Clone, Copy, PartialEq, Eq, Structural, Debug)]
pub enum ErrorCode {
    NoError,
    Mutex,
    Generation,
    NotImplemented,
    WebAssemblyCompile,
    WebAssemblyInstance,
    WebAssemblyExecution,
    ModuleNotEMG,
    ModelGeneratorNotFound,
    ParameterCount,
    ParameterType,
    ParameterOutOfRange,
    OutputNotGLB,
}

impl ErrorCode {
    /// The fixed numeric value of each code.
    pub open spec fn spec_code(self) -> i32 {
        match self {
            ErrorCode::NoError => 0,
            ErrorCode::Mutex => 1,
            ErrorCode::Generation => 2,
            ErrorCode::NotImplemented => 3,
            ErrorCode::WebAssemblyCompile => 4,
            ErrorCode::WebAssemblyInstance => 5,
            ErrorCode::WebAssemblyExecution => 6,
            ErrorCode::ModuleNotEMG => 7,
            ErrorCode::ModelGeneratorNotFound => 8,
            ErrorCode::ParameterCount => 9,
            ErrorCode::ParameterType => 10,
            ErrorCode::ParameterOutOfRange => 11,
            ErrorCode::OutputNotGLB => 12,
        }
    }

    pub fn code(&self) -> (r: i32)
        ensures
            r == self.spec_code(),
    {
        match self {
            ErrorCode::NoError => 0,
            ErrorCode::Mutex => 1,
            ErrorCode::Generation => 2,
            ErrorCode::NotImplemented => 3,
            ErrorCode::WebAssemblyCompile => 4,
            ErrorCode::WebAssemblyInstance => 5,
            ErrorCode::WebAssemblyExecution => 6,
            ErrorCode::ModuleNotEMG => 7,
            ErrorCode::ModelGeneratorNotFound => 8,
            ErrorCode::ParameterCount => 9,
            ErrorCode::ParameterType => 10,
            ErrorCode::ParameterOutOfRange => 11,
            ErrorCode::OutputNotGLB => 12,
        }
    }
}

/// The diagnosis a container-validation failure carries: which structural
/// rule the buffer broke, with the byte counts involved.
#[derive(Clone, Copy, PartialEq, Eq, Structural, Debug)]
pub enum ContainerError {
    /// The buffer is shorter than the 24 bytes a header and a minimal
    /// chunk header occupy.
    TooSmall { actual: usize },
    /// The first four bytes are not the container signature.
    BadMagic { b0: u8, b1: u8, b2: u8, b3: u8 },
    /// The version field holds something other than the one supported
    /// version.
    UnsupportedVersion { version: u32 },
    /// The declared total length differs from the buffer's length.
    LengthMismatch { declared: u32, actual: usize },
    /// The total length is not a multiple of four.
    LengthNotAligned { length: u32 },
    /// The first chunk's type tag is not the mandatory text-chunk tag.
    FirstChunkNotJson { t0: u8, t1: u8, t2: u8, t3: u8 },
    /// The first chunk's declared length exceeds the room the total
    /// length leaves for it.
    JsonChunkTooLong { declared: u32, available: u32 },
    /// The first chunk's declared length is not a multiple of four.
    JsonChunkNotAligned { length: u32 },
    /// Bytes remain after the first chunk, but fewer than a chunk header
    /// needs.
    TruncatedChunk { remaining: u32 },
    /// The second chunk's type tag is not the binary-chunk tag.
    SecondChunkNotBin { t0: u8, t1: u8, t2: u8, t3: u8 },
    /// The second chunk's declared length exceeds the room left.
    BinChunkTooLong { declared: u32, available: u32 },
    /// The second chunk's declared length is not a multiple of four.
    BinChunkNotAligned { length: u32 },
    /// Bytes remain after the second chunk; no further chunk is
    /// supported.
    TrailingBytes { extra: u32 },
}

impl ContainerError {
    /// The process-level code each diagnosis maps to: an unsupported
    /// version and an unsupported extra chunk are features this system
    /// does not implement, everything else marks the output as no valid
    /// container.
    pub open spec fn spec_error_code(self) -> ErrorCode {
        match self {
            ContainerError::UnsupportedVersion { .. } => ErrorCode::NotImplemented,
            ContainerError::TrailingBytes { .. } => ErrorCode::NotImplemented,
            _ => ErrorCode::OutputNotGLB,
        }
    }

    pub fn error_code(&self) -> (r: ErrorCode)
        ensures
            r == self.spec_error_code(),
    {
        match self {
            ContainerError::UnsupportedVersion { .. } => ErrorCode::NotImplemented,
            ContainerError::TrailingBytes { .. } => ErrorCode::NotImplemented,
            _ => ErrorCode::OutputNotGLB,
        }
    }
}

} // verus!
