use vstd::prelude::*;

verus! {

/// Recoverable failures of the primitive stores and the display-list compiler.
#[derive(Clone, Copy, Debug, PartialEq, Eq, Structural)]
pub enum RenderError {
    /// A handle that was never issued in its namespace, or that was removed.
    HandleOutOfRange,
    /// An operation or primitive kind that this renderer does not provide.
    Unsupported,
    /// A compiled batch would need a vertex index beyond 16 bits, or the
    /// compiled index sequence would exceed what a draw call can address.
    BatchTooLarge,
}

} // verus!
