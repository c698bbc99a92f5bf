//! Language-intelligence core for an editor-integration server.
//!
//! The library keeps an in-memory mirror of each open document, lexes its
//! text, classifies the cursor position, and answers completion and hover
//! queries from a frozen symbol catalog.

use vstd::prelude::*;

pub mod bytestr;
pub mod classify;
pub mod engine;
pub mod lexer;
pub mod store;
pub mod symbols;

verus! {

/// Why a document-store operation or a query was refused.
#[derive(Clone, Copy, Debug, PartialEq, Eq, Structural)]
pub enum Error {
    /// The operation referenced a uri that is not tracked.
    NotFound,
    /// `open` was called for a uri that is already tracked.
    AlreadyOpen,
    /// An incremental edit range does not lie within the current text.
    InvalidRange,
    /// A cursor offset cannot be mapped to a valid byte offset.
    MalformedInput,
}

/// The capabilities the core declares, fixed once at startup: full
/// document synchronization, hover, and completion with a single trigger
/// byte.  The trigger is a tunable parameter; the default mirrors the
/// conventional `.`.
#[derive(Clone, Copy, Debug, PartialEq, Eq, Structural)]
pub struct Capabilities {
    pub full_document_sync: bool,
    pub hover_provider: bool,
    pub completion_provider: bool,
    /// The byte whose arrival should trigger a completion request.
    pub completion_trigger: u8,
    /// Whether completion items carry a second resolution round-trip.
    pub completion_resolve: bool,
}

/// The statically declared capability set.
pub fn capabilities() -> (c: Capabilities)
    ensures
        c.full_document_sync,
        c.hover_provider,
        c.completion_provider,
        c.completion_trigger == 46,
        !c.completion_resolve,
{
    Capabilities {
        full_document_sync: true,
        hover_provider: true,
        completion_provider: true,
        completion_trigger: 46,
        completion_resolve: false,
    }
}

/// The server's display name, as declared to clients.
pub fn server_name() -> (r: &'static str)
    ensures
        r@ == "Oxeye Language Server"@,
{
    "Oxeye Language Server"
}

/// The server's version string, as declared to clients.
pub fn server_version() -> (r: &'static str)
    ensures
        r@ == "0.1.0"@,
{
    "0.1.0"
}

} // verus!
