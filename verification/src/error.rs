use vstd::prelude::*;

verus! {

/// The single failure channel of the library.
///
/// `Io`, `Encoding` and `Pattern` classify failures that arise at the
/// process edge: subprocess and stream I/O, non-UTF-8 bytes where text
/// is required, and a pattern built from runtime data failing to
/// compile. The validation logic itself only ever reports `Missing`,
/// naming the operation whose expected value was absent.
#[derive(Debug, Clone, Copy, PartialEq, Eq)]
pub enum Error {
    Io,
    Encoding,
    Pattern,
    Missing(&'static str),
}

} // verus!
