//! Why a routing row or a router address was turned down.

use vstd::prelude::*;

verus! {

/// Which of the two filter families a blob was meant for.
#[derive(Clone, Copy, Debug, PartialEq, Eq, Structural)]
pub enum FilterKind {
    /// A filter over join EUI pairs.
    Eui,
    /// A filter over device addresses.
    DevAddr,
}

/// The failures that the library reports.
#[derive(Clone, Copy, Debug, PartialEq, Eq, Structural)]
pub enum Error {
    /// An address is not a URI.
    UriError,
    /// A blob is not a filter of the given kind.
    FilterError(FilterKind),
}

} // verus!
