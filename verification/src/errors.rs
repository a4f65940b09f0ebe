use vstd::prelude::*;

verus! {

/// The only failure the filter core knows: a bad construction parameter,
/// either a negative delay or an empty weight sequence handed to the
/// convolution engine. Processing itself is total and never fails.
#[derive(Clone, Copy, Debug, PartialEq, Eq, Structural)]
pub enum FilterError {
    InvalidParameter,
}

} // verus!
