use vstd::prelude::*;

verus! {

/// The two ways in which an operation of this crate is refused.
#[derive(Clone, Copy, Debug, PartialEq, Eq, Structural)]
pub enum ListError {
    /// An index to select does not name an item of the list.
    OutOfRange,
    /// The scroll state does not belong to the items it is used with: the
    /// anchor or the selection lies behind the last item, or more rows of
    /// the anchor item are hidden than it has.
    PreconditionViolation,
}

} // verus!
