use vstd::prelude::*;

verus! {

/// Should be implemented on widget list items to be used in a `List`.
///
/// The list learns everything it knows about an item through these three
/// methods. None of them promises anything here: an implementation is free
/// to report any height and to hand back any item, and the list's own
/// contracts are stated over whatever the calls returned.
pub trait Listable: Sized {
    /// Returns the height of the item: the number of rows it occupies when
    /// it is drawn in full.
    fn height(&self) -> usize;

    /// Highlight the selected widget. Optional: by default the item is
    /// returned as it is.
    #[must_use]
    fn highlight(self) -> (r: Self)
        default_ensures
            r == self,
    {
        self
    }

    /// The truncated widget on top, for an item of which only the last
    /// `rows` rows are inside the viewport. Optional: by default the item
    /// is returned as it is.
    #[must_use]
    fn truncate_top(self, rows: usize) -> (r: Self)
        default_ensures
            r == self,
    {
        self
    }
}

/// `h` is a height that `item` may report.
pub open spec fn reports<T: Listable>(item: T, h: usize) -> bool {
    call_ensures(T::height, (&item,), h)
}

/// `lit` is an item that highlighting `item` may give.
pub open spec fn highlights_to<T: Listable>(item: T, lit: T) -> bool {
    call_ensures(T::highlight, (item,), lit)
}

/// `cut` is an item that truncating `item` to its last `rows` rows may give.
pub open spec fn truncates_to<T: Listable>(item: T, rows: usize, cut: T) -> bool {
    call_ensures(T::truncate_top, (item, rows), cut)
}

} // verus!
