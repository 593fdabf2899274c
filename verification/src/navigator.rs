//! Navigator: the ordered item set plus the path currently displayed.
//!
//! Advancing or retreating moves the cursor and updates the displayed path on
//! success; deleting removes the item at the cursor only, leaving the
//! displayed path stale until the next advance or retreat, so that callers
//! re-seek explicitly.

use vstd::prelude::*;

use crate::cursor::{advance_from, retreat_from, PathCursor};
use crate::paths::copy_bytes;

verus! {

/// The item set and the remembered "currently displayed" path.
pub struct Navigator {
    /// Cursor over the item paths.
    pub cursor: PathCursor,
    /// Path of the item currently displayed.
    pub image: Vec<u8>,
}

impl Navigator {
    pub open spec fn wf(self) -> bool {
        self.cursor.wf()
    }

    /// Wrap a populated cursor, selecting its first item as displayed.
    pub fn new(cursor: PathCursor) -> (r: Self)
        requires
            cursor.wf(),
            cursor.len > 0,
            cursor.index is None,
        ensures
            r.wf(),
            r.cursor.items() == cursor.items(),
            r.cursor.len == cursor.len,
            r.cursor.pos() == Some(0int),
            r.image@ == cursor.items()[0],
    {
        let mut cursor = cursor;
        let image = match cursor.next() {
            Some(p) => p,
            None => vstd::pervasive::unreached(),
        };
        Self { cursor, image }
    }

    /// Advance the cursor and remember the item now visited; on an empty set
    /// nothing changes and `None` comes back.
    pub fn next(&mut self) -> (r: Option<Vec<u8>>)
        requires
            old(self).wf(),
        ensures
            final(self).wf(),
            final(self).cursor.items() == old(self).cursor.items(),
            final(self).cursor.len == old(self).cursor.len,
            old(self).cursor.len == 0 ==> r is None && *final(self) == *old(self),
            old(self).cursor.len > 0 ==> {
                let k = advance_from(old(self).cursor.pos(), old(self).cursor.len as int);
                &&& final(self).cursor.pos() == Some(k)
                &&& final(self).image@ == old(self).cursor.items()[k]
                &&& r matches Some(p) && p@ == old(self).cursor.items()[k]
            },
    {
        let p = match self.cursor.next() {
            Some(p) => p,
            None => {
                return None;
            },
        };
        self.image = copy_bytes(&p);
        Some(p)
    }

    /// Retreat the cursor and remember the item now visited; on an empty set
    /// nothing changes and `None` comes back.
    pub fn prev(&mut self) -> (r: Option<Vec<u8>>)
        requires
            old(self).wf(),
        ensures
            final(self).wf(),
            final(self).cursor.items() == old(self).cursor.items(),
            final(self).cursor.len == old(self).cursor.len,
            old(self).cursor.len == 0 ==> r is None && *final(self) == *old(self),
            old(self).cursor.len > 0 ==> {
                let k = retreat_from(old(self).cursor.pos(), old(self).cursor.len as int);
                &&& final(self).cursor.pos() == Some(k)
                &&& final(self).image@ == old(self).cursor.items()[k]
                &&& r matches Some(p) && p@ == old(self).cursor.items()[k]
            },
    {
        let p = match self.cursor.prev() {
            Some(p) => p,
            None => {
                return None;
            },
        };
        self.image = copy_bytes(&p);
        Some(p)
    }

    /// Remove the item at the cursor from the set.  The displayed path is
    /// deliberately left as it is: it may now be stale, and the caller must
    /// advance or retreat to obtain a valid item again.
    pub fn delete(&mut self)
        requires
            old(self).wf(),
        ensures
            final(self).wf(),
            final(self).image == old(self).image,
            old(self).cursor.selected() ==> {
                &&& final(self).cursor.items() == old(self).cursor.items().remove(
                    old(self).cursor.sel(),
                )
                &&& final(self).cursor.len == old(self).cursor.len - 1
                &&& final(self).cursor.index == old(self).cursor.index
            },
            !old(self).cursor.selected() ==> *final(self) == *old(self),
    {
        let _removed = self.cursor.remove();
    }

    /// The path of the item currently displayed.
    pub fn image_path(&self) -> (r: Vec<u8>)
        ensures
            r@ == self.image@,
    {
        copy_bytes(&self.image)
    }
}

} // verus!
