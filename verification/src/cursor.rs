//! Ordered cursor over the item set: wrap-around traversal in both
//! directions, in-place removal, and import of a directory listing.
//!
//! The cursor remembers the index of the most recently visited item.
//! Advancing moves to the following index and wraps past the end; retreating
//! moves to the preceding index and wraps before the start.  Removal deletes
//! the item at the remembered index and does not re-seek: the caller must
//! advance or retreat again to obtain a valid item.

use vstd::prelude::*;
use vstd::relations::sorted_by;

use crate::order::{key_order, lemma_views_remove, sort_paths, views_of};
use crate::paths::{copy_bytes, file_name, has_file_name};

verus! {

/// Reasons importing a directory listing can fail.
#[derive(Debug, Clone, Copy, PartialEq, Eq, Structural)]
pub enum ImportError {
    /// No usable entry remained: the viewer cannot start without items.
    Empty,
    /// The directory could not be listed.  Produced at the process edge,
    /// where the listing happens.
    Io,
}

/// Position and length state over an ordered sequence of paths.
pub struct PathCursor {
    /// The items, in traversal order.
    pub paths: Vec<Vec<u8>>,
    /// Index of the most recently visited item; `None` until the first
    /// navigation.  May equal `len` after a removal, meaning nothing is
    /// selected.
    pub index: Option<usize>,
    /// Current logical length; always the number of items held.
    pub len: usize,
}

/// Index visited by an advance from `pos` over `len` items: the next index,
/// wrapping to 0 past the end; 0 from an unset position.
pub open spec fn advance_from(pos: Option<int>, len: int) -> int {
    match pos {
        None => 0,
        Some(v) => if v + 1 >= len {
            0
        } else {
            v + 1
        },
    }
}

/// Index visited by a retreat from `pos` over `len` items: the previous
/// index, wrapping to the last index before the start; the last index from an
/// unset position.
pub open spec fn retreat_from(pos: Option<int>, len: int) -> int {
    match pos {
        None => len - 1,
        Some(v) => if v == 0 {
            len - 1
        } else {
            v - 1
        },
    }
}

/// Position after `k` advances from an unset cursor over `len` items.
pub open spec fn pos_after_advances(len: int, k: nat) -> Option<int>
    decreases k,
{
    if k == 0 {
        None
    } else {
        Some(advance_from(pos_after_advances(len, (k - 1) as nat), len))
    }
}

/// Position after `k` retreats from an unset cursor over `len` items.
pub open spec fn pos_after_retreats(len: int, k: nat) -> Option<int>
    decreases k,
{
    if k == 0 {
        None
    } else {
        Some(retreat_from(pos_after_retreats(len, (k - 1) as nat), len))
    }
}

/// Advancing `k` times from an unset cursor over `len` items visits item
/// `k - 1`: the first `len` advances visit each item exactly once, in order.
pub proof fn lemma_advance_visits_in_order(len: int, k: nat)
    requires
        len >= 1,
        1 <= k <= len,
    ensures
        pos_after_advances(len, k) == Some(k - 1),
    decreases k,
{
    if k == 1 {
        assert(pos_after_advances(len, 0) is None);
        assert(pos_after_advances(len, 1) == Some(advance_from(None, len)));
    } else {
        lemma_advance_visits_in_order(len, (k - 1) as nat);
        assert(pos_after_advances(len, k) == Some(
            advance_from(pos_after_advances(len, (k - 1) as nat), len),
        ));
    }
}

/// The advance after a full round wraps back to the first item.
pub proof fn lemma_advance_wraps(len: int)
    requires
        len >= 1,
    ensures
        pos_after_advances(len, (len + 1) as nat) == Some(0int),
{
    lemma_advance_visits_in_order(len, len as nat);
}

/// Retreating `k` times from an unset cursor over `len` items visits item
/// `len - k`: the first `len` retreats visit each item exactly once, in
/// reverse order starting from the last.
pub proof fn lemma_retreat_visits_in_reverse(len: int, k: nat)
    requires
        len >= 1,
        1 <= k <= len,
    ensures
        pos_after_retreats(len, k) == Some(len - k),
    decreases k,
{
    if k == 1 {
        assert(pos_after_retreats(len, 0) is None);
        assert(pos_after_retreats(len, 1) == Some(retreat_from(None, len)));
    } else {
        lemma_retreat_visits_in_reverse(len, (k - 1) as nat);
        assert(pos_after_retreats(len, k) == Some(
            retreat_from(pos_after_retreats(len, (k - 1) as nat), len),
        ));
    }
}

/// Having a resolvable file name, as a predicate value.
pub open spec fn usable_pred() -> spec_fn(Seq<u8>) -> bool {
    |p: Seq<u8>| has_file_name(p)
}

/// The entries of a listing that have a resolvable file name.
pub open spec fn usable_of(s: Seq<Seq<u8>>) -> Seq<Seq<u8>> {
    s.filter(usable_pred())
}

/// Once an item that occurs nowhere else is removed, no traversal can yield
/// it again: it is simply no longer in the set.
pub proof fn lemma_removed_item_gone(items: Seq<Seq<u8>>, i: int)
    requires
        0 <= i < items.len(),
        forall|j: int| 0 <= j < items.len() && j != i ==> items[j] != items[i],
    ensures
        !items.remove(i).contains(items[i]),
{
    let rest = items.remove(i);
    assert forall|j: int| 0 <= j < rest.len() implies rest[j] != items[i] by {
        if j < i {
            assert(rest[j] == items[j]);
        } else {
            assert(rest[j] == items[j + 1]);
        }
    }
}

impl PathCursor {
    /// The length field always matches the items held, and a set index never
    /// runs past the length.
    pub open spec fn wf(self) -> bool {
        &&& self.len == self.paths@.len()
        &&& match self.index {
            Some(i) => i <= self.len,
            None => true,
        }
    }

    /// The paths held, as byte sequences, in order.
    pub open spec fn items(self) -> Seq<Seq<u8>> {
        views_of(self.paths@)
    }

    /// The remembered position, as a mathematical value.
    pub open spec fn pos(self) -> Option<int> {
        match self.index {
            Some(i) => Some(i as int),
            None => None,
        }
    }

    /// Whether an item is currently selected: the index is set and in range.
    pub open spec fn selected(self) -> bool {
        self.index matches Some(i) && i < self.len
    }

    /// The selected index.
    pub open spec fn sel(self) -> int {
        match self.index {
            Some(i) => i as int,
            None => 0,
        }
    }

    /// A cursor over the given items, with no position yet.
    pub fn new(items: Vec<Vec<u8>>) -> (r: Self)
        ensures
            r.wf(),
            r.items() == views_of(items@),
            r.index is None,
            r.len == items@.len(),
    {
        let len = items.len();
        Self { paths: items, index: None, len }
    }

    /// Advance, then return the item now visited; `None` only when the set
    /// is empty.
    pub fn next(&mut self) -> (r: Option<Vec<u8>>)
        requires
            old(self).wf(),
        ensures
            final(self).wf(),
            final(self).items() == old(self).items(),
            final(self).len == old(self).len,
            old(self).len == 0 ==> r is None && *final(self) == *old(self),
            old(self).len > 0 ==> {
                let k = advance_from(old(self).pos(), old(self).len as int);
                &&& final(self).pos() == Some(k)
                &&& r matches Some(p) && p@ == old(self).items()[k]
            },
    {
        if self.len == 0 {
            return None;
        }
        let k: usize = match self.index {
            None => 0,
            Some(v) => if v >= self.len - 1 {
                0
            } else {
                v + 1
            },
        };
        self.index = Some(k);
        let p = copy_bytes(&self.paths[k]);
        Some(p)
    }

    /// Retreat, then return the item now visited; `None` only when the set
    /// is empty.
    pub fn prev(&mut self) -> (r: Option<Vec<u8>>)
        requires
            old(self).wf(),
        ensures
            final(self).wf(),
            final(self).items() == old(self).items(),
            final(self).len == old(self).len,
            old(self).len == 0 ==> r is None && *final(self) == *old(self),
            old(self).len > 0 ==> {
                let k = retreat_from(old(self).pos(), old(self).len as int);
                &&& final(self).pos() == Some(k)
                &&& r matches Some(p) && p@ == old(self).items()[k]
            },
    {
        if self.len == 0 {
            return None;
        }
        let k: usize = match self.index {
            None => self.len - 1,
            Some(v) => if v == 0 {
                self.len - 1
            } else {
                v - 1
            },
        };
        self.index = Some(k);
        let p = copy_bytes(&self.paths[k]);
        Some(p)
    }

    /// Remove and return the item at the remembered index; `None` when
    /// nothing is selected.  The cursor does not re-point: the remembered
    /// index is left as it is.
    pub fn remove(&mut self) -> (r: Option<Vec<u8>>)
        requires
            old(self).wf(),
        ensures
            final(self).wf(),
            old(self).selected() ==> {
                &&& r matches Some(p) && p@ == old(self).items()[old(self).sel()]
                &&& final(self).items() == old(self).items().remove(old(self).sel())
                &&& final(self).len == old(self).len - 1
                &&& final(self).index == old(self).index
            },
            !old(self).selected() ==> r is None && *final(self) == *old(self),
    {
        match self.index {
            Some(i) => {
                if i < self.len {
                    let ghost vseq = self.paths@;
                    self.len = self.len - 1;
                    let p = self.paths.remove(i);
                    proof {
                        lemma_views_remove(vseq, i as int);
                    }
                    Some(p)
                } else {
                    None
                }
            },
            None => None,
        }
    }

    /// Build a cursor from a directory listing: discard entries without a
    /// resolvable file name, sort what remains into import order, and fail
    /// when nothing is left.
    pub fn import_files(entries: Vec<Vec<u8>>) -> (r: Result<Self, ImportError>)
        ensures
            match r {
                Ok(c) => {
                    &&& c.wf()
                    &&& c.index is None
                    &&& c.len == c.items().len()
                    &&& c.items().len() > 0
                    &&& sorted_by(c.items(), key_order())
                    &&& c.items().to_multiset() == usable_of(views_of(entries@)).to_multiset()
                },
                Err(e) => e == ImportError::Empty && usable_of(views_of(entries@)).len() == 0,
            },
    {
        let mut kept: Vec<Vec<u8>> = Vec::new();
        let mut t: usize = 0;
        proof {
            assert(views_of(entries@).subrange(0, 0) =~= Seq::<Seq<u8>>::empty());
            assert(views_of(kept@) =~= Seq::<Seq<u8>>::empty());
            assert(Seq::<Seq<u8>>::empty().filter(usable_pred()) =~= Seq::<Seq<u8>>::empty());
        }
        while t < entries.len()
            invariant
                t <= entries@.len(),
                views_of(kept@) == usable_of(views_of(entries@).subrange(0, t as int)),
            decreases entries@.len() - t,
        {
            let ghost pre = views_of(entries@).subrange(0, t as int);
            let ghost keptpre = kept@;
            let keep = match file_name(&entries[t]) {
                Some(_) => true,
                None => false,
            };
            if keep {
                let item = copy_bytes(&entries[t]);
                kept.push(item);
            }
            proof {
                let cur = views_of(entries@).subrange(0, t + 1);
                assert(cur.drop_last() =~= pre);
                assert(cur.last() == entries@[t as int]@);
                assert(cur =~= pre.push(entries@[t as int]@));
                Seq::<Seq<u8>>::lemma_filter_push(pre, entries@[t as int]@, usable_pred());
                if keep {
                    assert(views_of(kept@) =~= views_of(keptpre).push(entries@[t as int]@));
                } else {
                    assert(views_of(kept@) =~= views_of(keptpre));
                }
            }
            t = t + 1;
        }
        proof {
            assert(views_of(entries@).subrange(0, entries@.len() as int) =~= views_of(entries@));
        }
        if kept.len() == 0 {
            return Err(ImportError::Empty);
        }
        let sorted = sort_paths(kept);
        Ok(Self::new(sorted))
    }
}

} // verus!
