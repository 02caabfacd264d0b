use crate::toots::{Toot, TootView};
use vstd::prelude::*;

verus! {

/// No two items share an id.
pub open spec fn ids_distinct(items: Seq<TootView>) -> bool {
    forall|i: int, j: int|
        0 <= i < items.len() && 0 <= j < items.len() && i != j ==> items[i].id != items[j].id
}

/// Some item has the id `id`.
pub open spec fn has_id(items: Seq<TootView>, id: Seq<char>) -> bool {
    exists|i: int| 0 <= i < items.len() && items[i].id == id
}

/// Some item is not served yet.
pub open spec fn has_unserved(items: Seq<TootView>) -> bool {
    exists|i: int| 0 <= i < items.len() && !items[i].served
}

/// `t` marked as served.
pub open spec fn served_copy(t: TootView) -> TootView {
    TootView { id: t.id, content: t.content, created_at: t.created_at, served: true }
}

/// Every item whose content is `content` marked as served; the others as they were.
pub open spec fn mark_content(items: Seq<TootView>, content: Seq<char>) -> Seq<TootView> {
    Seq::new(
        items.len(),
        |i: int|
            if items[i].content == content {
                served_copy(items[i])
            } else {
                items[i]
            },
    )
}

/// `new` keeps every item of `old` at its place with its id, content and
/// creation time, and no served item becomes unserved.
pub open spec fn items_kept(old: Seq<TootView>, new: Seq<TootView>) -> bool {
    &&& old.len() <= new.len()
    &&& forall|i: int|
        0 <= i < old.len() ==> {
            &&& #[trigger] new[i].id == old[i].id
            &&& new[i].content == old[i].content
            &&& new[i].created_at == old[i].created_at
            &&& (old[i].served ==> new[i].served)
        }
}

/// What a claim does: with no unserved item it returns nothing and changes
/// nothing; otherwise it returns the content of some unserved item and marks
/// that item's whole content group as served.
pub open spec fn claim_post(old: Seq<TootView>, new: Seq<TootView>, r: Option<Seq<char>>) -> bool {
    match r {
        None => !has_unserved(old) && new == old,
        Some(c) => {
            &&& exists|i: int| 0 <= i < old.len() && !old[i].served && old[i].content == c
            &&& new == mark_content(old, c)
        },
    }
}

/// The characters of an optional string.
pub open spec fn opt_view(r: Option<String>) -> Option<Seq<char>> {
    match r {
        Some(s) => Some(s@),
        None => None,
    }
}

/// The cache of posts: one item per id, in order of first sighting.
pub struct Store {
    items: Vec<Toot>,
}

impl View for Store {
    type V = Seq<TootView>;

    closed spec fn view(&self) -> Seq<TootView> {
        self.items@.map_values(|t: Toot| t@)
    }
}

impl Store {
    /// Well-formed: one item per id.
    pub open spec fn wf(&self) -> bool {
        ids_distinct(self@)
    }

    /// An empty store.
    pub fn new() -> (r: Store)
        ensures
            r.wf(),
            r@ == Seq::<TootView>::empty(),
    {
        let r = Store { items: Vec::new() };
        assert(r@ =~= Seq::<TootView>::empty());
        r
    }

    /// The items, in order of insertion.
    pub fn items(&self) -> (r: &Vec<Toot>)
        ensures
            r@.map_values(|t: Toot| t@) == self@,
    {
        &self.items
    }

    /// Number of items held.
    pub fn len(&self) -> (r: usize)
        ensures
            r == self@.len(),
    {
        self.items.len()
    }

    /// Whether an item with this id is held.
    pub fn contains_id(&self, id: &String) -> (r: bool)
        ensures
            r == has_id(self@, id@),
    {
        let mut i: usize = 0;
        while i < self.items.len()
            invariant
                i <= self@.len(),
                self@.len() == self.items@.len(),
                forall|k: int| 0 <= k < i ==> self@[k].id != id@,
            decreases self.items.len() - i,
        {
            if self.items[i].id == *id {
                assert(self@[i as int].id == id@);
                return true;
            }
            i += 1;
        }
        false
    }

    /// Number of items marked as served.
    pub fn served_count(&self) -> (r: usize)
        ensures
            r == self@.filter(|t: TootView| t.served).len(),
    {
        let ghost all = self@;
        let mut n: usize = 0;
        let mut i: usize = 0;
        while i < self.items.len()
            invariant
                i <= all.len(),
                all == self@,
                all.len() == self.items@.len(),
                n == all.take(i as int).filter(|t: TootView| t.served).len(),
                n <= i,
            decreases self.items.len() - i,
        {
            proof {
                assert(all.take(i as int + 1).drop_last() =~= all.take(i as int));
                reveal(Seq::filter);
            }
            if self.items[i].served {
                n += 1;
            }
            i += 1;
        }
        assert(all.take(i as int) =~= all);
        n
    }

    /// Inserts `item` unless an item with its id is already held; an item
    /// already held keeps its content and served state. Returns whether it
    /// inserted.
    pub fn upsert_if_absent(&mut self, item: Toot) -> (r: bool)
        requires
            old(self).wf(),
        ensures
            final(self).wf(),
            r == !has_id(old(self)@, item.id@),
            r ==> final(self)@ == old(self)@.push(item@),
            !r ==> final(self)@ == old(self)@,
            items_kept(old(self)@, final(self)@),
    {
        if self.contains_id(&item.id) {
            return false;
        }
        let ghost v = item@;
        self.items.push(item);
        assert(self@ =~= old(self)@.push(v));
        true
    }

    /// Claims one unserved item: marks it and every item with the same content as
    /// served and returns that content; returns `None`, changing nothing, where
    /// every item is served.
    pub fn take_next_unserved(&mut self) -> (r: Option<String>)
        requires
            old(self).wf(),
        ensures
            final(self).wf(),
            claim_post(old(self)@, final(self)@, opt_view(r)),
            r is None <==> !has_unserved(old(self)@),
            r matches Some(c) ==> forall|i: int|
                0 <= i < final(self)@.len() && #[trigger] final(self)@[i].content == c@
                    ==> final(self)@[i].served,
            items_kept(old(self)@, final(self)@),
    {
        let ghost old_items = self@;
        let n = self.items.len();
        let mut k: usize = 0;
        while k < n && self.items[k].served
            invariant
                k <= n,
                n == self.items@.len(),
                self@ == old_items,
                forall|m: int| 0 <= m < k ==> old_items[m].served,
            decreases n - k,
        {
            k += 1;
        }
        if k == n {
            return None;
        }
        let c = self.items[k].content.clone();
        assert(!old_items[k as int].served && old_items[k as int].content == c@);
        let mut j: usize = 0;
        while j < n
            invariant
                j <= n,
                n == self.items@.len(),
                old_items.len() == n,
                forall|m: int| 0 <= m < j ==> self@[m] == mark_content(old_items, c@)[m],
                forall|m: int| j <= m < n ==> self@[m] == old_items[m],
            decreases n - j,
        {
            if self.items[j].content == c {
                let t = Toot {
                    id: self.items[j].id.clone(),
                    content: self.items[j].content.clone(),
                    created_at: self.items[j].created_at,
                    served: true,
                };
                let ghost before = self@;
                self.items.set(j, t);
                assert(self@ =~= before.update(j as int, served_copy(before[j as int])));
            }
            j += 1;
        }
        assert(self@ =~= mark_content(old_items, c@));
        Some(c)
    }
}

} // verus!

verus! {

/// A claimed content group is not handed out again: right after a claim returns
/// some content, the next claim on the store it left returns other content or
/// nothing, so two callers served one after the other never both get it.
pub proof fn lemma_claim_not_repeated(
    s0: Seq<TootView>,
    s1: Seq<TootView>,
    s2: Seq<TootView>,
    c: Seq<char>,
    r: Option<Seq<char>>,
)
    requires
        claim_post(s0, s1, Some(c)),
        claim_post(s1, s2, r),
    ensures
        r != Some(c),
{
    if r == Some(c) {
        let i = choose|i: int| 0 <= i < s1.len() && !s1[i].served && s1[i].content == c;
        assert(s1[i] == served_copy(s0[i]));
    }
}

/// A claim marks every item of the claimed content group as served, and leaves
/// the items of other groups as they were.
pub proof fn lemma_claim_marks_group(s0: Seq<TootView>, s1: Seq<TootView>, c: Seq<char>)
    requires
        claim_post(s0, s1, Some(c)),
    ensures
        forall|i: int| 0 <= i < s1.len() && s0[i].content == c ==> #[trigger] s1[i].served,
        forall|i: int| 0 <= i < s1.len() && s0[i].content != c ==> #[trigger] s1[i] == s0[i],
{
}

} // verus!
