//! Identifier bookkeeping for the page document: a counter that hands out
//! object numbers, the five numbers of the document's own objects, and the
//! table that gives every number of an embedded object graph a fresh one.

use std::collections::HashMap;
use vstd::prelude::*;

verus! {

broadcast use vstd::std_specs::hash::group_hash_axioms;

/// Hands out object numbers in increasing order, each one once. The largest
/// number it hands out is `i32::MAX - 1`.
#[derive(Debug)]
pub struct IdAllocator {
    next: i32,
}

impl IdAllocator {
    #[verifier::type_invariant]
    spec fn valid(self) -> bool {
        self.next >= 1
    }

    /// The number that the next successful `bump` hands out.
    pub closed spec fn next_id(self) -> int {
        self.next as int
    }

    /// A counter that starts at one.
    pub fn new() -> (alloc: IdAllocator)
        ensures
            alloc.next_id() == 1,
    {
        IdAllocator { next: 1 }
    }

    /// A counter that starts at `first`, which must be positive.
    pub fn starting_at(first: i32) -> (alloc: Option<IdAllocator>)
        ensures
            alloc is Some <==> first >= 1,
            alloc is Some ==> alloc->0.next_id() == first,
    {
        if first >= 1 {
            Some(IdAllocator { next: first })
        } else {
            None
        }
    }

    /// The number that the next successful `bump` hands out.
    pub fn peek(&self) -> (id: i32)
        ensures
            id == self.next_id(),
            id >= 1,
    {
        proof {
            use_type_invariant(self);
        }
        self.next
    }

    /// Hands out the next number, or `None` once the numbers have run out.
    pub fn bump(&mut self) -> (id: Option<i32>)
        ensures
            1 <= old(self).next_id() <= i32::MAX,
            old(self).next_id() < i32::MAX ==> id == Some(old(self).next_id() as i32)
                && final(self).next_id() == old(self).next_id() + 1,
            old(self).next_id() == i32::MAX ==> id is None && final(self).next_id() == old(
                self,
            ).next_id(),
    {
        proof {
            use_type_invariant(&*self);
        }
        if self.next < i32::MAX {
            let id: i32 = self.next;
            self.next = id + 1;
            Some(id)
        } else {
            None
        }
    }
}

/// The object numbers of the five objects that every page document holds.
#[derive(Clone, Copy, Debug, PartialEq, Eq)]
pub struct DocumentIds {
    pub catalog: i32,
    pub page_tree: i32,
    pub page: i32,
    pub content: i32,
    pub info: i32,
}

impl DocumentIds {
    /// The five numbers are `first` and the four that follow it, in the order
    /// catalog, page tree, page, content stream, document information.
    pub open spec fn consecutive_from(self, first: int) -> bool {
        &&& self.catalog == first
        &&& self.page_tree == first + 1
        &&& self.page == first + 2
        &&& self.content == first + 3
        &&& self.info == first + 4
    }

    /// Takes five consecutive numbers from the counter, or none at all where
    /// fewer than five are left.
    pub fn reserve(alloc: &mut IdAllocator) -> (ids: Option<DocumentIds>)
        ensures
            match ids {
                Some(d) => d.consecutive_from(old(alloc).next_id()) && final(alloc).next_id()
                    == old(alloc).next_id() + 5,
                None => old(alloc).next_id() + 5 > i32::MAX && final(alloc).next_id() == old(
                    alloc,
                ).next_id(),
            },
    {
        let first: i32 = alloc.peek();
        if first > i32::MAX - 5 {
            return None;
        }
        let catalog = alloc.bump();
        let page_tree = alloc.bump();
        let page = alloc.bump();
        let content = alloc.bump();
        let info = alloc.bump();
        match (catalog, page_tree, page, content, info) {
            (Some(catalog), Some(page_tree), Some(page), Some(content), Some(info)) => Some(
                DocumentIds { catalog, page_tree, page, content, info },
            ),
            _ => None,
        }
    }
}

/// What a renumbering table stands for: the old numbers seen so far with the
/// new number of each, the range of new numbers handed out, and whether the
/// numbers ran out.
pub ghost struct Numbering {
    pub map: Map<i32, i32>,
    pub first: int,
    pub next: int,
    pub exhausted: bool,
}

impl Numbering {
    /// The table before any number was seen, handing out `first` and up.
    pub open spec fn fresh(first: int) -> Numbering {
        Numbering { map: Map::empty(), first, next: first, exhausted: false }
    }

    /// The new numbers are exactly `first .. next`, each given to one old
    /// number.
    pub open spec fn wf(self) -> bool {
        &&& 1 <= self.first <= self.next <= i32::MAX
        &&& self.exhausted ==> self.next == i32::MAX
        &&& self.map.dom().finite()
        &&& self.map.dom().len() == self.next - self.first
        &&& forall|k: i32| #[trigger]
            self.map.contains_key(k) ==> self.first <= self.map[k] < self.next
        &&& forall|j: i32, k: i32|
            #![trigger self.map.contains_key(j), self.map.contains_key(k)]
            self.map.contains_key(j) && self.map.contains_key(k) && self.map[j] == self.map[k]
                ==> j == k
        &&& forall|v: i32| self.first <= v < self.next ==> #[trigger] self.is_new(v)
    }

    /// Whether `v` is the new number of some old number.
    pub open spec fn is_new(self, v: i32) -> bool {
        exists|k: i32| self.map.contains_key(k) && #[trigger] self.map[k] == v
    }

    /// The number that stands for `old_id` once it has been seen: the one it
    /// already has, else the next fresh one, else, where the numbers have run
    /// out, `old_id` itself.
    pub open spec fn image(self, old_id: i32) -> i32 {
        if self.map.contains_key(old_id) {
            self.map[old_id]
        } else if self.next < i32::MAX {
            self.next as i32
        } else {
            old_id
        }
    }

    /// The table after `old_id` was seen.
    pub open spec fn assign(self, old_id: i32) -> Numbering {
        if self.map.contains_key(old_id) {
            self
        } else if self.next < i32::MAX {
            Numbering { map: self.map.insert(old_id, self.next as i32), next: self.next + 1, ..self }
        } else {
            Numbering { exhausted: true, ..self }
        }
    }

    /// The table after the numbers of `ids` were seen, first to last.
    pub open spec fn assign_all(self, ids: Seq<i32>) -> Numbering
        decreases ids.len(),
    {
        if ids.len() == 0 {
            self
        } else {
            self.assign_all(ids.drop_last()).assign(ids.last())
        }
    }

    /// The new numbers of `ids`, one for one.
    pub open spec fn renumbered(self, ids: Seq<i32>) -> Seq<i32> {
        ids.map_values(|id: i32| self.map[id])
    }

    /// Seeing one more number keeps the table well formed, keeps what it
    /// held, and gives that number its image.
    pub proof fn lemma_assign(self, old_id: i32)
        requires
            self.wf(),
        ensures
            self.assign(old_id).wf(),
            self.assign(old_id).first == self.first,
            self.exhausted ==> self.assign(old_id).exhausted,
            forall|k: i32| #[trigger]
                self.map.contains_key(k) ==> self.assign(old_id).map.contains_key(k)
                    && self.assign(old_id).map[k] == self.map[k],
            forall|k: i32| #[trigger]
                self.assign(old_id).map.contains_key(k) ==> self.map.contains_key(k) || k
                    == old_id,
            self.assign(old_id).exhausted == (self.exhausted || (!self.map.contains_key(old_id)
                && self.next == i32::MAX)),
            !self.assign(old_id).exhausted ==> self.assign(old_id).map.contains_key(old_id)
                && self.assign(old_id).map[old_id] == self.image(old_id),
            old_id > 0 ==> self.image(old_id) > 0,
    {
        let after = self.assign(old_id);
        if !self.map.contains_key(old_id) && self.next < i32::MAX {
            assert(after.map.dom() =~= self.map.dom().insert(old_id));
            assert forall|j: i32, k: i32|
                after.map.contains_key(j) && after.map.contains_key(k) && after.map[j]
                    == after.map[k] implies j == k by {
                if j != old_id {
                    assert(self.map.contains_key(j));
                }
                if k != old_id {
                    assert(self.map.contains_key(k));
                }
            }
            assert forall|v: i32| after.first <= v < after.next implies #[trigger] after.is_new(
                v,
            ) by {
                if v < self.next {
                    assert(self.is_new(v));
                    let k = choose|k: i32| self.map.contains_key(k) && #[trigger] self.map[k] == v;
                    assert(after.map.contains_key(k) && after.map[k] == v);
                } else {
                    assert(after.map.contains_key(old_id) && after.map[old_id] == v);
                }
            }
        } else {
            assert forall|v: i32| after.first <= v < after.next implies #[trigger] after.is_new(
                v,
            ) by {
                assert(self.is_new(v));
                let k = choose|k: i32| self.map.contains_key(k) && #[trigger] self.map[k] == v;
                assert(after.map.contains_key(k) && after.map[k] == v);
            }
        }
    }

    /// Seeing a run of numbers keeps the table well formed and keeps what it
    /// held; unless the numbers ran out, every number of the run is then in
    /// the table, and nothing else was added.
    pub proof fn lemma_assign_all(self, ids: Seq<i32>)
        requires
            self.wf(),
        ensures
            self.assign_all(ids).wf(),
            self.assign_all(ids).first == self.first,
            self.next <= self.assign_all(ids).next,
            self.exhausted ==> self.assign_all(ids).exhausted,
            forall|k: i32| #[trigger]
                self.map.contains_key(k) ==> self.assign_all(ids).map.contains_key(k)
                    && self.assign_all(ids).map[k] == self.map[k],
            forall|k: i32| #[trigger]
                self.assign_all(ids).map.contains_key(k) ==> self.map.contains_key(k)
                    || ids.contains(k),
            !self.assign_all(ids).exhausted ==> forall|i: int|
                0 <= i < ids.len() ==> self.assign_all(ids).map.contains_key(#[trigger] ids[i]),
            self.assign_all(ids).exhausted && !self.exhausted ==> exists|i: int|
                0 <= i < ids.len() && !self.assign_all(ids).map.contains_key(#[trigger] ids[i]),
        decreases ids.len(),
    {
        if ids.len() > 0 {
            let front = ids.drop_last();
            let mid = self.assign_all(front);
            let after = mid.assign(ids.last());
            self.lemma_assign_all(front);
            mid.lemma_assign(ids.last());
            assert forall|k: i32| #[trigger] after.map.contains_key(k) implies self.map.contains_key(
                k,
            ) || ids.contains(k) by {
                if k == ids.last() {
                    assert(ids[ids.len() - 1] == k);
                } else {
                    assert(mid.map.contains_key(k));
                    if !self.map.contains_key(k) {
                        let i = choose|i: int| 0 <= i < front.len() && front[i] == k;
                        assert(ids[i] == k);
                    }
                }
            }
            if !after.exhausted {
                assert forall|i: int| 0 <= i < ids.len() implies after.map.contains_key(
                    #[trigger] ids[i],
                ) by {
                    if i < ids.len() - 1 {
                        assert(front[i] == ids[i]);
                        assert(mid.map.contains_key(front[i]));
                    }
                }
            }
            if after.exhausted && !self.exhausted {
                if mid.exhausted {
                    let i = choose|i: int|
                        0 <= i < front.len() && !mid.map.contains_key(#[trigger] front[i]);
                    assert(ids[i] == front[i]);
                    assert(after.map == mid.map);
                    assert(!after.map.contains_key(ids[i]));
                } else {
                    assert(!after.map.contains_key(ids[ids.len() - 1]));
                }
            }
        }
    }
}

/// Whether `v` is one of the numbers in use after a merge that started from
/// `first`, with `reserved` numbers held back before it: a reserved number or
/// the new number of an old one.
pub open spec fn in_use(table: Numbering, reserved: int, v: int) -> bool {
    table.first - reserved <= v < table.first || (i32::MIN <= v <= i32::MAX && table.is_new(
        v as i32,
    ))
}

/// Renumbering an object graph is a relabeling. Let the graph mention `n`
/// distinct numbers. The fresh numbers run out exactly where `first + n`
/// passes the largest number. Otherwise the table holds exactly the numbers
/// of the graph, the new numbers are exactly the `n` numbers from `first` on,
/// and two mentions get the same new number exactly where they were the same
/// old number, so every reference of the graph joins the same two objects as
/// before.
pub proof fn lemma_merge_is_relabeling(ids: Seq<i32>, first: int)
    requires
        1 <= first <= i32::MAX,
    ensures
        ({
            let table = Numbering::fresh(first).assign_all(ids);
            let n = ids.to_set().len();
            &&& table.wf()
            &&& table.exhausted <==> first + n > i32::MAX
            &&& !table.exhausted ==> {
                &&& table.map.dom() == ids.to_set()
                &&& table.next == first + n
                &&& forall|v: i32| first <= v < first + n <==> #[trigger] table.is_new(v)
                &&& forall|i: int, j: int|
                    0 <= i < ids.len() && 0 <= j < ids.len() ==> (table.renumbered(ids)[i]
                        == table.renumbered(ids)[j] <==> ids[i] == ids[j])
            }
        }),
{
    let start = Numbering::fresh(first);
    let table = start.assign_all(ids);
    let n = ids.to_set().len();
    assert(start.map.dom() =~= Set::<i32>::empty());
    assert(start.wf());
    start.lemma_assign_all(ids);
    vstd::seq_lib::seq_to_set_is_finite(ids);
    assert forall|k: i32| table.map.contains_key(k) implies ids.to_set().contains(k) by {}
    if table.exhausted {
        let i = choose|i: int| 0 <= i < ids.len() && !table.map.contains_key(#[trigger] ids[i]);
        let wider = table.map.dom().insert(ids[i]);
        assert(ids.contains(ids[i]));
        assert(wider.subset_of(ids.to_set()));
        vstd::set_lib::lemma_len_subset(wider, ids.to_set());
    } else {
        assert forall|k: i32| ids.to_set().contains(k) implies table.map.contains_key(k) by {
            let i = choose|i: int| 0 <= i < ids.len() && ids[i] == k;
            assert(table.map.contains_key(ids[i]));
        }
        assert(table.map.dom() =~= ids.to_set());
        assert forall|v: i32| #[trigger] table.is_new(v) implies first <= v < first + n by {
            let k = choose|k: i32| table.map.contains_key(k) && #[trigger] table.map[k] == v;
        }
        assert forall|i: int, j: int| 0 <= i < ids.len() && 0 <= j < ids.len() implies (
        table.renumbered(ids)[i] == table.renumbered(ids)[j] <==> ids[i] == ids[j]) by {
            assert(table.map.contains_key(ids[i]));
            assert(table.map.contains_key(ids[j]));
        }
    }
}

/// A page document whose embedded graph mentions `n` distinct numbers uses
/// exactly `n + 5` object numbers, one for each of its five own objects and
/// one for each number of the graph: the numbers from 1 to `n + 5`.
pub proof fn lemma_document_numbers(ids: Seq<i32>)
    requires
        !Numbering::fresh(6).assign_all(ids).exhausted,
    ensures
        ({
            let table = Numbering::fresh(6).assign_all(ids);
            let n = ids.to_set().len();
            let used = Set::new(|v: int| in_use(table, 5, v));
            &&& used == vstd::set_lib::set_int_range(1, 6 + n as int)
            &&& used.finite()
            &&& used.len() == n + 5
        }),
{
    let table = Numbering::fresh(6).assign_all(ids);
    let n = ids.to_set().len();
    let used = Set::new(|v: int| in_use(table, 5, v));
    lemma_merge_is_relabeling(ids, 6);
    assert forall|v: int| used.contains(v) <==> 1 <= v < 6 + n by {
        if 6 <= v < 6 + n {
            assert(table.is_new(v as i32));
        }
    }
    assert(used =~= vstd::set_lib::set_int_range(1, 6 + n as int));
    vstd::set_lib::lemma_int_range(1, 6 + n as int);
}

/// The renumbering table of one merge: gives each old object number a fresh
/// number on first sight and the same number ever after.
#[derive(Debug)]
pub struct Renumbering {
    map: HashMap<i32, i32>,
    first: i32,
    next: i32,
    exhausted: bool,
}

impl View for Renumbering {
    type V = Numbering;

    closed spec fn view(&self) -> Numbering {
        Numbering {
            map: self.map@,
            first: self.first as int,
            next: self.next as int,
            exhausted: self.exhausted,
        }
    }
}

impl Renumbering {
    /// An empty table that takes its fresh numbers from where `alloc` stands.
    pub fn new(alloc: IdAllocator) -> (table: Renumbering)
        ensures
            table@ == Numbering::fresh(alloc.next_id()),
            table@.wf(),
    {
        let first: i32 = alloc.peek();
        let table = Renumbering { map: HashMap::new(), first, next: first, exhausted: false };
        assert(table@.map =~= Map::empty());
        table
    }

    /// The new number of `old_id`: the one it was given before, else a fresh
    /// one. Once the numbers have run out, an unseen `old_id` comes back
    /// unchanged and the table records the failure.
    pub fn assign(&mut self, old_id: i32) -> (new_id: i32)
        requires
            old(self)@.wf(),
        ensures
            final(self)@ == old(self)@.assign(old_id),
            final(self)@.wf(),
            new_id == old(self)@.image(old_id),
            old_id > 0 ==> new_id > 0,
    {
        proof {
            self@.lemma_assign(old_id);
        }
        let known: Option<i32> = match self.map.get(&old_id) {
            Some(id) => Some(*id),
            None => None,
        };
        match known {
            Some(id) => id,
            None => {
                if self.next < i32::MAX {
                    let id: i32 = self.next;
                    self.map.insert(old_id, id);
                    self.next = id + 1;
                    id
                } else {
                    self.exhausted = true;
                    old_id
                }
            },
        }
    }

    /// The new number that `old_id` was given, if it was seen.
    pub fn resolve(&self, old_id: i32) -> (new_id: Option<i32>)
        ensures
            new_id == (if self@.map.contains_key(old_id) {
                Some(self@.map[old_id])
            } else {
                None
            }),
    {
        match self.map.get(&old_id) {
            Some(id) => Some(*id),
            None => None,
        }
    }

    /// Whether a number was refused because the fresh numbers had run out.
    pub fn is_exhausted(&self) -> (exhausted: bool)
        ensures
            exhausted == self@.exhausted,
    {
        self.exhausted
    }

    /// How many old numbers have a new one.
    pub fn len(&self) -> (n: usize)
        requires
            self@.wf(),
        ensures
            n == self@.map.dom().len(),
            n == self@.next - self@.first,
    {
        self.map.len()
    }
}

} // verus!
