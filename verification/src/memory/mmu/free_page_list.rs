//! The free pages of the system: a doubly-linked list of page frames, sorted
//! by address, whose links are the records that the free frames themselves
//! hold. Nothing here is synchronised; the memory manager serialises access.

use vstd::prelude::*;
use std::collections::HashMap;
use crate::memory::PAGE_SIZE;
use crate::memory::kernel::KernelMemoryLayout;
use crate::memory::memory_device::SystemMemory;

verus! {

broadcast use vstd::std_specs::hash::group_hash_axioms;

/// The record that a free page frame holds about itself.
#[derive(Clone, Copy, PartialEq, Eq, Structural, Debug)]
pub struct FreeMemoryPage {
    /// Physical address of the frame.
    pub address: u64,
    /// Address of the free frame before this one, if any.
    pub prev_page: Option<u64>,
    /// Address of the free frame after this one, if any.
    pub next_page: Option<u64>,
}

impl FreeMemoryPage {
    /// The record of the frame at `address`, with the given neighbours.
    pub fn new(address: u64, prev_page: Option<u64>, next_page: Option<u64>) -> (page: Self)
        requires
            address % 4096 == 0,
        ensures
            page == (FreeMemoryPage {
                address: address,
                prev_page: prev_page,
                next_page: next_page,
            }),
    {
        FreeMemoryPage { address, prev_page, next_page }
    }

    /// Wipes the record, so that a frame that leaves the list carries no
    /// stale links with it.
    pub fn clear(&mut self)
        ensures
            *final(self) == (FreeMemoryPage { address: 0, prev_page: None, next_page: None }),
    {
        self.address = 0;
        self.prev_page = None;
        self.next_page = None;
    }
}

/// The record that the frame at position `i` of the sorted sequence `s`
/// holds: its own address and those of its neighbours.
pub open spec fn linked(s: Seq<u64>, i: int) -> FreeMemoryPage {
    FreeMemoryPage {
        address: s[i],
        prev_page: if i == 0 {
            None
        } else {
            Some(s[i - 1])
        },
        next_page: if i == s.len() - 1 {
            None
        } else {
            Some(s[i + 1])
        },
    }
}

/// Whether `count` frames from position `i` of `s` on lie one after the
/// other in memory.
pub open spec fn run_at(s: Seq<u64>, i: int, count: int) -> bool {
    &&& 0 <= i
    &&& i + count <= s.len()
    &&& forall|j: int| 0 <= j < count ==> #[trigger] s[i + j] == s[i] + j * 4096
}

/// The free page frames, in ascending order of address.
pub struct FreePageList {
    first_page: Option<u64>,
    last_page: Option<u64>,
    pages: HashMap<u64, FreeMemoryPage>,
    order: Ghost<Seq<u64>>,
}

impl View for FreePageList {
    type V = Seq<u64>;

    /// The addresses of the free frames, from the head of the list on.
    closed spec fn view(&self) -> Seq<u64> {
        self.order@
    }
}

impl FreePageList {
    /// Address of the head of the list.
    pub closed spec fn first(&self) -> Option<u64> {
        self.first_page
    }

    /// Address of the tail of the list.
    pub closed spec fn last(&self) -> Option<u64> {
        self.last_page
    }

    /// Whether the frame at `address` holds a record of this list.
    pub closed spec fn has_record(&self, address: u64) -> bool {
        self.pages@.contains_key(address)
    }

    /// The record that the frame at `address` holds.
    pub closed spec fn record(&self, address: u64) -> FreeMemoryPage {
        self.pages@[address]
    }

    /// Whether the frame at `address` is free.
    pub open spec fn contains(&self, address: u64) -> bool {
        self@.contains(address)
    }

    /// What holds of the list after every operation: the frames that hold a
    /// record are those of the list; addresses rise strictly from head to
    /// tail; every frame is page-aligned and records its own address and
    /// its two neighbours, so that the head has no predecessor, the tail no
    /// successor, and each frame is the predecessor of its successor.
    pub open spec fn wf(&self) -> bool {
        let s = self@;
        &&& forall|address: u64| self.has_record(address) <==> s.contains(address)
        &&& forall|i: int, j: int| 0 <= i < j < s.len() ==> s[i] < s[j]
        &&& forall|i: int| 0 <= i < s.len() ==> #[trigger] s[i] % 4096 == 0
        &&& forall|i: int| 0 <= i < s.len() ==> #[trigger] self.record(s[i]) == linked(s, i)
        &&& self.first() == if s.len() == 0 {
            None
        } else {
            Some(s[0])
        }
        &&& self.last() == if s.len() == 0 {
            None
        } else {
            Some(s[s.len() - 1])
        }
    }

    /// The empty list.
    pub fn new() -> (list: Self)
        ensures
            list.wf(),
            list@ == Seq::<u64>::empty(),
    {
        FreePageList {
            first_page: None,
            last_page: None,
            pages: HashMap::new(),
            order: Ghost(Seq::empty()),
        }
    }

    /// Whether no frame is free.
    pub fn is_empty(&self) -> (empty: bool)
        requires
            self.wf(),
        ensures
            empty == (self@.len() == 0),
    {
        self.first_page.is_none()
    }

    /// The number of free frames.
    pub fn len(&self) -> (count: usize)
        requires
            self.wf(),
        ensures
            count == self@.len(),
    {
        proof {
            self.lemma_record_count();
        }
        self.pages.len()
    }

    /// The addresses of the free frames, from the head of the list on.
    pub fn addresses(&self) -> (addresses: Vec<u64>)
        requires
            self.wf(),
        ensures
            addresses@ == self@,
    {
        let mut addresses: Vec<u64> = Vec::new();
        let mut current = self.first_page;
        let ghost s = self@;
        while current.is_some()
            invariant
                self.wf(),
                s == self@,
                addresses@.len() <= s.len(),
                addresses@ == s.subrange(0, addresses@.len() as int),
                current == if addresses@.len() == s.len() {
                    None
                } else {
                    Some(s[addresses@.len() as int])
                },
            decreases s.len() - addresses@.len(),
        {
            let address = current.unwrap();
            let ghost i = addresses@.len() as int;
            assert(s.contains(s[i]));
            let node = *self.pages.get(&address).unwrap();
            assert(self.record(s[i]) == linked(s, i));
            assert(node == linked(s, i));
            addresses.push(address);
            current = node.next_page;
            assert(addresses@ == s.subrange(0, i + 1));
        }
        assert(s.subrange(0, s.len() as int) == s);
        addresses
    }

    /// The records are as many as the frames of the list.
    proof fn lemma_record_count(&self)
        requires
            self.wf(),
        ensures
            self.pages@.dom().finite(),
            self.pages@.dom().len() == self@.len(),
    {
        let s = self@;
        assert(s.no_duplicates());
        s.unique_seq_to_set();
        assert(self.pages@.dom() =~= s.to_set());
    }

    /// Whether the frame at `address` is free.
    pub fn is_free(&self, address: u64) -> (free: bool)
        requires
            self.wf(),
        ensures
            free == self.contains(address),
    {
        self.pages.contains_key(&address)
    }

    /// Puts a frame before the head of the list. Its address must lie below
    /// that of the head.
    pub fn add_free_page_to_beginning(&mut self, page: FreeMemoryPage)
        requires
            old(self).wf(),
            page.address % 4096 == 0,
            old(self)@.len() > 0 ==> page.address < old(self)@[0],
        ensures
            final(self).wf(),
            final(self)@ == seq![page.address] + old(self)@,
    {
        let address = page.address;
        let ghost s = self@;
        let ghost t = seq![address] + s;
        if self.is_empty() {
            self.pages.insert(address, FreeMemoryPage { address, prev_page: None, next_page: None });
            self.first_page = Some(address);
            self.last_page = Some(address);
        } else {
            let first_address = self.first_page.unwrap();
            assert(s.contains(s[0]));
            let mut first_node = *self.pages.get(&first_address).unwrap();
            assert(self.record(s[0]) == linked(s, 0));
            assert(first_node == linked(s, 0));
            first_node.prev_page = Some(address);
            self.pages.insert(first_address, first_node);
            self.pages.insert(
                address,
                FreeMemoryPage { address, prev_page: None, next_page: Some(first_address) },
            );
            self.first_page = Some(address);
        }
        self.order = Ghost(t);
        proof {
            assert forall|x: u64| self.has_record(x) <==> t.contains(x) by {
                if s.contains(x) {
                    let i = choose|i: int| 0 <= i < s.len() && s[i] == x;
                    assert(t[i + 1] == x);
                }
                if x == address {
                    assert(t[0] == x);
                }
                if t.contains(x) {
                    let i = choose|i: int| 0 <= i < t.len() && t[i] == x;
                    if i > 0 {
                        assert(s[i - 1] == x);
                    }
                }
            }
            assert forall|i: int, j: int| 0 <= i < j < t.len() implies t[i] < t[j] by {
                if i == 0 {
                    assert(t[j] == s[j - 1]);
                    assert(s[0] <= s[j - 1]);
                } else {
                    assert(t[i] == s[i - 1] && t[j] == s[j - 1]);
                }
            }
            assert forall|i: int| 0 <= i < t.len() implies #[trigger] self.record(t[i]) == linked(
                t,
                i,
            ) by {
                if i >= 1 {
                    assert(t[i] == s[i - 1]);
                    assert(old(self).record(s[i - 1]) == linked(s, i - 1));
                    if i >= 2 {
                        assert(s[0] < s[i - 1]);
                    }
                }
            }
            assert forall|i: int| 0 <= i < t.len() implies #[trigger] t[i] % 4096 == 0 by {
                if i >= 1 {
                    assert(t[i] == s[i - 1]);
                }
            }
        }
    }

    /// Puts a frame after the tail of the list. Its address must lie above
    /// that of the tail.
    pub fn add_free_page_to_end(&mut self, page: FreeMemoryPage)
        requires
            old(self).wf(),
            page.address % 4096 == 0,
            old(self)@.len() > 0 ==> old(self)@[old(self)@.len() - 1] < page.address,
        ensures
            final(self).wf(),
            final(self)@ == old(self)@.push(page.address),
    {
        let address = page.address;
        let ghost s = self@;
        let ghost t = s.push(address);
        if self.is_empty() {
            self.pages.insert(address, FreeMemoryPage { address, prev_page: None, next_page: None });
            self.first_page = Some(address);
            self.last_page = Some(address);
        } else {
            let last_address = self.last_page.unwrap();
            assert(s.contains(s[s.len() - 1]));
            let mut last_node = *self.pages.get(&last_address).unwrap();
            assert(self.record(s[s.len() - 1]) == linked(s, s.len() - 1));
            assert(last_node == linked(s, s.len() - 1));
            last_node.next_page = Some(address);
            self.pages.insert(last_address, last_node);
            self.pages.insert(
                address,
                FreeMemoryPage { address, prev_page: Some(last_address), next_page: None },
            );
            self.last_page = Some(address);
        }
        self.order = Ghost(t);
        proof {
            assert forall|x: u64| self.has_record(x) <==> t.contains(x) by {
                if s.contains(x) {
                    let i = choose|i: int| 0 <= i < s.len() && s[i] == x;
                    assert(t[i] == x);
                }
                if x == address {
                    assert(t[s.len() as int] == x);
                }
                if t.contains(x) {
                    let i = choose|i: int| 0 <= i < t.len() && t[i] == x;
                    if i < s.len() {
                        assert(s[i] == x);
                    }
                }
            }
            assert forall|i: int, j: int| 0 <= i < j < t.len() implies t[i] < t[j] by {
                if j == s.len() {
                    assert(s[i] <= s[s.len() - 1]);
                }
            }
            assert forall|i: int| 0 <= i < t.len() implies #[trigger] self.record(t[i]) == linked(
                t,
                i,
            ) by {
                if i < s.len() {
                    assert(old(self).record(s[i]) == linked(s, i));
                    if i < s.len() - 1 {
                        assert(s[i] < s[s.len() - 1]);
                    }
                }
            }
        }
    }

    /// Whether `page` belongs before the head of the list. The frame must
    /// not be the head itself.
    pub fn is_page_at_beginning(&self, page: FreeMemoryPage) -> (at_beginning: bool)
        requires
            self.wf(),
            !self.contains(page.address),
        ensures
            at_beginning == (self@.len() > 0 && page.address < self@[0]),
    {
        if let Some(first_address) = self.first_page {
            assert(self@.contains(self@[0]));
            return first_address > page.address;
        }
        false
    }

    /// Whether `page` belongs after the tail of the list. The frame must not
    /// be the tail itself.
    pub fn is_page_at_end(&self, page: FreeMemoryPage) -> (at_end: bool)
        requires
            self.wf(),
            !self.contains(page.address),
        ensures
            at_end == (self@.len() > 0 && self@[self@.len() - 1] < page.address),
    {
        if let Some(last_address) = self.last_page {
            assert(self@.contains(self@[self@.len() - 1]));
            return last_address < page.address;
        }
        false
    }

    /// The frame after which `new_page` belongs: the first frame of the list
    /// that is the tail or whose successor lies above `new_page`. An empty
    /// list has none.
    pub fn find_insertion_point(&self, new_page: FreeMemoryPage) -> (parent: Option<
        FreeMemoryPage,
    >)
        requires
            self.wf(),
        ensures
            parent is None <==> self@.len() == 0,
            parent matches Some(node) ==> exists|i: int|
                {
                    &&& 0 <= i < self@.len()
                    &&& node == #[trigger] linked(self@, i)
                    &&& i < self@.len() - 1 ==> self@[i + 1] > new_page.address
                    &&& forall|j: int| 1 <= j <= i ==> #[trigger] self@[j] <= new_page.address
                },
    {
        if self.is_empty() {
            return None;
        }
        let ghost s = self@;
        let new_page_address = new_page.address;
        let mut current_address = self.first_page.unwrap();
        let ghost mut i: int = 0;
        loop
            invariant
                self.wf(),
                s == self@,
                0 <= i < s.len(),
                current_address == s[i],
                forall|j: int| 1 <= j <= i ==> #[trigger] s[j] <= new_page_address,
                new_page_address == new_page.address,
            decreases s.len() - i,
        {
            assert(s.contains(s[i]));
            let current_node = *self.pages.get(&current_address).unwrap();
            assert(self.record(s[i]) == linked(s, i));
            assert(current_node == linked(s, i));
            match current_node.next_page {
                Some(next_address) => {
                    if next_address > new_page_address {
                        assert(s[i + 1] > new_page.address);
                        return Some(current_node);
                    }
                    current_address = next_address;
                    proof {
                        i = i + 1;
                    }
                },
                None => {
                    return Some(current_node);
                },
            }
        }
    }

    /// Puts a frame into the list, at the place that its address gives it.
    /// The frame must not be in the list already.
    pub fn insert_page(&mut self, new_page: FreeMemoryPage)
        requires
            old(self).wf(),
            new_page.address % 4096 == 0,
            !old(self).contains(new_page.address),
        ensures
            final(self).wf(),
            forall|address: u64|
                final(self).contains(address) <==> (old(self).contains(address) || address
                    == new_page.address),
            final(self)@.len() == old(self)@.len() + 1,
            exists|k: int|
                0 <= k <= old(self)@.len() && #[trigger] final(self)@ == old(self)@.insert(
                    k,
                    new_page.address,
                ),
    {
        let ghost s = self@;
        let address = new_page.address;
        if self.is_empty() {
            self.add_free_page_to_end(new_page);
            proof {
                assert(self@ == s.insert(0, address));
                lemma_insert_contains(s, 0, address);
            }
            return ;
        }
        if self.is_page_at_end(new_page) {
            self.add_free_page_to_end(new_page);
            proof {
                assert(self@ == s.insert(s.len() as int, address));
                lemma_insert_contains(s, s.len() as int, address);
            }
            return ;
        }
        if self.is_page_at_beginning(new_page) {
            self.add_free_page_to_beginning(new_page);
            proof {
                assert(self@ == s.insert(0, address));
                lemma_insert_contains(s, 0, address);
            }
            return ;
        }
        let parent = self.find_insertion_point(new_page).unwrap();
        let ghost i = choose|i: int|
            {
                &&& 0 <= i < s.len()
                &&& parent == #[trigger] linked(s, i)
                &&& i < s.len() - 1 ==> s[i + 1] > address
                &&& forall|j: int| 1 <= j <= i ==> #[trigger] s[j] <= address
            };
        proof {
            assert(s.contains(s[0]));
            assert(s.contains(s[s.len() - 1]));
            assert(s[0] < address);
            assert(address < s[s.len() - 1]);
            if i > 0 {
                assert(s[i] <= address);
            }
            assert(s.contains(s[i]));
            assert(s[i] < address);
            assert(i < s.len() - 1);
            assert(s.contains(s[i + 1]));
        }
        self.insert_after(new_page, parent, Ghost(i));
        proof {
            lemma_insert_contains(s, i + 1, address);
        }
    }

    /// Links a frame into the list between the frame at position `i` and
    /// its successor.
    fn insert_after(
        &mut self,
        new_page: FreeMemoryPage,
        parent: FreeMemoryPage,
        Ghost(i): Ghost<int>,
    )
        requires
            old(self).wf(),
            new_page.address % 4096 == 0,
            0 <= i < old(self)@.len() - 1,
            parent == linked(old(self)@, i),
            old(self)@[i] < new_page.address < old(self)@[i + 1],
        ensures
            final(self).wf(),
            final(self)@ == old(self)@.insert(i + 1, new_page.address),
    {
        let ghost s = self@;
        let address = new_page.address;
        proof {
            assert(s.contains(s[i]));
            assert(s.contains(s[i + 1]));
        }
        let parent_address = parent.address;
        let next_address = parent.next_page.unwrap();
        let mut parent_node = parent;
        parent_node.next_page = Some(address);
        let mut next_node = *self.pages.get(&next_address).unwrap();
        assert(self.record(s[i + 1]) == linked(s, i + 1));
        assert(next_node == linked(s, i + 1));
        next_node.prev_page = Some(address);
        self.pages.insert(parent_address, parent_node);
        self.pages.insert(next_address, next_node);
        self.pages.insert(
            address,
            FreeMemoryPage { address, prev_page: Some(parent_address), next_page: Some(next_address) },
        );
        let ghost t = s.insert(i + 1, address);
        self.order = Ghost(t);
        proof {
            lemma_insert_contains(s, i + 1, address);
            assert forall|x: u64| self.has_record(x) <==> t.contains(x) by {
                assert(old(self).has_record(x) <==> s.contains(x));
            }
            assert forall|a: int, b: int| 0 <= a < b < t.len() implies t[a] < t[b] by {
                if b <= i {
                    assert(t[a] == s[a] && t[b] == s[b]);
                } else if b == i + 1 {
                    assert(t[a] == s[a]);
                    assert(s[a] <= s[i]);
                } else if a <= i {
                    assert(t[a] == s[a] && t[b] == s[b - 1]);
                    assert(s[a] <= s[i] && s[i + 1] <= s[b - 1]);
                } else if a == i + 1 {
                    assert(t[b] == s[b - 1]);
                    assert(s[i + 1] <= s[b - 1]);
                } else {
                    assert(t[a] == s[a - 1] && t[b] == s[b - 1]);
                }
            }
            assert forall|k: int| 0 <= k < t.len() implies #[trigger] self.record(t[k]) == linked(
                t,
                k,
            ) by {
                if k < i {
                    assert(t[k] == s[k]);
                    assert(old(self).record(s[k]) == linked(s, k));
                    assert(s[k] < s[i] && s[k] < s[i + 1]);
                } else if k == i {
                    assert(t[k] == s[i]);
                    assert(s[i] < s[i + 1]);
                } else if k == i + 1 {
                } else if k == i + 2 {
                    assert(t[k] == s[i + 1]);
                    assert(s[i] < s[i + 1]);
                } else {
                    assert(t[k] == s[k - 1]);
                    assert(old(self).record(s[k - 1]) == linked(s, k - 1));
                    assert(s[i] < s[k - 1] && s[i + 1] < s[k - 1]);
                }
            }
            assert forall|k: int| 0 <= k < t.len() implies #[trigger] t[k] % 4096 == 0 by {
                if k <= i {
                    assert(t[k] == s[k]);
                } else if k > i + 1 {
                    assert(t[k] == s[k - 1]);
                }
            }
        }
    }

    /// Takes the head off the list. The record that comes back is that of
    /// the frame alone, with no links. An empty list gives none.
    pub fn remove_page(&mut self) -> (page: Option<FreeMemoryPage>)
        requires
            old(self).wf(),
        ensures
            final(self).wf(),
            old(self)@.len() == 0 ==> page is None && final(self)@ == old(self)@,
            old(self)@.len() > 0 ==> page == Some(
                FreeMemoryPage { address: old(self)@[0], prev_page: None, next_page: None },
            ) && final(self)@ == old(self)@.subrange(1, old(self)@.len() as int),
    {
        if self.is_empty() {
            return None;
        }
        let ghost s = self@;
        let ghost t = s.subrange(1, s.len() as int);
        let address = self.first_page.unwrap();
        assert(s.contains(s[0]));
        let node = *self.pages.get(&address).unwrap();
        assert(self.record(s[0]) == linked(s, 0));
        assert(node == linked(s, 0));
        self.pages.remove(&address);
        match node.next_page {
            Some(next_address) => {
                assert(s.contains(s[1]));
                let mut next_node = *self.pages.get(&next_address).unwrap();
                assert(old(self).record(s[1]) == linked(s, 1));
                assert(s[0] < s[1]);
                assert(next_node == linked(s, 1));
                next_node.prev_page = None;
                self.pages.insert(next_address, next_node);
            },
            None => {
                self.last_page = None;
            },
        }
        self.first_page = node.next_page;
        self.order = Ghost(t);
        proof {
            assert forall|x: u64| self.has_record(x) <==> t.contains(x) by {
                if s.contains(x) && x != address {
                    let i = choose|i: int| 0 <= i < s.len() && s[i] == x;
                    assert(t[i - 1] == x);
                }
                if t.contains(x) {
                    let i = choose|i: int| 0 <= i < t.len() && t[i] == x;
                    assert(s[i + 1] == x);
                    assert(s[0] < s[i + 1]);
                }
            }
            assert forall|i: int, j: int| 0 <= i < j < t.len() implies t[i] < t[j] by {
                assert(t[i] == s[i + 1] && t[j] == s[j + 1]);
            }
            assert forall|i: int| 0 <= i < t.len() implies #[trigger] self.record(t[i]) == linked(
                t,
                i,
            ) by {
                assert(t[i] == s[i + 1]);
                assert(old(self).record(s[i + 1]) == linked(s, i + 1));
                assert(s[0] < s[i + 1]);
                if i > 0 {
                    assert(s[1] < s[i + 1]);
                }
            }
            assert forall|i: int| 0 <= i < t.len() implies #[trigger] t[i] % 4096 == 0 by {
                assert(t[i] == s[i + 1]);
            }
        }
        Some(FreeMemoryPage { address, prev_page: None, next_page: None })
    }

    /// Puts a run of frames that lie one after the other in memory into the
    /// list: the frame of `first_page`, that of `last_page`, and every frame
    /// between them. None of them may be in the list, and no frame of the
    /// list may lie between them.
    pub fn insert_page_list(&mut self, first_page: FreeMemoryPage, last_page: FreeMemoryPage)
        requires
            old(self).wf(),
            first_page.address % 4096 == 0,
            last_page.address % 4096 == 0,
            first_page.address <= last_page.address,
            forall|address: u64|
                old(self).contains(address) ==> address < first_page.address || address
                    > last_page.address,
        ensures
            final(self).wf(),
            forall|address: u64|
                final(self).contains(address) <==> (old(self).contains(address) || in_run(
                    first_page.address,
                    last_page.address,
                    address,
                )),
            final(self)@.len() == old(self)@.len() + (last_page.address - first_page.address)
                / 4096 + 1,
    {
        let first = first_page.address;
        let last = last_page.address;
        let mut address = first;
        loop
            invariant_except_break
                forall|x: u64|
                    self.contains(x) <==> (old(self).contains(x) || (in_run(first, last, x) && x
                        < address)),
                self@.len() == old(self)@.len() + (address - first) / 4096,
            invariant
                self.wf(),
                first % 4096 == 0,
                last % 4096 == 0,
                address % 4096 == 0,
                first <= address <= last,
                forall|x: u64| old(self).contains(x) ==> x < first || x > last,
            ensures
                self.wf(),
                forall|x: u64|
                    self.contains(x) <==> (old(self).contains(x) || in_run(first, last, x)),
                self@.len() == old(self)@.len() + (last - first) / 4096 + 1,
            decreases last - address,
        {
            self.insert_page(FreeMemoryPage::new(address, None, None));
            if address == last {
                break ;
            }
            address = address + PAGE_SIZE;
        }
    }

    /// Looks for `count` frames that lie one after the other in memory,
    /// starting with the frame at position `i` of the list, and gives the
    /// last of them.
    fn find_contiguous_pages(
        &self,
        start_page: FreeMemoryPage,
        count: usize,
        Ghost(i): Ghost<int>,
    ) -> (last_page: Option<FreeMemoryPage>)
        requires
            self.wf(),
            0 <= i < self@.len(),
            start_page == linked(self@, i),
        ensures
            last_page is Some <==> count > 0 && run_at(self@, i, count as int),
            last_page matches Some(page) ==> page == linked(self@, i + count - 1),
    {
        if count == 0 {
            return None;
        }
        if count == 1 {
            assert(run_at(self@, i, 1));
            return Some(start_page);
        }
        let ghost s = self@;
        let mut current_page = start_page;
        let mut pages_found: usize = 1;
        while pages_found < count
            invariant
                self.wf(),
                s == self@,
                0 <= i < s.len(),
                1 <= pages_found <= count,
                i + pages_found <= s.len(),
                current_page == linked(s, i + pages_found - 1),
                forall|j: int| 0 <= j < pages_found ==> #[trigger] s[i + j] == s[i] + j * 4096,
            decreases count - pages_found,
        {
            let ghost k = i + pages_found - 1;
            match current_page.next_page {
                Some(next_address) => {
                    assert(s[k] < s[k + 1]);
                    assert(s[i + (pages_found - 1)] == s[i] + (pages_found - 1) * 4096);
                    if next_address - current_page.address == PAGE_SIZE {
                        assert(s.contains(s[k + 1]));
                        assert(self.record(s[k + 1]) == linked(s, k + 1));
                        current_page = *self.pages.get(&next_address).unwrap();
                        pages_found += 1;
                        assert(s[i + (pages_found - 1)] == s[i] + (pages_found - 1) * 4096);
                    } else {
                        assert(!run_at(s, i, count as int)) by {
                            if run_at(s, i, count as int) {
                                assert(s[i + pages_found] == s[i] + pages_found * 4096);
                            }
                        }
                        return None;
                    }
                },
                None => {
                    return None;
                },
            }
        }
        assert(run_at(s, i, count as int));
        Some(current_page)
    }

    /// Takes `count` frames off the list that lie one after the other in
    /// memory: those of the first such run, counted from the head. What
    /// comes back is the record of the lowest frame, which links to the
    /// next frame of the run if there is one. Where the list holds no such
    /// run it stays as it is.
    pub fn remove_page_list(&mut self, count: usize) -> (page: Option<FreeMemoryPage>)
        requires
            old(self).wf(),
            count > 0,
        ensures
            final(self).wf(),
            page is None ==> final(self)@ == old(self)@ && forall|i: int|
                !run_at(old(self)@, i, count as int),
            page matches Some(head) ==> exists|i: int|
                {
                    &&& #[trigger] run_at(old(self)@, i, count as int)
                    &&& forall|j: int| 0 <= j < i ==> !run_at(old(self)@, j, count as int)
                    &&& head == (FreeMemoryPage {
                        address: old(self)@[i],
                        prev_page: None,
                        next_page: if count == 1 {
                            None
                        } else {
                            Some((old(self)@[i] + 4096) as u64)
                        },
                    })
                    &&& final(self)@ == old(self)@.subrange(0, i) + old(self)@.subrange(
                        i + count,
                        old(self)@.len() as int,
                    )
                },
    {
        let ghost s = self@;
        if self.is_empty() {
            return None;
        }
        if count == 1 {
            let page = self.remove_page();
            proof {
                assert(run_at(s, 0, 1));
                assert(self@ == s.subrange(0, 0) + s.subrange(1, s.len() as int));
            }
            return page;
        }
        let mut current = self.first_page;
        let ghost mut i: int = 0;
        while current.is_some()
            invariant
                self.wf(),
                self@ == s,
                *self == *old(self),
                count > 1,
                0 <= i <= s.len(),
                current == if i < s.len() {
                    Some(s[i])
                } else {
                    None
                },
                forall|j: int| 0 <= j < i ==> !run_at(s, j, count as int),
            decreases s.len() - i,
        {
            let address = current.unwrap();
            assert(s.contains(s[i]));
            assert(self.record(s[i]) == linked(s, i));
            let node = *self.pages.get(&address).unwrap();
            let found = self.find_contiguous_pages(node, count, Ghost(i));
            if let Some(last_node) = found {
                self.unlink_run(node, last_node, count, Ghost(i));
                assert(s[i + 1] == s[i] + 1 * 4096);
                return Some(
                    FreeMemoryPage {
                        address,
                        prev_page: None,
                        next_page: Some(address + PAGE_SIZE),
                    },
                );
            }
            current = node.next_page;
            proof {
                i = i + 1;
            }
        }
        proof {
            assert forall|j: int| !run_at(s, j, count as int) by {
                if 0 <= j < s.len() {
                } else {
                    assert(count > 0);
                }
            }
        }
        None
    }

    /// Takes the `count` frames from position `i` on out of the list and
    /// closes the gap.
    fn unlink_run(
        &mut self,
        first_node: FreeMemoryPage,
        last_node: FreeMemoryPage,
        count: usize,
        Ghost(i): Ghost<int>,
    )
        requires
            old(self).wf(),
            count > 0,
            run_at(old(self)@, i, count as int),
            first_node == linked(old(self)@, i),
            last_node == linked(old(self)@, i + count - 1),
        ensures
            final(self).wf(),
            final(self)@ == old(self)@.subrange(0, i) + old(self)@.subrange(
                i + count,
                old(self)@.len() as int,
            ),
    {
        let ghost s = self@;
        let ghost t = without_run(s, i, count as int);
        let prev_page = first_node.prev_page;
        let next_page = last_node.next_page;
        let head = first_node.address;
        let mut removed: usize = 0;
        proof {
            assert forall|k: int| 0 <= k < s.len() implies self.pages@.contains_key(
                #[trigger] s[k],
            ) by {
                assert(s.contains(s[k]));
                assert(self.has_record(s[k]));
            }
        }
        while removed < count
            invariant
                s == old(self)@,
                old(self).wf(),
                run_at(s, i, count as int),
                head == s[i],
                removed <= count,
                self.first_page == old(self).first_page,
                self.last_page == old(self).last_page,
                forall|x: u64| self.pages@.contains_key(x) ==> old(self).pages@.contains_key(x),
                forall|k: int|
                    0 <= k < s.len() ==> (self.pages@.contains_key(#[trigger] s[k]) <==> !(i <= k
                        < i + removed)),
                forall|k: int|
                    0 <= k < s.len() && !(i <= k < i + removed) ==> self.pages@[#[trigger] s[k]]
                        == old(self).pages@[s[k]],
            decreases count - removed,
        {
            assert(s[i + removed] == s[i] + removed * 4096);
            let address = head + (removed as u64) * PAGE_SIZE;
            self.pages.remove(&address);
            proof {
                assert forall|k: int| 0 <= k < s.len() implies (self.pages@.contains_key(
                    #[trigger] s[k],
                ) <==> !(i <= k < i + removed + 1)) by {
                    if k != i + removed {
                        if k < i + removed {
                            assert(s[k] < s[i + removed]);
                        } else {
                            assert(s[i + removed] < s[k]);
                        }
                    }
                }
                assert forall|k: int|
                    0 <= k < s.len() && !(i <= k < i + removed + 1) implies self.pages@[#[trigger] s[k]]
                    == old(self).pages@[s[k]] by {
                    if k < i + removed {
                        assert(s[k] < s[i + removed]);
                    } else {
                        assert(s[i + removed] < s[k]);
                    }
                }
            }
            removed += 1;
        }
        proof {
            if i > 0 {
                assert(s.contains(s[i - 1]));
                assert(old(self).record(s[i - 1]) == linked(s, i - 1));
            }
            if i + count < s.len() {
                assert(s.contains(s[i + count]));
                assert(old(self).record(s[i + count]) == linked(s, i + count));
            }
        }
        match prev_page {
            Some(prev_address) => {
                let mut prev_node = *self.pages.get(&prev_address).unwrap();
                prev_node.next_page = next_page;
                self.pages.insert(prev_address, prev_node);
            },
            None => {
                self.first_page = next_page;
            },
        }
        match next_page {
            Some(next_address) => {
                assert(i > 0 ==> s[i - 1] < s[i + count]);
                let mut next_node = *self.pages.get(&next_address).unwrap();
                next_node.prev_page = prev_page;
                self.pages.insert(next_address, next_node);
            },
            None => {
                self.last_page = prev_page;
            },
        }
        self.order = Ghost(t);
        proof {
            lemma_unlink(*old(self), *self, i, count as int);
        }
    }
}

/// The sequence that is left when `count` members from position `i` on
/// are taken out of `s`.
pub open spec fn without_run(s: Seq<u64>, i: int, count: int) -> Seq<u64> {
    s.subrange(0, i) + s.subrange(i + count, s.len() as int)
}

/// The position in `s` of the member at position `k` of
/// `without_run(s, i, count)`.
pub open spec fn skip(k: int, i: int, count: int) -> int {
    if k < i {
        k
    } else {
        k + count
    }
}

/// The members of `without_run(s, i, count)` are those of `s` outside the
/// run, in the same order.
proof fn lemma_without_run(s: Seq<u64>, i: int, count: int)
    requires
        count > 0,
        0 <= i,
        i + count <= s.len(),
    ensures
        without_run(s, i, count).len() == s.len() - count,
        forall|k: int|
            0 <= k < s.len() - count ==> #[trigger] without_run(s, i, count)[k] == s[skip(
                k,
                i,
                count,
            )],
{
}

/// A list from which the frames at positions `i` to `i + count - 1` were
/// taken, and whose gap was closed, is a list again.
#[verifier::rlimit(80)]
#[verifier::spinoff_prover]
proof fn lemma_unlink(before: FreePageList, after: FreePageList, i: int, count: int)
    requires
        before.wf(),
        count > 0,
        0 <= i,
        i + count <= before@.len(),
        after@ == without_run(before@, i, count),
        forall|x: u64| after.pages@.contains_key(x) ==> before.pages@.contains_key(x),
        forall|k: int|
            0 <= k < before@.len() ==> (after.pages@.contains_key(#[trigger] before@[k]) <==> !(i
                <= k < i + count)),
        forall|k: int|
            0 <= k < before@.len() && !(i - 1 <= k <= i + count) ==> after.pages@[#[trigger] before@[k]]
                == before.pages@[before@[k]],
        i > 0 ==> after.pages@[before@[i - 1]] == (FreeMemoryPage {
            next_page: if i + count < before@.len() {
                Some(before@[i + count])
            } else {
                None
            },
            ..before.pages@[before@[i - 1]]
        }),
        i + count < before@.len() ==> after.pages@[before@[i + count]] == (FreeMemoryPage {
            prev_page: if i > 0 {
                Some(before@[i - 1])
            } else {
                None
            },
            ..before.pages@[before@[i + count]]
        }),
        after.first_page == if after@.len() == 0 {
            None
        } else {
            Some(after@[0])
        },
        after.last_page == if after@.len() == 0 {
            None
        } else {
            Some(after@[after@.len() - 1])
        },
    ensures
        after.wf(),
{
    let s = before@;
    let t = after@;
    lemma_without_run(s, i, count);
    assert forall|x: u64| after.has_record(x) <==> t.contains(x) by {
        if after.has_record(x) {
            assert(before.has_record(x));
            let k = choose|k: int| 0 <= k < s.len() && s[k] == x;
            assert(!(i <= k < i + count));
            if k < i {
                assert(t[k] == s[skip(k, i, count)]);
            } else {
                assert(t[k - count] == s[skip(k - count, i, count)]);
            }
        }
        if t.contains(x) {
            let k = choose|k: int| 0 <= k < t.len() && t[k] == x;
            assert(t[k] == s[skip(k, i, count)]);
        }
    }
    assert forall|a: int, b: int| 0 <= a < b < t.len() implies t[a] < t[b] by {
        assert(t[a] == s[skip(a, i, count)]);
        assert(t[b] == s[skip(b, i, count)]);
    }
    assert forall|k: int| 0 <= k < t.len() implies #[trigger] t[k] % 4096 == 0 by {
        assert(t[k] == s[skip(k, i, count)]);
    }
    assert forall|k: int| 0 <= k < t.len() implies #[trigger] after.record(t[k]) == linked(t, k) by {
        lemma_unlink_record(before, after, i, count, k);
    }
}

/// The frame at position `k` of the list that is left holds the record that
/// its place asks for.
proof fn lemma_unlink_record(before: FreePageList, after: FreePageList, i: int, count: int, k: int)
    requires
        before.wf(),
        count > 0,
        0 <= i,
        i + count <= before@.len(),
        after@ == without_run(before@, i, count),
        0 <= k < after@.len(),
        !(i - 1 <= skip(k, i, count) <= i + count) ==> after.pages@[before@[skip(k, i, count)]]
            == before.pages@[before@[skip(k, i, count)]],
        i > 0 ==> after.pages@[before@[i - 1]] == (FreeMemoryPage {
            next_page: if i + count < before@.len() {
                Some(before@[i + count])
            } else {
                None
            },
            ..before.pages@[before@[i - 1]]
        }),
        i + count < before@.len() ==> after.pages@[before@[i + count]] == (FreeMemoryPage {
            prev_page: if i > 0 {
                Some(before@[i - 1])
            } else {
                None
            },
            ..before.pages@[before@[i + count]]
        }),
    ensures
        after.record(after@[k]) == linked(after@, k),
{
    let s = before@;
    let t = after@;
    lemma_without_run(s, i, count);
    let sk = skip(k, i, count);
    assert(t[k] == s[sk]);
    assert(before.record(s[sk]) == linked(s, sk));
    if k > 0 {
        assert(t[k - 1] == s[skip(k - 1, i, count)]);
    }
    if k < t.len() - 1 {
        assert(t[k + 1] == s[skip(k + 1, i, count)]);
    }
}

/// The address of the frame `j` pages above `first`.
pub open spec fn frame_of(first: u64, j: int) -> u64 {
    (first + j * 4096) as u64
}

/// Whether `address` is one of the frames from `first` to `last`.
pub open spec fn in_run(first: u64, last: u64, address: u64) -> bool {
    first <= address <= last && address % 4096 == 0
}

/// The members of a sequence with one more inserted are the old members and
/// the new one.
pub proof fn lemma_insert_contains(s: Seq<u64>, k: int, a: u64)
    requires
        0 <= k <= s.len(),
    ensures
        forall|x: u64| s.insert(k, a).contains(x) <==> (s.contains(x) || x == a),
        s.insert(k, a).len() == s.len() + 1,
{
    let t = s.insert(k, a);
    assert forall|x: u64| t.contains(x) <==> (s.contains(x) || x == a) by {
        if s.contains(x) {
            let i = choose|i: int| 0 <= i < s.len() && s[i] == x;
            if i < k {
                assert(t[i] == x);
            } else {
                assert(t[i + 1] == x);
            }
        }
        if x == a {
            assert(t[k] == x);
        }
        if t.contains(x) {
            let i = choose|i: int| 0 <= i < t.len() && t[i] == x;
            if i < k {
                assert(s[i] == x);
            } else if i > k {
                assert(s[i - 1] == x);
            }
        }
    }
}


impl FreePageList {
    /// The order of the list, spelled out: addresses rise strictly, so no
    /// frame is in the list twice; the head has no predecessor and the tail
    /// no successor; and every frame but the tail is the predecessor of its
    /// successor.
    pub proof fn lemma_order(&self)
        requires
            self.wf(),
        ensures
            self@.no_duplicates(),
            forall|i: int, j: int| 0 <= i < j < self@.len() ==> self@[i] < self@[j],
            self@.len() > 0 ==> self.first() == Some(self@[0]) && self.record(
                self@[0],
            ).prev_page is None,
            self@.len() > 0 ==> self.last() == Some(self@[self@.len() - 1]) && self.record(
                self@[self@.len() - 1],
            ).next_page is None,
            forall|i: int|
                0 <= i < self@.len() - 1 ==> (#[trigger] self.record(self@[i])).next_page == Some(
                    self@[i + 1],
                ) && self.record(self@[i + 1]).prev_page == Some(self@[i]),
    {
        let s = self@;
        if s.len() > 0 {
            assert(self.record(s[0]) == linked(s, 0));
            assert(self.record(s[s.len() - 1]) == linked(s, s.len() - 1));
        }
        assert forall|i: int| 0 <= i < s.len() - 1 implies (#[trigger] self.record(
            s[i],
        )).next_page == Some(s[i + 1]) && self.record(s[i + 1]).prev_page == Some(s[i]) by {
            assert(self.record(s[i]) == linked(s, i));
            assert(self.record(s[i + 1]) == linked(s, i + 1));
        }
    }

    /// Frames that lie one after the other in memory lie one after the other
    /// in the list: where the list holds the `count` frames from `first` on,
    /// they are a run of the list, so a request for up to `count` frames in
    /// a row finds one.
    pub proof fn lemma_run_is_adjacent(&self, first: u64, count: int)
        requires
            self.wf(),
            count > 0,
            forall|j: int| 0 <= j < count ==> self.contains(#[trigger] frame_of(first, j)),
            first + (count - 1) * 4096 <= u64::MAX,
        ensures
            exists|i: int| #[trigger] run_at(self@, i, count) && self@[i] == first,
        decreases count,
    {
        let s = self@;
        assert(self.contains(frame_of(first, 0)));
        let p = choose|p: int| 0 <= p < s.len() && s[p] == first;
        if count == 1 {
            assert(s[p + 0] == s[p] + 0 * 4096);
            assert(run_at(s, p, 1));
        } else {
            assert forall|j: int| 0 <= j < count - 1 implies self.contains(
                #[trigger] frame_of(first, j),
            ) by {}
            self.lemma_run_is_adjacent(first, count - 1);
            let i = choose|i: int| #[trigger] run_at(s, i, count - 1) && s[i] == first;
            assert(i == p) by {
                if i < p {
                    assert(s[i] < s[p]);
                } else if p < i {
                    assert(s[p] < s[i]);
                }
            }
            let top = frame_of(first, count - 1);
            assert(self.contains(top));
            let q = choose|q: int| 0 <= q < s.len() && s[q] == top;
            let below = p + count - 2;
            assert(s[p + (count - 2)] == s[p] + (count - 2) * 4096);
            assert(q == below + 1) by {
                if q <= below {
                    if q < below {
                        assert(s[q] < s[below]);
                    }
                } else if q > below + 1 {
                    assert(s[below] < s[below + 1]);
                    assert(s[below + 1] < s[q]);
                    assert(s[below + 1] % 4096 == 0);
                    assert(s[below] % 4096 == 0);
                }
            }
            assert forall|j: int| 0 <= j < count implies #[trigger] s[p + j] == s[p] + j * 4096 by {
                if j < count - 1 {
                    assert(s[i + j] == s[i] + j * 4096);
                }
            }
            assert(run_at(s, p, count));
        }
    }
}

/// Whether `address` belongs to the kernel: to its image or to its heap.
pub open spec fn is_kernel_page_spec(kernel_memory: KernelMemoryLayout, address: u64) -> bool {
    kernel_memory.kernel.contains(address) || kernel_memory.heap.contains(address)
}

/// Whether `address` is a page of one of the first `count` RAM devices.
pub open spec fn is_ram_page_upto(system_memory: SystemMemory, address: u64, count: int) -> bool {
    address % 4096 == 0 && exists|i: int|
        0 <= i < count && #[trigger] device_holds(system_memory, i, address)
}

/// Whether `address` lies in the RAM device at position `i` of the
/// inventory.
pub open spec fn device_holds(system_memory: SystemMemory, i: int, address: u64) -> bool {
    &&& system_memory.memory_devices[i].is_some()
    &&& system_memory.memory_devices[i].unwrap().base_address <= address
    &&& address < system_memory.memory_devices[i].unwrap().base_address
        + system_memory.memory_devices[i].unwrap().range
}

/// Whether the frame at `address` is free at boot: a page of RAM that
/// neither the kernel nor a device uses.
pub open spec fn is_free_frame(
    kernel_memory: KernelMemoryLayout,
    system_memory: SystemMemory,
    address: u64,
) -> bool {
    is_ram_page_upto(system_memory, address, 4) && !is_kernel_page_spec(kernel_memory, address)
        && !system_memory.is_mmio(address)
}

/// What the free pages ask of the memory inventory: every RAM device starts
/// and ends on a page boundary and is not empty, the devices are listed in
/// ascending order without overlap, and no region ends beyond the address
/// space.
pub open spec fn inventory_fits(system_memory: SystemMemory) -> bool {
    &&& forall|i: int|
        0 <= i < 4 && (#[trigger] system_memory.memory_devices[i]).is_some() ==> {
            let device = system_memory.memory_devices[i].unwrap();
            &&& device.base_address % 4096 == 0
            &&& (device.base_address + device.range) % 4096 == 0
            &&& device.range != 0
            &&& device.base_address + device.range <= u64::MAX
        }
    &&& forall|i: int, j: int|
        0 <= i < j < 4 && (#[trigger] system_memory.memory_devices[i]).is_some() && (
        #[trigger] system_memory.memory_devices[j]).is_some()
            ==> system_memory.memory_devices[i].unwrap().base_address
            + system_memory.memory_devices[i].unwrap().range
            <= system_memory.memory_devices[j].unwrap().base_address
    &&& regions_fit(system_memory)
}

/// No region of device registers ends beyond the address space.
pub open spec fn regions_fit(system_memory: SystemMemory) -> bool {
    forall|i: int|
        0 <= i < 32 && (#[trigger] system_memory.mmio_regions[i]).is_some()
            ==> system_memory.mmio_regions[i].unwrap().base_address
            + system_memory.mmio_regions[i].unwrap().range <= u64::MAX
}

/// Whether the free pages can be collected from the memory inventory.
pub fn check_inventory(system_memory: &SystemMemory) -> (fits: bool)
    ensures
        fits == inventory_fits(*system_memory),
{
    let mut i: usize = 0;
    while i < 4
        invariant
            i <= 4,
            forall|k: int|
                0 <= k < i && (#[trigger] system_memory.memory_devices[k]).is_some() ==> {
                    let device = system_memory.memory_devices[k].unwrap();
                    &&& device.base_address % 4096 == 0
                    &&& (device.base_address + device.range) % 4096 == 0
                    &&& device.range != 0
                    &&& device.base_address + device.range <= u64::MAX
                },
            forall|a: int, b: int|
                0 <= a < b < i && (#[trigger] system_memory.memory_devices[a]).is_some() && (
                #[trigger] system_memory.memory_devices[b]).is_some()
                    ==> system_memory.memory_devices[a].unwrap().base_address
                    + system_memory.memory_devices[a].unwrap().range
                    <= system_memory.memory_devices[b].unwrap().base_address,
        decreases 4 - i,
    {
        if let Some(device) = system_memory.memory_devices[i] {
            if device.range == 0 || device.base_address % PAGE_SIZE != 0 || device.range
                > u64::MAX - device.base_address {
                assert(system_memory.memory_devices[i as int].is_some());
                return false;
            }
            if (device.base_address + device.range) % PAGE_SIZE != 0 {
                assert(system_memory.memory_devices[i as int].is_some());
                return false;
            }
            let mut j: usize = 0;
            while j < i
                invariant
                    j <= i < 4,
                    system_memory.memory_devices[i as int] == Some(device),
                    forall|a: int|
                        0 <= a < j && (#[trigger] system_memory.memory_devices[a]).is_some()
                            ==> system_memory.memory_devices[a].unwrap().base_address
                            + system_memory.memory_devices[a].unwrap().range
                            <= device.base_address,
                    forall|k: int|
                        0 <= k < i && (#[trigger] system_memory.memory_devices[k]).is_some()
                            ==> system_memory.memory_devices[k].unwrap().base_address
                            + system_memory.memory_devices[k].unwrap().range <= u64::MAX,
                decreases i - j,
            {
                if let Some(earlier) = system_memory.memory_devices[j] {
                    assert(system_memory.memory_devices[j as int].is_some());
                    if earlier.base_address + earlier.range > device.base_address {
                        assert(system_memory.memory_devices[i as int].is_some());
                        return false;
                    }
                }
                j += 1;
            }
        }
        i += 1;
    }
    let mut r: usize = 0;
    while r < 32
        invariant
            r <= 32,
            forall|k: int|
                0 <= k < r && (#[trigger] system_memory.mmio_regions[k]).is_some()
                    ==> system_memory.mmio_regions[k].unwrap().base_address
                    + system_memory.mmio_regions[k].unwrap().range <= u64::MAX,
        decreases 32 - r,
    {
        if let Some(region) = system_memory.mmio_regions[r] {
            if region.range > u64::MAX - region.base_address {
                assert(system_memory.mmio_regions[r as int].is_some());
                return false;
            }
        }
        r += 1;
    }
    true
}

/// Whether `address` belongs to the kernel: to its image or to its heap.
pub fn is_kernel_page(address: u64, kernel_memory: &KernelMemoryLayout) -> (kernel: bool)
    requires
        kernel_memory.wf(),
    ensures
        kernel == is_kernel_page_spec(*kernel_memory, address),
{
    (address >= kernel_memory.kernel.start && address < kernel_memory.kernel.start
        + kernel_memory.kernel.size) || (address >= kernel_memory.heap.start && address
        < kernel_memory.heap.start + kernel_memory.heap.size)
}

/// Whether `address` lies in a region of device registers.
pub fn is_mmio_page(address: u64, system_memory: &SystemMemory) -> (mmio: bool)
    requires
        regions_fit(*system_memory),
    ensures
        mmio == system_memory.is_mmio(address),
{
    let mut index: usize = 0;
    while index < 32
        invariant
            index <= 32,
            regions_fit(*system_memory),
            forall|i: int|
                0 <= i < index ==> !((#[trigger] system_memory.mmio_regions[i]).is_some()
                    && system_memory.mmio_regions[i].unwrap().contains(address)),
        decreases 32 - index,
    {
        if let Some(region) = system_memory.mmio_regions[index] {
            if address >= region.base_address && address < region.base_address + region.range {
                return true;
            }
        }
        index += 1;
    }
    false
}

/// Whether the frame at `address` has been looked at when the first
/// `index` RAM devices are done, and the next one up to `cursor`, and was
/// found free.
pub open spec fn collected(
    kernel_memory: KernelMemoryLayout,
    system_memory: SystemMemory,
    index: int,
    start: u64,
    cursor: u64,
    address: u64,
) -> bool {
    &&& is_ram_page_upto(system_memory, address, index) || (address % 4096 == 0 && start
        <= address < cursor)
    &&& !is_kernel_page_spec(kernel_memory, address)
    &&& !system_memory.is_mmio(address)
}

/// Fills the empty list with every frame that is free at boot: each page of
/// each RAM device, but for the pages of the kernel, of its heap and of the
/// device registers.
pub fn init_free_page_list(
    list: &mut FreePageList,
    kernel_memory: &KernelMemoryLayout,
    system_memory: &SystemMemory,
)
    requires
        old(list).wf(),
        old(list)@.len() == 0,
        kernel_memory.wf(),
        inventory_fits(*system_memory),
    ensures
        final(list).wf(),
        forall|address: u64|
            #![trigger final(list).contains(address)]
            final(list).contains(address) <==> is_free_frame(
                *kernel_memory,
                *system_memory,
                address,
            ),
{
    let mut index: usize = 0;
    proof {
        assert forall|address: u64| #![trigger list.contains(address)]
            list.contains(address) <==> collected(
                *kernel_memory,
                *system_memory,
                0,
                0,
                0,
                address,
            ) by {
            if is_ram_page_upto(*system_memory, address, 0) {
                let i = choose|i: int| 0 <= i < 0 && #[trigger] device_holds(
                    *system_memory,
                    i,
                    address,
                );
            }
        }
    }
    while index < 4
        invariant
            index <= 4,
            list.wf(),
            kernel_memory.wf(),
            inventory_fits(*system_memory),
            forall|address: u64|
                #![trigger list.contains(address)]
                list.contains(address) <==> collected(
                    *kernel_memory,
                    *system_memory,
                    index as int,
                    0,
                    0,
                    address,
                ),
        decreases 4 - index,
    {
        if let Some(memory_device) = system_memory.memory_devices[index] {
            let start_address = memory_device.base_address;
            let end_address = memory_device.base_address + memory_device.range;
            let mut page_address = start_address;
            while page_address < end_address
                invariant
                    index < 4,
                    list.wf(),
                    kernel_memory.wf(),
                    inventory_fits(*system_memory),
                    system_memory.memory_devices[index as int] == Some(memory_device),
                    start_address == memory_device.base_address,
                    end_address == memory_device.base_address + memory_device.range,
                    start_address <= page_address <= end_address,
                    page_address % 4096 == 0,
                    forall|address: u64|
                        #![trigger list.contains(address)]
                        list.contains(address) <==> collected(
                            *kernel_memory,
                            *system_memory,
                            index as int,
                            start_address,
                            page_address,
                            address,
                        ),
                decreases end_address - page_address,
            {
                let ghost before = *list;
                if !is_kernel_page(page_address, kernel_memory) && !is_mmio_page(
                    page_address,
                    system_memory,
                ) {
                    proof {
                        let s = list@;
                        if s.len() > 0 {
                            let top = s[s.len() - 1];
                            assert(list.contains(top));
                            if is_ram_page_upto(*system_memory, top, index as int) {
                                let i = choose|i: int|
                                    0 <= i < index && #[trigger] device_holds(
                                        *system_memory,
                                        i,
                                        top,
                                    );
                                assert(system_memory.memory_devices[i].is_some());
                                assert(system_memory.memory_devices[index as int].is_some());
                            }
                            assert(top < page_address);
                        }
                    }
                    list.add_free_page_to_end(FreeMemoryPage::new(page_address, None, None));
                    proof {
                        lemma_insert_contains(before@, before@.len() as int, page_address);
                        assert(list@ == before@.insert(before@.len() as int, page_address));
                    }
                }
                assert(page_address + 4096 <= end_address);
                proof {
                    assert forall|address: u64| #![trigger list.contains(address)]
                        list.contains(address) <==> collected(
                            *kernel_memory,
                            *system_memory,
                            index as int,
                            start_address,
                            (page_address + 4096) as u64,
                            address,
                        ) by {
                        assert(before.contains(address) <==> collected(
                            *kernel_memory,
                            *system_memory,
                            index as int,
                            start_address,
                            page_address,
                            address,
                        ));
                        if address % 4096 == 0 && page_address <= address < page_address + 4096 {
                            assert(address == page_address);
                        }
                    }
                }
                page_address = page_address + PAGE_SIZE;
            }
            proof {
                assert forall|address: u64| #![trigger list.contains(address)]
                    list.contains(address) <==> collected(
                        *kernel_memory,
                        *system_memory,
                        index as int + 1,
                        0,
                        0,
                        address,
                    ) by {
                    assert(list.contains(address) <==> collected(
                        *kernel_memory,
                        *system_memory,
                        index as int,
                        start_address,
                        page_address,
                        address,
                    ));
                    if is_ram_page_upto(*system_memory, address, index as int + 1) {
                        let i = choose|i: int|
                            0 <= i < index + 1 && #[trigger] device_holds(
                                *system_memory,
                                i,
                                address,
                            );
                        if i < index {
                            assert(is_ram_page_upto(*system_memory, address, index as int));
                        }
                    }
                    if is_ram_page_upto(*system_memory, address, index as int) {
                        let i = choose|i: int|
                            0 <= i < index && #[trigger] device_holds(*system_memory, i, address);
                        assert(device_holds(*system_memory, i, address));
                    }
                    if address % 4096 == 0 && start_address <= address < end_address {
                        assert(device_holds(*system_memory, index as int, address));
                    }
                }
            }
        } else {
            proof {
                assert forall|address: u64| #![trigger list.contains(address)]
                    list.contains(address) <==> collected(
                        *kernel_memory,
                        *system_memory,
                        index as int + 1,
                        0,
                        0,
                        address,
                    ) by {
                    assert(list.contains(address) <==> collected(
                        *kernel_memory,
                        *system_memory,
                        index as int,
                        0,
                        0,
                        address,
                    ));
                    if is_ram_page_upto(*system_memory, address, index as int + 1) {
                        let i = choose|i: int|
                            0 <= i < index + 1 && #[trigger] device_holds(
                                *system_memory,
                                i,
                                address,
                            );
                        assert(i < index);
                    }
                    if is_ram_page_upto(*system_memory, address, index as int) {
                        let i = choose|i: int|
                            0 <= i < index && #[trigger] device_holds(*system_memory, i, address);
                        assert(device_holds(*system_memory, i, address));
                    }
                }
            }
        }
        index += 1;
    }
}

/// Returns the frame at `page_address` to the free pages. The address must
/// be that of a page, not zero, and the frame must not be free already.
pub fn add_free_page(list: &mut FreePageList, page_address: u64)
    requires
        old(list).wf(),
        page_address % 4096 == 0,
        page_address != 0,
        !old(list).contains(page_address),
    ensures
        final(list).wf(),
        forall|address: u64|
            final(list).contains(address) <==> (old(list).contains(address) || address
                == page_address),
        final(list)@.len() == old(list)@.len() + 1,
{
    let page = FreeMemoryPage::new(page_address, None, None);
    list.insert_page(page);
}

/// Returns `count` frames to the free pages, those that lie one after the
/// other from `address` on. None of them may be free already, and no free
/// frame may lie between them.
pub fn add_n_free_pages(list: &mut FreePageList, address: u64, count: usize)
    requires
        old(list).wf(),
        address % 4096 == 0,
        address != 0,
        count > 0,
        address + (count - 1) * 4096 <= u64::MAX,
        forall|x: u64| old(list).contains(x) ==> x < address || x > address + (count - 1) * 4096,
    ensures
        final(list).wf(),
        forall|x: u64|
            final(list).contains(x) <==> (old(list).contains(x) || in_run(
                address,
                (address + (count - 1) * 4096) as u64,
                x,
            )),
        final(list)@.len() == old(list)@.len() + count,
{
    let last_address = address + ((count - 1) as u64) * PAGE_SIZE;
    let first_page = FreeMemoryPage::new(address, None, None);
    let last_page = FreeMemoryPage::new(last_address, None, None);
    list.insert_page_list(first_page, last_page);
}

/// Takes the lowest free frame and gives its address, or nothing where no
/// frame is free.
pub fn remove_free_page(list: &mut FreePageList) -> (address: Option<u64>)
    requires
        old(list).wf(),
    ensures
        final(list).wf(),
        old(list)@.len() == 0 ==> address is None && final(list)@ == old(list)@,
        old(list)@.len() > 0 ==> address == Some(old(list)@[0]) && final(list)@ == old(list)@.subrange(1, old(list)@.len() as int),
        address matches Some(a) ==> a % 4096 == 0 && old(list).contains(a) && !final(list).contains(a),
{
    let ghost s = list@;
    match list.remove_page() {
        Some(page) => {
            let mut page = page;
            let address = page.address;
            page.clear();
            proof {
                list.lemma_order();
                assert(s[0] % 4096 == 0);
                assert(s.contains(s[0]));
                if list.contains(address) {
                    let i = choose|i: int| 0 <= i < list@.len() && list@[i] == address;
                    assert(s[i + 1] == address);
                    assert(s[0] < s[i + 1]);
                }
            }
            Some(address)
        },
        None => None,
    }
}

/// Takes `count` free frames that lie one after the other in memory, those
/// of the first such run from the lowest frame on, and gives the address of
/// the lowest of them. Where there is no such run nothing changes.
pub fn remove_n_free_pages(list: &mut FreePageList, count: usize) -> (address: Option<u64>)
    requires
        old(list).wf(),
        count > 0,
    ensures
        final(list).wf(),
        address is None ==> final(list)@ == old(list)@ && forall|i: int|
            !run_at(old(list)@, i, count as int),
        address matches Some(first) ==> exists|i: int|
            {
                &&& #[trigger] run_at(old(list)@, i, count as int)
                &&& forall|j: int| 0 <= j < i ==> !run_at(old(list)@, j, count as int)
                &&& first == old(list)@[i]
                &&& final(list)@ == old(list)@.subrange(0, i) + old(list)@.subrange(
                    i + count,
                    old(list)@.len() as int,
                )
            },
{
    match list.remove_page_list(count) {
        Some(page) => Some(page.address),
        None => None,
    }
}

/// One change of the list: a frame is inserted, or the lowest frame is
/// taken.
pub enum ListChange {
    /// The frame at this address is inserted.
    Insert(u64),
    /// The lowest frame is taken, if there is one.
    Pop,
}

/// Whether addresses rise strictly along `s`.
pub open spec fn ascending(s: Seq<u64>) -> bool {
    forall|i: int, j: int| 0 <= i < j < s.len() ==> s[i] < s[j]
}

/// Whether a list that held `before` holds `after` when the change is
/// made, as `insert_page` and `remove_page` make it: the frame that is
/// inserted was not in the list and stands where the order asks for it,
/// and the frame that is taken is the first.
pub open spec fn changed(before: Seq<u64>, change: ListChange, after: Seq<u64>) -> bool {
    match change {
        ListChange::Insert(address) => {
            &&& !before.contains(address)
            &&& ascending(after)
            &&& forall|x: u64| after.contains(x) <==> (before.contains(x) || x == address)
        },
        ListChange::Pop => after == if before.len() == 0 {
            before
        } else {
            before.subrange(1, before.len() as int)
        },
    }
}

/// How often the frame at `address` was inserted, less how often it was
/// taken, in the first `count` changes. `states[i]` is what the list held
/// before change `i`.
pub open spec fn balance(
    changes: Seq<ListChange>,
    states: Seq<Seq<u64>>,
    count: int,
    address: u64,
) -> int
    decreases count,
{
    if count <= 0 {
        0
    } else {
        balance(changes, states, count - 1, address) + match changes[count - 1] {
            ListChange::Insert(inserted) => if inserted == address {
                1int
            } else {
                0int
            },
            ListChange::Pop => if states[count - 1].len() > 0 && states[count - 1][0] == address {
                -1int
            } else {
                0int
            },
        }
    }
}

/// Whatever frames are inserted into an empty list and taken from it, in
/// whatever order: the list is in ascending order and holds no frame
/// twice, and it holds exactly the frames that were inserted more often
/// than they were taken, each of them once.
pub proof fn lemma_inserts_less_pops(changes: Seq<ListChange>, states: Seq<Seq<u64>>)
    requires
        states.len() == changes.len() + 1,
        states[0].len() == 0,
        forall|i: int|
            0 <= i < changes.len() ==> changed(states[i], #[trigger] changes[i], states[i + 1]),
    ensures
        ascending(states[changes.len() as int]),
        states[changes.len() as int].no_duplicates(),
        forall|address: u64|
            #[trigger] balance(changes, states, changes.len() as int, address)
                == if states[changes.len() as int].contains(address) {
                1int
            } else {
                0int
            },
{
    lemma_changes_upto(changes, states, changes.len() as int);
}

/// The law of inserting and taking, for the first `count` changes.
pub proof fn lemma_changes_upto(changes: Seq<ListChange>, states: Seq<Seq<u64>>, count: int)
    requires
        states.len() == changes.len() + 1,
        states[0].len() == 0,
        0 <= count <= changes.len(),
        forall|i: int|
            0 <= i < changes.len() ==> changed(states[i], #[trigger] changes[i], states[i + 1]),
    ensures
        ascending(states[count]),
        states[count].no_duplicates(),
        forall|address: u64|
            #[trigger] balance(changes, states, count, address) == if states[count].contains(
                address,
            ) {
                1int
            } else {
                0int
            },
    decreases count,
{
    if count > 0 {
        lemma_changes_upto(changes, states, count - 1);
        let before = states[count - 1];
        let after = states[count];
        assert(changed(before, changes[count - 1], after));
        match changes[count - 1] {
            ListChange::Insert(inserted) => {
                assert forall|address: u64|
                    #[trigger] balance(changes, states, count, address) == if after.contains(
                        address,
                    ) {
                        1int
                    } else {
                        0int
                    } by {
                    assert(balance(changes, states, count - 1, address) == if before.contains(
                        address,
                    ) {
                        1int
                    } else {
                        0int
                    });
                }
            },
            ListChange::Pop => {
                if before.len() > 0 {
                    assert forall|i: int, j: int| 0 <= i < j < after.len() implies after[i]
                        < after[j] by {
                        assert(after[i] == before[i + 1]);
                        assert(after[j] == before[j + 1]);
                    }
                    assert forall|address: u64|
                        after.contains(address) <==> (before.contains(address) && address
                            != before[0]) by {
                        if after.contains(address) {
                            let i = choose|i: int| 0 <= i < after.len() && after[i] == address;
                            assert(before[i + 1] == address);
                            assert(before[0] < before[i + 1]);
                        }
                        if before.contains(address) && address != before[0] {
                            let i = choose|i: int| 0 <= i < before.len() && before[i] == address;
                            assert(after[i - 1] == address);
                        }
                    }
                    assert(before.contains(before[0]));
                }
                assert forall|address: u64|
                    #[trigger] balance(changes, states, count, address) == if after.contains(
                        address,
                    ) {
                        1int
                    } else {
                        0int
                    } by {
                    assert(balance(changes, states, count - 1, address) == if before.contains(
                        address,
                    ) {
                        1int
                    } else {
                        0int
                    });
                }
            },
        }
        assert(after.no_duplicates()) by {
            assert forall|i: int, j: int| 0 <= i < after.len() && 0 <= j < after.len() && i
                != j implies after[i] != after[j] by {
                if i < j {
                    assert(after[i] < after[j]);
                } else {
                    assert(after[j] < after[i]);
                }
            }
        }
    }
}

impl FreePageList {
    /// Addresses rise strictly along the list.
    pub proof fn lemma_ascending(&self)
        requires
            self.wf(),
        ensures
            ascending(self@),
    {
        self.lemma_order();
    }

    /// What `insert_page` does is a change of the list: `self` is the
    /// list after the frame at `address` was inserted into `before`.
    pub proof fn lemma_insert_is_change(&self, before: &FreePageList, address: u64)
        requires
            self.wf(),
            !before.contains(address),
            forall|x: u64| self.contains(x) <==> (before.contains(x) || x == address),
        ensures
            changed(before@, ListChange::Insert(address), self@),
    {
        self.lemma_ascending();
        assert forall|x: u64| self@.contains(x) <==> (before@.contains(x) || x == address) by {
            assert(self.contains(x) <==> (before.contains(x) || x == address));
        }
    }

    /// What `remove_page` does is a change of the list: `self` is the
    /// list after the lowest frame was taken from `before`.
    pub proof fn lemma_pop_is_change(&self, before: &FreePageList)
        requires
            before@.len() == 0 ==> self@ == before@,
            before@.len() > 0 ==> self@ == before@.subrange(1, before@.len() as int),
        ensures
            changed(before@, ListChange::Pop, self@),
    {
    }

    /// After a run of frames is inserted, frames in a row can be taken
    /// from it: where the list holds the `count` frames from `first` on,
    /// it holds a run of `wanted` frames for every `wanted` up to `count`,
    /// so that `remove_page_list` finds one and does not come back empty.
    pub proof fn lemma_run_can_be_taken(&self, first: u64, count: int, wanted: int)
        requires
            self.wf(),
            0 < wanted <= count,
            forall|j: int| 0 <= j < count ==> self.contains(#[trigger] frame_of(first, j)),
            first + (count - 1) * 4096 <= u64::MAX,
        ensures
            exists|i: int| #[trigger] run_at(self@, i, wanted) && self@[i] == first,
    {
        self.lemma_run_is_adjacent(first, count);
        let i = choose|i: int| #[trigger] run_at(self@, i, count) && self@[i] == first;
        assert(run_at(self@, i, wanted));
    }
}

} // verus!
