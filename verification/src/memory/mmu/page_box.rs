//! A box that lives in a page frame: it holds a value that takes up one
//! page, together with the address of the page, which comes from the free
//! pages and returns to them when the box is given up.

use vstd::prelude::*;
use crate::memory::mmu::free_page_list::FreePageList;
use crate::memory::mmu::free_page_list::add_free_page;
use crate::memory::mmu::free_page_list::remove_free_page;

verus! {

/// A type whose values can be made in place, in a page of their own.
pub trait PageBoxable: Sized {
    /// What holds of a value that was just made in the page at
    /// `page_address`.
    spec fn initialized(&self, page_address: u64) -> bool;

    /// Makes the value in the page at `page_address`.
    fn init_in_place(page_address: u64) -> (value: Self)
        requires
            page_address % 4096 == 0,
        ensures
            value.initialized(page_address),
    ;
}

/// A value in a page of its own.
pub struct PageBox<T> {
    /// Physical address of the page.
    pub page_address: u64,
    /// What the page holds.
    pub value: T,
}

impl<T: PageBoxable> PageBox<T> {
    /// A freshly made value in a page taken from the free pages: the lowest
    /// free frame. Where no frame is free there is no box.
    pub fn new(pool: &mut FreePageList) -> (boxed: Option<Self>)
        requires
            old(pool).wf(),
        ensures
            final(pool).wf(),
            old(pool)@.len() == 0 ==> boxed is None && final(pool)@ == old(pool)@,
            old(pool)@.len() > 0 ==> boxed is Some && boxed.unwrap().page_address == old(pool)@[0]
                && boxed.unwrap().value.initialized(old(pool)@[0]) && final(pool)@ == old(
                pool,
            )@.subrange(1, old(pool)@.len() as int),
    {
        match remove_free_page(pool) {
            Some(page_address) => Some(Self::from_physical_address(page_address)),
            None => None,
        }
    }

    /// A freshly made value in the page at `page_address`, which the box
    /// takes over.
    pub fn from_physical_address(page_address: u64) -> (boxed: Self)
        requires
            page_address % 4096 == 0,
        ensures
            boxed.page_address == page_address,
            boxed.value.initialized(page_address),
    {
        PageBox { page_address, value: T::init_in_place(page_address) }
    }

    /// Gives up the box: its page returns to the free pages, unless its
    /// address is zero or the frame is free already. What the page held
    /// comes back, so that the caller can give up what the value owns.
    pub fn release(self, pool: &mut FreePageList) -> (value: T)
        requires
            old(pool).wf(),
            self.page_address % 4096 == 0,
        ensures
            final(pool).wf(),
            value == self.value,
            forall|address: u64|
                final(pool).contains(address) <==> (old(pool).contains(address) || (address
                    == self.page_address && address != 0)),
    {
        if self.page_address != 0 && !pool.is_free(self.page_address) {
            add_free_page(pool, self.page_address);
        }
        self.value
    }
}

} // verus!
