//! Where the kernel image lies in physical memory, as the linker laid it
//! out: the whole image, its sections, the stacks and the heap reservation.

use vstd::prelude::*;

verus! {

/// One contiguous section of the kernel image.
#[derive(Clone, Copy, PartialEq, Eq, Structural, Debug)]
pub struct SectionLayout {
    /// Address of the first byte.
    pub start: u64,
    /// Address one past the last byte.
    pub end: u64,
    /// Length in bytes.
    pub size: u64,
}

impl SectionLayout {
    /// What holds of every section: it does not end before it starts, and
    /// `size` is its length.
    pub open spec fn wf(&self) -> bool {
        self.start <= self.end && self.size == self.end - self.start
    }

    /// Whether `address` lies in the section.
    pub open spec fn contains(&self, address: u64) -> bool {
        self.start <= address && address < self.start + self.size
    }

    /// The section between two addresses that the linker defined.
    pub fn between(start: u64, end: u64) -> (section: Self)
        requires
            start <= end,
        ensures
            section == (SectionLayout { start: start, end: end, size: (end - start) as u64 }),
            section.wf(),
    {
        SectionLayout { start, end, size: end - start }
    }
}

/// The sections of the kernel image.
#[derive(Clone, Copy, PartialEq, Eq, Structural, Debug)]
pub struct KernelMemoryLayout {
    /// The whole image.
    pub kernel: SectionLayout,
    /// Code.
    pub text: SectionLayout,
    /// Constants.
    pub rodata: SectionLayout,
    /// Initialised data.
    pub data: SectionLayout,
    /// Zero-initialised data.
    pub bss: SectionLayout,
    /// One stack for each hart.
    pub stack: SectionLayout,
    /// Memory set aside for the kernel heap.
    pub heap: SectionLayout,
}

impl KernelMemoryLayout {
    /// What holds of every layout: each section is well formed.
    pub open spec fn wf(&self) -> bool {
        &&& self.kernel.wf()
        &&& self.text.wf()
        &&& self.rodata.wf()
        &&& self.data.wf()
        &&& self.bss.wf()
        &&& self.stack.wf()
        &&& self.heap.wf()
    }

    /// The layout given by the start and end address of each section, in the
    /// order kernel, text, rodata, data, bss, stack, heap.
    pub fn new(bounds: &[(u64, u64); 7]) -> (layout: Self)
        requires
            forall|i: int| 0 <= i < 7 ==> (#[trigger] bounds[i]).0 <= bounds[i].1,
        ensures
            layout.wf(),
            layout.kernel.start == bounds[0].0 && layout.kernel.end == bounds[0].1,
            layout.text.start == bounds[1].0 && layout.text.end == bounds[1].1,
            layout.rodata.start == bounds[2].0 && layout.rodata.end == bounds[2].1,
            layout.data.start == bounds[3].0 && layout.data.end == bounds[3].1,
            layout.bss.start == bounds[4].0 && layout.bss.end == bounds[4].1,
            layout.stack.start == bounds[5].0 && layout.stack.end == bounds[5].1,
            layout.heap.start == bounds[6].0 && layout.heap.end == bounds[6].1,
    {
        KernelMemoryLayout {
            kernel: SectionLayout::between(bounds[0].0, bounds[0].1),
            text: SectionLayout::between(bounds[1].0, bounds[1].1),
            rodata: SectionLayout::between(bounds[2].0, bounds[2].1),
            data: SectionLayout::between(bounds[3].0, bounds[3].1),
            bss: SectionLayout::between(bounds[4].0, bounds[4].1),
            stack: SectionLayout::between(bounds[5].0, bounds[5].1),
            heap: SectionLayout::between(bounds[6].0, bounds[6].1),
        }
    }
}

} // verus!
