use vstd::prelude::*;

verus! {

/// An RGB color with eight bits per channel.
#[derive(Clone, Copy, PartialEq, Eq, Structural, Debug)]
pub struct Color {
    pub r: u8,
    pub g: u8,
    pub b: u8,
}

/// The fixed palette the allocator cycles through: the ten categorical
/// colors of colorous's `CATEGORY10`, in table order.
pub open spec fn palette(i: int) -> Color {
    if i == 0 {
        Color { r: 0x1f, g: 0x77, b: 0xb4 }
    } else if i == 1 {
        Color { r: 0xff, g: 0x7f, b: 0x0e }
    } else if i == 2 {
        Color { r: 0x2c, g: 0xa0, b: 0x2c }
    } else if i == 3 {
        Color { r: 0xd6, g: 0x27, b: 0x28 }
    } else if i == 4 {
        Color { r: 0x94, g: 0x67, b: 0xbd }
    } else if i == 5 {
        Color { r: 0x8c, g: 0x56, b: 0x4b }
    } else if i == 6 {
        Color { r: 0xe3, g: 0x77, b: 0xc2 }
    } else if i == 7 {
        Color { r: 0x7f, g: 0x7f, b: 0x7f }
    } else if i == 8 {
        Color { r: 0xbc, g: 0xbd, b: 0x22 }
    } else {
        Color { r: 0x17, g: 0xbe, b: 0xcf }
    }
}

/// Relies on colorous's `CATEGORY10`: a fixed table of ten categorical
/// colors, whose entries are the values `palette` states.
#[verifier::external_body]
fn category10(i: usize) -> (c: Color)
    requires
        i < 10,
    ensures
        c == palette(i as int),
{
    let entry = colorous::CATEGORY10[i];
    Color { r: entry.r, g: entry.g, b: entry.b }
}

/// Hands out colors from the fixed ten-color palette, cyclically: each
/// allocation advances the index by one, and the index wraps after ten.
#[derive(Clone, Copy, PartialEq, Eq, Structural, Debug)]
pub struct ColorAllocator {
    pub next_index: usize,
}

impl ColorAllocator {
    /// The allocator's index always stays inside the palette.
    pub open spec fn wf(self) -> bool {
        self.next_index < 10
    }

    pub fn new() -> (a: ColorAllocator)
        ensures
            a.next_index == 0,
            a.wf(),
    {
        ColorAllocator { next_index: 0 }
    }

    /// Returns the palette color at the current index and advances the
    /// index cyclically.
    pub fn next_color(&mut self) -> (c: Color)
        requires
            old(self).wf(),
        ensures
            c == palette(old(self).next_index as int),
            final(self).next_index == (old(self).next_index + 1) % 10,
            final(self).wf(),
    {
        let c = category10(self.next_index);
        self.next_index = (self.next_index + 1) % 10;
        c
    }
}

/// The color of the `k`-th allocation made by an allocator whose index
/// started at `start`.
pub open spec fn allocation(start: int, k: int) -> Color {
    palette((start + k) % 10)
}

/// Any ten successive allocations are pairwise distinct, and the allocation
/// ten steps after any other repeats it.
pub proof fn lemma_allocation_cycle(start: int, k1: int, k2: int)
    requires
        0 <= start < 10,
        0 <= k1 < k2 < 10,
    ensures
        allocation(start, k1) != allocation(start, k2),
        allocation(start, k1 + 10) == allocation(start, k1),
{
    let i1 = (start + k1) % 10;
    let i2 = (start + k2) % 10;
    assert(i1 != i2) by {
        assert((start + k1) < 20);
        assert(i1 == if start + k1 < 10 { start + k1 } else { start + k1 - 10 });
        assert(i2 == if start + k2 < 10 { start + k2 } else { start + k2 - 10 });
    }
    assert((start + k1 + 10) % 10 == i1) by {
        assert(i1 == if start + k1 < 10 { start + k1 } else { start + k1 - 10 });
    }
}

} // verus!
