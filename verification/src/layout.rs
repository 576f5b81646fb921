//! Memory layouts: a size and an alignment in bytes, and the layout of an
//! array of equally laid out elements.

use vstd::prelude::*;

verus! {

/// The reason why a size and an alignment do not form a layout.
#[derive(Debug, Clone, Copy, PartialEq, Eq)]
pub struct LayoutError {}

/// An error that might occur when requesting the memory layout of a value.
#[derive(Debug, Clone, Copy, PartialEq, Eq)]
pub enum MemoryLayoutError {
    /// The memory requested is too large to deal with.
    OutOfBounds,
    /// The size and the alignment do not form a layout.
    LayoutError(LayoutError),
}

impl MemoryLayoutError {
    /// Wraps the error of a layout construction.
    pub fn from(err: LayoutError) -> (e: MemoryLayoutError)
        ensures
            e == MemoryLayoutError::LayoutError(err),
    {
        MemoryLayoutError::LayoutError(err)
    }
}

/// Whether `align` is a power of two.
pub open spec fn is_power_of_two(align: usize) -> bool {
    align > 0 && align & ((align - 1) as usize) == 0
}

/// The smallest multiple of `align` that is not below `size`.
pub open spec fn round_up(size: int, align: int) -> int
    recommends
        align > 0,
{
    ((size + align - 1) / align) * align
}

/// A size and an alignment, in bytes. The alignment is a power of two, and the
/// size, rounded up to the alignment, does not exceed `isize::MAX`.
#[derive(Debug, Clone, Copy, PartialEq, Eq)]
pub struct Layout {
    size: usize,
    align: usize,
}

impl Layout {
    #[verifier::type_invariant]
    spec fn inv(self) -> bool {
        Self::valid(self.size, self.align)
    }

    /// Whether a size and an alignment form a layout.
    pub open spec fn valid(size: usize, align: usize) -> bool {
        is_power_of_two(align) && size + align - 1 <= isize::MAX
    }

    /// The size in bytes.
    pub closed spec fn spec_size(&self) -> usize {
        self.size
    }

    /// The alignment in bytes.
    pub closed spec fn spec_align(&self) -> usize {
        self.align
    }

    /// Whether this layout's size and alignment form a layout. It holds of
    /// every layout that executable code can hold.
    pub open spec fn wf(self) -> bool {
        Self::valid(self.spec_size(), self.spec_align())
    }

    /// The layout of `size` bytes aligned to `align`, if they form one.
    pub fn from_size_align(size: usize, align: usize) -> (r: Result<Layout, LayoutError>)
        ensures
            Self::valid(size, align) <==> r is Ok,
            r is Ok ==> r->Ok_0.spec_size() == size && r->Ok_0.spec_align() == align,
    {
        if align == 0 || align & (align - 1) != 0 {
            return Err(LayoutError {});
        }
        if align - 1 > isize::MAX as usize || size > (isize::MAX as usize) - (align - 1) {
            return Err(LayoutError {});
        }
        Ok(Layout { size, align })
    }

    /// The size in bytes.
    #[verifier::when_used_as_spec(spec_size)]
    pub fn size(&self) -> (s: usize)
        ensures
            s == self.spec_size(),
            self.wf(),
    {
        proof {
            use_type_invariant(self);
        }
        self.size
    }

    /// The alignment in bytes.
    #[verifier::when_used_as_spec(spec_align)]
    pub fn align(&self) -> (a: usize)
        ensures
            a == self.spec_align(),
            self.wf(),
    {
        proof {
            use_type_invariant(self);
        }
        self.align
    }

    /// The size and the alignment of the layout of `n` handles stored one
    /// after the other, or the error if they form no layout.
    pub open spec fn handle_array_spec(n: usize) -> Result<(usize, usize), MemoryLayoutError> {
        if HANDLE_SIZE * n + HANDLE_SIZE - 1 <= isize::MAX {
            Ok(((HANDLE_SIZE * n) as usize, HANDLE_SIZE))
        } else {
            Err(MemoryLayoutError::LayoutError(LayoutError {}))
        }
    }

    /// The size and the alignment of a layout that was computed, or the error.
    pub open spec fn parts(r: Result<Layout, MemoryLayoutError>) -> Result<
        (usize, usize),
        MemoryLayoutError,
    > {
        match r {
            Ok(l) => Ok((l.spec_size(), l.spec_align())),
            Err(e) => Err(e),
        }
    }

    /// The size rounded up to the alignment: the distance between two
    /// elements of an array of values of this layout.
    pub fn padded_size(&self) -> (stride: usize)
        ensures
            stride == round_up(self.spec_size() as int, self.spec_align() as int),
            self.wf(),
    {
        let size = self.size();
        let align = self.align();
        let padded = size + (align - 1);
        let count = padded / align;
        assert(count * align <= padded) by (nonlinear_arith)
            requires
                count == padded / align,
                align > 0,
        ;
        count * align
    }

    /// The layout of `n` handles stored one after the other.
    pub fn handle_array(n: usize) -> (r: Result<Layout, MemoryLayoutError>)
        ensures
            Self::parts(r) == Self::handle_array_spec(n),
    {
        match n.checked_mul(HANDLE_SIZE) {
            None => Err(MemoryLayoutError::LayoutError(LayoutError {})),
            Some(total) => {
                assert(is_power_of_two(HANDLE_SIZE)) by (bit_vector);
                match Layout::from_size_align(total, HANDLE_SIZE) {
                    Ok(l) => Ok(l),
                    Err(e) => Err(MemoryLayoutError::from(e)),
                }
            },
        }
    }
}

/// The number of bytes that a handle takes where it is stored in an object.
pub const HANDLE_SIZE: usize = 8;

/// The rounded-up size of one element times `n`: the size of an array of `n`
/// elements of the given layout, each padded to its alignment.
pub open spec fn repeat_size(layout: Layout, n: usize) -> int {
    round_up(layout.spec_size() as int, layout.spec_align() as int) * n
}

/// The size and the alignment of the layout of `n` instances of `layout`, or
/// the error: `OutOfBounds` where the total size exceeds `usize::MAX`, a
/// `LayoutError` where it fits but forms no layout with the alignment.
pub open spec fn repeat_layout_spec(layout: Layout, n: usize) -> Result<
    (usize, usize),
    MemoryLayoutError,
> {
    let total = repeat_size(layout, n);
    if total > usize::MAX {
        Err(MemoryLayoutError::OutOfBounds)
    } else if !Layout::valid(total as usize, layout.spec_align()) {
        Err(MemoryLayoutError::LayoutError(LayoutError {}))
    } else {
        Ok((total as usize, layout.spec_align()))
    }
}

/// Creates a layout describing the record for `n` instances of `layout`, with
/// padding between each so that every instance has its size and alignment.
///
/// The stride is the element size rounded up to the element alignment. A total
/// beyond `usize::MAX` is `OutOfBounds`; one that fits but does not form a
/// layout with the alignment is a `LayoutError`.
pub fn repeat_layout(layout: Layout, n: usize) -> (r: Result<Layout, MemoryLayoutError>)
    ensures
        Layout::parts(r) == repeat_layout_spec(layout, n),
{
    let align = layout.align();
    let stride = layout.padded_size();
    match stride.checked_mul(n) {
        None => Err(MemoryLayoutError::OutOfBounds),
        Some(total) => match Layout::from_size_align(total, align) {
            Ok(l) => Ok(l),
            Err(e) => Err(MemoryLayoutError::from(e)),
        },
    }
}

} // verus!
