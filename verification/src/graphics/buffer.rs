//! GPU vertex buffers.
use vstd::prelude::*;

verus! {

/// A GL buffer object and the size, in bytes, of its storage.
pub struct Buffer {
    handle: u32,
    size: isize,
}

impl Buffer {
    pub closed spec fn spec_handle(&self) -> u32 {
        self.handle
    }

    pub closed spec fn spec_size(&self) -> isize {
        self.size
    }

    /// A buffer of `size` bytes held by the GL buffer object `handle`.
    pub fn new(size: isize, handle: u32) -> (b: Buffer)
        ensures
            b.spec_size() == size,
            b.spec_handle() == handle,
    {
        Buffer { handle, size }
    }

    pub fn size(&self) -> (r: isize)
        ensures
            r == self.spec_size(),
    {
        self.size
    }

    /// Records that the buffer's storage now holds `new_size` bytes.
    pub fn resize(&mut self, new_size: isize)
        ensures
            final(self).spec_size() == new_size,
            final(self).spec_handle() == old(self).spec_handle(),
    {
        self.size = new_size;
    }

    /// The upload of `count` elements of `elem_size` bytes each at byte
    /// `offset` of the buffer: the buffer object to bind, the offset and the
    /// number of bytes, for the GL call that writes them. Uploading changes
    /// the buffer's contents on the GPU, not the buffer value, so its size
    /// stays as it was.
    pub fn set_data(&self, offset: isize, count: usize, elem_size: usize) -> (r: (u32, isize, isize))
        requires
            count * elem_size <= isize::MAX,
        ensures
            r == (self.spec_handle(), offset, (count * elem_size) as isize),
    {
        assert(count * elem_size <= usize::MAX) by (nonlinear_arith)
            requires count * elem_size <= isize::MAX;
        let bytes = count * elem_size;
        (self.handle, offset, bytes as isize)
    }

    pub fn handle(&self) -> (r: u32)
        ensures
            r == self.spec_handle(),
    {
        self.handle
    }
}

/// The size a buffer reports after being made with `n` bytes and then
/// given the calls `calls` in turn, where `Some(m)` is `resize(m)` and
/// `None` is `set_data`: the size of the last resize, or `n`.
pub open spec fn spec_size_after(n: isize, calls: Seq<Option<isize>>) -> isize
    decreases calls.len(),
{
    if calls.len() == 0 {
        n
    } else {
        match calls.last() {
            Some(m) => m,
            None => spec_size_after(n, calls.drop_last()),
        }
    }
}

/// What call `call` (as in `spec_size_after`) makes of buffer `before`:
/// `resize(m)` gives a buffer of `m` bytes with the same handle, and
/// `set_data`, which borrows the buffer only to read it, leaves it as it was.
pub open spec fn spec_call_result(before: Buffer, call: Option<isize>, after: Buffer) -> bool {
    match call {
        Some(m) => after.spec_size() == m && after.spec_handle() == before.spec_handle(),
        None => after == before,
    }
}

/// A buffer's size is that of the last `resize` it was given, or the size it
/// was made with when it was never resized, whatever uploads came between;
/// its handle never changes. `states[0]` is the buffer `new` made, and each
/// `states[j + 1]` is what call `calls[j]` left of `states[j]`. (`size`
/// only reads.)
pub proof fn law_size_after_calls(n: isize, handle: u32, calls: Seq<Option<isize>>, states: Seq<Buffer>)
    requires
        states.len() == calls.len() + 1,
        states[0].spec_size() == n,
        states[0].spec_handle() == handle,
        forall|j: int| 0 <= j < calls.len() ==> spec_call_result(states[j], calls[j], #[trigger] states[j + 1]),
    ensures
        states.last().spec_size() == spec_size_after(n, calls),
        states.last().spec_handle() == handle,
    decreases calls.len(),
{
    if calls.len() > 0 {
        let k = calls.len() - 1;
        law_size_after_calls(n, handle, calls.drop_last(), states.drop_last());
        assert(spec_call_result(states[k], calls[k], states[k + 1]));
        assert(states.drop_last().last() == states[k]);
    }
}

} // verus!
