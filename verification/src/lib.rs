use vstd::prelude::*;
use vstd::slice::slice_subrange;

verus! {

/// A positional cursor: a payload paired with a mutable read offset.
///
/// The offset counts elements, not bytes, and no invariant ties it to the
/// payload's bounds: a holder may freely seek past the end. Bounds are
/// enforced only at the point of use, by the reading operations on the
/// borrowed-slice specialization.
#[derive(Debug)]
pub struct Cursor<T> {
    /// The wrapped payload.
    pub data: T,
    /// The logical read position, in elements. It may exceed the payload's
    /// length; reads then degrade gracefully instead of failing at the
    /// moment the field is assigned.
    pub offset: usize,
}

/// The start index actually used when viewing `data` from `offset`:
/// the offset, clamped to the sequence's length.
pub open spec fn clamped_start<T>(data: Seq<T>, offset: nat) -> int {
    if offset <= data.len() {
        offset as int
    } else {
        data.len() as int
    }
}

/// What remains of `data` when viewed from `offset`: the suffix starting at
/// the clamped offset. Empty whenever `offset` is at or past the end.
pub open spec fn remaining_of<T>(data: Seq<T>, offset: nat) -> Seq<T> {
    data.subrange(clamped_start(data, offset), data.len() as int)
}

/// Whether a consuming read of `len` elements at `offset` fits entirely
/// within `data`. The sum is mathematical: a request whose end position
/// would not even fit in memory is simply out of bounds.
pub open spec fn read_in_bounds<T>(data: Seq<T>, offset: nat, len: nat) -> bool {
    offset + len <= data.len()
}

/// What a consuming read of `len` elements at `offset` returns: exactly the
/// requested range when it fits, nothing otherwise.
pub open spec fn read_result<T>(data: Seq<T>, offset: nat, len: nat) -> Option<Seq<T>> {
    if read_in_bounds(data, offset, len) {
        Some(data.subrange(offset as int, (offset + len) as int))
    } else {
        None
    }
}

/// Where a consuming read of `len` elements at `offset` leaves the offset:
/// past the consumed range on success, where it was on failure.
pub open spec fn offset_after_read<T>(data: Seq<T>, offset: nat, len: nat) -> nat {
    if read_in_bounds(data, offset, len) {
        (offset + len) as nat
    } else {
        offset
    }
}

impl<T> Cursor<T> {
    /// Wraps `data`, with the offset at the start.
    pub fn new(data: T) -> (r: Cursor<T>)
        ensures
            r == (Cursor { data, offset: 0usize }),
    {
        Cursor { data, offset: 0 }
    }
}

impl<T> From<T> for Cursor<T> {
    /// Wrapping through the generic conversion is the same as `new`.
    fn from(data: T) -> (r: Cursor<T>) {
        Cursor::new(data)
    }
}

impl<T: Clone> Clone for Cursor<T> {
    /// A clone copies the payload per `T`'s own clone semantics and keeps
    /// the offset numerically identical; the source is untouched.
    fn clone(&self) -> (r: Cursor<T>)
        ensures
            cloned(self.data, r.data),
            r.offset == self.offset,
    {
        Cursor { data: self.data.clone(), offset: self.offset }
    }
}

impl<T: Default> Default for Cursor<T> {
    /// The default cursor wraps `T`'s own default value, with the offset at
    /// the start.
    fn default() -> (r: Cursor<T>)
        ensures
            call_ensures(T::default, (), r.data),
            r.offset == 0,
    {
        Cursor { data: T::default(), offset: 0 }
    }
}

impl<T> vstd::std_specs::convert::FromSpecImpl<T> for Cursor<T> {
    open spec fn obeys_from_spec() -> bool {
        true
    }

    open spec fn from_spec(data: T) -> Cursor<T> {
        Cursor { data, offset: 0usize }
    }
}

impl<'a, T> Cursor<&'a [T]> {
    /// Returns the remaining slice from the current offset, without moving
    /// it. The start index is clamped to the slice's length, so an offset
    /// past the end yields an empty slice rather than a failure.
    pub fn remaining_slice(&self) -> (r: &'a [T])
        ensures
            r@ == remaining_of(self.data@, self.offset as nat),
    {
        let start = if self.offset <= self.data.len() {
            self.offset
        } else {
            self.data.len()
        };
        slice_subrange(self.data, start, self.data.len())
    }

    /// Reads `len` elements from the current offset. All or nothing: when
    /// the whole range `[offset, offset + len)` lies within the data, it is
    /// returned and the offset advances past it; otherwise — including when
    /// the offset already exceeds the data's length, or the end position
    /// overflows — nothing is returned and the offset is unchanged.
    pub fn read_slice(&mut self, len: usize) -> (r: Option<&'a [T]>)
        ensures
            final(self).data == old(self).data,
            final(self).offset == offset_after_read(
                old(self).data@,
                old(self).offset as nat,
                len as nat,
            ),
            r is Some <==> read_in_bounds(old(self).data@, old(self).offset as nat, len as nat),
            r matches Some(s) ==> Some(s@) == read_result(
                old(self).data@,
                old(self).offset as nat,
                len as nat,
            ),
            r is None ==> *final(self) == *old(self),
    {
        if self.offset <= self.data.len() && len <= self.data.len() - self.offset {
            let end = self.offset + len;
            let slice = slice_subrange(self.data, self.offset, end);
            self.offset = end;
            Some(slice)
        } else {
            None
        }
    }
}

/// A freshly wrapped sequence is entirely remaining: viewing from offset
/// zero yields the whole of it.
pub proof fn lemma_remaining_after_new<T>(data: Seq<T>)
    ensures
        remaining_of(data, 0) == data,
{
    assert(remaining_of(data, 0) =~= data);
}

/// Viewing from an offset at or past the end yields an empty sequence.
pub proof fn lemma_remaining_past_end<T>(data: Seq<T>, offset: nat)
    requires
        offset >= data.len(),
    ensures
        remaining_of(data, offset).len() == 0,
{
}

/// A failed read is idempotent: an out-of-bounds read returns nothing and
/// leaves the offset where it was, so the same request, repeated from the
/// state the failure left behind, fails in exactly the same way.
pub proof fn lemma_failed_read_idempotent<T>(data: Seq<T>, offset: nat, len: nat)
    requires
        !read_in_bounds(data, offset, len),
    ensures
        read_result(data, offset, len) is None,
        offset_after_read(data, offset, len) == offset,
        read_result(data, offset_after_read(data, offset, len), len) is None,
        offset_after_read(data, offset_after_read(data, offset, len), len) == offset,
{
}

/// Wrapping a payload through the generic conversion produces the same
/// cursor as construction: the payload unchanged and the offset zero.
pub proof fn lemma_from_is_new<T>(data: T)
    ensures
        <Cursor<T> as vstd::std_specs::convert::FromSpec<T>>::from_spec(data) == (Cursor {
            data,
            offset: 0usize,
        }),
{
}

} // verus!
