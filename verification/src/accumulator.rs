use vstd::prelude::*;

verus! {

/// Fixed capacity of a line accumulator, in bytes. A line longer than this
/// (terminator included) overflows and is dropped rather than truncated.
pub const LINE_CAPACITY: usize = 32;

/// Declares heapless's fixed-capacity vector so that values of it can be
/// held in fields and spoken of in contracts.
#[verifier::external_type_specification]
#[verifier::external_body]
#[verifier::reject_recursive_types(T)]
pub struct ExHeaplessVec<T, const N: usize>(heapless::Vec<T, N>);

/// The bytes a fixed-capacity buffer holds, oldest first.
pub uninterp spec fn buf_bytes(v: heapless::Vec<u8, 32>) -> Seq<u8>;

/// Relies on heapless::Vec::new: a freshly constructed vector is empty.
#[verifier::external_body]
fn buf_new() -> (r: heapless::Vec<u8, 32>)
    ensures
        buf_bytes(r) == Seq::<u8>::empty(),
{
    heapless::Vec::new()
}

/// Relies on heapless::Vec::push: appends the byte when the vector holds
/// fewer bytes than its capacity, and otherwise fails, handing the byte
/// back and leaving the vector unchanged.
#[verifier::external_body]
fn buf_push(v: &mut heapless::Vec<u8, 32>, b: u8) -> (r: Result<(), u8>)
    ensures
        r == (if buf_bytes(*old(v)).len() < 32 { Ok::<(), u8>(()) } else { Err::<(), u8>(b) }),
        buf_bytes(*final(v)) == (if buf_bytes(*old(v)).len() < 32 {
            buf_bytes(*old(v)).push(b)
        } else {
            buf_bytes(*old(v))
        }),
{
    v.push(b)
}

/// Relies on heapless::Vec::clear: removes every byte.
#[verifier::external_body]
fn buf_clear(v: &mut heapless::Vec<u8, 32>)
    ensures
        buf_bytes(*final(v)) == Seq::<u8>::empty(),
{
    v.clear()
}

/// Relies on heapless::Vec::as_slice: exposes exactly the held bytes, in
/// order of insertion.
#[verifier::external_body]
fn buf_as_slice(v: &heapless::Vec<u8, 32>) -> (r: &[u8])
    ensures
        r@ == buf_bytes(*v),
{
    v.as_slice()
}

/// Returned by `append` when the accumulator is already full.
#[derive(Clone, Copy, PartialEq, Eq, Structural, Debug)]
pub struct Overflow;

/// One port's line buffer: it appends incoming bytes up to a fixed capacity
/// of `LINE_CAPACITY` and is cleared when a line completes or overflows.
pub struct LineAccumulator {
    buf: heapless::Vec<u8, 32>,
}

impl View for LineAccumulator {
    type V = Seq<u8>;

    closed spec fn view(&self) -> Seq<u8> {
        buf_bytes(self.buf)
    }
}

impl LineAccumulator {
    /// A fresh, empty accumulator.
    pub fn new() -> (r: LineAccumulator)
        ensures
            r@ == Seq::<u8>::empty(),
    {
        LineAccumulator { buf: buf_new() }
    }

    /// How many bytes are currently accumulated.
    pub fn len(&self) -> (n: usize)
        ensures
            n == self@.len(),
    {
        buf_as_slice(&self.buf).len()
    }

    /// Appends one byte if there is room, and otherwise fails with
    /// `Overflow`, leaving the buffer unchanged.
    pub fn append(&mut self, b: u8) -> (r: Result<(), Overflow>)
        ensures
            old(self)@.len() < LINE_CAPACITY ==> r == Ok::<(), Overflow>(())
                && final(self)@ == old(self)@.push(b),
            old(self)@.len() >= LINE_CAPACITY ==> r == Err::<(), Overflow>(Overflow)
                && final(self)@ == old(self)@,
    {
        match buf_push(&mut self.buf, b) {
            Ok(()) => Ok(()),
            Err(_) => Err(Overflow),
        }
    }

    /// Resets the accumulator to empty; the storage is retained for reuse.
    pub fn clear(&mut self)
        ensures
            final(self)@ == Seq::<u8>::empty(),
    {
        buf_clear(&mut self.buf)
    }

    /// Read-only view of the accumulated bytes in receipt order.
    pub fn contents(&self) -> (r: &[u8])
        ensures
            r@ == self@,
    {
        buf_as_slice(&self.buf)
    }
}

} // verus!
