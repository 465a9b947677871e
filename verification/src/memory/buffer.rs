use crate::error::DnnlError;
use vstd::prelude::*;

verus! {

/// An owned block of tensor elements.
///
/// Elements are the library's plain cell type `i64`. The block has exactly
/// one owner; a bound memory object takes it by move, never by borrow, so the
/// storage outlives every native-side use structurally.
#[derive(Debug)]
pub struct AlignedBuffer {
    data: Vec<i64>,
}

impl View for AlignedBuffer {
    type V = Seq<i64>;

    closed spec fn view(&self) -> Seq<i64> {
        self.data@
    }
}

impl AlignedBuffer {
    /// Allocates a buffer holding a copy of `data`.
    pub fn new(data: &[i64]) -> (r: Result<AlignedBuffer, DnnlError>)
        ensures
            r matches Ok(b) && b@ == data@,
    {
        let mut v: Vec<i64> = Vec::new();
        let mut i: usize = 0;
        while i < data.len()
            invariant
                i <= data.len(),
                v@ == data@.take(i as int),
            decreases data.len() - i,
        {
            v.push(data[i]);
            i = i + 1;
        }
        proof {
            assert(v@ == data@.take(data@.len() as int));
            assert(data@.take(data@.len() as int) =~= data@);
        }
        Ok(AlignedBuffer { data: v })
    }

    /// Allocates a buffer of `length` elements, all zero.
    pub fn zeroed(length: usize) -> (r: Result<AlignedBuffer, DnnlError>)
        ensures
            r matches Ok(b) && b@ == Seq::<i64>::new(length as nat, |i: int| 0i64),
    {
        let mut v: Vec<i64> = Vec::new();
        let mut i: usize = 0;
        while i < length
            invariant
                i <= length,
                v@ == Seq::<i64>::new(i as nat, |j: int| 0i64),
            decreases length - i,
        {
            v.push(0);
            proof {
                assert(v@ =~= Seq::<i64>::new((i + 1) as nat, |j: int| 0i64));
            }
            i = i + 1;
        }
        Ok(AlignedBuffer { data: v })
    }

    /// Number of elements in the buffer.
    pub fn len(&self) -> (r: usize)
        ensures
            r == self@.len(),
    {
        self.data.len()
    }

    /// Immutable view of the buffer's elements.
    pub fn as_slice(&self) -> (r: &[i64])
        ensures
            r@ == self@,
    {
        self.data.as_slice()
    }

    /// Copy of the buffer's elements.
    pub fn to_vec(&self) -> (r: Vec<i64>)
        ensures
            r@ == self@,
    {
        let mut v: Vec<i64> = Vec::new();
        let mut i: usize = 0;
        while i < self.data.len()
            invariant
                i <= self.data.len(),
                v@ == self.data@.take(i as int),
            decreases self.data.len() - i,
        {
            v.push(self.data[i]);
            i = i + 1;
        }
        proof {
            assert(v@ == self.data@.take(self.data@.len() as int));
            assert(self.data@.take(self.data@.len() as int) =~= self.data@);
        }
        v
    }

    /// Reads the element at `index`.
    pub fn read(&self, index: usize) -> (r: i64)
        requires
            index < self@.len(),
        ensures
            r == self@[index as int],
    {
        self.data[index]
    }

    /// Overwrites the element at `index`.
    pub fn set(&mut self, index: usize, value: i64)
        requires
            index < old(self)@.len(),
        ensures
            final(self)@ == old(self)@.update(index as int, value),
    {
        self.data.set(index, value);
    }

    /// Overwrites the first `values.len()` elements with `values`, leaving
    /// the rest of the buffer unchanged.
    pub fn write_prefix(&mut self, values: &Vec<i64>)
        requires
            values@.len() <= old(self)@.len(),
        ensures
            final(self)@.len() == old(self)@.len(),
            final(self)@.take(values@.len() as int) == values@,
            final(self)@.skip(values@.len() as int) == old(self)@.skip(values@.len() as int),
    {
        let mut i: usize = 0;
        while i < values.len()
            invariant
                i <= values@.len(),
                values@.len() <= self@.len(),
                self@.len() == old(self)@.len(),
                self@.take(i as int) == values@.take(i as int),
                self@.skip(values@.len() as int) == old(self)@.skip(values@.len() as int),
            decreases values.len() - i,
        {
            let ghost prev = self@;
            self.data.set(i, values[i]);
            proof {
                assert(self@.take((i + 1) as int) =~= values@.take((i + 1) as int));
                assert(self@.skip(values@.len() as int) =~= prev.skip(values@.len() as int));
            }
            i = i + 1;
        }
        proof {
            assert(self@.take(values@.len() as int) =~= values@);
        }
    }
}

} // verus!
