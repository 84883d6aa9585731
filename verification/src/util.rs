//! Small holders of values.
use vstd::prelude::*;

verus! {

/// An array that hands out its items one by one, first to last.
#[derive(Debug, Copy, Clone)]
pub struct OwnedArrayIterator<T: Sized + Copy, const N: usize> {
    inner: [T; N],
    index: usize,
}

impl<T: Sized + Copy, const N: usize> OwnedArrayIterator<T, N> {
    /// The items that are still to come, in order.
    pub closed spec fn remaining(&self) -> Seq<T> {
        if self.index <= N {
            self.inner@.skip(self.index as int)
        } else {
            Seq::empty()
        }
    }

    pub fn new(inner: [T; N]) -> (iterator: Self)
        ensures
            iterator.remaining() == inner@,
    {
        let iterator = Self { inner, index: 0 };
        assert(inner@.skip(0) =~= inner@);
        iterator
    }

    /// Hands out the next item, or `None` when all have been handed out.
    pub fn next(&mut self) -> (item: Option<T>)
        ensures
            old(self).remaining().len() == 0 ==> item is None && final(self).remaining() == old(self).remaining(),
            old(self).remaining().len() > 0 ==> item == Some(old(self).remaining()[0]) && final(self).remaining() == old(self).remaining().skip(1),
    {
        if self.index < N {
            let item = self.inner[self.index];
            assert(self.inner@.skip(self.index as int).skip(1) =~= self.inner@.skip(
                self.index as int + 1,
            ));
            self.index += 1;
            Some(item)
        } else {
            None
        }
    }
}

/// A cell for a value that hardware may read or change: it is read and
/// written whole, by explicit calls.
pub struct Volatile<T>(T);

impl<T: Copy> Volatile<T> {
    /// What the cell holds.
    pub closed spec fn value(&self) -> T {
        self.0
    }

    pub fn new(value: T) -> (cell: Self)
        ensures
            cell.value() == value,
    {
        Volatile(value)
    }

    pub fn read(&self) -> (value: T)
        ensures
            value == self.value(),
    {
        self.0
    }

    pub fn write(&mut self, value: T)
        ensures
            final(self).value() == value,
    {
        self.0 = value;
    }
}

/// A holder that gives its value out to one user at a time.
pub struct Mutex<T>(T);

impl<T> Mutex<T> {
    /// What the holder holds.
    pub closed spec fn value(&self) -> T {
        self.0
    }

    pub fn new(inner: T) -> (mutex: Self)
        ensures
            mutex.value() == inner,
    {
        Mutex(inner)
    }

    /// Gives the value out to be read and changed.
    pub fn lock(&mut self) -> (inner: &mut T)
        ensures
            *inner == old(self).value(),
            final(self).value() == *final(inner),
    {
        &mut self.0
    }
}

/// A value that is made when it is first asked for.
pub struct Once<T> {
    data: Option<T>,
}

impl<T> Once<T> {
    /// The value, once it has been made.
    pub closed spec fn value(&self) -> Option<T> {
        self.data
    }

    pub fn new() -> (once: Self)
        ensures
            once.value() is None,
    {
        Once { data: None }
    }

    /// The value, made by `f` if this is the first call.
    pub fn call_once<F: Fn() -> T>(&mut self, f: F) -> (value: &mut T)
        requires
            f.requires(()),
        ensures
            old(self).value() matches Some(made) ==> *value == made,
            old(self).value() is None ==> f.ensures((), *value),
            final(self).value() == Some(*final(value)),
    {
        if self.data.is_none() {
            self.data = Some(f());
        }
        match &mut self.data {
            Some(value) => value,
            None => vstd::pervasive::unreached(),
        }
    }
}

} // verus!
