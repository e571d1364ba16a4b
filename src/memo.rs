use vstd::prelude::*;

verus! {

/// The state of a compute-once cell after offering it `v`: the first value
/// offered stays for good.
pub open spec fn settled<T>(o: Option<T>, v: T) -> Option<T> {
    match o {
        Some(x) => Some(x),
        None => Some(v),
    }
}

/// A compute-once cell. Whatever is stored first, success or failure, is
/// kept forever and never recomputed; the default connection lives in one.
pub struct Memo<T> {
    value: Option<T>,
}

impl<T> Memo<T> {
    pub closed spec fn view(&self) -> Option<T> {
        self.value
    }

    pub fn new() -> (r: Memo<T>)
        ensures
            r@ is None,
    {
        Memo { value: None }
    }

    /// Whether a value has been stored; once true, the computation must not
    /// be attempted again.
    pub fn is_settled(&self) -> (r: bool)
        ensures
            r == self@ is Some,
    {
        self.value.is_some()
    }

    /// Offers a computed value; it is kept only if the cell is still empty.
    pub fn settle(&mut self, v: T)
        ensures
            final(self)@ == settled(old(self)@, v),
    {
        if self.value.is_none() {
            self.value = Some(v);
        }
    }

    /// The stored value, if any.
    pub fn get(&self) -> (r: Option<&T>)
        ensures
            match self@ {
                Some(x) => r matches Some(y) && *y == x,
                None => r is None,
            },
    {
        match &self.value {
            Some(x) => Some(x),
            None => None,
        }
    }
}

} // verus!
