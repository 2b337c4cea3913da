//! A cell that can be set once: a second attempt is refused and hands the
//! value back.
use vstd::prelude::*;

verus! {

pub struct OnceCell<T> {
    value: Option<T>,
}

impl<T> OnceCell<T> {
    /// The value held, if the cell has been set.
    pub closed spec fn content(&self) -> Option<T> {
        self.value
    }

    /// An empty cell.
    pub fn new() -> (r: OnceCell<T>)
        ensures
            r.content() is None,
    {
        OnceCell { value: None }
    }

    /// Sets the cell; when it is already set, leaves it as it is and returns
    /// `v` back as the error.
    pub fn set(&mut self, v: T) -> (r: Result<(), T>)
        ensures
            old(self).content() is None ==> r is Ok && final(self).content() == Some(v),
            old(self).content() is Some ==> r == Err::<(), T>(v) && final(self).content()
                == old(self).content(),
    {
        if self.value.is_some() {
            Err(v)
        } else {
            self.value = Some(v);
            Ok(())
        }
    }

    /// The value held, if the cell has been set.
    pub fn get(&self) -> (r: Option<&T>)
        ensures
            r matches Some(x) ==> self.content() == Some(*x),
            r is None <==> self.content() is None,
    {
        match &self.value {
            Some(x) => Some(x),
            None => None,
        }
    }

    /// Whether the cell has been set.
    pub fn is_set(&self) -> (r: bool)
        ensures
            r == self.content() is Some,
    {
        self.value.is_some()
    }
}

} // verus!
