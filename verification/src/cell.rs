//! A cell that is initialized once.
use vstd::prelude::*;

verus! {

/// A cell that may only be initialized once and exactly once.
pub struct OnceLock<T> {
    /// The actual contents of the `OnceLock`
    contents: Option<T>,
    /// Whether or not the `OnceLock` is fully initialized
    is_set: bool,
    /// Whether or not the `OnceLock` is in the process of initializing
    is_setting: bool,
}

impl<T> OnceLock<T> {
    /// The contents of the cell, if it is set.
    pub closed spec fn view(&self) -> Option<T> {
        self.contents
    }

    /// Well-formedness: the cell is set exactly when it holds contents, and a set cell has
    /// finished initializing.
    pub closed spec fn wf(&self) -> bool {
        &&& self.is_set == self.contents is Some
        &&& self.is_set ==> self.is_setting
        &&& self.is_setting ==> self.is_set
    }

    /// Creates a new, empty cell.
    pub fn new() -> (r: Self)
        ensures
            r.wf(),
            r@ is None,
    {
        OnceLock { contents: None, is_set: false, is_setting: false }
    }

    /// Sets the cell to the given value, if the value is not already set.
    ///
    /// Returns the value back in `Err` if the cell was already set.
    pub fn set(&mut self, value: T) -> (r: Result<(), T>)
        requires
            old(self).wf(),
        ensures
            final(self).wf(),
            old(self)@ is None ==> r is Ok && final(self)@ == Some(value),
            old(self)@ is Some ==> r == Err::<(), T>(value) && final(self)@ == old(self)@,
    {
        if self.is_setting {
            Err(value)
        } else {
            self.is_setting = true;
            self.contents = Some(value);
            self.is_set = true;
            Ok(())
        }
    }

    /// Gets the reference to the underlying value, or `None` if the cell is empty.
    pub fn get(&self) -> (r: Option<&T>)
        requires
            self.wf(),
        ensures
            self@ is None ==> r is None,
            self@ is Some ==> r is Some && *r.unwrap() == self@.unwrap(),
    {
        if self.is_set {
            match &self.contents {
                Some(v) => Some(v),
                None => None,
            }
        } else {
            None
        }
    }
}

} // verus!
