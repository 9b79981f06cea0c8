//! The one view of an application with a single UI.

use vstd::prelude::*;

verus! {

/// The views of an application with a piece of data each. The accessors answer
/// only where there is exactly one view.
pub struct NoesisUi<D> {
    pub views: Vec<(u64, D)>,
}

impl<D> NoesisUi<D> {
    /// The one view.
    pub fn entity(&self) -> (r: Option<u64>)
        ensures
            r == if self.views@.len() == 1 {
                Some(self.views@[0].0)
            } else {
                None
            },
    {
        if self.views.len() == 1 {
            Some(self.views[0].0)
        } else {
            None
        }
    }

    /// The data of the one view.
    pub fn get(&self) -> (r: Option<&D>)
        ensures
            match r {
                Some(d) => self.views@.len() == 1 && *d == self.views@[0].1,
                None => self.views@.len() != 1,
            },
    {
        if self.views.len() == 1 {
            Some(&self.views[0].1)
        } else {
            None
        }
    }

    /// The data of the one view, to be changed.
    pub fn get_mut(&mut self) -> (r: Option<&mut D>)
        ensures
            match r {
                Some(d) => {
                    &&& old(self).views@.len() == 1
                    &&& *d == old(self).views@[0].1
                    &&& final(self).views@ == seq![(old(self).views@[0].0, *final(d))]
                },
                None => old(self).views@.len() != 1 && final(self).views == old(self).views,
            },
    {
        if self.views.len() == 1 {
            Some(&mut self.views[0].1)
        } else {
            None
        }
    }
}

} // verus!
