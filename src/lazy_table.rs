use vstd::prelude::*;

verus! {

/// A slot for an extension function table, filled on first use and kept.
///
/// The counter records how many times the table was resolved; it stays at
/// one once the slot is filled.
pub struct LazyTable<T> {
    table: Option<T>,
    resolutions: u64,
}

impl<T> LazyTable<T> {
    #[verifier::type_invariant]
    spec fn inv(&self) -> bool {
        self.resolutions == (if self.table is Some { 1u64 } else { 0u64 })
    }

    /// The table held, if it was resolved.
    pub closed spec fn value(&self) -> Option<T> {
        self.table
    }

    /// How many times the table was resolved.
    pub closed spec fn spec_resolutions(&self) -> nat {
        self.resolutions as nat
    }

    /// An empty slot.
    pub fn new() -> (r: LazyTable<T>)
        ensures
            r.value() is None,
            r.spec_resolutions() == 0,
    {
        LazyTable { table: None, resolutions: 0 }
    }

    pub fn get(&self) -> (r: Option<&T>)
        ensures
            r matches Some(t) ==> self.value() == Some(*t),
            r is None <==> self.value() is None,
    {
        self.table.as_ref()
    }

    pub fn resolutions(&self) -> (r: u64)
        ensures
            r == self.spec_resolutions(),
    {
        self.resolutions
    }

    /// The held table; an empty slot first resolves it through `resolve`.
    /// A filled slot is returned as it is and `resolve` is not called.
    pub fn get_or_resolve<F: FnOnce() -> T>(&mut self, resolve: F) -> (r: &T)
        requires
            old(self).value() is None ==> resolve.requires(()),
        ensures
            final(self).value() == Some(*r),
            old(self).value() is Some ==> *final(self) == *old(self),
            old(self).value() is None ==> resolve.ensures((), *r) && final(self).spec_resolutions()
                == old(self).spec_resolutions() + 1,
    {
        proof {
            use_type_invariant(&*self);
        }
        if self.table.is_none() {
            let t = resolve();
            *self = LazyTable { table: Some(t), resolutions: 1 };
        }
        proof {
            use_type_invariant(&*self);
        }
        self.table.as_ref().unwrap()
    }
}

} // verus!
