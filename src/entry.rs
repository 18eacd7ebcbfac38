use vstd::prelude::*;
use crate::capability::{
    Extension,
    Extensions,
    ValidationLayer,
    ValidationLayers,
    extension_named,
    layer_named,
};

verus! {

/// The views of a list of names reported by the driver.
pub open spec fn name_views(names: Seq<String>) -> Seq<Seq<char>> {
    names.map_values(|s: String| s@)
}

/// The known extensions that occur among `names`; unknown names are skipped.
pub open spec fn extensions_of(names: Seq<Seq<char>>) -> Extensions {
    Extensions {
        khr_surface: exists|i: int|
            0 <= i < names.len() && extension_named(#[trigger] names[i]) == Some(Extension::KhrSurface),
        khr_xcb_surface: exists|i: int|
            0 <= i < names.len() && extension_named(#[trigger] names[i]) == Some(Extension::KhrXcbSurface),
        khr_xlib_surface: exists|i: int|
            0 <= i < names.len() && extension_named(#[trigger] names[i]) == Some(Extension::KhrXlibSurface),
        khr_wayland_surface: exists|i: int|
            0 <= i < names.len() && extension_named(#[trigger] names[i]) == Some(Extension::KhrWaylandSurface),
    }
}

/// The known validation layers that occur among `names`; unknown names are skipped.
pub open spec fn layers_of(names: Seq<Seq<char>>) -> ValidationLayers {
    ValidationLayers {
        khronos_validation: exists|i: int|
            0 <= i < names.len() && layer_named(#[trigger] names[i]) == Some(ValidationLayer::KhronosValidation),
    }
}

/// Builds the set of the known extensions among the names that the driver reported.
/// Names that no known extension has are skipped, never an error.
pub fn extensions_from_names(names: &Vec<String>) -> (r: Extensions)
    ensures
        r == extensions_of(name_views(names@)),
{
    let mut acc = Extensions::none();
    let mut i: usize = 0;
    while i < names.len()
        invariant
            0 <= i <= names.len(),
            forall|e: Extension| #[trigger] acc.has(e) == exists|j: int|
                0 <= j < i && extension_named(#[trigger] names@[j]@) == Some(e),
        decreases names.len() - i,
    {
        match Extension::from_name(names[i].as_str()) {
            Some(e) => acc.insert(e),
            None => {},
        }
        proof {
            assert forall|x: Extension| #[trigger] acc.has(x) == exists|j: int|
                0 <= j < i + 1 && extension_named(#[trigger] names@[j]@) == Some(x) by {
                if extension_named(names@[i as int]@) == Some(x) {
                    assert(acc.has(x));
                }
            }
        }
        i = i + 1;
    }
    let ghost views = name_views(names@);
    assert forall|e: Extension| #[trigger] acc.has(e) == extensions_of(views).has(e) by {
        if acc.has(e) {
            let j = choose|j: int| 0 <= j < names.len() && extension_named(#[trigger] names@[j]@) == Some(e);
            assert(views[j] == names@[j]@);
        }
        if extensions_of(views).has(e) {
            let j = choose|j: int| 0 <= j < views.len() && extension_named(#[trigger] views[j]) == Some(e);
            assert(views[j] == names@[j]@);
        }
    }
    assert(acc.has(Extension::KhrSurface) == extensions_of(views).has(Extension::KhrSurface));
    assert(acc.has(Extension::KhrXcbSurface) == extensions_of(views).has(Extension::KhrXcbSurface));
    assert(acc.has(Extension::KhrXlibSurface) == extensions_of(views).has(Extension::KhrXlibSurface));
    assert(acc.has(Extension::KhrWaylandSurface) == extensions_of(views).has(Extension::KhrWaylandSurface));
    acc
}

/// Builds the set of the known validation layers among the names that the driver reported.
/// Names that no known layer has are skipped, never an error.
pub fn layers_from_names(names: &Vec<String>) -> (r: ValidationLayers)
    ensures
        r == layers_of(name_views(names@)),
{
    let mut acc = ValidationLayers::none();
    let mut i: usize = 0;
    while i < names.len()
        invariant
            0 <= i <= names.len(),
            forall|l: ValidationLayer| #[trigger] acc.has(l) == exists|j: int|
                0 <= j < i && layer_named(#[trigger] names@[j]@) == Some(l),
        decreases names.len() - i,
    {
        match ValidationLayer::from_name(names[i].as_str()) {
            Some(l) => acc.insert(l),
            None => {},
        }
        proof {
            assert forall|x: ValidationLayer| #[trigger] acc.has(x) == exists|j: int|
                0 <= j < i + 1 && layer_named(#[trigger] names@[j]@) == Some(x) by {
                if layer_named(names@[i as int]@) == Some(x) {
                    assert(acc.has(x));
                }
            }
        }
        i = i + 1;
    }
    let ghost views = name_views(names@);
    assert forall|l: ValidationLayer| #[trigger] acc.has(l) == layers_of(views).has(l) by {
        if acc.has(l) {
            let j = choose|j: int| 0 <= j < names.len() && layer_named(#[trigger] names@[j]@) == Some(l);
            assert(views[j] == names@[j]@);
        }
        if layers_of(views).has(l) {
            let j = choose|j: int| 0 <= j < views.len() && layer_named(#[trigger] views[j]) == Some(l);
            assert(views[j] == names@[j]@);
        }
    }
    assert(acc.has(ValidationLayer::KhronosValidation) == layers_of(views).has(ValidationLayer::KhronosValidation));
    acc
}

/// The loader's capability caches.
///
/// Each cache is filled by the first query and never changes after. The
/// counters record how many times the driver was asked; sharing an `Entry`
/// between threads goes through a lock, so a first query runs once.
pub struct Entry {
    extensions: Option<Extensions>,
    layers: Option<ValidationLayers>,
    extension_queries: u64,
    layer_queries: u64,
}

impl Entry {
    /// The cached set of available extensions, if the driver was asked already.
    pub closed spec fn cached_extensions(&self) -> Option<Extensions> {
        self.extensions
    }

    /// The cached set of available validation layers, if the driver was asked already.
    pub closed spec fn cached_layers(&self) -> Option<ValidationLayers> {
        self.layers
    }

    /// How many times the driver was asked for its extensions.
    pub closed spec fn spec_extension_queries(&self) -> nat {
        self.extension_queries as nat
    }

    /// How many times the driver was asked for its validation layers.
    pub closed spec fn spec_layer_queries(&self) -> nat {
        self.layer_queries as nat
    }

    #[verifier::type_invariant]
    spec fn inv(&self) -> bool {
        &&& self.extension_queries == (if self.extensions is Some { 1u64 } else { 0u64 })
        &&& self.layer_queries == (if self.layers is Some { 1u64 } else { 0u64 })
    }

    /// A loader whose caches are both empty.
    pub fn new() -> (r: Entry)
        ensures
            r.cached_extensions() is None,
            r.cached_layers() is None,
            r.spec_extension_queries() == 0,
            r.spec_layer_queries() == 0,
    {
        Entry { extensions: None, layers: None, extension_queries: 0, layer_queries: 0 }
    }

    pub fn extension_queries(&self) -> (r: u64)
        ensures
            r == self.spec_extension_queries(),
    {
        self.extension_queries
    }

    pub fn layer_queries(&self) -> (r: u64)
        ensures
            r == self.spec_layer_queries(),
    {
        self.layer_queries
    }

    /// What one call of `extensions` owes: the kept set, with nothing
    /// changed, when there is one; else the set of the names that `query`
    /// returned, kept, with one more driver query counted.
    pub open spec fn extensions_step<F: FnOnce() -> Vec<String>>(
        before: Entry,
        query: F,
        after: Entry,
        r: Extensions,
    ) -> bool {
        &&& after.cached_extensions() == Some(r)
        &&& after.cached_layers() == before.cached_layers()
        &&& after.spec_layer_queries() == before.spec_layer_queries()
        &&& before.cached_extensions() is Some ==> r == before.cached_extensions().unwrap()
            && after.spec_extension_queries() == before.spec_extension_queries()
        &&& before.cached_extensions() is None ==> after.spec_extension_queries()
            == before.spec_extension_queries() + 1 && exists|names: Vec<String>|
            query.ensures((), names) && r == extensions_of(name_views(names@))
    }

    /// What one call of `validation_layers` owes, as for `extensions_step`.
    pub open spec fn layers_step<F: FnOnce() -> Vec<String>>(
        before: Entry,
        query: F,
        after: Entry,
        r: ValidationLayers,
    ) -> bool {
        &&& after.cached_layers() == Some(r)
        &&& after.cached_extensions() == before.cached_extensions()
        &&& after.spec_extension_queries() == before.spec_extension_queries()
        &&& before.cached_layers() is Some ==> r == before.cached_layers().unwrap()
            && after.spec_layer_queries() == before.spec_layer_queries()
        &&& before.cached_layers() is None ==> after.spec_layer_queries()
            == before.spec_layer_queries() + 1 && exists|names: Vec<String>|
            query.ensures((), names) && r == layers_of(name_views(names@))
    }

    /// The extensions available on this machine.
    ///
    /// The first call asks the driver through `query` and keeps the result;
    /// later calls return the kept set and do not call `query`.
    pub fn extensions<F: FnOnce() -> Vec<String>>(&mut self, query: F) -> (r: Extensions)
        requires
            old(self).cached_extensions() is None ==> query.requires(()),
        ensures
            Entry::extensions_step(*old(self), query, *final(self), r),
    {
        proof {
            use_type_invariant(&*self);
        }
        match self.extensions {
            Some(e) => e,
            None => {
                let names = query();
                let e = extensions_from_names(&names);
                *self = Entry {
                    extensions: Some(e),
                    layers: self.layers,
                    extension_queries: self.extension_queries + 1,
                    layer_queries: self.layer_queries,
                };
                e
            },
        }
    }

    /// The validation layers available on this machine.
    ///
    /// The first call asks the driver through `query` and keeps the result;
    /// later calls return the kept set and do not call `query`.
    pub fn validation_layers<F: FnOnce() -> Vec<String>>(&mut self, query: F) -> (r: ValidationLayers)
        requires
            old(self).cached_layers() is None ==> query.requires(()),
        ensures
            Entry::layers_step(*old(self), query, *final(self), r),
    {
        proof {
            use_type_invariant(&*self);
        }
        match self.layers {
            Some(l) => l,
            None => {
                let names = query();
                let l = layers_from_names(&names);
                *self = Entry {
                    extensions: self.extensions,
                    layers: Some(l),
                    extension_queries: self.extension_queries,
                    layer_queries: self.layer_queries + 1,
                };
                l
            },
        }
    }
}

/// Asking twice for the available extensions gives equal sets, and the
/// driver is asked once over both calls when nothing was cached before.
pub proof fn lemma_extensions_idempotent<F1: FnOnce() -> Vec<String>, F2: FnOnce() -> Vec<String>>(
    e0: Entry,
    q1: F1,
    e1: Entry,
    r1: Extensions,
    q2: F2,
    e2: Entry,
    r2: Extensions,
)
    requires
        Entry::extensions_step(e0, q1, e1, r1),
        Entry::extensions_step(e1, q2, e2, r2),
    ensures
        r1 == r2,
        e2.cached_extensions() == Some(r1),
        e2.spec_extension_queries() == e0.spec_extension_queries() + (if e0.cached_extensions() is None { 1int } else { 0int }),
{
}

/// Asking twice for the available validation layers gives equal sets, and
/// the driver is asked once over both calls when nothing was cached before.
pub proof fn lemma_layers_idempotent<F1: FnOnce() -> Vec<String>, F2: FnOnce() -> Vec<String>>(
    e0: Entry,
    q1: F1,
    e1: Entry,
    r1: ValidationLayers,
    q2: F2,
    e2: Entry,
    r2: ValidationLayers,
)
    requires
        Entry::layers_step(e0, q1, e1, r1),
        Entry::layers_step(e1, q2, e2, r2),
    ensures
        r1 == r2,
        e2.cached_layers() == Some(r1),
        e2.spec_layer_queries() == e0.spec_layer_queries() + (if e0.cached_layers() is None { 1int } else { 0int }),
{
}

/// `states` are an entry before and after each call of `extensions`, with
/// the query handed to each call and what each call returned.
pub open spec fn extensions_run<F: FnOnce() -> Vec<String>>(
    states: Seq<Entry>,
    queries: Seq<F>,
    results: Seq<Extensions>,
) -> bool {
    &&& states.len() == results.len() + 1
    &&& queries.len() == results.len()
    &&& forall|i: int| 0 <= i < results.len() ==> Entry::extensions_step(
        #[trigger] states[i],
        queries[i],
        states[i + 1],
        results[i],
    )
}

/// `states` are an entry before and after each call of `validation_layers`,
/// with the query handed to each call and what each call returned.
pub open spec fn layers_run<F: FnOnce() -> Vec<String>>(
    states: Seq<Entry>,
    queries: Seq<F>,
    results: Seq<ValidationLayers>,
) -> bool {
    &&& states.len() == results.len() + 1
    &&& queries.len() == results.len()
    &&& forall|i: int| 0 <= i < results.len() ==> Entry::layers_step(
        #[trigger] states[i],
        queries[i],
        states[i + 1],
        results[i],
    )
}

/// Over any number of calls of `extensions`, every call returns the set of
/// the first, and the driver is asked once in all when nothing was cached
/// before: no call after the first asks it.
pub proof fn lemma_extensions_queried_once<F: FnOnce() -> Vec<String>>(
    states: Seq<Entry>,
    queries: Seq<F>,
    results: Seq<Extensions>,
)
    requires
        extensions_run(states, queries, results),
        results.len() >= 1,
    ensures
        forall|i: int| 0 <= i < results.len() ==> #[trigger] results[i] == results[0],
        forall|i: int| 1 <= i < results.len() ==> (#[trigger] states[i + 1]).spec_extension_queries()
            == states[i].spec_extension_queries(),
        states.last().spec_extension_queries() == states[0].spec_extension_queries() + (if states[0].cached_extensions() is None {
            1int
        } else {
            0int
        }),
    decreases results.len(),
{
    if results.len() > 1 {
        let n = results.len() - 1;
        lemma_extensions_queried_once(states.subrange(0, n + 1), queries.subrange(0, n), results.subrange(0, n));
        assert(states.subrange(0, n + 1)[0] == states[0]);
        assert(states.subrange(0, n + 1).last() == states[n]);
        assert(Entry::extensions_step(states[n], queries[n], states[n + 1], results[n]));
        assert forall|i: int| 0 <= i < results.len() implies #[trigger] results[i] == results[0] by {
            if i < n {
                assert(results.subrange(0, n)[i] == results[i]);
            }
            if i == n {
                assert(Entry::extensions_step(states[n - 1], queries[n - 1], states[n], results[n - 1]));
                assert(states[n].cached_extensions() == Some(results[n - 1]));
                assert(results.subrange(0, n)[n - 1] == results[n - 1]);
            }
        }
        assert forall|i: int| 1 <= i < results.len() implies (#[trigger] states[i + 1]).spec_extension_queries()
            == states[i].spec_extension_queries() by {
            assert(Entry::extensions_step(states[i], queries[i], states[i + 1], results[i]));
            assert(Entry::extensions_step(states[i - 1], queries[i - 1], states[i], results[i - 1]));
        }
    }
}

/// Over any number of calls of `validation_layers`, every call returns the
/// set of the first, and the driver is asked once in all when nothing was
/// cached before: no call after the first asks it.
pub proof fn lemma_layers_queried_once<F: FnOnce() -> Vec<String>>(
    states: Seq<Entry>,
    queries: Seq<F>,
    results: Seq<ValidationLayers>,
)
    requires
        layers_run(states, queries, results),
        results.len() >= 1,
    ensures
        forall|i: int| 0 <= i < results.len() ==> #[trigger] results[i] == results[0],
        forall|i: int| 1 <= i < results.len() ==> (#[trigger] states[i + 1]).spec_layer_queries()
            == states[i].spec_layer_queries(),
        states.last().spec_layer_queries() == states[0].spec_layer_queries() + (if states[0].cached_layers() is None {
            1int
        } else {
            0int
        }),
    decreases results.len(),
{
    if results.len() > 1 {
        let n = results.len() - 1;
        lemma_layers_queried_once(states.subrange(0, n + 1), queries.subrange(0, n), results.subrange(0, n));
        assert(states.subrange(0, n + 1)[0] == states[0]);
        assert(states.subrange(0, n + 1).last() == states[n]);
        assert(Entry::layers_step(states[n], queries[n], states[n + 1], results[n]));
        assert forall|i: int| 0 <= i < results.len() implies #[trigger] results[i] == results[0] by {
            if i < n {
                assert(results.subrange(0, n)[i] == results[i]);
            }
            if i == n {
                assert(Entry::layers_step(states[n - 1], queries[n - 1], states[n], results[n - 1]));
                assert(states[n].cached_layers() == Some(results[n - 1]));
                assert(results.subrange(0, n)[n - 1] == results[n - 1]);
            }
        }
        assert forall|i: int| 1 <= i < results.len() implies (#[trigger] states[i + 1]).spec_layer_queries()
            == states[i].spec_layer_queries() by {
            assert(Entry::layers_step(states[i], queries[i], states[i + 1], results[i]));
            assert(Entry::layers_step(states[i - 1], queries[i - 1], states[i], results[i - 1]));
        }
    }
}

} // verus!
