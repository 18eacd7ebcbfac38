use vstd::prelude::*;
use crate::capability::{
    Extension,
    Extensions,
    ValidationLayer,
    ValidationLayers,
};
use crate::error::{
    CreationError,
    DriverFailure,
    MissingExtensionError,
};
use crate::lazy_table::LazyTable;
use crate::negotiation::{
    all_extensions_available,
    all_layers_available,
    Negotiated,
    negotiate,
    negotiation_result,
};
use crate::physical_device::{
    PhysicalDevice,
    PhysicalDeviceInfo,
};

verus! {

/// A created instance: the negotiated extensions and layers, the adapters
/// recorded at creation, and one lazily resolved function table per
/// surface extension (`S`, `X`, `L` and `W` are the table types).
pub struct Instance<S, X, L, W> {
    loaded_extensions: Extensions,
    enabled_layers: ValidationLayers,
    physical_devices_info: Vec<PhysicalDeviceInfo>,
    ext_khr_surface: LazyTable<S>,
    ext_khr_xcb_surface: LazyTable<X>,
    ext_khr_xlib_surface: LazyTable<L>,
    ext_khr_wayland_surface: LazyTable<W>,
}

/// What a table access owes: the error, with the slot untouched, when the
/// extension is not loaded; else the slot's table, resolved through
/// `resolve` only when the slot was empty.
pub open spec fn table_access<T, F: FnOnce() -> T>(
    loaded: bool,
    ext: Extension,
    before: LazyTable<T>,
    after: LazyTable<T>,
    resolve: F,
    r: Result<&T, MissingExtensionError>,
) -> bool {
    if !loaded {
        r == Err::<&T, MissingExtensionError>(MissingExtensionError(ext)) && after == before
    } else {
        &&& r is Ok
        &&& after.value() == Some(*r->Ok_0)
        &&& before.value() is Some ==> after == before
        &&& before.value() is None ==> resolve.ensures((), *r->Ok_0) && after.spec_resolutions()
            == before.spec_resolutions() + 1
    }
}

/// What instance creation owes: the negotiation's error, or the driver's
/// error, or an instance built from the negotiated sets and the adapters
/// that the driver reported.
pub open spec fn creation_result<S, X, L, W, F>(
    available_extensions: Extensions,
    available_layers: ValidationLayers,
    requested_extensions: Seq<Extension>,
    requested_layers: Seq<ValidationLayer>,
    debug: bool,
    create: F,
    r: Result<Instance<S, X, L, W>, CreationError>,
) -> bool where
    F: FnOnce(Vec<&'static str>, Vec<&'static str>) -> Result<Vec<PhysicalDeviceInfo>, DriverFailure>,
 {
    exists|n: Result<Negotiated, CreationError>|
        negotiation_result(available_extensions, available_layers, requested_extensions, requested_layers, debug, n)
            && match n {
            Err(e) => r == Err::<Instance<S, X, L, W>, CreationError>(e),
            Ok(ng) => exists|res: Result<Vec<PhysicalDeviceInfo>, DriverFailure>|
                create.ensures((ng.extension_names, ng.layer_names), res) && match res {
                    Err(f) => r == Err::<Instance<S, X, L, W>, CreationError>(CreationError::spec_from_driver(f)),
                    Ok(infos) => r is Ok && r->Ok_0.fresh(ng.extensions, ng.layers, infos@),
                },
        }
}

impl<S, X, L, W> Instance<S, X, L, W> {
    pub closed spec fn spec_loaded_extensions(&self) -> Extensions {
        self.loaded_extensions
    }

    pub closed spec fn spec_enabled_layers(&self) -> ValidationLayers {
        self.enabled_layers
    }

    /// The adapter records, in the driver's enumeration order.
    pub closed spec fn adapters(&self) -> Seq<PhysicalDeviceInfo> {
        self.physical_devices_info@
    }

    pub closed spec fn surface_slot(&self) -> LazyTable<S> {
        self.ext_khr_surface
    }

    pub closed spec fn xcb_surface_slot(&self) -> LazyTable<X> {
        self.ext_khr_xcb_surface
    }

    pub closed spec fn xlib_surface_slot(&self) -> LazyTable<L> {
        self.ext_khr_xlib_surface
    }

    pub closed spec fn wayland_surface_slot(&self) -> LazyTable<W> {
        self.ext_khr_wayland_surface
    }

    /// A just created instance: the given sets and adapters, no table resolved.
    pub open spec fn fresh(&self, extensions: Extensions, layers: ValidationLayers, adapters: Seq<PhysicalDeviceInfo>) -> bool {
        &&& self.spec_loaded_extensions() == extensions
        &&& self.spec_enabled_layers() == layers
        &&& self.adapters() == adapters
        &&& self.surface_slot().value() is None
        &&& self.xcb_surface_slot().value() is None
        &&& self.xlib_surface_slot().value() is None
        &&& self.wayland_surface_slot().value() is None
    }

    /// Creates an instance with the given required extensions and no
    /// requested validation layers.
    pub fn new<F>(
        available_extensions: &Extensions,
        available_layers: &ValidationLayers,
        required_extensions: &Vec<Extension>,
        debug: bool,
        create: F,
    ) -> (r: Result<Instance<S, X, L, W>, CreationError>) where
        F: FnOnce(Vec<&'static str>, Vec<&'static str>) -> Result<Vec<PhysicalDeviceInfo>, DriverFailure>,
        requires
            forall|e: Vec<&'static str>, l: Vec<&'static str>| create.requires((e, l)),
            forall|e: Vec<&'static str>, l: Vec<&'static str>, res: Result<Vec<PhysicalDeviceInfo>, DriverFailure>|
                #[trigger] create.ensures((e, l), res) && res is Err ==> res->Err_0.is_reportable(),
        ensures
            creation_result(*available_extensions, *available_layers, required_extensions@, seq![], debug, create, r),
    {
        let none: Vec<ValidationLayer> = Vec::new();
        assert(none@ == Seq::<ValidationLayer>::empty());
        Self::with_validation_layers(available_extensions, available_layers, required_extensions, &none, debug, create)
    }

    /// Creates an instance with the given required extensions and validation layers.
    ///
    /// Negotiation runs first; `create` is called only when it succeeds, with
    /// the extension and layer names to enable, and returns the adapters that
    /// the driver then reports, or how the driver failed. A missing layer or
    /// extension at that point would mean that negotiation let it through, so
    /// `create` never hands one back: it aborts instead.
    pub fn with_validation_layers<F>(
        available_extensions: &Extensions,
        available_layers: &ValidationLayers,
        required_extensions: &Vec<Extension>,
        validation_layers: &Vec<ValidationLayer>,
        debug: bool,
        create: F,
    ) -> (r: Result<Instance<S, X, L, W>, CreationError>) where
        F: FnOnce(Vec<&'static str>, Vec<&'static str>) -> Result<Vec<PhysicalDeviceInfo>, DriverFailure>,
        requires
            forall|e: Vec<&'static str>, l: Vec<&'static str>| create.requires((e, l)),
            forall|e: Vec<&'static str>, l: Vec<&'static str>, res: Result<Vec<PhysicalDeviceInfo>, DriverFailure>|
                #[trigger] create.ensures((e, l), res) && res is Err ==> res->Err_0.is_reportable(),
        ensures
            creation_result(*available_extensions, *available_layers, required_extensions@, validation_layers@, debug, create, r),
    {
        let n = negotiate(available_extensions, available_layers, required_extensions, validation_layers, debug);
        match n {
            Err(e) => Err(e),
            Ok(ng) => {
                let Negotiated { extensions, layers, extension_names, layer_names } = ng;
                let res = create(extension_names, layer_names);
                match res {
                    Err(f) => Err(CreationError::from_driver(f)),
                    Ok(infos) => {
                        let instance = Instance {
                            loaded_extensions: extensions,
                            enabled_layers: layers,
                            physical_devices_info: infos,
                            ext_khr_surface: LazyTable::new(),
                            ext_khr_xcb_surface: LazyTable::new(),
                            ext_khr_xlib_surface: LazyTable::new(),
                            ext_khr_wayland_surface: LazyTable::new(),
                        };
                        Ok(instance)
                    },
                }
            },
        }
    }

    /// The extensions that were negotiated, not merely available.
    pub fn loaded_extensions(&self) -> (r: &Extensions)
        ensures
            *r == self.spec_loaded_extensions(),
    {
        &self.loaded_extensions
    }

    /// The validation layers that were enabled.
    pub fn enabled_layers(&self) -> (r: &ValidationLayers)
        ensures
            *r == self.spec_enabled_layers(),
    {
        &self.enabled_layers
    }

    /// The number of adapters recorded at creation.
    pub fn physical_device_count(&self) -> (r: usize)
        ensures
            r == self.adapters().len(),
    {
        self.physical_devices_info.len()
    }

    /// `views` holds one view per adapter, in enumeration order.
    pub open spec fn adapter_views<'a>(&self, views: Seq<PhysicalDevice<'a>>) -> bool {
        &&& views.len() == self.adapters().len()
        &&& forall|i: int| 0 <= i < views.len() ==> (#[trigger] views[i]).spec_index() == i
            && views[i].records() == self.adapters()
    }

    /// `r` is the view of adapter `index`, or `None` when it is out of bounds.
    pub open spec fn adapter_lookup<'a>(&self, index: u32, r: Option<PhysicalDevice<'a>>) -> bool {
        &&& (index as int) < self.adapters().len() <==> r is Some
        &&& r matches Some(v) ==> v.spec_index() == index && v.records() == self.adapters()
    }

    /// One view per adapter, in enumeration order.
    pub fn physical_devices(&self) -> (r: Vec<PhysicalDevice<'_>>)
        ensures
            self.adapter_views(r@),
    {
        let mut r: Vec<PhysicalDevice<'_>> = Vec::new();
        let mut i: usize = 0;
        while i < self.physical_devices_info.len()
            invariant
                0 <= i <= self.physical_devices_info@.len(),
                r@.len() == i,
                forall|j: int| 0 <= j < i ==> (#[trigger] r@[j]).spec_index() == j
                    && r@[j].records() == self.adapters(),
            decreases self.physical_devices_info@.len() - i,
        {
            r.push(PhysicalDevice::new(&self.physical_devices_info, i));
            i = i + 1;
        }
        r
    }

    /// The view of the adapter of the given index; `None` when it is out of bounds.
    pub fn physical_device(&self, index: u32) -> (r: Option<PhysicalDevice<'_>>)
        ensures
            self.adapter_lookup(index, r),
    {
        if (index as usize) < self.physical_devices_info.len() {
            Some(PhysicalDevice::new(&self.physical_devices_info, index as usize))
        } else {
            None
        }
    }

    /// The function table of the surface extension, resolved on first use.
    pub fn ext_khr_surface<F: FnOnce() -> S>(&mut self, resolve: F) -> (r: Result<&S, MissingExtensionError>)
        requires
            old(self).spec_loaded_extensions().khr_surface && old(self).surface_slot().value() is None
                ==> resolve.requires(()),
        ensures
            table_access(old(self).spec_loaded_extensions().khr_surface, Extension::KhrSurface,
                old(self).surface_slot(), final(self).surface_slot(), resolve, r),
            final(self).same_except_slots(*old(self)),
            final(self).xcb_surface_slot() == old(self).xcb_surface_slot(),
            final(self).xlib_surface_slot() == old(self).xlib_surface_slot(),
            final(self).wayland_surface_slot() == old(self).wayland_surface_slot(),
    {
        if self.loaded_extensions.khr_surface {
            Ok(self.ext_khr_surface.get_or_resolve(resolve))
        } else {
            Err(MissingExtensionError(Extension::KhrSurface))
        }
    }

    /// The function table of the XCB surface extension, resolved on first use.
    pub fn ext_khr_xcb_surface<F: FnOnce() -> X>(&mut self, resolve: F) -> (r: Result<&X, MissingExtensionError>)
        requires
            old(self).spec_loaded_extensions().khr_xcb_surface && old(self).xcb_surface_slot().value() is None
                ==> resolve.requires(()),
        ensures
            table_access(old(self).spec_loaded_extensions().khr_xcb_surface, Extension::KhrXcbSurface,
                old(self).xcb_surface_slot(), final(self).xcb_surface_slot(), resolve, r),
            final(self).same_except_slots(*old(self)),
            final(self).surface_slot() == old(self).surface_slot(),
            final(self).xlib_surface_slot() == old(self).xlib_surface_slot(),
            final(self).wayland_surface_slot() == old(self).wayland_surface_slot(),
    {
        if self.loaded_extensions.khr_xcb_surface {
            Ok(self.ext_khr_xcb_surface.get_or_resolve(resolve))
        } else {
            Err(MissingExtensionError(Extension::KhrXcbSurface))
        }
    }

    /// The function table of the Xlib surface extension, resolved on first use.
    pub fn ext_khr_xlib_surface<F: FnOnce() -> L>(&mut self, resolve: F) -> (r: Result<&L, MissingExtensionError>)
        requires
            old(self).spec_loaded_extensions().khr_xlib_surface && old(self).xlib_surface_slot().value() is None
                ==> resolve.requires(()),
        ensures
            table_access(old(self).spec_loaded_extensions().khr_xlib_surface, Extension::KhrXlibSurface,
                old(self).xlib_surface_slot(), final(self).xlib_surface_slot(), resolve, r),
            final(self).same_except_slots(*old(self)),
            final(self).surface_slot() == old(self).surface_slot(),
            final(self).xcb_surface_slot() == old(self).xcb_surface_slot(),
            final(self).wayland_surface_slot() == old(self).wayland_surface_slot(),
    {
        if self.loaded_extensions.khr_xlib_surface {
            Ok(self.ext_khr_xlib_surface.get_or_resolve(resolve))
        } else {
            Err(MissingExtensionError(Extension::KhrXlibSurface))
        }
    }

    /// The function table of the Wayland surface extension, resolved on first use.
    pub fn ext_khr_wayland_surface<F: FnOnce() -> W>(&mut self, resolve: F) -> (r: Result<&W, MissingExtensionError>)
        requires
            old(self).spec_loaded_extensions().khr_wayland_surface && old(self).wayland_surface_slot().value() is None
                ==> resolve.requires(()),
        ensures
            table_access(old(self).spec_loaded_extensions().khr_wayland_surface, Extension::KhrWaylandSurface,
                old(self).wayland_surface_slot(), final(self).wayland_surface_slot(), resolve, r),
            final(self).same_except_slots(*old(self)),
            final(self).surface_slot() == old(self).surface_slot(),
            final(self).xcb_surface_slot() == old(self).xcb_surface_slot(),
            final(self).xlib_surface_slot() == old(self).xlib_surface_slot(),
    {
        if self.loaded_extensions.khr_wayland_surface {
            Ok(self.ext_khr_wayland_surface.get_or_resolve(resolve))
        } else {
            Err(MissingExtensionError(Extension::KhrWaylandSurface))
        }
    }

    /// The negotiated sets and the adapter records are those of `other`.
    pub open spec fn same_except_slots(&self, other: Self) -> bool {
        &&& self.spec_loaded_extensions() == other.spec_loaded_extensions()
        &&& self.spec_enabled_layers() == other.spec_enabled_layers()
        &&& self.adapters() == other.adapters()
    }
}

/// Creation that asks for an unavailable extension fails with a missing
/// extension that was requested, and its result is the same whatever the
/// driver would have done: no instance is created.
pub proof fn lemma_creation_all_or_nothing<S, X, L, W, F>(
    available_extensions: Extensions,
    available_layers: ValidationLayers,
    requested_extensions: Seq<Extension>,
    requested_layers: Seq<ValidationLayer>,
    debug: bool,
    create: F,
    r: Result<Instance<S, X, L, W>, CreationError>,
)
    where
        F: FnOnce(Vec<&'static str>, Vec<&'static str>) -> Result<Vec<PhysicalDeviceInfo>, DriverFailure>,
    requires
        creation_result(available_extensions, available_layers, requested_extensions, requested_layers, debug, create, r),
        exists|i: int| 0 <= i < requested_extensions.len() && !available_extensions.has(#[trigger] requested_extensions[i]),
    ensures
        r matches Err(CreationError::MissingExtension(e)) && requested_extensions.contains(e)
            && !available_extensions.has(e),
        forall|other: F| creation_result(available_extensions, available_layers, requested_extensions, requested_layers, debug, other, r),
{
    let n = choose|n: Result<Negotiated, CreationError>|
        negotiation_result(available_extensions, available_layers, requested_extensions, requested_layers, debug, n)
            && match n {
            Err(e) => r == Err::<Instance<S, X, L, W>, CreationError>(e),
            Ok(ng) => exists|res: Result<Vec<PhysicalDeviceInfo>, DriverFailure>|
                create.ensures((ng.extension_names, ng.layer_names), res) && match res {
                    Err(f) => r == Err::<Instance<S, X, L, W>, CreationError>(CreationError::spec_from_driver(f)),
                    Ok(infos) => r is Ok && r->Ok_0.fresh(ng.extensions, ng.layers, infos@),
                },
        };
    crate::negotiation::lemma_all_or_nothing(available_extensions, available_layers, requested_extensions, requested_layers, debug, n);
}

/// Creation fails with a missing extension exactly when a requested
/// extension is unavailable, and with a missing layer exactly when every
/// requested extension is available and a requested layer is not. Any other
/// failure comes from the driver: a load error, out of memory, failed
/// initialization or an incompatible driver.
pub proof fn lemma_creation_errors<S, X, L, W, F>(
    available_extensions: Extensions,
    available_layers: ValidationLayers,
    requested_extensions: Seq<Extension>,
    requested_layers: Seq<ValidationLayer>,
    debug: bool,
    create: F,
    r: Result<Instance<S, X, L, W>, CreationError>,
)
    where
        F: FnOnce(Vec<&'static str>, Vec<&'static str>) -> Result<Vec<PhysicalDeviceInfo>, DriverFailure>,
    requires
        creation_result(available_extensions, available_layers, requested_extensions, requested_layers, debug, create, r),
        forall|e: Vec<&'static str>, l: Vec<&'static str>, res: Result<Vec<PhysicalDeviceInfo>, DriverFailure>|
            #[trigger] create.ensures((e, l), res) && res is Err ==> res->Err_0.is_reportable(),
    ensures
        r matches Err(CreationError::MissingExtension(_)) <==> !all_extensions_available(available_extensions, requested_extensions),
        r matches Err(CreationError::MissingValidationLayer(_)) <==> all_extensions_available(available_extensions, requested_extensions)
            && !all_layers_available(available_layers, requested_layers),
        all_extensions_available(available_extensions, requested_extensions) && all_layers_available(available_layers, requested_layers)
            ==> (r is Err ==> r->Err_0.is_driver_error()),
{
    let n = choose|n: Result<Negotiated, CreationError>|
        negotiation_result(available_extensions, available_layers, requested_extensions, requested_layers, debug, n)
            && match n {
            Err(e) => r == Err::<Instance<S, X, L, W>, CreationError>(e),
            Ok(ng) => exists|res: Result<Vec<PhysicalDeviceInfo>, DriverFailure>|
                create.ensures((ng.extension_names, ng.layer_names), res) && match res {
                    Err(f) => r == Err::<Instance<S, X, L, W>, CreationError>(CreationError::spec_from_driver(f)),
                    Ok(infos) => r is Ok && r->Ok_0.fresh(ng.extensions, ng.layers, infos@),
                },
        };
    if all_extensions_available(available_extensions, requested_extensions)
        && all_layers_available(available_layers, requested_layers) {
        let ng = n->Ok_0;
        let res = choose|res: Result<Vec<PhysicalDeviceInfo>, DriverFailure>|
            create.ensures((ng.extension_names, ng.layer_names), res) && match res {
                Err(f) => r == Err::<Instance<S, X, L, W>, CreationError>(CreationError::spec_from_driver(f)),
                Ok(infos) => r is Ok && r->Ok_0.fresh(ng.extensions, ng.layers, infos@),
            };
        if res is Err {
            assert(res->Err_0.is_reportable());
        }
    }
}

/// The adapter views are one per recorded adapter, in enumeration order;
/// two listings show the same records; a lookup by index finds a view
/// exactly for the indices below the adapter count, and it shows the same
/// record as the listing.
pub proof fn lemma_adapter_cache_stable<'a, S, X, L, W>(
    instance: Instance<S, X, L, W>,
    first: Seq<PhysicalDevice<'a>>,
    second: Seq<PhysicalDevice<'a>>,
    index: u32,
    found: Option<PhysicalDevice<'a>>,
)
    requires
        instance.adapter_views(first),
        instance.adapter_views(second),
        instance.adapter_lookup(index, found),
    ensures
        first.len() == instance.adapters().len(),
        second.len() == first.len(),
        forall|i: int| 0 <= i < first.len() ==> (#[trigger] first[i]).spec_info() == instance.adapters()[i]
            && second[i].spec_info() == first[i].spec_info(),
        found is Some <==> (index as int) < instance.adapters().len(),
        found matches Some(v) ==> v.spec_info() == first[index as int].spec_info(),
{
}

/// A table access fails exactly when the extension is not loaded; it then
/// names that extension and leaves the slot as it was, unresolved if it was.
pub proof fn lemma_table_gating<T, F: FnOnce() -> T>(
    loaded: bool,
    ext: Extension,
    before: LazyTable<T>,
    after: LazyTable<T>,
    resolve: F,
    r: Result<&T, MissingExtensionError>,
)
    requires
        table_access(loaded, ext, before, after, resolve, r),
    ensures
        r is Err <==> !loaded,
        r is Err ==> r == Err::<&T, MissingExtensionError>(MissingExtensionError(ext)) && after == before
            && after.spec_resolutions() == before.spec_resolutions(),
{
}

/// Two accesses to the table of a loaded extension give the same table,
/// and it is resolved once over both when the slot was empty.
pub proof fn lemma_single_resolution<T, F1: FnOnce() -> T, F2: FnOnce() -> T>(
    ext: Extension,
    s0: LazyTable<T>,
    s1: LazyTable<T>,
    s2: LazyTable<T>,
    f1: F1,
    f2: F2,
    r1: Result<&T, MissingExtensionError>,
    r2: Result<&T, MissingExtensionError>,
)
    requires
        table_access(true, ext, s0, s1, f1, r1),
        table_access(true, ext, s1, s2, f2, r2),
    ensures
        r1 is Ok && r2 is Ok,
        *r1->Ok_0 == *r2->Ok_0,
        s2 == s1,
        s2.spec_resolutions() == s0.spec_resolutions() + (if s0.value() is None { 1int } else { 0int }),
{
}

/// `slots` are a table slot of a loaded extension before and after each
/// access, with the resolver handed to each access and what each returned.
pub open spec fn table_run<'a, T, F: FnOnce() -> T>(
    ext: Extension,
    slots: Seq<LazyTable<T>>,
    resolvers: Seq<F>,
    results: Seq<Result<&'a T, MissingExtensionError>>,
) -> bool {
    &&& slots.len() == results.len() + 1
    &&& resolvers.len() == results.len()
    &&& forall|i: int| 0 <= i < results.len() ==> table_access(
        true,
        ext,
        #[trigger] slots[i],
        slots[i + 1],
        resolvers[i],
        results[i],
    )
}

/// Over any number of accesses to the table of a loaded extension, every
/// access gives the table of the first, the slot does not change after the
/// first, and the table is resolved once in all when the slot was empty.
pub proof fn lemma_table_resolved_once<'a, T, F: FnOnce() -> T>(
    ext: Extension,
    slots: Seq<LazyTable<T>>,
    resolvers: Seq<F>,
    results: Seq<Result<&'a T, MissingExtensionError>>,
)
    requires
        table_run(ext, slots, resolvers, results),
        results.len() >= 1,
    ensures
        forall|i: int| 0 <= i < results.len() ==> (#[trigger] results[i]) is Ok && *results[i]->Ok_0
            == *results[0]->Ok_0,
        forall|i: int| 1 <= i < slots.len() ==> #[trigger] slots[i] == slots[1],
        slots.last().spec_resolutions() == slots[0].spec_resolutions() + (if slots[0].value() is None {
            1int
        } else {
            0int
        }),
    decreases results.len(),
{
    if results.len() > 1 {
        let n = results.len() - 1;
        let s = slots.subrange(0, n + 1);
        let rs = results.subrange(0, n);
        lemma_table_resolved_once(ext, s, resolvers.subrange(0, n), rs);
        assert(s[0] == slots[0]);
        assert(s.last() == slots[n]);
        assert(table_access(true, ext, slots[n - 1], slots[n], resolvers[n - 1], results[n - 1]));
        assert(table_access(true, ext, slots[n], slots[n + 1], resolvers[n], results[n]));
        assert(rs[n - 1] == results[n - 1]);
        assert(s[n] == slots[n]);
        assert forall|i: int| 0 <= i < results.len() implies (#[trigger] results[i]) is Ok && *results[i]->Ok_0
            == *results[0]->Ok_0 by {
            if i < n {
                assert(rs[i] == results[i]);
            }
        }
        assert forall|i: int| 1 <= i < slots.len() implies #[trigger] slots[i] == slots[1] by {
            if i <= n {
                assert(s[i] == slots[i]);
            }
        }
    }
}

} // verus!
