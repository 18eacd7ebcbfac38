use vstd::prelude::*;
use crate::capability::{
    Extension,
    Extensions,
    ValidationLayer,
    ValidationLayers,
    extension_name,
    layer_name,
};
use crate::error::CreationError;

verus! {

/// Whether every requested extension is available.
pub open spec fn all_extensions_available(available: Extensions, requested: Seq<Extension>) -> bool {
    forall|i: int| 0 <= i < requested.len() ==> available.has(#[trigger] requested[i])
}

/// Whether every requested validation layer is available.
pub open spec fn all_layers_available(available: ValidationLayers, requested: Seq<ValidationLayer>) -> bool {
    forall|i: int| 0 <= i < requested.len() ==> available.has(#[trigger] requested[i])
}

/// `requested[i]` is the first requested extension that is not available.
pub open spec fn first_missing_extension(available: Extensions, requested: Seq<Extension>, i: int) -> bool {
    &&& 0 <= i < requested.len()
    &&& !available.has(requested[i])
    &&& forall|j: int| 0 <= j < i ==> available.has(#[trigger] requested[j])
}

/// `requested[i]` is the first requested validation layer that is not available.
pub open spec fn first_missing_layer(available: ValidationLayers, requested: Seq<ValidationLayer>, i: int) -> bool {
    &&& 0 <= i < requested.len()
    &&& !available.has(requested[i])
    &&& forall|j: int| 0 <= j < i ==> available.has(#[trigger] requested[j])
}

/// The set of the requested extensions; duplicates collapse.
pub open spec fn extension_set(requested: Seq<Extension>) -> Extensions {
    Extensions {
        khr_surface: requested.contains(Extension::KhrSurface),
        khr_xcb_surface: requested.contains(Extension::KhrXcbSurface),
        khr_xlib_surface: requested.contains(Extension::KhrXlibSurface),
        khr_wayland_surface: requested.contains(Extension::KhrWaylandSurface),
    }
}

/// Whether the debug validation layer is added on top of the requested ones.
pub open spec fn debug_layer_enabled(available: ValidationLayers, debug: bool) -> bool {
    debug && available.has(ValidationLayer::KhronosValidation)
}

/// The enabled layers: the requested ones, and in debug builds the debug
/// validation layer when it is available.
pub open spec fn layer_set(available: ValidationLayers, requested: Seq<ValidationLayer>, debug: bool) -> ValidationLayers {
    ValidationLayers {
        khronos_validation: debug_layer_enabled(available, debug)
            || requested.contains(ValidationLayer::KhronosValidation),
    }
}

/// The layer names handed to the driver, in order: the debug layer first
/// when it is enabled, then each requested layer.
pub open spec fn layer_names(available: ValidationLayers, requested: Seq<ValidationLayer>, debug: bool) -> Seq<Seq<char>> {
    let asked = requested.map_values(|l: ValidationLayer| layer_name(l));
    if debug_layer_enabled(available, debug) {
        seq![layer_name(ValidationLayer::KhronosValidation)] + asked
    } else {
        asked
    }
}

/// The outcome of a successful negotiation: what to enable, and the names to
/// hand to the driver.
pub struct Negotiated {
    pub extensions: Extensions,
    pub layers: ValidationLayers,
    pub extension_names: Vec<&'static str>,
    pub layer_names: Vec<&'static str>,
}

impl Negotiated {
    /// The names in `extension_names`, as character sequences.
    pub open spec fn extension_name_views(&self) -> Seq<Seq<char>> {
        self.extension_names@.map_values(|s: &'static str| s@)
    }

    /// The names in `layer_names`, as character sequences.
    pub open spec fn layer_name_views(&self) -> Seq<Seq<char>> {
        self.layer_names@.map_values(|s: &'static str| s@)
    }
}

/// What negotiation owes on the given inputs: the first unavailable extension,
/// else the first unavailable layer, else exactly the requested sets and names.
pub open spec fn negotiation_result(
    available_extensions: Extensions,
    available_layers: ValidationLayers,
    requested_extensions: Seq<Extension>,
    requested_layers: Seq<ValidationLayer>,
    debug: bool,
    r: Result<Negotiated, CreationError>,
) -> bool {
    if !all_extensions_available(available_extensions, requested_extensions) {
        exists|i: int|
            first_missing_extension(available_extensions, requested_extensions, i)
                && r == Err::<Negotiated, CreationError>(CreationError::MissingExtension(requested_extensions[i]))
    } else if !all_layers_available(available_layers, requested_layers) {
        exists|i: int|
            first_missing_layer(available_layers, requested_layers, i)
                && r == Err::<Negotiated, CreationError>(CreationError::MissingValidationLayer(requested_layers[i]))
    } else {
        &&& r is Ok
        &&& r->Ok_0.extensions == extension_set(requested_extensions)
        &&& r->Ok_0.layers == layer_set(available_layers, requested_layers, debug)
        &&& r->Ok_0.extension_name_views() == requested_extensions.map_values(|e: Extension| extension_name(e))
        &&& r->Ok_0.layer_name_views() == layer_names(available_layers, requested_layers, debug)
    }
}

/// Matches the requested capabilities against the available ones.
///
/// Fails on the first requested extension that is not available, then on the
/// first requested layer that is not available; nothing is enabled partially.
/// With `debug`, the debug validation layer is enabled when it is available,
/// and its absence is no error.
pub fn negotiate(
    available_extensions: &Extensions,
    available_layers: &ValidationLayers,
    requested_extensions: &Vec<Extension>,
    requested_layers: &Vec<ValidationLayer>,
    debug: bool,
) -> (r: Result<Negotiated, CreationError>)
    ensures
        negotiation_result(*available_extensions, *available_layers, requested_extensions@, requested_layers@, debug, r),
{
    let mut extensions = Extensions::none();
    let mut extension_names: Vec<&'static str> = Vec::new();
    let mut i: usize = 0;
    while i < requested_extensions.len()
        invariant
            0 <= i <= requested_extensions.len(),
            forall|j: int| 0 <= j < i ==> available_extensions.has(#[trigger] requested_extensions@[j]),
            forall|x: Extension| #[trigger] extensions.has(x) == requested_extensions@.subrange(0, i as int).contains(x),
            extension_names@.len() == i,
            forall|j: int| 0 <= j < i ==> (#[trigger] extension_names@[j])@ == extension_name(requested_extensions@[j]),
        decreases requested_extensions.len() - i,
    {
        let e = requested_extensions[i];
        if !available_extensions.contains(e) {
            assert(first_missing_extension(*available_extensions, requested_extensions@, i as int));
            return Err(CreationError::MissingExtension(e));
        }
        extensions.insert(e);
        extension_names.push(e.name());
        proof {
            let s = requested_extensions@.subrange(0, i as int + 1);
            assert(s == requested_extensions@.subrange(0, i as int).push(e));
            assert forall|x: Extension| #[trigger] extensions.has(x) == s.contains(x) by {
                if x == e {
                    assert(s[i as int] == e);
                }
            }
        }
        i = i + 1;
    }
    assert(requested_extensions@.subrange(0, i as int) == requested_extensions@);
    assert(all_extensions_available(*available_extensions, requested_extensions@));
    let mut layers = ValidationLayers::none();
    let mut names: Vec<&'static str> = Vec::new();
    let ghost prefix: Seq<Seq<char>> = seq![];
    if debug && available_layers.contains(ValidationLayer::KhronosValidation) {
        layers.insert(ValidationLayer::KhronosValidation);
        names.push(ValidationLayer::KhronosValidation.name());
        proof {
            prefix = seq![layer_name(ValidationLayer::KhronosValidation)];
        }
    }
    let mut k: usize = 0;
    while k < requested_layers.len()
        invariant
            0 <= k <= requested_layers.len(),
            all_extensions_available(*available_extensions, requested_extensions@),
            forall|j: int| 0 <= j < k ==> available_layers.has(#[trigger] requested_layers@[j]),
            forall|x: ValidationLayer| #[trigger] layers.has(x) == (
                (debug_layer_enabled(*available_layers, debug) && x == ValidationLayer::KhronosValidation)
                || requested_layers@.subrange(0, k as int).contains(x)),
            prefix == (if debug_layer_enabled(*available_layers, debug) {
                seq![layer_name(ValidationLayer::KhronosValidation)]
            } else {
                seq![]
            }),
            names@.len() == prefix.len() + k,
            forall|j: int| 0 <= j < prefix.len() ==> (#[trigger] names@[j])@ == prefix[j],
            forall|j: int| 0 <= j < k ==> (#[trigger] names@[prefix.len() + j])@ == layer_name(requested_layers@[j]),
        decreases requested_layers.len() - k,
    {
        let l = requested_layers[k];
        if !available_layers.contains(l) {
            assert(first_missing_layer(*available_layers, requested_layers@, k as int));
            return Err(CreationError::MissingValidationLayer(l));
        }
        layers.insert(l);
        names.push(l.name());
        proof {
            let s = requested_layers@.subrange(0, k as int + 1);
            assert(s == requested_layers@.subrange(0, k as int).push(l));
            assert forall|x: ValidationLayer| #[trigger] layers.has(x) == (
                (debug_layer_enabled(*available_layers, debug) && x == ValidationLayer::KhronosValidation)
                || s.contains(x)) by {
                if x == l {
                    assert(s[k as int] == l);
                }
            }
            assert(names@[prefix.len() + k as int]@ == layer_name(l));
        }
        k = k + 1;
    }
    assert(requested_layers@.subrange(0, k as int) == requested_layers@);
    let r = Negotiated { extensions, layers, extension_names, layer_names: names };
    proof {
        assert(extensions.has(Extension::KhrSurface) == extension_set(requested_extensions@).has(Extension::KhrSurface));
        assert(extensions.has(Extension::KhrXcbSurface) == extension_set(requested_extensions@).has(Extension::KhrXcbSurface));
        assert(extensions.has(Extension::KhrXlibSurface) == extension_set(requested_extensions@).has(Extension::KhrXlibSurface));
        assert(extensions.has(Extension::KhrWaylandSurface) == extension_set(requested_extensions@).has(Extension::KhrWaylandSurface));
        assert(r.extension_name_views() =~= requested_extensions@.map_values(|e: Extension| extension_name(e)));
        assert(layers == layer_set(*available_layers, requested_layers@, debug)) by {
            assert(layers.has(ValidationLayer::KhronosValidation) == layer_set(*available_layers, requested_layers@, debug).has(ValidationLayer::KhronosValidation));
        }
        let asked = requested_layers@.map_values(|l: ValidationLayer| layer_name(l));
        assert forall|j: int| 0 <= j < names@.len() implies #[trigger] r.layer_name_views()[j] == (prefix + asked)[j] by {
            if j >= prefix.len() {
                assert(names@[prefix.len() + (j - prefix.len())]@ == layer_name(requested_layers@[j - prefix.len()]));
            }
        }
        assert(r.layer_name_views() =~= prefix + asked);
        assert(prefix + asked =~= layer_names(*available_layers, requested_layers@, debug));
    }
    Ok(r)
}

/// When some requested extension is unavailable, negotiation fails, and it
/// names a requested extension that is unavailable.
pub proof fn lemma_all_or_nothing(
    available_extensions: Extensions,
    available_layers: ValidationLayers,
    requested_extensions: Seq<Extension>,
    requested_layers: Seq<ValidationLayer>,
    debug: bool,
    r: Result<Negotiated, CreationError>,
)
    requires
        negotiation_result(available_extensions, available_layers, requested_extensions, requested_layers, debug, r),
        exists|i: int| 0 <= i < requested_extensions.len() && !available_extensions.has(#[trigger] requested_extensions[i]),
    ensures
        r matches Err(CreationError::MissingExtension(e)) && requested_extensions.contains(e)
            && !available_extensions.has(e),
{
    let i = choose|i: int| first_missing_extension(available_extensions, requested_extensions, i)
        && r == Err::<Negotiated, CreationError>(CreationError::MissingExtension(requested_extensions[i]));
    assert(requested_extensions[i] == requested_extensions[i]);
}

/// When the debug validation layer is unavailable and every requested
/// extension and layer is available, negotiation succeeds, and neither the
/// enabled layers nor the layer names hold the debug layer.
pub proof fn lemma_debug_layer_optional(
    available_extensions: Extensions,
    available_layers: ValidationLayers,
    requested_extensions: Seq<Extension>,
    requested_layers: Seq<ValidationLayer>,
    debug: bool,
    r: Result<Negotiated, CreationError>,
)
    requires
        negotiation_result(available_extensions, available_layers, requested_extensions, requested_layers, debug, r),
        !available_layers.has(ValidationLayer::KhronosValidation),
        all_extensions_available(available_extensions, requested_extensions),
        all_layers_available(available_layers, requested_layers),
    ensures
        r is Ok,
        r->Ok_0.extensions == extension_set(requested_extensions),
        !r->Ok_0.layers.has(ValidationLayer::KhronosValidation),
        !r->Ok_0.layer_name_views().contains(layer_name(ValidationLayer::KhronosValidation)),
{
    if requested_layers.contains(ValidationLayer::KhronosValidation) {
        let i = choose|i: int| 0 <= i < requested_layers.len() && requested_layers[i] == ValidationLayer::KhronosValidation;
        assert(available_layers.has(requested_layers[i]));
    }
    let names = r->Ok_0.layer_name_views();
    if names.contains(layer_name(ValidationLayer::KhronosValidation)) {
        let i = choose|i: int| 0 <= i < names.len() && names[i] == layer_name(ValidationLayer::KhronosValidation);
        assert(names[i] == layer_name(requested_layers[i]));
        assert(requested_layers[i] == ValidationLayer::KhronosValidation);
        assert(available_layers.has(requested_layers[i]));
    }
}

} // verus!
