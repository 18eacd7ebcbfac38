use vstd::prelude::*;

verus! {

/// An optional instance extension known to this library.
#[derive(Clone, Copy, Debug, PartialEq, Eq, Structural)]
pub enum Extension {
    KhrSurface,
    KhrXcbSurface,
    KhrXlibSurface,
    KhrWaylandSurface,
}

/// A validation (debug) layer known to this library.
#[derive(Clone, Copy, Debug, PartialEq, Eq, Structural)]
pub enum ValidationLayer {
    KhronosValidation,
}

/// The canonical name under which the driver reports an extension.
pub open spec fn extension_name(e: Extension) -> Seq<char> {
    match e {
        Extension::KhrSurface => "VK_KHR_surface"@,
        Extension::KhrXcbSurface => "VK_KHR_xcb_surface"@,
        Extension::KhrXlibSurface => "VK_KHR_xlib_surface"@,
        Extension::KhrWaylandSurface => "VK_KHR_wayland_surface"@,
    }
}

/// The canonical name under which the driver reports a validation layer.
pub open spec fn layer_name(l: ValidationLayer) -> Seq<char> {
    match l {
        ValidationLayer::KhronosValidation => "VK_LAYER_KHRONOS_validation"@,
    }
}

/// The known extension whose canonical name is `name`, if any.
pub open spec fn extension_named(name: Seq<char>) -> Option<Extension> {
    if name == extension_name(Extension::KhrSurface) {
        Some(Extension::KhrSurface)
    } else if name == extension_name(Extension::KhrXcbSurface) {
        Some(Extension::KhrXcbSurface)
    } else if name == extension_name(Extension::KhrXlibSurface) {
        Some(Extension::KhrXlibSurface)
    } else if name == extension_name(Extension::KhrWaylandSurface) {
        Some(Extension::KhrWaylandSurface)
    } else {
        None
    }
}

/// The known validation layer whose canonical name is `name`, if any.
pub open spec fn layer_named(name: Seq<char>) -> Option<ValidationLayer> {
    if name == layer_name(ValidationLayer::KhronosValidation) {
        Some(ValidationLayer::KhronosValidation)
    } else {
        None
    }
}

fn same_text(a: &str, b: &str) -> (r: bool)
    ensures
        r == (a@ == b@),
{
    a.to_owned() == b.to_owned()
}

impl Extension {
    /// The canonical name under which the driver reports this extension.
    pub fn name(&self) -> (r: &'static str)
        ensures
            r@ == extension_name(*self),
    {
        match self {
            Extension::KhrSurface => "VK_KHR_surface",
            Extension::KhrXcbSurface => "VK_KHR_xcb_surface",
            Extension::KhrXlibSurface => "VK_KHR_xlib_surface",
            Extension::KhrWaylandSurface => "VK_KHR_wayland_surface",
        }
    }

    /// Maps a name reported by the driver to a known extension.
    /// Unknown names give `None`.
    pub fn from_name(name: &str) -> (r: Option<Extension>)
        ensures
            r == extension_named(name@),
    {
        if same_text(name, Extension::KhrSurface.name()) {
            Some(Extension::KhrSurface)
        } else if same_text(name, Extension::KhrXcbSurface.name()) {
            Some(Extension::KhrXcbSurface)
        } else if same_text(name, Extension::KhrXlibSurface.name()) {
            Some(Extension::KhrXlibSurface)
        } else if same_text(name, Extension::KhrWaylandSurface.name()) {
            Some(Extension::KhrWaylandSurface)
        } else {
            None
        }
    }
}

impl ValidationLayer {
    /// The canonical name under which the driver reports this layer.
    pub fn name(&self) -> (r: &'static str)
        ensures
            r@ == layer_name(*self),
    {
        match self {
            ValidationLayer::KhronosValidation => "VK_LAYER_KHRONOS_validation",
        }
    }

    /// Maps a name reported by the driver to a known validation layer.
    /// Unknown names give `None`.
    pub fn from_name(name: &str) -> (r: Option<ValidationLayer>)
        ensures
            r == layer_named(name@),
    {
        if same_text(name, ValidationLayer::KhronosValidation.name()) {
            Some(ValidationLayer::KhronosValidation)
        } else {
            None
        }
    }
}

/// A set of extensions, one flag per known extension.
#[derive(Clone, Copy, Debug, PartialEq, Eq, Structural)]
pub struct Extensions {
    pub khr_surface: bool,
    pub khr_xcb_surface: bool,
    pub khr_xlib_surface: bool,
    pub khr_wayland_surface: bool,
}

impl Extensions {
    /// Whether `e` belongs to the set.
    pub open spec fn has(self, e: Extension) -> bool {
        match e {
            Extension::KhrSurface => self.khr_surface,
            Extension::KhrXcbSurface => self.khr_xcb_surface,
            Extension::KhrXlibSurface => self.khr_xlib_surface,
            Extension::KhrWaylandSurface => self.khr_wayland_surface,
        }
    }

    /// The empty set.
    pub fn none() -> (r: Extensions)
        ensures
            forall|e: Extension| !r.has(e),
    {
        Extensions {
            khr_surface: false,
            khr_xcb_surface: false,
            khr_xlib_surface: false,
            khr_wayland_surface: false,
        }
    }

    pub fn contains(&self, e: Extension) -> (r: bool)
        ensures
            r == self.has(e),
    {
        match e {
            Extension::KhrSurface => self.khr_surface,
            Extension::KhrXcbSurface => self.khr_xcb_surface,
            Extension::KhrXlibSurface => self.khr_xlib_surface,
            Extension::KhrWaylandSurface => self.khr_wayland_surface,
        }
    }

    pub fn insert(&mut self, e: Extension)
        ensures
            forall|x: Extension| final(self).has(x) == (old(self).has(x) || x == e),
    {
        match e {
            Extension::KhrSurface => self.khr_surface = true,
            Extension::KhrXcbSurface => self.khr_xcb_surface = true,
            Extension::KhrXlibSurface => self.khr_xlib_surface = true,
            Extension::KhrWaylandSurface => self.khr_wayland_surface = true,
        }
    }

    /// The set of the extensions that belong to `self` or to `other`.
    pub fn union(&self, other: &Extensions) -> (r: Extensions)
        ensures
            forall|x: Extension| r.has(x) == (self.has(x) || other.has(x)),
    {
        Extensions {
            khr_surface: self.khr_surface || other.khr_surface,
            khr_xcb_surface: self.khr_xcb_surface || other.khr_xcb_surface,
            khr_xlib_surface: self.khr_xlib_surface || other.khr_xlib_surface,
            khr_wayland_surface: self.khr_wayland_surface || other.khr_wayland_surface,
        }
    }
}

/// A set of validation layers, one flag per known layer.
#[derive(Clone, Copy, Debug, PartialEq, Eq, Structural)]
pub struct ValidationLayers {
    pub khronos_validation: bool,
}

impl ValidationLayers {
    /// Whether `l` belongs to the set.
    pub open spec fn has(self, l: ValidationLayer) -> bool {
        match l {
            ValidationLayer::KhronosValidation => self.khronos_validation,
        }
    }

    /// The empty set.
    pub fn none() -> (r: ValidationLayers)
        ensures
            forall|l: ValidationLayer| !r.has(l),
    {
        ValidationLayers { khronos_validation: false }
    }

    pub fn contains(&self, l: ValidationLayer) -> (r: bool)
        ensures
            r == self.has(l),
    {
        match l {
            ValidationLayer::KhronosValidation => self.khronos_validation,
        }
    }

    pub fn insert(&mut self, l: ValidationLayer)
        ensures
            forall|x: ValidationLayer| final(self).has(x) == (old(self).has(x) || x == l),
    {
        match l {
            ValidationLayer::KhronosValidation => self.khronos_validation = true,
        }
    }

    /// The set of the layers that belong to `self` or to `other`.
    pub fn union(&self, other: &ValidationLayers) -> (r: ValidationLayers)
        ensures
            forall|x: ValidationLayer| r.has(x) == (self.has(x) || other.has(x)),
    {
        ValidationLayers { khronos_validation: self.khronos_validation || other.khronos_validation }
    }
}

} // verus!
