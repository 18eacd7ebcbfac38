use vstd::prelude::*;
use crate::capability::{
    Extension,
    ValidationLayer,
};

verus! {

/// Out of memory error.
#[derive(Clone, Copy, Debug, PartialEq, Eq, Structural)]
pub enum OomError {
    /// Host is out of memory.
    Host,
    /// Device is out of memory.
    Device,
}

/// A failure code that the driver returns from instance creation.
#[derive(Clone, Copy, Debug, PartialEq, Eq, Structural)]
pub enum NativeError {
    OutOfHostMemory,
    OutOfDeviceMemory,
    InitializationFailed,
    LayerNotPresent,
    ExtensionNotPresent,
    IncompatibleDriver,
    /// Any other code, by its raw value.
    Other(i32),
}

impl NativeError {
    /// Codes that stand for an out-of-memory condition.
    pub open spec fn is_oom(self) -> bool {
        self is OutOfHostMemory || self is OutOfDeviceMemory
    }

    /// Codes that instance creation reports to its caller. A missing layer or
    /// extension cannot be reported: negotiation has checked both before.
    pub open spec fn is_reportable(self) -> bool {
        self is OutOfHostMemory || self is OutOfDeviceMemory || self is InitializationFailed
            || self is IncompatibleDriver
    }

    pub fn is_out_of_memory(&self) -> (r: bool)
        ensures
            r == self.is_oom(),
    {
        matches!(self, NativeError::OutOfHostMemory | NativeError::OutOfDeviceMemory)
    }

    pub fn is_reportable_creation_error(&self) -> (r: bool)
        ensures
            r == self.is_reportable(),
    {
        matches!(
            self,
            NativeError::OutOfHostMemory | NativeError::OutOfDeviceMemory
                | NativeError::InitializationFailed | NativeError::IncompatibleDriver
        )
    }
}

impl OomError {
    pub open spec fn spec_from_native(r: NativeError) -> OomError {
        if r is OutOfHostMemory {
            OomError::Host
        } else {
            OomError::Device
        }
    }

    /// The out-of-memory error that a driver code stands for.
    pub fn from_native(r: NativeError) -> (e: OomError)
        requires
            r.is_oom(),
        ensures
            e == OomError::spec_from_native(r),
            r is OutOfHostMemory ==> e == OomError::Host,
            r is OutOfDeviceMemory ==> e == OomError::Device,
    {
        match r {
            NativeError::OutOfHostMemory => OomError::Host,
            _ => OomError::Device,
        }
    }

    /// A short description of the error.
    pub fn describe(&self) -> (r: &'static str)
        ensures
            *self == OomError::Host ==> r@ == "host is out of memory"@,
            *self == OomError::Device ==> r@ == "device is out of memory"@,
    {
        match self {
            OomError::Host => "host is out of memory",
            OomError::Device => "device is out of memory",
        }
    }
}

/// Why an instance could not be created.
#[derive(Debug)]
pub enum CreationError {
    /// The driver loader itself could not be initialized; holds the names of
    /// what it failed to load.
    LoadError(Vec<String>),
    OutOfMemory(OomError),
    InitializationFailed,
    MissingValidationLayer(ValidationLayer),
    MissingExtension(Extension),
    IncompatibleDriver,
}

impl CreationError {
    pub open spec fn spec_from_native(r: NativeError) -> CreationError {
        match r {
            NativeError::OutOfHostMemory => CreationError::OutOfMemory(OomError::Host),
            NativeError::OutOfDeviceMemory => CreationError::OutOfMemory(OomError::Device),
            NativeError::InitializationFailed => CreationError::InitializationFailed,
            _ => CreationError::IncompatibleDriver,
        }
    }

    /// The creation error that a reportable driver code stands for.
    pub fn from_native(r: NativeError) -> (e: CreationError)
        requires
            r.is_reportable(),
        ensures
            e == CreationError::spec_from_native(r),
    {
        match r {
            NativeError::OutOfHostMemory => CreationError::OutOfMemory(OomError::Host),
            NativeError::OutOfDeviceMemory => CreationError::OutOfMemory(OomError::Device),
            NativeError::InitializationFailed => CreationError::InitializationFailed,
            _ => CreationError::IncompatibleDriver,
        }
    }
}

/// How the driver failed to create an instance.
#[derive(Debug)]
pub enum DriverFailure {
    /// The driver loader could not load what it names.
    Load(Vec<String>),
    /// The driver returned a failure code.
    Native(NativeError),
}

impl DriverFailure {
    /// Failures that instance creation reports to its caller: all but a
    /// missing layer or extension, which negotiation has ruled out, and
    /// codes that creation never returns.
    pub open spec fn is_reportable(&self) -> bool {
        match self {
            DriverFailure::Load(_) => true,
            DriverFailure::Native(code) => code.is_reportable(),
        }
    }
}

impl CreationError {
    pub open spec fn spec_from_driver(f: DriverFailure) -> CreationError {
        match f {
            DriverFailure::Load(names) => CreationError::LoadError(names),
            DriverFailure::Native(code) => CreationError::spec_from_native(code),
        }
    }

    /// The errors that creation reports once negotiation has passed.
    pub open spec fn is_driver_error(&self) -> bool {
        self is LoadError || self is OutOfMemory || self is InitializationFailed || self is IncompatibleDriver
    }

    /// The creation error that a reportable driver failure stands for.
    pub fn from_driver(f: DriverFailure) -> (e: CreationError)
        requires
            f.is_reportable(),
        ensures
            e == CreationError::spec_from_driver(f),
            e.is_driver_error(),
    {
        match f {
            DriverFailure::Load(names) => CreationError::LoadError(names),
            DriverFailure::Native(code) => CreationError::from_native(code),
        }
    }
}

/// An extension function table was asked for, but its extension was not
/// enabled on the instance.
#[derive(Clone, Copy, Debug, PartialEq, Eq, Structural)]
pub struct MissingExtensionError(pub Extension);

/// A type that cannot be built: it has no public constructor.
#[derive(Clone, Copy, Debug, PartialEq, Eq, Hash, PartialOrd, Ord)]
pub struct Unbuildable(());

} // verus!
