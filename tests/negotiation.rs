use std::cell::Cell;

use vkcore::capability::{Extension, Extensions, ValidationLayer, ValidationLayers};
use vkcore::entry::{extensions_from_names, layers_from_names, Entry};
use vkcore::error::{CreationError, DriverFailure, NativeError, OomError};
use vkcore::instance::Instance;
use vkcore::negotiation::negotiate;
use vkcore::physical_device::{MemoryType, PhysicalDeviceInfo, QueueFamily};

type TestInstance = Instance<u32, u32, u32, u32>;

fn names(list: &[&str]) -> Vec<String> {
    list.iter().map(|s| s.to_string()).collect()
}

fn adapter(handle: u64, name: &str) -> PhysicalDeviceInfo {
    PhysicalDeviceInfo {
        handle,
        name: name.to_string(),
        vendor_id: 0x10de,
        device_id: 7,
        api_version: 4198400,
        supported_features: 0b101,
        memory_types: vec![
            MemoryType { property_flags: 1, heap_index: 0 },
            MemoryType { property_flags: 6, heap_index: 1 },
        ],
        memory_heaps: vec![],
        queue_families: vec![QueueFamily { queue_flags: 7, queue_count: 2 }],
    }
}

fn only(e: Extension) -> Extensions {
    let mut s = Extensions::none();
    s.insert(e);
    s
}

#[test]
fn extension_names_map_to_known_extensions() {
    let set = extensions_from_names(&names(&["VK_KHR_surface", "VK_KHR_xlib_surface", "VK_EXT_unknown"]));
    assert!(set.contains(Extension::KhrSurface));
    assert!(set.contains(Extension::KhrXlibSurface));
    assert!(!set.contains(Extension::KhrXcbSurface));
    assert!(!set.contains(Extension::KhrWaylandSurface));
    assert_eq!(Extension::from_name("VK_KHR_wayland_surface"), Some(Extension::KhrWaylandSurface));
    assert_eq!(Extension::from_name("VK_KHR_surfac"), None);
    assert_eq!(Extension::KhrXcbSurface.name(), "VK_KHR_xcb_surface");
}

#[test]
fn unknown_names_are_skipped() {
    assert_eq!(extensions_from_names(&names(&["VK_A", "VK_B"])), Extensions::none());
    assert_eq!(extensions_from_names(&names(&[])), Extensions::none());
    assert_eq!(layers_from_names(&names(&["VK_LAYER_other"])), ValidationLayers::none());
    let l = layers_from_names(&names(&["VK_LAYER_other", "VK_LAYER_KHRONOS_validation"]));
    assert!(l.contains(ValidationLayer::KhronosValidation));
}

#[test]
fn set_union_and_duplicates() {
    let mut a = only(Extension::KhrSurface);
    a.insert(Extension::KhrSurface);
    assert_eq!(a, only(Extension::KhrSurface));
    let u = a.union(&only(Extension::KhrXcbSurface));
    assert!(u.contains(Extension::KhrSurface) && u.contains(Extension::KhrXcbSurface));
    assert_eq!(Extensions::none().union(&a), a);
}

#[test]
fn availability_queried_once() {
    let calls = Cell::new(0u32);
    let mut entry = Entry::new();
    let first = entry.extensions(|| {
        calls.set(calls.get() + 1);
        names(&["VK_KHR_surface"])
    });
    let second = entry.extensions(|| {
        calls.set(calls.get() + 1);
        names(&["VK_KHR_xcb_surface"])
    });
    assert_eq!(first, second);
    assert_eq!(first, only(Extension::KhrSurface));
    assert_eq!(calls.get(), 1);
    assert_eq!(entry.extension_queries(), 1);
    assert_eq!(entry.layer_queries(), 0);

    let l1 = entry.validation_layers(|| {
        calls.set(calls.get() + 1);
        names(&["VK_LAYER_KHRONOS_validation"])
    });
    let l2 = entry.validation_layers(|| {
        calls.set(calls.get() + 1);
        names(&[])
    });
    assert_eq!(l1, l2);
    assert!(l1.contains(ValidationLayer::KhronosValidation));
    assert_eq!(calls.get(), 2);
    assert_eq!(entry.layer_queries(), 1);
}

#[test]
fn missing_extension_fails_without_creating() {
    let avail = only(Extension::KhrSurface);
    let created = Cell::new(false);
    let r: Result<TestInstance, CreationError> = Instance::with_validation_layers(
        &avail,
        &ValidationLayers::none(),
        &vec![Extension::KhrSurface, Extension::KhrXcbSurface],
        &vec![],
        true,
        |_, _| {
            created.set(true);
            Ok(vec![])
        },
    );
    assert!(matches!(r, Err(CreationError::MissingExtension(Extension::KhrXcbSurface))));
    assert!(!created.get());
}

#[test]
fn first_missing_extension_is_reported() {
    let r = negotiate(
        &Extensions::none(),
        &ValidationLayers::none(),
        &vec![Extension::KhrWaylandSurface, Extension::KhrSurface],
        &vec![],
        false,
    );
    assert!(matches!(r, Err(CreationError::MissingExtension(Extension::KhrWaylandSurface))));
}

#[test]
fn missing_validation_layer_is_reported() {
    let r = negotiate(
        &only(Extension::KhrSurface),
        &ValidationLayers::none(),
        &vec![Extension::KhrSurface],
        &vec![ValidationLayer::KhronosValidation],
        false,
    );
    assert!(matches!(r, Err(CreationError::MissingValidationLayer(ValidationLayer::KhronosValidation))));
}

#[test]
fn debug_layer_absent_still_succeeds() {
    let n = negotiate(&only(Extension::KhrSurface), &ValidationLayers::none(), &vec![Extension::KhrSurface], &vec![], true)
        .unwrap();
    assert_eq!(n.extensions, only(Extension::KhrSurface));
    assert_eq!(n.layers, ValidationLayers::none());
    assert!(n.layer_names.is_empty());
    assert_eq!(n.extension_names, vec!["VK_KHR_surface"]);
}

#[test]
fn debug_layer_enabled_when_available() {
    let layers = ValidationLayers { khronos_validation: true };
    let n = negotiate(&Extensions::none(), &layers, &vec![], &vec![], true).unwrap();
    assert!(n.layers.contains(ValidationLayer::KhronosValidation));
    assert_eq!(n.layer_names, vec!["VK_LAYER_KHRONOS_validation"]);
    let n = negotiate(&Extensions::none(), &layers, &vec![], &vec![], false).unwrap();
    assert_eq!(n.layers, ValidationLayers::none());
    assert!(n.layer_names.is_empty());
}

#[test]
fn empty_request_gives_minimal_instance() {
    let r: Result<TestInstance, CreationError> =
        Instance::new(&Extensions::none(), &ValidationLayers::none(), &vec![], false, |e, l| {
            assert!(e.is_empty() && l.is_empty());
            Ok(vec![])
        });
    let inst = r.unwrap();
    assert_eq!(*inst.loaded_extensions(), Extensions::none());
    assert_eq!(inst.physical_devices().len(), 0);
    assert!(inst.physical_device(0).is_none());
}

#[test]
fn duplicate_request_collapses() {
    let n = negotiate(
        &only(Extension::KhrSurface),
        &ValidationLayers::none(),
        &vec![Extension::KhrSurface, Extension::KhrSurface],
        &vec![],
        false,
    )
    .unwrap();
    assert_eq!(n.extensions, only(Extension::KhrSurface));
}

#[test]
fn driver_error_is_passed_on() {
    let r: Result<TestInstance, CreationError> = Instance::new(
        &Extensions::none(),
        &ValidationLayers::none(),
        &vec![],
        false,
        |_, _| Err(DriverFailure::Native(NativeError::IncompatibleDriver)),
    );
    assert!(matches!(r, Err(CreationError::IncompatibleDriver)));
    let r: Result<TestInstance, CreationError> = Instance::new(
        &Extensions::none(),
        &ValidationLayers::none(),
        &vec![],
        false,
        |_, _| Err(DriverFailure::Native(NativeError::OutOfDeviceMemory)),
    );
    assert!(matches!(r, Err(CreationError::OutOfMemory(OomError::Device))));
}

#[test]
fn load_error_is_passed_on() {
    let r: Result<TestInstance, CreationError> = Instance::new(
        &Extensions::none(),
        &ValidationLayers::none(),
        &vec![],
        false,
        |_, _| Err(DriverFailure::Load(vec!["vkCreateInstance".to_string()])),
    );
    match r {
        Err(CreationError::LoadError(names)) => assert_eq!(names, vec!["vkCreateInstance".to_string()]),
        _ => panic!("expected a load error"),
    }
    assert!(matches!(
        CreationError::from_driver(DriverFailure::Native(NativeError::InitializationFailed)),
        CreationError::InitializationFailed
    ));
}

#[test]
fn native_codes_map_to_creation_errors() {
    assert!(matches!(
        CreationError::from_native(NativeError::OutOfHostMemory),
        CreationError::OutOfMemory(OomError::Host)
    ));
    assert!(matches!(
        CreationError::from_native(NativeError::OutOfDeviceMemory),
        CreationError::OutOfMemory(OomError::Device)
    ));
    assert!(matches!(CreationError::from_native(NativeError::InitializationFailed), CreationError::InitializationFailed));
    assert!(matches!(CreationError::from_native(NativeError::IncompatibleDriver), CreationError::IncompatibleDriver));
    assert!(!NativeError::LayerNotPresent.is_reportable_creation_error());
    assert!(!NativeError::ExtensionNotPresent.is_reportable_creation_error());
    assert!(!NativeError::Other(-13).is_reportable_creation_error());
    assert!(NativeError::OutOfHostMemory.is_reportable_creation_error());
    assert_eq!(OomError::from_native(NativeError::OutOfHostMemory), OomError::Host);
    assert_eq!(OomError::from_native(NativeError::OutOfDeviceMemory), OomError::Device);
    assert!(!NativeError::InitializationFailed.is_out_of_memory());
    assert_eq!(OomError::Host.describe(), "host is out of memory");
    assert_eq!(OomError::Device.describe(), "device is out of memory");
}

#[test]
fn two_adapters_scenario() {
    let avail = only(Extension::KhrSurface);
    let r: Result<TestInstance, CreationError> = Instance::with_validation_layers(
        &avail,
        &ValidationLayers::none(),
        &vec![Extension::KhrSurface],
        &vec![],
        false,
        |e, _| {
            assert_eq!(e, vec!["VK_KHR_surface"]);
            Ok(vec![adapter(11, "first"), adapter(22, "second")])
        },
    );
    let inst = r.unwrap();
    assert_eq!(inst.physical_devices().len(), 2);
    assert!(inst.physical_device(2).is_none());
    assert_eq!(inst.physical_device(1).unwrap().handle(), 22);
    assert_eq!(inst.physical_device_count(), 2);
}

#[test]
fn adapter_views_are_stable() {
    let r: Result<TestInstance, CreationError> =
        Instance::new(&Extensions::none(), &ValidationLayers::none(), &vec![], false, |_, _| {
            Ok(vec![adapter(1, "a"), adapter(2, "b"), adapter(3, "c")])
        });
    let inst = r.unwrap();
    let first = inst.physical_devices();
    let second = inst.physical_devices();
    assert_eq!(first.len(), 3);
    for (i, (a, b)) in first.iter().zip(second.iter()).enumerate() {
        assert_eq!(a.index(), i);
        assert_eq!(a.handle(), b.handle());
        assert_eq!(a.name(), b.name());
    }
    assert_eq!(first[2].name(), "c");
    let v = inst.physical_device(0).unwrap();
    assert_eq!(v.vendor_id(), 0x10de);
    assert_eq!(v.device_id(), 7);
    assert_eq!(v.supported_features(), 0b101);
    assert_eq!(v.queue_families().len(), 1);
    assert_eq!(v.memory_types().len(), 2);
    assert!(v.memory_heaps().is_empty());
    assert_eq!(v.memory_type(1), Some(MemoryType { property_flags: 6, heap_index: 1 }));
    assert_eq!(v.memory_type(2), None);
    assert!(inst.physical_device(3).is_none());
}

#[test]
fn adapter_without_queue_families_is_kept() {
    let mut bare = adapter(9, "bare");
    bare.queue_families.clear();
    let r: Result<TestInstance, CreationError> =
        Instance::new(&Extensions::none(), &ValidationLayers::none(), &vec![], false, move |_, _| Ok(vec![bare]));
    let inst = r.unwrap();
    assert!(inst.physical_device(0).unwrap().queue_families().is_empty());
}
