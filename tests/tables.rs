use std::cell::Cell;

use vkcore::capability::{Extension, Extensions, ValidationLayers};
use vkcore::error::{CreationError, MissingExtensionError};
use vkcore::instance::Instance;
use vkcore::lazy_table::LazyTable;

type TestInstance = Instance<String, u32, u64, i32>;

fn instance_with(exts: Vec<Extension>) -> TestInstance {
    let mut avail = Extensions::none();
    avail.insert(Extension::KhrSurface);
    avail.insert(Extension::KhrXcbSurface);
    avail.insert(Extension::KhrXlibSurface);
    avail.insert(Extension::KhrWaylandSurface);
    let r: Result<TestInstance, CreationError> =
        Instance::new(&avail, &ValidationLayers::none(), &exts, false, |_, _| Ok(vec![]));
    r.unwrap()
}

#[test]
fn table_of_unloaded_extension_fails() {
    let mut inst = instance_with(vec![Extension::KhrSurface]);
    let calls = Cell::new(0u32);
    for _ in 0..2 {
        let r = inst.ext_khr_xcb_surface(|| {
            calls.set(calls.get() + 1);
            5
        });
        assert_eq!(r.err(), Some(MissingExtensionError(Extension::KhrXcbSurface)));
    }
    assert!(inst.ext_khr_xlib_surface(|| 1).is_err());
    assert_eq!(inst.ext_khr_wayland_surface(|| 1).err(), Some(MissingExtensionError(Extension::KhrWaylandSurface)));
    assert_eq!(calls.get(), 0);
}

#[test]
fn table_resolved_once() {
    let mut inst = instance_with(vec![Extension::KhrSurface, Extension::KhrWaylandSurface]);
    let calls = Cell::new(0u32);
    let first = inst
        .ext_khr_surface(|| {
            calls.set(calls.get() + 1);
            "surface".to_string()
        })
        .unwrap()
        .clone();
    let second = inst
        .ext_khr_surface(|| {
            calls.set(calls.get() + 1);
            "other".to_string()
        })
        .unwrap()
        .clone();
    assert_eq!(first, "surface");
    assert_eq!(first, second);
    assert_eq!(calls.get(), 1);
    assert_eq!(*inst.ext_khr_wayland_surface(|| -4).unwrap(), -4);
    assert_eq!(*inst.ext_khr_wayland_surface(|| 8).unwrap(), -4);
}

#[test]
fn xcb_and_xlib_tables() {
    let mut inst = instance_with(vec![Extension::KhrXcbSurface, Extension::KhrXlibSurface]);
    assert_eq!(*inst.ext_khr_xcb_surface(|| 3).unwrap(), 3);
    assert_eq!(*inst.ext_khr_xlib_surface(|| 30).unwrap(), 30);
    assert_eq!(*inst.ext_khr_xlib_surface(|| 31).unwrap(), 30);
    assert!(inst.ext_khr_surface(|| "x".to_string()).is_err());
}

#[test]
fn lazy_table_counts_resolutions() {
    let mut t: LazyTable<u8> = LazyTable::new();
    assert!(t.get().is_none());
    assert_eq!(t.resolutions(), 0);
    assert_eq!(*t.get_or_resolve(|| 9), 9);
    assert_eq!(*t.get_or_resolve(|| 10), 9);
    assert_eq!(t.resolutions(), 1);
    assert_eq!(t.get(), Some(&9));
}
