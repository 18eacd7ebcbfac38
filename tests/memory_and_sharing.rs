use vkcore::error::CreationError;
use vkcore::capability::{Extensions, ValidationLayers};
use vkcore::instance::Instance;
use vkcore::memory_requirements::MemoryRequirements;
use vkcore::physical_device::{MemoryType, PhysicalDeviceInfo};
use vkcore::sharing_mode::{Queue, SharingMode, SharingQueues};

fn q(device: u64, family_index: u32, index: u32) -> Queue {
    Queue { device, family_index, index }
}

#[test]
fn align_to_takes_larger_alignment() {
    let m = MemoryRequirements { size: 100, alignment: 16, memory_type_bits: 0b1011 };
    let a = m.align_to(64);
    assert_eq!(a.alignment(), 64);
    assert_eq!(a.size(), 100);
    assert_eq!(a.memory_type_bits(), 0b1011);
    assert_eq!(m.align_to(4).alignment(), 16);
    assert!(MemoryRequirements::is_power_of_two(1));
    assert!(MemoryRequirements::is_power_of_two(1 << 40));
    assert!(!MemoryRequirements::is_power_of_two(0));
    assert!(!MemoryRequirements::is_power_of_two(12));
}

#[test]
fn memory_type_bits_test() {
    let m = MemoryRequirements { size: 1, alignment: 1, memory_type_bits: 0b1010 };
    assert!(!m.contains_memory_type_index(0));
    assert!(m.contains_memory_type_index(1));
    assert!(m.contains_memory_type_index(3));
    assert!(!m.contains_memory_type_index(31));
}

#[test]
fn filter_keeps_accepted_types() {
    let info = PhysicalDeviceInfo {
        handle: 1,
        name: "gpu".to_string(),
        vendor_id: 1,
        device_id: 2,
        api_version: 0,
        supported_features: 0,
        memory_types: vec![
            MemoryType { property_flags: 1, heap_index: 0 },
            MemoryType { property_flags: 2, heap_index: 0 },
            MemoryType { property_flags: 3, heap_index: 1 },
            MemoryType { property_flags: 2, heap_index: 1 },
        ],
        memory_heaps: vec![],
        queue_families: vec![],
    };
    let r: Result<Instance<u8, u8, u8, u8>, CreationError> =
        Instance::new(&Extensions::none(), &ValidationLayers::none(), &vec![], false, move |_, _| Ok(vec![info]));
    let inst = r.unwrap();
    let pd = inst.physical_device(0).unwrap();
    let m = MemoryRequirements { size: 256, alignment: 8, memory_type_bits: 0b1110 };
    let f = m.filter_memory_types(&pd, |t| t.property_flags & 2 != 0);
    assert_eq!(f.memory_type_bits(), 0b1110);
    let f = m.filter_memory_types(&pd, |t| t.heap_index == 1);
    assert_eq!(f.memory_type_bits(), 0b1100);
    assert_eq!(f.size(), 256);
    assert_eq!(f.alignment(), 8);
    let f = m.filter_memory_types(&pd, |_| false);
    assert_eq!(f.memory_type_bits(), 0);
}

#[test]
fn sharing_queues_sorted_and_distinct() {
    let s = SharingQueues::from_queues(&vec![q(1, 3, 0), q(1, 0, 1), q(1, 3, 1), q(1, 2, 0)]);
    assert_eq!(*s.family_indices(), vec![0, 2, 3]);
    assert_eq!(s.device(), 1);
    assert_eq!(s.sharing_mode(), SharingMode::Concurrent);
    assert!(s.contains(&q(1, 2, 5)));
    assert!(!s.contains(&q(1, 1, 0)));
    assert!(!s.contains(&q(2, 2, 0)));
}

#[test]
fn sharing_queues_insert() {
    let mut s = SharingQueues::from_queues(&vec![q(4, 1, 0)]);
    assert_eq!(s.sharing_mode(), SharingMode::Exclusive);
    assert!(!s.insert(&q(4, 1, 2)));
    assert_eq!(s.family_indices().len(), 1);
    assert!(s.insert(&q(4, 5, 0)));
    assert!(s.contains(&q(4, 5, 0)));
    assert!(s.insert(&q(4, 0, 0)));
    assert_eq!(*s.family_indices(), vec![1, 5, 0]);
    assert_eq!(s.sharing_mode(), SharingMode::Concurrent);
    assert_eq!(q(4, 5, 7).family_index(), 5);
    assert_eq!(q(4, 5, 7).index(), 7);
    assert_eq!(q(4, 5, 7).device(), 4);
}
