use vstd::prelude::*;

verus! {

/// One memory type of an adapter.
#[derive(Clone, Copy, Debug, PartialEq, Eq, Structural)]
pub struct MemoryType {
    pub property_flags: u32,
    pub heap_index: u32,
}

/// One memory heap of an adapter.
#[derive(Clone, Copy, Debug, PartialEq, Eq, Structural)]
pub struct MemoryHeap {
    pub size: u64,
    pub flags: u32,
}

/// One queue family of an adapter: which operations its queues support, and
/// how many queues it has.
#[derive(Clone, Copy, Debug, PartialEq, Eq, Structural)]
pub struct QueueFamily {
    pub queue_flags: u32,
    pub queue_count: u32,
}

/// What was recorded of one adapter when the instance was created. It is
/// never updated afterwards.
#[derive(Clone, Debug)]
pub struct PhysicalDeviceInfo {
    /// The driver's raw handle of the adapter.
    pub handle: u64,
    pub name: String,
    pub vendor_id: u32,
    pub device_id: u32,
    pub api_version: u32,
    /// One bit per supported feature, in the driver's feature order.
    pub supported_features: u64,
    pub memory_types: Vec<MemoryType>,
    pub memory_heaps: Vec<MemoryHeap>,
    pub queue_families: Vec<QueueFamily>,
}

/// A view of one adapter of an instance: the instance's adapter records and
/// an index into them.
pub struct PhysicalDevice<'a> {
    infos: &'a Vec<PhysicalDeviceInfo>,
    index: usize,
}

impl<'a> PhysicalDevice<'a> {
    #[verifier::type_invariant]
    spec fn inv(&self) -> bool {
        self.index < self.infos@.len()
    }

    /// The adapter records that the view indexes.
    pub closed spec fn records(&self) -> Seq<PhysicalDeviceInfo> {
        self.infos@
    }

    pub closed spec fn spec_index(&self) -> usize {
        self.index
    }

    /// The record of the viewed adapter.
    pub open spec fn spec_info(&self) -> PhysicalDeviceInfo {
        self.records()[self.spec_index() as int]
    }

    /// A view of adapter `index`; `index` must be in bounds.
    pub fn new(infos: &'a Vec<PhysicalDeviceInfo>, index: usize) -> (r: PhysicalDevice<'a>)
        requires
            index < infos@.len(),
        ensures
            r.records() == infos@,
            r.spec_index() == index,
    {
        PhysicalDevice { infos, index }
    }

    pub fn index(&self) -> (r: usize)
        ensures
            r == self.spec_index(),
            r < self.records().len(),
    {
        proof {
            use_type_invariant(self);
        }
        self.index
    }

    /// The recorded data of the adapter.
    pub fn info(&self) -> (r: &'a PhysicalDeviceInfo)
        ensures
            *r == self.spec_info(),
    {
        proof {
            use_type_invariant(self);
        }
        &self.infos[self.index]
    }

    pub fn handle(&self) -> (r: u64)
        ensures
            r == self.spec_info().handle,
    {
        self.info().handle
    }

    pub fn name(&self) -> (r: &'a String)
        ensures
            *r == self.spec_info().name,
    {
        &self.info().name
    }

    pub fn vendor_id(&self) -> (r: u32)
        ensures
            r == self.spec_info().vendor_id,
    {
        self.info().vendor_id
    }

    pub fn device_id(&self) -> (r: u32)
        ensures
            r == self.spec_info().device_id,
    {
        self.info().device_id
    }

    pub fn supported_features(&self) -> (r: u64)
        ensures
            r == self.spec_info().supported_features,
    {
        self.info().supported_features
    }

    /// The memory type of the given index, if the adapter has one.
    pub fn memory_type(&self, index: u32) -> (r: Option<MemoryType>)
        ensures
            (index as int) < self.spec_info().memory_types@.len() ==> r == Some(
                self.spec_info().memory_types@[index as int],
            ),
            (index as int) >= self.spec_info().memory_types@.len() ==> r is None,
    {
        let info = self.info();
        if (index as usize) < info.memory_types.len() {
            Some(info.memory_types[index as usize])
        } else {
            None
        }
    }

    pub fn memory_types(&self) -> (r: &'a Vec<MemoryType>)
        ensures
            *r == self.spec_info().memory_types,
    {
        &self.info().memory_types
    }

    pub fn memory_heaps(&self) -> (r: &'a Vec<MemoryHeap>)
        ensures
            *r == self.spec_info().memory_heaps,
    {
        &self.info().memory_heaps
    }

    pub fn queue_families(&self) -> (r: &'a Vec<QueueFamily>)
        ensures
            *r == self.spec_info().queue_families,
    {
        &self.info().queue_families
    }
}

} // verus!
