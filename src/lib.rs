// Capability negotiation and adapter discovery in front of a Vulkan-style
// driver: which extensions and layers are available, which get enabled, what
// is known of each adapter, and the lazily resolved extension tables.

pub mod capability;
pub mod entry;
pub mod error;
pub mod instance;
pub mod lazy_table;
pub mod memory_requirements;
pub mod negotiation;
pub mod physical_device;
pub mod sharing_mode;
