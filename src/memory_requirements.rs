use vstd::prelude::*;
use crate::physical_device::{
    MemoryType,
    PhysicalDevice,
};

verus! {

/// Whether `x` is a power of two.
pub open spec fn is_pow2(x: u64) -> bool {
    x != 0 && x & ((x - 1) as u64) == 0
}

/// Whether bit `i` of `bits` is set.
pub open spec fn bit_set(bits: u32, i: u32) -> bool {
    (bits >> i) & 1u32 == 1u32
}

/// What a resource needs of the memory that backs it: a size, an alignment,
/// and one bit per memory type that it may be bound to.
#[derive(Clone, Copy, Debug, PartialEq, Eq, Structural)]
pub struct MemoryRequirements {
    pub size: u64,
    pub alignment: u64,
    pub memory_type_bits: u32,
}

impl MemoryRequirements {
    pub fn size(&self) -> (r: u64)
        ensures
            r == self.size,
    {
        self.size
    }

    pub fn alignment(&self) -> (r: u64)
        ensures
            r == self.alignment,
    {
        self.alignment
    }

    pub fn memory_type_bits(&self) -> (r: u32)
        ensures
            r == self.memory_type_bits,
    {
        self.memory_type_bits
    }

    /// Whether `align` is a power of two.
    pub fn is_power_of_two(align: u64) -> (r: bool)
        ensures
            r == is_pow2(align),
    {
        align != 0 && align & (align - 1) == 0
    }

    /// The same requirements, aligned on `align` as well. Alignments are
    /// powers of two, so the larger of the two alignments is aligned on both.
    pub fn align_to(&self, align: u64) -> (r: MemoryRequirements)
        requires
            is_pow2(align),
        ensures
            r.size == self.size,
            r.memory_type_bits == self.memory_type_bits,
            r.alignment == (if self.alignment >= align { self.alignment } else { align }),
    {
        MemoryRequirements {
            size: self.size,
            alignment: if self.alignment >= align { self.alignment } else { align },
            memory_type_bits: self.memory_type_bits,
        }
    }

    /// Whether the memory type of the given index may back the resource.
    pub fn contains_memory_type_index(&self, index: u32) -> (r: bool)
        requires
            index < 32,
        ensures
            r == bit_set(self.memory_type_bits, index),
    {
        let bits = self.memory_type_bits;
        let r = bits & (1u32 << index) != 0;
        assert(r == bit_set(bits, index)) by (bit_vector)
            requires
                index < 32,
                r == (bits & (1u32 << index) != 0),
        ;
        r
    }

    /// The same requirements, keeping only the allowed memory types of the
    /// adapter that `keep` accepts.
    pub fn filter_memory_types<F: Fn(MemoryType) -> bool>(
        &self,
        physical_device: &PhysicalDevice,
        keep: F,
    ) -> (r: MemoryRequirements)
        requires
            forall|i: u32| i < 32 && bit_set(self.memory_type_bits, i)
                ==> (i as int) < physical_device.spec_info().memory_types@.len(),
            forall|t: MemoryType| keep.requires((t,)),
        ensures
            r.size == self.size,
            r.alignment == self.alignment,
            forall|i: u32| i < 32 ==> (#[trigger] bit_set(r.memory_type_bits, i) ==> bit_set(
                self.memory_type_bits,
                i,
            ) && keep.ensures((physical_device.spec_info().memory_types@[i as int],), true)),
            forall|i: u32| i < 32 ==> (bit_set(self.memory_type_bits, i) && !#[trigger] bit_set(
                r.memory_type_bits,
                i,
            ) ==> keep.ensures((physical_device.spec_info().memory_types@[i as int],), false)),
    {
        let bits = self.memory_type_bits;
        let mut kept: u32 = 0;
        let mut index: u32 = 0;
        assert forall|i: u32| i < 32 implies !#[trigger] bit_set(kept, i) by {
            assert((0u32 >> i) & 1u32 != 1u32) by (bit_vector);
        }
        while index < 32
            invariant
                0 <= index <= 32,
                bits == self.memory_type_bits,
                forall|t: MemoryType| keep.requires((t,)),
                forall|i: u32| i < 32 && bit_set(bits, i)
                    ==> (i as int) < physical_device.spec_info().memory_types@.len(),
                forall|i: u32| index <= i < 32 ==> !#[trigger] bit_set(kept, i),
                forall|i: u32| i < index ==> (#[trigger] bit_set(kept, i) ==> bit_set(bits, i)
                    && keep.ensures((physical_device.spec_info().memory_types@[i as int],), true)),
                forall|i: u32| i < index ==> (bit_set(bits, i) && !#[trigger] bit_set(kept, i)
                    ==> keep.ensures((physical_device.spec_info().memory_types@[i as int],), false)),
            decreases 32 - index,
        {
            if self.contains_memory_type_index(index) {
                let t = physical_device.memory_type(index).unwrap();
                if keep(t) {
                    let old_kept = kept;
                    kept = kept | (1u32 << index);
                    assert forall|i: u32| i < 32 implies #[trigger] bit_set(kept, i) == (bit_set(old_kept, i) || i == index) by {
                        assert(bit_set(kept, i) == (bit_set(old_kept, i) || i == index)) by (bit_vector)
                            requires
                                i < 32,
                                index < 32,
                                kept == old_kept | (1u32 << index),
                        ;
                    }
                }
            }
            index = index + 1;
        }
        MemoryRequirements { size: self.size, alignment: self.alignment, memory_type_bits: kept }
    }
}

} // verus!
