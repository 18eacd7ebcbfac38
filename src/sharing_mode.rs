use vstd::prelude::*;

verus! {

/// A queue of a logical device, as the sharing rules see it: the device it
/// belongs to, its family, and its index within the family.
#[derive(Clone, Copy, Debug, PartialEq, Eq, Structural)]
pub struct Queue {
    pub device: u64,
    pub family_index: u32,
    pub index: u32,
}

impl Queue {
    pub fn device(&self) -> (r: u64)
        ensures
            r == self.device,
    {
        self.device
    }

    pub fn family_index(&self) -> (r: u32)
        ensures
            r == self.family_index,
    {
        self.family_index
    }

    pub fn index(&self) -> (r: u32)
        ensures
            r == self.index,
    {
        self.index
    }
}

/// How a resource is shared between queue families.
#[derive(Clone, Copy, Debug, PartialEq, Eq, Structural)]
pub enum SharingMode {
    /// Owned by one queue family at a time.
    Exclusive,
    /// Used by several queue families at once.
    Concurrent,
}

/// The queue families of one device that share a resource; each family
/// occurs once.
pub struct SharingQueues {
    device: u64,
    queues: Vec<u32>,
}

impl SharingQueues {
    #[verifier::type_invariant]
    spec fn inv(&self) -> bool {
        self.queues@.no_duplicates()
    }

    /// The device whose queues share the resource.
    pub closed spec fn spec_device(&self) -> u64 {
        self.device
    }

    /// The sharing queue families.
    pub closed spec fn families(&self) -> Set<u32> {
        self.queues@.to_set()
    }

    /// The sharing queue families, in the order they are handed to the driver.
    pub closed spec fn family_list(&self) -> Seq<u32> {
        self.queues@
    }

    /// Whether `queue` belongs to the sharing device and its family shares.
    pub open spec fn spec_contains(&self, queue: Queue) -> bool {
        queue.device == self.spec_device() && self.families().contains(queue.family_index)
    }

    /// The queue families of `queues`, in increasing order and each once.
    /// All queues must belong to one device, and there must be at least one.
    pub fn from_queues(queues: &Vec<Queue>) -> (r: SharingQueues)
        requires
            queues@.len() > 0,
            forall|i: int| 0 <= i < queues@.len() ==> (#[trigger] queues@[i]).device == queues@[0].device,
        ensures
            r.spec_device() == queues@[0].device,
            forall|f: u32| r.families().contains(f) <==> exists|i: int|
                0 <= i < queues@.len() && (#[trigger] queues@[i]).family_index == f,
            forall|i: int, j: int| 0 <= i < j < r.family_list().len() ==> r.family_list()[i] < r.family_list()[j],
    {
        let device = queues[0].device;
        let mut ids: Vec<u32> = Vec::new();
        let mut k: usize = 0;
        while k < queues.len()
            invariant
                0 <= k <= queues@.len(),
                forall|i: int, j: int| 0 <= i < j < ids@.len() ==> ids@[i] < ids@[j],
                forall|f: u32| ids@.contains(f) <==> exists|i: int|
                    0 <= i < k && (#[trigger] queues@[i]).family_index == f,
            decreases queues@.len() - k,
        {
            let f = queues[k].family_index;
            let ghost before = ids@;
            assert(forall|x: u32| before.contains(x) <==> exists|i: int|
                0 <= i < k && (#[trigger] queues@[i]).family_index == x);
            // position of the first id that is not below `f`
            let mut p: usize = 0;
            while p < ids.len() && ids[p] < f
                invariant
                    0 <= p <= ids@.len(),
                    forall|i: int| 0 <= i < p ==> ids@[i] < f,
                decreases ids@.len() - p,
            {
                p = p + 1;
            }
            if p == ids.len() || ids[p] != f {
                ids.insert(p, f);
                proof {
                    assert(ids@ == before.insert(p as int, f));
                    assert forall|x: u32| ids@.contains(x) <==> (before.contains(x) || x == f) by {
                        if ids@.contains(x) {
                            let i = choose|i: int| 0 <= i < ids@.len() && ids@[i] == x;
                            if i < p {
                                assert(before[i] == x);
                            } else if i > p {
                                assert(before[i - 1] == x);
                            }
                        }
                        if before.contains(x) {
                            let i = choose|i: int| 0 <= i < before.len() && before[i] == x;
                            if i < p {
                                assert(ids@[i] == x);
                            } else {
                                assert(ids@[i + 1] == x);
                            }
                        }
                        if x == f {
                            assert(ids@[p as int] == f);
                        }
                    }
                }
            } else {
                assert(ids@[p as int] == f);
                assert(before.contains(f));
            }
            proof {
                assert(forall|x: u32| ids@.contains(x) <==> (before.contains(x) || x == f));
                assert forall|x: u32| ids@.contains(x) <==> exists|i: int|
                    0 <= i < k + 1 && (#[trigger] queues@[i]).family_index == x by {
                    if x == f {
                        assert(queues@[k as int].family_index == f);
                    }
                    if before.contains(x) {
                        let i = choose|i: int| 0 <= i < k && (#[trigger] queues@[i]).family_index == x;
                        assert(0 <= i < k + 1 && queues@[i].family_index == x);
                    }
                    if exists|i: int| 0 <= i < k + 1 && (#[trigger] queues@[i]).family_index == x {
                        let i = choose|i: int| 0 <= i < k + 1 && (#[trigger] queues@[i]).family_index == x;
                        if i < k {
                            assert(before.contains(x));
                        }
                    }
                }
            }
            k = k + 1;
        }
        proof {
            assert forall|i: int, j: int| 0 <= i < ids@.len() && 0 <= j < ids@.len() && i != j implies ids@[i] != ids@[j] by {
                if i < j {
                    assert(ids@[i] < ids@[j]);
                } else {
                    assert(ids@[j] < ids@[i]);
                }
            }
            assert forall|f: u32| ids@.to_set().contains(f) <==> ids@.contains(f) by {}
        }
        SharingQueues { device, queues: ids }
    }

    /// Whether `queue` belongs to the sharing device and its family shares.
    pub fn contains(&self, queue: &Queue) -> (r: bool)
        ensures
            r == self.spec_contains(*queue),
    {
        if self.device != queue.device {
            return false;
        }
        let mut i: usize = 0;
        while i < self.queues.len()
            invariant
                0 <= i <= self.queues@.len(),
                self.device == queue.device,
                forall|j: int| 0 <= j < i ==> self.queues@[j] != queue.family_index,
            decreases self.queues@.len() - i,
        {
            if self.queues[i] == queue.family_index {
                assert(self.queues@[i as int] == queue.family_index);
                assert(self.queues@.contains(queue.family_index));
                assert(self.queues@.to_set().contains(queue.family_index));
                return true;
            }
            i = i + 1;
        }
        assert(!self.queues@.contains(queue.family_index));
        false
    }

    /// Adds the family of `queue`; returns whether it was not there yet.
    /// The queue must belong to the sharing device.
    pub fn insert(&mut self, queue: &Queue) -> (r: bool)
        requires
            queue.device == old(self).spec_device(),
        ensures
            r == !old(self).spec_contains(*queue),
            final(self).spec_device() == old(self).spec_device(),
            final(self).families() == old(self).families().insert(queue.family_index),
            r ==> final(self).family_list() == old(self).family_list().push(queue.family_index),
            !r ==> final(self).family_list() == old(self).family_list(),
    {
        proof {
            use_type_invariant(&*self);
        }
        if !self.contains(queue) {
            let ghost before = self.queues@;
            let mut queues = self.queues.clone();
            queues.push(queue.family_index);
            proof {
                assert(queues@ == before.push(queue.family_index));
                assert(queues@.to_set() =~= before.to_set().insert(queue.family_index)) by {
                    assert forall|x: u32| queues@.contains(x) <==> (before.contains(x) || x == queue.family_index) by {
                        if queues@.contains(x) {
                            let i = choose|i: int| 0 <= i < queues@.len() && queues@[i] == x;
                            if i < before.len() {
                                assert(before[i] == x);
                            }
                        }
                        if before.contains(x) {
                            let i = choose|i: int| 0 <= i < before.len() && before[i] == x;
                            assert(queues@[i] == x);
                        }
                        if x == queue.family_index {
                            assert(queues@[before.len() as int] == x);
                        }
                    }
                }
                assert(queues@.no_duplicates()) by {
                    assert(!before.contains(queue.family_index));
                }
            }
            *self = SharingQueues { device: self.device, queues };
            true
        } else {
            proof {
                assert(self.families().insert(queue.family_index) =~= self.families());
            }
            false
        }
    }

    /// The sharing mode for the driver: concurrent when more than one queue
    /// family shares the resource, exclusive otherwise.
    pub fn sharing_mode(&self) -> (r: SharingMode)
        ensures
            r == (if self.family_list().len() > 1 { SharingMode::Concurrent } else { SharingMode::Exclusive }),
    {
        if self.queues.len() > 1 {
            SharingMode::Concurrent
        } else {
            SharingMode::Exclusive
        }
    }

    /// The sharing queue family indices.
    pub fn family_indices(&self) -> (r: &Vec<u32>)
        ensures
            r@ == self.family_list(),
    {
        &self.queues
    }

    pub fn device(&self) -> (r: u64)
        ensures
            r == self.spec_device(),
    {
        self.device
    }
}

} // verus!
