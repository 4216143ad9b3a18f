//! What the library reads of a device: its queue families and its memory types.

use vstd::prelude::*;

verus! {

/// A family of queues of a physical device.
#[derive(Debug, Copy, Clone, PartialEq, Eq, Structural)]
pub struct QueueFamily {
    /// Identifier of the family, unique within its physical device.
    pub id: u32,
}

/// A type of memory of a physical device.
#[derive(Debug, Copy, Clone, PartialEq, Eq, Structural)]
pub struct MemoryType {
    /// Identifier of the memory type, unique within its physical device.
    pub id: u32,
    /// Whether the memory can be mapped and read or written by the CPU.
    pub host_visible: bool,
}

impl MemoryType {
    /// Whether bit `id` is set in a mask of memory types: whether the binary digit of weight
    /// two to the power of `id` is a one. A mask has 32 bits; no bit beyond is set.
    pub open spec fn in_mask(self, memory_type_bits: u32) -> bool {
        (memory_type_bits as nat / vstd::arithmetic::power2::pow2(self.id as nat)) % 2 == 1
    }

    /// Whether the memory type is in the mask and can be accessed by the CPU.
    pub open spec fn suits(self, memory_type_bits: u32) -> bool {
        self.in_mask(memory_type_bits) && self.host_visible
    }

    /// Returns true if the memory type is in the mask and can be accessed by the CPU.
    fn is_suitable(&self, memory_type_bits: u32) -> (r: bool)
        ensures
            r == self.suits(memory_type_bits),
    {
        let id: u32 = self.id;
        proof {
            lemma_in_mask(*self, memory_type_bits);
        }
        if id >= 32 {
            return false;
        }
        assert((memory_type_bits & (1u32 << id) != 0) <==> (memory_type_bits >> id) % 2 == 1)
            by (bit_vector)
            requires
                id < 32,
        ;
        (memory_type_bits & (1u32 << id)) != 0 && self.host_visible
    }
}

proof fn lemma_in_mask(memory_type: MemoryType, memory_type_bits: u32)
    ensures
        memory_type.id >= 32 ==> !memory_type.in_mask(memory_type_bits),
        memory_type.id < 32 ==> (memory_type.in_mask(memory_type_bits) <==> (memory_type_bits
            >> memory_type.id) % 2 == 1),
{
    let id = memory_type.id;
    if id >= 32 {
        vstd::arithmetic::power2::lemma2_to64();
        if id > 32 {
            vstd::arithmetic::power2::lemma_pow2_strictly_increases(32, id as nat);
        }
        vstd::arithmetic::div_mod::lemma_basic_div(
            memory_type_bits as int,
            vstd::arithmetic::power2::pow2(id as nat) as int,
        );
    } else {
        vstd::bits::lemma_u32_shr_is_div(memory_type_bits, id);
    }
}

/// The mask of a single memory type has that memory type, and no other.
pub proof fn law_mask_of_one_type(memory_type: MemoryType, other: MemoryType)
    requires
        memory_type.id < 32,
    ensures
        other.in_mask(1u32 << memory_type.id) <==> other.id == memory_type.id,
{
    let n = memory_type.id;
    let k = other.id;
    lemma_in_mask(other, 1u32 << n);
    if k < 32 {
        assert(((1u32 << n) >> k) % 2 == 1 <==> k == n) by (bit_vector)
            requires
                n < 32,
                k < 32,
        ;
    }
}

/// A memory type is in the union of two masks exactly if it is in one of them, and in the intersection
/// exactly if it is in both. Nothing is in the empty mask.
pub proof fn law_mask_union(memory_type: MemoryType, m: u32, n: u32)
    ensures
        memory_type.in_mask(m | n) <==> memory_type.in_mask(m) || memory_type.in_mask(n),
        memory_type.in_mask(m & n) <==> memory_type.in_mask(m) && memory_type.in_mask(n),
        !memory_type.in_mask(0),
{
    let k = memory_type.id;
    lemma_in_mask(memory_type, m);
    lemma_in_mask(memory_type, n);
    lemma_in_mask(memory_type, m | n);
    lemma_in_mask(memory_type, m & n);
    lemma_in_mask(memory_type, 0);
    if k < 32 {
        assert(((m | n) >> k) % 2 == 1 <==> (m >> k) % 2 == 1 || (n >> k) % 2 == 1)
            by (bit_vector)
            requires
                k < 32,
        ;
        assert(((m & n) >> k) % 2 == 1 <==> (m >> k) % 2 == 1 && (n >> k) % 2 == 1)
            by (bit_vector)
            requires
                k < 32,
        ;
        assert((0u32 >> k) % 2 == 0) by (bit_vector)
            requires
                k < 32,
        ;
    }
}

/// A physical device: what it offers to a buffer.
#[derive(Debug)]
pub struct PhysicalDevice {
    /// Memory types, in the order of preference of the implementation.
    pub memory_types: Vec<MemoryType>,
    /// Queue families.
    pub queue_families: Vec<QueueFamily>,
}

/// The first memory type of the list that suits the mask.
pub open spec fn first_suitable(
    memory_types: Seq<MemoryType>,
    memory_type_bits: u32,
) -> Option<MemoryType>
    decreases memory_types.len(),
{
    if memory_types.len() == 0 {
        None
    } else if memory_types[0].suits(memory_type_bits) {
        Some(memory_types[0])
    } else {
        first_suitable(memory_types.drop_first(), memory_type_bits)
    }
}

impl PhysicalDevice {
    /// Whether the device has a queue family of this identifier.
    pub open spec fn has_family(&self, id: u32) -> bool {
        self.queue_families@.contains(QueueFamily { id })
    }

    /// Returns the queue family of this identifier, or `None` if the device has none.
    pub fn queue_family_by_id(&self, id: u32) -> (r: Option<QueueFamily>)
        ensures
            r == (if self.has_family(id) {
                Some(QueueFamily { id })
            } else {
                None
            }),
            r matches Some(family) ==> family.id == id,
            r is Some <==> exists|i: int|
                0 <= i < self.queue_families@.len() && (#[trigger] self.queue_families@[i]).id
                    == id,
    {
        let mut i: usize = 0;
        while i < self.queue_families.len()
            invariant
                i <= self.queue_families@.len(),
                forall|j: int| 0 <= j < i ==> self.queue_families@[j] != (QueueFamily { id }),
            decreases self.queue_families@.len() - i,
        {
            let family: QueueFamily = self.queue_families[i];
            if family.id == id {
                assert(self.queue_families@[i as int] == QueueFamily { id });
                return Some(family);
            }
            i += 1;
        }
        None
    }

    /// Returns the first memory type that is in the mask and that the CPU can access.
    pub fn host_visible_memory_type(&self, memory_type_bits: u32) -> (r: Option<MemoryType>)
        ensures
            r == first_suitable(self.memory_types@, memory_type_bits),
            match r {
                Some(t) => exists|i: int|
                    {
                        &&& 0 <= i < self.memory_types@.len()
                        &&& #[trigger] self.memory_types@[i] == t
                        &&& t.in_mask(memory_type_bits) && t.host_visible
                        &&& forall|j: int|
                            0 <= j < i ==> !((#[trigger] self.memory_types@[j]).in_mask(
                                memory_type_bits,
                            ) && self.memory_types@[j].host_visible)
                    },
                None => forall|j: int|
                    0 <= j < self.memory_types@.len() ==> !((
                    #[trigger] self.memory_types@[j]).in_mask(memory_type_bits)
                        && self.memory_types@[j].host_visible),
            },
    {
        let mut i: usize = 0;
        assert(self.memory_types@.skip(0) =~= self.memory_types@);
        while i < self.memory_types.len()
            invariant
                i <= self.memory_types@.len(),
                first_suitable(self.memory_types@, memory_type_bits) == first_suitable(
                    self.memory_types@.skip(i as int),
                    memory_type_bits,
                ),
            decreases self.memory_types@.len() - i,
        {
            let memory_type: MemoryType = self.memory_types[i];
            assert(self.memory_types@.skip(i as int)[0] == memory_type);
            if memory_type.is_suitable(memory_type_bits) {
                proof {
                    law_first_suitable(self.memory_types@, memory_type_bits);
                }
                return Some(memory_type);
            }
            assert(self.memory_types@.skip(i as int).drop_first() =~= self.memory_types@.skip(
                i + 1,
            ));
            i += 1;
        }
        proof {
            law_first_suitable(self.memory_types@, memory_type_bits);
        }
        None
    }
}

/// The memory type found is in the list, suits the mask, and every earlier one does not; none is
/// found exactly where none suits.
pub proof fn law_first_suitable(memory_types: Seq<MemoryType>, memory_type_bits: u32)
    ensures
        match first_suitable(memory_types, memory_type_bits) {
            Some(t) => exists|i: int|
                {
                    &&& 0 <= i < memory_types.len()
                    &&& #[trigger] memory_types[i] == t
                    &&& t.in_mask(memory_type_bits) && t.host_visible
                    &&& forall|j: int|
                        0 <= j < i ==> !((#[trigger] memory_types[j]).in_mask(memory_type_bits)
                            && memory_types[j].host_visible)
                },
            None => forall|j: int|
                0 <= j < memory_types.len() ==> !((#[trigger] memory_types[j]).in_mask(
                    memory_type_bits,
                ) && memory_types[j].host_visible),
        },
    decreases memory_types.len(),
{
    if memory_types.len() > 0 && !memory_types[0].suits(memory_type_bits) {
        let rest = memory_types.drop_first();
        law_first_suitable(rest, memory_type_bits);
        match first_suitable(rest, memory_type_bits) {
            Some(t) => {
                let i = choose|i: int|
                    {
                        &&& 0 <= i < rest.len()
                        &&& #[trigger] rest[i] == t
                        &&& t.suits(memory_type_bits)
                        &&& forall|j: int|
                            0 <= j < i ==> !(#[trigger] rest[j]).suits(memory_type_bits)
                    };
                assert(memory_types[i + 1] == t);
                assert forall|j: int| 0 <= j < i + 1 implies !(
                #[trigger] memory_types[j]).suits(memory_type_bits) by {
                    if j > 0 {
                        assert(rest[j - 1] == memory_types[j]);
                    }
                }
            },
            None => {
                assert forall|j: int| 0 <= j < memory_types.len() implies !(
                #[trigger] memory_types[j]).suits(memory_type_bits) by {
                    if j > 0 {
                        assert(rest[j - 1] == memory_types[j]);
                    }
                }
            },
        }
    }
}

/// A device that buffers are created on.
#[derive(Debug)]
pub struct Device {
    /// The physical device behind it.
    pub physical_device: PhysicalDevice,
}

/// A device has a family of an identifier exactly if one of the families that it lists has that
/// identifier.
pub proof fn law_has_family(physical_device: PhysicalDevice, id: u32)
    ensures
        physical_device.has_family(id) <==> exists|i: int|
            0 <= i < physical_device.queue_families@.len() && (
            #[trigger] physical_device.queue_families@[i]).id == id,
{
    if exists|i: int|
        0 <= i < physical_device.queue_families@.len() && (
        #[trigger] physical_device.queue_families@[i]).id == id {
        let i = choose|i: int|
            0 <= i < physical_device.queue_families@.len() && (
            #[trigger] physical_device.queue_families@[i]).id == id;
        assert(physical_device.queue_families@[i] == QueueFamily { id });
    }
}

} // verus!
