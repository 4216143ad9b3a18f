//! Creation of a buffer whose content is accessible to the CPU.
//!
//! Three requests have to be carried out by the device, one after the other: to create a buffer
//! object, to allocate memory, and to bind the memory to the buffer object. Each request is a
//! value that says what to ask for. The outcome of a request is handed to it, which gives the
//! next request, and in the end the buffer. The first failure ends the creation.

use crate::buffer::cpu_access::{CpuAccessibleBuffer, UnsafeBuffer};
use crate::buffer::family_ids::FamilyIds;
use crate::buffer::traits::Usage;
use crate::device::{Device, MemoryType, QueueFamily};
use crate::error::OomError;
use crate::memory::{MemoryAlloc, MemoryRequirements};
use crate::sync::{Sharing, SharingView};
use std::marker::PhantomData;
use std::sync::Arc;
use vstd::prelude::*;

verus! {

/// Request to create a buffer object.
#[derive(Debug)]
pub struct BufferRequest<T: ?Sized, B, M> {
    device: Arc<Device>,
    size: usize,
    usage: Usage,
    queue_families: FamilyIds,
    marker: PhantomData<Box<T>>,
    handles: PhantomData<(B, M)>,
}

/// What a `BufferRequest` asks for.
pub struct BufferRequestView {
    /// Device to create the buffer on.
    pub device: Arc<Device>,
    /// Size of the buffer, in bytes.
    pub size: usize,
    /// What the buffer will be used for.
    pub usage: Usage,
    /// Identifiers of the queue families that will access the buffer.
    pub queue_families: Seq<u32>,
}

/// Request to allocate the memory of a buffer object.
#[derive(Debug)]
pub struct MemoryRequest<T: ?Sized, B, M> {
    inner: UnsafeBuffer<B>,
    queue_families: FamilyIds,
    memory_type: MemoryType,
    requirements: MemoryRequirements,
    marker: PhantomData<Box<T>>,
    handles: PhantomData<M>,
}

/// What a `MemoryRequest` asks for, and what has been made so far.
pub struct MemoryRequestView<B> {
    /// The buffer object.
    pub inner: UnsafeBuffer<B>,
    /// Identifiers of the queue families that will access the buffer.
    pub queue_families: Seq<u32>,
    /// Type of memory to allocate.
    pub memory_type: MemoryType,
    /// Size and alignment of the memory to allocate.
    pub requirements: MemoryRequirements,
}

/// Request to bind memory to a buffer object.
#[derive(Debug)]
pub struct BindRequest<T: ?Sized, B, M> {
    inner: UnsafeBuffer<B>,
    memory: MemoryAlloc<M>,
    queue_families: FamilyIds,
    marker: PhantomData<Box<T>>,
}

/// A buffer, or a buffer object and the memory to bind to it.
pub struct BufferView<B, M> {
    /// The buffer object.
    pub inner: UnsafeBuffer<B>,
    /// The memory.
    pub memory: MemoryAlloc<M>,
    /// Identifiers of the queue families that can access the buffer.
    pub queue_families: Seq<u32>,
}

impl BufferRequestView {
    /// A buffer that two or more families access is shared between these; any other belongs to
    /// one family at a time.
    pub open spec fn sharing(self) -> SharingView {
        if self.queue_families.len() >= 2 {
            SharingView::Concurrent(self.queue_families)
        } else {
            SharingView::Exclusive
        }
    }

    /// The memory type that is allocated for a mask: the first of the device that is in the mask
    /// and that the CPU can access.
    pub open spec fn memory_type(self, memory_type_bits: u32) -> Option<MemoryType> {
        crate::device::first_suitable(
            self.device.physical_device.memory_types@,
            memory_type_bits,
        )
    }

    /// What follows the creation of the buffer object.
    pub open spec fn created<B>(
        self,
        outcome: Result<(B, MemoryRequirements), OomError>,
    ) -> Result<MemoryRequestView<B>, OomError> {
        match outcome {
            Ok((handle, requirements)) => Ok(
                MemoryRequestView {
                    inner: UnsafeBuffer {
                        handle,
                        device: self.device,
                        size: self.size,
                        usage: self.usage,
                    },
                    queue_families: self.queue_families,
                    memory_type: self.memory_type(requirements.memory_type_bits).unwrap(),
                    requirements,
                },
            ),
            Err(e) => Err(e),
        }
    }
}

impl<B> MemoryRequestView<B> {
    /// Whether memory is as it was asked for: mapped, and at an aligned offset.
    pub open spec fn is_met_by<M>(self, memory: MemoryAlloc<M>) -> bool {
        &&& self.requirements.alignment > 0
        &&& memory.offset % self.requirements.alignment == 0
        &&& memory.mapped_memory is Some
    }

    /// What follows the allocation of the memory.
    pub open spec fn allocated<M>(
        self,
        outcome: Result<MemoryAlloc<M>, OomError>,
    ) -> Result<BufferView<B, M>, OomError> {
        match outcome {
            Ok(memory) => Ok(
                BufferView { inner: self.inner, memory, queue_families: self.queue_families },
            ),
            Err(e) => Err(e),
        }
    }
}

impl<B, M> BufferView<B, M> {
    /// What follows the binding of the memory.
    pub open spec fn bound(self, outcome: Result<(), OomError>) -> Result<Self, OomError> {
        match outcome {
            Ok(_) => Ok(self),
            Err(e) => Err(e),
        }
    }
}

impl<T: ?Sized, B, M> View for BufferRequest<T, B, M> {
    type V = BufferRequestView;

    closed spec fn view(&self) -> BufferRequestView {
        BufferRequestView {
            device: self.device,
            size: self.size,
            usage: self.usage,
            queue_families: self.queue_families@,
        }
    }
}

impl<T: ?Sized, B, M> BufferRequest<T, B, M> {
    /// Builds the request for a buffer of `size` bytes.
    pub(crate) fn new(
        device: &Arc<Device>,
        size: usize,
        usage: &Usage,
        queue_families: Vec<QueueFamily>,
    ) -> (r: Self)
        requires
            queue_families@.len() * 8 <= isize::MAX + 1,
        ensures
            r@.device == *device,
            r@.size == size,
            r@.usage == *usage,
            r@.queue_families == crate::buffer::family_ids::ids_of(queue_families@),
    {
        BufferRequest {
            device: device.clone(),
            size,
            usage: *usage,
            queue_families: FamilyIds::collect(queue_families),
            marker: PhantomData,
            handles: PhantomData,
        }
    }

    /// Returns the device to create the buffer on.
    pub fn device(&self) -> (r: &Arc<Device>)
        ensures
            *r == self@.device,
    {
        &self.device
    }

    /// Returns the size of the buffer to create, in bytes.
    pub fn size(&self) -> (r: usize)
        ensures
            r == self@.size,
    {
        self.size
    }

    /// Returns what the buffer will be used for.
    pub fn usage(&self) -> (r: &Usage)
        ensures
            *r == self@.usage,
    {
        &self.usage
    }

    /// Returns how the buffer is shared between queue families.
    pub fn sharing(&self) -> (r: Sharing)
        ensures
            r@ == self@.sharing(),
            self@.queue_families.len() >= 2 ==> (r matches Sharing::Concurrent(ids) && ids@
                == self@.queue_families),
            self@.queue_families.len() < 2 ==> r is Exclusive,
    {
        if self.queue_families.len() >= 2 {
            Sharing::Concurrent(self.queue_families.to_vec())
        } else {
            Sharing::Exclusive
        }
    }

    /// Takes the outcome of the creation: the handle of the buffer object and what it asks of
    /// its memory. Chooses the type of the memory.
    ///
    /// The Vulkan specifications guarantee that every buffer accepts a memory type that the CPU
    /// can access.
    pub fn created(self, outcome: Result<(B, MemoryRequirements), OomError>) -> (r: Result<
        MemoryRequest<T, B, M>,
        OomError,
    >)
        requires
            outcome matches Ok((_, requirements)) ==> self@.memory_type(
                requirements.memory_type_bits,
            ) is Some,
        ensures
            match r {
                Ok(next) => self@.created(outcome) == Ok::<MemoryRequestView<B>, OomError>(next@),
                Err(e) => self@.created(outcome) == Err::<MemoryRequestView<B>, OomError>(e),
            },
            match outcome {
                Ok((handle, requirements)) => r matches Ok(next) && {
                    &&& next@.requirements == requirements
                    &&& next@.inner.handle == handle
                    &&& next@.inner.device == self@.device
                    &&& next@.inner.size == self@.size
                    &&& next@.inner.usage == self@.usage
                    &&& next@.queue_families == self@.queue_families
                    &&& next@.memory_type.host_visible
                    &&& next@.memory_type.in_mask(requirements.memory_type_bits)
                },
                Err(e) => r matches Err(f) && f == e,
            },
    {
        match outcome {
            Ok((handle, requirements)) => {
                let found: Option<MemoryType> =
                    self.device.physical_device.host_visible_memory_type(
                    requirements.memory_type_bits,
                );
                Ok(
                    MemoryRequest {
                        memory_type: found.unwrap(),
                        inner: UnsafeBuffer {
                            handle,
                            device: self.device,
                            size: self.size,
                            usage: self.usage,
                        },
                        queue_families: self.queue_families,
                        requirements,
                        marker: PhantomData,
                        handles: PhantomData,
                    },
                )
            },
            Err(e) => Err(e),
        }
    }
}

impl<T: ?Sized, B, M> View for MemoryRequest<T, B, M> {
    type V = MemoryRequestView<B>;

    closed spec fn view(&self) -> MemoryRequestView<B> {
        MemoryRequestView {
            inner: self.inner,
            queue_families: self.queue_families@,
            memory_type: self.memory_type,
            requirements: self.requirements,
        }
    }
}

impl<T: ?Sized, B, M> MemoryRequest<T, B, M> {
    /// Returns the buffer object that the memory is for.
    pub fn inner_buffer(&self) -> (r: &UnsafeBuffer<B>)
        ensures
            *r == self@.inner,
    {
        &self.inner
    }

    /// Returns the type of the memory to allocate.
    pub fn memory_type(&self) -> (r: MemoryType)
        ensures
            r == self@.memory_type,
    {
        self.memory_type
    }

    /// Returns the size and the alignment of the memory to allocate.
    pub fn requirements(&self) -> (r: MemoryRequirements)
        ensures
            r == self@.requirements,
    {
        self.requirements
    }

    /// Takes the outcome of the allocation.
    pub fn allocated(self, outcome: Result<MemoryAlloc<M>, OomError>) -> (r: Result<
        BindRequest<T, B, M>,
        OomError,
    >)
        requires
            outcome matches Ok(memory) ==> self@.is_met_by(memory),
        ensures
            match r {
                Ok(next) => self@.allocated(outcome) == Ok::<BufferView<B, M>, OomError>(next@),
                Err(e) => self@.allocated(outcome) == Err::<BufferView<B, M>, OomError>(e),
            },
            match outcome {
                Ok(memory) => r matches Ok(next) && {
                    &&& next@.memory == memory
                    &&& next@.inner == self@.inner
                    &&& next@.queue_families == self@.queue_families
                },
                Err(e) => r matches Err(f) && f == e,
            },
    {
        match outcome {
            Ok(memory) => Ok(
                BindRequest {
                    inner: self.inner,
                    memory,
                    queue_families: self.queue_families,
                    marker: PhantomData,
                },
            ),
            Err(e) => Err(e),
        }
    }
}

impl<T: ?Sized, B, M> View for BindRequest<T, B, M> {
    type V = BufferView<B, M>;

    closed spec fn view(&self) -> BufferView<B, M> {
        BufferView {
            inner: self.inner,
            memory: self.memory,
            queue_families: self.queue_families@,
        }
    }
}

impl<T: ?Sized, B, M> BindRequest<T, B, M> {
    /// The memory to bind is mapped.
    #[verifier::type_invariant]
    spec fn is_mapped(self) -> bool {
        self.memory.mapped_memory is Some
    }

    /// Returns the buffer object to bind the memory to.
    pub fn inner_buffer(&self) -> (r: &UnsafeBuffer<B>)
        ensures
            *r == self@.inner,
    {
        &self.inner
    }

    /// Returns the memory to bind.
    pub fn memory(&self) -> (r: &MemoryAlloc<M>)
        ensures
            *r == self@.memory,
    {
        &self.memory
    }

    /// Takes the outcome of the binding.
    pub fn bound(self, outcome: Result<(), OomError>) -> (r: Result<
        CpuAccessibleBuffer<T, B, M>,
        OomError,
    >)
        ensures
            match r {
                Ok(buffer) => self@.bound(outcome) == Ok::<BufferView<B, M>, OomError>(buffer@),
                Err(e) => self@.bound(outcome) == Err::<BufferView<B, M>, OomError>(e),
            },
            match outcome {
                Ok(_) => r matches Ok(buffer) && {
                    &&& buffer@.memory == self@.memory
                    &&& buffer@.inner == self@.inner
                    &&& buffer@.queue_families == self@.queue_families
                },
                Err(e) => r matches Err(f) && f == e,
            },
    {
        proof {
            use_type_invariant(&self);
        }
        match outcome {
            Ok(_) => Ok(
                CpuAccessibleBuffer::from_parts(self.inner, self.memory, self.queue_families),
            ),
            Err(e) => Err(e),
        }
    }
}

/// The outcome of a whole creation, from the outcomes of its requests.
pub open spec fn creation<B, M>(
    request: BufferRequestView,
    created: Result<(B, MemoryRequirements), OomError>,
    allocated: Result<MemoryAlloc<M>, OomError>,
    bound: Result<(), OomError>,
) -> Result<BufferView<B, M>, OomError> {
    match request.created(created) {
        Ok(memory_request) => match memory_request.allocated(allocated) {
            Ok(bind_request) => bind_request.bound(bound),
            Err(e) => Err(e),
        },
        Err(e) => Err(e),
    }
}

/// A creation succeeds exactly if its three requests do, and fails with the error of the first that
/// does not. The buffer is on the device, of the size and for the families that were asked for, and
/// has the memory that was allocated.
pub proof fn law_creation<B, M>(
    request: BufferRequestView,
    created: Result<(B, MemoryRequirements), OomError>,
    allocated: Result<MemoryAlloc<M>, OomError>,
    bound: Result<(), OomError>,
)
    ensures
        creation(request, created, allocated, bound) is Ok <==> created is Ok && allocated is Ok
            && bound is Ok,
        creation(request, created, allocated, bound) matches Err(e) ==> {
            if created is Err {
                created == Err::<(B, MemoryRequirements), OomError>(e)
            } else if allocated is Err {
                allocated == Err::<MemoryAlloc<M>, OomError>(e)
            } else {
                bound == Err::<(), OomError>(e)
            }
        },
        creation(request, created, allocated, bound) matches Ok(buffer) ==> {
            &&& buffer.inner.device == request.device
            &&& buffer.inner.size == request.size
            &&& buffer.inner.usage == request.usage
            &&& buffer.queue_families == request.queue_families
            &&& created matches Ok((handle, _)) && buffer.inner.handle == handle
            &&& allocated == Ok::<MemoryAlloc<M>, OomError>(buffer.memory)
        },
{
}

/// The memory that is asked for is of a type of the device that the buffer object accepts and that
/// the CPU can access.
pub proof fn law_memory_is_host_visible<B>(
    request: BufferRequestView,
    created: Result<(B, MemoryRequirements), OomError>,
)
    requires
        created matches Ok((_, requirements)) && request.memory_type(
            requirements.memory_type_bits,
        ) is Some,
    ensures
        request.created(created) matches Ok(next) && {
            &&& next.memory_type.host_visible
            &&& next.memory_type.in_mask(next.requirements.memory_type_bits)
            &&& request.device.physical_device.memory_types@.contains(next.memory_type)
        },
{
    let requirements = created.unwrap().1;
    crate::device::law_first_suitable(
        request.device.physical_device.memory_types@,
        requirements.memory_type_bits,
    );
}

/// The memory that is asked for has exactly the size, the alignment and the memory types that the
/// device required for the buffer object. The buffer object is the one that was created, on the device,
/// of the size and for the uses and families that were asked for.
pub proof fn law_memory_is_as_required<B>(
    request: BufferRequestView,
    handle: B,
    requirements: MemoryRequirements,
)
    ensures
        request.created(Ok((handle, requirements))) matches Ok(next) && {
            &&& next.requirements.size == requirements.size
            &&& next.requirements.alignment == requirements.alignment
            &&& next.requirements.memory_type_bits == requirements.memory_type_bits
            &&& next.inner.handle == handle
            &&& next.inner.device == request.device
            &&& next.inner.size == request.size
            &&& next.inner.usage == request.usage
            &&& next.queue_families == request.queue_families
        },
{
}

/// The memory type that is asked for is the first of the device that is in the mask and that the CPU
/// can access: no memory type before it is both.
pub proof fn law_memory_type_is_the_first<B>(
    request: BufferRequestView,
    handle: B,
    requirements: MemoryRequirements,
    i: int,
)
    requires
        0 <= i < request.device.physical_device.memory_types@.len(),
        request.device.physical_device.memory_types@[i].host_visible,
        request.device.physical_device.memory_types@[i].in_mask(requirements.memory_type_bits),
        forall|j: int|
            0 <= j < i ==> !((
            #[trigger] request.device.physical_device.memory_types@[j]).host_visible
                && request.device.physical_device.memory_types@[j].in_mask(
                requirements.memory_type_bits,
            )),
    ensures
        request.memory_type(requirements.memory_type_bits) == Some(
            request.device.physical_device.memory_types@[i],
        ),
        request.created(Ok((handle, requirements))) matches Ok(next) && next.memory_type
            == request.device.physical_device.memory_types@[i],
{
    let types = request.device.physical_device.memory_types@;
    crate::device::law_first_suitable(types, requirements.memory_type_bits);
    match crate::device::first_suitable(types, requirements.memory_type_bits) {
        Some(t) => {
            let k = choose|k: int|
                {
                    &&& 0 <= k < types.len()
                    &&& #[trigger] types[k] == t
                    &&& t.in_mask(requirements.memory_type_bits) && t.host_visible
                    &&& forall|j: int|
                        0 <= j < k ==> !((#[trigger] types[j]).in_mask(
                            requirements.memory_type_bits,
                        ) && types[j].host_visible)
                };
            if k < i {
                assert(types[k].host_visible);
            }
            if i < k {
                assert(types[i].host_visible);
            }
        },
        None => {
            assert(types[i].host_visible);
        },
    }
}

/// A failed request ends the creation with its error. A request that succeeds changes nothing of what
/// was made before: the memory that is bound is the memory that was allocated, and the buffer is what
/// was bound.
pub proof fn law_steps_keep_what_was_made<B, M>(
    request: BufferRequestView,
    memory_request: MemoryRequestView<B>,
    bind_request: BufferView<B, M>,
    memory: MemoryAlloc<M>,
    e: OomError,
)
    ensures
        request.created(Err::<(B, MemoryRequirements), OomError>(e)) == Err::<
            MemoryRequestView<B>,
            OomError,
        >(e),
        memory_request.allocated(Err::<MemoryAlloc<M>, OomError>(e)) == Err::<
            BufferView<B, M>,
            OomError,
        >(e),
        bind_request.bound(Err(e)) == Err::<BufferView<B, M>, OomError>(e),
        memory_request.allocated(Ok(memory)) matches Ok(next) && {
            &&& next.memory.memory == memory.memory
            &&& next.memory.offset == memory.offset
            &&& next.memory.mapped_memory == memory.mapped_memory
            &&& next.inner == memory_request.inner
            &&& next.queue_families == memory_request.queue_families
        },
        bind_request.bound(Ok(())) matches Ok(buffer) && {
            &&& buffer.memory == bind_request.memory
            &&& buffer.inner == bind_request.inner
            &&& buffer.queue_families == bind_request.queue_families
        },
{
}

/// Memory that is mapped, at an offset that is a multiple of the alignment, is as it was asked for.
pub proof fn law_aligned_mapped_memory_is_accepted<B, M>(
    request: MemoryRequestView<B>,
    memory: MemoryAlloc<M>,
    multiple: nat,
)
    requires
        request.requirements.alignment > 0,
        memory.offset == multiple * request.requirements.alignment,
        memory.mapped_memory is Some,
    ensures
        request.is_met_by(memory),
{
    vstd::arithmetic::div_mod::lemma_mod_multiples_basic(
        multiple as int,
        request.requirements.alignment as int,
    );
}

/// Memory that is as it was asked for is mapped, at an offset that is a multiple of the alignment.
pub proof fn law_accepted_memory_is_aligned_and_mapped<B, M>(
    request: MemoryRequestView<B>,
    memory: MemoryAlloc<M>,
)
    requires
        request.is_met_by(memory),
    ensures
        memory.mapped_memory is Some,
        request.requirements.alignment > 0,
        exists|multiple: nat|
            memory.offset == #[trigger] (multiple * request.requirements.alignment),
{
    let alignment = request.requirements.alignment as int;
    let multiple = (memory.offset as int / alignment) as nat;
    vstd::arithmetic::div_mod::lemma_fundamental_div_mod(memory.offset as int, alignment);
    vstd::arithmetic::div_mod::lemma_div_pos_is_pos(memory.offset as int, alignment);
    vstd::arithmetic::mul::lemma_mul_is_commutative(multiple as int, alignment);
    assert(memory.offset == multiple * request.requirements.alignment);
}

/// Two or more families share a buffer, all of them and in order; fewer do not.
pub proof fn law_sharing(request: BufferRequestView)
    ensures
        request.queue_families.len() <= 1 <==> request.sharing() is Exclusive,
        request.sharing() matches SharingView::Concurrent(ids) ==> {
            &&& ids.len() == request.queue_families.len()
            &&& forall|i: int| 0 <= i < ids.len() ==> #[trigger] ids[i]
                == request.queue_families[i]
        },
{
}

} // verus!
