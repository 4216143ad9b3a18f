//! Buffer whose content is accessible to the CPU.
//!
//! The `CpuAccessibleBuffer` is a basic general-purpose buffer. It can be used in any situation
//! but may not perform as well as other buffer types.
//!
//! Each access from the CPU or from the GPU locks the whole buffer. The lock guards the latest
//! submission that uses the buffer: the functions that need it take what the lock guards.

use crate::buffer::creation::{BufferRequest, BufferView};
use crate::buffer::family_ids::FamilyIds;
use crate::buffer::traits::{AccessRange, GpuAccessResult, Usage};
use crate::command_buffer::Submission;
use crate::device::{Device, QueueFamily};
use crate::memory::{MappedMemory, MemoryAlloc};
use crate::sync::FenceWaitError;
use std::marker::PhantomData;
use std::ops::{Deref, DerefMut, Range};
use std::sync::Arc;
use std::time::Duration;
use vstd::prelude::*;

verus! {

/// A buffer object of the device, without memory.
#[derive(Debug)]
pub struct UnsafeBuffer<B> {
    /// The handle of the buffer object.
    pub handle: B,
    /// The device that the buffer object was created on.
    pub device: Arc<Device>,
    /// The size of the buffer object, in bytes.
    pub size: usize,
    /// What the buffer object can be used for.
    pub usage: Usage,
}

/// Buffer whose content is accessible by the CPU.
///
/// `B` is the handle of the buffer object and `M` that of a block of memory.
#[derive(Debug)]
pub struct CpuAccessibleBuffer<T: ?Sized, B, M> {
    // Inner content.
    inner: UnsafeBuffer<B>,
    // The memory held by the buffer.
    memory: MemoryAlloc<M>,
    // Queue families allowed to access this buffer.
    queue_families: FamilyIds,
    // Necessary to make it compile.
    marker: PhantomData<Box<T>>,
}

impl<T: ?Sized, B, M> View for CpuAccessibleBuffer<T, B, M> {
    type V = BufferView<B, M>;

    closed spec fn view(&self) -> BufferView<B, M> {
        BufferView {
            inner: self.inner,
            memory: self.memory,
            queue_families: self.queue_families@,
        }
    }
}

impl<T, B, M> CpuAccessibleBuffer<T, B, M> {
    /// Starts to build a new buffer. Only allowed for sized data.
    pub fn new(device: &Arc<Device>, usage: &Usage, queue_families: Vec<QueueFamily>) -> (r:
        BufferRequest<T, B, M>)
        requires
            queue_families@.len() * 8 <= isize::MAX + 1,
        ensures
            r@.device == *device,
            r@.size == vstd::layout::size_of::<T>(),
            r@.usage == *usage,
            r@.queue_families == crate::buffer::family_ids::ids_of(queue_families@),
    {
        CpuAccessibleBuffer::raw(device, std::mem::size_of::<T>(), usage, queue_families)
    }
}

impl<T, B, M> CpuAccessibleBuffer<[T], B, M> {
    /// Starts to build a new buffer. Can be used for arrays.
    pub fn array(
        device: &Arc<Device>,
        len: usize,
        usage: &Usage,
        queue_families: Vec<QueueFamily>,
    ) -> (r: BufferRequest<[T], B, M>)
        requires
            len * vstd::layout::size_of::<T>() <= usize::MAX,
            queue_families@.len() * 8 <= isize::MAX + 1,
        ensures
            r@.device == *device,
            r@.size == len * vstd::layout::size_of::<T>(),
            r@.usage == *usage,
            r@.queue_families == crate::buffer::family_ids::ids_of(queue_families@),
    {
        CpuAccessibleBuffer::raw(device, len * std::mem::size_of::<T>(), usage, queue_families)
    }
}

impl<T: ?Sized, B, M> CpuAccessibleBuffer<T, B, M> {
    /// The memory of the buffer is mapped.
    #[verifier::type_invariant]
    spec fn is_mapped(self) -> bool {
        self.memory.mapped_memory is Some
    }

    /// Starts to build a new buffer without checking the size.
    ///
    /// You must ensure that the size that you pass is correct for `T`.
    pub fn raw(
        device: &Arc<Device>,
        size: usize,
        usage: &Usage,
        queue_families: Vec<QueueFamily>,
    ) -> (r: BufferRequest<T, B, M>)
        requires
            queue_families@.len() * 8 <= isize::MAX + 1,
        ensures
            r@.device == *device,
            r@.size == size,
            r@.usage == *usage,
            r@.queue_families == crate::buffer::family_ids::ids_of(queue_families@),
    {
        BufferRequest::new(device, size, usage, queue_families)
    }

    pub(crate) fn from_parts(
        inner: UnsafeBuffer<B>,
        memory: MemoryAlloc<M>,
        queue_families: FamilyIds,
    ) -> (r: Self)
        requires
            memory.mapped_memory is Some,
        ensures
            r@.inner == inner,
            r@.memory == memory,
            r@.queue_families == queue_families@,
    {
        CpuAccessibleBuffer { inner, memory, queue_families, marker: PhantomData }
    }
}

/// What the CPU has to do to get access to a buffer.
pub enum AccessStep<F> {
    /// Wait for the submission to end, for as long as the timeout, then try to finish the access
    /// with the outcome.
    Wait { submission: Arc<Submission<F>>, timeout: Duration },
    /// Nothing uses the buffer: finish the access right away.
    Ready,
}

impl<F> AccessStep<F> {
    /// The step to take where the latest submission of the buffer is `live`, or where none is
    /// still in use.
    pub open spec fn of_live(live: Option<Arc<Submission<F>>>, timeout: Duration) -> Self {
        match live {
            Some(submission) => AccessStep::Wait { submission, timeout },
            None => AccessStep::Ready,
        }
    }

    /// Returns the step to take where the latest submission of the buffer is `live`, or where
    /// none is still in use.
    pub fn from_live(live: Option<Arc<Submission<F>>>, timeout: Duration) -> (r: Self)
        ensures
            r == Self::of_live(live, timeout),
            match live {
                Some(submission) => r == (AccessStep::Wait { submission, timeout }),
                None => r is Ready,
            },
    {
        match live {
            Some(submission) => AccessStep::Wait { submission, timeout },
            None => AccessStep::Ready,
        }
    }

    /// Carries out the step, and returns the outcome to finish the access with.
    ///
    /// `wait` waits for a submission to end, for as long as a timeout. It is called only if there
    /// is something to wait for; otherwise the access goes on as after a wait that succeeded.
    pub fn carry_out<Q>(self, wait: Q) -> (r: Result<(), FenceWaitError>) where
        Q: FnOnce(&Arc<Submission<F>>, Duration) -> Result<(), FenceWaitError>,

        requires
            self matches AccessStep::Wait { submission, timeout } ==> call_requires(
                wait,
                (&submission, timeout),
            ),
        ensures
            match self {
                AccessStep::Wait { submission, timeout } => call_ensures(
                    wait,
                    (&submission, timeout),
                    r,
                ),
                AccessStep::Ready => r is Ok,
            },
    {
        match self {
            AccessStep::Wait { submission, timeout } => wait(&submission, timeout),
            AccessStep::Ready => Ok(()),
        }
    }
}

/// Whether `live` is what the latest submission of a buffer stands for: nothing where there is
/// none, and otherwise an outcome of `upgrade`.
pub open spec fn is_live<F, W, U>(
    latest: Option<W>,
    upgrade: U,
    live: Option<Arc<Submission<F>>>,
) -> bool where U: FnOnce(&W) -> Option<Arc<Submission<F>>> {
    match latest {
        Some(w) => call_ensures(upgrade, (&w,), live),
        None => live is None,
    }
}

impl<F> GpuAccessResult<F> {
    /// Whether this is the result of an access to a buffer whose latest submission is `live`: the
    /// new submission depends on it, and on nothing else.
    pub open spec fn depends_on(&self, live: Option<Arc<Submission<F>>>) -> bool {
        &&& self.dependencies@ == (match live {
            Some(submission) => seq![submission],
            None => Seq::<Arc<Submission<F>>>::empty(),
        })
        &&& self.additional_wait_semaphore is None
        &&& self.additional_signal_semaphore is None
    }

    /// Returns the result of an access to a buffer whose latest submission is `live`, or to one
    /// of which no submission is still in use.
    pub fn from_live(live: Option<Arc<Submission<F>>>) -> (r: Self)
        ensures
            r.depends_on(live),
            match live {
                Some(submission) => r.dependencies@ == seq![submission],
                None => r.dependencies@.len() == 0,
            },
            r.additional_wait_semaphore is None,
            r.additional_signal_semaphore is None,
    {
        let dependencies: Vec<Arc<Submission<F>>> = match live {
            Some(submission) => vec![submission],
            None => vec![],
        };
        assert(dependencies@ =~= (match live {
            Some(submission) => seq![submission],
            None => Seq::<Arc<Submission<F>>>::empty(),
        }));
        GpuAccessResult {
            dependencies,
            additional_wait_semaphore: None,
            additional_signal_semaphore: None,
        }
    }
}

impl<T: ?Sized, B, M> CpuAccessibleBuffer<T, B, M> {
    /// Returns the device used to create this buffer.
    pub fn device(&self) -> (r: &Arc<Device>)
        ensures
            *r == self@.inner.device,
    {
        &self.inner.device
    }

    /// Whether the device has every queue family that the buffer can be used on.
    pub open spec fn families_known(&self) -> bool {
        forall|i: int|
            0 <= i < self@.queue_families.len()
                ==> self@.inner.device.physical_device.has_family(
                #[trigger] self@.queue_families[i],
            )
    }

    /// Returns true if the device has every queue family that the buffer can be used on.
    pub fn has_known_families(&self) -> (r: bool)
        ensures
            r == self.families_known(),
    {
        let mut i: usize = 0;
        let n: usize = self.queue_families.len();
        while i < n
            invariant
                n == self@.queue_families.len(),
                i <= n,
                forall|j: int|
                    0 <= j < i ==> self@.inner.device.physical_device.has_family(
                        #[trigger] self@.queue_families[j],
                    ),
            decreases n - i,
        {
            let id: u32 = self.queue_families.get(i);
            assert(id == self@.queue_families[i as int]);
            if self.inner.device.physical_device.queue_family_by_id(id).is_none() {
                return false;
            }
            i += 1;
        }
        true
    }

    /// Returns the queue families this buffer can be used on.
    pub fn queue_families(&self) -> (r: Vec<QueueFamily>)
        requires
            self.families_known(),
        ensures
            r@ == self@.queue_families.map_values(|id: u32| QueueFamily { id }),
            r@.len() == self@.queue_families.len(),
            forall|i: int| 0 <= i < r@.len() ==> (#[trigger] r@[i]).id == self@.queue_families[i],
    {
        let mut r: Vec<QueueFamily> = Vec::new();
        let mut i: usize = 0;
        let n: usize = self.queue_families.len();
        while i < n
            invariant
                self.families_known(),
                n == self@.queue_families.len(),
                i <= n,
                r@ =~= self@.queue_families.take(i as int).map_values(
                    |id: u32| QueueFamily { id },
                ),
            decreases n - i,
        {
            let id: u32 = self.queue_families.get(i);
            assert(id == self@.queue_families[i as int]);
            let family: Option<QueueFamily> =
                self.inner.device.physical_device.queue_family_by_id(id);
            r.push(family.unwrap());
            i += 1;
        }
        assert(self@.queue_families.take(i as int) =~= self@.queue_families);
        r
    }

    /// Returns the identifiers of the queue families this buffer can be used on.
    pub fn queue_family_ids(&self) -> (r: Vec<u32>)
        ensures
            r@ == self@.queue_families,
    {
        self.queue_families.to_vec()
    }

    /// Returns true if the buffer can be used on a queue of this family.
    pub fn supports_family(&self, queue_family: QueueFamily) -> (r: bool)
        ensures
            r == self@.queue_families.contains(queue_family.id),
    {
        self.queue_families.contains(queue_family.id)
    }

    /// Starts to lock the buffer in order to read its content.
    ///
    /// There is no difference between `read` and `write`.
    pub fn read<F, W, U>(&self, latest: &Option<W>, upgrade: U, timeout: Duration) -> (r:
        AccessStep<F>) where U: FnOnce(&W) -> Option<Arc<Submission<F>>>
        requires
            latest matches Some(w) ==> call_requires(upgrade, (w,)),
        ensures
            exists|live: Option<Arc<Submission<F>>>|
                #[trigger] is_live(*latest, upgrade, live) && r == AccessStep::of_live(
                    live,
                    timeout,
                ),
            match *latest {
                Some(w) => exists|held: Option<Arc<Submission<F>>>|
                    #[trigger] call_ensures(upgrade, (&w,), held) && (match held {
                        Some(submission) => r == (AccessStep::Wait { submission, timeout }),
                        None => r is Ready,
                    }),
                None => r is Ready,
            },
    {
        self.write(latest, upgrade, timeout)
    }

    /// Starts to lock the buffer in order to write its content.
    ///
    /// `latest` is what the lock guards: a weak reference to the latest submission that uses the
    /// buffer. `upgrade` gives the submission, unless it is not in use anymore.
    ///
    /// If the buffer is currently in use by the GPU, the next step is to wait until either the
    /// buffer is available or the timeout is reached. A value of `0` for the timeout is valid and
    /// means that the wait should never block.
    pub fn write<F, W, U>(&self, latest: &Option<W>, upgrade: U, timeout: Duration) -> (r:
        AccessStep<F>) where U: FnOnce(&W) -> Option<Arc<Submission<F>>>
        requires
            latest matches Some(w) ==> call_requires(upgrade, (w,)),
        ensures
            exists|live: Option<Arc<Submission<F>>>|
                #[trigger] is_live(*latest, upgrade, live) && r == AccessStep::of_live(
                    live,
                    timeout,
                ),
            match *latest {
                Some(w) => exists|held: Option<Arc<Submission<F>>>|
                    #[trigger] call_ensures(upgrade, (&w,), held) && (match held {
                        Some(submission) => r == (AccessStep::Wait { submission, timeout }),
                        None => r is Ready,
                    }),
                None => r is Ready,
            },
    {
        let live: Option<Arc<Submission<F>>> = match latest {
            Some(w) => upgrade(w),
            None => None,
        };
        assert(is_live(*latest, upgrade, live));
        assert(*latest matches Some(w) ==> call_ensures(upgrade, (&w,), live));
        AccessStep::from_live(live, timeout)
    }

    /// Where the content of the buffer is mapped.
    pub open spec fn mapping(&self) -> MappedMemory {
        self@.memory.mapped_memory.unwrap()
    }

    /// Finishes to lock the buffer, once the step that `read` or `write` returned is carried out.
    /// `waited` is the outcome of that step.
    ///
    /// `read_write` gives access to the content by its mapping, and is called only if the wait
    /// has succeeded. `lock` is the lock on the buffer, which the access holds until it ends: any
    /// attempt to submit a command buffer that uses the buffer blocks until then.
    pub fn finish_access<'a, G, P>(
        &self,
        waited: Result<(), FenceWaitError>,
        read_write: P,
        lock: G,
    ) -> (r: Result<CpuAccess<'a, T, G>, FenceWaitError>) where
        P: FnOnce(&MappedMemory) -> &'a mut T,

        requires
            waited is Ok ==> call_requires(read_write, (&self.mapping(),)),
        ensures
            match waited {
                Ok(_) => r matches Ok(access) && access.lock() == lock && exists|content: &'a mut T|
                    {
                        &&& #[trigger] call_ensures(read_write, (&self.mapping(),), content)
                        &&& access.content() == &*content
                        &&& &*final(access.inner()) == &*final(content)
                    },
                Err(e) => r matches Err(f) && f == e,
            },
            self@.memory.mapped_memory is Some,
            waited is Ok ==> (r matches Ok(access) && exists|content: &'a mut T|
                {
                    &&& #[trigger] call_ensures(
                        read_write,
                        (&self@.memory.mapped_memory.unwrap(),),
                        content,
                    )
                    &&& access.content() == &*content
                    &&& &*final(access.inner()) == &*final(content)
                }),
    {
        proof {
            use_type_invariant(self);
        }
        match waited {
            Ok(_) => {
                let mapping: MappedMemory = self.memory.mapped_memory.unwrap();
                Ok(CpuAccess { inner: read_write(&mapping), lock })
            },
            Err(e) => Err(e),
        }
    }

    /// Returns the inner buffer object.
    pub fn inner_buffer(&self) -> (r: &UnsafeBuffer<B>)
        ensures
            *r == self@.inner,
    {
        &self.inner
    }

    /// Returns the size of the buffer in bytes.
    pub fn size(&self) -> (r: usize)
        ensures
            r == self@.inner.size,
    {
        self.inner.size
    }

    /// The blocks that a range of bytes touches: the whole buffer is one block.
    pub open spec fn block_seq(&self, range: Range<usize>) -> Seq<usize> {
        seq![0]
    }

    /// The bytes that a block spans: all those of the buffer.
    pub open spec fn block_span(&self, block: usize) -> Range<usize> {
        Range { start: 0, end: self@.inner.size }
    }

    /// Returns the blocks that a range of bytes touches: the whole buffer is one block.
    pub fn blocks(&self, range: Range<usize>) -> (r: Vec<usize>)
        ensures
            r@ == self.block_seq(range),
            r@ == seq![0usize],
    {
        vec![0]
    }

    /// Returns the bytes that a block spans.
    pub fn block_memory_range(&self, block: usize) -> (r: Range<usize>)
        ensures
            r == self.block_span(block),
            r.start == 0,
            r.end == self@.inner.size,
    {
        0..self.size()
    }

    /// Returns whether a submission that accesses the buffer needs a fence: always.
    pub fn needs_fence(&self, write: bool, range: Range<usize>) -> (r: Option<bool>)
        ensures
            r == Some(true),
    {
        Some(true)
    }

    /// Returns whether the CPU can access a block: always.
    pub fn host_accesses(&self, block: usize) -> (r: bool)
        ensures
            r,
    {
        true
    }

    /// Records that a submission accesses the buffer, whatever it accesses of it.
    ///
    /// `latest` is what the lock on the buffer guards. The new submission becomes the latest one,
    /// and depends on the one before if that is still in use.
    pub fn gpu_access<F, W, D, U>(
        &self,
        ranges: &[AccessRange],
        submission: &Arc<Submission<F>>,
        latest: &mut Option<W>,
        downgrade: D,
        upgrade: U,
    ) -> (r: GpuAccessResult<F>) where
        D: FnOnce(&Arc<Submission<F>>) -> W,
        U: FnOnce(&W) -> Option<Arc<Submission<F>>>,

        requires
            self@.queue_families.contains(submission.queue_family.id),
            call_requires(downgrade, (submission,)),
            *old(latest) matches Some(w) ==> call_requires(upgrade, (&w,)),
        ensures
            *final(latest) matches Some(w) && call_ensures(downgrade, (submission,), w),
            exists|live: Option<Arc<Submission<F>>>|
                #[trigger] is_live(*old(latest), upgrade, live) && r.depends_on(live),
            match *old(latest) {
                Some(w) => exists|held: Option<Arc<Submission<F>>>|
                    #[trigger] call_ensures(upgrade, (&w,), held) && (match held {
                        Some(s) => r.dependencies@ == seq![s],
                        None => r.dependencies@.len() == 0,
                    }),
                None => r.dependencies@.len() == 0,
            },
            r.additional_wait_semaphore is None,
            r.additional_signal_semaphore is None,
    {
        let mut previous: Option<W> = Some(downgrade(submission));
        std::mem::swap(latest, &mut previous);
        let live: Option<Arc<Submission<F>>> = match &previous {
            Some(w) => upgrade(w),
            None => None,
        };
        assert(is_live(*old(latest), upgrade, live));
        assert(*old(latest) matches Some(w) ==> call_ensures(upgrade, (&w,), live));
        GpuAccessResult::from_live(live)
    }
}

/// Object that can be used to read or write the content of a `CpuAccessibleBuffer`.
///
/// Note that this object holds the lock on the buffer. If another thread tries to access this
/// buffer's content or tries to submit a GPU command that uses this buffer, it will block.
pub struct CpuAccess<'a, T: ?Sized, G> {
    inner: &'a mut T,
    lock: G,
}

impl<'a, T: ?Sized, G> CpuAccess<'a, T, G> {
    /// The reference to the content.
    pub closed spec fn inner(self) -> &'a mut T {
        self.inner
    }

    /// The content, as it is now.
    pub open spec fn content(&self) -> &T {
        &*self.inner()
    }

    /// The lock that is held.
    pub closed spec fn lock(&self) -> G {
        self.lock
    }

    /// Makes a new `CpuAccess` to access a sub-part of the current `CpuAccess`.
    ///
    /// The lock stays held.
    pub fn map<U: ?Sized, F>(self, f: F) -> (r: CpuAccess<'a, U, G>) where
        F: FnOnce(&mut T) -> &mut U,

        requires
            forall|whole: &mut T|
                &*whole == self.content() ==> #[trigger] call_requires(f, (whole,)),
        ensures
            r.lock() == self.lock(),
            exists|whole: &mut T, part: &mut U|
                {
                    &&& #[trigger] call_ensures(f, (whole,), part)
                    &&& &*whole == self.content()
                    &&& &*final(whole) == &*final(self.inner())
                    &&& &*part == r.content()
                    &&& &*final(part) == &*final(r.inner())
                },
    {
        CpuAccess { inner: f(self.inner), lock: self.lock }
    }
}

impl<'a, T: ?Sized, G> Deref for CpuAccess<'a, T, G> {
    type Target = T;

    fn deref(&self) -> (r: &T)
        ensures
            r == self.content(),
    {
        self.inner
    }
}

impl<'a, T: ?Sized, G> DerefMut for CpuAccess<'a, T, G> {
    fn deref_mut(&mut self) -> (r: &mut T)
        ensures
            &*r == old(self).content(),
            &*final(r) == final(self).content(),
            final(self).lock() == old(self).lock(),
            &*final(final(self).inner()) == &*final(old(self).inner()),
    {
        self.inner
    }
}

/// Every byte of the buffer is in a block that its range touches, and any two ranges touch the same
/// blocks: an access to a part of the buffer is an access to all of it.
pub proof fn law_whole_buffer<T: ?Sized, B, M>(
    buffer: CpuAccessibleBuffer<T, B, M>,
    range: Range<usize>,
    other: Range<usize>,
    byte: usize,
)
    requires
        range.start <= byte < range.end <= buffer@.inner.size,
    ensures
        buffer.block_seq(range) == buffer.block_seq(other),
        buffer.block_seq(range).len() == 1,
        buffer.block_span(buffer.block_seq(range)[0]).start == 0,
        buffer.block_span(buffer.block_seq(range)[0]).end == buffer@.inner.size,
        exists|i: int|
            {
                &&& 0 <= i < buffer.block_seq(range).len()
                &&& buffer.block_span(#[trigger] buffer.block_seq(range)[i]).start <= byte
                &&& byte < buffer.block_span(buffer.block_seq(range)[i]).end
            },
{
    assert(buffer.block_span(buffer.block_seq(range)[0]).start <= byte);
}

/// The queue families that a buffer is created with are those that it returns, if they are families
/// of its device.
pub proof fn law_queue_families_kept<T: ?Sized, B, M>(
    buffer: CpuAccessibleBuffer<T, B, M>,
    families: Seq<QueueFamily>,
)
    requires
        buffer@.queue_families == crate::buffer::family_ids::ids_of(families),
        forall|i: int|
            0 <= i < families.len()
                ==> buffer@.inner.device.physical_device.queue_families@.contains(
                #[trigger] families[i],
            ),
    ensures
        buffer.families_known(),
        buffer@.queue_families.map_values(|id: u32| QueueFamily { id }) == families,
{
    assert forall|i: int| 0 <= i < buffer@.queue_families.len() implies
        buffer@.inner.device.physical_device.has_family(#[trigger] buffer@.queue_families[i]) by {
        assert(families[i] == QueueFamily { id: buffer@.queue_families[i] });
    }
    assert(buffer@.queue_families.map_values(|id: u32| QueueFamily { id }) =~= families);
}

/// Whether a weak reference that `downgrade` made of a submission leads `upgrade` to that
/// submission, or to none.
pub open spec fn leads_back<F, W, D, U>(
    submission: Arc<Submission<F>>,
    downgrade: D,
    upgrade: U,
) -> bool where
    D: FnOnce(&Arc<Submission<F>>) -> W,
    U: FnOnce(&W) -> Option<Arc<Submission<F>>>,
 {
    forall|w: W, live: Option<Arc<Submission<F>>>| #[trigger]
        call_ensures(downgrade, (&submission,), w) && #[trigger] call_ensures(
            upgrade,
            (&w,),
            live,
        ) ==> (live is None || live == Some(submission))
}

/// After an access of the GPU, the next access of the GPU depends on that submission and on no
/// other, unless it is not in use anymore; then it depends on nothing.
pub proof fn law_next_submission_depends<F, W, D, U>(
    submission: Arc<Submission<F>>,
    downgrade: D,
    latest: Option<W>,
    upgrade: U,
    live: Option<Arc<Submission<F>>>,
    result: GpuAccessResult<F>,
) where D: FnOnce(&Arc<Submission<F>>) -> W, U: FnOnce(&W) -> Option<Arc<Submission<F>>>
    requires
        latest matches Some(w) && call_ensures(downgrade, (&submission,), w),
        leads_back(submission, downgrade, upgrade),
        is_live(latest, upgrade, live),
        result.depends_on(live),
    ensures
        live is Some ==> result.dependencies@ == seq![submission],
        live is None ==> result.dependencies@.len() == 0,
{
}

/// After an access of the GPU, the CPU waits for that submission and for no other, unless it is not
/// in use anymore; then it does not wait.
pub proof fn law_cpu_waits_for_latest<F, W, D, U>(
    submission: Arc<Submission<F>>,
    downgrade: D,
    latest: Option<W>,
    upgrade: U,
    live: Option<Arc<Submission<F>>>,
    timeout: Duration,
) where D: FnOnce(&Arc<Submission<F>>) -> W, U: FnOnce(&W) -> Option<Arc<Submission<F>>>
    requires
        latest matches Some(w) && call_ensures(downgrade, (&submission,), w),
        leads_back(submission, downgrade, upgrade),
        is_live(latest, upgrade, live),
    ensures
        live is Some ==> AccessStep::of_live(live, timeout) == (AccessStep::Wait {
            submission,
            timeout,
        }),
        live is None ==> AccessStep::<F>::of_live(live, timeout) is Ready,
{
}

/// A buffer that no submission has used is available at once, to the CPU and to the GPU.
pub proof fn law_unused_is_available<F, W, U>(
    upgrade: U,
    live: Option<Arc<Submission<F>>>,
    timeout: Duration,
    result: GpuAccessResult<F>,
) where U: FnOnce(&W) -> Option<Arc<Submission<F>>>
    requires
        is_live(None::<W>, upgrade, live),
        result.depends_on(live),
    ensures
        AccessStep::<F>::of_live(live, timeout) is Ready,
        result.dependencies@.len() == 0,
{
}

/// When an access is over, what it last held is what the buffer holds.
pub proof fn law_access_writes_back<'a, T: ?Sized, G>(access: CpuAccess<'a, T, G>)
    requires
        has_resolved(access),
    ensures
        access.content() == &*final(access.inner()),
{
}

/// What was written last is what is read back. `written` is an access that is over, to the place
/// `written_place`; `later` is an access to the place `later_place`, which still holds what the first
/// place was left with. Then `later` holds what `written` last held.
pub proof fn law_read_gives_back_write<'a, 'b, T: ?Sized, G, H>(
    written: CpuAccess<'a, T, G>,
    written_place: &'a mut T,
    later: CpuAccess<'b, T, H>,
    later_place: &'b mut T,
)
    requires
        &*final(written.inner()) == &*final(written_place),
        has_resolved(written),
        &*later_place == &*final(written_place),
        later.content() == &*later_place,
    ensures
        later.content() == written.content(),
{
    law_access_writes_back(written);
}

/// Mapping twice is mapping once by the composition. If `b` is an outcome of mapping `a` by `f`, and
/// `c` one of mapping `b` by `g`, then `c` is an outcome of mapping `a` by a function that does `f` and
/// then `g`, as long as `g` goes by what its argument holds and will hold.
pub proof fn law_map_twice<'a, T: ?Sized, U: ?Sized, V: ?Sized, G, F1, F2, F3>(
    a: CpuAccess<'a, T, G>,
    f: F1,
    b: CpuAccess<'a, U, G>,
    g: F2,
    c: CpuAccess<'a, V, G>,
    composition: F3,
) where
    F1: FnOnce(&mut T) -> &mut U,
    F2: FnOnce(&mut U) -> &mut V,
    F3: FnOnce(&mut T) -> &mut V,

    requires
        b.lock() == a.lock(),
        exists|x: &mut T, y: &mut U|
            {
                &&& #[trigger] call_ensures(f, (x,), y)
                &&& &*x == a.content()
                &&& &*final(x) == &*final(a.inner())
                &&& &*y == b.content()
                &&& &*final(y) == &*final(b.inner())
            },
        c.lock() == b.lock(),
        exists|x: &mut U, y: &mut V|
            {
                &&& #[trigger] call_ensures(g, (x,), y)
                &&& &*x == b.content()
                &&& &*final(x) == &*final(b.inner())
                &&& &*y == c.content()
                &&& &*final(y) == &*final(c.inner())
            },
        forall|y1: &mut U, y2: &mut U, z: &mut V|
            &*y1 == &*y2 && &*final(y1) == &*final(y2) && #[trigger] call_ensures(g, (y1,), z)
                ==> #[trigger] call_ensures(g, (y2,), z),
        forall|x: &mut T, y: &mut U, z: &mut V| #[trigger]
            call_ensures(f, (x,), y) && #[trigger] call_ensures(g, (y,), z) ==> call_ensures(
                composition,
                (x,),
                z,
            ),
    ensures
        c.lock() == a.lock(),
        exists|x: &mut T, y: &mut V|
            {
                &&& #[trigger] call_ensures(composition, (x,), y)
                &&& &*x == a.content()
                &&& &*final(x) == &*final(a.inner())
                &&& &*y == c.content()
                &&& &*final(y) == &*final(c.inner())
            },
{
    let (x, y1) = choose|x: &mut T, y: &mut U|
        {
            &&& #[trigger] call_ensures(f, (x,), y)
            &&& &*x == a.content()
            &&& &*final(x) == &*final(a.inner())
            &&& &*y == b.content()
            &&& &*final(y) == &*final(b.inner())
        };
    let (y2, z) = choose|y: &mut U, z: &mut V|
        {
            &&& #[trigger] call_ensures(g, (y,), z)
            &&& &*y == b.content()
            &&& &*final(y) == &*final(b.inner())
            &&& &*z == c.content()
            &&& &*final(z) == &*final(c.inner())
        };
    assert(call_ensures(g, (y1,), z));
    assert(call_ensures(composition, (x,), z));
}

/// Mapping twice leads to the same place, under the same lock, as mapping once by the composition. If
/// `c` is an outcome of mapping `a` by `f` and then by `g`, and `d` one of mapping `a` by a function
/// that does `f` and then `g`, they hold the same and will hold the same in the end, as long as each of
/// `f` and `g` leads from one place to one place only.
pub proof fn law_map_composition<'a, T: ?Sized, U: ?Sized, V: ?Sized, G, F1, F2, F3>(
    a: CpuAccess<'a, T, G>,
    f: F1,
    b: CpuAccess<'a, U, G>,
    g: F2,
    c: CpuAccess<'a, V, G>,
    composition: F3,
    d: CpuAccess<'a, V, G>,
) where
    F1: FnOnce(&mut T) -> &mut U,
    F2: FnOnce(&mut U) -> &mut V,
    F3: FnOnce(&mut T) -> &mut V,

    requires
        b.lock() == a.lock(),
        exists|x: &mut T, y: &mut U|
            {
                &&& #[trigger] call_ensures(f, (x,), y)
                &&& &*x == a.content()
                &&& &*final(x) == &*final(a.inner())
                &&& &*y == b.content()
                &&& &*final(y) == &*final(b.inner())
            },
        c.lock() == b.lock(),
        exists|x: &mut U, y: &mut V|
            {
                &&& #[trigger] call_ensures(g, (x,), y)
                &&& &*x == b.content()
                &&& &*final(x) == &*final(b.inner())
                &&& &*y == c.content()
                &&& &*final(y) == &*final(c.inner())
            },
        d.lock() == a.lock(),
        exists|x: &mut T, y: &mut V|
            {
                &&& #[trigger] call_ensures(composition, (x,), y)
                &&& &*x == a.content()
                &&& &*final(x) == &*final(a.inner())
                &&& &*y == d.content()
                &&& &*final(y) == &*final(d.inner())
            },
        forall|x1: &mut T, y1: &mut U, x2: &mut T, y2: &mut U|
            {
                &&& #[trigger] call_ensures(f, (x1,), y1)
                &&& #[trigger] call_ensures(f, (x2,), y2)
                &&& &*x1 == &*x2
                &&& &*final(x1) == &*final(x2)
            } ==> &*y1 == &*y2 && &*final(y1) == &*final(y2),
        forall|x1: &mut U, y1: &mut V, x2: &mut U, y2: &mut V|
            {
                &&& #[trigger] call_ensures(g, (x1,), y1)
                &&& #[trigger] call_ensures(g, (x2,), y2)
                &&& &*x1 == &*x2
                &&& &*final(x1) == &*final(x2)
            } ==> &*y1 == &*y2 && &*final(y1) == &*final(y2),
        forall|x: &mut T, z: &mut V| #[trigger]
            call_ensures(composition, (x,), z) ==> exists|y: &mut U| #[trigger]
                call_ensures(f, (x,), y) && call_ensures(g, (y,), z),
    ensures
        c.lock() == d.lock(),
        c.content() == d.content(),
        &*final(c.inner()) == &*final(d.inner()),
{
    let (x, z) = choose|x: &mut T, z: &mut V|
        {
            &&& #[trigger] call_ensures(composition, (x,), z)
            &&& &*x == a.content()
            &&& &*final(x) == &*final(a.inner())
            &&& &*z == d.content()
            &&& &*final(z) == &*final(d.inner())
        };
    let y = choose|y: &mut U| #[trigger] call_ensures(f, (x,), y) && call_ensures(g, (y,), z);
    assert(&*y == b.content() && &*final(y) == &*final(b.inner()));
    assert(call_ensures(g, (y,), z));
}

/// Mapping by a function that returns its argument leads to the same place, under the same lock.
pub proof fn law_map_identity<'a, T: ?Sized, G, F>(
    a: CpuAccess<'a, T, G>,
    identity: F,
    b: CpuAccess<'a, T, G>,
) where F: FnOnce(&mut T) -> &mut T
    requires
        b.lock() == a.lock(),
        exists|x: &mut T, y: &mut T|
            {
                &&& #[trigger] call_ensures(identity, (x,), y)
                &&& &*x == a.content()
                &&& &*final(x) == &*final(a.inner())
                &&& &*y == b.content()
                &&& &*final(y) == &*final(b.inner())
            },
        forall|x: &mut T, y: &mut T| #[trigger]
            call_ensures(identity, (x,), y) ==> &*y == &*x && &*final(y) == &*final(x),
    ensures
        b.lock() == a.lock(),
        b.content() == a.content(),
        &*final(b.inner()) == &*final(a.inner()),
{
}

/// If the latest submission of a buffer is sure to be still in use, the next one depends on it, and on
/// nothing else, whatever the queue families of the two.
pub proof fn law_running_submission_is_depended_on<F, W, U>(
    latest: W,
    upgrade: U,
    running: Arc<Submission<F>>,
    result: GpuAccessResult<F>,
) where U: FnOnce(&W) -> Option<Arc<Submission<F>>>
    requires
        forall|held: Option<Arc<Submission<F>>>| #[trigger]
            call_ensures(upgrade, (&latest,), held) ==> held == Some(running),
        exists|live: Option<Arc<Submission<F>>>|
            #[trigger] is_live(Some(latest), upgrade, live) && result.depends_on(live),
    ensures
        result.dependencies@.len() == 1,
        result.dependencies@[0] == running,
        result.additional_wait_semaphore is None,
        result.additional_signal_semaphore is None,
{
}

/// If the latest submission of a buffer is sure to be still in use, the CPU waits for it, for as long
/// as the timeout, whatever its queue family.
pub proof fn law_running_submission_is_waited_for<F, W, U>(
    latest: W,
    upgrade: U,
    running: Arc<Submission<F>>,
    timeout: Duration,
    step: AccessStep<F>,
) where U: FnOnce(&W) -> Option<Arc<Submission<F>>>
    requires
        forall|held: Option<Arc<Submission<F>>>| #[trigger]
            call_ensures(upgrade, (&latest,), held) ==> held == Some(running),
        exists|live: Option<Arc<Submission<F>>>|
            #[trigger] is_live(Some(latest), upgrade, live) && step == AccessStep::of_live(
                live,
                timeout,
            ),
    ensures
        step == (AccessStep::Wait { submission: running, timeout }),
{
}

/// If the latest submission of a buffer is sure not to be in use anymore, the next one depends on
/// nothing and the CPU does not wait.
pub proof fn law_ended_submission_is_forgotten<F, W, U>(
    latest: W,
    upgrade: U,
    timeout: Duration,
    result: GpuAccessResult<F>,
    step: AccessStep<F>,
) where U: FnOnce(&W) -> Option<Arc<Submission<F>>>
    requires
        forall|held: Option<Arc<Submission<F>>>| #[trigger]
            call_ensures(upgrade, (&latest,), held) ==> held is None,
        exists|live: Option<Arc<Submission<F>>>|
            #[trigger] is_live(Some(latest), upgrade, live) && result.depends_on(live),
        exists|live: Option<Arc<Submission<F>>>|
            #[trigger] is_live(Some(latest), upgrade, live) && step == AccessStep::of_live(
                live,
                timeout,
            ),
    ensures
        result.dependencies@.len() == 0,
        step is Ready,
{
}

/// A submission depends on nothing but what the latest submission is upgraded to, and the CPU waits for
/// nothing else.
pub proof fn law_only_the_latest_matters<F, W, U>(
    latest: Option<W>,
    upgrade: U,
    timeout: Duration,
    result: GpuAccessResult<F>,
    step: AccessStep<F>,
    i: int,
) where U: FnOnce(&W) -> Option<Arc<Submission<F>>>
    requires
        exists|live: Option<Arc<Submission<F>>>|
            #[trigger] is_live(latest, upgrade, live) && result.depends_on(live),
        exists|live: Option<Arc<Submission<F>>>|
            #[trigger] is_live(latest, upgrade, live) && step == AccessStep::of_live(live, timeout),
    ensures
        0 <= i < result.dependencies@.len() ==> (latest matches Some(w) && call_ensures(
            upgrade,
            (&w,),
            Some(result.dependencies@[i]),
        )),
        step matches AccessStep::Wait { submission, timeout: t } ==> t == timeout && (
        latest matches Some(w) && call_ensures(upgrade, (&w,), Some(submission))),
{
}

/// A buffer is mapped where the memory that was allocated for it is mapped.
pub proof fn law_mapping_is_that_of_the_memory<T: ?Sized, B, M>(
    request: crate::buffer::creation::BufferRequestView,
    created: Result<(B, crate::memory::MemoryRequirements), crate::error::OomError>,
    memory: MemoryAlloc<M>,
    bound: Result<(), crate::error::OomError>,
    buffer: CpuAccessibleBuffer<T, B, M>,
    mapped: MappedMemory,
)
    requires
        crate::buffer::creation::creation(request, created, Ok(memory), bound) == Ok::<
            BufferView<B, M>,
            crate::error::OomError,
        >(buffer@),
        memory.mapped_memory == Some(mapped),
    ensures
        buffer.mapping().address == mapped.address,
        buffer.mapping() == mapped,
        buffer@.memory.offset == memory.offset,
        buffer@.memory.memory == memory.memory,
{
}

/// If the families of a buffer are known, the device lists a family of the identifier of each.
pub proof fn law_known_families_are_listed<T: ?Sized, B, M>(
    buffer: CpuAccessibleBuffer<T, B, M>,
    i: int,
)
    requires
        buffer.families_known(),
        0 <= i < buffer@.queue_families.len(),
    ensures
        exists|j: int|
            0 <= j < buffer@.inner.device.physical_device.queue_families@.len() && (
            #[trigger] buffer@.inner.device.physical_device.queue_families@[j]).id
                == buffer@.queue_families[i],
{
    let device = buffer@.inner.device.physical_device;
    assert(device.has_family(buffer@.queue_families[i]));
    crate::device::law_has_family(device, buffer@.queue_families[i]);
}

/// If the device lists, at `position` of each family of a buffer, a family of the same identifier, the
/// families of the buffer are known.
pub proof fn law_listed_families_are_known<T: ?Sized, B, M>(
    buffer: CpuAccessibleBuffer<T, B, M>,
    position: spec_fn(int) -> int,
)
    requires
        forall|i: int|
            0 <= i < buffer@.queue_families.len() ==> {
                &&& 0 <= #[trigger] position(i)
                    < buffer@.inner.device.physical_device.queue_families@.len()
                &&& buffer@.inner.device.physical_device.queue_families@[position(i)].id
                    == buffer@.queue_families[i]
            },
    ensures
        buffer.families_known(),
{
    let device = buffer@.inner.device.physical_device;
    assert forall|i: int| 0 <= i < buffer@.queue_families.len() implies device.has_family(
        #[trigger] buffer@.queue_families[i],
    ) by {
        assert(device.queue_families@[position(i)].id == buffer@.queue_families[i]);
        crate::device::law_has_family(device, buffer@.queue_families[i]);
    }
}

} // verus!
