use std::ops::{Deref, DerefMut};
use std::sync::{Arc, Mutex, Weak};
use std::time::Duration;
use vulkano::buffer::cpu_access::{AccessStep, CpuAccess, CpuAccessibleBuffer};
use vulkano::buffer::creation::BufferRequest;
use vulkano::buffer::traits::{AccessRange, GpuAccessResult, Usage};
use vulkano::command_buffer::Submission;
use vulkano::device::{Device, MemoryType, PhysicalDevice, QueueFamily};
use vulkano::error::OomError;
use vulkano::memory::{MappedMemory, MemoryAlloc, MemoryRequirements};
use vulkano::sync::{FenceWaitError, Sharing};

type Buffer<T> = CpuAccessibleBuffer<T, u64, u64>;

fn device() -> Arc<Device> {
    Arc::new(Device {
        physical_device: PhysicalDevice {
            memory_types: vec![
                MemoryType { id: 0, host_visible: false },
                MemoryType { id: 1, host_visible: true },
                MemoryType { id: 2, host_visible: true },
                MemoryType { id: 31, host_visible: true },
            ],
            queue_families: families(6),
        },
    })
}

fn families(n: u32) -> Vec<QueueFamily> {
    (0..n).map(|id| QueueFamily { id }).collect()
}

fn usage() -> Usage {
    Usage {
        transfer_source: false,
        transfer_dest: true,
        uniform_texel_buffer: false,
        storage_texel_buffer: false,
        uniform_buffer: false,
        storage_buffer: false,
        index_buffer: false,
        vertex_buffer: true,
        indirect_buffer: false,
    }
}

fn requirements(bits: u32) -> MemoryRequirements {
    MemoryRequirements { size: 256, alignment: 64, memory_type_bits: bits }
}

fn memory() -> MemoryAlloc<u64> {
    MemoryAlloc {
        memory: 77,
        offset: 128,
        mapped_memory: Some(MappedMemory { address: 0x1000 }),
    }
}

fn buffer(queue_families: Vec<QueueFamily>) -> Buffer<[u32]> {
    let request: BufferRequest<[u32], u64, u64> =
        CpuAccessibleBuffer::array(&device(), 10, &usage(), queue_families);
    let request = request.created(Ok((5, requirements(0b110)))).unwrap();
    let request = request.allocated(Ok(memory())).unwrap();
    request.bound(Ok(())).unwrap()
}

fn submission(family: u32, fence: u32) -> Arc<Submission<u32>> {
    Arc::new(Submission { queue_family: QueueFamily { id: family }, fence })
}

fn submit(
    buffer: &Buffer<[u32]>,
    latest: &mut Option<Weak<Submission<u32>>>,
    submission: &Arc<Submission<u32>>,
) -> GpuAccessResult<u32> {
    buffer.gpu_access(&[], submission, latest, |s| Arc::downgrade(s), |w| w.upgrade())
}

#[test]
fn sizes() {
    let r: BufferRequest<u64, u64, u64> = CpuAccessibleBuffer::new(&device(), &usage(), vec![]);
    assert_eq!(r.size(), 8);
    let r: BufferRequest<[u32], u64, u64> =
        CpuAccessibleBuffer::array(&device(), 10, &usage(), vec![]);
    assert_eq!(r.size(), 40);
    let r: BufferRequest<[u32], u64, u64> =
        CpuAccessibleBuffer::array(&device(), 0, &usage(), vec![]);
    assert_eq!(r.size(), 0);
    let r: BufferRequest<str, u64, u64> =
        CpuAccessibleBuffer::raw(&device(), 33, &usage(), vec![]);
    assert_eq!(r.size(), 33);
}

#[test]
fn request_keeps_device_and_usage() {
    let device = device();
    let r: BufferRequest<u64, u64, u64> = CpuAccessibleBuffer::new(&device, &usage(), vec![]);
    assert!(Arc::ptr_eq(r.device(), &device));
    assert_eq!(*r.usage(), usage());
}

#[test]
fn sharing_of_families() {
    let sharing = |f: Vec<QueueFamily>| {
        let r: BufferRequest<u64, u64, u64> = CpuAccessibleBuffer::new(&device(), &usage(), f);
        r.sharing()
    };
    assert!(matches!(sharing(vec![]), Sharing::Exclusive));
    assert!(matches!(sharing(families(1)), Sharing::Exclusive));
    match sharing(vec![QueueFamily { id: 4 }, QueueFamily { id: 2 }]) {
        Sharing::Concurrent(ids) => assert_eq!(ids, vec![4, 2]),
        Sharing::Exclusive => panic!(),
    }
    match sharing(families(6)) {
        Sharing::Concurrent(ids) => assert_eq!(ids, vec![0, 1, 2, 3, 4, 5]),
        Sharing::Exclusive => panic!(),
    }
}

#[test]
fn first_suitable_memory_type() {
    let device = device();
    let chosen = |bits: u32| device.physical_device.host_visible_memory_type(bits).map(|t| t.id);
    assert_eq!(chosen(0b111), Some(1));
    assert_eq!(chosen(0b101), Some(2));
    assert_eq!(chosen(0b001), None);
    assert_eq!(chosen(0), None);
    assert_eq!(chosen(0x8000_0000), Some(31));
    assert_eq!(chosen(u32::MAX), Some(1));
}

#[test]
fn memory_type_beyond_the_mask() {
    let physical_device = PhysicalDevice {
        memory_types: vec![
            MemoryType { id: 32, host_visible: true },
            MemoryType { id: 0, host_visible: true },
        ],
        queue_families: vec![],
    };
    assert_eq!(physical_device.host_visible_memory_type(1).map(|t| t.id), Some(0));
}

#[test]
fn family_by_id() {
    let device = device();
    assert_eq!(device.physical_device.queue_family_by_id(5), Some(QueueFamily { id: 5 }));
    assert_eq!(device.physical_device.queue_family_by_id(6), None);
}

#[test]
fn creation_goes_through_its_requests() {
    let device = device();
    let r: BufferRequest<u32, u64, u64> =
        CpuAccessibleBuffer::new(&device, &usage(), families(2));
    let r = r.created(Ok((5, requirements(0b110)))).unwrap();
    assert_eq!(r.memory_type(), MemoryType { id: 1, host_visible: true });
    assert_eq!(r.requirements(), requirements(0b110));
    assert_eq!(r.inner_buffer().handle, 5);
    assert_eq!(r.inner_buffer().size, 4);
    let r = r.allocated(Ok(memory())).unwrap();
    assert_eq!(r.inner_buffer().handle, 5);
    assert_eq!(r.memory().memory, 77);
    assert_eq!(r.memory().offset, 128);
    let buffer = r.bound(Ok(())).unwrap();
    assert!(Arc::ptr_eq(buffer.device(), &device));
    assert_eq!(buffer.size(), 4);
    assert_eq!(buffer.inner_buffer().usage, usage());
    assert_eq!(buffer.queue_families(), families(2));
}

#[test]
fn creation_fails_at_the_first_error() {
    let request = || -> BufferRequest<u32, u64, u64> {
        CpuAccessibleBuffer::new(&device(), &usage(), vec![])
    };
    assert_eq!(
        request().created(Err(OomError::OutOfHostMemory)).unwrap_err(),
        OomError::OutOfHostMemory
    );
    let created = request().created(Ok((5, requirements(2)))).unwrap();
    assert_eq!(
        created.allocated(Err(OomError::OutOfDeviceMemory)).unwrap_err(),
        OomError::OutOfDeviceMemory
    );
    let created = request().created(Ok((5, requirements(2)))).unwrap();
    let allocated = created.allocated(Ok(memory())).unwrap();
    assert_eq!(
        allocated.bound(Err(OomError::OutOfDeviceMemory)).unwrap_err(),
        OomError::OutOfDeviceMemory
    );
}

#[test]
fn families_are_kept() {
    let listed: Vec<QueueFamily> = vec![5, 0, 3, 3, 1].into_iter().map(|id| QueueFamily { id }).collect();
    let buffer = buffer(listed.clone());
    assert!(buffer.has_known_families());
    assert_eq!(buffer.queue_families(), listed);
    assert_eq!(buffer.queue_family_ids(), vec![5, 0, 3, 3, 1]);
    assert!(buffer.supports_family(QueueFamily { id: 3 }));
    assert!(!buffer.supports_family(QueueFamily { id: 2 }));
}

#[test]
fn unknown_families() {
    assert!(!buffer(vec![QueueFamily { id: 0 }, QueueFamily { id: 6 }]).has_known_families());
    assert!(buffer(vec![]).has_known_families());
    assert_eq!(buffer(vec![]).queue_families(), vec![]);
}

#[test]
fn one_block() {
    let buffer = buffer(vec![]);
    assert_eq!(buffer.blocks(0..1), vec![0]);
    assert_eq!(buffer.blocks(12..40), vec![0]);
    assert_eq!(buffer.block_memory_range(0), 0..40);
    assert_eq!(buffer.block_memory_range(9), 0..40);
    assert_eq!(buffer.needs_fence(false, 0..1), Some(true));
    assert_eq!(buffer.needs_fence(true, 0..40), Some(true));
    assert!(buffer.host_accesses(0));
}

#[test]
fn submissions_depend_on_the_one_before() {
    let buffer = buffer(families(2));
    let mut latest = None;
    let first = submission(0, 1);
    let result = submit(&buffer, &mut latest, &first);
    assert!(result.dependencies.is_empty());
    assert!(result.additional_wait_semaphore.is_none());
    assert!(result.additional_signal_semaphore.is_none());
    let second = submission(1, 2);
    let result = submit(&buffer, &mut latest, &second);
    assert_eq!(result.dependencies.len(), 1);
    assert!(Arc::ptr_eq(&result.dependencies[0], &first));
    let third = submission(0, 3);
    let result = submit(&buffer, &mut latest, &third);
    assert!(Arc::ptr_eq(&result.dependencies[0], &second));
    assert!(Weak::ptr_eq(latest.as_ref().unwrap(), &Arc::downgrade(&third)));
}

#[test]
fn ended_submissions_are_forgotten() {
    let buffer = buffer(families(1));
    let mut latest = None;
    submit(&buffer, &mut latest, &submission(0, 1));
    let result = submit(&buffer, &mut latest, &submission(0, 2));
    assert!(result.dependencies.is_empty());
    let step: AccessStep<u32> =
        buffer.write(&latest, |w: &Weak<Submission<u32>>| w.upgrade(), Duration::from_secs(1));
    assert!(matches!(step, AccessStep::Ready));
}

#[test]
fn ranges_do_not_matter() {
    let buffer = buffer(families(1));
    let mut latest: Option<Weak<Submission<u32>>> = None;
    let first = submission(0, 1);
    let ranges = vec![AccessRange { block: 0, write: false }, AccessRange { block: 4, write: true }];
    buffer.gpu_access(&ranges, &first, &mut latest, |s| Arc::downgrade(s), |w| w.upgrade());
    let result = submit(&buffer, &mut latest, &submission(0, 2));
    assert!(Arc::ptr_eq(&result.dependencies[0], &first));
}

#[test]
fn cpu_waits_for_the_latest_submission() {
    let buffer = buffer(families(1));
    let mut latest = None;
    let timeout = Duration::from_millis(250);
    let step: AccessStep<u32> =
        buffer.write(&latest, |w: &Weak<Submission<u32>>| w.upgrade(), timeout);
    assert!(matches!(step, AccessStep::Ready));
    let first = submission(0, 1);
    let second = submission(0, 2);
    submit(&buffer, &mut latest, &first);
    submit(&buffer, &mut latest, &second);
    for step in [
        buffer.write(&latest, |w| w.upgrade(), timeout),
        buffer.read(&latest, |w| w.upgrade(), timeout),
    ] {
        match step {
            AccessStep::Wait { submission, timeout: t } => {
                assert!(Arc::ptr_eq(&submission, &second));
                assert_eq!(t, timeout);
            }
            AccessStep::Ready => panic!(),
        }
    }
}

#[test]
fn steps_and_results_of_live_submissions() {
    let live = submission(0, 9);
    let step = AccessStep::from_live(Some(live.clone()), Duration::from_secs(0));
    assert!(matches!(step, AccessStep::Wait { submission, .. } if submission.fence == 9));
    assert!(matches!(AccessStep::<u32>::from_live(None, Duration::from_secs(0)), AccessStep::Ready));
    assert_eq!(GpuAccessResult::from_live(Some(live)).dependencies[0].fence, 9);
    assert!(GpuAccessResult::<u32>::from_live(None).dependencies.is_empty());
}

#[test]
fn failed_wait_denies_access() {
    let buffer = buffer(vec![]);
    for error in [
        FenceWaitError::Timeout,
        FenceWaitError::DeviceLostError,
        FenceWaitError::OomError(OomError::OutOfHostMemory),
    ] {
        let result: Result<CpuAccess<[u32], ()>, FenceWaitError> =
            buffer.finish_access(Err(error), |_| panic!(), ());
        assert_eq!(result.err(), Some(error));
    }
}

#[test]
fn access_reads_and_writes_the_mapping() {
    let buffer = buffer(vec![]);
    let mut content: Vec<u32> = vec![1, 2, 3];
    let mut address: usize = 0;
    {
        let content = &mut content;
        let address = &mut address;
        let mut access = buffer
            .finish_access(
                Ok(()),
                |mapping| {
                    *address = mapping.address;
                    &mut content[..]
                },
                (),
            )
            .ok()
            .unwrap();
        assert_eq!(access.deref(), &[1, 2, 3]);
        access.deref_mut()[1] = 20;
        assert_eq!(access[1], 20);
        access[2] = 30;
    }
    assert_eq!(address, 0x1000);
    assert_eq!(content, vec![1, 20, 30]);
}

#[test]
fn mapped_access_keeps_the_lock() {
    let buffer = buffer(vec![]);
    let lock = Mutex::new(());
    let mut content: Vec<u32> = vec![1, 2, 3];
    {
        let content = &mut content;
        let access =
            buffer.finish_access(Ok(()), |_| &mut content[..], lock.lock().unwrap()).ok().unwrap();
        assert!(lock.try_lock().is_err());
        let mut part = access.map(|c| &mut c[1]);
        assert_eq!(*part, 2);
        *part = 5;
        assert!(lock.try_lock().is_err());
    }
    assert!(lock.try_lock().is_ok());
    assert_eq!(content, vec![1, 5, 3]);
}

#[test]
fn mapping_twice_is_mapping_by_the_composition() {
    let buffer = buffer(vec![]);
    let mut twice: Vec<u32> = vec![1, 2, 3, 4];
    let mut once: Vec<u32> = vec![1, 2, 3, 4];
    {
        let content = &mut twice;
        let access = buffer.finish_access(Ok(()), |_| &mut content[..], ()).ok().unwrap();
        let mut part = access.map(|c| &mut c[1..]).map(|c| &mut c[1]);
        assert_eq!(*part, 3);
        *part = 30;
    }
    {
        let content = &mut once;
        let access = buffer.finish_access(Ok(()), |_| &mut content[..], ()).ok().unwrap();
        let mut part = access.map(|c| &mut c[1..][1]);
        assert_eq!(*part, 3);
        *part = 30;
    }
    assert_eq!(twice, vec![1, 2, 30, 4]);
    assert_eq!(twice, once);
}

#[test]
fn mapping_by_the_identity() {
    let buffer = buffer(vec![]);
    let mut content: Vec<u32> = vec![1, 2];
    {
        let content = &mut content;
        let access = buffer.finish_access(Ok(()), |_| &mut content[..], ()).ok().unwrap();
        let mut same = access.map(|c| c);
        assert_eq!(same.deref(), &[1, 2]);
        same[0] = 9;
    }
    assert_eq!(content, vec![9, 2]);
}

#[test]
fn a_step_waits_only_for_a_live_submission() {
    let ready = AccessStep::<u32>::from_live(None, Duration::from_secs(1));
    assert_eq!(ready.carry_out(|_, _| panic!()), Ok(()));
    let live = submission(0, 9);
    let step = AccessStep::from_live(Some(live.clone()), Duration::from_millis(5));
    let mut waited = None;
    let outcome = step.carry_out(|s, t| {
        waited = Some((s.fence, t));
        Err(FenceWaitError::Timeout)
    });
    assert_eq!(outcome, Err(FenceWaitError::Timeout));
    assert_eq!(waited, Some((9, Duration::from_millis(5))));
    let step = AccessStep::from_live(Some(live), Duration::from_secs(1));
    assert_eq!(step.carry_out(|_, _| Ok(())), Ok(()));
}

#[test]
fn a_read_gives_back_what_was_written() {
    let buffer = buffer(vec![]);
    let latest: Option<Weak<Submission<u32>>> = None;
    let timeout = Duration::from_secs(0);
    let mut memory: Vec<u32> = vec![1, 2, 3];
    {
        let memory = &mut memory;
        let step = buffer.write(&latest, |w| w.upgrade(), timeout);
        let waited = step.carry_out(|_, _| panic!());
        let mut access = buffer.finish_access(waited, |_| &mut memory[..], ()).ok().unwrap();
        access[0] = 7;
        access[2] = 8;
    }
    {
        let memory = &mut memory;
        let step = buffer.read(&latest, |w| w.upgrade(), timeout);
        let waited = step.carry_out(|_, _| panic!());
        let access = buffer.finish_access(waited, |_| &mut memory[..], ()).ok().unwrap();
        assert_eq!(access.deref(), &[7, 2, 8]);
    }
}
