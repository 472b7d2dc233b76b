use ash::vk;
use render_core::buffer::{Buffer, DeviceAddress, FillError};
use render_core::call::{BufferInfo, Call, Extent2D, Handle, Location, Op};
use render_core::context::{Context, Queue, Queues, SurfaceConfig, SurfaceFormat};
use render_core::features::Features;
use render_core::ledger::Kind;
use render_core::scope::{OneshotScope, Resource};
use std::collections::HashMap;

fn context() -> Context {
    let queues = Queues { graphics: Queue { family_index: 0 }, transfer: None };
    let config = SurfaceConfig {
        surface_format: SurfaceFormat { format: 50, color_space: 0 },
        extent: Extent2D { width: 800, height: 600 },
        image_count: 3,
    };
    Context::init(Features::required(), queues, config).ok().unwrap()
}

fn storage(size: u64) -> BufferInfo {
    BufferInfo {
        size,
        usage: vk::BufferUsageFlags::STORAGE_BUFFER.as_raw(),
        sharing_mode: vk::SharingMode::EXCLUSIVE.as_raw(),
    }
}

/// A device that keeps the bytes of every allocation and runs recorded
/// copies when their command buffer is submitted.
struct StubDevice {
    memory: HashMap<Handle, Vec<u8>>,
    sizes: HashMap<Handle, u64>,
    bound: HashMap<Handle, Handle>,
    recorded: HashMap<Handle, Vec<(Handle, Handle, u64)>>,
    destroyed: Vec<Handle>,
}

impl StubDevice {
    fn new() -> StubDevice {
        StubDevice {
            memory: HashMap::new(),
            sizes: HashMap::new(),
            bound: HashMap::new(),
            recorded: HashMap::new(),
            destroyed: Vec::new(),
        }
    }

    fn run(&mut self, calls: Vec<Call>) {
        for call in calls {
            match call {
                Call::Op(Op::CreateBuffer { buffer, info }) => {
                    self.sizes.insert(buffer, info.size);
                }
                Call::Op(Op::AllocateBufferMemory { memory, buffer, .. }) => {
                    self.memory.insert(memory, vec![0; self.sizes[&buffer] as usize]);
                }
                Call::Op(Op::BindBufferMemory { buffer, memory }) => {
                    self.bound.insert(buffer, memory);
                }
                Call::WriteMemory { memory, data } => {
                    self.memory.get_mut(&memory).unwrap()[..data.len()].copy_from_slice(&data);
                }
                Call::Op(Op::CmdCopyBuffer { commands, src, dst, size }) => {
                    self.recorded.entry(commands).or_default().push((src, dst, size));
                }
                Call::Op(Op::QueueSubmit { commands, .. }) => {
                    for (src, dst, size) in self.recorded.remove(&commands).unwrap_or_default() {
                        let bytes = self.memory[&self.bound[&src]][..size as usize].to_vec();
                        self.memory.get_mut(&self.bound[&dst]).unwrap()[..size as usize].copy_from_slice(&bytes);
                    }
                }
                Call::Op(Op::DestroyBuffer { buffer }) => self.destroyed.push(buffer),
                Call::Op(Op::FreeMemory { memory }) => {
                    self.destroyed.push(memory);
                    self.memory.remove(&memory);
                }
                _ => {}
            }
        }
    }
}

#[test]
fn create_asks_for_buffer_memory_and_binding() {
    let mut ctx = context();
    let b = Buffer::create(&mut ctx, storage(64), Location::GpuOnly);
    assert_eq!(b, Buffer { buffer: 0, allocation: 1, size: 64, location: Location::GpuOnly });
    assert_eq!(
        ctx.take_calls(),
        vec![
            Call::Op(Op::CreateBuffer { buffer: 0, info: storage(64) }),
            Call::Op(Op::AllocateBufferMemory { memory: 1, buffer: 0, location: Location::GpuOnly, linear: true }),
            Call::Op(Op::BindBufferMemory { buffer: 0, memory: 1 }),
        ]
    );
}

#[test]
fn only_the_device_local_location_is_hidden_from_the_host() {
    assert!(!Location::GpuOnly.host_visible());
    assert!(Location::CpuToGpu.host_visible());
    assert!(Location::GpuToCpu.host_visible());
}

#[test]
fn a_device_local_buffer_refuses_bytes() {
    let mut ctx = context();
    let b = Buffer::create(&mut ctx, storage(64), Location::GpuOnly);
    ctx.take_calls();
    assert_eq!(b.fill_with_bytes(&mut ctx, &[1, 2, 3]), Err(FillError::NotHostVisible));
    assert_eq!(b.fill_with_bytes(&mut ctx, &[]), Err(FillError::NotHostVisible));
    assert_eq!(b.fill_with_bytes(&mut ctx, &[0; 65]), Err(FillError::NotHostVisible));
    assert!(ctx.take_calls().is_empty());
}

#[test]
fn a_host_visible_buffer_takes_bytes() {
    for location in [Location::CpuToGpu, Location::GpuToCpu] {
        let mut ctx = context();
        let b = Buffer::create(&mut ctx, storage(4), location);
        ctx.take_calls();
        assert_eq!(b.fill_with_bytes(&mut ctx, &[9, 8, 7]), Ok(()));
        assert_eq!(ctx.take_calls(), vec![Call::WriteMemory { memory: b.allocation, data: vec![9, 8, 7] }]);
        assert_eq!(b.fill_with_bytes(&mut ctx, &[1, 2, 3, 4]), Ok(()));
        assert_eq!(ctx.take_calls(), vec![Call::WriteMemory { memory: b.allocation, data: vec![1, 2, 3, 4] }]);
    }
}

#[test]
fn more_bytes_than_the_buffer_holds_are_refused() {
    let mut ctx = context();
    let b = Buffer::create(&mut ctx, storage(4), Location::CpuToGpu);
    ctx.take_calls();
    assert_eq!(b.fill_with_bytes(&mut ctx, &[1, 2, 3, 4, 5]), Err(FillError::TooLarge));
    assert!(ctx.take_calls().is_empty());
}

#[test]
fn create_with_data_sizes_the_buffer_to_the_data() {
    let mut ctx = context();
    let b = Buffer::create_with_data(&mut ctx, storage(0), &[5, 6, 7, 8, 9]);
    assert_eq!(b, Buffer { buffer: 0, allocation: 1, size: 5, location: Location::CpuToGpu });
    assert_eq!(
        ctx.take_calls(),
        vec![
            Call::Op(Op::CreateBuffer { buffer: 0, info: storage(5) }),
            Call::Op(Op::AllocateBufferMemory { memory: 1, buffer: 0, location: Location::CpuToGpu, linear: true }),
            Call::Op(Op::BindBufferMemory { buffer: 0, memory: 1 }),
            Call::WriteMemory { memory: 1, data: vec![5, 6, 7, 8, 9] },
        ]
    );
}

#[test]
fn a_staged_upload_goes_through_a_staging_buffer() {
    let mut ctx = context();
    let mut scope = OneshotScope::begin_on(&mut ctx, Queue { family_index: 0 });
    ctx.take_calls();
    let b = Buffer::create_with_staged_data(&mut ctx, &mut scope, storage(0), &[1, 2, 3]);
    assert_eq!(b, Buffer { buffer: 5, allocation: 6, size: 3, location: Location::GpuOnly });
    let staging = Buffer { buffer: 3, allocation: 4, size: 3, location: Location::CpuToGpu };
    assert_eq!(scope.resources, vec![Resource::Buffer(staging)]);
    let source = BufferInfo {
        size: 3,
        usage: vk::BufferUsageFlags::TRANSFER_SRC.as_raw(),
        sharing_mode: vk::SharingMode::EXCLUSIVE.as_raw(),
    };
    let target = BufferInfo {
        size: 3,
        usage: (vk::BufferUsageFlags::STORAGE_BUFFER | vk::BufferUsageFlags::TRANSFER_DST).as_raw(),
        sharing_mode: vk::SharingMode::EXCLUSIVE.as_raw(),
    };
    assert_eq!(
        ctx.take_calls(),
        vec![
            Call::Op(Op::CreateBuffer { buffer: 3, info: source }),
            Call::Op(Op::AllocateBufferMemory { memory: 4, buffer: 3, location: Location::CpuToGpu, linear: true }),
            Call::Op(Op::BindBufferMemory { buffer: 3, memory: 4 }),
            Call::WriteMemory { memory: 4, data: vec![1, 2, 3] },
            Call::Op(Op::CreateBuffer { buffer: 5, info: target }),
            Call::Op(Op::AllocateBufferMemory { memory: 6, buffer: 5, location: Location::GpuOnly, linear: true }),
            Call::Op(Op::BindBufferMemory { buffer: 5, memory: 6 }),
            Call::Op(Op::CmdCopyBuffer { commands: scope.commands.buffer, src: 3, dst: 5, size: 3 }),
        ]
    );
}

#[test]
fn staged_bytes_read_back_as_they_were_written() {
    let pattern: Vec<u8> = (0..1024u32).map(|i| (i * 7 % 251) as u8).collect();
    let mut ctx = context();
    let mut device = StubDevice::new();
    let queue = ctx.queues.graphics();

    let mut upload = OneshotScope::begin_on(&mut ctx, queue);
    let target = Buffer::create_with_staged_data(&mut ctx, &mut upload, storage(0), &pattern);
    assert_eq!(target.location, Location::GpuOnly);
    assert_eq!(target.size, 1024);
    assert_eq!(target.fill_with_bytes(&mut ctx, &pattern), Err(FillError::NotHostVisible));
    upload.finish(&mut ctx);
    device.run(ctx.take_calls());
    assert_eq!(device.memory[&target.allocation], pattern);

    let readback = Buffer::create(&mut ctx, storage(1024), Location::GpuToCpu);
    let download = OneshotScope::begin_on(&mut ctx, queue);
    readback.record_copy_from(&mut ctx, &download, &target, 1024);
    download.finish(&mut ctx);
    device.run(ctx.take_calls());
    assert_eq!(device.memory[&readback.allocation], pattern);
}

#[test]
fn the_device_address_names_the_buffer() {
    let mut ctx = context();
    let a = Buffer::create(&mut ctx, storage(8), Location::GpuOnly);
    let b = Buffer::create(&mut ctx, storage(8), Location::GpuOnly);
    assert_eq!(a.get_device_address(&ctx), DeviceAddress { buffer: a.buffer });
    assert_eq!(a.get_device_address(&ctx), a.get_device_address(&ctx));
    assert_ne!(a.get_device_address(&ctx), b.get_device_address(&ctx));
}

#[test]
fn destroy_takes_the_buffer_first_and_then_its_memory() {
    let mut ctx = context();
    let b = Buffer::create(&mut ctx, storage(8), Location::GpuOnly);
    ctx.take_calls();
    b.destroy_with(&mut ctx);
    assert_eq!(
        ctx.take_calls(),
        vec![Call::Op(Op::DestroyBuffer { buffer: 0 }), Call::Op(Op::FreeMemory { memory: 1 })]
    );
    assert!(!ctx.is_live(0, Kind::Buffer));
    assert!(!ctx.is_live(1, Kind::Memory));
    assert_eq!(ctx.live_objects(), 0);
}
