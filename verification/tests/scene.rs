use ash::vk;
use render_core::buffer::{Buffer, DeviceAddress};
use render_core::call::{
    BufferInfo, Call, DescriptorWrite, Extent2D, ImageBinding, LayoutBinding, Location, Op, PoolSize, SamplerInfo,
};
use render_core::common::{CreateError, Data, MAX_NUM_TEXTURES};
use render_core::context::{Context, Queue, Queues, SurfaceConfig, SurfaceFormat};
use render_core::features::Features;
use render_core::image::{BarrierInfo, Format, RgbaImage};
use render_core::ledger::Kind;
use render_core::sampler::Sampler;
use render_core::scene::{Scene, SceneData, SceneInfo};
use render_core::scope::OneshotScope;
use render_core::uniforms::Uniforms;
use render_core::buffer::FillError;

fn context() -> Context {
    let queues = Queues { graphics: Queue { family_index: 0 }, transfer: None };
    let config = SurfaceConfig {
        surface_format: SurfaceFormat { format: 50, color_space: 0 },
        extent: Extent2D { width: 800, height: 600 },
        image_count: 3,
    };
    Context::init(Features::required(), queues, config).ok().unwrap()
}

fn picture(seed: u8) -> RgbaImage {
    RgbaImage::from_raw(1, 2, vec![seed; 8]).unwrap()
}

fn scene(textures: usize) -> SceneData {
    SceneData {
        vertices: vec![1; 20],
        indices: vec![0, 1, 2, 2, 1, 3],
        primitive_infos: vec![7; 12],
        textures: (0..textures).map(|i| picture(i as u8)).collect(),
    }
}

#[test]
fn scene_data_wants_whole_pictures() {
    assert!(scene(3).is_wf());
    let mut broken = scene(2);
    broken.textures[1].pixels.pop();
    assert!(!broken.is_wf());
}

#[test]
fn the_sampler_reads_linearly_and_repeats() {
    let mut ctx = context();
    let sampler = Sampler::create(&mut ctx);
    assert_eq!(
        ctx.take_calls(),
        vec![Call::Op(Op::CreateSampler {
            sampler: sampler.sampler,
            info: SamplerInfo {
                mag_filter: vk::Filter::LINEAR.as_raw(),
                min_filter: vk::Filter::LINEAR.as_raw(),
                mipmap_mode: vk::SamplerMipmapMode::LINEAR.as_raw(),
                address_mode_u: vk::SamplerAddressMode::REPEAT.as_raw(),
                address_mode_v: vk::SamplerAddressMode::REPEAT.as_raw(),
                address_mode_w: vk::SamplerAddressMode::REPEAT.as_raw(),
                anisotropy_enable: true,
                unnormalized_coordinates: false,
                compare_enable: false,
                compare_op: vk::CompareOp::ALWAYS.as_raw(),
            },
        })]
    );
    let handle = sampler.sampler;
    sampler.destroy_with(&mut ctx);
    assert_eq!(ctx.take_calls(), vec![Call::Op(Op::DestroySampler { sampler: handle })]);
    assert!(!ctx.is_live(handle, Kind::Sampler));
}

#[test]
fn uniforms_live_in_host_visible_memory() {
    let mut ctx = context();
    let mut uniforms = Uniforms::create(&mut ctx, 192);
    assert_eq!(uniforms.buffer, Buffer { buffer: 0, allocation: 1, size: 192, location: Location::CpuToGpu });
    let calls = ctx.take_calls();
    assert_eq!(
        calls[0],
        Call::Op(Op::CreateBuffer {
            buffer: 0,
            info: BufferInfo {
                size: 192,
                usage: vk::BufferUsageFlags::UNIFORM_BUFFER.as_raw(),
                sharing_mode: vk::SharingMode::EXCLUSIVE.as_raw(),
            }
        })
    );
    assert_eq!(uniforms.update(&mut ctx, &[3; 192]), Ok(()));
    assert_eq!(ctx.take_calls(), vec![Call::WriteMemory { memory: 1, data: vec![3; 192] }]);
    assert_eq!(uniforms.update(&mut ctx, &[3; 193]), Err(FillError::TooLarge));
    assert!(ctx.take_calls().is_empty());
    uniforms.destroy_with(&mut ctx);
    assert_eq!(ctx.live_objects(), 0);
}

#[test]
fn the_scene_buffers_are_staged_with_their_usages() {
    let mut ctx = context();
    let mut scope = OneshotScope::begin_on(&mut ctx, Queue { family_index: 0 });
    ctx.take_calls();
    let (vertices, indices) = Scene::init_vertex_index_buffer(&mut ctx, &mut scope, &[1; 20], &[2; 24]);
    let primitives = Scene::init_primitives_buffer(&mut ctx, &mut scope, &[3; 12]);
    assert_eq!(vertices, Buffer { buffer: 5, allocation: 6, size: 20, location: Location::GpuOnly });
    assert_eq!(indices, Buffer { buffer: 9, allocation: 10, size: 24, location: Location::GpuOnly });
    assert_eq!(primitives, Buffer { buffer: 13, allocation: 14, size: 12, location: Location::GpuOnly });
    assert_eq!(scope.resources.len(), 3);
    let calls = ctx.take_calls();
    let common = vk::BufferUsageFlags::STORAGE_BUFFER
        | vk::BufferUsageFlags::SHADER_DEVICE_ADDRESS
        | vk::BufferUsageFlags::TRANSFER_DST;
    let accel = vk::BufferUsageFlags::ACCELERATION_STRUCTURE_BUILD_INPUT_READ_ONLY_KHR;
    let usage_of = |buffer: usize| {
        calls
            .iter()
            .find_map(|c| match c {
                Call::Op(Op::CreateBuffer { buffer: b, info }) if *b == buffer => Some(info.usage),
                _ => None,
            })
            .unwrap()
    };
    assert_eq!(usage_of(5), (vk::BufferUsageFlags::VERTEX_BUFFER | common | accel).as_raw());
    assert_eq!(usage_of(9), (vk::BufferUsageFlags::INDEX_BUFFER | common | accel).as_raw());
    assert_eq!(usage_of(13), common.as_raw());
    assert_eq!(usage_of(3), vk::BufferUsageFlags::TRANSFER_SRC.as_raw());
}

#[test]
fn the_indices_are_uploaded_as_four_bytes_each() {
    let mut ctx = context();
    let mut scope = OneshotScope::begin_on(&mut ctx, Queue { family_index: 0 });
    ctx.take_calls();
    let data = scene(0);
    let created = Scene::create(&mut ctx, &mut scope, &data);
    assert_eq!(created.indices.size, 24);
    assert_eq!(created.vertices.size, 20);
    assert_eq!(created.primitives.size, 12);
    let calls = ctx.take_calls();
    let written: Vec<&Vec<u8>> = calls
        .iter()
        .filter_map(|c| match c {
            Call::WriteMemory { data, .. } => Some(data),
            _ => None,
        })
        .collect();
    assert_eq!(written.len(), 3);
    assert_eq!(written[0], &vec![1u8; 20]);
    let mut expected = Vec::new();
    for index in &data.indices {
        expected.extend_from_slice(&index.to_ne_bytes());
    }
    assert_eq!(written[1], &expected);
    assert_ne!(written[1], &vec![0u8; 24]);
    let little: Vec<u8> = data.indices.iter().flat_map(|i| i.to_le_bytes()).collect();
    let big: Vec<u8> = data.indices.iter().flat_map(|i| i.to_be_bytes()).collect();
    assert!(written[1] == &little || written[1] == &big);
    assert_eq!(written[2], &vec![7u8; 12]);
}

#[test]
fn the_scene_tells_the_shaders_where_its_buffers_are() {
    let mut ctx = context();
    let mut scope = OneshotScope::begin_on(&mut ctx, Queue { family_index: 0 });
    ctx.take_calls();
    let created = Scene::create(&mut ctx, &mut scope, &scene(1));
    assert_eq!(
        created.device_desc,
        SceneInfo {
            indices_address: DeviceAddress { buffer: created.indices.buffer },
            vertices_address: DeviceAddress { buffer: created.vertices.buffer },
            primitives_address: DeviceAddress { buffer: created.primitives.buffer },
        }
    );
    assert_eq!(created.scene_desc, Buffer { buffer: 15, allocation: 16, size: 24, location: Location::CpuToGpu });
    let calls = ctx.take_calls();
    assert!(calls.contains(&Call::Op(Op::WriteDeviceAddresses {
        memory: 16,
        indices: created.indices.buffer,
        vertices: created.vertices.buffer,
        primitives: created.primitives.buffer,
    })));
    assert_eq!(created.textures.len(), 1);
    assert_eq!(created.textures[0].image.format, Format::Color);
    assert_eq!(created.textures[0].image.state, BarrierInfo::shader_read());
    assert_eq!(created.textures[0].sampler.sampler, 22);
    assert_eq!(scope.resources.len(), 4);
    scope.finish(&mut ctx);
    let destroyed = ctx.live_objects();
    created.destroy_with(&mut ctx);
    assert_eq!(destroyed, 12);
    assert_eq!(ctx.live_objects(), 0);
}

#[test]
fn the_binding_table_has_the_three_shared_bindings() {
    let mut ctx = context();
    let table = Data::create_descriptors(&mut ctx);
    assert_eq!(table.layout, 0);
    assert_eq!(table.pool, 1);
    assert_eq!(table.sets, vec![2]);
    let uniform = vk::DescriptorType::UNIFORM_BUFFER.as_raw();
    let sampled = vk::DescriptorType::COMBINED_IMAGE_SAMPLER.as_raw();
    assert_eq!(MAX_NUM_TEXTURES, 128);
    assert_eq!(
        ctx.take_calls(),
        vec![
            Call::CreateDescriptorSetLayout {
                layout: 0,
                bindings: vec![
                    LayoutBinding {
                        binding: 0,
                        descriptor_type: uniform,
                        descriptor_count: 1,
                        stage_flags: (vk::ShaderStageFlags::VERTEX | vk::ShaderStageFlags::RAYGEN_KHR).as_raw(),
                        binding_flags: vk::DescriptorBindingFlags::empty().as_raw(),
                    },
                    LayoutBinding {
                        binding: 1,
                        descriptor_type: uniform,
                        descriptor_count: 1,
                        stage_flags: (vk::ShaderStageFlags::FRAGMENT
                            | vk::ShaderStageFlags::RAYGEN_KHR
                            | vk::ShaderStageFlags::CLOSEST_HIT_KHR)
                            .as_raw(),
                        binding_flags: vk::DescriptorBindingFlags::empty().as_raw(),
                    },
                    LayoutBinding {
                        binding: 2,
                        descriptor_type: sampled,
                        descriptor_count: 128,
                        stage_flags: (vk::ShaderStageFlags::FRAGMENT | vk::ShaderStageFlags::RAYGEN_KHR).as_raw(),
                        binding_flags: vk::DescriptorBindingFlags::PARTIALLY_BOUND.as_raw(),
                    },
                ],
            },
            Call::CreateDescriptorPool {
                pool: 1,
                sizes: vec![
                    PoolSize { descriptor_type: uniform, descriptor_count: 1 },
                    PoolSize { descriptor_type: uniform, descriptor_count: 1 },
                    PoolSize { descriptor_type: sampled, descriptor_count: 128 },
                ],
                max_sets: 1,
            },
            Call::Op(Op::AllocateDescriptorSets { pool: 1, layout: 0, first_set: 2, count: 1 }),
        ]
    );
    table.destroy_with(&mut ctx);
    assert_eq!(
        ctx.take_calls(),
        vec![
            Call::Op(Op::DestroyDescriptorPool { pool: 1 }),
            Call::Op(Op::DestroyDescriptorSetLayout { layout: 0 }),
        ]
    );
    assert_eq!(ctx.live_objects(), 0);
}

#[test]
fn the_shared_data_is_created_uploaded_and_bound() {
    let mut ctx = context();
    let resolution = Extent2D { width: 320, height: 200 };
    let data = Data::create(&mut ctx, &scene(2), resolution, 192).ok().unwrap();
    assert_eq!(data.resolution, resolution);
    assert_eq!(data.target.format, Format::Hdr);
    assert_eq!(data.target.state, BarrierInfo::general());
    assert_eq!(data.scene.textures.len(), 2);
    assert_eq!(data.uniforms.buffer.size, 192);
    let calls = ctx.take_calls();
    let wait = calls.iter().position(|c| matches!(c, Call::Op(Op::WaitForFence { .. }))).unwrap();
    let submit = calls.iter().position(|c| matches!(c, Call::Op(Op::QueueSubmit { .. }))).unwrap();
    assert_eq!(wait, submit + 1);
    let whole = vk::WHOLE_SIZE;
    let textures: Vec<ImageBinding> = data
        .scene
        .textures
        .iter()
        .map(|t| ImageBinding {
            view: t.image.view,
            layout: vk::ImageLayout::SHADER_READ_ONLY_OPTIMAL.as_raw(),
            sampler: t.sampler.sampler,
        })
        .collect();
    assert_eq!(
        calls.last(),
        Some(&Call::UpdateDescriptorSets {
            writes: vec![
                DescriptorWrite::Buffer {
                    set: data.descriptors.sets[0],
                    binding: 0,
                    descriptor_type: vk::DescriptorType::UNIFORM_BUFFER.as_raw(),
                    buffer: data.uniforms.buffer.buffer,
                    offset: 0,
                    range: whole,
                },
                DescriptorWrite::Buffer {
                    set: data.descriptors.sets[0],
                    binding: 1,
                    descriptor_type: vk::DescriptorType::UNIFORM_BUFFER.as_raw(),
                    buffer: data.scene.scene_desc.buffer,
                    offset: 0,
                    range: whole,
                },
                DescriptorWrite::Images {
                    set: data.descriptors.sets[0],
                    binding: 2,
                    descriptor_type: vk::DescriptorType::COMBINED_IMAGE_SAMPLER.as_raw(),
                    images: textures,
                },
            ]
        })
    );
    assert_eq!(calls.iter().filter(|c| matches!(c, Call::UpdateDescriptorSets { .. })).count(), 1);
    let staging = 3 + 2;
    assert_eq!(ctx.created(), 3 + 3 + 3 + 14 + 12 + 2);
    assert_eq!(ctx.live_objects(), ctx.created() - 2 * staging - 3);
    assert!(ctx.is_live(data.target.view, Kind::ImageView));
    assert!(ctx.is_live(data.scene.vertices.buffer, Kind::Buffer));
    assert!(ctx.is_live(data.scene.textures[1].sampler.sampler, Kind::Sampler));
    data.destroy_with(&mut ctx);
    assert_eq!(ctx.live_objects(), 0);
}

#[test]
fn the_target_is_a_storage_image_and_color_attachment() {
    let mut ctx = context();
    let data = Data::create(&mut ctx, &scene(0), Extent2D { width: 320, height: 200 }, 64).ok().unwrap();
    let calls = ctx.take_calls();
    let usage = calls
        .iter()
        .find_map(|c| match c {
            Call::Op(Op::CreateImage { image, info }) if *image == data.target.image => Some(info.usage),
            _ => None,
        })
        .unwrap();
    assert_eq!(
        usage,
        (vk::ImageUsageFlags::SAMPLED | vk::ImageUsageFlags::COLOR_ATTACHMENT | vk::ImageUsageFlags::STORAGE)
            .as_raw()
    );
}

#[test]
fn a_scene_with_too_many_textures_is_refused_before_anything_is_made() {
    let mut ctx = context();
    let result = Data::create(&mut ctx, &scene(129), Extent2D { width: 320, height: 200 }, 192);
    assert_eq!(result.err(), Some(CreateError::TooManyTextures));
    assert_eq!(ctx.created(), 0);
    assert!(ctx.take_calls().is_empty());
    assert!(Data::create(&mut ctx, &scene(128), Extent2D { width: 320, height: 200 }, 192).is_ok());
}
