use render_core::context::{Context, InitError, Queue, Queues, SurfaceConfig, SurfaceFormat};
use render_core::call::Extent2D;
use render_core::features::Features;

fn queues() -> Queues {
    Queues { graphics: Queue { family_index: 0 }, transfer: None }
}

fn config() -> SurfaceConfig {
    SurfaceConfig {
        surface_format: SurfaceFormat { format: 50, color_space: 0 },
        extent: Extent2D { width: 800, height: 600 },
        image_count: 3,
    }
}

#[test]
fn required_features_support_themselves() {
    assert!(Features::required().supports_requirements());
}

#[test]
fn required_sets_each_flag_to_one() {
    let f = Features::required();
    assert_eq!(f.v_1_0.sampler_anisotropy, 1);
    assert_eq!(f.v_1_0.shader_int64, 1);
    assert_eq!(f.v_1_1.storage_buffer16_bit_access, 1);
    assert_eq!(f.v_1_1.uniform_and_storage_buffer16_bit_access, 1);
    assert_eq!(f.v_1_2.buffer_device_address, 1);
    assert_eq!(f.v_1_2.descriptor_binding_partially_bound, 1);
    assert_eq!(f.v_1_2.descriptor_binding_variable_descriptor_count, 1);
    assert_eq!(f.v_1_2.runtime_descriptor_array, 1);
    assert_eq!(f.v_1_2.scalar_block_layout, 1);
    assert_eq!(f.v_1_2.uniform_and_storage_buffer8_bit_access, 1);
    assert_eq!(f.v_1_2.vulkan_memory_model, 1);
    assert_eq!(f.acceleration_structure.acceleration_structure, 1);
    assert_eq!(f.ray_tracing_pipeline.ray_tracing_pipeline, 1);
    assert_eq!(f.v_1_0.sampler_anisotropy, ash::vk::TRUE);
}

#[test]
fn default_features_do_not_meet_the_requirements() {
    let f = Features::default();
    assert!(!f.supports_requirements());
    assert_eq!(f.v_1_0.sampler_anisotropy, 0);
    assert_eq!(f.ray_tracing_pipeline.ray_tracing_pipeline, 0);
}

#[test]
fn any_nonzero_value_counts_as_present() {
    let mut f = Features::required();
    f.v_1_2.scalar_block_layout = 7;
    f.v_1_0.shader_int64 = u32::MAX;
    assert!(f.supports_requirements());
}

#[test]
fn each_missing_flag_fails_the_requirements() {
    let clear: Vec<fn(&mut Features)> = vec![
        |f| f.v_1_0.sampler_anisotropy = 0,
        |f| f.v_1_0.shader_int64 = 0,
        |f| f.v_1_1.storage_buffer16_bit_access = 0,
        |f| f.v_1_1.uniform_and_storage_buffer16_bit_access = 0,
        |f| f.v_1_2.buffer_device_address = 0,
        |f| f.v_1_2.descriptor_binding_partially_bound = 0,
        |f| f.v_1_2.descriptor_binding_variable_descriptor_count = 0,
        |f| f.v_1_2.runtime_descriptor_array = 0,
        |f| f.v_1_2.scalar_block_layout = 0,
        |f| f.v_1_2.uniform_and_storage_buffer8_bit_access = 0,
        |f| f.v_1_2.vulkan_memory_model = 0,
        |f| f.acceleration_structure.acceleration_structure = 0,
        |f| f.ray_tracing_pipeline.ray_tracing_pipeline = 0,
    ];
    for (i, clear_one) in clear.iter().enumerate() {
        let mut f = Features::required();
        clear_one(&mut f);
        assert!(!f.supports_requirements(), "flag {} is required", i);
    }
}

#[test]
fn a_device_without_a_required_feature_is_refused_at_startup() {
    let mut supported = Features::required();
    supported.ray_tracing_pipeline.ray_tracing_pipeline = 0;
    match Context::init(supported, queues(), config()) {
        Err(e) => assert_eq!(e, InitError::MissingFeatures),
        Ok(_) => panic!("a device without ray tracing was accepted"),
    }
}

#[test]
fn a_device_with_all_required_features_starts_with_an_empty_ledger() {
    let mut ctx = Context::init(Features::required(), queues(), config()).ok().unwrap();
    assert_eq!(ctx.created(), 0);
    assert_eq!(ctx.live_objects(), 0);
    assert!(ctx.take_calls().is_empty());
    assert_eq!(ctx.surface.config, config());
    assert_eq!(ctx.queues, queues());
    assert_eq!(ctx.features, Features::required());
}
