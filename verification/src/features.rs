use vstd::prelude::*;

verus! {

/// Feature flags of the core 1.0 tier, each zero when absent.
#[derive(Clone, Copy, Debug, PartialEq, Eq, Structural)]
pub struct CoreFeatures {
    pub sampler_anisotropy: u32,
    pub shader_int64: u32,
}

/// Feature flags of the core 1.1 tier.
#[derive(Clone, Copy, Debug, PartialEq, Eq, Structural)]
pub struct Vulkan11Features {
    pub storage_buffer16_bit_access: u32,
    pub uniform_and_storage_buffer16_bit_access: u32,
}

/// Feature flags of the core 1.2 tier.
#[derive(Clone, Copy, Debug, PartialEq, Eq, Structural)]
pub struct Vulkan12Features {
    pub buffer_device_address: u32,
    pub descriptor_binding_partially_bound: u32,
    pub descriptor_binding_variable_descriptor_count: u32,
    pub runtime_descriptor_array: u32,
    pub scalar_block_layout: u32,
    pub uniform_and_storage_buffer8_bit_access: u32,
    pub vulkan_memory_model: u32,
}

/// Feature flags of the acceleration-structure extension.
#[derive(Clone, Copy, Debug, PartialEq, Eq, Structural)]
pub struct AccelerationStructureFeatures {
    pub acceleration_structure: u32,
}

/// Feature flags of the ray-tracing-pipeline extension.
#[derive(Clone, Copy, Debug, PartialEq, Eq, Structural)]
pub struct RayTracingPipelineFeatures {
    pub ray_tracing_pipeline: u32,
}

/// The device features this renderer looks at, grouped by the tier or
/// extension that defines them. A flag is present when it is not zero.
#[derive(Clone, Copy, Debug, PartialEq, Eq, Structural)]
pub struct Features {
    pub v_1_0: CoreFeatures,
    pub v_1_1: Vulkan11Features,
    pub v_1_2: Vulkan12Features,
    pub acceleration_structure: AccelerationStructureFeatures,
    pub ray_tracing_pipeline: RayTracingPipelineFeatures,
}

impl Features {
    /// The set in which no flag is present.
    pub open spec fn none() -> Features {
        Features {
            v_1_0: CoreFeatures { sampler_anisotropy: 0, shader_int64: 0 },
            v_1_1: Vulkan11Features {
                storage_buffer16_bit_access: 0,
                uniform_and_storage_buffer16_bit_access: 0,
            },
            v_1_2: Vulkan12Features {
                buffer_device_address: 0,
                descriptor_binding_partially_bound: 0,
                descriptor_binding_variable_descriptor_count: 0,
                runtime_descriptor_array: 0,
                scalar_block_layout: 0,
                uniform_and_storage_buffer8_bit_access: 0,
                vulkan_memory_model: 0,
            },
            acceleration_structure: AccelerationStructureFeatures { acceleration_structure: 0 },
            ray_tracing_pipeline: RayTracingPipelineFeatures { ray_tracing_pipeline: 0 },
        }
    }

    /// The set in which exactly the flags the renderer needs are present,
    /// each with the value 1.
    pub open spec fn required_set() -> Features {
        Features {
            v_1_0: CoreFeatures { sampler_anisotropy: 1, shader_int64: 1 },
            v_1_1: Vulkan11Features {
                storage_buffer16_bit_access: 1,
                uniform_and_storage_buffer16_bit_access: 1,
            },
            v_1_2: Vulkan12Features {
                buffer_device_address: 1,
                descriptor_binding_partially_bound: 1,
                descriptor_binding_variable_descriptor_count: 1,
                runtime_descriptor_array: 1,
                scalar_block_layout: 1,
                uniform_and_storage_buffer8_bit_access: 1,
                vulkan_memory_model: 1,
            },
            acceleration_structure: AccelerationStructureFeatures { acceleration_structure: 1 },
            ray_tracing_pipeline: RayTracingPipelineFeatures { ray_tracing_pipeline: 1 },
        }
    }

    /// Every flag that is present in `wanted` is present in `self`.
    pub open spec fn covers(&self, wanted: Features) -> bool {
        &&& wanted.v_1_0.sampler_anisotropy > 0 ==> self.v_1_0.sampler_anisotropy > 0
        &&& wanted.v_1_0.shader_int64 > 0 ==> self.v_1_0.shader_int64 > 0
        &&& wanted.v_1_1.storage_buffer16_bit_access > 0
            ==> self.v_1_1.storage_buffer16_bit_access > 0
        &&& wanted.v_1_1.uniform_and_storage_buffer16_bit_access > 0
            ==> self.v_1_1.uniform_and_storage_buffer16_bit_access > 0
        &&& wanted.v_1_2.buffer_device_address > 0 ==> self.v_1_2.buffer_device_address > 0
        &&& wanted.v_1_2.descriptor_binding_partially_bound > 0
            ==> self.v_1_2.descriptor_binding_partially_bound > 0
        &&& wanted.v_1_2.descriptor_binding_variable_descriptor_count > 0
            ==> self.v_1_2.descriptor_binding_variable_descriptor_count > 0
        &&& wanted.v_1_2.runtime_descriptor_array > 0 ==> self.v_1_2.runtime_descriptor_array > 0
        &&& wanted.v_1_2.scalar_block_layout > 0 ==> self.v_1_2.scalar_block_layout > 0
        &&& wanted.v_1_2.uniform_and_storage_buffer8_bit_access > 0
            ==> self.v_1_2.uniform_and_storage_buffer8_bit_access > 0
        &&& wanted.v_1_2.vulkan_memory_model > 0 ==> self.v_1_2.vulkan_memory_model > 0
        &&& wanted.acceleration_structure.acceleration_structure > 0
            ==> self.acceleration_structure.acceleration_structure > 0
        &&& wanted.ray_tracing_pipeline.ray_tracing_pipeline > 0
            ==> self.ray_tracing_pipeline.ray_tracing_pipeline > 0
    }

    /// The features a device must offer before the renderer starts on it.
    pub fn required() -> (f: Features)
        ensures
            f == Features::required_set(),
    {
        let mut f = Features::default();
        f.v_1_0.sampler_anisotropy = 1;
        f.v_1_0.shader_int64 = 1;
        f.v_1_1.storage_buffer16_bit_access = 1;
        f.v_1_1.uniform_and_storage_buffer16_bit_access = 1;
        f.v_1_2.buffer_device_address = 1;
        f.v_1_2.descriptor_binding_partially_bound = 1;
        f.v_1_2.descriptor_binding_variable_descriptor_count = 1;
        f.v_1_2.runtime_descriptor_array = 1;
        f.v_1_2.scalar_block_layout = 1;
        f.v_1_2.uniform_and_storage_buffer8_bit_access = 1;
        f.v_1_2.vulkan_memory_model = 1;
        f.acceleration_structure.acceleration_structure = 1;
        f.ray_tracing_pipeline.ray_tracing_pipeline = 1;
        f
    }

    /// Whether a device that offers `self` offers every required feature.
    pub fn supports_requirements(&self) -> (ok: bool)
        ensures
            ok == self.covers(Features::required_set()),
    {
        self.v_1_0.sampler_anisotropy > 0 && self.v_1_0.shader_int64 > 0
            && self.v_1_1.storage_buffer16_bit_access > 0
            && self.v_1_1.uniform_and_storage_buffer16_bit_access > 0
            && self.v_1_2.buffer_device_address > 0
            && self.v_1_2.descriptor_binding_partially_bound > 0
            && self.v_1_2.descriptor_binding_variable_descriptor_count > 0
            && self.v_1_2.runtime_descriptor_array > 0 && self.v_1_2.scalar_block_layout > 0
            && self.v_1_2.uniform_and_storage_buffer8_bit_access > 0
            && self.v_1_2.vulkan_memory_model > 0
            && self.acceleration_structure.acceleration_structure > 0
            && self.ray_tracing_pipeline.ray_tracing_pipeline > 0
    }
}

impl Default for Features {
    /// No flag present: the state in which a query to the device starts.
    fn default() -> (f: Features)
        ensures
            f == Features::none(),
    {
        Features {
            v_1_0: CoreFeatures { sampler_anisotropy: 0, shader_int64: 0 },
            v_1_1: Vulkan11Features {
                storage_buffer16_bit_access: 0,
                uniform_and_storage_buffer16_bit_access: 0,
            },
            v_1_2: Vulkan12Features {
                buffer_device_address: 0,
                descriptor_binding_partially_bound: 0,
                descriptor_binding_variable_descriptor_count: 0,
                runtime_descriptor_array: 0,
                scalar_block_layout: 0,
                uniform_and_storage_buffer8_bit_access: 0,
                vulkan_memory_model: 0,
            },
            acceleration_structure: AccelerationStructureFeatures { acceleration_structure: 0 },
            ray_tracing_pipeline: RayTracingPipelineFeatures { ray_tracing_pipeline: 0 },
        }
    }
}

} // verus!
