use vstd::prelude::*;
use crate::error::ConvertError;
use crate::format::Format;
use crate::reflected::ReflectedImage;

verus! {

/// The pipeline stages that may access a resource.
#[derive(Debug, Clone, Copy, PartialEq, Eq)]
pub struct ShaderStages {
    pub vertex: bool,
    pub tessellation_control: bool,
    pub tessellation_evaluation: bool,
    pub geometry: bool,
    pub fragment: bool,
    pub compute: bool,
}

impl ShaderStages {
    /// No stage.
    pub open spec fn spec_none() -> ShaderStages {
        ShaderStages {
            vertex: false,
            tessellation_control: false,
            tessellation_evaluation: false,
            geometry: false,
            fragment: false,
            compute: false,
        }
    }

    /// Every stage.
    pub open spec fn spec_all() -> ShaderStages {
        ShaderStages {
            vertex: true,
            tessellation_control: true,
            tessellation_evaluation: true,
            geometry: true,
            fragment: true,
            compute: true,
        }
    }

    /// The fragment stage alone.
    pub open spec fn spec_fragment() -> ShaderStages {
        ShaderStages {
            vertex: false,
            tessellation_control: false,
            tessellation_evaluation: false,
            geometry: false,
            fragment: true,
            compute: false,
        }
    }

    /// No stage.
    #[verifier::when_used_as_spec(spec_none)]
    pub fn none() -> (r: ShaderStages)
        ensures
            r == ShaderStages::spec_none(),
    {
        ShaderStages {
            vertex: false,
            tessellation_control: false,
            tessellation_evaluation: false,
            geometry: false,
            fragment: false,
            compute: false,
        }
    }

    /// Every stage.
    #[verifier::when_used_as_spec(spec_all)]
    pub fn all() -> (r: ShaderStages)
        ensures
            r == ShaderStages::spec_all(),
    {
        ShaderStages {
            vertex: true,
            tessellation_control: true,
            tessellation_evaluation: true,
            geometry: true,
            fragment: true,
            compute: true,
        }
    }

    /// The fragment stage alone.
    #[verifier::when_used_as_spec(spec_fragment)]
    pub fn fragment() -> (r: ShaderStages)
        ensures
            r == ShaderStages::spec_fragment(),
    {
        ShaderStages {
            vertex: false,
            tessellation_control: false,
            tessellation_evaluation: false,
            geometry: false,
            fragment: true,
            compute: false,
        }
    }
}

/// Dimensionality of an image.
#[derive(Debug, Clone, Copy, PartialEq, Eq)]
pub enum DescriptorImageDescDimensions {
    OneDimensional,
    TwoDimensional,
    ThreeDimensional,
    Cube,
}

/// Whether an image is arrayed, and with how many layers at most.
#[derive(Debug, Clone, Copy, PartialEq, Eq)]
pub enum DescriptorImageDescArray {
    NonArrayed,
    Arrayed { max_layers: Option<u32> },
}

/// What a shader expects of an image resource.
#[derive(Debug, Clone, Copy, PartialEq, Eq)]
pub struct DescriptorImageDesc {
    pub sampled: bool,
    pub dimensions: DescriptorImageDescDimensions,
    /// Pixel format of the image, where the shader fixes one.
    pub format: Option<Format>,
    pub multisampled: bool,
    pub array_layers: DescriptorImageDescArray,
}

/// What a shader expects of a buffer resource.
#[derive(Debug, Clone, Copy, PartialEq, Eq)]
pub struct DescriptorBufferDesc {
    /// Whether the buffer has a dynamic offset, where that is known.
    pub dynamic: Option<bool>,
    /// A storage buffer if set, a uniform buffer if not.
    pub storage: bool,
}

/// The kind of resource behind a binding.
#[derive(Debug, Clone, Copy, PartialEq, Eq)]
pub enum DescriptorDescTy {
    Sampler,
    CombinedImageSampler(DescriptorImageDesc),
    Buffer(DescriptorBufferDesc),
}

/// One binding of a descriptor set.
#[derive(Debug, Clone, Copy, PartialEq, Eq)]
pub struct DescriptorDesc {
    pub ty: DescriptorDescTy,
    /// Number of array elements.
    pub array_count: u32,
    /// Stages that may access the resource.
    pub stages: ShaderStages,
    pub readonly: bool,
}

/// One range of push constants.
#[derive(Debug, Clone, Copy, PartialEq, Eq)]
pub struct PipelineLayoutDescPcRange {
    /// Offset of the range in bytes.
    pub offset: usize,
    /// Size of the range in bytes.
    pub size: usize,
    /// Stages that may access the range.
    pub stages: ShaderStages,
}

/// Dimension code of a one-dimensional image.
pub const DIM_1D: u32 = 1;

/// Dimension code of a two-dimensional image.
pub const DIM_2D: u32 = 2;

/// Dimension code of a three-dimensional image.
pub const DIM_3D: u32 = 3;

/// Dimension code of a cube image.
pub const DIM_CUBE: u32 = 4;

/// Resource-type code of a sampler.
pub const TYPE_SAMPLER: u32 = 1;

/// Resource-type code of an image combined with a sampler.
pub const TYPE_COMBINED_IMAGE_SAMPLER: u32 = 2;

/// Resource-type code of a uniform buffer.
pub const TYPE_UNIFORM_BUFFER: u32 = 7;

/// Resource-type code of a storage buffer.
pub const TYPE_STORAGE_BUFFER: u32 = 8;

/// The dimension codes that the table has an entry for.
pub open spec fn is_known_dimension(dim: u32) -> bool {
    dim == DIM_1D || dim == DIM_2D || dim == DIM_3D || dim == DIM_CUBE
}

/// The dimension table.
pub open spec fn dimension_table(dim: u32) -> Result<DescriptorImageDescDimensions, ConvertError> {
    if dim == DIM_1D {
        Ok(DescriptorImageDescDimensions::OneDimensional)
    } else if dim == DIM_2D {
        Ok(DescriptorImageDescDimensions::TwoDimensional)
    } else if dim == DIM_3D {
        Ok(DescriptorImageDescDimensions::ThreeDimensional)
    } else if dim == DIM_CUBE {
        Ok(DescriptorImageDescDimensions::Cube)
    } else {
        Err(ConvertError::UnknownType)
    }
}

/// The description of an image with the given attributes: each flag is set where the
/// attribute is nonzero, and an arrayed image has its depth as the layer limit.
pub open spec fn image_table(image: ReflectedImage) -> Result<DescriptorImageDesc, ConvertError> {
    match dimension_table(image.dim) {
        Ok(dimensions) => Ok(
            DescriptorImageDesc {
                sampled: image.sampled != 0,
                dimensions,
                format: None,
                multisampled: image.ms != 0,
                array_layers: if image.arrayed != 0 {
                    DescriptorImageDescArray::Arrayed { max_layers: Some(image.depth) }
                } else {
                    DescriptorImageDescArray::NonArrayed
                },
            },
        ),
        Err(e) => Err(e),
    }
}

/// The resource-type codes, with the image attributes that go with them, that the
/// table has an entry for.
pub open spec fn is_known_descriptor(type_code: u32, image: ReflectedImage) -> bool {
    ||| type_code == TYPE_SAMPLER
    ||| type_code == TYPE_COMBINED_IMAGE_SAMPLER && is_known_dimension(image.dim)
    ||| type_code == TYPE_UNIFORM_BUFFER
    ||| type_code == TYPE_STORAGE_BUFFER
}

/// The descriptor table: the kind of resource that a resource-type code stands for. The
/// image attributes count for an image combined with a sampler only.
pub open spec fn descriptor_table(type_code: u32, image: ReflectedImage) -> Result<
    DescriptorDescTy,
    ConvertError,
> {
    if type_code == TYPE_SAMPLER {
        Ok(DescriptorDescTy::Sampler)
    } else if type_code == TYPE_COMBINED_IMAGE_SAMPLER {
        match image_table(image) {
            Ok(desc) => Ok(DescriptorDescTy::CombinedImageSampler(desc)),
            Err(e) => Err(e),
        }
    } else if type_code == TYPE_UNIFORM_BUFFER {
        Ok(DescriptorDescTy::Buffer(DescriptorBufferDesc { dynamic: None, storage: false }))
    } else if type_code == TYPE_STORAGE_BUFFER {
        Ok(DescriptorDescTy::Buffer(DescriptorBufferDesc { dynamic: None, storage: true }))
    } else {
        Err(ConvertError::UnknownType)
    }
}

/// Translates a dimension code. Every code outside the table is an error.
pub fn dimensions_of(dim: u32) -> (r: Result<DescriptorImageDescDimensions, ConvertError>)
    ensures
        r == dimension_table(dim),
        r is Ok <==> is_known_dimension(dim),
{
    if dim == DIM_1D {
        Ok(DescriptorImageDescDimensions::OneDimensional)
    } else if dim == DIM_2D {
        Ok(DescriptorImageDescDimensions::TwoDimensional)
    } else if dim == DIM_3D {
        Ok(DescriptorImageDescDimensions::ThreeDimensional)
    } else if dim == DIM_CUBE {
        Ok(DescriptorImageDescDimensions::Cube)
    } else {
        Err(ConvertError::UnknownType)
    }
}

/// Translates the image attributes of a binding.
pub fn image_desc_of(image: ReflectedImage) -> (r: Result<DescriptorImageDesc, ConvertError>)
    ensures
        r == image_table(image),
        r is Ok <==> is_known_dimension(image.dim),
{
    let dimensions = match dimensions_of(image.dim) {
        Ok(d) => d,
        Err(e) => {
            return Err(e);
        },
    };
    let array_layers = if image.arrayed != 0 {
        DescriptorImageDescArray::Arrayed { max_layers: Some(image.depth) }
    } else {
        DescriptorImageDescArray::NonArrayed
    };
    Ok(
        DescriptorImageDesc {
            sampled: image.sampled != 0,
            dimensions,
            format: None,
            multisampled: image.ms != 0,
            array_layers,
        },
    )
}

/// Translates the resource type of a binding. Every code outside the table is an error:
/// none is given a default kind.
pub fn descriptor_kind_of(type_code: u32, image: ReflectedImage) -> (r: Result<
    DescriptorDescTy,
    ConvertError,
>)
    ensures
        r == descriptor_table(type_code, image),
        r is Ok <==> is_known_descriptor(type_code, image),
        r is Err ==> r == Err::<DescriptorDescTy, ConvertError>(ConvertError::UnknownType),
{
    if type_code == TYPE_SAMPLER {
        Ok(DescriptorDescTy::Sampler)
    } else if type_code == TYPE_COMBINED_IMAGE_SAMPLER {
        match image_desc_of(image) {
            Ok(desc) => Ok(DescriptorDescTy::CombinedImageSampler(desc)),
            Err(e) => Err(e),
        }
    } else if type_code == TYPE_UNIFORM_BUFFER {
        Ok(DescriptorDescTy::Buffer(DescriptorBufferDesc { dynamic: None, storage: false }))
    } else if type_code == TYPE_STORAGE_BUFFER {
        Ok(DescriptorDescTy::Buffer(DescriptorBufferDesc { dynamic: None, storage: true }))
    } else {
        Err(ConvertError::UnknownType)
    }
}

} // verus!
