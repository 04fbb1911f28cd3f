use shade_runner::descriptor::{descriptor_kind_of, dimensions_of, image_desc_of};
use shade_runner::format::format_of;
use shade_runner::reflected::ReflectedImage;
use shade_runner::{
    ConvertError, DescriptorBufferDesc, DescriptorDescTy, DescriptorImageDesc,
    DescriptorImageDescArray, DescriptorImageDescDimensions, Format,
};

fn image(dim: u32) -> ReflectedImage {
    ReflectedImage { dim, depth: 0, arrayed: 0, ms: 0, sampled: 1 }
}

#[test]
fn format_table_has_twelve_entries() {
    assert_eq!(format_of(1), Ok(Format::R32Uint));
    assert_eq!(format_of(2), Ok(Format::R32Sint));
    assert_eq!(format_of(3), Ok(Format::R32Sfloat));
    assert_eq!(format_of(4), Ok(Format::R32G32Uint));
    assert_eq!(format_of(5), Ok(Format::R32G32Sint));
    assert_eq!(format_of(6), Ok(Format::R32G32Sfloat));
    assert_eq!(format_of(7), Ok(Format::R32G32B32Uint));
    assert_eq!(format_of(8), Ok(Format::R32G32B32Sint));
    assert_eq!(format_of(9), Ok(Format::R32G32B32Sfloat));
    assert_eq!(format_of(10), Ok(Format::R32G32B32A32Uint));
    assert_eq!(format_of(11), Ok(Format::R32G32B32A32Sint));
    assert_eq!(format_of(12), Ok(Format::R32G32B32A32Sfloat));
}

#[test]
fn format_outside_the_table_is_an_error() {
    assert_eq!(format_of(0), Err(ConvertError::UnknownFormat));
    assert_eq!(format_of(13), Err(ConvertError::UnknownFormat));
    assert_eq!(format_of(98), Err(ConvertError::UnknownFormat));
    assert_eq!(format_of(109), Err(ConvertError::UnknownFormat));
    assert_eq!(format_of(u32::MAX), Err(ConvertError::UnknownFormat));
    for code in 13..2000 {
        assert_eq!(format_of(code), Err(ConvertError::UnknownFormat));
    }
}

#[test]
fn dimension_table_has_four_entries() {
    assert_eq!(dimensions_of(1), Ok(DescriptorImageDescDimensions::OneDimensional));
    assert_eq!(dimensions_of(2), Ok(DescriptorImageDescDimensions::TwoDimensional));
    assert_eq!(dimensions_of(3), Ok(DescriptorImageDescDimensions::ThreeDimensional));
    assert_eq!(dimensions_of(4), Ok(DescriptorImageDescDimensions::Cube));
    assert_eq!(dimensions_of(0), Err(ConvertError::UnknownType));
    for dim in 5..300 {
        assert_eq!(dimensions_of(dim), Err(ConvertError::UnknownType));
    }
    assert_eq!(dimensions_of(u32::MAX), Err(ConvertError::UnknownType));
}

#[test]
fn image_flags_are_set_where_the_attribute_is_not_zero() {
    assert_eq!(
        image_desc_of(ReflectedImage { dim: 2, depth: 0, arrayed: 0, ms: 0, sampled: 1 }),
        Ok(DescriptorImageDesc {
            sampled: true,
            dimensions: DescriptorImageDescDimensions::TwoDimensional,
            format: None,
            multisampled: false,
            array_layers: DescriptorImageDescArray::NonArrayed,
        })
    );
    assert_eq!(
        image_desc_of(ReflectedImage { dim: 3, depth: 9, arrayed: 0, ms: 7, sampled: 0 }),
        Ok(DescriptorImageDesc {
            sampled: false,
            dimensions: DescriptorImageDescDimensions::ThreeDimensional,
            format: None,
            multisampled: true,
            array_layers: DescriptorImageDescArray::NonArrayed,
        })
    );
    assert_eq!(
        image_desc_of(ReflectedImage { dim: 1, depth: 2, arrayed: 1, ms: 0, sampled: 2 }),
        Ok(DescriptorImageDesc {
            sampled: true,
            dimensions: DescriptorImageDescDimensions::OneDimensional,
            format: None,
            multisampled: false,
            array_layers: DescriptorImageDescArray::Arrayed { max_layers: Some(2) },
        })
    );
    assert_eq!(
        image_desc_of(ReflectedImage { dim: 7, depth: 2, arrayed: 1, ms: 0, sampled: 2 }),
        Err(ConvertError::UnknownType)
    );
}

#[test]
fn descriptor_table_has_four_entries() {
    assert_eq!(descriptor_kind_of(1, image(0)), Ok(DescriptorDescTy::Sampler));
    assert_eq!(
        descriptor_kind_of(2, image(2)),
        Ok(DescriptorDescTy::CombinedImageSampler(DescriptorImageDesc {
            sampled: true,
            dimensions: DescriptorImageDescDimensions::TwoDimensional,
            format: None,
            multisampled: false,
            array_layers: DescriptorImageDescArray::NonArrayed,
        }))
    );
    assert_eq!(
        descriptor_kind_of(7, image(0)),
        Ok(DescriptorDescTy::Buffer(DescriptorBufferDesc { dynamic: None, storage: false }))
    );
    assert_eq!(
        descriptor_kind_of(8, image(0)),
        Ok(DescriptorDescTy::Buffer(DescriptorBufferDesc { dynamic: None, storage: true }))
    );
}

#[test]
fn resource_type_outside_the_table_is_an_error() {
    for code in [0, 3, 4, 5, 6, 9, 10, 11, 12, 13, 1000, u32::MAX] {
        for dim in 0..8 {
            assert_eq!(descriptor_kind_of(code, image(dim)), Err(ConvertError::UnknownType));
        }
    }
    for dim in [0, 5, 6, 7, 8, u32::MAX] {
        assert_eq!(descriptor_kind_of(2, image(dim)), Err(ConvertError::UnknownType));
        // The image attributes count for no other resource type.
        assert_eq!(descriptor_kind_of(1, image(dim)), Ok(DescriptorDescTy::Sampler));
    }
}
