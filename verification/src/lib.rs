//! Reflection of compiled shader modules: the interface variables and the resource
//! bindings that a module declares, in the shapes that a pipeline is built from.
//!
//! The library starts from what a parser of the binary format reports of a module, as
//! plain values, and translates it: format codes and resource-type codes through closed
//! tables, set and binding indices kept as they are. Every step of the translation is
//! verified against a model over sequences and maps. Calling the parser is left to the
//! program around the library.

pub mod descriptor;
pub mod error;
pub mod format;
pub mod interface;
pub mod layouts;
pub mod reflected;
pub mod reflection;

pub use crate::descriptor::{
    DescriptorBufferDesc, DescriptorDesc, DescriptorDescTy, DescriptorImageDesc,
    DescriptorImageDescArray, DescriptorImageDescDimensions, PipelineLayoutDescPcRange,
    ShaderStages,
};
pub use crate::error::{ConvertError, Error};
pub use crate::format::Format;
pub use crate::interface::{LocationRange, ShaderInterfaceDefEntry};
pub use crate::layouts::{Entry, Input, Layout, Output};
pub use crate::reflected::{ReflectedInterface, ReflectedResources};
pub use crate::reflection::{
    create_compute_entry, create_entry, create_interfaces, create_layouts, LayoutData,
    ShaderInterfaces,
};

use vstd::prelude::*;

verus! {

/// The compiled modules of the stages of a pipeline.
#[derive(Debug, Clone, PartialEq, Eq)]
pub struct CompiledShaders {
    pub vertex: Vec<u32>,
    pub fragment: Vec<u32>,
    pub compute: Vec<u32>,
}

/// One compiled module: its words.
#[derive(Debug, Clone, PartialEq, Eq)]
pub struct CompiledShader {
    pub spriv: Vec<u32>,
}

} // verus!
