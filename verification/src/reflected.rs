use vstd::prelude::*;

verus! {

/// Bit of the decoration flags that marks a variable as built in: one with a meaning that
/// the stage defines, which is no part of the declared interface.
pub const DECORATION_BUILT_IN: u32 = 16;

/// An interface variable as the module reports it.
#[derive(Debug, Clone, PartialEq, Eq)]
pub struct ReflectedVariable {
    /// Decoration flags, one bit each.
    pub decoration_flags: u32,
    /// Location slot.
    pub location: u32,
    /// Format code: 0 where the format is undefined, else the code of a format of one to
    /// four components, as the format table reads it.
    pub format: u32,
    /// Name from the debug information; empty where the module carries none.
    pub name: String,
}

/// A [`ReflectedVariable`] with its name as a sequence of characters.
pub struct ReflectedVariableView {
    pub decoration_flags: u32,
    pub location: u32,
    pub format: u32,
    pub name: Seq<char>,
}

impl View for ReflectedVariable {
    type V = ReflectedVariableView;

    open spec fn view(&self) -> ReflectedVariableView {
        ReflectedVariableView {
            decoration_flags: self.decoration_flags,
            location: self.location,
            format: self.format,
            name: self.name@,
        }
    }
}

impl ReflectedVariableView {
    /// Whether the decoration flags mark the variable as built in.
    pub open spec fn is_built_in(self) -> bool {
        self.decoration_flags & DECORATION_BUILT_IN != 0
    }
}

impl ReflectedVariable {
    /// Whether the decoration flags mark the variable as built in.
    pub fn is_built_in(&self) -> (r: bool)
        ensures
            r == self@.is_built_in(),
    {
        self.decoration_flags & DECORATION_BUILT_IN != 0
    }
}

/// The image attributes of a binding as the module reports them.
#[derive(Debug, Clone, Copy, PartialEq, Eq)]
pub struct ReflectedImage {
    /// Dimension code, as the dimension table reads it.
    pub dim: u32,
    /// Depth attribute of the image type.
    pub depth: u32,
    /// Nonzero for an arrayed image.
    pub arrayed: u32,
    /// Nonzero for a multisampled image.
    pub ms: u32,
    /// Nonzero for an image used with a sampler.
    pub sampled: u32,
}

/// One binding of a descriptor set as the module reports it.
#[derive(Debug, Clone, Copy, PartialEq, Eq)]
pub struct ReflectedBinding {
    /// Binding index within its set.
    pub binding: u32,
    /// Resource-type code, as the descriptor table reads it.
    pub descriptor_type: u32,
    /// Image attributes; meaningful for image-like resources only.
    pub image: ReflectedImage,
    /// Number of array elements.
    pub count: u32,
}

/// One descriptor set as the module reports it.
#[derive(Debug, Clone, PartialEq, Eq)]
pub struct ReflectedSet {
    /// Set index.
    pub set: u32,
    /// The bindings of the set, in the order the module reports them.
    pub bindings: Vec<ReflectedBinding>,
}

/// A [`ReflectedSet`] with its bindings as a sequence.
pub struct ReflectedSetView {
    pub set: u32,
    pub bindings: Seq<ReflectedBinding>,
}

impl View for ReflectedSet {
    type V = ReflectedSetView;

    open spec fn view(&self) -> ReflectedSetView {
        ReflectedSetView { set: self.set, bindings: self.bindings@ }
    }
}

/// One push-constant block as the module reports it.
#[derive(Debug, Clone, Copy, PartialEq, Eq)]
pub struct ReflectedBlock {
    /// Offset of the block in bytes.
    pub offset: u32,
    /// Size of the block in bytes.
    pub size: u32,
}

/// What the parser reports of the interface of a module that it accepted: the variables
/// of each direction, or the message with which it failed to list them.
#[derive(Debug, PartialEq, Eq)]
pub struct ReflectedInterface {
    pub inputs: Result<Vec<ReflectedVariable>, String>,
    pub outputs: Result<Vec<ReflectedVariable>, String>,
}

/// A [`ReflectedInterface`] over sequences.
pub struct ReflectedInterfaceView {
    pub inputs: Result<Seq<ReflectedVariableView>, Seq<char>>,
    pub outputs: Result<Seq<ReflectedVariableView>, Seq<char>>,
}

impl View for ReflectedInterface {
    type V = ReflectedInterfaceView;

    open spec fn view(&self) -> ReflectedInterfaceView {
        ReflectedInterfaceView {
            inputs: variables_view(self.inputs),
            outputs: variables_view(self.outputs),
        }
    }
}

/// What the parser reports of the resources of a module that it accepted: the descriptor
/// sets and the push-constant blocks, or the message with which it failed to list them.
#[derive(Debug, PartialEq, Eq)]
pub struct ReflectedResources {
    pub sets: Result<Vec<ReflectedSet>, String>,
    pub blocks: Result<Vec<ReflectedBlock>, String>,
}

/// [`ReflectedResources`] over sequences.
pub struct ReflectedResourcesView {
    pub sets: Result<Seq<ReflectedSetView>, Seq<char>>,
    pub blocks: Result<Seq<ReflectedBlock>, Seq<char>>,
}

impl View for ReflectedResources {
    type V = ReflectedResourcesView;

    open spec fn view(&self) -> ReflectedResourcesView {
        ReflectedResourcesView { sets: sets_view(self.sets), blocks: blocks_view(self.blocks) }
    }
}

/// Variables, or a message, as sequences.
pub open spec fn variables_view(r: Result<Vec<ReflectedVariable>, String>) -> Result<
    Seq<ReflectedVariableView>,
    Seq<char>,
> {
    match r {
        Ok(vars) => Ok(variable_views(vars@)),
        Err(message) => Err(message@),
    }
}

/// Sets, or a message, as sequences.
pub open spec fn sets_view(r: Result<Vec<ReflectedSet>, String>) -> Result<
    Seq<ReflectedSetView>,
    Seq<char>,
> {
    match r {
        Ok(sets) => Ok(set_views(sets@)),
        Err(message) => Err(message@),
    }
}

/// Blocks, or a message, as sequences.
pub open spec fn blocks_view(r: Result<Vec<ReflectedBlock>, String>) -> Result<
    Seq<ReflectedBlock>,
    Seq<char>,
> {
    match r {
        Ok(blocks) => Ok(blocks@),
        Err(message) => Err(message@),
    }
}

/// The interface of a module, or the message with which the parser refused the module,
/// over sequences.
pub open spec fn loaded_interface_view(r: Result<ReflectedInterface, String>) -> Result<
    ReflectedInterfaceView,
    Seq<char>,
> {
    match r {
        Ok(interface) => Ok(interface@),
        Err(message) => Err(message@),
    }
}

/// The resources of a module, or the message with which the parser refused the module,
/// over sequences.
pub open spec fn loaded_resources_view(r: Result<ReflectedResources, String>) -> Result<
    ReflectedResourcesView,
    Seq<char>,
> {
    match r {
        Ok(resources) => Ok(resources@),
        Err(message) => Err(message@),
    }
}

/// The views of a sequence of variables.
pub open spec fn variable_views(vars: Seq<ReflectedVariable>) -> Seq<ReflectedVariableView> {
    Seq::new(vars.len(), |i: int| vars[i]@)
}

/// The views of a sequence of sets.
pub open spec fn set_views(sets: Seq<ReflectedSet>) -> Seq<ReflectedSetView> {
    Seq::new(sets.len(), |i: int| sets[i]@)
}

} // verus!
