use vstd::prelude::*;
use crate::descriptor::{DescriptorDesc, PipelineLayoutDescPcRange, ShaderStages};
use crate::interface::{entry_views, InterfaceEntryView, ShaderInterfaceDefEntry};
use crate::reflection::{LayoutData, LayoutDataView};

verus! {

/// What reflecting one module gives: the interface of the stage, where it has one, and
/// the layout of its resources.
#[derive(Debug, Clone, PartialEq, Eq)]
pub struct Entry {
    /// The input variables; absent for a compute stage.
    pub input: Option<Input>,
    /// The output variables; absent for a compute stage.
    pub output: Option<Output>,
    /// The resources of the module.
    pub layout: Layout,
}

/// The input variables of a stage, in the order of the module.
#[derive(Debug, Clone, PartialEq, Eq)]
pub struct Input {
    pub inputs: Vec<ShaderInterfaceDefEntry>,
}

/// The output variables of a stage, in the order of the module.
#[derive(Debug, Clone, PartialEq, Eq)]
pub struct Output {
    pub outputs: Vec<ShaderInterfaceDefEntry>,
}

/// The resources of a module, to be asked by index.
#[derive(Debug, Clone, PartialEq, Eq)]
pub struct Layout {
    pub layout_data: LayoutData,
}

/// An [`Entry`] over sequences and maps.
pub struct EntryView {
    pub input: Option<Seq<InterfaceEntryView>>,
    pub output: Option<Seq<InterfaceEntryView>>,
    pub layout: LayoutDataView,
}

impl View for Input {
    type V = Seq<InterfaceEntryView>;

    open spec fn view(&self) -> Seq<InterfaceEntryView> {
        entry_views(self.inputs@)
    }
}

impl View for Output {
    type V = Seq<InterfaceEntryView>;

    open spec fn view(&self) -> Seq<InterfaceEntryView> {
        entry_views(self.outputs@)
    }
}

impl View for Layout {
    type V = LayoutDataView;

    open spec fn view(&self) -> LayoutDataView {
        self.layout_data@
    }
}

impl View for Entry {
    type V = EntryView;

    open spec fn view(&self) -> EntryView {
        EntryView {
            input: match self.input {
                Some(input) => Some(input@),
                None => None,
            },
            output: match self.output {
                Some(output) => Some(output@),
                None => None,
            },
            layout: self.layout@,
        }
    }
}

impl Default for Input {
    /// No input variable.
    fn default() -> (r: Input)
        ensures
            r@ == Seq::<InterfaceEntryView>::empty(),
    {
        let r = Input { inputs: Vec::new() };
        assert(r@ =~= Seq::<InterfaceEntryView>::empty());
        r
    }
}

impl Default for Output {
    /// No output variable.
    fn default() -> (r: Output)
        ensures
            r@ == Seq::<InterfaceEntryView>::empty(),
    {
        let r = Output { outputs: Vec::new() };
        assert(r@ =~= Seq::<InterfaceEntryView>::empty());
        r
    }
}

impl Default for Layout {
    /// The layout without any resource.
    fn default() -> (r: Layout)
        ensures
            r@ == LayoutDataView::empty(),
    {
        Layout { layout_data: LayoutData::default() }
    }
}

impl Default for Entry {
    /// No interface, and the layout without any resource.
    fn default() -> (r: Entry)
        ensures
            r@ == (EntryView { input: None, output: None, layout: LayoutDataView::empty() }),
    {
        Entry { input: None, output: None, layout: Layout::default() }
    }
}

impl LayoutDataView {
    /// The number of bindings of a set, or `None` for an index that no set has.
    pub open spec fn binding_count(self, set: usize) -> Option<nat> {
        if self.num_bindings.contains_key(set) {
            Some(self.num_bindings[set])
        } else {
            None
        }
    }

    /// The binding under a set index and a binding index, with the fragment stage as the
    /// one that accesses it; or `None` where the set or the binding is not there.
    pub open spec fn descriptor(self, set: usize, binding: usize) -> Option<DescriptorDesc> {
        if self.descriptions.contains_key(set) && self.descriptions[set].contains_key(binding) {
            Some(
                DescriptorDesc {
                    ty: self.descriptions[set][binding].ty,
                    array_count: self.descriptions[set][binding].array_count,
                    stages: ShaderStages::spec_fragment(),
                    readonly: self.descriptions[set][binding].readonly,
                },
            )
        } else {
            None
        }
    }

    /// The push-constant range at a position, for all stages; or `None` for a position
    /// behind the last range.
    pub open spec fn push_constant_range(self, num: int) -> Option<PipelineLayoutDescPcRange> {
        if 0 <= num < self.pc_ranges.len() {
            Some(
                PipelineLayoutDescPcRange {
                    offset: self.pc_ranges[num].offset,
                    size: self.pc_ranges[num].size,
                    stages: ShaderStages::spec_all(),
                },
            )
        } else {
            None
        }
    }

    /// The binding indices under which a set has a descriptor.
    pub open spec fn bound_indices(self, set: usize) -> Set<usize> {
        Set::new(|binding: usize| self.descriptor(set, binding) is Some)
    }
}

/// In a well-formed layout the number of bindings of a set is the number of binding
/// indices under which the set has a descriptor; where a set has no number of bindings,
/// it has no descriptor.
pub proof fn lemma_binding_count_counts_descriptors(layout: LayoutDataView, set: usize)
    requires
        layout.wf(),
    ensures
        match layout.binding_count(set) {
            Some(count) => layout.bound_indices(set).finite() && layout.bound_indices(set).len()
                == count,
            None => layout.bound_indices(set) == Set::<usize>::empty(),
        },
{
    if layout.num_bindings.contains_key(set) {
        assert(layout.num_bindings.dom().contains(set));
        assert(layout.descriptions.contains_key(set));
        assert(layout.bound_indices(set) =~= layout.descriptions[set].dom());
    } else {
        assert(!layout.num_bindings.dom().contains(set));
        assert(!layout.descriptions.contains_key(set));
        assert(layout.bound_indices(set) =~= Set::<usize>::empty());
    }
}

/// Copies the entries of an interface.
fn copy_entries(entries: &Vec<ShaderInterfaceDefEntry>) -> (r: Vec<ShaderInterfaceDefEntry>)
    ensures
        entry_views(r@) == entry_views(entries@),
{
    let mut copies: Vec<ShaderInterfaceDefEntry> = Vec::new();
    let mut i: usize = 0;
    while i < entries.len()
        invariant
            0 <= i <= entries.len(),
            entry_views(copies@) == entry_views(entries@.take(i as int)),
        decreases entries.len() - i,
    {
        let entry = &entries[i];
        let name = match &entry.name {
            Some(name) => Some(name.clone()),
            None => None,
        };
        let copy = ShaderInterfaceDefEntry { location: entry.location, format: entry.format, name };
        assert(copy@ == entry@);
        let ghost before = entry_views(copies@);
        copies.push(copy);
        i = i + 1;
        assert(entry_views(copies@) =~= before.push(entry@));
        assert(entry_views(entries@.take(i as int)) =~= before.push(entry@));
    }
    assert(entries@.take(i as int) =~= entries@);
    copies
}

impl Input {
    /// The input variables, in the order of the module.
    pub fn elements(&self) -> (r: Vec<ShaderInterfaceDefEntry>)
        ensures
            entry_views(r@) == self@,
    {
        copy_entries(&self.inputs)
    }
}

impl Output {
    /// The output variables, in the order of the module.
    pub fn elements(&self) -> (r: Vec<ShaderInterfaceDefEntry>)
        ensures
            entry_views(r@) == self@,
    {
        copy_entries(&self.outputs)
    }
}

impl LayoutData {
    /// The number of bindings of a set, or `None` for an index that no set has.
    pub fn num_bindings_in_set(&self, set: usize) -> (r: Option<usize>)
        ensures
            match r {
                Some(count) => self@.binding_count(set) == Some(count as nat),
                None => self@.binding_count(set) is None,
            },
    {
        match self.num_bindings.get(&set) {
            Some(count) => Some(*count),
            None => None,
        }
    }

    /// The binding under a set index and a binding index, with the fragment stage as the
    /// one that accesses it; or `None` where the set or the binding is not there.
    pub fn descriptor(&self, set: usize, binding: usize) -> (r: Option<DescriptorDesc>)
        ensures
            r == self@.descriptor(set, binding),
    {
        match self.descriptions.get(&set) {
            Some(bindings) => match bindings.get(&binding) {
                Some(desc) => Some(
                    DescriptorDesc {
                        ty: desc.ty,
                        array_count: desc.array_count,
                        stages: ShaderStages::fragment(),
                        readonly: desc.readonly,
                    },
                ),
                None => None,
            },
            None => None,
        }
    }

    /// The push-constant range at a position, for all stages; or `None` for a position
    /// behind the last range.
    pub fn push_constants_range(&self, num: usize) -> (r: Option<PipelineLayoutDescPcRange>)
        ensures
            r == self@.push_constant_range(num as int),
    {
        if num < self.pc_ranges.len() {
            let range = &self.pc_ranges[num];
            Some(
                PipelineLayoutDescPcRange {
                    offset: range.offset,
                    size: range.size,
                    stages: ShaderStages::all(),
                },
            )
        } else {
            None
        }
    }
}

impl Layout {
    /// The number of descriptor sets.
    pub fn num_sets(&self) -> (r: usize)
        ensures
            r == self@.num_sets,
    {
        self.layout_data.num_sets
    }

    /// The number of bindings of a set, or `None` for an index that no set has.
    pub fn num_bindings_in_set(&self, set: usize) -> (r: Option<usize>)
        ensures
            match r {
                Some(count) => self@.binding_count(set) == Some(count as nat),
                None => self@.binding_count(set) is None,
            },
    {
        self.layout_data.num_bindings_in_set(set)
    }

    /// The binding under a set index and a binding index, with the fragment stage as the
    /// one that accesses it; or `None` where the set or the binding is not there.
    pub fn descriptor(&self, set: usize, binding: usize) -> (r: Option<DescriptorDesc>)
        ensures
            r == self@.descriptor(set, binding),
    {
        self.layout_data.descriptor(set, binding)
    }

    /// The number of push-constant ranges.
    pub fn num_push_constants_ranges(&self) -> (r: usize)
        ensures
            r == self@.num_constants,
    {
        self.layout_data.num_constants
    }

    /// The push-constant range at a position, for all stages; or `None` for a position
    /// behind the last range.
    pub fn push_constants_range(&self, num: usize) -> (r: Option<PipelineLayoutDescPcRange>)
        ensures
            r == self@.push_constant_range(num as int),
    {
        self.layout_data.push_constants_range(num)
    }
}

} // verus!
