use vstd::prelude::*;
use std::collections::HashMap;
use crate::descriptor::{
    descriptor_kind_of, descriptor_table, is_known_descriptor, DescriptorDesc,
    PipelineLayoutDescPcRange, ShaderStages,
};
use crate::error::{ConvertError, Error, ErrorView};
use crate::interface::{
    entries_from, entry_views, interface_entries, InterfaceEntryView, ShaderInterfaceDefEntry,
};
use crate::layouts::{Entry, EntryView, Input, Layout, Output};
use crate::reflected::{
    blocks_view, loaded_interface_view, loaded_resources_view, set_views, sets_view,
    variables_view, ReflectedBinding, ReflectedBlock, ReflectedInterface,
    ReflectedInterfaceView, ReflectedResources, ReflectedResourcesView, ReflectedSet,
    ReflectedSetView, ReflectedVariable, ReflectedVariableView,
};

verus! {

/// The declared interface of a stage: its input and its output variables.
#[derive(Debug, Clone, PartialEq, Eq)]
pub struct ShaderInterfaces {
    pub inputs: Vec<ShaderInterfaceDefEntry>,
    pub outputs: Vec<ShaderInterfaceDefEntry>,
}

/// [`ShaderInterfaces`] over sequences.
pub struct ShaderInterfacesView {
    pub inputs: Seq<InterfaceEntryView>,
    pub outputs: Seq<InterfaceEntryView>,
}

impl View for ShaderInterfaces {
    type V = ShaderInterfacesView;

    open spec fn view(&self) -> ShaderInterfacesView {
        ShaderInterfacesView {
            inputs: entry_views(self.inputs@),
            outputs: entry_views(self.outputs@),
        }
    }
}

/// The resources of a module: its descriptor sets with their bindings, under the indices
/// that the module gives them, and its push-constant ranges in order.
#[derive(Debug, Clone, PartialEq, Eq)]
pub struct LayoutData {
    /// Number of descriptor sets.
    pub num_sets: usize,
    /// Number of bindings of each set, by set index.
    pub num_bindings: HashMap<usize, usize>,
    /// The bindings of each set, by set index and binding index.
    pub descriptions: HashMap<usize, HashMap<usize, DescriptorDesc>>,
    /// Number of push-constant ranges.
    pub num_constants: usize,
    /// The push-constant ranges.
    pub pc_ranges: Vec<PipelineLayoutDescPcRange>,
}

/// [`LayoutData`] over numbers, maps and sequences.
pub struct LayoutDataView {
    pub num_sets: nat,
    pub num_bindings: Map<usize, nat>,
    pub descriptions: Map<usize, Map<usize, DescriptorDesc>>,
    pub num_constants: nat,
    pub pc_ranges: Seq<PipelineLayoutDescPcRange>,
}

impl View for LayoutData {
    type V = LayoutDataView;

    open spec fn view(&self) -> LayoutDataView {
        LayoutDataView {
            num_sets: self.num_sets as nat,
            num_bindings: self.num_bindings@.map_values(|n: usize| n as nat),
            descriptions: self.descriptions@.map_values(|m: HashMap<usize, DescriptorDesc>| m@),
            num_constants: self.num_constants as nat,
            pc_ranges: self.pc_ranges@,
        }
    }
}

impl Default for LayoutData {
    /// The layout without any resource.
    fn default() -> (r: LayoutData)
        ensures
            r@ == LayoutDataView::empty(),
            r@.wf(),
    {
        let r = LayoutData {
            num_sets: 0,
            num_bindings: HashMap::new(),
            descriptions: HashMap::new(),
            num_constants: 0,
            pc_ranges: Vec::new(),
        };
        assert(r@.descriptions =~= Map::empty());
        assert(r@.num_bindings =~= Map::empty());
        assert(r@.num_bindings.dom() =~= r@.descriptions.dom());
        r
    }
}

impl LayoutDataView {
    /// The layout without any resource.
    pub open spec fn empty() -> LayoutDataView {
        LayoutDataView {
            num_sets: 0,
            num_bindings: Map::empty(),
            descriptions: Map::empty(),
            num_constants: 0,
            pc_ranges: Seq::empty(),
        }
    }

    /// The counts agree with what is counted: exactly the sets that have a number of
    /// bindings have a map of bindings, the number of bindings of each set is the number
    /// of keys of its map, and the number of push-constant ranges is the length of their
    /// list.
    pub open spec fn wf(self) -> bool {
        &&& self.num_bindings.dom() == self.descriptions.dom()
        &&& forall|s: usize| #[trigger]
            self.descriptions.contains_key(s) ==> self.descriptions[s].dom().finite()
                && self.num_bindings[s] == self.descriptions[s].dom().len()
        &&& self.num_constants == self.pc_ranges.len()
    }
}

/// The description of a binding: the kind that its resource type stands for, its
/// element count, the fragment stage as the one that accesses it, and read only.
pub open spec fn descriptor_of(b: ReflectedBinding) -> Result<DescriptorDesc, ConvertError> {
    match descriptor_table(b.descriptor_type, b.image) {
        Ok(ty) => Ok(
            DescriptorDesc {
                ty,
                array_count: b.count,
                stages: ShaderStages::spec_fragment(),
                readonly: true,
            },
        ),
        Err(e) => Err(e),
    }
}

/// The bindings of one set by binding index, where a later binding replaces an earlier
/// one with its index; or the error of the first binding with an unknown resource type.
pub open spec fn set_descriptions(bindings: Seq<ReflectedBinding>) -> Result<
    Map<usize, DescriptorDesc>,
    ConvertError,
>
    decreases bindings.len(),
{
    if bindings.len() == 0 {
        Ok(Map::empty())
    } else {
        match set_descriptions(bindings.drop_last()) {
            Err(e) => Err(e),
            Ok(map) => match descriptor_of(bindings.last()) {
                Ok(desc) => Ok(map.insert(bindings.last().binding as usize, desc)),
                Err(e) => Err(e),
            },
        }
    }
}

/// The bindings of all sets by set index, where a later set replaces an earlier one
/// with its index; or the error of the first binding with an unknown resource type.
pub open spec fn all_descriptions(sets: Seq<ReflectedSetView>) -> Result<
    Map<usize, Map<usize, DescriptorDesc>>,
    ConvertError,
>
    decreases sets.len(),
{
    if sets.len() == 0 {
        Ok(Map::empty())
    } else {
        match all_descriptions(sets.drop_last()) {
            Err(e) => Err(e),
            Ok(map) => match set_descriptions(sets.last().bindings) {
                Ok(set) => Ok(map.insert(sets.last().set as usize, set)),
                Err(e) => Err(e),
            },
        }
    }
}

/// The number of bindings of each set, by set index: the number of binding indices under
/// which the set has a binding.
pub open spec fn binding_counts(descriptions: Map<usize, Map<usize, DescriptorDesc>>) -> Map<
    usize,
    nat,
> {
    descriptions.map_values(|set: Map<usize, DescriptorDesc>| set.dom().len())
}

/// The range of a push-constant block: its offset and size, for all stages.
pub open spec fn range_of(block: ReflectedBlock) -> PipelineLayoutDescPcRange {
    PipelineLayoutDescPcRange {
        offset: block.offset as usize,
        size: block.size as usize,
        stages: ShaderStages::spec_all(),
    }
}

/// The ranges of the push-constant blocks, in their order.
pub open spec fn push_constant_ranges(blocks: Seq<ReflectedBlock>) -> Seq<
    PipelineLayoutDescPcRange,
> {
    Seq::new(blocks.len(), |i: int| range_of(blocks[i]))
}

/// An error among the bindings of the first sets is the error of the whole.
pub proof fn lemma_set_error_stays(bindings: Seq<ReflectedBinding>, k: int)
    requires
        0 <= k <= bindings.len(),
        set_descriptions(bindings.take(k)) is Err,
    ensures
        set_descriptions(bindings) == set_descriptions(bindings.take(k)),
    decreases bindings.len() - k,
{
    if k == bindings.len() {
        assert(bindings.take(k) =~= bindings);
    } else {
        assert(bindings.take(k + 1).drop_last() =~= bindings.take(k));
        lemma_set_error_stays(bindings, k + 1);
    }
}

/// An error among the first sets is the error of the whole.
pub proof fn lemma_sets_error_stays(sets: Seq<ReflectedSetView>, k: int)
    requires
        0 <= k <= sets.len(),
        all_descriptions(sets.take(k)) is Err,
    ensures
        all_descriptions(sets) == all_descriptions(sets.take(k)),
    decreases sets.len() - k,
{
    if k == sets.len() {
        assert(sets.take(k) =~= sets);
    } else {
        assert(sets.take(k + 1).drop_last() =~= sets.take(k));
        lemma_sets_error_stays(sets, k + 1);
    }
}

/// The only error of the map of a set is that of an unknown resource type.
pub proof fn lemma_set_error(bindings: Seq<ReflectedBinding>)
    ensures
        set_descriptions(bindings) matches Err(e) ==> e == ConvertError::UnknownType,
    decreases bindings.len(),
{
    if bindings.len() > 0 {
        lemma_set_error(bindings.drop_last());
    }
}

/// The only error of the maps of all sets is that of an unknown resource type.
pub proof fn lemma_sets_error(sets: Seq<ReflectedSetView>)
    ensures
        all_descriptions(sets) matches Err(e) ==> e == ConvertError::UnknownType,
    decreases sets.len(),
{
    if sets.len() > 0 {
        lemma_sets_error(sets.drop_last());
        lemma_set_error(sets.last().bindings);
    }
}

/// An unknown resource type fails the set that has a binding of it.
pub proof fn lemma_unknown_type_fails_set(bindings: Seq<ReflectedBinding>, j: int)
    requires
        0 <= j < bindings.len(),
        !is_known_descriptor(bindings[j].descriptor_type, bindings[j].image),
    ensures
        set_descriptions(bindings) == Err::<Map<usize, DescriptorDesc>, ConvertError>(
            ConvertError::UnknownType,
        ),
    decreases bindings.len(),
{
    lemma_set_error(bindings);
    if j < bindings.len() - 1 {
        assert(bindings.drop_last()[j] == bindings[j]);
        lemma_unknown_type_fails_set(bindings.drop_last(), j);
    }
}

/// An unknown resource type is never passed over and never given a kind: where a
/// binding of any set has one, there is no layout but an error.
pub proof fn lemma_unknown_type_fails(
    sets: Seq<ReflectedSetView>,
    blocks: Result<Seq<ReflectedBlock>, Seq<char>>,
    i: int,
    j: int,
)
    requires
        0 <= i < sets.len(),
        0 <= j < sets[i].bindings.len(),
        !is_known_descriptor(sets[i].bindings[j].descriptor_type, sets[i].bindings[j].image),
    ensures
        all_descriptions(sets) == Err::<Map<usize, Map<usize, DescriptorDesc>>, ConvertError>(
            ConvertError::UnknownType,
        ),
        layout_from(Ok(sets), blocks) == Err::<LayoutDataView, ErrorView>(
            ErrorView::Layout(ConvertError::UnknownType),
        ),
    decreases sets.len(),
{
    lemma_sets_error(sets);
    if i < sets.len() - 1 {
        assert(sets.drop_last()[i] == sets[i]);
        lemma_unknown_type_fails(sets.drop_last(), blocks, i, j);
    } else {
        lemma_unknown_type_fails_set(sets[i].bindings, j);
    }
}

/// No two bindings of the set have the same index.
pub open spec fn bindings_distinct(bindings: Seq<ReflectedBinding>) -> bool {
    forall|i: int, j: int|
        0 <= i < j < bindings.len() ==> (#[trigger] bindings[i]).binding != (
        #[trigger] bindings[j]).binding
}

/// The map of a set has the indices of its bindings as keys.
pub proof fn lemma_set_keys(bindings: Seq<ReflectedBinding>)
    requires
        set_descriptions(bindings) is Ok,
    ensures
        set_descriptions(bindings)->Ok_0.dom().finite(),
        forall|k: usize|
            set_descriptions(bindings)->Ok_0.contains_key(k) <==> exists|i: int|
                0 <= i < bindings.len() && (#[trigger] bindings[i]).binding as usize == k,
    decreases bindings.len(),
{
    if bindings.len() > 0 {
        let rest = bindings.drop_last();
        lemma_set_keys(rest);
        let before = set_descriptions(rest)->Ok_0;
        let after = set_descriptions(bindings)->Ok_0;
        let last = bindings.last();
        assert(after.dom() =~= before.dom().insert(last.binding as usize));
        assert forall|k: usize| after.contains_key(k) implies exists|i: int|
            0 <= i < bindings.len() && (#[trigger] bindings[i]).binding as usize == k by {
            if k == last.binding as usize {
                assert(bindings[bindings.len() - 1].binding as usize == k);
            } else {
                let i = choose|i: int|
                    0 <= i < rest.len() && (#[trigger] rest[i]).binding as usize == k;
                assert(bindings[i].binding as usize == k);
            }
        }
        assert forall|k: usize|
            (exists|i: int|
                0 <= i < bindings.len() && (#[trigger] bindings[i]).binding as usize
                    == k) implies after.contains_key(k) by {
            let i = choose|i: int|
                0 <= i < bindings.len() && (#[trigger] bindings[i]).binding as usize == k;
            if i < rest.len() {
                assert(rest[i].binding as usize == k);
            }
        }
    }
}

/// Where no two bindings of a set have the same index, its map has as many keys as the
/// set has bindings.
pub proof fn lemma_set_count(bindings: Seq<ReflectedBinding>)
    requires
        set_descriptions(bindings) is Ok,
        bindings_distinct(bindings),
    ensures
        set_descriptions(bindings)->Ok_0.dom().finite(),
        set_descriptions(bindings)->Ok_0.dom().len() == bindings.len(),
    decreases bindings.len(),
{
    if bindings.len() > 0 {
        let rest = bindings.drop_last();
        assert(bindings_distinct(rest)) by {
            assert forall|i: int, j: int| 0 <= i < j < rest.len() implies (#[trigger] rest[i]).binding
                != (#[trigger] rest[j]).binding by {
                assert(bindings[i].binding != bindings[j].binding);
            }
        }
        lemma_set_count(rest);
        lemma_set_keys(rest);
        let before = set_descriptions(rest)->Ok_0;
        let after = set_descriptions(bindings)->Ok_0;
        let last = bindings.last();
        assert(after.dom() =~= before.dom().insert(last.binding as usize));
        if before.contains_key(last.binding as usize) {
            let i = choose|i: int|
                0 <= i < rest.len() && (#[trigger] rest[i]).binding as usize
                    == last.binding as usize;
            assert(bindings[i].binding != bindings[bindings.len() - 1].binding);
        }
    } else {
        assert(set_descriptions(bindings)->Ok_0.dom() =~= Set::<usize>::empty());
    }
}

/// Every set has finitely many bindings.
pub proof fn lemma_sets_finite(sets: Seq<ReflectedSetView>)
    requires
        all_descriptions(sets) is Ok,
    ensures
        forall|s: usize| #[trigger]
            all_descriptions(sets)->Ok_0.contains_key(s) ==> all_descriptions(
                sets,
            )->Ok_0[s].dom().finite(),
    decreases sets.len(),
{
    if sets.len() > 0 {
        lemma_sets_finite(sets.drop_last());
        lemma_set_keys(sets.last().bindings);
    }
}

/// No two sets have the same index.
pub open spec fn sets_distinct(sets: Seq<ReflectedSetView>) -> bool {
    forall|i: int, j: int|
        0 <= i < j < sets.len() ==> (#[trigger] sets[i]).set != (#[trigger] sets[j]).set
}

/// Indices are kept, not counted anew: where no two bindings of a set have the same
/// index, each binding is found under its own index.
pub proof fn lemma_binding_is_kept(bindings: Seq<ReflectedBinding>, i: int)
    requires
        set_descriptions(bindings) is Ok,
        bindings_distinct(bindings),
        0 <= i < bindings.len(),
    ensures
        set_descriptions(bindings)->Ok_0.contains_key(bindings[i].binding as usize),
        descriptor_of(bindings[i]) == Ok::<DescriptorDesc, ConvertError>(
            set_descriptions(bindings)->Ok_0[bindings[i].binding as usize],
        ),
    decreases bindings.len(),
{
    let rest = bindings.drop_last();
    if i < bindings.len() - 1 {
        assert(bindings_distinct(rest)) by {
            assert forall|a: int, b: int| 0 <= a < b < rest.len() implies (#[trigger] rest[a]).binding
                != (#[trigger] rest[b]).binding by {
                assert(bindings[a].binding != bindings[b].binding);
            }
        }
        lemma_binding_is_kept(rest, i);
        assert(rest[i] == bindings[i]);
        assert(bindings[i].binding != bindings[bindings.len() - 1].binding);
    }
}

/// Indices are kept, not counted anew: where no two sets have the same index, each set
/// is found under its own index, with the map of its bindings.
pub proof fn lemma_set_is_kept(sets: Seq<ReflectedSetView>, i: int)
    requires
        all_descriptions(sets) is Ok,
        sets_distinct(sets),
        0 <= i < sets.len(),
    ensures
        all_descriptions(sets)->Ok_0.contains_key(sets[i].set as usize),
        set_descriptions(sets[i].bindings) == Ok::<Map<usize, DescriptorDesc>, ConvertError>(
            all_descriptions(sets)->Ok_0[sets[i].set as usize],
        ),
    decreases sets.len(),
{
    let rest = sets.drop_last();
    if i < sets.len() - 1 {
        assert(sets_distinct(rest)) by {
            assert forall|a: int, b: int| 0 <= a < b < rest.len() implies (#[trigger] rest[a]).set
                != (#[trigger] rest[b]).set by {
                assert(sets[a].set != sets[b].set);
            }
        }
        lemma_set_is_kept(rest, i);
        assert(rest[i] == sets[i]);
        assert(sets[i].set != sets[sets.len() - 1].set);
    }
}

/// Every layout made from what the parser reports is well formed.
pub proof fn lemma_layout_wf(
    sets: Result<Seq<ReflectedSetView>, Seq<char>>,
    blocks: Result<Seq<ReflectedBlock>, Seq<char>>,
)
    requires
        layout_from(sets, blocks) is Ok,
    ensures
        layout_from(sets, blocks)->Ok_0.wf(),
{
    lemma_sets_finite(sets->Ok_0);
    let layout = layout_from(sets, blocks)->Ok_0;
    assert(layout.num_bindings.dom() =~= layout.descriptions.dom());
}

/// The layout that the reflected sets and blocks give. A message in place of the sets,
/// an unknown resource type, and a message in place of the blocks each fail the whole,
/// the first of them in this order.
pub open spec fn layout_from(
    sets: Result<Seq<ReflectedSetView>, Seq<char>>,
    blocks: Result<Seq<ReflectedBlock>, Seq<char>>,
) -> Result<LayoutDataView, ErrorView> {
    match sets {
        Err(message) => Err(ErrorView::LoadingData(message)),
        Ok(sets) => match all_descriptions(sets) {
            Err(e) => Err(ErrorView::Layout(e)),
            Ok(descriptions) => match blocks {
                Err(message) => Err(ErrorView::LoadingData(message)),
                Ok(blocks) => Ok(
                    LayoutDataView {
                        num_sets: sets.len(),
                        num_bindings: binding_counts(descriptions),
                        descriptions,
                        num_constants: blocks.len(),
                        pc_ranges: push_constant_ranges(blocks),
                    },
                ),
            },
        },
    }
}

/// The interface that the reflected variables give. A message in place of the inputs,
/// an unknown format among the inputs, a message in place of the outputs, and an
/// unknown format among the outputs each fail the whole, the first of them in this order.
pub open spec fn interfaces_from(
    inputs: Result<Seq<ReflectedVariableView>, Seq<char>>,
    outputs: Result<Seq<ReflectedVariableView>, Seq<char>>,
) -> Result<ShaderInterfacesView, ErrorView> {
    match direction_from(inputs) {
        Err(e) => Err(e),
        Ok(inputs) => match direction_from(outputs) {
            Err(e) => Err(e),
            Ok(outputs) => Ok(ShaderInterfacesView { inputs, outputs }),
        },
    }
}

/// The entries that the reflected variables of one direction give.
pub open spec fn direction_from(vars: Result<Seq<ReflectedVariableView>, Seq<char>>) -> Result<
    Seq<InterfaceEntryView>,
    ErrorView,
> {
    match vars {
        Err(message) => Err(ErrorView::LoadingData(message)),
        Ok(vars) => match interface_entries(vars) {
            Err(e) => Err(ErrorView::Layout(e)),
            Ok(entries) => Ok(entries),
        },
    }
}

/// An interface, or an error, over sequences.
pub open spec fn interfaces_view(r: Result<ShaderInterfaces, Error>) -> Result<
    ShaderInterfacesView,
    ErrorView,
> {
    match r {
        Ok(interfaces) => Ok(interfaces@),
        Err(e) => Err(e@),
    }
}

/// A layout, or an error, over maps and sequences.
pub open spec fn layout_view(r: Result<LayoutData, Error>) -> Result<LayoutDataView, ErrorView> {
    match r {
        Ok(layout) => Ok(layout@),
        Err(e) => Err(e@),
    }
}

/// The interface of a module: the message with which the parser refused the module as
/// the error, else what the variables give that the parser reports.
pub open spec fn interfaces_of(loaded: Result<ReflectedInterfaceView, Seq<char>>) -> Result<
    ShaderInterfacesView,
    ErrorView,
> {
    match loaded {
        Err(message) => Err(ErrorView::LoadingData(message)),
        Ok(interface) => interfaces_from(interface.inputs, interface.outputs),
    }
}

/// The layout of a module: the message with which the parser refused the module as the
/// error, else what the sets and blocks give that the parser reports.
pub open spec fn layout_of(loaded: Result<ReflectedResourcesView, Seq<char>>) -> Result<
    LayoutDataView,
    ErrorView,
> {
    match loaded {
        Err(message) => Err(ErrorView::LoadingData(message)),
        Ok(resources) => layout_from(resources.sets, resources.blocks),
    }
}

/// An entry, or an error, over sequences and maps.
pub open spec fn entry_view(r: Result<Entry, Error>) -> Result<EntryView, ErrorView> {
    match r {
        Ok(entry) => Ok(entry@),
        Err(e) => Err(e@),
    }
}

/// The entry of a graphics stage that an interface and a layout give, or the error of the
/// interface, or else that of the layout.
pub open spec fn graphics_entry_of(
    interfaces: Result<ShaderInterfacesView, ErrorView>,
    layout: Result<LayoutDataView, ErrorView>,
) -> Result<EntryView, ErrorView> {
    match interfaces {
        Err(e) => Err(e),
        Ok(interfaces) => match layout {
            Err(e) => Err(e),
            Ok(layout) => Ok(
                EntryView {
                    input: Some(interfaces.inputs),
                    output: Some(interfaces.outputs),
                    layout,
                },
            ),
        },
    }
}

/// The entry of a compute stage that a layout gives: no interface beside it.
pub open spec fn compute_entry_of(layout: Result<LayoutDataView, ErrorView>) -> Result<
    EntryView,
    ErrorView,
> {
    match layout {
        Err(e) => Err(e),
        Ok(layout) => Ok(EntryView { input: None, output: None, layout }),
    }
}

/// Reflecting is a function of what the parser reports: the same reports give the same
/// entry or the same error, whenever and wherever they are translated.
pub proof fn lemma_reflection_is_deterministic(
    first_interface: Result<ReflectedInterfaceView, Seq<char>>,
    first_resources: Result<ReflectedResourcesView, Seq<char>>,
    second_interface: Result<ReflectedInterfaceView, Seq<char>>,
    second_resources: Result<ReflectedResourcesView, Seq<char>>,
)
    requires
        first_interface == second_interface,
        first_resources == second_resources,
    ensures
        graphics_entry_of(interfaces_of(first_interface), layout_of(first_resources))
            == graphics_entry_of(interfaces_of(second_interface), layout_of(second_resources)),
        compute_entry_of(layout_of(first_resources)) == compute_entry_of(
            layout_of(second_resources),
        ),
{
}

/// Makes the description of a binding.
pub fn descriptor_from(b: &ReflectedBinding) -> (r: Result<DescriptorDesc, ConvertError>)
    ensures
        r == descriptor_of(*b),
{
    match descriptor_kind_of(b.descriptor_type, b.image) {
        Ok(ty) => Ok(
            DescriptorDesc {
                ty,
                array_count: b.count,
                stages: ShaderStages::fragment(),
                readonly: true,
            },
        ),
        Err(e) => Err(e),
    }
}

/// Makes the map of the bindings of one set.
fn set_from(bindings: &Vec<ReflectedBinding>) -> (r: Result<
    HashMap<usize, DescriptorDesc>,
    ConvertError,
>)
    ensures
        match r {
            Ok(map) => set_descriptions(bindings@) == Ok::<Map<usize, DescriptorDesc>, ConvertError>(
                map@,
            ),
            Err(e) => set_descriptions(bindings@) == Err::<Map<usize, DescriptorDesc>, ConvertError>(
                e,
            ),
        },
{
    let mut map: HashMap<usize, DescriptorDesc> = HashMap::new();
    let mut i: usize = 0;
    assert(bindings@.take(0) =~= Seq::empty());
    while i < bindings.len()
        invariant
            0 <= i <= bindings.len(),
            set_descriptions(bindings@.take(i as int)) == Ok::<
                Map<usize, DescriptorDesc>,
                ConvertError,
            >(map@),
        decreases bindings.len() - i,
    {
        let b = &bindings[i];
        proof {
            assert(bindings@.take(i + 1).drop_last() =~= bindings@.take(i as int));
            assert(bindings@.take(i + 1).last() == *b);
        }
        match descriptor_from(b) {
            Ok(desc) => {
                map.insert(b.binding as usize, desc);
            },
            Err(e) => {
                proof {
                    lemma_set_error_stays(bindings@, i + 1);
                }
                return Err(e);
            },
        }
        i = i + 1;
    }
    assert(bindings@.take(i as int) =~= bindings@);
    Ok(map)
}

/// Makes the ranges of the push-constant blocks.
fn ranges_from(blocks: &Vec<ReflectedBlock>) -> (r: Vec<PipelineLayoutDescPcRange>)
    ensures
        r@ == push_constant_ranges(blocks@),
{
    let mut ranges: Vec<PipelineLayoutDescPcRange> = Vec::new();
    let mut i: usize = 0;
    while i < blocks.len()
        invariant
            0 <= i <= blocks.len(),
            ranges@ == push_constant_ranges(blocks@.take(i as int)),
        decreases blocks.len() - i,
    {
        let block = &blocks[i];
        ranges.push(
            PipelineLayoutDescPcRange {
                offset: block.offset as usize,
                size: block.size as usize,
                stages: ShaderStages::all(),
            },
        );
        i = i + 1;
        assert(ranges@ =~= push_constant_ranges(blocks@.take(i as int)));
    }
    assert(blocks@.take(i as int) =~= blocks@);
    ranges
}

/// Assembles the layout from what the parser reported as the descriptor sets and the
/// push-constant blocks of a module, or as its failure to report them.
pub fn layout_from_reflection(
    sets: Result<Vec<ReflectedSet>, String>,
    blocks: Result<Vec<ReflectedBlock>, String>,
) -> (r: Result<LayoutData, Error>)
    ensures
        layout_view(r) == layout_from(sets_view(sets), blocks_view(blocks)),
        r matches Ok(layout) ==> layout@.wf(),
{
    let ghost wanted = layout_from(sets_view(sets), blocks_view(blocks));
    let listed = match sets {
        Ok(listed) => listed,
        Err(message) => {
            return Err(Error::LoadingData(message));
        },
    };
    let ghost views = set_views(listed@);
    let mut num_bindings: HashMap<usize, usize> = HashMap::new();
    let mut descriptions: HashMap<usize, HashMap<usize, DescriptorDesc>> = HashMap::new();
    let mut i: usize = 0;
    assert(views.take(0) =~= Seq::empty());
    assert(descriptions@.map_values(|m: HashMap<usize, DescriptorDesc>| m@) =~= Map::empty());
    assert(num_bindings@.map_values(|n: usize| n as nat) =~= binding_counts(Map::empty()));
    while i < listed.len()
        invariant
            0 <= i <= listed.len(),
            views == set_views(listed@),
            wanted == layout_from(
                Ok::<Seq<ReflectedSetView>, Seq<char>>(views),
                blocks_view(blocks),
            ),
            wanted == layout_from(sets_view(sets), blocks_view(blocks)),
            num_bindings@.map_values(|n: usize| n as nat) == binding_counts(
                descriptions@.map_values(|m: HashMap<usize, DescriptorDesc>| m@),
            ),
            all_descriptions(views.take(i as int)) == Ok::<
                Map<usize, Map<usize, DescriptorDesc>>,
                ConvertError,
            >(descriptions@.map_values(|m: HashMap<usize, DescriptorDesc>| m@)),
        decreases listed.len() - i,
    {
        let set = &listed[i];
        proof {
            assert(views.take(i + 1).drop_last() =~= views.take(i as int));
            assert(views.take(i + 1).last() == set@);
        }
        match set_from(&set.bindings) {
            Ok(map) => {
                let ghost before = descriptions@.map_values(
                    |m: HashMap<usize, DescriptorDesc>| m@,
                );
                let ghost counted = num_bindings@.map_values(|n: usize| n as nat);
                let ghost inner = map@;
                let count = map.len();
                assert(count as nat == inner.dom().len());
                num_bindings.insert(set.set as usize, count);
                descriptions.insert(set.set as usize, map);
                assert(descriptions@.map_values(|m: HashMap<usize, DescriptorDesc>| m@)
                    =~= before.insert(set.set as usize, inner));
                assert(num_bindings@.map_values(|n: usize| n as nat) =~= counted.insert(
                    set.set as usize,
                    inner.dom().len(),
                ));
                assert(binding_counts(before.insert(set.set as usize, inner))
                    =~= counted.insert(set.set as usize, inner.dom().len()));
            },
            Err(e) => {
                proof {
                    assert(all_descriptions(views.take(i + 1)) == Err::<
                        Map<usize, Map<usize, DescriptorDesc>>,
                        ConvertError,
                    >(e));
                    lemma_sets_error_stays(views, i + 1);
                }
                return Err(Error::Layout(e));
            },
        }
        i = i + 1;
    }
    assert(views.take(i as int) =~= views);
    let blocks = match blocks {
        Ok(blocks) => blocks,
        Err(message) => {
            return Err(Error::LoadingData(message));
        },
    };
    let pc_ranges = ranges_from(&blocks);
    let num_constants = blocks.len();
    proof {
        lemma_layout_wf(Ok(views), Ok(blocks@));
    }
    Ok(
        LayoutData {
            num_sets: listed.len(),
            num_bindings,
            descriptions,
            num_constants,
            pc_ranges,
        },
    )
}

/// Assembles the interface from what the parser reported as the input and the output
/// variables of a module, or as its failure to report them.
pub fn interfaces_from_reflection(
    inputs: Result<Vec<ReflectedVariable>, String>,
    outputs: Result<Vec<ReflectedVariable>, String>,
) -> (r: Result<ShaderInterfaces, Error>)
    ensures
        interfaces_view(r) == interfaces_from(variables_view(inputs), variables_view(outputs)),
{
    let inputs = match inputs {
        Ok(vars) => match entries_from(&vars) {
            Ok(entries) => entries,
            Err(e) => {
                return Err(Error::Layout(e));
            },
        },
        Err(message) => {
            return Err(Error::LoadingData(message));
        },
    };
    let outputs = match outputs {
        Ok(vars) => match entries_from(&vars) {
            Ok(entries) => entries,
            Err(e) => {
                return Err(Error::Layout(e));
            },
        },
        Err(message) => {
            return Err(Error::LoadingData(message));
        },
    };
    Ok(ShaderInterfaces { inputs, outputs })
}

/// Reflects the declared interface of a module from what the parser made of it: the
/// message with which it refused the module, or what it reports of the interface.
pub fn create_interfaces(loaded: Result<ReflectedInterface, String>) -> (r: Result<
    ShaderInterfaces,
    Error,
>)
    ensures
        interfaces_view(r) == interfaces_of(loaded_interface_view(loaded)),
{
    match loaded {
        Ok(interface) => interfaces_from_reflection(interface.inputs, interface.outputs),
        Err(message) => Err(Error::LoadingData(message)),
    }
}

/// Reflects the resources of a module from what the parser made of it: the message with
/// which it refused the module, or what it reports of the resources.
pub fn create_layouts(loaded: Result<ReflectedResources, String>) -> (r: Result<LayoutData, Error>)
    ensures
        layout_view(r) == layout_of(loaded_resources_view(loaded)),
        r matches Ok(layout) ==> layout@.wf(),
{
    match loaded {
        Ok(resources) => layout_from_reflection(resources.sets, resources.blocks),
        Err(message) => Err(Error::LoadingData(message)),
    }
}

/// Reflects the module of a graphics stage from what the parser made of it: its
/// interface, which is there even where it is empty, and its layout; or the error of the
/// interface, or else that of the layout.
pub fn create_entry(
    interface: Result<ReflectedInterface, String>,
    resources: Result<ReflectedResources, String>,
) -> (r: Result<Entry, Error>)
    ensures
        entry_view(r) == graphics_entry_of(
            interfaces_of(loaded_interface_view(interface)),
            layout_of(loaded_resources_view(resources)),
        ),
        r matches Ok(entry) ==> entry.input is Some && entry.output is Some
            && entry.layout@.wf(),
{
    let interfaces = match create_interfaces(interface) {
        Ok(interfaces) => interfaces,
        Err(e) => {
            return Err(e);
        },
    };
    let layout_data = match create_layouts(resources) {
        Ok(layout_data) => layout_data,
        Err(e) => {
            return Err(e);
        },
    };
    Ok(
        Entry {
            input: Some(Input { inputs: interfaces.inputs }),
            output: Some(Output { outputs: interfaces.outputs }),
            layout: Layout { layout_data },
        },
    )
}

/// Reflects the module of a compute stage from what the parser made of it: its layout,
/// and no interface.
pub fn create_compute_entry(resources: Result<ReflectedResources, String>) -> (r: Result<
    Entry,
    Error,
>)
    ensures
        entry_view(r) == compute_entry_of(layout_of(loaded_resources_view(resources))),
        r matches Ok(entry) ==> entry.input is None && entry.output is None
            && entry.layout@.wf(),
{
    match create_layouts(resources) {
        Ok(layout_data) => Ok(Entry { input: None, output: None, layout: Layout { layout_data } }),
        Err(e) => Err(e),
    }
}

} // verus!
