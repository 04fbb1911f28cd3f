use vstd::prelude::*;
use crate::error::ConvertError;
use crate::format::{format_of, format_table, is_known_format, Format};
use crate::reflected::{ReflectedVariable, ReflectedVariableView};

verus! {

/// A half-open range of location slots. Locations have 32 bits; the range has 64, so that
/// the slot behind the last location has a number.
#[derive(Debug, Clone, Copy, PartialEq, Eq)]
pub struct LocationRange {
    /// First slot of the range.
    pub start: u64,
    /// The slot behind the last one of the range.
    pub end: u64,
}

/// One variable of the interface of a stage.
#[derive(Debug, Clone, PartialEq, Eq)]
pub struct ShaderInterfaceDefEntry {
    /// The location slots that the variable takes.
    pub location: LocationRange,
    /// Format of the variable.
    pub format: Format,
    /// Name of the variable, where the module carries one.
    pub name: Option<String>,
}

/// A [`ShaderInterfaceDefEntry`] over integers and sequences.
pub struct InterfaceEntryView {
    /// First location slot.
    pub start: int,
    /// The slot behind the last one.
    pub end: int,
    pub format: Format,
    pub name: Option<Seq<char>>,
}

impl View for ShaderInterfaceDefEntry {
    type V = InterfaceEntryView;

    open spec fn view(&self) -> InterfaceEntryView {
        InterfaceEntryView {
            start: self.location.start as int,
            end: self.location.end as int,
            format: self.format,
            name: match self.name {
                Some(name) => Some(name@),
                None => None,
            },
        }
    }
}

/// The views of a sequence of entries.
pub open spec fn entry_views(entries: Seq<ShaderInterfaceDefEntry>) -> Seq<InterfaceEntryView> {
    Seq::new(entries.len(), |i: int| entries[i]@)
}

/// The entry for a declared variable: one slot at its location, the translation of its
/// format code, and its name unless that is empty. No entry for an unknown format code.
pub open spec fn entry_of(v: ReflectedVariableView) -> Result<InterfaceEntryView, ConvertError> {
    match format_table(v.format) {
        Ok(format) => Ok(
            InterfaceEntryView {
                start: v.location as int,
                end: v.location + 1,
                format,
                name: if v.name.len() == 0 {
                    None
                } else {
                    Some(v.name)
                },
            },
        ),
        Err(e) => Err(e),
    }
}

/// The variables that are part of the declared interface: those that are not built in.
pub open spec fn declared(vars: Seq<ReflectedVariableView>) -> Seq<ReflectedVariableView> {
    vars.filter(|v: ReflectedVariableView| !v.is_built_in())
}

/// The entries for the variables of one direction: one for each variable that is not
/// built in, in the order of the variables. Where a format code is unknown there are no
/// entries at all, and the error is that of the first such variable.
pub open spec fn interface_entries(vars: Seq<ReflectedVariableView>) -> Result<
    Seq<InterfaceEntryView>,
    ConvertError,
>
    decreases vars.len(),
{
    if vars.len() == 0 {
        Ok(Seq::empty())
    } else {
        match interface_entries(vars.drop_last()) {
            Err(e) => Err(e),
            Ok(entries) => if vars.last().is_built_in() {
                Ok(entries)
            } else {
                match entry_of(vars.last()) {
                    Ok(entry) => Ok(entries.push(entry)),
                    Err(e) => Err(e),
                }
            },
        }
    }
}

/// An error among the first variables is the error of the whole sequence.
pub proof fn lemma_entries_error_stays(vars: Seq<ReflectedVariableView>, k: int)
    requires
        0 <= k <= vars.len(),
        interface_entries(vars.take(k)) is Err,
    ensures
        interface_entries(vars) == interface_entries(vars.take(k)),
    decreases vars.len() - k,
{
    if k == vars.len() {
        assert(vars.take(k) =~= vars);
    } else {
        assert(vars.take(k + 1).drop_last() =~= vars.take(k));
        lemma_entries_error_stays(vars, k + 1);
    }
}

/// Built-in variables never show among the entries: the entries are the translations
/// of the variables that are not built in, one for each and in their order.
pub proof fn lemma_entries_are_declared(vars: Seq<ReflectedVariableView>)
    requires
        interface_entries(vars) is Ok,
    ensures
        interface_entries(vars)->Ok_0.len() == declared(vars).len(),
        forall|i: int|
            0 <= i < declared(vars).len() ==> !(#[trigger] declared(vars)[i]).is_built_in()
                && entry_of(declared(vars)[i]) == Ok::<InterfaceEntryView, ConvertError>(
                interface_entries(vars)->Ok_0[i],
            ),
    decreases vars.len(),
{
    reveal(Seq::filter);
    if vars.len() > 0 {
        lemma_entries_are_declared(vars.drop_last());
    }
}

/// Every variable among the entries is a declared one: each entry is the translation of
/// a variable of the module that is not built in.
pub proof fn lemma_entry_has_source(vars: Seq<ReflectedVariableView>, i: int)
    requires
        interface_entries(vars) is Ok,
        0 <= i < interface_entries(vars)->Ok_0.len(),
    ensures
        exists|j: int|
            0 <= j < vars.len() && !(#[trigger] vars[j]).is_built_in() && entry_of(vars[j])
                == Ok::<InterfaceEntryView, ConvertError>(interface_entries(vars)->Ok_0[i]),
    decreases vars.len(),
{
    let entries = interface_entries(vars)->Ok_0;
    let rest = interface_entries(vars.drop_last())->Ok_0;
    if i < rest.len() {
        lemma_entry_has_source(vars.drop_last(), i);
        let j = choose|j: int|
            0 <= j < vars.drop_last().len() && !(#[trigger] vars.drop_last()[j]).is_built_in()
                && entry_of(vars.drop_last()[j]) == Ok::<InterfaceEntryView, ConvertError>(
                rest[i],
            );
        assert(vars[j] == vars.drop_last()[j]);
    } else {
        assert(!vars[vars.len() - 1].is_built_in());
    }
}

/// The only error of the entries is that of an unknown format.
pub proof fn lemma_entries_error(vars: Seq<ReflectedVariableView>)
    ensures
        interface_entries(vars) matches Err(e) ==> e == ConvertError::UnknownFormat,
    decreases vars.len(),
{
    if vars.len() > 0 {
        lemma_entries_error(vars.drop_last());
    }
}

/// An unknown format code is never passed over and never given a format: where a
/// variable that is not built in has one, there are no entries but an error.
pub proof fn lemma_unknown_format_fails(vars: Seq<ReflectedVariableView>, i: int)
    requires
        0 <= i < vars.len(),
        !vars[i].is_built_in(),
        !is_known_format(vars[i].format),
    ensures
        interface_entries(vars) == Err::<Seq<InterfaceEntryView>, ConvertError>(
            ConvertError::UnknownFormat,
        ),
    decreases vars.len(),
{
    lemma_entries_error(vars);
    if i < vars.len() - 1 {
        assert(vars.drop_last()[i] == vars[i]);
        lemma_unknown_format_fails(vars.drop_last(), i);
    }
}

/// Makes the entry for a declared variable.
pub fn entry_from(v: &ReflectedVariable) -> (r: Result<ShaderInterfaceDefEntry, ConvertError>)
    ensures
        match r {
            Ok(entry) => entry_of(v@) == Ok::<InterfaceEntryView, ConvertError>(entry@),
            Err(e) => entry_of(v@) == Err::<InterfaceEntryView, ConvertError>(e),
        },
{
    let format = match format_of(v.format) {
        Ok(format) => format,
        Err(e) => {
            return Err(e);
        },
    };
    let start: u64 = v.location as u64;
    let name = if v.name.as_str().is_empty() {
        None
    } else {
        Some(v.name.clone())
    };
    Ok(ShaderInterfaceDefEntry { location: LocationRange { start, end: start + 1 }, format, name })
}

/// Makes the entries for the variables of one direction: drops the built-in ones and
/// translates the others in order, or fails with the error of the first variable whose
/// format code is unknown.
pub fn entries_from(vars: &Vec<ReflectedVariable>) -> (r: Result<
    Vec<ShaderInterfaceDefEntry>,
    ConvertError,
>)
    ensures
        match r {
            Ok(entries) => interface_entries(crate::reflected::variable_views(vars@)) == Ok::<
                Seq<InterfaceEntryView>,
                ConvertError,
            >(entry_views(entries@)),
            Err(e) => interface_entries(crate::reflected::variable_views(vars@)) == Err::<
                Seq<InterfaceEntryView>,
                ConvertError,
            >(e),
        },
{
    let ghost views = crate::reflected::variable_views(vars@);
    let mut entries: Vec<ShaderInterfaceDefEntry> = Vec::new();
    let mut i: usize = 0;
    assert(views.take(0) =~= Seq::empty());
    assert(entry_views(entries@) =~= Seq::empty());
    while i < vars.len()
        invariant
            0 <= i <= vars.len(),
            views == crate::reflected::variable_views(vars@),
            interface_entries(views.take(i as int)) == Ok::<Seq<InterfaceEntryView>, ConvertError>(
                entry_views(entries@),
            ),
        decreases vars.len() - i,
    {
        let v = &vars[i];
        proof {
            assert(views.take(i + 1).drop_last() =~= views.take(i as int));
            assert(views.take(i + 1).last() == v@);
        }
        if !v.is_built_in() {
            match entry_from(v) {
                Ok(entry) => {
                    let ghost before = entry_views(entries@);
                    entries.push(entry);
                    assert(entry_views(entries@) =~= before.push(entry@));
                },
                Err(e) => {
                    proof {
                        lemma_entries_error_stays(views, i + 1);
                    }
                    return Err(e);
                },
            }
        }
        i = i + 1;
    }
    assert(views.take(i as int) =~= views);
    Ok(entries)
}

} // verus!
