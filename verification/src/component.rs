//! Finding a registered component type by the name that a user wrote.

use vstd::prelude::*;
use crate::host::FyfthComponentInfo;
use crate::text::lowercase;
use crate::util::{case_ignored_match, fuzzy_match, is_subsequence};

verus! {

/// What a [`FyfthComponentInfo`] holds.
pub struct FyfthComponentInfoSpec {
    pub full_path: Seq<char>,
    pub type_ident: Option<Seq<char>>,
}

impl View for FyfthComponentInfo {
    type V = FyfthComponentInfoSpec;

    open spec fn view(&self) -> FyfthComponentInfoSpec {
        FyfthComponentInfoSpec {
            full_path: self.full_path@,
            type_ident: match self.type_ident {
                Some(ident) => Some(ident@),
                None => None,
            },
        }
    }
}

/// The three ways in which a name can stand for a component type, from the
/// strictest to the loosest.
#[derive(Debug, Clone, Copy, PartialEq, Eq, Structural)]
pub enum FyfthNameMatch {
    /// The name is the type's identifier, but for the case of its letters.
    ExactIdent,
    /// The letters of the name occur in the type's identifier in order.
    FuzzyIdent,
    /// The letters of the name occur in the type's full path in order.
    FuzzyPath,
}

/// Whether `name` stands for the type `info` in the way `how`.
pub open spec fn name_matches(
    how: FyfthNameMatch,
    info: FyfthComponentInfoSpec,
    name: Seq<char>,
) -> bool {
    match how {
        FyfthNameMatch::ExactIdent => info.type_ident matches Some(ident) && lowercase(ident)
            == lowercase(name),
        FyfthNameMatch::FuzzyIdent => info.type_ident matches Some(ident) && is_subsequence(
            lowercase(name),
            lowercase(ident),
        ),
        FyfthNameMatch::FuzzyPath => is_subsequence(lowercase(name), lowercase(info.full_path)),
    }
}

/// The indices below `count` of the types that `name` stands for in the way
/// `how`, in rising order.
pub open spec fn matching_types(
    how: FyfthNameMatch,
    infos: Seq<FyfthComponentInfoSpec>,
    name: Seq<char>,
    count: nat,
) -> Seq<usize>
    decreases count,
{
    if count == 0 {
        Seq::empty()
    } else {
        let before = matching_types(how, infos, name, (count - 1) as nat);
        if name_matches(how, infos[count - 1], name) {
            before.push((count - 1) as usize)
        } else {
            before
        }
    }
}

/// The views of the registered types.
pub open spec fn info_views(infos: Seq<FyfthComponentInfo>) -> Seq<FyfthComponentInfoSpec> {
    Seq::new(infos.len(), |i: int| infos[i]@)
}

/// Why a name stands for no single component type.
#[derive(Debug)]
pub enum BevyComponentRegistryError {
    NoMatchingComponent,
    /// The indices of the types that the name stands for equally well.
    MultipleMatchingComponents(Vec<usize>),
}

/// What a search by name gives, with its list as a sequence.
pub enum FyfthTypeSearch {
    Found(usize),
    NoMatch,
    Ambiguous(Seq<usize>),
}

/// The type that `name` stands for. The strictest way of matching in which
/// the name stands for any type decides: if it stands for one type in that
/// way, that type is found; if for several, the name is ambiguous.
pub open spec fn search_types(
    infos: Seq<FyfthComponentInfoSpec>,
    name: Seq<char>,
) -> FyfthTypeSearch {
    let exact = matching_types(FyfthNameMatch::ExactIdent, infos, name, infos.len());
    let ident = matching_types(FyfthNameMatch::FuzzyIdent, infos, name, infos.len());
    let path = matching_types(FyfthNameMatch::FuzzyPath, infos, name, infos.len());
    let decisive = if exact.len() > 0 {
        exact
    } else if ident.len() > 0 {
        ident
    } else {
        path
    };
    if decisive.len() == 0 {
        FyfthTypeSearch::NoMatch
    } else if decisive.len() == 1 {
        FyfthTypeSearch::Found(decisive[0])
    } else {
        FyfthTypeSearch::Ambiguous(decisive)
    }
}

/// Whether `name` stands for the type `info` in the way `how`.
pub fn matches_name(how: FyfthNameMatch, info: &FyfthComponentInfo, name: &str) -> (holds: bool)
    ensures
        holds == name_matches(how, info@, name@),
{
    match how {
        FyfthNameMatch::ExactIdent => match &info.type_ident {
            Some(ident) => case_ignored_match(ident.as_str(), name),
            None => false,
        },
        FyfthNameMatch::FuzzyIdent => match &info.type_ident {
            Some(ident) => fuzzy_match(ident.as_str(), name),
            None => false,
        },
        FyfthNameMatch::FuzzyPath => fuzzy_match(info.full_path.as_str(), name),
    }
}

/// The indices of the types that `name` stands for in the way `how`, in
/// rising order.
#[verifier::loop_isolation(false)]
pub fn find_matching(
    how: FyfthNameMatch,
    infos: &Vec<FyfthComponentInfo>,
    name: &str,
) -> (found: Vec<
    usize,
>)
    ensures
        found@ == matching_types(how, info_views(infos@), name@, infos.len() as nat),
        forall|i: int| 0 <= i < found.len() ==> (#[trigger] found@[i]) < infos.len(),
{
    let mut found: Vec<usize> = Vec::new();
    let mut at: usize = 0;
    while at < infos.len()
        invariant
            at <= infos.len(),
            found@ == matching_types(how, info_views(infos@), name@, at as nat),
            forall|i: int| 0 <= i < found.len() ==> (#[trigger] found@[i]) < infos.len(),
        decreases infos.len() - at,
    {
        if matches_name(how, &infos[at], name) {
            found.push(at);
        }
        at += 1;
    }
    found
}

/// The index of the component type that `component_name` stands for.
pub fn try_find_component_by_name(infos: &Vec<FyfthComponentInfo>, component_name: &str) -> (found:
    Result<usize, BevyComponentRegistryError>)
    ensures
        match search_types(info_views(infos@), component_name@) {
            FyfthTypeSearch::Found(index) => found == Ok::<usize, BevyComponentRegistryError>(
                index,
            ) && index < infos.len(),
            FyfthTypeSearch::NoMatch => found matches Err(
                BevyComponentRegistryError::NoMatchingComponent,
            ),
            FyfthTypeSearch::Ambiguous(indices) => found matches Err(
                BevyComponentRegistryError::MultipleMatchingComponents(list),
            ) && list@ == indices && forall|i: int|
                0 <= i < list.len() ==> (#[trigger] list@[i]) < infos.len(),
        },
{
    let exact = find_matching(FyfthNameMatch::ExactIdent, infos, component_name);
    if exact.len() == 1 {
        return Ok(exact[0]);
    }
    if exact.len() > 1 {
        return Err(BevyComponentRegistryError::MultipleMatchingComponents(exact));
    }
    let ident = find_matching(FyfthNameMatch::FuzzyIdent, infos, component_name);
    if ident.len() == 1 {
        return Ok(ident[0]);
    }
    if ident.len() > 1 {
        return Err(BevyComponentRegistryError::MultipleMatchingComponents(ident));
    }
    let path = find_matching(FyfthNameMatch::FuzzyPath, infos, component_name);
    if path.len() == 1 {
        return Ok(path[0]);
    }
    if path.len() > 1 {
        return Err(BevyComponentRegistryError::MultipleMatchingComponents(path));
    }
    Err(BevyComponentRegistryError::NoMatchingComponent)
}

/// An index is among the matching ones exactly when it is below `count` and
/// the name stands for its type; and the matching indices rise.
pub proof fn lemma_matching_types(
    how: FyfthNameMatch,
    infos: Seq<FyfthComponentInfoSpec>,
    name: Seq<char>,
    count: nat,
)
    requires
        count <= infos.len(),
        count <= usize::MAX,
    ensures
        forall|index: usize|
            matching_types(how, infos, name, count).contains(index) <==> (index < count
                && name_matches(how, infos[index as int], name)),
        forall|i: int, j: int|
            0 <= i < j < matching_types(how, infos, name, count).len() ==> matching_types(
                how,
                infos,
                name,
                count,
            )[i] < matching_types(how, infos, name, count)[j],
    decreases count,
{
    if count > 0 {
        let before = matching_types(how, infos, name, (count - 1) as nat);
        let all = matching_types(how, infos, name, count);
        lemma_matching_types(how, infos, name, (count - 1) as nat);
        if name_matches(how, infos[count - 1], name) {
            assert forall|index: usize| all.contains(index) <==> (index < count && name_matches(
                how,
                infos[index as int],
                name,
            )) by {
                if all.contains(index) {
                    let i = choose|i: int| 0 <= i < all.len() && all[i] == index;
                    if i < before.len() {
                        assert(before[i] == index);
                        assert(before.contains(index));
                    }
                }
                if index < count && name_matches(how, infos[index as int], name) {
                    if index == count - 1 {
                        assert(all[before.len() as int] == index);
                    } else {
                        assert(before.contains(index));
                        let i = choose|i: int| 0 <= i < before.len() && before[i] == index;
                        assert(all[i] == index);
                    }
                }
            }
            assert forall|i: int, j: int| 0 <= i < j < all.len() implies all[i] < all[j] by {
                if j == before.len() {
                    assert(before.contains(before[i]));
                }
            }
        }
    }
}

} // verus!
