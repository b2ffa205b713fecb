//! The endpoint registry: one endpoint for each exported function, under a
//! path of its own.
//!
//! Where two functions derive one path, the first keeps it. The later one
//! gets no endpoint, and the registry reports it as a duplicate.

use vstd::prelude::*;
use crate::endpoint::Endpoint;
use crate::error::LoadError;
use crate::signature::FunctionSignature;

verus! {

/// The path of a function: a slash, the name of its world, a slash, and its
/// own name.
pub open spec fn path_of(namespace: Seq<char>, name: Seq<char>) -> Seq<char> {
    seq!['/'] + namespace + seq!['/'] + name
}

/// The path of the function `name` in the world `namespace`.
pub fn derive_path(namespace: &String, name: &String) -> (path: String)
    ensures
        path@ == path_of(namespace@, name@),
{
    let mut path = String::new();
    path.push('/');
    path.append(namespace.as_str());
    path.push('/');
    path.append(name.as_str());
    assert(path@ =~= path_of(namespace@, name@));
    path
}

/// The paths of a list of functions, each with the name of its world.
pub open spec fn paths_of(functions: Seq<(&String, &FunctionSignature)>) -> Seq<Seq<char>> {
    Seq::new(functions.len(), |i: int| path_of(functions[i].0@, functions[i].1.name@))
}

/// Whether the path at position `i` occurs at no earlier position.
pub open spec fn is_first(paths: Seq<Seq<char>>, i: int) -> bool {
    forall|k: int| 0 <= k < i ==> paths[k] != paths[i]
}

/// The positions among the first `upto` whose path occurs at no earlier
/// position, in their order: those that get an endpoint.
pub open spec fn kept(paths: Seq<Seq<char>>, upto: int) -> Seq<int>
    decreases upto,
{
    if upto <= 0 {
        Seq::empty()
    } else if is_first(paths, upto - 1) {
        kept(paths, upto - 1).push(upto - 1)
    } else {
        kept(paths, upto - 1)
    }
}

/// The positions among the first `upto` whose path occurs at an earlier
/// position, in their order: those that are reported as duplicates.
pub open spec fn dropped(paths: Seq<Seq<char>>, upto: int) -> Seq<int>
    decreases upto,
{
    if upto <= 0 {
        Seq::empty()
    } else if is_first(paths, upto - 1) {
        dropped(paths, upto - 1)
    } else {
        dropped(paths, upto - 1).push(upto - 1)
    }
}

/// The endpoints of a component, and what was left out of them.
#[derive(Clone, Debug)]
pub struct Registry<C> {
    /// The endpoints, in the order of the functions they stand for.
    pub endpoints: Vec<Endpoint<C>>,
    /// One `DuplicatePath` for each function that got no endpoint, in order.
    pub duplicates: Vec<LoadError>,
}

/// The paths of a list of endpoints.
pub open spec fn endpoint_paths<C>(endpoints: Seq<Endpoint<C>>) -> Seq<Seq<char>> {
    Seq::new(endpoints.len(), |i: int| endpoints[i].path@)
}

/// The position of the first endpoint under `path`.
fn position_of_path<C>(endpoints: &Vec<Endpoint<C>>, path: &String) -> (r: Option<usize>)
    ensures
        match r {
            Some(i) => i < endpoints.len() && endpoints[i as int].path@ == path@ && forall|k: int|
                0 <= k < i ==> (#[trigger] endpoints[k]).path@ != path@,
            None => forall|k: int|
                0 <= k < endpoints.len() ==> (#[trigger] endpoints[k]).path@ != path@,
        },
{
    let mut i: usize = 0;
    while i < endpoints.len()
        invariant
            i <= endpoints.len(),
            forall|k: int| 0 <= k < i ==> (#[trigger] endpoints[k]).path@ != path@,
        decreases endpoints.len() - i,
    {
        if endpoints[i].path == *path {
            return Some(i);
        }
        i += 1;
    }
    None
}

impl<C> Registry<C> {
    /// No two endpoints have one path.
    pub open spec fn well_formed(self) -> bool {
        forall|a: int, b: int|
            0 <= a < b < self.endpoints.len() ==> (#[trigger] self.endpoints[a]).path@ != (
            #[trigger] self.endpoints[b]).path@
    }

    /// The first endpoint under `path`, if there is one; in a well-formed
    /// registry that is the only one.
    pub fn find(&self, path: &String) -> (r: Option<&Endpoint<C>>)
        ensures
            match r {
                Some(endpoint) => endpoint.path@ == path@ && exists|i: int|
                    {
                        &&& 0 <= i < self.endpoints.len()
                        &&& #[trigger] self.endpoints[i] == *endpoint
                        &&& forall|k: int| 0 <= k < i ==> (#[trigger] self.endpoints[k]).path@ != path@
                    },
                None => forall|k: int|
                    0 <= k < self.endpoints.len() ==> (#[trigger] self.endpoints[k]).path@
                        != path@,
            },
    {
        match position_of_path(&self.endpoints, path) {
            Some(i) => Some(&self.endpoints[i]),
            None => None,
        }
    }
}

/// Builds the endpoints of the functions listed, in their order.
///
/// Each function gets the path of its world and name, its own signature,
/// and the handle that `binder` gives for its name. A function whose path an
/// earlier function has derived gets no endpoint: the first wins, and the
/// later one is reported as a `DuplicatePath` with that path.
pub fn get_endpoints<C, B: Fn(&String) -> C>(
    functions: Vec<(&String, &FunctionSignature)>,
    binder: B,
) -> (registry: Registry<C>)
    requires
        forall|name: &String| binder.requires((name,)),
    ensures
        registry.well_formed(),
        registry.endpoints.len() == kept(paths_of(functions@), functions.len() as int).len(),
        forall|m: int|
            0 <= m < registry.endpoints.len() ==> {
                let i = kept(paths_of(functions@), functions.len() as int)[m];
                &&& 0 <= i < functions.len()
                &&& (#[trigger] registry.endpoints[m]).path@ == paths_of(functions@)[i]
                &&& registry.endpoints[m].prototype@ == functions[i].1@
                &&& binder.ensures((&functions[i].1.name,), registry.endpoints[m].callable)
            },
        registry.duplicates.len() == dropped(paths_of(functions@), functions.len() as int).len(),
        forall|m: int|
            0 <= m < registry.duplicates.len() ==> {
                let i = dropped(paths_of(functions@), functions.len() as int)[m];
                &&& 0 <= i < functions.len()
                &&& (#[trigger] registry.duplicates[m]) matches LoadError::DuplicatePath(path)
                &&& path@ == paths_of(functions@)[i]
            },
{
    let ghost paths = paths_of(functions@);
    let mut endpoints: Vec<Endpoint<C>> = Vec::new();
    let mut duplicates: Vec<LoadError> = Vec::new();
    let mut i: usize = 0;
    while i < functions.len()
        invariant
            i <= functions.len(),
            paths == paths_of(functions@),
            forall|name: &String| binder.requires((name,)),
            forall|a: int, b: int|
                0 <= a < b < endpoints.len() ==> (#[trigger] endpoints[a]).path@ != (
                #[trigger] endpoints[b]).path@,
            forall|k: int| 0 <= k < i ==> endpoint_paths(endpoints@).contains(#[trigger] paths[k]),
            endpoints.len() == kept(paths, i as int).len(),
            forall|m: int|
                0 <= m < endpoints.len() ==> {
                    let j = kept(paths, i as int)[m];
                    &&& 0 <= j < i
                    &&& (#[trigger] endpoints[m]).path@ == paths[j]
                    &&& endpoints[m].prototype@ == functions[j].1@
                    &&& binder.ensures((&functions[j].1.name,), endpoints[m].callable)
                },
            duplicates.len() == dropped(paths, i as int).len(),
            forall|m: int|
                0 <= m < duplicates.len() ==> {
                    let j = dropped(paths, i as int)[m];
                    &&& 0 <= j < i
                    &&& (#[trigger] duplicates[m]) matches LoadError::DuplicatePath(path)
                    &&& path@ == paths[j]
                },
        decreases functions.len() - i,
    {
        let (namespace, function) = functions[i];
        let path = derive_path(namespace, &function.name);
        assert(path@ == paths[i as int]);
        match position_of_path(&endpoints, &path) {
            Some(first) => {
                proof {
                    let j = kept(paths, i as int)[first as int];
                    assert(endpoints[first as int].path@ == paths[j]);
                    assert(paths[j] == paths[i as int]);
                    assert(!is_first(paths, i as int));
                    assert(endpoint_paths(endpoints@)[first as int] == paths[i as int]);
                }
                duplicates.push(LoadError::DuplicatePath(path));
            },
            None => {
                proof {
                    assert forall|k: int| 0 <= k < i implies paths[k] != paths[i as int] by {
                        let known = endpoint_paths(endpoints@);
                        assert(known.contains(paths[k]));
                        let m = choose|m: int| 0 <= m < known.len() && known[m] == paths[k];
                        assert(endpoints[m].path@ != path@);
                    }
                    assert(is_first(paths, i as int));
                }
                let callable = binder(&function.name);
                let ghost known = endpoint_paths(endpoints@);
                endpoints.push(Endpoint::new(path, function.clone(), callable));
                proof {
                    let now = endpoint_paths(endpoints@);
                    assert(now[endpoints.len() - 1] == paths[i as int]);
                    assert forall|k: int| 0 <= k < i + 1 implies now.contains(
                        #[trigger] paths[k],
                    ) by {
                        if k < i {
                            assert(known.contains(paths[k]));
                            let m = choose|m: int| 0 <= m < known.len() && known[m] == paths[k];
                            assert(now[m] == paths[k]);
                        }
                    }
                }
            },
        }
        i += 1;
    }
    Registry { endpoints, duplicates }
}

/// Two functions have one path only where they have one world and one name,
/// as long as the names of their worlds hold no slash.
pub proof fn paths_differ(
    namespace: Seq<char>,
    name: Seq<char>,
    other_namespace: Seq<char>,
    other_name: Seq<char>,
)
    requires
        !namespace.contains('/'),
        !other_namespace.contains('/'),
        path_of(namespace, name) == path_of(other_namespace, other_name),
    ensures
        namespace == other_namespace,
        name == other_name,
{
    let path = path_of(namespace, name);
    let other = path_of(other_namespace, other_name);
    let n = namespace.len() as int;
    let m = other_namespace.len() as int;
    assert(path.len() == n + name.len() + 2);
    assert(other.len() == m + other_name.len() + 2);
    assert(path[n + 1] == '/');
    assert(other[m + 1] == '/');
    if n < m {
        assert(other[n + 1] == other_namespace[n]);
        assert(other_namespace.contains(other_namespace[n]));
    }
    if m < n {
        assert(path[m + 1] == namespace[m]);
        assert(namespace.contains(namespace[m]));
    }
    assert(n == m);
    assert forall|i: int| 0 <= i < n implies namespace[i] == other_namespace[i] by {
        assert(path[i + 1] == namespace[i]);
        assert(other[i + 1] == other_namespace[i]);
    }
    assert(namespace =~= other_namespace);
    assert forall|i: int| 0 <= i < name.len() implies name[i] == other_name[i] by {
        assert(path[n + 2 + i] == name[i]);
        assert(other[n + 2 + i] == other_name[i]);
    }
    assert(name =~= other_name);
}

/// The first function of each path gets the endpoint, and every later one
/// of that path is reported: a position is kept where its path occurs at no
/// earlier position, and dropped where it does. The positions kept come in
/// their order, and so do those dropped.
pub proof fn first_wins(paths: Seq<Seq<char>>, upto: int)
    requires
        0 <= upto <= paths.len(),
    ensures
        forall|i: int| 0 <= i < upto ==> (kept(paths, upto).contains(i) <==> is_first(paths, i)),
        forall|i: int| 0 <= i < upto ==> (dropped(paths, upto).contains(i) <==> !is_first(paths, i)),
        forall|m: int| 0 <= m < kept(paths, upto).len() ==> 0 <= #[trigger] kept(paths, upto)[m] < upto,
        forall|m: int|
            0 <= m < dropped(paths, upto).len() ==> 0 <= #[trigger] dropped(paths, upto)[m] < upto,
        forall|a: int, b: int|
            0 <= a < b < kept(paths, upto).len() ==> kept(paths, upto)[a] < kept(paths, upto)[b],
        forall|a: int, b: int|
            0 <= a < b < dropped(paths, upto).len() ==> dropped(paths, upto)[a] < dropped(
                paths,
                upto,
            )[b],
        kept(paths, upto).len() + dropped(paths, upto).len() == upto,
    decreases upto,
{
    if upto > 0 {
        first_wins(paths, upto - 1);
        let before = kept(paths, upto - 1);
        let after = kept(paths, upto);
        let dropped_before = dropped(paths, upto - 1);
        let dropped_after = dropped(paths, upto);
        let last = upto - 1;
        if is_first(paths, last) {
            assert(after == before.push(last));
            assert(after[after.len() - 1] == last);
            assert forall|i: int| 0 <= i < upto implies (after.contains(i) <==> is_first(
                paths,
                i,
            )) by {
                if i < last {
                    if before.contains(i) {
                        let m = choose|m: int| 0 <= m < before.len() && before[m] == i;
                        assert(after[m] == i);
                    }
                    if after.contains(i) {
                        let m = choose|m: int| 0 <= m < after.len() && after[m] == i;
                        assert(before[m] == i);
                    }
                }
            }
            assert forall|i: int| 0 <= i < upto implies (dropped_after.contains(i) <==> !is_first(
                paths,
                i,
            )) by {
                if i == last && dropped_after.contains(i) {
                    let m = choose|m: int| 0 <= m < dropped_after.len() && dropped_after[m] == i;
                    assert(dropped_before[m] < last);
                }
            }
        } else {
            assert(dropped_after == dropped_before.push(last));
            assert(dropped_after[dropped_after.len() - 1] == last);
            assert forall|i: int| 0 <= i < upto implies (dropped_after.contains(i) <==> !is_first(
                paths,
                i,
            )) by {
                if i < last {
                    if dropped_before.contains(i) {
                        let m = choose|m: int|
                            0 <= m < dropped_before.len() && dropped_before[m] == i;
                        assert(dropped_after[m] == i);
                    }
                    if dropped_after.contains(i) {
                        let m = choose|m: int|
                            0 <= m < dropped_after.len() && dropped_after[m] == i;
                        assert(dropped_before[m] == i);
                    }
                }
            }
            assert forall|i: int| 0 <= i < upto implies (after.contains(i) <==> is_first(
                paths,
                i,
            )) by {
                if i == last && after.contains(i) {
                    let m = choose|m: int| 0 <= m < after.len() && after[m] == i;
                    assert(before[m] < last);
                }
            }
        }
    }
}

} // verus!
