//! Lookups over the Mono embedding API, whose calls are the caller's: the choice
//! among a class's methods, the walk over base classes, and the wait for the
//! module.

use vstd::prelude::*;

use crate::text::same;

verus! {

/// A method, as the API lists it; the number of its parameters where its
/// signature is known.
pub struct MethodInfo {
    pub method: u64,
    pub name: String,
    pub generic: bool,
    pub params: Option<u32>,
}

/// A method of that name and number of parameters, without type parameters.
pub open spec fn fits(m: MethodInfo, name: Seq<char>, param_count: u32) -> bool {
    m.name@ == name && !m.generic && m.params == Some(param_count)
}

/// The first method from `i` on that fits.
pub open spec fn exact_from(ms: Seq<MethodInfo>, name: Seq<char>, param_count: u32, i: nat) -> Option<
    u64,
>
    decreases ms.len() - i,
{
    if i >= ms.len() {
        None
    } else if fits(ms[i as int], name, param_count) {
        Some(ms[i as int].method)
    } else {
        exact_from(ms, name, param_count, i + 1)
    }
}

/// The class's own method of that name and number of parameters. A method with
/// type parameters cannot be called, so it is passed over.
pub fn find_method_exact(ms: &Vec<MethodInfo>, name: &str, param_count: u32) -> (r: Option<u64>)
    ensures
        r == exact_from(ms@, name@, param_count, 0),
{
    let mut i: usize = 0;
    while i < ms.len()
        invariant
            i <= ms.len(),
            exact_from(ms@, name@, param_count, 0) == exact_from(
                ms@,
                name@,
                param_count,
                i as nat,
            ),
        decreases ms.len() - i,
    {
        let same_count: bool = match ms[i].params {
            Some(n) => n == param_count,
            None => false,
        };
        if same(ms[i].name.as_str(), name) && !ms[i].generic && same_count {
            return Some(ms[i].method);
        }
        i = i + 1;
    }
    None
}

/// Where a lookup that goes up the base classes stands.
#[derive(Copy, Clone, PartialEq, Eq, Debug, Structural)]
pub enum Lookup {
    /// Ask that class.
    Ask(u64),
    Found(u64),
    Missing,
}

/// A lookup starts at a class, which may be null.
pub fn lookup(class: u64) -> (r: Lookup)
    ensures
        r == if class == 0 {
            Lookup::Missing
        } else {
            Lookup::Ask(class)
        },
{
    if class == 0 {
        Lookup::Missing
    } else {
        Lookup::Ask(class)
    }
}

/// What the class answered, null where it has nothing of that name, and its base
/// class, null where it has none.
pub fn lookup_next(answer: u64, parent: u64) -> (r: Lookup)
    ensures
        r == if answer != 0 {
            Lookup::Found(answer)
        } else if parent != 0 {
            Lookup::Ask(parent)
        } else {
            Lookup::Missing
        },
{
    if answer != 0 {
        Lookup::Found(answer)
    } else {
        lookup(parent)
    }
}

/// What to do while the module may not be loaded yet.
#[derive(Copy, Clone, PartialEq, Eq, Debug, Structural)]
pub enum LoadWait {
    Loaded,
    GiveUp,
    Sleep,
}

/// A module that is there is taken, however late it is.
pub fn load_with_retry(loaded: bool, waited: u64, max_wait: u64) -> (r: LoadWait)
    ensures
        r is Loaded <==> loaded,
        r is GiveUp <==> !loaded && waited >= max_wait,
{
    if loaded {
        LoadWait::Loaded
    } else if waited >= max_wait {
        LoadWait::GiveUp
    } else {
        LoadWait::Sleep
    }
}

} // verus!
