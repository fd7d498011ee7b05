//! What the neutral handles are on the Mono side, and where an assembly lies:
//! Mono knows assemblies by path, not by name.

use vstd::prelude::*;

use crate::runtime::{Class, Domain, Field, Method, Object};
use crate::text::copy_of;

verus! {

pub fn class_raw(c: Class) -> (r: u64)
    ensures
        r == c.0,
{
    c.0
}

pub fn method_raw(m: Method) -> (r: u64)
    ensures
        r == m.0,
{
    m.0
}

pub fn field_raw(f: Field) -> (r: u64)
    ensures
        r == f.0,
{
    f.0
}

pub fn domain_raw(d: Domain) -> (r: u64)
    ensures
        r == d.0,
{
    d.0
}

pub fn obj_raw(o: Object) -> (r: u64)
    ensures
        r == o.0,
{
    o.0
}

/// The file of an assembly.
pub fn assembly_path(managed_dir: &str, assembly: &str) -> (r: String)
    ensures
        r@ == managed_dir@ + "\\"@ + assembly@ + ".dll"@,
{
    let mut s = copy_of(managed_dir);
    s.append("\\");
    s.append(assembly);
    s.append(".dll");
    s
}

} // verus!
