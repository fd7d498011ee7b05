//! Namespaces.

use vstd::prelude::*;

verus! {

pub const UNITY: &'static str = "UnityEngine";

pub const UNITY_UI: &'static str = "UnityEngine.UI";

pub const EFT: &'static str = "EFT";

/// `PhysicalBase` and `Stamina` are declared in no namespace.
pub const GLOBAL: &'static str = "";

} // verus!
