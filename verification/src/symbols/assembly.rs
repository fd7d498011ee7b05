//! Logical assembly names: no path and no suffix.

use vstd::prelude::*;

verus! {

pub const GAME: &'static str = "Assembly-CSharp";

pub const UNITY_CORE: &'static str = "UnityEngine.CoreModule";

pub const UNITY_UI: &'static str = "UnityEngine.UI";

pub const UNITY_UI_MODULE: &'static str = "UnityEngine.UIModule";

/// Where the engine's `Font` lives.
pub const UNITY_TEXT_RENDERING: &'static str = "UnityEngine.TextRenderingModule";

} // verus!
