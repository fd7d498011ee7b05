//! The keys of the fields on the way to the stamina value.

use vstd::prelude::*;

verus! {

pub const MAIN_PLAYER: &'static str = "GameWorld.MainPlayer";

pub const PHYSICAL: &'static str = "Player.Physical";

pub const STAMINA: &'static str = "PhysicalBase.Stamina";

pub const STAMINA_CURRENT: &'static str = "Stamina.Current";

} // verus!
