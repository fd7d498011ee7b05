//! The game's names: the ones that move.

use vstd::prelude::*;

use crate::symbols::{assembly, cls, ns, ClassRef};

verus! {

pub fn game_world() -> (c: ClassRef)
    ensures
        c@ == (assembly::GAME@, ns::EFT@, "GameWorld"@),
{
    cls(assembly::GAME, ns::EFT, "GameWorld")
}

pub fn player() -> (c: ClassRef)
    ensures
        c@ == (assembly::GAME@, ns::EFT@, "Player"@),
{
    cls(assembly::GAME, ns::EFT, "Player")
}

pub fn physical_base() -> (c: ClassRef)
    ensures
        c@ == (assembly::GAME@, ns::GLOBAL@, "PhysicalBase"@),
{
    cls(assembly::GAME, ns::GLOBAL, "PhysicalBase")
}

pub fn stamina() -> (c: ClassRef)
    ensures
        c@ == (assembly::GAME@, ns::GLOBAL@, "Stamina"@),
{
    cls(assembly::GAME, ns::GLOBAL, "Stamina")
}

pub fn driver_methods() -> (v: Vec<&'static str>)
    ensures
        v.len() == 3,
        v@[0]@ == "LateUpdate"@,
        v@[1]@ == "Update"@,
        v@[2]@ == "DoWorldTick"@,
{
    let mut v: Vec<&'static str> = Vec::new();
    v.push("LateUpdate");
    v.push("Update");
    v.push("DoWorldTick");
    v
}

pub fn player_list_fields() -> (v: Vec<&'static str>)
    ensures
        v.len() == 2,
        v@[0]@ == "RegisteredPlayers"@,
        v@[1]@ == "AllAlivePlayersList"@,
{
    let mut v: Vec<&'static str> = Vec::new();
    v.push("RegisteredPlayers");
    v.push("AllAlivePlayersList");
    v
}

pub const PLAYER_RENDERERS_FIELD: &'static str = "_renderers";

pub const PLAYER_IS_LOCAL_FIELD: &'static str = "<IsYourPlayer>k__BackingField";

pub const PLAYER_AIDATA_FIELD: &'static str = "<AIData>k__BackingField";

pub const PLAYER_GET_POSITION: &'static str = "get_Position";

} // verus!
