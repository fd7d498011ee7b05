//! The engine's names.

use vstd::prelude::*;

use crate::symbols::{assembly, cls, ns, ClassRef};

verus! {

pub fn game_object() -> (c: ClassRef)
    ensures
        c@ == (assembly::UNITY_CORE@, ns::UNITY@, "GameObject"@),
{
    cls(assembly::UNITY_CORE, ns::UNITY, "GameObject")
}

pub fn object() -> (c: ClassRef)
    ensures
        c@ == (assembly::UNITY_CORE@, ns::UNITY@, "Object"@),
{
    cls(assembly::UNITY_CORE, ns::UNITY, "Object")
}

pub fn transform() -> (c: ClassRef)
    ensures
        c@ == (assembly::UNITY_CORE@, ns::UNITY@, "Transform"@),
{
    cls(assembly::UNITY_CORE, ns::UNITY, "Transform")
}

pub fn rect_transform() -> (c: ClassRef)
    ensures
        c@ == (assembly::UNITY_CORE@, ns::UNITY@, "RectTransform"@),
{
    cls(assembly::UNITY_CORE, ns::UNITY, "RectTransform")
}

pub fn canvas() -> (c: ClassRef)
    ensures
        c@ == (assembly::UNITY_UI_MODULE@, ns::UNITY@, "Canvas"@),
{
    cls(assembly::UNITY_UI_MODULE, ns::UNITY, "Canvas")
}

pub fn graphic() -> (c: ClassRef)
    ensures
        c@ == (assembly::UNITY_UI@, ns::UNITY_UI@, "Graphic"@),
{
    cls(assembly::UNITY_UI, ns::UNITY_UI, "Graphic")
}

pub fn text() -> (c: ClassRef)
    ensures
        c@ == (assembly::UNITY_UI@, ns::UNITY_UI@, "Text"@),
{
    cls(assembly::UNITY_UI, ns::UNITY_UI, "Text")
}

pub fn image() -> (c: ClassRef)
    ensures
        c@ == (assembly::UNITY_UI@, ns::UNITY_UI@, "Image"@),
{
    cls(assembly::UNITY_UI, ns::UNITY_UI, "Image")
}

pub fn font() -> (c: ClassRef)
    ensures
        c@ == (assembly::UNITY_TEXT_RENDERING@, ns::UNITY@, "Font"@),
{
    cls(assembly::UNITY_TEXT_RENDERING, ns::UNITY, "Font")
}

pub fn resources() -> (c: ClassRef)
    ensures
        c@ == (assembly::UNITY_CORE@, ns::UNITY@, "Resources"@),
{
    cls(assembly::UNITY_CORE, ns::UNITY, "Resources")
}

pub const GET_BUILTIN_RESOURCE: &'static str = "GetBuiltinResource";

pub const SET_FONT: &'static str = "set_font";

pub fn builtin_fonts() -> (v: Vec<&'static str>)
    ensures
        v.len() == 2,
        v@[0]@ == "LegacyRuntime.ttf"@,
        v@[1]@ == "Arial.ttf"@,
{
    let mut v: Vec<&'static str> = Vec::new();
    v.push("LegacyRuntime.ttf");
    v.push("Arial.ttf");
    v
}

pub const CTOR: &'static str = ".ctor";

pub const ADD_COMPONENT: &'static str = "AddComponent";

pub const GET_COMPONENT: &'static str = "GetComponent";

pub const SET_ACTIVE: &'static str = "SetActive";

pub const DONT_DESTROY_ON_LOAD: &'static str = "DontDestroyOnLoad";

pub const DESTROY: &'static str = "Destroy";

pub const FIND_OBJECT_OF_TYPE: &'static str = "FindObjectOfType";

pub const SET_PARENT: &'static str = "SetParent";

pub const SET_ANCHOR_MIN: &'static str = "set_anchorMin";

pub const SET_ANCHOR_MAX: &'static str = "set_anchorMax";

pub const SET_ANCHORED_POSITION: &'static str = "set_anchoredPosition";

pub const SET_SIZE_DELTA: &'static str = "set_sizeDelta";

pub const SET_OFFSET_MIN: &'static str = "set_offsetMin";

pub const SET_OFFSET_MAX: &'static str = "set_offsetMax";

pub const SET_PIVOT: &'static str = "set_pivot";

pub const SET_RENDER_MODE: &'static str = "set_renderMode";

pub const SET_SORTING_ORDER: &'static str = "set_sortingOrder";

pub const SET_COLOR: &'static str = "set_color";

pub const SET_RAYCAST_TARGET: &'static str = "set_raycastTarget";

pub const SET_TEXT: &'static str = "set_text";

pub const SET_FONT_SIZE: &'static str = "set_fontSize";

pub const SET_ALIGNMENT: &'static str = "set_alignment";

pub const SET_HORIZONTAL_OVERFLOW: &'static str = "set_horizontalOverflow";

pub const SET_VERTICAL_OVERFLOW: &'static str = "set_verticalOverflow";

pub const RENDER_MODE_SCREEN_SPACE_OVERLAY: i32 = 0;

pub const ANCHOR_UPPER_LEFT: i32 = 0;

pub const ANCHOR_MIDDLE_LEFT: i32 = 3;

pub const ANCHOR_MIDDLE_CENTER: i32 = 4;

pub const ANCHOR_MIDDLE_RIGHT: i32 = 5;

pub const WRAP_TRUNCATE: i32 = 0;

pub const WRAP_OVERFLOW: i32 = 1;

pub fn component() -> (c: ClassRef)
    ensures
        c@ == (assembly::UNITY_CORE@, ns::UNITY@, "Component"@),
{
    cls(assembly::UNITY_CORE, ns::UNITY, "Component")
}

pub fn renderer() -> (c: ClassRef)
    ensures
        c@ == (assembly::UNITY_CORE@, ns::UNITY@, "Renderer"@),
{
    cls(assembly::UNITY_CORE, ns::UNITY, "Renderer")
}

pub fn skinned_mesh_renderer() -> (c: ClassRef)
    ensures
        c@ == (assembly::UNITY_CORE@, ns::UNITY@, "SkinnedMeshRenderer"@),
{
    cls(assembly::UNITY_CORE, ns::UNITY, "SkinnedMeshRenderer")
}

pub fn material() -> (c: ClassRef)
    ensures
        c@ == (assembly::UNITY_CORE@, ns::UNITY@, "Material"@),
{
    cls(assembly::UNITY_CORE, ns::UNITY, "Material")
}

pub fn shader() -> (c: ClassRef)
    ensures
        c@ == (assembly::UNITY_CORE@, ns::UNITY@, "Shader"@),
{
    cls(assembly::UNITY_CORE, ns::UNITY, "Shader")
}

pub fn camera() -> (c: ClassRef)
    ensures
        c@ == (assembly::UNITY_CORE@, ns::UNITY@, "Camera"@),
{
    cls(assembly::UNITY_CORE, ns::UNITY, "Camera")
}

pub const CAMERA_GET_MAIN: &'static str = "get_main";

pub const CAMERA_WORLD_TO_SCREEN: &'static str = "WorldToScreenPoint";

pub const FIND_OBJECTS_OF_TYPE: &'static str = "FindObjectsOfType";

pub const INSTANTIATE: &'static str = "Instantiate";

pub const GET_COMPONENTS_IN_CHILDREN: &'static str = "GetComponentsInChildren";

pub const GET_TRANSFORM: &'static str = "get_transform";

pub const GET_CHILD_COUNT: &'static str = "get_childCount";

pub const GET_CHILD: &'static str = "GetChild";

pub const GET_MATERIALS: &'static str = "get_materials";

pub const SET_MATERIALS: &'static str = "set_materials";

pub const GET_SHARED_MATERIAL: &'static str = "get_sharedMaterial";

pub const GET_SHARED_MATERIALS: &'static str = "get_sharedMaterials";

pub const SET_SHARED_MATERIALS: &'static str = "set_sharedMaterials";

pub const GET_ENABLED: &'static str = "get_enabled";

pub const GET_NAME: &'static str = "get_name";

pub const FIND_OBJECTS_OF_TYPE_ALL: &'static str = "FindObjectsOfTypeAll";

pub const MAT_SET_SHADER: &'static str = "set_shader";

pub const MAT_GET_SHADER: &'static str = "get_shader";

pub const MAT_SET_COLOR: &'static str = "SetColor";

pub const MAT_SET_INT: &'static str = "SetInt";

pub const MAT_SET_FLOAT: &'static str = "SetFloat";

pub const MAT_ENABLE_KEYWORD: &'static str = "EnableKeyword";

pub const MAT_SET_RENDER_QUEUE: &'static str = "set_renderQueue";

pub const MAT_HAS_PROPERTY: &'static str = "HasProperty";

pub const SHADER_FIND: &'static str = "Find";

pub const ZTEST_ALWAYS: i32 = 8;

pub const ZTEST_LEQUAL: i32 = 4;

pub const ZTEST_GREATER: i32 = 5;

pub const PROP_COLOR: &'static str = "_Color";

pub const PROP_ZTEST: &'static str = "_ZTest";

pub const PROP_ZWRITE: &'static str = "_ZWrite";

pub const PROP_CULL: &'static str = "_Cull";

pub const PROP_SRC_BLEND: &'static str = "_SrcBlend";

pub const PROP_DST_BLEND: &'static str = "_DstBlend";

pub const BLEND_ZERO: i32 = 0;

pub const BLEND_ONE: i32 = 1;

pub const BLEND_SRC_ALPHA: i32 = 5;

pub const BLEND_ONE_MINUS_SRC_ALPHA: i32 = 10;

pub const CULL_OFF: i32 = 0;

pub const CULL_BACK: i32 = 2;

pub fn cursor() -> (c: ClassRef)
    ensures
        c@ == (assembly::UNITY_CORE@, ns::UNITY@, "Cursor"@),
{
    cls(assembly::UNITY_CORE, ns::UNITY, "Cursor")
}

pub const CURSOR_SET_VISIBLE: &'static str = "set_visible";

pub const CURSOR_SET_LOCK_STATE: &'static str = "set_lockState";

pub const CURSOR_LOCK_NONE: i32 = 0;

pub fn rim_color_props() -> (v: Vec<&'static str>)
    ensures
        v.len() == 4,
        v@[0]@ == "_RimColor"@,
        v@[1]@ == "_RimLightColor"@,
        v@[2]@ == "_FresnelColor"@,
        v@[3]@ == "_OutlineColor"@,
{
    let mut v: Vec<&'static str> = Vec::new();
    v.push("_RimColor");
    v.push("_RimLightColor");
    v.push("_FresnelColor");
    v.push("_OutlineColor");
    v
}

pub fn rim_power_props() -> (v: Vec<&'static str>)
    ensures
        v.len() == 4,
        v@[0]@ == "_RimPower"@,
        v@[1]@ == "_RimLightPower"@,
        v@[2]@ == "_FresnelPower"@,
        v@[3]@ == "_RimIntensity"@,
{
    let mut v: Vec<&'static str> = Vec::new();
    v.push("_RimPower");
    v.push("_RimLightPower");
    v.push("_FresnelPower");
    v.push("_RimIntensity");
    v
}

pub fn rim_shader_candidates() -> (v: Vec<&'static str>)
    ensures
        v.len() == 3,
        v@[0]@ == "Custom/Rim"@,
        v@[1]@ == "Hidden/Rim"@,
        v@[2]@ == "Unlit/Rim"@,
{
    let mut v: Vec<&'static str> = Vec::new();
    v.push("Custom/Rim");
    v.push("Hidden/Rim");
    v.push("Unlit/Rim");
    v
}

} // verus!
