//! Calibration and lookups over a synthetic corlib, laid out field by field.

use eft_trainer::il2cpp_abi::{calibrate, is_static, self_test, CalibrationError, Layout};
use eft_trainer::il2cpp_runtime::{
    decode, may_make_array, new_array, probe_string_layout, readiness, suspicious_offset,
    Il2CppRuntime, ImageClasses, Readiness,
};
use eft_trainer::memory::Memory;
use eft_trainer::runtime::{Backend, Class, Image, Method, Object, ScriptRuntime};
use eft_trainer::symbols::{find_class, find_method, resolve_fields, ClassRef, FieldSpec};

const BASE: u64 = 0x1234_5678_0000;
const MODULE: u64 = 0x5678_0000_0000;

/// Memory that is filled from the bottom up.
struct Arena {
    bytes: Vec<u8>,
}

impl Arena {
    fn new() -> Self {
        Arena { bytes: vec![0; 64] }
    }

    fn block(&mut self, n: usize) -> u64 {
        // A gap after each block, and blocks on qword boundaries.
        let at: usize = (self.bytes.len() + 15) / 16 * 16;
        self.bytes.resize(at + n + 64, 0);
        BASE + at as u64
    }

    fn put(&mut self, at: u64, v: &[u8]) {
        let i: usize = (at - BASE) as usize;
        self.bytes[i..i + v.len()].copy_from_slice(v);
    }

    fn p64(&mut self, at: u64, v: u64) {
        self.put(at, &v.to_le_bytes());
    }

    fn p32(&mut self, at: u64, v: u32) {
        self.put(at, &v.to_le_bytes());
    }

    fn p16(&mut self, at: u64, v: u16) {
        self.put(at, &v.to_le_bytes());
    }

    fn text(&mut self, s: &str) -> u64 {
        let at: u64 = self.block(s.len() + 1);
        self.put(at, s.as_bytes());
        at
    }
}

fn reference() -> Layout {
    Layout {
        c_name: 0x10,
        c_namespace: 0x18,
        c_byval: 0x20,
        c_parent: 0x58,
        c_fields: 0x80,
        c_field_count: 0x124,
        c_methods: 0x98,
        c_method_count: 0x120,
        f_name: 0x00,
        f_parent: 0x10,
        f_offset: 0x18,
        f_stride: 0x20,
        m_ptr: 0x00,
        m_name: 0x18,
        m_klass: 0x20,
        m_flags: 0x4C,
        m_param_count: 0x52,
        m_bits: 0x53,
        i_name: 0x00,
    }
}

fn moved() -> Layout {
    Layout {
        c_name: 0x00,
        c_namespace: 0x08,
        c_byval: 0x28,
        c_parent: 0x60,
        c_fields: 0x90,
        c_field_count: 0x130,
        c_methods: 0xA8,
        c_method_count: 0x12A,
        f_name: 0x08,
        f_parent: 0x10,
        f_offset: 0x20,
        f_stride: 0x28,
        m_ptr: 0x08,
        m_name: 0x10,
        m_klass: 0x28,
        m_flags: 0x48,
        m_param_count: 0x4E,
        m_bits: 0x4F,
        i_name: 0x10,
    }
}

struct Corlib {
    arena: Arena,
    header: Vec<u8>,
    image: u64,
    classes: Vec<u64>,
}

/// A corlib of forty classes, with one thing wrong.
fn corlib(l: &Layout, wrong: &str) -> Corlib {
    let mut a: Arena = Arena::new();
    let image: u64 = a.block(0x40);
    let mscorlib: u64 = a.text(if wrong == "image" { "other.dll" } else { "mscorlib.dll" });
    a.p64(image + l.i_name, mscorlib);
    let system: u64 = a.text(if wrong == "namespace" { "Elsewhere" } else { "System" });
    let mut classes: Vec<u64> = Vec::new();
    for _ in 0..40 {
        classes.push(a.block(0x180));
    }
    for k in 0..40usize {
        let c: u64 = classes[k];
        let name: String = match k {
            0 => (if wrong == "name" { "Thing" } else { "Object" }).to_string(),
            1 => "String".to_string(),
            2 => (if wrong == "anchor" { "Int99" } else { "Int32" }).to_string(),
            _ => format!("Class{}", k),
        };
        let element: u32 = match k {
            0 => 0x1c,
            1 => {
                if wrong == "byval" {
                    0x0d
                } else {
                    0x0e
                }
            },
            2 => 0x08,
            _ => 0x12,
        };
        let at: u64 = a.text(&name);
        a.p64(c + l.c_name, at);
        a.p64(c + l.c_namespace, system);
        a.p32(c + l.c_byval + 8, element << 16);
        a.p32(c + l.c_byval + 0x18, element << 16);
        if k > 0 && wrong != "parent" {
            a.p64(c + l.c_parent, classes[0]);
        }
        // fields
        let names: Vec<String> = if k == 1 {
            vec!["m_stringLength".to_string(), "m_firstChar".to_string(), "Empty".to_string()]
        } else {
            vec![format!("first{}", k), format!("second{}", k)]
        };
        let offsets: Vec<i32> = if k == 1 { vec![0x10, 0x14, 0] } else { vec![0x10, 0x18] };
        let n: usize = names.len();
        let f: u64 = a.block(n * l.f_stride as usize + 64);
        a.p64(c + l.c_fields, f);
        for i in 0..n {
            let e: u64 = f + i as u64 * l.f_stride;
            let t: u64 = a.text(&names[i]);
            a.p64(e + l.f_name, t);
            if wrong != "fields" {
                a.p64(e + l.f_parent, c);
            }
            a.p32(e + l.f_offset, offsets[i] as u32);
        }
        a.p16(c + l.c_field_count, if wrong == "field count" { 0 } else { n as u16 });
        // methods
        let ms: Vec<(String, u16, u8)> = if k == 1 {
            vec![
                (
                    (if wrong == "string methods" { "get_Size" } else { "get_Length" }).to_string(),
                    if wrong == "flags" { 0x0896 } else { 0x0886 },
                    0,
                ),
                (
                    "IsNullOrEmpty".to_string(),
                    0x0096,
                    if wrong == "param count" { 7 } else { 1 },
                ),
                ("Concat".to_string(), 0x0096, 2),
                ("ToString".to_string(), 0x0086, 0),
            ]
        } else {
            vec![
                ("Run".to_string(), 0x0086, 1),
                ("Run".to_string(), 0x0086, 2),
                ("Make".to_string(), 0x0096, 0),
                (format!("Own{}", k), 0x0086, 0),
            ]
        };
        let table: u64 = a.block(8 * ms.len() + 64);
        a.p64(c + l.c_methods, table);
        for i in 0..ms.len() {
            let m: u64 = a.block(0x60);
            let t: u64 = a.text(&ms[i].0);
            a.p64(table + 8 * i as u64, m);
            a.p64(m + l.m_ptr, MODULE + 0x1000 + 0x100 * k as u64 + 0x10 * i as u64);
            a.p64(m + l.m_name, t);
            if wrong != "methods" {
                a.p64(m + l.m_klass, c);
            }
            a.p16(m + l.m_flags, ms[i].1);
            a.put(m + l.m_param_count, &[ms[i].2]);
            // The first overload of `Run` is generic.
            let bits: u8 = if wrong == "bits" {
                0x40
            } else if k > 1 && i == 0 {
                1
            } else {
                0
            };
            a.put(m + l.m_bits, &[bits]);
        }
        a.p16(c + l.c_method_count, if wrong == "method count" { 0 } else { ms.len() as u16 });
    }
    let mut header: Vec<u8> = vec![0; 0x200];
    header[0x3C] = 0x80;
    let size: u32 = if wrong == "module" { 0x10 } else { 0x10_0000 };
    header[0xD0..0xD4].copy_from_slice(&size.to_le_bytes());
    Corlib { arena: a, header, image, classes }
}

fn memory_of(c: &Corlib) -> Memory<'_> {
    let mut mem: Memory = Memory::new();
    assert!(mem.add(BASE, &c.arena.bytes));
    assert!(mem.add(MODULE, &c.header));
    mem
}

fn never() -> bool {
    false
}

fn always() -> bool {
    true
}

fn outcome(l: &Layout, wrong: &str) -> Result<Layout, CalibrationError> {
    let c: Corlib = corlib(l, wrong);
    let mem: Memory = memory_of(&c);
    calibrate(&mem, c.image, &c.classes, MODULE, 0x10, 0x14, &never)
}

#[test]
fn calibration_finds_the_reference_layout() {
    assert_eq!(outcome(&reference(), ""), Ok(reference()));
    assert!(self_test(&reference()).is_empty());
}

#[test]
fn calibration_follows_a_moved_layout() {
    assert_eq!(outcome(&moved(), ""), Ok(moved()));
    let diffs: Vec<String> = self_test(&moved());
    assert_eq!(diffs.len(), 18);
    assert_eq!(diffs[0], "c_name: got 0x0 expected 0x10");
    assert_eq!(diffs[17], "i_name: got 0x10 expected 0x0");
}

#[test]
fn one_moved_offset_is_one_line_of_drift() {
    let l: Layout = Layout { m_flags: 0x4E, ..reference() };
    assert_eq!(self_test(&l), vec!["m_flags: got 0x4e expected 0x4c".to_string()]);
}

#[test]
fn calibration_names_what_is_missing() {
    let l: Layout = reference();
    assert_eq!(outcome(&l, "name"), Err(CalibrationError::NoClassName));
    assert_eq!(outcome(&l, "namespace"), Err(CalibrationError::NoNamespace));
    assert_eq!(outcome(&l, "anchor"), Err(CalibrationError::NoAnchors));
    assert_eq!(outcome(&l, "byval"), Err(CalibrationError::NoByval));
    assert_eq!(outcome(&l, "parent"), Err(CalibrationError::NoParent));
    assert_eq!(outcome(&l, "fields"), Err(CalibrationError::NoFields));
    assert_eq!(outcome(&l, "field count"), Err(CalibrationError::NoFieldCount));
    assert_eq!(outcome(&l, "methods"), Err(CalibrationError::NoMethods));
    assert_eq!(outcome(&l, "method count"), Err(CalibrationError::NoMethodCount));
    assert_eq!(outcome(&l, "module"), Err(CalibrationError::NoMethodPointer));
    assert_eq!(outcome(&l, "string methods"), Err(CalibrationError::NoStringMethods));
    assert_eq!(outcome(&l, "param count"), Err(CalibrationError::NoParamCount));
    assert_eq!(outcome(&l, "flags"), Err(CalibrationError::NoFlags));
    assert_eq!(outcome(&l, "bits"), Err(CalibrationError::BadBits));
    assert_eq!(outcome(&l, "image"), Err(CalibrationError::NoImageName));
}

#[test]
fn calibration_needs_classes_and_a_string_layout() {
    let c: Corlib = corlib(&reference(), "");
    let mem: Memory = memory_of(&c);
    let few: Vec<u64> = c.classes[..31].to_vec();
    assert_eq!(
        calibrate(&mem, 0, &c.classes, MODULE, 0x10, 0x14, &never),
        Err(CalibrationError::NoCorlib)
    );
    assert_eq!(
        calibrate(&mem, c.image, &few, MODULE, 0x10, 0x14, &never),
        Err(CalibrationError::TooFewClasses)
    );
    let gone: Vec<u64> = c.classes.iter().map(|x| x + 0x1000_0000).collect();
    assert_eq!(
        calibrate(&mem, c.image, &gone, MODULE, 0x10, 0x14, &never),
        Err(CalibrationError::TooFewReadable)
    );
    assert_eq!(
        calibrate(&mem, c.image, &c.classes, MODULE, 0x10, 0x1C, &never),
        Err(CalibrationError::NoFieldOffset)
    );
    assert_eq!(
        calibrate(&mem, c.image, &c.classes, MODULE, 0x10, 0x14, &always),
        Err(CalibrationError::Aborted)
    );
}

#[test]
fn static_bit_is_the_attribute() {
    assert!(is_static(0x0096));
    assert!(!is_static(0x0086));
}

fn runtime(c: &Corlib, l: Layout) -> Il2CppRuntime<'_> {
    let mut rt: Il2CppRuntime = Il2CppRuntime {
        mem: memory_of(c),
        l,
        s_len: 0x10,
        s_chars: 0x14,
        images: vec![0, c.image],
        lists: vec![ImageClasses { image: Image(c.image), classes: c.classes.clone() }],
        indexes: Vec::new(),
        stopped: false,
    };
    assert!(rt.index_of(Image(c.image), &never));
    rt
}

#[test]
fn images_go_by_name_without_suffix_or_case() {
    let c: Corlib = corlib(&reference(), "");
    let rt: Il2CppRuntime = runtime(&c, reference());
    assert_eq!(rt.image("mscorlib"), Some(Image(c.image)));
    assert_eq!(rt.image("MSCORLIB"), Some(Image(c.image)));
    assert_eq!(rt.image("Assembly-CSharp"), None);
    assert!(matches!(rt.backend(), Backend::Il2Cpp));
}

#[test]
fn classes_go_by_namespace_and_name() {
    let c: Corlib = corlib(&reference(), "");
    let rt: Il2CppRuntime = runtime(&c, reference());
    let g: Image = Image(c.image);
    assert_eq!(rt.class(g, "System", "String"), Some(Class(c.classes[1])));
    assert_eq!(rt.class(g, "System", "Class39"), Some(Class(c.classes[39])));
    assert_eq!(rt.class(g, "", "String"), None);
    assert_eq!(rt.class(Image(c.image + 8), "System", "String"), None);
    assert_eq!(rt.class_name(Class(c.classes[2])), "Int32");
    let r: ClassRef = ClassRef { assembly: "mscorlib", namespace: "System", name: "Int32" };
    assert_eq!(find_class(&rt, r), Some(Class(c.classes[2])));
}

#[test]
fn an_index_is_built_once_and_not_when_aborted() {
    let c: Corlib = corlib(&reference(), "");
    let mut rt: Il2CppRuntime = runtime(&c, reference());
    assert!(rt.index_of(Image(c.image), &always));
    assert_eq!(rt.indexes.len(), 1);
    let other: Image = Image(c.image + 8);
    rt.list_classes(other, c.classes.clone());
    assert!(!rt.index_of(other, &always));
    assert_eq!(rt.indexes.len(), 1);
    assert_eq!((rt.s_len, rt.s_chars), (0x10, 0x14));
    assert!(rt.index_of(other, &never));
    assert!(rt.is_indexed(other));
    // An image without classes is indexed whatever the flag says.
    assert!(rt.index_of(Image(c.image + 16), &always));
    assert_eq!(rt.indexes.len(), 3);
}

#[test]
fn a_class_is_found_before_its_image_is_indexed() {
    let c: Corlib = corlib(&reference(), "");
    let mut rt: Il2CppRuntime = runtime(&c, reference());
    let other: Image = Image(c.image + 8);
    assert!(!rt.is_listed(other));
    rt.list_classes(other, c.classes.clone());
    // What was listed first stays.
    rt.list_classes(other, Vec::new());
    assert!(rt.is_listed(other));
    assert!(!rt.is_indexed(other));
    assert_eq!(rt.class(other, "System", "String"), Some(Class(c.classes[1])));
    assert_eq!(rt.class(other, "System", "Class39"), Some(Class(c.classes[39])));
    assert_eq!(rt.class(other, "", "String"), None);
    // Once the abort flag is up, only what was indexed is found.
    rt.stopped = true;
    assert_eq!(rt.class(other, "System", "String"), None);
    assert_eq!(rt.class(Image(c.image), "System", "String"), Some(Class(c.classes[1])));
    rt.stopped = false;
    assert!(rt.index_of(other, &never));
    assert_eq!(rt.class(other, "System", "String"), Some(Class(c.classes[1])));
    assert_eq!(rt.class(other, "System", "Class39"), Some(Class(c.classes[39])));
}

#[test]
fn fields_and_methods_are_inherited() {
    let l: Layout = moved();
    let c: Corlib = corlib(&l, "");
    let rt: Il2CppRuntime = runtime(&c, l);
    let s: Class = Class(c.classes[1]);
    let f = rt.field(s, "m_firstChar").unwrap();
    assert_eq!(rt.field_offset(f), 0x14);
    // A field of the base class.
    let g = rt.field(s, "second0").unwrap();
    assert_eq!(rt.field_offset(g), 0x18);
    assert_eq!(rt.field(Class(c.classes[0]), "second0"), Some(g));
    assert!(rt.field(s, "nowhere").is_none());
    // A method of the base class, any number of arguments.
    let own: Method = rt.method(s, "Own0", -1).unwrap();
    assert_eq!(rt.method(Class(c.classes[0]), "Own0", 0), Some(own));
    assert!(rt.method(s, "Own0", 3).is_none());
    assert!(rt.method_exact(s, "Own0", 0).is_none());
    assert_eq!(rt.native_ptr(own), Some(MODULE + 0x1000 + 0x30));
}

#[test]
fn exact_lookup_passes_over_generic_methods() {
    let c: Corlib = corlib(&reference(), "");
    let rt: Il2CppRuntime = runtime(&c, reference());
    let k: Class = Class(c.classes[5]);
    assert!(rt.method_exact(k, "Run", 1).is_none());
    let two: Method = rt.method_exact(k, "Run", 2).unwrap();
    assert_eq!(find_method(&rt, k, "Run", 2), Some(two));
    assert_eq!(rt.native_ptr(two), Some(MODULE + 0x1000 + 0x500 + 0x10));
    // Without the test for type parameters the first overload is found.
    let one: Method = rt.method(k, "Run", -1).unwrap();
    assert_eq!(rt.native_ptr(one), Some(MODULE + 0x1000 + 0x500));
}

#[test]
fn dumps_list_the_class_and_its_bases() {
    let c: Corlib = corlib(&reference(), "");
    let rt: Il2CppRuntime = runtime(&c, reference());
    let s: Class = Class(c.classes[1]);
    let fields: Vec<(String, i32)> = rt.dump_fields(s);
    assert_eq!(fields.len(), 5);
    assert_eq!(fields[0], ("m_stringLength".to_string(), 0x10));
    assert_eq!(fields[2], ("Empty".to_string(), 0));
    assert_eq!(fields[4], ("second0".to_string(), 0x18));
    let methods: Vec<(String, u32, bool, u64)> = rt.dump_methods(s);
    assert_eq!(methods.len(), 8);
    assert_eq!(methods[1], ("IsNullOrEmpty".to_string(), 1, true, MODULE + 0x1000 + 0x100 + 0x10));
    assert_eq!(methods[7].0, "Own0");
}

#[test]
fn offsets_are_resolved_by_key() {
    let c: Corlib = corlib(&reference(), "");
    let rt: Il2CppRuntime = runtime(&c, reference());
    let s: ClassRef = ClassRef { assembly: "mscorlib", namespace: "System", name: "String" };
    let specs: Vec<FieldSpec> = vec![
        FieldSpec { key: "chars", class: s, field: "m_firstChar" },
        FieldSpec { key: "lost", class: s, field: "nothing" },
        FieldSpec { key: "base", class: s, field: "first0" },
    ];
    let o = resolve_fields(&rt, &specs);
    assert_eq!(o.get("chars"), Some(0x14));
    assert_eq!(o.get("lost"), None);
    assert_eq!(o.get("base"), Some(0x10));
    assert_eq!(o.len(), 2);
}

#[test]
fn type_handles_need_an_element_type() {
    let c: Corlib = corlib(&reference(), "");
    let rt: Il2CppRuntime = runtime(&c, reference());
    assert_eq!(rt.type_handle(Class(c.classes[1])), Some(c.classes[1] + 0x20));
    assert_eq!(rt.type_handle(Class(c.image)), None);
    assert_eq!(rt.type_from_handle_method(Image(c.image)), None);
}

#[test]
fn strings_are_read_back() {
    let mut bytes: Vec<u8> = vec![0; 0x80];
    bytes[0x10] = 5;
    let units: Vec<u16> = "h\u{e9}\u{1F600}!".encode_utf16().collect();
    assert_eq!(units.len(), 5);
    for i in 0..5usize {
        bytes[0x14 + 2 * i..0x16 + 2 * i].copy_from_slice(&units[i].to_le_bytes());
    }
    let mut mem: Memory = Memory::new();
    assert!(mem.add(0x7000, &bytes));
    let rt: Il2CppRuntime = Il2CppRuntime {
        mem,
        l: reference(),
        s_len: 0x10,
        s_chars: 0x14,
        images: Vec::new(),
        lists: Vec::new(),
        indexes: Vec::new(),
        stopped: false,
    };
    assert_eq!(rt.string_to_rust(Object(0x7000)), Some("h\u{e9}\u{1F600}!".to_string()));
    assert_eq!(rt.string_to_rust(Object(0)), None);
    assert_eq!(rt.string_to_rust(Object(0x9000)), None);
}

#[test]
fn lone_surrogates_are_no_text() {
    assert_eq!(decode(&vec![0x41, 0xD83D, 0xDE00]), Some("A\u{1F600}".to_string()));
    assert_eq!(decode(&vec![0xD83D, 0x41]), None);
    assert_eq!(decode(&vec![0xDE00]), None);
    assert_eq!(decode(&vec![0xD83D]), None);
    assert_eq!(decode(&Vec::new()), Some(String::new()));
}

#[test]
fn the_string_layout_is_probed_from_a_known_string() {
    let probe: Vec<u16> = "il2cppProbe".encode_utf16().collect();
    let mut bytes: Vec<u8> = vec![0; 0x80];
    bytes[0x10] = 11;
    for i in 0..11usize {
        bytes[0x14 + 2 * i] = probe[i] as u8;
    }
    let mut mem: Memory = Memory::new();
    assert!(mem.add(0x7000, &bytes));
    assert_eq!(probe_string_layout(&mem, Object(0x7000)), Some((0x10, 0x14)));
    assert_eq!(probe_string_layout(&mem, Object(0)), None);
    assert_eq!(probe_string_layout(&mem, Object(0x7040)), None);
}

#[test]
fn arrays_are_checked_before_and_after() {
    assert!(may_make_array(true, 0x1_0000));
    assert!(!may_make_array(true, 0x1_0001));
    assert!(!may_make_array(false, 1));
    let mut bytes: Vec<u8> = vec![0; 0x40];
    bytes[0x18] = 2;
    let mut mem: Memory = Memory::new();
    assert!(mem.add(0x7000, &bytes));
    assert_eq!(new_array(&mem, Object(0x7000), 2), Some(Object(0x7000)));
    assert_eq!(new_array(&mem, Object(0x7000), 3), None);
    assert_eq!(new_array(&mem, Object(0), 2), None);
}

#[test]
fn readiness_and_suspicion() {
    assert!(matches!(readiness(1, 1, 33, true, true), Readiness::Ready));
    assert!(matches!(readiness(1, 1, 32, true, true), Readiness::Aborted));
    assert!(matches!(readiness(1, 0, 33, false, true), Readiness::TimedOut));
    assert!(matches!(readiness(0, 1, 33, false, false), Readiness::Sleep));
    assert!(suspicious_offset(-4));
    assert!(suspicious_offset(0x1_0004));
    assert!(suspicious_offset(0x12));
    assert!(!suspicious_offset(0x10));
}
