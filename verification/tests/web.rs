//! Requests, queries and the answers of every endpoint.

use eft_trainer::chams::Chams;
use eft_trainer::features::Features;
use eft_trainer::http::{
    build_needle, ep_chain, ep_chams, ep_class, ep_fields, ep_gameworld, ep_help, ep_menu,
    ep_methods, ep_module, ep_players, ep_raid, ep_read, ep_scan, ep_speed, ep_stamina, ep_status,
    ep_unknown, err, field_item, hex_nibble, jstr, method_item, name_passes, next_mult, ok,
    parse_i64, parse_query, parse_request, parse_usize, read_window, request_complete,
    request_target, resolve_class, respond, response, route, scan_bounds, set_speed, start_chain,
    step_item, url_bytes, url_decode, Chain, ChainStep, Endpoint, Facts, Query, RaidTexts,
    DEFAULT_SCAN_BYTES, HELP, HELP_TITLE,
};
use eft_trainer::il2cpp_abi::Layout;
use eft_trainer::il2cpp::{scan, RegionInfo, Scan};
use eft_trainer::il2cpp_runtime::{Il2CppRuntime, ImageClasses};
use eft_trainer::input::Pointer;
use eft_trainer::memory::Memory;
use eft_trainer::menu::{set_fps, Menu};
use eft_trainer::runtime::{Backend, Class, Image, Object};
use eft_trainer::text::{push_decimal, push_hex, push_signed};
use eft_trainer::world::{publish, Entry, Vec3, World};

fn q(s: &str) -> Query {
    parse_query(s)
}

fn body(r: (&'static str, &'static str, String)) -> String {
    assert_eq!(r.0, "200 OK");
    assert_eq!(r.1, "application/json");
    r.2
}

fn refusal(r: (&'static str, &'static str, String)) -> String {
    assert_eq!(r.0, "400 Bad Request");
    assert_eq!(r.1, "application/json");
    r.2
}

fn put(b: &mut Vec<u8>, at: usize, v: u64) {
    b[at..at + 8].copy_from_slice(&v.to_le_bytes());
}

#[test]
fn a_request_ends_with_an_empty_line() {
    assert!(!request_complete(&b"GET / HTTP/1.1\r\n".to_vec()));
    assert!(request_complete(&b"GET / HTTP/1.1\r\n\r\n".to_vec()));
    assert!(!request_complete(&vec![0; 16384]));
    assert!(request_complete(&vec![0; 16385]));
}

#[test]
fn the_target_is_the_second_word() {
    let t = |s: &str| request_target(s);
    assert_eq!(t("GET /read?addr=1&len=2 HTTP/1.1\r\nHost: x"), ("/read".to_string(), "addr=1&len=2".to_string()));
    assert_eq!(t("GET  /status\tHTTP/1.1"), ("/status".to_string(), String::new()));
    assert_eq!(t("GET\r\n/status"), ("/".to_string(), String::new()));
    assert_eq!(t(""), ("/".to_string(), String::new()));
    assert_eq!(t("GET /a?b?c"), ("/a".to_string(), "b?c".to_string()));
    let bytes: Vec<u8> = vec![0x47, 0x20, 0x2F, 0xFF, 0x3F, 0x71, 0x20];
    assert_eq!(parse_request(&bytes), ("/\u{fffd}".to_string(), "q".to_string()));
}

#[test]
fn a_response_states_its_length_in_bytes() {
    assert_eq!(
        response("200 OK", "text/plain", "\u{e9}a"),
        "HTTP/1.1 200 OK\r\nContent-Type: text/plain\r\nContent-Length: 3\r\nConnection: close\r\nAccess-Control-Allow-Origin: *\r\n\r\n\u{e9}a"
    );
}

#[test]
fn queries_are_decoded() {
    assert_eq!(url_decode("a+b%2Fc"), "a b/c");
    assert_eq!(url_decode("%C3%A9"), "\u{e9}");
    assert_eq!(url_decode("caf\u{e9}"), "caf\u{e9}");
    assert_eq!(url_decode("%FF"), "\u{fffd}");
    assert_eq!(url_decode("100%"), "100%");
    assert_eq!(url_decode("%4"), "%4");
    assert_eq!(url_decode("%zz%41"), "%zzA");
    assert_eq!(url_bytes(b"%00+"), vec![0, 32]);
    assert_eq!(hex_nibble(b'f'), Some(15));
    assert_eq!(hex_nibble(b'F'), Some(15));
    assert_eq!(hex_nibble(b'g'), None);
    let x: Query = q("a=1&&b&c=x%3Dy&a=2");
    assert_eq!(x.get("a"), Some(&"2".to_string()));
    assert_eq!(x.get("b"), Some(&String::new()));
    assert_eq!(x.get("c"), Some(&"x=y".to_string()));
    assert_eq!(x.get("d"), None);
    assert_eq!(q("").get(""), None);
}

#[test]
fn numbers_are_hexadecimal_or_decimal() {
    assert_eq!(parse_usize(" 0x1F "), Some(31));
    assert_eq!(parse_usize("0X1f"), Some(31));
    assert_eq!(parse_usize("31"), Some(31));
    assert_eq!(parse_usize("0x"), None);
    assert_eq!(parse_usize("-1"), None);
    assert_eq!(parse_usize("1F"), None);
    assert_eq!(parse_i64("-12"), Some(-12));
    assert_eq!(parse_i64("0x-10"), Some(-16));
    assert_eq!(parse_i64("0xFFFFFFFFFFFFFFFF"), None);
}

#[test]
fn numbers_of_answers_are_read_back() {
    for n in [0u64, 9, 10, 15, 16, 0xDEAD_BEEF, u64::MAX] {
        let mut h: String = String::new();
        push_hex(&mut h, n);
        assert_eq!(parse_usize(&h), Some(n));
        let mut d: String = String::new();
        push_decimal(&mut d, n);
        assert_eq!(parse_usize(&d), Some(n));
    }
    for v in [0i64, -1, i64::MIN, i64::MAX] {
        let mut s: String = String::new();
        push_signed(&mut s, v);
        assert_eq!(parse_i64(&s), Some(v));
    }
}

#[test]
fn text_is_escaped_for_json() {
    assert_eq!(jstr("a\"b\\c\n\r\t\u{1}\u{e9}"), "\"a\\\"b\\\\c\\n\\r\\t\\u0001\u{e9}\"");
    assert_eq!(jstr(""), "\"\"");
    assert_eq!(body(ok("{}".to_string())), "{}");
    assert_eq!(refusal(err("no \"x\"")), "{\"error\":\"no \\\"x\\\"\"}");
}

#[test]
fn paths_are_routed() {
    assert!(matches!(route("/"), Endpoint::Help));
    assert!(matches!(route("/status"), Endpoint::Status));
    assert!(matches!(route("/module"), Endpoint::Module));
    assert!(matches!(route("/class"), Endpoint::Class));
    assert!(matches!(route("/fields"), Endpoint::Fields));
    assert!(matches!(route("/methods"), Endpoint::Methods));
    assert!(matches!(route("/read"), Endpoint::Read));
    assert!(matches!(route("/chain"), Endpoint::Chain));
    assert!(matches!(route("/scan"), Endpoint::Scan));
    assert!(matches!(route("/gameworld"), Endpoint::GameWorld));
    assert!(matches!(route("/players"), Endpoint::Players));
    assert!(matches!(route("/chams"), Endpoint::Chams));
    assert!(matches!(route("/raid"), Endpoint::Raid));
    assert!(matches!(route("/stamina"), Endpoint::Stamina));
    assert!(matches!(route("/speed"), Endpoint::Speed));
    assert!(matches!(route("/menu"), Endpoint::Menu));
    assert!(matches!(route("/menu/"), Endpoint::Unknown));
    let help: String = format!("{}{}", HELP_TITLE, HELP);
    assert!(help.starts_with("eftTrainer HTTP control\n/status\n/module?name="));
    assert!(help.ends_with("numbers accept 0x-hex or decimal\n"));
    assert_eq!(ep_help(), ("200 OK", "text/plain; charset=utf-8", help));
    assert_eq!(refusal(ep_unknown()), "{\"error\":\"unknown endpoint (GET / for help)\"}");
}

#[test]
fn the_status_tells_everything() {
    let mut m: Menu = Menu::new();
    set_fps(&mut m, 60);
    let c: Chams = Chams::new();
    let p: Pointer = Pointer { x: -3, y: 4 };
    assert_eq!(
        body(ep_status(Some(Backend::Il2Cpp), 0x10, Some((0x1000, 0x2000)), None, &m, &p, &c)),
        "{\"backend\":\"IL2CPP\",\"domain\":\"0x10\",\"gameassembly\":{\"base\":\"0x1000\",\"end\":\"0x2000\"},\"unityplayer\":null,\
         \"menu\":{\"visible\":true,\"frames\":0,\"fps\":60,\"cursor\":[-3,4],\
         \"onframe_us\":{\"last\":0,\"max\":0,\"avg\":0}},\
         \"chams\":{\"on\":false,\"scheme\":0,\"name\":\"plasma\",\"count\":6,\"style\":\"flat\"}}"
    );
    assert!(body(ep_status(None, 0, None, None, &m, &p, &c)).starts_with("{\"backend\":\"none\""));
}

#[test]
fn modules_are_looked_up_by_name() {
    assert_eq!(
        body(ep_module(&q("name=a.dll"), Some((0x1000, 0x1800)))),
        "{\"name\":\"a.dll\",\"base\":\"0x1000\",\"end\":\"0x1800\",\"size\":2048}"
    );
    assert_eq!(refusal(ep_module(&q(""), None)), "{\"error\":\"need name=\"}");
    assert_eq!(refusal(ep_module(&q("name=b"), None)), "{\"error\":\"module not loaded\"}");
}

/// One class with a field and a method, in the layout below.
fn metadata() -> Vec<u8> {
    let mut b: Vec<u8> = vec![0; 0x800];
    // class at 0x1000
    put(&mut b, 0x10, 0x1400);
    put(&mut b, 0x18, 0x1410);
    put(&mut b, 0x80, 0x1200);
    b[0x124] = 1;
    put(&mut b, 0x98, 0x1280);
    b[0x120] = 1;
    // field at 0x1200
    put(&mut b, 0x200, 0x1420);
    put(&mut b, 0x210, 0x1000);
    b[0x218] = 0x30;
    // method table at 0x1280, method at 0x1300
    put(&mut b, 0x280, 0x1300);
    put(&mut b, 0x300, 0x7777);
    put(&mut b, 0x318, 0x1430);
    put(&mut b, 0x320, 0x1000);
    b[0x34C] = 0x96;
    b[0x352] = 2;
    // image at 0x1600
    put(&mut b, 0x600, 0x1440);
    b[0x400..0x406].copy_from_slice(b"Player");
    b[0x410..0x413].copy_from_slice(b"EFT");
    b[0x420..0x428].copy_from_slice(b"Physical");
    b[0x430..0x434].copy_from_slice(b"Jump");
    b[0x440..0x453].copy_from_slice(b"Assembly-CSharp.dll");
    b
}

fn layout() -> Layout {
    Layout {
        c_name: 0x10,
        c_namespace: 0x18,
        c_byval: 0x20,
        c_parent: 0x58,
        c_fields: 0x80,
        c_field_count: 0x124,
        c_methods: 0x98,
        c_method_count: 0x120,
        f_name: 0x00,
        f_parent: 0x10,
        f_offset: 0x18,
        f_stride: 0x20,
        m_ptr: 0x00,
        m_name: 0x18,
        m_klass: 0x20,
        m_flags: 0x4C,
        m_param_count: 0x52,
        m_bits: 0x53,
        i_name: 0x00,
    }
}

fn never() -> bool {
    false
}

fn runtime(b: &Vec<u8>) -> Il2CppRuntime<'_> {
    let mut mem: Memory = Memory::new();
    assert!(mem.add(0x1000, b));
    let mut rt: Il2CppRuntime = Il2CppRuntime {
        mem,
        l: layout(),
        s_len: 0x10,
        s_chars: 0x14,
        images: vec![0x1600],
        lists: vec![ImageClasses { image: Image(0x1600), classes: vec![0x1000] }],
        indexes: Vec::new(),
        stopped: false,
    };
    assert!(rt.index_of(Image(0x1600), &never));
    rt
}

#[test]
fn a_class_is_asked_for_by_address_or_name() {
    let b: Vec<u8> = metadata();
    let rt: Il2CppRuntime = runtime(&b);
    assert_eq!(resolve_class(&rt, &q("class=0x55")), Ok(Class(0x55)));
    assert_eq!(resolve_class(&rt, &q("asm=Assembly-CSharp&ns=EFT&name=Player")), Ok(Class(0x1000)));
    assert_eq!(resolve_class(&rt, &q("name=Player")), Err("need asm= or class=".to_string()));
    assert_eq!(resolve_class(&rt, &q("asm=x")), Err("need name= or class=".to_string()));
    assert_eq!(resolve_class(&rt, &q("asm=x&name=y")), Err("assembly not found: x".to_string()));
    assert_eq!(
        resolve_class(&rt, &q("asm=assembly-csharp&name=Player")),
        Err("class not found: .Player".to_string())
    );
}

#[test]
fn classes_fields_and_methods_are_listed() {
    let b: Vec<u8> = metadata();
    let rt: Il2CppRuntime = runtime(&b);
    let who: &str = "asm=Assembly-CSharp&ns=EFT&name=Player";
    assert_eq!(
        body(ep_class(Some(&rt), &q(who))),
        "{\"ptr\":\"0x1000\",\"name\":\"Player\",\"fields\":1,\"methods\":1}"
    );
    assert_eq!(
        body(ep_fields(Some(&rt), &q(who))),
        "[{\"name\":\"Physical\",\"offset\":48,\"offset_hex\":\"0x30\"}]"
    );
    assert_eq!(
        body(ep_methods(Some(&rt), &q(who))),
        "[{\"name\":\"Jump\",\"argc\":2,\"static\":true,\"ptr\":\"0x7777\"}]"
    );
    // The filter knows no case.
    assert_ne!(body(ep_fields(Some(&rt), &q(&format!("{}&q=PHYS", who)))), "[]");
    assert_eq!(body(ep_fields(Some(&rt), &q(&format!("{}&q=other", who)))), "[]");
    assert_eq!(body(ep_methods(Some(&rt), &q(&format!("{}&q=walk", who)))), "[]");
    assert_eq!(refusal(ep_class(None, &q(who))), "{\"error\":\"runtime not ready\"}");
    assert_eq!(refusal(ep_fields(Some(&rt), &q(""))), "{\"error\":\"need asm= or class=\"}");
    assert!(name_passes("physical", &Some("sic".to_string())));
    assert!(!name_passes("physical", &Some("Sic".to_string())));
    assert!(name_passes("physical", &None));
    assert_eq!(field_item("x", -1), "{\"name\":\"x\",\"offset\":-1,\"offset_hex\":\"0xffffffff\"}");
    assert_eq!(
        method_item("m", 0, false, 16),
        "{\"name\":\"m\",\"argc\":0,\"static\":false,\"ptr\":\"0x10\"}"
    );
}

#[test]
fn reading_shrinks_to_what_is_readable() {
    let mut b: Vec<u8> = vec![0; 20];
    b[0..4].copy_from_slice(&1.5f32.to_le_bytes());
    b[4] = 0x41;
    let mut mem: Memory = Memory::new();
    assert!(mem.add(0x1000, &b));
    assert_eq!(read_window(&mem, &q("addr=0x1000")), Ok((0x1000, 16)));
    assert_eq!(read_window(&mem, &q("addr=0x1000&len=20")), Ok((0x1000, 20)));
    assert_eq!(read_window(&mem, &q("addr=0x1000&len=0")), Ok((0x1000, 1)));
    assert_eq!(read_window(&mem, &q("addr=0x1000&len=999999")), Ok((0x1000, 16)));
    assert_eq!(read_window(&mem, &q("addr=0x5000")), Err("address not readable"));
    assert_eq!(read_window(&mem, &q("len=3")), Err("need addr="));
    assert_eq!(
        body(ep_read(&mem, 0x1000, 8, "1.5", "0.25")),
        "{\"addr\":\"0x1000\",\"len\":8,\"hex\":\"0000C03F41000000\",\"ascii\":\"...?A...\",\
         \"i32\":1069547520,\"u32\":1069547520,\"f32\":1.5,\
         \"i64\":280242421760,\"u64\":280242421760,\"f64\":0.25,\"ptr\":\"0x413fc00000\"}"
    );
    assert_eq!(
        body(ep_read(&mem, 0x1004, 1, "", "")),
        "{\"addr\":\"0x1004\",\"len\":1,\"hex\":\"41\",\"ascii\":\"A\"}"
    );
}

fn follow(mem: &Memory, query: &str) -> (Vec<ChainStep>, u64) {
    let mut c: Chain = start_chain(&q(query)).ok().unwrap();
    while c.wants().is_some() {
        c.step(mem);
    }
    (c.steps, c.cur)
}

#[test]
fn a_chain_asks_for_one_address_after_the_other() {
    let mut b: Vec<u8> = vec![0; 0x18];
    put(&mut b, 0x10, 0x2000);
    let mut first: Memory = Memory::new();
    assert!(first.add(0x1000, &b));
    let mut c: Chain = start_chain(&q("addr=0x1000&path=0x10,4,8")).ok().unwrap();
    assert_eq!(c.wants(), Some(0x1010));
    c.step(&first);
    assert_eq!(c.wants(), Some(0x2004));
    // Four bytes of the next region, and what adjoins it is not asked for.
    let four: [u8; 8] = [0, 0, 0, 0, 1, 2, 3, 4];
    let mut second: Memory = Memory::new();
    assert!(second.add(0x2000, &four));
    c.step(&second);
    assert_eq!(c.wants(), None);
    assert!(c.broken);
    assert_eq!(c.cur, 0x2000);
    assert_eq!(c.steps[1].ptr, None);
    assert_eq!(c.steps[1].bits, Some(0x0403_0201));
    // A sum of address and offset goes round.
    let d: Chain = start_chain(&q("addr=0xffffffffffffffff&path=3")).ok().unwrap();
    assert_eq!(d.wants(), Some(2));
}

#[test]
fn a_chain_stops_where_nothing_is_readable() {
    let mut b: Vec<u8> = vec![0; 0x20];
    put(&mut b, 0x10, 0x1008);
    put(&mut b, 0x08, 0x9000);
    let mut mem: Memory = Memory::new();
    assert!(mem.add(0x1000, &b));
    let (steps, end) = follow(&mem, "addr=0x1000&path=0x10,x,0,4,8");
    assert_eq!(end, 0x9000);
    assert_eq!(steps.len(), 3);
    assert_eq!(steps[0].ptr, Some(0x1008));
    assert_eq!(steps[1].at, 0x1008);
    assert_eq!(steps[2].ptr, None);
    assert_eq!(start_chain(&q("path=1")).err(), Some("need addr="));
    assert_eq!(start_chain(&q("addr=1")).err(), Some("need path=0x10,0x8,.."));
    assert_eq!(start_chain(&q("addr=1&path=x,")).err(), Some("empty path"));
    let floats: Vec<String> = vec!["1".to_string(), "2".to_string(), "null".to_string()];
    assert_eq!(
        body(ep_chain(&steps, end, &floats)),
        "{\"final\":\"0x9000\",\"steps\":[\
         {\"off\":\"0x10\",\"at\":\"0x1010\",\"ptr\":\"0x1008\",\"i64\":4104,\"f32\":1},\
         {\"off\":\"0x0\",\"at\":\"0x1008\",\"ptr\":\"0x9000\",\"i64\":36864,\"f32\":2},\
         {\"off\":\"0x4\",\"at\":\"0x9004\",\"ptr\":null,\"i64\":null,\"f32\":null}]}"
    );
    let s: ChainStep = ChainStep { off: 1, at: 2, ptr: None, bits: Some(0) };
    assert_eq!(step_item(&s, "0"), "{\"off\":\"0x1\",\"at\":\"0x2\",\"ptr\":null,\"i64\":null,\"f32\":0}");
}

#[test]
fn a_needle_is_built_from_every_kind_of_value() {
    let n = |s: &str| build_needle(&q(s), None, None);
    assert_eq!(n("hex=DE AD+be"), Ok(vec![0xDE, 0xAD, 0xBE]));
    assert_eq!(n("hex=ABC"), Err("hex needs an even number of digits"));
    assert_eq!(n("hex=zz"), Err("bad hex digit"));
    // Digits are counted in bytes.
    assert_eq!(n("hex=%C3%A9"), Err("bad hex digit"));
    assert_eq!(n("hex=%C3%A9a"), Err("hex needs an even number of digits"));
    assert_eq!(n("hex=A%C2%A0B"), Ok(vec![0xAB]));
    assert_eq!(n("hex="), Ok(Vec::new()));
    assert_eq!(n("str=h%C3%A9"), Ok(vec![0x68, 0xC3, 0xA9]));
    assert_eq!(n("utf16=%F0%9F%98%80a"), Ok(vec![0x3D, 0xD8, 0x00, 0xDE, 0x61, 0x00]));
    assert_eq!(n("i32=-2"), Ok(vec![0xFE, 0xFF, 0xFF, 0xFF]));
    assert_eq!(n("i32=0x100000001"), Ok(vec![1, 0, 0, 0]));
    assert_eq!(n("u32=0x1FFFFFFFF"), Ok(vec![0xFF, 0xFF, 0xFF, 0xFF]));
    assert_eq!(n("i64=-1"), Ok(vec![0xFF; 8]));
    assert_eq!(n("u64=258"), Ok(vec![2, 1, 0, 0, 0, 0, 0, 0]));
    assert_eq!(
        build_needle(&q("f32=1.5"), Some(1.5f32.to_bits()), None),
        Ok(1.5f32.to_le_bytes().to_vec())
    );
    assert_eq!(
        build_needle(&q("f64=1.5"), None, Some(1.5f64.to_bits())),
        Ok(1.5f64.to_le_bytes().to_vec())
    );
    assert_eq!(n("i32=x"), Err("need one of hex/str/utf16/i32/u32/i64/u64/f32/f64"));
}

#[test]
fn a_scan_is_bounded_by_module_or_addresses() {
    assert_eq!(scan_bounds(&q("start=0x10&end=32&max=5"), None), Ok((16, 32, 5)));
    assert_eq!(scan_bounds(&q(""), None), Ok((0, 0x7FFF_FFFF_0000, 64)));
    assert_eq!(scan_bounds(&q("mod=a&start=1"), Some((7, 9))), Ok((7, 9, 64)));
    assert_eq!(scan_bounds(&q("mod=a"), None), Err("module not loaded"));
    assert_eq!(
        body(ep_scan(4, &vec![16, 32])),
        "{\"needle_len\":4,\"count\":2,\"hits\":[\"0x10\",\"0x20\"]}"
    );
}

#[test]
fn the_world_and_its_players_are_told() {
    let b: Vec<u8> = metadata();
    let rt: Il2CppRuntime = runtime(&b);
    let none: Memory = Memory::new();
    assert_eq!(body(ep_gameworld(&none, Object(0x20))), "{\"ptr\":\"0x20\",\"alive\":false}");
    assert_eq!(
        body(ep_players(Some(&rt), &none, Object(0))),
        "{\"gameworld\":null,\"players\":[]}"
    );
    let mut w: Vec<u8> = vec![0; 0x40];
    w[0x10] = 1;
    let mut mem: Memory = Memory::new();
    assert!(mem.add(0x3000, &w));
    assert_eq!(body(ep_gameworld(&mem, Object(0x3000))), "{\"ptr\":\"0x3000\",\"alive\":true}");
    assert_eq!(
        refusal(ep_players(Some(&rt), &mem, Object(0x3000))),
        "{\"error\":\"GameWorld class not found\"}"
    );
    let nobody: Option<&Il2CppRuntime> = None;
    assert_eq!(
        refusal(ep_players(nobody, &mem, Object(0x3000))),
        "{\"error\":\"runtime not ready\"}"
    );
}

#[test]
fn players_come_from_the_first_list_field() {
    // The one class is the world, and its field is the list of players.
    let mut b: Vec<u8> = metadata();
    b[0x400..0x40A].copy_from_slice(b"GameWorld\0");
    b[0x420..0x432].copy_from_slice(b"RegisteredPlayers\0");
    put(&mut b, 0x318, 0x1450);
    b[0x440..0x453].copy_from_slice(b"Assembly-CSharp.dll");
    let rt: Il2CppRuntime = runtime(&b);
    // A world at 0x4000, its list at 0x4100, the array at 0x4200.
    let mut w: Vec<u8> = vec![0; 0x300];
    put(&mut w, 0x10, 1);
    put(&mut w, 0x30, 0x4100);
    put(&mut w, 0x110, 0x4200);
    put(&mut w, 0x118, 3);
    put(&mut w, 0x218, 3);
    put(&mut w, 0x220, 0x77);
    put(&mut w, 0x230, 0x78);
    let mut mem: Memory = Memory::new();
    assert!(mem.add(0x4000, &w));
    assert_eq!(
        body(ep_players(Some(&rt), &mem, Object(0x4000))),
        "{\"gameworld\":\"0x4000\",\"field\":\"RegisteredPlayers\",\"field_off\":\"0x30\",\"count\":2,\"players\":[\"0x77\",\"0x78\"]}"
    );
}

#[test]
fn chams_are_driven_by_query() {
    let mut c: Chams = Chams::new();
    assert_eq!(
        body(ep_chams(&mut c, &q("on=yes&scheme=8&style=mesh"))),
        "{\"on\":true,\"scheme\":2,\"name\":\"toxic\",\"count\":6,\"style\":\"mesh\"}"
    );
    assert_eq!(
        body(ep_chams(&mut c, &q("on=0&scheme=0x4&style=1"))),
        "{\"on\":false,\"scheme\":4,\"name\":\"ice\",\"count\":6,\"style\":\"glow\"}"
    );
    assert_eq!(
        body(ep_chams(&mut c, &q("scheme=x&style=anything"))),
        "{\"on\":false,\"scheme\":4,\"name\":\"ice\",\"count\":6,\"style\":\"flat\"}"
    );
    // A number with white space around it is no number of a scheme or style.
    assert_eq!(
        body(ep_chams(&mut c, &q("scheme=%202&style=+1"))),
        "{\"on\":false,\"scheme\":4,\"name\":\"ice\",\"count\":6,\"style\":\"flat\"}"
    );
    let before: String = body(ep_chams(&mut c, &q("")));
    assert_eq!(body(ep_chams(&mut c, &q("x=1"))), before);
}

#[test]
fn switches_are_driven_by_query() {
    let mut f: Features = Features::new();
    assert_eq!(body(ep_stamina(&mut f, &q("on=true"))), "{\"inf_stamina\":true}");
    assert_eq!(body(ep_stamina(&mut f, &q(""))), "{\"inf_stamina\":true}");
    assert_eq!(body(ep_stamina(&mut f, &q("on=off"))), "{\"inf_stamina\":false}");
    set_speed(&mut f, &q("on=on"), Some(9.0f32.to_bits()));
    assert!(f.speed);
    assert_eq!(f.mult, 1.4f32.to_bits());
    set_speed(&mut f, &q(""), None);
    assert_eq!(f.mult, 1.4f32.to_bits());
    assert_eq!(body(ep_speed(&f, "1.40")), "{\"on\":true,\"mult\":1.40}");
    assert_eq!(next_mult(&f, None), 1.4f32.to_bits());
    assert_eq!(next_mult(&f, Some(1.2f32.to_bits())), 1.2f32.to_bits());
    assert_eq!(next_mult(&f, Some(f32::NAN.to_bits())), 1.0f32.to_bits());
    set_speed(&mut f, &q(""), Some(f32::NAN.to_bits()));
    assert_eq!(f.mult, 1.0f32.to_bits());
    let mut m: Menu = Menu::new();
    assert_eq!(body(ep_menu(&mut m, &q("visible=0"))), "{\"visible\":false}");
    assert_eq!(body(ep_menu(&mut m, &q("visible=1"))), "{\"visible\":true}");
}

#[test]
fn the_raid_snapshot_is_listed() {
    let mut w: World = World::new();
    let z: Vec3 = Vec3 { x: 0, y: 0, z: 0 };
    publish(
        &mut w,
        vec![Entry {
            ptr: 0x50,
            is_local: false,
            is_bot: true,
            pos: z,
            screen: z,
            on_screen: false,
            dist: 0,
        }],
    );
    let s = |x: &str| x.to_string();
    let texts: Vec<RaidTexts> = vec![RaidTexts {
        pos: (s("1.00"), s("2.00"), s("3.00")),
        screen: (s("4.0"), s("5.0"), s("6.00")),
        dist: s("7.0"),
    }];
    assert_eq!(
        body(ep_raid(&mut w, &q("on=1"), &texts)),
        "{\"enabled\":true,\"count\":1,\"players\":[{\"ptr\":\"0x50\",\"local\":false,\"bot\":true,\
         \"pos\":[1.00,2.00,3.00],\"screen\":[4.0,5.0,6.00],\"on_screen\":false,\"dist\":7.0}]}"
    );
}

#[test]
fn escapes_stand_for_the_bytes_they_name() {
    assert_eq!(url_decode("%68%C3%A9%2b%25"), "h\u{e9}+%");
    assert_eq!(url_decode("%68%c3%a9%2B%25"), "h\u{e9}+%");
    assert_eq!(url_bytes(b"%aB%Ab%fE"), vec![0xAB, 0xAB, 0xFE]);
    assert_eq!(url_bytes(b"%00%ff%FFx"), vec![0, 0xFF, 0xFF, 0x78]);
}

#[test]
fn numbers_are_read_in_either_case_and_with_space_around() {
    for s in ["0xdeadbeef", "0XDEADBEEF", " 0xDeadBeef\t", "\u{a0}3735928559 "] {
        assert_eq!(parse_usize(s), Some(0xDEAD_BEEF));
    }
    assert_eq!(parse_i64("\n-12 "), Some(-12));
    assert_eq!(parse_usize("1 2"), None);
}

/// Facts of which every endpoint finds those that it asks for.
fn facts<'a>(mem: &'a Memory<'a>, pointer: &'a Pointer) -> Facts<'a, 'a> {
    Facts {
        rt: None,
        mem,
        world: Object(0x20),
        backend: Some(Backend::Il2Cpp),
        domain: 0x10,
        game: None,
        player: None,
        module: Some((0x1000, 0x3000)),
        pointer,
        f32_text: String::new(),
        f64_text: String::new(),
        chain: None,
        chain_texts: Vec::new(),
        f32_bits: None,
        f64_bits: None,
        scan: None,
        raid_texts: Vec::new(),
        mult: Some(f32::NAN.to_bits()),
        mult_text: "1.00".to_string(),
    }
}

#[test]
fn every_endpoint_answers_for_itself() {
    let b: [u8; 2] = [0x41, 0x42];
    let mut mem: Memory = Memory::new();
    assert!(mem.add(0x1000, &b));
    let pointer: Pointer = Pointer { x: 0, y: 0 };
    let mut x: Facts = facts(&mem, &pointer);
    let mut found: Scan =
        Scan::new(vec![0x41, 0x42], 0, 0x7FFF_FFFF_0000, 64, DEFAULT_SCAN_BYTES);
    let r: RegionInfo = RegionInfo { base: 0x1000, size: 2, state: 0x1000, protect: 4 };
    assert!(!scan(&mut found, &r, &b, never));
    x.scan = Some(found);
    let mut m: Menu = Menu::new();
    let mut c: Chams = Chams::new();
    let mut f: Features = Features::new();
    let mut w: World = World::new();
    let mut ask = |path: &str, query: &str| {
        respond(route(path), &q(query), &x, &mut m, &mut c, &mut f, &mut w)
    };
    assert_eq!(ask("/", "").1, "text/plain; charset=utf-8");
    assert!(body(ask("/status", "")).starts_with("{\"backend\":\"IL2CPP\",\"domain\":\"0x10\""));
    assert_eq!(
        body(ask("/module", "name=a")),
        "{\"name\":\"a\",\"base\":\"0x1000\",\"end\":\"0x3000\",\"size\":8192}"
    );
    assert_eq!(refusal(ask("/module", "")), "{\"error\":\"need name=\"}");
    for path in ["/class", "/fields", "/methods", "/players"] {
        assert_eq!(refusal(ask(path, "")), "{\"error\":\"runtime not ready\"}");
    }
    assert_eq!(
        body(ask("/read", "addr=0x1000&len=2")),
        "{\"addr\":\"0x1000\",\"len\":2,\"hex\":\"4142\",\"ascii\":\"AB\"}"
    );
    assert_eq!(refusal(ask("/read", "addr=5")), "{\"error\":\"address not readable\"}");
    assert_eq!(refusal(ask("/chain", "")), "{\"error\":\"need addr=\"}");
    assert_eq!(
        body(ask("/scan", "hex=4142")),
        "{\"needle_len\":2,\"count\":1,\"hits\":[\"0x1000\"]}"
    );
    assert_eq!(refusal(ask("/scan", "hex=4")), "{\"error\":\"hex needs an even number of digits\"}");
    assert_eq!(body(ask("/gameworld", "")), "{\"ptr\":\"0x20\",\"alive\":false}");
    assert!(body(ask("/chams", "on=1")).starts_with("{\"on\":true,"));
    assert_eq!(body(ask("/raid", "on=1")), "{\"enabled\":true,\"count\":0,\"players\":[]}");
    assert_eq!(body(ask("/stamina", "on=1")), "{\"inf_stamina\":true}");
    assert_eq!(body(ask("/speed", "on=1")), "{\"on\":true,\"mult\":1.00}");
    assert_eq!(body(ask("/menu", "visible=0")), "{\"visible\":false}");
    assert!(!m.visible && c.enabled && f.stamina && f.speed && w.enabled);
    assert_eq!(f.mult, 1.0f32.to_bits());
}

#[test]
fn a_followed_chain_is_answered_with() {
    let mut b: Vec<u8> = vec![0; 0x18];
    put(&mut b, 0x10, 0x2000);
    let mut mem: Memory = Memory::new();
    assert!(mem.add(0x1000, &b));
    let query: Query = q("addr=0x1000&path=0x10");
    let mut chain: Chain = start_chain(&query).ok().unwrap();
    chain.step(&mem);
    let pointer: Pointer = Pointer { x: 0, y: 0 };
    let mut x: Facts = facts(&mem, &pointer);
    x.chain = Some(chain);
    x.chain_texts = vec!["0.5".to_string()];
    let (mut m, mut c, mut f, mut w) =
        (Menu::new(), Chams::new(), Features::new(), World::new());
    assert_eq!(
        body(respond(route("/chain"), &query, &x, &mut m, &mut c, &mut f, &mut w)),
        "{\"final\":\"0x2000\",\"steps\":[\
         {\"off\":\"0x10\",\"at\":\"0x1010\",\"ptr\":\"0x2000\",\"i64\":8192,\"f32\":0.5}]}"
    );
}

#[test]
fn a_path_that_is_not_served_changes_nothing() {
    let mem: Memory = Memory::new();
    let pointer: Pointer = Pointer { x: 0, y: 0 };
    let x: Facts = facts(&mem, &pointer);
    let (mut m, mut c, mut f, mut w) =
        (Menu::new(), Chams::new(), Features::new(), World::new());
    for path in ["/nothing", "/chams/", "", "/Menu"] {
        let r = respond(
            route(path),
            &q("on=1&visible=0&scheme=3"),
            &x,
            &mut m,
            &mut c,
            &mut f,
            &mut w,
        );
        assert_eq!(refusal(r), "{\"error\":\"unknown endpoint (GET / for help)\"}");
    }
    assert!(m.visible && !c.enabled && !f.stamina && !f.speed && !w.enabled);
    assert_eq!(c.scheme, 0);
}
