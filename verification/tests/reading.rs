//! Reading memory and text, and the walk and scan over an address space.

use eft_trainer::control::{aborted, request_abort, Control};
use eft_trainer::il2cpp::{
    assemblies, committed, cstr, cstr_lossy, is_identifier, is_namespace, load_wait, module_bounds,
    readable, readable_now, refresh_regions, scan, str_at, CacheOnly, LoadWait, RegionInfo, Regions,
    Scan, SliceEnd, Walk, ADDRESS_TOP, POLL_EVERY,
};
use eft_trainer::memory::{in_table, Memory};
use eft_trainer::runtime::{
    array_get, array_len, array_set, is_alive, list_count, list_items, read_field, read_field_u32,
    read_field_u8, unbox_bool, unbox_i32, unbox_vec3, write_field, Backend, Object, Store,
};
use eft_trainer::text::{
    chars_of, eq_ignore_case, has_text, is_blank, is_white, join_from, parse_signed,
    parse_unsigned, push_byte, push_decimal, push_hex, push_signed, same, split_at_char,
    starts_with, string_of, strip_tail, trim,
};

fn region(base: u64, size: u64, protect: u32) -> RegionInfo {
    RegionInfo { base, size, state: 0x1000, protect }
}

fn never() -> bool {
    false
}

fn always() -> bool {
    true
}

#[test]
fn the_abort_flag_stays_up() {
    let mut c: Control = Control::new();
    assert!(!aborted(&c));
    request_abort(&mut c);
    request_abort(&mut c);
    assert!(aborted(&c));
}

#[test]
fn memory_reads_only_what_is_there() {
    let a: [u8; 8] = [1, 2, 3, 4, 5, 6, 7, 0x88];
    let b: [u8; 4] = [9, 0, 0, 0xFF];
    let mut mem: Memory = Memory::new();
    assert!(mem.add(0x1000, &a));
    assert!(mem.add(0x2000, &b));
    assert_eq!(mem.read_u8(0x1000, 7), Some(0x88));
    assert_eq!(mem.read_u16(0x1000, 0), Some(0x0201));
    assert_eq!(mem.read_u32(0x1000, 4), Some(0x8807_0605));
    assert_eq!(mem.read_i32(0x1000, 4), Some(0x8807_0605u32 as i32));
    assert_eq!(mem.read_u64(0x1000, 0), Some(0x8807_0605_0403_0201));
    assert_eq!(mem.read_u32(0x1000, 5), None);
    assert_eq!(mem.read_u32(0x2000, 0), Some(0xFF00_0009));
    assert_eq!(mem.read_u64(0x2000, 0), None);
    assert_eq!(mem.byte(0x1FFF), None);
    assert!(!mem.readable(0, 1));
    assert!(!mem.readable(0x1000, 0));
    assert!(mem.readable(0x1000, 8));
    assert!(!mem.readable(0x1000, 9));
    assert!(!mem.readable_at(u64::MAX, 1, 1));
}

#[test]
fn overlapping_spans_are_refused() {
    let a: [u8; 8] = [0; 8];
    let mut mem: Memory = Memory::new();
    assert!(mem.add(0x1000, &a));
    assert!(!mem.add(0x1004, &a));
    assert!(!mem.add(0, &a));
}

#[test]
fn a_null_pointer_is_no_pointer() {
    let mut v: Vec<u8> = vec![0; 16];
    v[8] = 1;
    let mut mem: Memory = Memory::new();
    assert!(mem.add(0x1000, &v));
    assert_eq!(mem.read_ptr(0x1000, 0), None);
    assert_eq!(mem.read_ptr(0x1000, 8), Some(1));
}

#[test]
fn the_table_is_searched_by_range() {
    let t: Vec<(u64, u64)> = vec![(0x1000, 0x2000), (0x4000, 0x5000)];
    assert!(in_table(&t, 0x1000, 0x1000));
    assert!(!in_table(&t, 0x1000, 0x1001));
    assert!(!in_table(&t, 0x3000, 1));
    assert!(in_table(&t, 0x4FFF, 1));
    assert!(!in_table(&t, 0xFFF, 1));
    assert!(!in_table(&t, u64::MAX, 5));
}

#[test]
fn a_walk_merges_neighbours() {
    let mut w: Walk = Walk::new();
    assert_eq!(w.wants(), Some(0));
    // Free space, then two committed neighbours, a guard page, one more.
    assert!(w.answer(RegionInfo { base: 0, size: 0x1000, state: 0x10000, protect: 0 }));
    assert!(w.answer(region(0x1000, 0x1000, 4)));
    assert!(w.answer(region(0x2000, 0x1000, 2)));
    assert!(w.answer(region(0x3000, 0x1000, 0x104)));
    assert!(w.answer(region(0x4000, 0x1000, 4)));
    assert_eq!(w.wants(), Some(0x5000));
    // An answer that does not advance ends the walk.
    assert!(!w.answer(region(0x4000, 0x1000, 1)));
    let mut r: Regions = Regions { table: Vec::new(), cache_only: false };
    assert_eq!(refresh_regions(&mut r, w), 2);
    assert_eq!(r.table, vec![(0x1000, 0x3000), (0x4000, 0x5000)]);
}

#[test]
fn a_walk_stops_at_the_top() {
    let w: Walk = Walk { addr: ADDRESS_TOP, table: Vec::new() };
    assert_eq!(w.wants(), None);
    assert!(!committed(&region(0, 1, 0)));
    assert!(!committed(&region(0, 1, 1)));
    assert!(committed(&region(0, 1, 0x20)));
}

#[test]
fn the_table_alone_answers_while_held() {
    let mut r: Regions = Regions { table: vec![(0x1000, 0x2000)], cache_only: false };
    let live: Option<RegionInfo> = Some(region(0x8000, 0x1000, 4));
    assert!(readable(&r, 0x1800, 8, None));
    assert!(readable(&r, 0x8800, 8, live));
    let hold: CacheOnly = CacheOnly::enter(&mut r);
    assert!(!readable(&r, 0x8800, 8, live));
    assert!(readable(&r, 0x1800, 8, None));
    hold.leave(&mut r);
    assert!(readable(&r, 0x8800, 8, live));
    assert!(readable_now(0x8FF8, 8, live));
    assert!(!readable_now(0x8FF9, 8, live));
    assert!(!readable_now(0, 8, live));
    assert!(!readable_now(0x8800, 0, live));
    assert!(!readable_now(0x8800, 8, Some(region(0x8000, 0x1000, 0x104))));
    assert!(!readable_now(0x8800, 8, None));
}

#[test]
fn text_ends_at_a_zero_and_is_printable() {
    let b: Vec<u8> = b"Player\0\x07ab\0abc".to_vec();
    let mut mem: Memory = Memory::new();
    assert!(mem.add(0x1000, &b));
    assert_eq!(cstr(&mem, 0x1000, 512), Some("Player".to_string()));
    assert_eq!(cstr(&mem, 0x1000, 6), None);
    assert_eq!(cstr(&mem, 0x1000, 7), Some("Player".to_string()));
    assert_eq!(cstr(&mem, 0x1007, 512), None);
    assert_eq!(cstr(&mem, 0x1006, 512), Some(String::new()));
    // No zero before the end of what is readable.
    assert_eq!(cstr(&mem, 0x100B, 512), None);
    assert_eq!(cstr(&mem, 0, 512), None);
}

#[test]
fn a_name_for_the_log_takes_any_bytes() {
    let b: Vec<u8> = vec![0x41, 0xC3, 0xA9, 0xFF, 0x42, 0];
    let mut mem: Memory = Memory::new();
    assert!(mem.add(0x1000, &b));
    assert_eq!(cstr_lossy(&mem, 0x1000), "A\u{e9}\u{fffd}B");
    assert_eq!(cstr_lossy(&mem, 0x2000), "<unreadable>");
    assert_eq!(cstr_lossy(&mem, 0), "<unreadable>");
}

#[test]
fn a_string_is_followed_through_its_pointer() {
    let mut b: Vec<u8> = vec![0; 16];
    b[0..8].copy_from_slice(&0x1008u64.to_le_bytes());
    b[8..11].copy_from_slice(b"abc");
    let mut mem: Memory = Memory::new();
    assert!(mem.add(0x1000, &b));
    assert_eq!(str_at(&mem, 0x1000, 0), Some("abc".to_string()));
    assert_eq!(str_at(&mem, 0x1000, 4), None);
}

#[test]
fn identifiers_hold_the_compilers_decorations() {
    assert!(is_identifier("<>c__DisplayClass1_0"));
    assert!(is_identifier("List`1"));
    assert!(is_identifier("Outer/Inner"));
    assert!(!is_identifier(""));
    assert!(!is_identifier("a:b"));
    assert!(!is_identifier("caf\u{e9}"));
    assert!(is_identifier(&"a".repeat(511)));
    assert!(!is_identifier(&"a".repeat(512)));
    assert!(is_namespace(""));
    assert!(is_namespace("System.Text"));
    assert!(!is_namespace("System:Text"));
}

#[test]
fn module_bounds_come_from_the_header() {
    let mut b: Vec<u8> = vec![0; 0x200];
    b[0x3C] = 0xF0;
    b[0x140..0x144].copy_from_slice(&0x0123_4000u32.to_le_bytes());
    let mut mem: Memory = Memory::new();
    assert!(mem.add(0x18000_0000, &b));
    assert_eq!(module_bounds(&mem, 0x18000_0000), Some((0x18000_0000, 0x18123_4000)));
    assert_eq!(module_bounds(&mem, 0x18000_1000), None);
}

#[test]
fn assemblies_skip_what_is_null() {
    let mut b: Vec<u8> = vec![0; 24];
    b[0] = 7;
    b[16] = 9;
    let mut mem: Memory = Memory::new();
    assert!(mem.add(0x1000, &b));
    assert_eq!(assemblies(&mem, 0x1000, 3), vec![7, 9]);
    assert_eq!(assemblies(&mem, 0x1000, 0), Vec::<u64>::new());
    assert_eq!(assemblies(&mem, 0, 3), Vec::<u64>::new());
    assert_eq!(assemblies(&mem, 0x1000, 4097), Vec::<u64>::new());
}

#[test]
fn a_scan_lists_every_match_in_order() {
    let mut s: Scan = Scan::new(vec![1, 1], 0x1000, 0x3000, 64, 0x10_0000);
    assert_eq!(s.wants(false), Some(0x1000));
    let r: RegionInfo = region(0x0800, 0x1000, 4);
    assert_eq!(s.window(&r), Some((0x1000, 0x1800)));
    let mut bytes: Vec<u8> = vec![0; 0x800];
    bytes[4] = 1;
    bytes[5] = 1;
    bytes[6] = 1;
    bytes[0x7FF] = 1;
    assert!(matches!(s.search(0x1000, &bytes, never), SliceEnd::Done));
    assert_eq!(s.hits, vec![0x1004, 0x1005]);
    s.pass(&r, 0x800);
    assert_eq!(s.wants(false), Some(0x1800));
    // The abort flag ends it.
    assert_eq!(s.wants(true), None);
    assert_eq!(s.wants(false), None);
}

#[test]
fn a_scan_goes_region_by_region() {
    let mut s: Scan = Scan::new(vec![7, 8], 0x1000, 0x9000, 3, 0x10_0000);
    let a: RegionInfo = region(0x1000, 0x10, 4);
    let mut first: Vec<u8> = vec![0; 0x10];
    first[0] = 7;
    first[1] = 8;
    first[15] = 7;
    assert!(!scan(&mut s, &a, &first, never));
    // A pattern that starts in one region and ends in the next is not found.
    let b: RegionInfo = region(0x1010, 0x10, 4);
    let mut second: Vec<u8> = vec![0; 0x10];
    second[0] = 8;
    second[4] = 7;
    second[5] = 8;
    assert!(!scan(&mut s, &b, &second, never));
    assert_eq!(s.hits, vec![0x1000, 0x1014]);
    assert_eq!(s.scanned, 0x20);
    // A region that cannot be read is passed over.
    assert!(!scan(&mut s, &region(0x1020, 0x1000, 0x101), &[], never));
    assert_eq!(s.wants(false), Some(0x2020));
    let d: RegionInfo = region(0x2020, 0x10, 4);
    let mut third: Vec<u8> = vec![0; 0x10];
    for k in 0..4usize {
        third[2 * k] = 7;
        third[2 * k + 1] = 8;
    }
    assert!(!scan(&mut s, &d, &third, never));
    assert_eq!(s.hits, vec![0x1000, 0x1014, 0x2020]);
    assert_eq!(s.wants(false), None);
    let mut t: Scan = Scan::new(vec![7], 0x1000, 0x4000_0000, 3, u64::MAX);
    let long: Vec<u8> = vec![0; 0x20_0010];
    assert!(scan(&mut t, &region(0x1000, 0x20_0010, 4), &long, always));
    assert!(t.finished);
}

#[test]
fn a_scan_stops_at_its_bounds() {
    let mut s: Scan = Scan::new(vec![7], 0x1000, 0x3000, 2, 0x100);
    let bytes: Vec<u8> = vec![7; 16];
    assert!(matches!(s.search(0x1000, &bytes, never), SliceEnd::Full));
    assert_eq!(s.hits, vec![0x1000, 0x1001]);
    assert_eq!(s.wants(false), None);
    // Enough bytes.
    let mut t: Scan = Scan::new(vec![7], 0x1000, 0x3000, 64, 0x100);
    t.pass(&region(0x1000, 0x100, 4), 0x100);
    assert_eq!(t.wants(false), None);
    // Nothing to look for, nowhere to look.
    let mut e: Scan = Scan::new(Vec::new(), 0x1000, 0x3000, 64, 0x100);
    assert_eq!(e.wants(false), None);
    let mut f: Scan = Scan::new(vec![7], 0x3000, 0x3000, 64, 0x100);
    assert_eq!(f.wants(false), None);
    // No hits allowed: none are listed, though the pattern is there.
    let mut z: Scan = Scan::new(vec![7], 0x1000, 0x3000, 0, u64::MAX);
    assert!(z.finished);
    assert_eq!(z.wants(false), None);
    assert!(z.hits.is_empty());
    // One hit allowed: one is listed.
    let mut one: Scan = Scan::new(vec![7], 0x1000, 0x3000, 1, u64::MAX);
    assert!(!scan(&mut one, &region(0x1000, 16, 4), &bytes, never));
    assert_eq!(one.hits, vec![0x1000]);
    assert_eq!(one.wants(false), None);
    // A region that cannot be read has no window.
    let g: Scan = Scan::new(vec![7], 0x1000, 0x3000, 64, 0x100);
    assert_eq!(g.window(&region(0x1000, 0x1000, 0x101)), None);
    assert_eq!(g.window(&region(0x3000, 0x1000, 4)), None);
}

#[test]
fn hits_ascend_over_regions() {
    let mut s: Scan = Scan::new(vec![7, 7], 0x1000, 0x9000, 64, u64::MAX);
    let first: Vec<u8> = vec![7, 7, 7, 0];
    let second: Vec<u8> = vec![0, 7, 7, 7];
    assert!(!scan(&mut s, &region(0x1000, 4, 4), &first, never));
    assert!(!scan(&mut s, &region(0x2000, 4, 4), &second, never));
    assert_eq!(s.hits, vec![0x1000, 0x1001, 0x2001, 0x2002]);
}

#[test]
fn a_long_slice_polls_the_abort_flag() {
    let bytes: Vec<u8> = vec![0; 0x20_0010];
    let mut s: Scan = Scan::new(vec![9], 0x1000, 0x4000_0000, 64, u64::MAX);
    assert!(matches!(s.search(0x1000, &bytes, always), SliceEnd::Aborted));
    assert!(s.finished);
    let mut t: Scan = Scan::new(vec![9], 0x1000, 0x4000_0000, 64, u64::MAX);
    assert!(matches!(t.search(0x1000, &bytes, never), SliceEnd::Done));
    // The shortest slice that comes to a poll, and one that is too short for it.
    let just: Vec<u8> = vec![0; POLL_EVERY];
    let mut u: Scan = Scan::new(vec![9], 0x1000, 0x4000_0000, 64, u64::MAX);
    assert!(matches!(u.search(0x1000, &just, always), SliceEnd::Aborted));
    let short: Vec<u8> = vec![0; POLL_EVERY - 1];
    let mut v: Scan = Scan::new(vec![9], 0x1000, 0x4000_0000, 64, u64::MAX);
    assert!(matches!(v.search(0x1000, &short, always), SliceEnd::Done));
}

#[test]
fn objects_are_read_by_offset() {
    let mut b: Vec<u8> = vec![0; 0x60];
    b[0x10..0x18].copy_from_slice(&0x1122_3344_5566_7788u64.to_le_bytes());
    b[0x18] = 2;
    b[0x20] = 0xAA;
    b[0x28] = 0xBB;
    let mut mem: Memory = Memory::new();
    assert!(mem.add(0x1000, &b));
    let o: Object = Object(0x1000);
    assert_eq!(read_field(&mem, o, 0x10), Some(0x1122_3344_5566_7788));
    assert_eq!(read_field_u32(&mem, o, 0x10), Some(0x5566_7788));
    assert_eq!(read_field_u8(&mem, o, 0x10), Some(0x88));
    assert_eq!(read_field(&mem, Object(0), 0x10), None);
    assert_eq!(array_len(&mem, o), Some(2));
    assert_eq!(array_get(&mem, o, 1), Some(Object(0xBB)));
    assert_eq!(is_alive(&mem, o), Some(true));
    assert_eq!(unbox_i32(&mem, o), Some(0x5566_7788));
    assert_eq!(unbox_bool(&mem, o), Some(true));
    assert_eq!(unbox_vec3(&mem, o), Some((0x5566_7788, 0x1122_3344, 2)));
    assert_eq!(list_items(&mem, o), Some(Object(0x1122_3344_5566_7788)));
    assert_eq!(list_count(&mem, o), Some(2));
    // No array for no list and for an empty one.
    assert_eq!(list_items(&mem, Object(0)), Some(Object(0)));
    assert_eq!(list_count(&mem, Object(0)), Some(0));
    for size in [0i32, -1] {
        let mut e: Vec<u8> = b.clone();
        e[0x18..0x1C].copy_from_slice(&size.to_le_bytes());
        let mut empty: Memory = Memory::new();
        assert!(empty.add(0x1000, &e));
        assert_eq!(list_count(&empty, o), Some(0));
        assert_eq!(list_items(&empty, o), Some(Object(0)));
    }
    assert_eq!(list_items(&mem, Object(0x1050)), None);
    assert_eq!(unbox_i32(&mem, Object(0)), None);
    assert!(Object(0).is_null());
    assert!(!o.is_null());
}

#[test]
fn a_store_says_where_and_what() {
    assert_eq!(
        write_field(Object(0x1000), 0x18, 0x42C8_0000),
        Some(Store { addr: 0x1018, width: 4, value: 0x42C8_0000 })
    );
    assert_eq!(
        array_set(Object(0x1000), 2, Object(0x77)),
        Some(Store { addr: 0x1030, width: 8, value: 0x77 })
    );
    assert_eq!(Backend::Il2Cpp.name(), "IL2CPP");
    assert_eq!(Backend::Mono.name(), "Mono");
}

#[test]
fn what_is_stored_is_read_back() {
    let mut b: Vec<u8> = vec![0xEE; 0x40];
    let s: Store = write_field(Object(0x1000), 0x18, 0x42C8_0000).unwrap();
    let at: usize = (s.addr - 0x1000) as usize;
    let w: usize = s.width as usize;
    b[at..at + w].copy_from_slice(&s.value.to_le_bytes()[..w]);
    let t: Store = array_set(Object(0x1000), 1, Object(0x1122_3344_5566_7788)).unwrap();
    let to: usize = (t.addr - 0x1000) as usize;
    b[to..to + 8].copy_from_slice(&t.value.to_le_bytes());
    let mut mem: Memory = Memory::new();
    assert!(mem.add(0x1000, &b));
    assert_eq!(read_field_u32(&mem, Object(0x1000), 0x18), Some(0x42C8_0000));
    assert_eq!(array_get(&mem, Object(0x1000), 1), Some(Object(0x1122_3344_5566_7788)));
    assert_eq!(read_field_u32(&mem, Object(0x1000), 0x14), Some(0xEEEE_EEEE));
    assert_eq!(read_field_u32(&mem, Object(0x1000), 0x1C), Some(0xEEEE_EEEE));
}

#[test]
fn numbers_are_written_as_usual() {
    let mut s: String = String::new();
    push_decimal(&mut s, 0);
    s.push(' ');
    push_decimal(&mut s, u64::MAX);
    s.push(' ');
    push_signed(&mut s, i64::MIN);
    s.push(' ');
    push_hex(&mut s, 0xDEAD_BEEF);
    s.push(' ');
    push_byte(&mut s, 0x0F);
    assert_eq!(s, format!("0 {} {} {:#x} 0F", u64::MAX, i64::MIN, 0xDEAD_BEEFu64));
}

#[test]
fn numbers_are_parsed_as_usual() {
    let dec = |s: &str| parse_unsigned(&chars_of(s), 0, 10);
    let hex = |s: &str| parse_unsigned(&chars_of(s), 0, 16);
    let int = |s: &str| parse_signed(&chars_of(s), 0, 10);
    assert_eq!(dec("18446744073709551615"), Some(u64::MAX));
    assert_eq!(dec("18446744073709551616"), None);
    assert_eq!(dec("+7"), Some(7));
    assert_eq!(dec(""), None);
    assert_eq!(dec("+"), None);
    assert_eq!(dec("-1"), None);
    assert_eq!(dec("1x"), None);
    assert_eq!(hex("fFfF"), Some(0xFFFF));
    assert_eq!(int("-9223372036854775808"), Some(i64::MIN));
    assert_eq!(int("9223372036854775808"), None);
    assert_eq!(int("-"), None);
}

#[test]
fn text_is_cut_and_joined() {
    assert_eq!(trim(" \t a b\u{a0}\n").iter().collect::<String>(), "a b");
    assert_eq!(split_at_char("a,,b", ','), vec!["a", "", "b"]);
    assert_eq!(split_at_char("", ','), vec![""]);
    let l: Vec<String> = vec!["x".to_string(), "y".to_string(), "z".to_string()];
    assert_eq!(join_from(&l, 1, "--"), "y--z");
    assert_eq!(join_from(&l, 3, "--"), "");
    assert!(has_text("hello", "ell"));
    assert!(has_text("hello", ""));
    assert!(!has_text("hello", "elo"));
    assert!(starts_with("mscorlib.dll", "mscorlib"));
    assert!(!starts_with("ms", "mscorlib"));
    assert_eq!(strip_tail("a.dll.dll", ".dll"), "a.dll");
    assert_eq!(strip_tail("dll", ".dll"), "dll");
    assert!(eq_ignore_case("AbC", "aBc"));
    assert!(!eq_ignore_case("AbC", "aBcd"));
    assert!(!eq_ignore_case("\u{c9}", "\u{e9}"));
    assert!(is_blank(""));
    assert!(!is_blank(" "));
    assert!(is_white('\u{2003}'));
    assert!(!is_white('\u{200b}'));
    assert!(same("a", "a"));
    assert!(!same("a", "A"));
    assert_eq!(string_of(&chars_of("abcd"), 1, 3), "bc");
}

#[test]
fn the_module_is_waited_for_until_it_is_late() {
    for late in [false, true] {
        for aborted in [false, true] {
            assert_eq!(load_wait(true, late, aborted), LoadWait::Loaded);
        }
    }
    assert_eq!(load_wait(false, false, false), LoadWait::Sleep);
    assert_eq!(load_wait(false, true, false), LoadWait::GiveUp);
    assert_eq!(load_wait(false, false, true), LoadWait::GiveUp);
}
