use packet_gen::tables::{contains_name, lookup_name, map_name, upsert_group_exec, upsert_message_exec, upsert_name};
use packet_gen::text::{replace_dots, starts_with, str_eq, u32_decimal};
use packet_gen::types::{MappedEnumGroup, MappedMessage};

fn s(x: &str) -> String {
    x.to_string()
}

fn msg(name: &str, syntax: &str) -> MappedMessage {
    MappedMessage { typename: s(name), syntax: s(syntax), fields: vec![] }
}

#[test]
fn lookup_after_upsert() {
    let mut m = vec![(s("a"), s("1")), (s("b"), s("2"))];
    upsert_name(&mut m, s("a"), s("3"));
    assert_eq!(lookup_name(&m, "a").map(|x| x.as_str()), Some("3"));
    assert_eq!(lookup_name(&m, "b").map(|x| x.as_str()), Some("2"));
    assert_eq!(m.len(), 2);
    upsert_name(&mut m, s("c"), s("4"));
    assert_eq!(m, vec![(s("a"), s("3")), (s("b"), s("2")), (s("c"), s("4"))]);
    assert_eq!(lookup_name(&m, "d"), None);
    assert_eq!(map_name(&m, s("c")), "4");
    assert_eq!(map_name(&m, s("d")), "d");
}

#[test]
fn message_table_replaces_in_place() {
    let mut ms = vec![msg("A", "proto3"), msg("B", "proto3")];
    upsert_message_exec(&mut ms, msg("A", "proto2"));
    assert_eq!(ms.len(), 2);
    assert_eq!(ms[0].syntax, "proto2");
    upsert_message_exec(&mut ms, msg("C", "proto3"));
    let names: Vec<&str> = ms.iter().map(|m| m.typename.as_str()).collect();
    assert_eq!(names, vec!["A", "B", "C"]);
}

#[test]
fn enum_table_replaces_in_place() {
    let mut gs = vec![MappedEnumGroup { name: s("E"), values: vec![] }];
    upsert_group_exec(&mut gs, MappedEnumGroup { name: s("F"), values: vec![] });
    upsert_group_exec(&mut gs, MappedEnumGroup { name: s("E"), values: vec![] });
    assert_eq!(gs.len(), 2);
    assert_eq!(gs[1].name, "F");
}

#[test]
fn names_lists() {
    let v = vec![s("x"), s("y")];
    assert!(contains_name(&v, "y"));
    assert!(!contains_name(&v, "z"));
}

#[test]
fn text_helpers() {
    assert!(str_eq("abc", "abc"));
    assert!(!str_eq("abc", "abd"));
    assert!(starts_with("CPacketMove", "CPacket"));
    assert!(!starts_with("CPack", "CPacket"));
    assert!(!starts_with("SPacketX", "CPacket"));
    assert_eq!(replace_dots("a.b.c"), "a_b_c");
    assert_eq!(replace_dots("plain"), "plain");
    assert_eq!(replace_dots("é.ü"), "é_ü");
    assert_eq!(u32_decimal(0), "0");
    assert_eq!(u32_decimal(907), "907");
    assert_eq!(u32_decimal(u32::MAX), "4294967295");
}
