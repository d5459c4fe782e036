use packet_gen::bundle::{extract_bundle, extract_bundle_with_warnings};
use packet_gen::types::{MappedMessage, ParseBundleResult};

const BUNDLE: &str = r#"
var proto3 = { runtime: 3 };
var proto2 = { runtime: 2 };
var rt = proto2;
var Vec3 = class extends Message {
  static {
    this.runtime = proto3;
    this.typeName = "game.Vec3";
    this.fields = proto3.util.newFieldList(() => [
      { no: 1, name: "x", kind: "scalar", T: 2 },
      { no: 2, name: "y", kind: "scalar", T: 2 },
    ]);
  }
};
var Color;
(function (Color) {})(Color || (Color = {}));
proto3.util.setEnumType(Color, "game.Color", [{ no: 0, name: "RED" }, { no: 1, name: "GREEN" }]);
var CPacketMove = class extends Message {
  static {
    this.runtime = rt;
    this.typeName = "CPacketMove";
    this.fields = proto2.util.newFieldList(() => [
      { no: 1, name: "pos", kind: "message", T: Vec3, opt: true },
      { no: 2, name: "color", kind: "enum", T: proto2.getEnumType(Color) },
      { no: 3, name: "ids", kind: "scalar", T: 13, repeated: true },
      { no: 4, name: "tags", kind: "map", K: 9, V: { kind: "scalar", T: 9 } },
    ]);
  }
};
var SPacketHello = class extends Message {
  static {
    this.runtime = proto3;
    this.typeName = "SPacketHello";
    this.fields = proto3.util.newFieldList(() => [{ no: 1, name: "text", kind: "scalar", T: 9, oneof: "body" }]);
  }
};
var cpackets = { CPacketMove: CPacketMove };
var spackets = { SPacketHello: SPacketHello };
"#;

fn message<'a>(r: &'a ParseBundleResult, name: &str) -> &'a MappedMessage {
    r.messages.iter().find(|m| m.typename == name).expect("message present")
}

#[test]
fn test_extract_bundle() {
    let result = extract_bundle(BUNDLE).expect("extract_bundle failed");
    assert!(!result.messages.is_empty(), "should have messages");
    assert!(!result.enums.is_empty(), "should have enums");
}

#[test]
fn extracted_messages_in_table_order() {
    let result = extract_bundle(BUNDLE).unwrap();
    let names: Vec<&str> = result.messages.iter().map(|m| m.typename.as_str()).collect();
    assert_eq!(names, vec!["CPacketMove", "SPacketHello", "game_Vec3"]);
}

#[test]
fn packet_message_fields() {
    let result = extract_bundle(BUNDLE).unwrap();
    let m = message(&result, "CPacketMove");
    assert_eq!(m.syntax, "proto2");
    assert_eq!(m.fields.len(), 4);
    let pos = &m.fields[0];
    assert_eq!(f64::from_bits(pos.no), 1.0);
    assert_eq!(pos.name, "pos");
    assert_eq!(pos.kind, "message");
    assert_eq!(pos.t.as_deref(), Some("Vec3"));
    assert!(pos.opt);
    assert!(!pos.repeated);
    assert!(pos.map.is_none());
    let color = &m.fields[1];
    assert_eq!(color.kind, "enum");
    assert_eq!(color.t.as_deref(), Some("Color"));
    let ids = &m.fields[2];
    assert_eq!(ids.t.as_deref(), Some("uint32"));
    assert!(ids.repeated);
    let tags = &m.fields[3];
    assert_eq!(f64::from_bits(tags.no), 4.0);
    assert_eq!(tags.t, None);
    let map = tags.map.as_ref().expect("map field");
    assert_eq!(map.k.as_deref(), Some("string"));
    assert_eq!(map.v.as_deref(), Some("string"));
}

#[test]
fn dependency_message_found_through_worklist() {
    let result = extract_bundle(BUNDLE).unwrap();
    let v = message(&result, "game_Vec3");
    assert_eq!(v.syntax, "proto3");
    let names: Vec<&str> = v.fields.iter().map(|f| f.name.as_str()).collect();
    assert_eq!(names, vec!["x", "y"]);
    assert_eq!(v.fields[0].t.as_deref(), Some("float"));
}

#[test]
fn server_message_and_oneof() {
    let result = extract_bundle(BUNDLE).unwrap();
    let m = message(&result, "SPacketHello");
    assert_eq!(m.syntax, "proto3");
    assert_eq!(m.fields.len(), 1);
    assert_eq!(m.fields[0].t.as_deref(), Some("string"));
    assert_eq!(m.fields[0].oneof.as_deref(), Some("body"));
}

#[test]
fn enums_extracted() {
    let result = extract_bundle(BUNDLE).unwrap();
    assert_eq!(result.enums.len(), 1);
    let e = &result.enums[0];
    assert_eq!(e.name, "game.Color");
    let values: Vec<(f64, &str)> = e.values.iter().map(|v| (f64::from_bits(v.no), v.name.as_str())).collect();
    assert_eq!(values, vec![(0.0, "RED"), (1.0, "GREEN")]);
}

#[test]
fn circular_alias_is_an_error() {
    let source = "var A = B; var B = A; var t = { CPacketX: A };";
    let r = extract_bundle(source);
    assert_eq!(r.unwrap_err(), "a chain of aliases that the extraction follows runs in a circle");
}

#[test]
fn self_alias_is_an_error() {
    let source = "var A = A; var t = { SPacketA: A };";
    assert!(extract_bundle(source).is_err());
}

#[test]
fn unused_alias_cycle_is_no_error() {
    let result = extract_bundle("var A = B; var B = A;").unwrap();
    assert!(result.messages.is_empty());
    assert!(result.enums.is_empty());
}

#[test]
fn circular_dependency_alias_is_an_error() {
    let source = r#"
var Loop = Knot;
var Knot = Loop;
var CPacketL = class extends Message {
  static {
    this.typeName = "CPacketL";
    this.fields = proto3.util.newFieldList(() => [{ no: 1, name: "l", kind: "message", T: Loop }]);
  }
};
var cpackets = { CPacketL: CPacketL };
"#;
    assert!(extract_bundle(source).is_err());
    let fine = source.replace("var Knot = Loop;", "var Knot = 1;");
    let result = extract_bundle(&fine).unwrap();
    assert_eq!(result.messages.len(), 1);
    assert_eq!(result.messages[0].typename, "CPacketL");
}

#[test]
fn alias_chain_that_ends_is_followed() {
    let source = r#"
var Real = class { static { this.typeName = "pkg.Real"; this.fields = f(() => [{ no: 1, name: "a", kind: "scalar", T: 5 }]); } };
var Alias = Real;
var t = { CPacketReal: Alias };
"#;
    let result = extract_bundle(source).unwrap();
    assert_eq!(result.messages.len(), 0);
}

#[test]
fn unparsable_source_gives_nothing() {
    let result = extract_bundle("var = = class {").unwrap();
    assert!(result.messages.is_empty());
    assert!(result.enums.is_empty());
}

#[test]
fn later_enum_definition_replaces_earlier() {
    let source = r#"
var E;
x.setEnumType(E, "E", [{ no: 1, name: "ONE" }]);
x.setEnumType(E, `E`, [{ no: 2, name: "TWO" }, { no: 3 }]);
x.setEnumType(F, G, [{ no: 4, name: "FOUR" }]);
"#;
    let result = extract_bundle(source).unwrap();
    assert_eq!(result.enums.len(), 2);
    assert_eq!(result.enums[0].name, "E");
    assert_eq!(result.enums[0].values.len(), 1);
    assert_eq!(result.enums[0].values[0].name, "TWO");
    assert_eq!(result.enums[1].name, "F");
}

#[test]
fn same_type_name_registered_once() {
    let source = r#"
var A = class { static { this.typeName = "T"; this.fields = f(() => [{ no: 1, name: "a", kind: "scalar", T: 1 }]); } };
var B = class { static { this.typeName = "T"; this.fields = f(() => [{ no: 1, name: "b", kind: "scalar", T: 1 }]); } };
var t = { CPacketA: A, CPacketB: B };
"#;
    let result = extract_bundle(source).unwrap();
    assert_eq!(result.messages.len(), 1);
    assert_eq!(result.messages[0].typename, "T");
    assert_eq!(result.messages[0].fields[0].name, "b");
    assert_eq!(result.messages[0].fields[0].t.as_deref(), Some("double"));
}

#[test]
fn proto2_inferred_from_optional_and_plain_fields() {
    let source = r#"
var M = class { static { this.typeName = "M"; this.fields = f(() => [
  { no: 1, name: "a", kind: "scalar", T: 1, opt: true },
  { no: 2, name: "b", kind: "scalar", T: 1 },
]); } };
var N = class { static { this.typeName = "N"; this.fields = f(() => [
  { no: 1, name: "a", kind: "scalar", T: 1, opt: true },
  { no: 2, name: "b", kind: "scalar", T: 1, repeated: true },
]); } };
var t = { CPacketM: M, SPacketN: N };
"#;
    let result = extract_bundle(source).unwrap();
    assert_eq!(message(&result, "M").syntax, "proto2");
    assert_eq!(message(&result, "N").syntax, "proto3");
}

#[test]
fn runtime_created_by_call() {
    let source = r#"
var rt = makeRuntime("proto2");
var M = class { static { this.runtime = rt; this.typeName = "M"; this.fields = f(() => [{ no: 1, name: "a", kind: "scalar", T: 99 }]); } };
var t = { CPacketM: M };
"#;
    let result = extract_bundle(source).unwrap();
    let m = message(&result, "M");
    assert_eq!(m.syntax, "proto2");
    assert_eq!(m.fields[0].t.as_deref(), Some("unknown_scalar_99"));
}

#[test]
fn shared_packet_table_registers_both_kinds() {
    let source = r#"
var A = class { static { this.typeName = "a.A"; this.fields = f(() => []); } };
var B = class { static { this.typeName = "b.B"; this.fields = f(() => []); } };
x = 1, y = { CPacketA: A, SPacketB: B };
"#;
    let result = extract_bundle(source).unwrap();
    let names: Vec<&str> = result.messages.iter().map(|m| m.typename.as_str()).collect();
    assert_eq!(names, vec!["a_A", "b_B"]);
}

fn runtime_chain_source(hops: usize) -> String {
    let mut src = String::new();
    for i in 0..hops {
        src.push_str(&format!("var r{} = r{};\n", i, i + 1));
    }
    src.push_str(&format!("var r{} = proto2;\n", hops));
    src.push_str(
        "var M = class { static { this.runtime = r0; this.typeName = \"M\"; this.fields = f(() => [{ no: 1, name: \"a\", kind: \"scalar\", T: 1 }]); } };\nvar t = { CPacketM: M };\n",
    );
    src
}

#[test]
fn runtime_chain_depth_limit() {
    let near = extract_bundle(&runtime_chain_source(5)).unwrap();
    assert_eq!(message(&near, "M").syntax, "proto2");
    let far = extract_bundle(&runtime_chain_source(6)).unwrap();
    assert_eq!(message(&far, "M").syntax, "proto3");
}

#[test]
fn parser_diagnostics_are_reported() {
    let (result, warnings) = extract_bundle_with_warnings("var = = class {");
    assert!(result.unwrap().messages.is_empty());
    assert!(!warnings.is_empty());
    let (result, warnings) = extract_bundle_with_warnings(BUNDLE);
    assert!(warnings.is_empty());
    assert!(!result.unwrap().messages.is_empty());
}
