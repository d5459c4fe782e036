//! A flat description of a bundle: messages with their fields, enums with
//! their values, and the three packet tables of the bundle.
use vstd::prelude::*;
use std::collections::HashMap;

verus! {

pub struct FieldInfo {
    pub no: u32,
    pub name: String,
    pub field_type: String,
    pub repeated: bool,
    pub oneof: Option<String>,
    pub map: Option<MapInfo>,
}

pub struct MapInfo {
    pub key_type: String,
    pub value_type: String,
}

pub struct MessageInfo {
    pub typename: String,
    pub fields: Vec<FieldInfo>,
}

pub struct EnumInfo {
    pub name: String,
    pub values: Vec<EnumValue>,
}

pub struct EnumValue {
    pub no: u32,
    pub name: String,
}

pub struct BundleInfo {
    pub messages: Vec<MessageInfo>,
    pub enums: Vec<EnumInfo>,
    pub c_packet_map: HashMap<String, String>,
    pub s_packet_map: HashMap<String, String>,
    pub appended_packets: HashMap<String, String>,
}

} // verus!
