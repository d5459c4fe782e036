//! What the extraction hands back: messages with their fields, and enums with
//! their values, each with a view over mathematical values.
use vstd::prelude::*;
use crate::util::string_opt_view;

verus! {

/// Key and value types of a map field.
#[derive(Clone, Debug)]
pub struct MappedMap {
    pub k: Option<String>,
    pub v: Option<String>,
}

/// One field of a message. `no` is the bit pattern of the field number as
/// the bundle writes it (an IEEE-754 double).
#[derive(Clone, Debug)]
pub struct MappedField {
    pub no: u64,
    pub name: String,
    pub kind: String,
    pub t: Option<String>,
    pub repeated: bool,
    pub opt: bool,
    pub oneof: Option<String>,
    pub map: Option<MappedMap>,
}

/// A message: its type name, its protobuf syntax and its fields.
#[derive(Clone, Debug)]
pub struct MappedMessage {
    pub typename: String,
    pub syntax: String,
    pub fields: Vec<MappedField>,
}

/// One value of an enum. `no` is the bit pattern of its number as the bundle
/// writes it (an IEEE-754 double).
#[derive(Clone, Debug)]
pub struct MappedEnumEntry {
    pub no: u64,
    pub name: String,
}

#[derive(Clone, Debug)]
pub struct MappedEnumGroup {
    pub name: String,
    pub values: Vec<MappedEnumEntry>,
}

#[derive(Clone, Debug)]
pub struct ParseBundleResult {
    pub messages: Vec<MappedMessage>,
    pub enums: Vec<MappedEnumGroup>,
}

pub struct MapView {
    pub k: Option<Seq<char>>,
    pub v: Option<Seq<char>>,
}

pub struct FieldView {
    pub no: u64,
    pub name: Seq<char>,
    pub kind: Seq<char>,
    pub t: Option<Seq<char>>,
    pub repeated: bool,
    pub opt: bool,
    pub oneof: Option<Seq<char>>,
    pub map: Option<MapView>,
}

pub struct MessageView {
    pub typename: Seq<char>,
    pub syntax: Seq<char>,
    pub fields: Seq<FieldView>,
}

pub struct EntryView {
    pub no: u64,
    pub name: Seq<char>,
}

pub struct EnumGroupView {
    pub name: Seq<char>,
    pub values: Seq<EntryView>,
}

pub struct BundleView {
    pub messages: Seq<MessageView>,
    pub enums: Seq<EnumGroupView>,
}

impl View for MappedMap {
    type V = MapView;

    open spec fn view(&self) -> MapView {
        MapView { k: string_opt_view(self.k), v: string_opt_view(self.v) }
    }
}

pub open spec fn map_opt_view(m: Option<MappedMap>) -> Option<MapView> {
    match m {
        Some(x) => Some(x@),
        None => None,
    }
}

impl View for MappedField {
    type V = FieldView;

    open spec fn view(&self) -> FieldView {
        FieldView {
            no: self.no,
            name: self.name@,
            kind: self.kind@,
            t: string_opt_view(self.t),
            repeated: self.repeated,
            opt: self.opt,
            oneof: string_opt_view(self.oneof),
            map: map_opt_view(self.map),
        }
    }
}

pub open spec fn fields_view(v: Seq<MappedField>) -> Seq<FieldView> {
    v.map_values(|f: MappedField| f@)
}

impl View for MappedMessage {
    type V = MessageView;

    open spec fn view(&self) -> MessageView {
        MessageView { typename: self.typename@, syntax: self.syntax@, fields: fields_view(self.fields@) }
    }
}

pub open spec fn messages_view(v: Seq<MappedMessage>) -> Seq<MessageView> {
    v.map_values(|m: MappedMessage| m@)
}

impl View for MappedEnumEntry {
    type V = EntryView;

    open spec fn view(&self) -> EntryView {
        EntryView { no: self.no, name: self.name@ }
    }
}

pub open spec fn entries_view(v: Seq<MappedEnumEntry>) -> Seq<EntryView> {
    v.map_values(|e: MappedEnumEntry| e@)
}

impl View for MappedEnumGroup {
    type V = EnumGroupView;

    open spec fn view(&self) -> EnumGroupView {
        EnumGroupView { name: self.name@, values: entries_view(self.values@) }
    }
}

pub open spec fn groups_view(v: Seq<MappedEnumGroup>) -> Seq<EnumGroupView> {
    v.map_values(|g: MappedEnumGroup| g@)
}

impl View for ParseBundleResult {
    type V = BundleView;

    open spec fn view(&self) -> BundleView {
        BundleView { messages: messages_view(self.messages@), enums: groups_view(self.enums@) }
    }
}

} // verus!
