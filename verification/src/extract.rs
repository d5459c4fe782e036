//! Reading message classes, field lists, enum tables and packet tables out of
//! a bundled protobuf-es module, and the extraction that ties them together.
use vstd::prelude::*;
use crate::ast::{
    arrow_statements, JsArg, JsArrowBody, JsClass, JsDeclarator,
    JsElem, JsExpr, JsMember, JsProp, JsStmt, JsTarget,
};
use crate::seqs::{deref_opt, first_some, first_some_from, lemma_filter_map_take_step, lemma_first_some_concat};
use crate::text::{has_prefix, starts_with, decimal, dots_to_underscores, replace_dots, str_eq, u32_decimal};
use crate::runtime_syntax::{elem_object, fields_array, fields_array_of};
use crate::tables::{distinct_group_names, law_upsert_group,
    contains_name, lookup, lookup_name, map_name, mapped_name, names_view, upsert_group,
    upsert_group_exec,
};
use crate::types::{
    groups_view, EnumGroupView, MappedEnumGroup, entries_view, fields_view, EntryView, FieldView, MapView, MappedEnumEntry, MappedField,
    MappedMap,
};
use crate::util::{object_pairs, obj_to_pairs, pairs_view,
    class_of_init, declares, extract_class_from_init, get_prop_key_name, get_string_value,
    key_name, str_opt_view, string_value,
};

verus! {

// ---------------------------------------------------------------------------
// Object literals

/// The value of property `p` when its key names `name`.
pub open spec fn prop_value_named(p: JsProp, name: Seq<char>) -> Option<JsExpr> {
    match p {
        JsProp::Prop(k, v) => if key_name(k) == Some(name) {
            Some(v)
        } else {
            None
        },
        JsProp::Spread => None,
    }
}

/// The value of the first property of an object literal whose key names
/// `name`.
pub open spec fn obj_prop(props: Seq<JsProp>, name: Seq<char>) -> Option<JsExpr> {
    first_some(props, |p: JsProp| prop_value_named(p, name))
}

pub fn get_obj_prop<'a>(props: &'a Vec<JsProp>, name: &str) -> (r: Option<&'a JsExpr>)
    ensures
        deref_opt(r) == obj_prop(props@, name@),
{
    let mut i: usize = 0;
    while i < props.len()
        invariant
            i <= props.len(),
            obj_prop(props@, name@) == first_some_from(
                props@,
                |p: JsProp| prop_value_named(p, name@),
                i as int,
            ),
        decreases props.len() - i,
    {
        if let JsProp::Prop(key, value) = &props[i] {
            if let Some(kn) = get_prop_key_name(key) {
                if str_eq(kn, name) {
                    return Some(value);
                }
            }
        }
        i += 1;
    }
    None
}

/// The string an expression spells out, or the empty string.
pub open spec fn string_or_empty(e: JsExpr) -> Seq<char> {
    match string_value(e) {
        Some(s) => s,
        None => Seq::empty(),
    }
}

fn string_or_empty_exec(e: &JsExpr) -> (r: String)
    ensures
        r@ == string_or_empty(*e),
{
    match get_string_value(e) {
        Some(s) => s.to_owned(),
        None => String::new(),
    }
}

// ---------------------------------------------------------------------------
// Scalar types

/// protobuf's scalar type numbers and their names.
pub open spec fn scalar_name(id: u32) -> Option<Seq<char>> {
    if id == 1 { Some("double"@) }
    else if id == 2 { Some("float"@) }
    else if id == 3 { Some("int64"@) }
    else if id == 4 { Some("uint64"@) }
    else if id == 5 { Some("int32"@) }
    else if id == 6 { Some("fixed64"@) }
    else if id == 7 { Some("fixed32"@) }
    else if id == 8 { Some("bool"@) }
    else if id == 9 { Some("string"@) }
    else if id == 10 { Some("group"@) }
    else if id == 11 { Some("message"@) }
    else if id == 12 { Some("bytes"@) }
    else if id == 13 { Some("uint32"@) }
    else if id == 14 { Some("enum"@) }
    else if id == 15 { Some("sfixed32"@) }
    else if id == 16 { Some("sfixed64"@) }
    else if id == 17 { Some("sint32"@) }
    else if id == 18 { Some("sint64"@) }
    else { None }
}

/// The name of a scalar type number, or `unknown_scalar_<number>`.
pub open spec fn scalar_type(id: u32) -> Seq<char> {
    match scalar_name(id) {
        Some(n) => n,
        None => "unknown_scalar_"@ + decimal(id as nat),
    }
}

/// `s` is the name of one of protobuf's scalar types.
pub open spec fn is_scalar_name(s: Seq<char>) -> bool {
    exists|id: u32| scalar_name(id) == Some(s)
}

pub fn resolve_scalar(value: u32) -> (r: String)
    ensures
        r@ == scalar_type(value),
{
    let name = match value {
        1 => "double",
        2 => "float",
        3 => "int64",
        4 => "uint64",
        5 => "int32",
        6 => "fixed64",
        7 => "fixed32",
        8 => "bool",
        9 => "string",
        10 => "group",
        11 => "message",
        12 => "bytes",
        13 => "uint32",
        14 => "enum",
        15 => "sfixed32",
        16 => "sfixed64",
        17 => "sint32",
        18 => "sint64",
        _ => {
            let mut r = "unknown_scalar_".to_owned();
            let digits = u32_decimal(value);
            r.append(digits.as_str());
            return r;
        },
    };
    name.to_owned()
}

pub fn is_scalar_type_name(s: &str) -> (r: bool)
    ensures
        r == is_scalar_name(s@),
{
    let r = str_eq(s, "double") || str_eq(s, "float") || str_eq(s, "int64") || str_eq(s, "uint64")
        || str_eq(s, "int32") || str_eq(s, "fixed64") || str_eq(s, "fixed32") || str_eq(s, "bool")
        || str_eq(s, "string") || str_eq(s, "group") || str_eq(s, "message") || str_eq(s, "bytes")
        || str_eq(s, "uint32") || str_eq(s, "enum") || str_eq(s, "sfixed32") || str_eq(s, "sfixed64")
        || str_eq(s, "sint32") || str_eq(s, "sint64");
    proof {
        if r {
            if s@ == "double"@ { assert(scalar_name(1) == Some(s@)); }
            else if s@ == "float"@ { assert(scalar_name(2) == Some(s@)); }
            else if s@ == "int64"@ { assert(scalar_name(3) == Some(s@)); }
            else if s@ == "uint64"@ { assert(scalar_name(4) == Some(s@)); }
            else if s@ == "int32"@ { assert(scalar_name(5) == Some(s@)); }
            else if s@ == "fixed64"@ { assert(scalar_name(6) == Some(s@)); }
            else if s@ == "fixed32"@ { assert(scalar_name(7) == Some(s@)); }
            else if s@ == "bool"@ { assert(scalar_name(8) == Some(s@)); }
            else if s@ == "string"@ { assert(scalar_name(9) == Some(s@)); }
            else if s@ == "group"@ { assert(scalar_name(10) == Some(s@)); }
            else if s@ == "message"@ { assert(scalar_name(11) == Some(s@)); }
            else if s@ == "bytes"@ { assert(scalar_name(12) == Some(s@)); }
            else if s@ == "uint32"@ { assert(scalar_name(13) == Some(s@)); }
            else if s@ == "enum"@ { assert(scalar_name(14) == Some(s@)); }
            else if s@ == "sfixed32"@ { assert(scalar_name(15) == Some(s@)); }
            else if s@ == "sfixed64"@ { assert(scalar_name(16) == Some(s@)); }
            else if s@ == "sint32"@ { assert(scalar_name(17) == Some(s@)); }
            else { assert(scalar_name(18) == Some(s@)); }
        }
    }
    r
}

// ---------------------------------------------------------------------------
// Field types

/// The identifier that is the first argument of a call.
pub open spec fn first_arg_ident(args: Seq<JsArg>) -> Option<Seq<char>> {
    if args.len() > 0 {
        match args[0] {
            JsArg::Expr(JsExpr::Ident(id)) => Some(id@),
            _ => None,
        }
    } else {
        None
    }
}

fn first_arg_ident_exec(args: &Vec<JsArg>) -> (r: Option<String>)
    ensures
        crate::util::string_opt_view(r) == first_arg_ident(args@),
{
    if args.len() > 0 {
        if let JsArg::Expr(JsExpr::Ident(id)) = &args[0] {
            return Some(id.clone());
        }
    }
    None
}

/// The message an arrow-body statement refers to: `M;` or `f(M, ...);`.
pub open spec fn stmt_message_ref(s: JsStmt) -> Option<Seq<char>> {
    match s {
        JsStmt::Expr(JsExpr::Ident(id)) => Some(id@),
        JsStmt::Expr(JsExpr::Call(_, args)) => first_arg_ident(args@),
        _ => None,
    }
}

fn expr_message_ref(e: &JsExpr) -> (r: Option<String>)
    ensures
        crate::util::string_opt_view(r) == stmt_message_ref(JsStmt::Expr(*e)),
{
    match e {
        JsExpr::Ident(id) => Some(id.clone()),
        JsExpr::Call(_, args) => first_arg_ident_exec(args),
        _ => None,
    }
}

/// The message referred to by the first statement of an arrow body that
/// refers to one.
pub open spec fn arrow_message_ref(b: JsArrowBody) -> Option<Seq<char>> {
    first_some(arrow_statements(b), |s: JsStmt| stmt_message_ref(s))
}

fn arrow_message_ref_exec(b: &JsArrowBody) -> (r: Option<String>)
    ensures
        crate::util::string_opt_view(r) == arrow_message_ref(*b),
{
    match b {
        JsArrowBody::Block(ss) => {
            let mut i: usize = 0;
            while i < ss.len()
                invariant
                    i <= ss.len(),
                    arrow_message_ref(*b) == first_some_from(
                        ss@,
                        |s: JsStmt| stmt_message_ref(s),
                        i as int,
                    ),
                decreases ss.len() - i,
            {
                if let JsStmt::Expr(e) = &ss[i] {
                    let found = expr_message_ref(e);
                    if found.is_some() {
                        return found;
                    }
                }
                i += 1;
            }
            None
        },
        JsArrowBody::Expr(e) => {
            let r = expr_message_ref(e);
            assert(first_some_from(arrow_statements(*b), |s: JsStmt| stmt_message_ref(s), 1) is None);
            r
        },
    }
}

/// The type name written for a field of kind `kind` whose type expression is
/// `value`: a scalar's name, an enum's or message's identifier, `map`, or one
/// of the `unknown...` names.
pub open spec fn field_type_name(kind: Seq<char>, value: JsExpr) -> Seq<char> {
    if kind == "scalar"@ {
        match value {
            JsExpr::Num(n) => scalar_type(n.as_u32),
            _ => "unknown_scalar"@,
        }
    } else if kind == "enum"@ {
        match value {
            JsExpr::Ident(id) => id@,
            JsExpr::Call(_, args) => match first_arg_ident(args@) {
                Some(n) => n,
                None => "unknown_enum"@,
            },
            _ => "unknown_enum"@,
        }
    } else if kind == "message"@ {
        match value {
            JsExpr::Ident(id) => id@,
            JsExpr::Arrow(b) => match arrow_message_ref(*b) {
                Some(n) => n,
                None => "unknown_message"@,
            },
            JsExpr::Call(_, args) => match first_arg_ident(args@) {
                Some(n) => n,
                None => "unknown_message"@,
            },
            _ => "unknown_message"@,
        }
    } else if kind == "map"@ {
        "map"@
    } else {
        "unknown"@
    }
}

pub fn resolve_field_type_str(kind: &str, value: &JsExpr) -> (r: String)
    ensures
        r@ == field_type_name(kind@, *value),
{
    if str_eq(kind, "scalar") {
        match value {
            JsExpr::Num(n) => resolve_scalar(n.as_u32),
            _ => "unknown_scalar".to_owned(),
        }
    } else if str_eq(kind, "enum") {
        match value {
            JsExpr::Ident(id) => id.clone(),
            JsExpr::Call(_, args) => match first_arg_ident_exec(args) {
                Some(n) => n,
                None => "unknown_enum".to_owned(),
            },
            _ => "unknown_enum".to_owned(),
        }
    } else if str_eq(kind, "message") {
        match value {
            JsExpr::Ident(id) => id.clone(),
            JsExpr::Arrow(b) => match arrow_message_ref_exec(b) {
                Some(n) => n,
                None => "unknown_message".to_owned(),
            },
            JsExpr::Call(_, args) => match first_arg_ident_exec(args) {
                Some(n) => n,
                None => "unknown_message".to_owned(),
            },
            _ => "unknown_message".to_owned(),
        }
    } else if str_eq(kind, "map") {
        "map".to_owned()
    } else {
        "unknown".to_owned()
    }
}

/// The string value of a `kind: "..."` property.
pub open spec fn kind_string(p: JsProp) -> Option<Seq<char>> {
    match p {
        JsProp::Prop(k, v) => if key_name(k) == Some("kind"@) {
            string_value(v)
        } else {
            None
        },
        JsProp::Spread => None,
    }
}

/// The value type of a map field, read from the object literal that
/// describes it (`{ kind: ..., T: ... }`), or `unknown`.
pub open spec fn map_value_type(props: Seq<JsProp>) -> Seq<char> {
    match (first_some(props, |p: JsProp| kind_string(p)), obj_prop(props, "T"@)) {
        (Some(kind), Some(t)) => field_type_name(kind, t),
        _ => "unknown"@,
    }
}

fn first_kind_string(props: &Vec<JsProp>) -> (r: Option<&str>)
    ensures
        str_opt_view(r) == first_some(props@, |p: JsProp| kind_string(p)),
{
    let mut i: usize = 0;
    while i < props.len()
        invariant
            i <= props.len(),
            first_some(props@, |p: JsProp| kind_string(p)) == first_some_from(
                props@,
                |p: JsProp| kind_string(p),
                i as int,
            ),
        decreases props.len() - i,
    {
        if let JsProp::Prop(key, value) = &props[i] {
            if let Some(kn) = get_prop_key_name(key) {
                if str_eq(kn, "kind") {
                    let v = get_string_value(value);
                    if v.is_some() {
                        return v;
                    }
                }
            }
        }
        i += 1;
    }
    None
}

pub fn resolve_map_value_type(props: &Vec<JsProp>) -> (r: String)
    ensures
        r@ == map_value_type(props@),
{
    let kind = first_kind_string(props);
    let tp = get_obj_prop(props, "T");
    match (kind, tp) {
        (Some(k), Some(t)) => resolve_field_type_str(k, t),
        _ => "unknown".to_owned(),
    }
}

// ---------------------------------------------------------------------------
// Classes

/// The class a declarator of `name` with an initializer holds (see
/// `class_of_init`); the outer `None` for any other declarator.
pub open spec fn decl_class(d: JsDeclarator, name: Seq<char>) -> Option<Option<JsClass>> {
    if declares(d, name) {
        match d.init {
            Some(init) => Some(class_of_init(init)),
            None => None,
        }
    } else {
        None
    }
}

/// What a statement says about the class bound to `name`: a declarator of
/// `name` with an initializer, or an assignment `name = ...`.
pub open spec fn stmt_class(s: JsStmt, name: Seq<char>) -> Option<Option<JsClass>> {
    match s {
        JsStmt::VarDecl(ds) => first_some(ds@, |d: JsDeclarator| decl_class(d, name)),
        JsStmt::Expr(JsExpr::Assign(l, r)) => match *l {
            JsTarget::Ident(id) => if id@ == name {
                Some(class_of_init(*r))
            } else {
                None
            },
            _ => None,
        },
        _ => None,
    }
}

/// The class bound to `name`, as the first statement that speaks of `name`
/// (see `stmt_class`) gives it.
pub open spec fn class_named(body: Seq<JsStmt>, name: Seq<char>) -> Option<JsClass> {
    match first_some(body, |s: JsStmt| stmt_class(s, name)) {
        Some(found) => found,
        None => None,
    }
}

fn declaration_class<'a>(ds: &'a Vec<JsDeclarator>, name: &str) -> (r: Option<Option<&'a JsClass>>)
    ensures
        match r {
            Some(c) => first_some(ds@, |d: JsDeclarator| decl_class(d, name@)) == Some(deref_opt(c)),
            None => first_some(ds@, |d: JsDeclarator| decl_class(d, name@)) is None,
        },
{
    let mut j: usize = 0;
    while j < ds.len()
        invariant
            j <= ds.len(),
            first_some(ds@, |d: JsDeclarator| decl_class(d, name@)) == first_some_from(
                ds@,
                |d: JsDeclarator| decl_class(d, name@),
                j as int,
            ),
        decreases ds.len() - j,
    {
        if let Some(id) = &ds[j].id {
            if str_eq(id.as_str(), name) {
                if let Some(init) = &ds[j].init {
                    return Some(extract_class_from_init(init));
                }
            }
        }
        j += 1;
    }
    None
}

pub fn find_class<'a>(body: &'a Vec<JsStmt>, name: &str) -> (r: Option<&'a JsClass>)
    ensures
        deref_opt(r) == class_named(body@, name@),
{
    let mut i: usize = 0;
    while i < body.len()
        invariant
            i <= body.len(),
            first_some(body@, |s: JsStmt| stmt_class(s, name@)) == first_some_from(
                body@,
                |s: JsStmt| stmt_class(s, name@),
                i as int,
            ),
        decreases body.len() - i,
    {
        match &body[i] {
            JsStmt::VarDecl(ds) => {
                if let Some(found) = declaration_class(ds, name) {
                    return found;
                }
            },
            JsStmt::Expr(JsExpr::Assign(left, right)) => {
                if let JsTarget::Ident(id) = &**left {
                    if str_eq(id.as_str(), name) {
                        return extract_class_from_init(right);
                    }
                }
            },
            _ => {},
        }
        i += 1;
    }
    None
}

/// The first `f(s)` that is `Some` over the statements of a static block.
pub open spec fn member_first<B>(m: JsMember, f: spec_fn(JsStmt) -> Option<B>) -> Option<B> {
    match m {
        JsMember::StaticBlock(ss) => first_some(ss@, f),
        JsMember::Other => None,
    }
}

/// The first `f(s)` that is `Some` over the statements of the class's static
/// blocks, in order.
pub open spec fn static_first<B>(c: JsClass, f: spec_fn(JsStmt) -> Option<B>) -> Option<B> {
    first_some(c.members@, |m: JsMember| member_first(m, f))
}

/// The statements of a member: those of a static block, or none.
pub open spec fn member_stmts(m: JsMember) -> Seq<JsStmt> {
    match m {
        JsMember::StaticBlock(ss) => ss@,
        JsMember::Other => Seq::empty(),
    }
}

/// The statements of the static blocks of `members[i..]`, in order.
pub open spec fn stmts_from(members: Seq<JsMember>, i: int) -> Seq<JsStmt>
    decreases members.len() - i,
{
    if i < 0 || i >= members.len() {
        Seq::empty()
    } else {
        member_stmts(members[i]) + stmts_from(members, i + 1)
    }
}

/// The statements of all static blocks of the class, in order.
pub open spec fn static_stmts(c: JsClass) -> Seq<JsStmt> {
    stmts_from(c.members@, 0)
}

proof fn lemma_stmts_from_first<B>(
    members: Seq<JsMember>,
    f: spec_fn(JsStmt) -> Option<B>,
    g: spec_fn(JsMember) -> Option<B>,
    i: int,
)
    requires
        0 <= i <= members.len(),
        forall|m: JsMember| #[trigger] g(m) == member_first(m, f),
    ensures
        first_some_from(members, g, i) == first_some(stmts_from(members, i), f),
    decreases members.len() - i,
{
    if i < members.len() {
        lemma_stmts_from_first(members, f, g, i + 1);
        lemma_first_some_concat(member_stmts(members[i]), stmts_from(members, i + 1), f, 0);
        assert(g(members[i]) == first_some(member_stmts(members[i]), f));
    }
}

/// Searching the static blocks member by member is searching the flat list
/// of their statements.
pub proof fn lemma_static_first_flat<B>(c: JsClass, f: spec_fn(JsStmt) -> Option<B>)
    ensures
        static_first(c, f) == first_some(static_stmts(c), f),
{
    lemma_stmts_from_first(c.members@, f, |m: JsMember| member_first(m, f), 0);
}

/// A sequence of statement references, read as the statements.
pub open spec fn stmt_refs_view(r: Seq<&JsStmt>) -> Seq<JsStmt> {
    r.map_values(|s: &JsStmt| *s)
}

/// The statements of all static blocks of the class, in order.
pub fn static_statements(c: &JsClass) -> (r: Vec<&JsStmt>)
    ensures
        stmt_refs_view(r@) == static_stmts(*c),
{
    let mut out: Vec<&JsStmt> = Vec::new();
    let mut i: usize = 0;
    assert(stmt_refs_view(out@) + stmts_from(c.members@, 0) =~= static_stmts(*c));
    while i < c.members.len()
        invariant
            i <= c.members.len(),
            stmt_refs_view(out@) + stmts_from(c.members@, i as int) == static_stmts(*c),
        decreases c.members.len() - i,
    {
        if let JsMember::StaticBlock(ss) = &c.members[i] {
            let mut j: usize = 0;
            assert(ss@.subrange(0, ss.len() as int) =~= ss@);
            while j < ss.len()
                invariant
                    i < c.members.len(),
                    c.members@[i as int] == JsMember::StaticBlock(*ss),
                    j <= ss.len(),
                    stmt_refs_view(out@) + ss@.subrange(j as int, ss.len() as int) + stmts_from(c.members@, i + 1)
                        == static_stmts(*c),
                decreases ss.len() - j,
            {
                let ghost before = out@;
                out.push(&ss[j]);
                assert(stmt_refs_view(out@) =~= stmt_refs_view(before).push(ss@[j as int]));
                assert(seq![ss@[j as int]] + ss@.subrange(j + 1, ss.len() as int) =~= ss@.subrange(j as int, ss.len() as int));
                assert(stmt_refs_view(out@) + ss@.subrange(j + 1, ss.len() as int) =~= stmt_refs_view(before) + ss@.subrange(j as int, ss.len() as int));
                j += 1;
            }
            assert(ss@.subrange(ss.len() as int, ss.len() as int) =~= Seq::<JsStmt>::empty());
            assert(stmt_refs_view(out@) + stmts_from(c.members@, i + 1) =~= stmt_refs_view(out@) + ss@.subrange(ss.len() as int, ss.len() as int) + stmts_from(c.members@, i + 1));
        } else {
            assert(stmts_from(c.members@, i as int) =~= stmts_from(c.members@, i + 1));
        }
        i += 1;
    }
    assert(stmts_from(c.members@, i as int) =~= Seq::<JsStmt>::empty());
    assert(stmt_refs_view(out@) =~= stmt_refs_view(out@) + stmts_from(c.members@, i as int));
    out
}

pub open spec fn vec_opt_view<T>(o: Option<&Vec<T>>) -> Option<Seq<T>> {
    match o {
        Some(v) => Some(v@),
        None => None,
    }
}

/// The arguments of the call assigned by `X.fields = f(...)`.
pub open spec fn stmt_fields_call(s: JsStmt) -> Option<Seq<JsArg>> {
    match s {
        JsStmt::Expr(JsExpr::Assign(l, r)) => match (*l, *r) {
            (JsTarget::Member(_, p), JsExpr::Call(_, args)) => if p@ == "fields"@ {
                Some(args@)
            } else {
                None
            },
            _ => None,
        },
        _ => None,
    }
}

fn stmt_fields_call_exec(s: &JsStmt) -> (r: Option<&Vec<JsArg>>)
    ensures
        vec_opt_view(r) == stmt_fields_call(*s),
{
    if let JsStmt::Expr(JsExpr::Assign(left, right)) = s {
        if let (JsTarget::Member(_, p), JsExpr::Call(_, args)) = (&**left, &**right) {
            if str_eq(p.as_str(), "fields") {
                return Some(args);
            }
        }
    }
    None
}

/// The arguments of the field-list call of the class bound to `name`.
pub open spec fn fields_call(body: Seq<JsStmt>, name: Seq<char>) -> Option<Seq<JsArg>> {
    match class_named(body, name) {
        Some(c) => static_first(c, |s: JsStmt| stmt_fields_call(s)),
        None => None,
    }
}

fn class_fields_call(c: &JsClass) -> (r: Option<&Vec<JsArg>>)
    ensures
        vec_opt_view(r) == static_first(*c, |s: JsStmt| stmt_fields_call(s)),
{
    let ss = static_statements(c);
    proof {
        lemma_static_first_flat(*c, |s: JsStmt| stmt_fields_call(s));
    }
    let mut j: usize = 0;
    while j < ss.len()
        invariant
            j <= ss.len(),
            stmt_refs_view(ss@) == static_stmts(*c),
            static_first(*c, |s: JsStmt| stmt_fields_call(s)) == first_some_from(
                static_stmts(*c),
                |s: JsStmt| stmt_fields_call(s),
                j as int,
            ),
        decreases ss.len() - j,
    {
        assert(*ss@[j as int] == static_stmts(*c)[j as int]);
        let found = stmt_fields_call_exec(ss[j]);
        if found.is_some() {
            return found;
        }
        j += 1;
    }
    None
}

pub fn find_fields_call<'a>(body: &'a Vec<JsStmt>, name: &str) -> (r: Option<&'a Vec<JsArg>>)
    ensures
        vec_opt_view(r) == fields_call(body@, name@),
{
    match find_class(body, name) {
        Some(c) => class_fields_call(c),
        None => None,
    }
}

/// The type name a statement `this.typeName = "..."` sets, with `.` turned
/// into `_`; the inner `None` when the value is not a string.
pub open spec fn stmt_type_name(s: JsStmt) -> Option<Option<Seq<char>>> {
    match s {
        JsStmt::Expr(JsExpr::Assign(l, r)) => match *l {
            JsTarget::Member(obj, p) => if p@ == "typeName"@ && obj is This {
                Some(
                    match string_value(*r) {
                        Some(v) => Some(dots_to_underscores(v)),
                        None => None,
                    },
                )
            } else {
                None
            },
            _ => None,
        },
        _ => None,
    }
}

/// The type name the class declares in its static blocks.
pub open spec fn type_name_of(c: JsClass) -> Option<Seq<char>> {
    match static_first(c, |s: JsStmt| stmt_type_name(s)) {
        Some(found) => found,
        None => None,
    }
}

fn stmt_type_name_exec(s: &JsStmt) -> (r: Option<Option<String>>)
    ensures
        match r {
            Some(o) => stmt_type_name(*s) == Some(crate::util::string_opt_view(o)),
            None => stmt_type_name(*s) is None,
        },
{
    if let JsStmt::Expr(JsExpr::Assign(left, right)) = s {
        if let JsTarget::Member(obj, p) = &**left {
            if str_eq(p.as_str(), "typeName") {
                if let JsExpr::This = obj {
                    return Some(
                        match get_string_value(right) {
                            Some(v) => Some(replace_dots(v)),
                            None => None,
                        },
                    );
                }
            }
        }
    }
    None
}

pub fn extract_type_name(c: &JsClass) -> (r: Option<String>)
    ensures
        crate::util::string_opt_view(r) == type_name_of(*c),
{
    let ss = static_statements(c);
    proof {
        lemma_static_first_flat(*c, |s: JsStmt| stmt_type_name(s));
    }
    let mut j: usize = 0;
    while j < ss.len()
        invariant
            j <= ss.len(),
            stmt_refs_view(ss@) == static_stmts(*c),
            static_first(*c, |s: JsStmt| stmt_type_name(s)) == first_some_from(
                static_stmts(*c),
                |s: JsStmt| stmt_type_name(s),
                j as int,
            ),
        decreases ss.len() - j,
    {
        assert(*ss@[j as int] == static_stmts(*c)[j as int]);
        if let Some(found) = stmt_type_name_exec(ss[j]) {
            return found;
        }
        j += 1;
    }
    None
}

// ---------------------------------------------------------------------------
// Field lists

/// The field an element of a field list describes: an object literal with
/// `no` (a number), `name` and `kind`, and optionally `T`, `repeated`, `opt`,
/// `oneof`, and for maps `K` and `V`. Type names go through `mapping`.
pub open spec fn field_of(e: JsElem, mapping: Seq<(Seq<char>, Seq<char>)>) -> Option<FieldView> {
    match elem_object(e) {
        None => None,
        Some(props) => match (obj_prop(props, "no"@), obj_prop(props, "name"@), obj_prop(props, "kind"@)) {
            (Some(JsExpr::Num(n)), Some(nv), Some(kv)) => {
                let kind = string_or_empty(kv);
                Some(
                    FieldView {
                        no: n.bits,
                        name: string_or_empty(nv),
                        kind: kind,
                        t: match obj_prop(props, "T"@) {
                            Some(tv) => Some(mapped_name(mapping, field_type_name(kind, tv))),
                            None => None,
                        },
                        repeated: obj_prop(props, "repeated"@) is Some,
                        opt: obj_prop(props, "opt"@) is Some,
                        oneof: match obj_prop(props, "oneof"@) {
                            Some(v) => string_value(v),
                            None => None,
                        },
                        map: if kind == "map"@ {
                            Some(
                                MapView {
                                    k: match obj_prop(props, "K"@) {
                                        Some(JsExpr::Num(k)) => Some(scalar_type(k.as_u32)),
                                        _ => None,
                                    },
                                    v: match obj_prop(props, "V"@) {
                                        Some(JsExpr::Object(o)) => Some(
                                            mapped_name(mapping, map_value_type(o@)),
                                        ),
                                        Some(_) => Some("unknown"@),
                                        None => None,
                                    },
                                },
                            )
                        } else {
                            None
                        },
                    },
                )
            },
            _ => None,
        },
    }
}

/// The fields of a field-list call `f(() => [...])`, in order.
pub open spec fn fields_of(args: Seq<JsArg>, mapping: Seq<(Seq<char>, Seq<char>)>) -> Seq<FieldView> {
    match fields_array_of(args) {
        Some(els) => els.filter_map(|e: JsElem| field_of(e, mapping)),
        None => Seq::empty(),
    }
}

fn field_from_object(props: &Vec<JsProp>, mapping: &Vec<(String, String)>) -> (r: Option<MappedField>)
    ensures
        match r {
            Some(f) => field_of(JsElem::Expr(JsExpr::Object(*props)), crate::util::pairs_view(mapping@)) == Some(f@),
            None => field_of(JsElem::Expr(JsExpr::Object(*props)), crate::util::pairs_view(mapping@)) is None,
        },
{
    let no = match get_obj_prop(props, "no") {
        Some(JsExpr::Num(n)) => n.bits,
        _ => {
            return None;
        },
    };
    let name = match get_obj_prop(props, "name") {
        Some(v) => string_or_empty_exec(v),
        None => {
            return None;
        },
    };
    let kind = match get_obj_prop(props, "kind") {
        Some(v) => string_or_empty_exec(v),
        None => {
            return None;
        },
    };
    let t = match get_obj_prop(props, "T") {
        Some(v) => Some(map_name(mapping, resolve_field_type_str(kind.as_str(), v))),
        None => None,
    };
    let repeated = get_obj_prop(props, "repeated").is_some();
    let opt = get_obj_prop(props, "opt").is_some();
    let oneof = match get_obj_prop(props, "oneof") {
        Some(v) => match get_string_value(v) {
            Some(s) => Some(s.to_owned()),
            None => None,
        },
        None => None,
    };
    let map = if str_eq(kind.as_str(), "map") {
        let k = match get_obj_prop(props, "K") {
            Some(JsExpr::Num(n)) => Some(resolve_scalar(n.as_u32)),
            _ => None,
        };
        let v = match get_obj_prop(props, "V") {
            Some(JsExpr::Object(o)) => Some(map_name(mapping, resolve_map_value_type(o))),
            Some(_) => Some("unknown".to_owned()),
            None => None,
        };
        Some(MappedMap { k, v })
    } else {
        None
    };
    Some(MappedField { no, name, kind, t, repeated, opt, oneof, map })
}

pub fn fields_to_vec(args: &Vec<JsArg>, mapping: &Vec<(String, String)>) -> (r: Vec<MappedField>)
    ensures
        fields_view(r@) == fields_of(args@, crate::util::pairs_view(mapping@)),
{
    let els = match fields_array(args) {
        Some(els) => els,
        None => {
            return Vec::new();
        },
    };
    let ghost m = crate::util::pairs_view(mapping@);
    let mut out: Vec<MappedField> = Vec::new();
    let mut i: usize = 0;
    while i < els.len()
        invariant
            i <= els.len(),
            m == crate::util::pairs_view(mapping@),
            fields_view(out@) == els@.take(i as int).filter_map(|e: JsElem| field_of(e, m)),
        decreases els.len() - i,
    {
        proof {
            lemma_filter_map_take_step(els@, |e: JsElem| field_of(e, m), i as int);
        }
        if let JsElem::Expr(JsExpr::Object(obj)) = &els[i] {
            if let Some(f) = field_from_object(obj, mapping) {
                let ghost before = out@;
                out.push(f);
                assert(fields_view(out@) =~= fields_view(before).push(f@));
            }
        }
        i += 1;
    }
    assert(els@.take(els.len() as int) =~= els@);
    out
}

// ---------------------------------------------------------------------------
// Enums

/// The name of an enum: the string its name argument spells out, or else the
/// identifier of the enum object.
pub open spec fn enum_name_of(arg: JsArg, enum_ref: Seq<char>) -> Seq<char> {
    match arg {
        JsArg::Expr(e) => match string_value(e) {
            Some(s) => s,
            None => enum_ref,
        },
        JsArg::Spread => enum_ref,
    }
}

/// A statement `X.setEnumType(E, name, [...values], ...)`: the enum's name and
/// its value descriptions.
pub open spec fn enum_call(s: JsStmt) -> Option<(Seq<char>, Seq<JsElem>)> {
    match s {
        JsStmt::Expr(JsExpr::Call(callee, args)) => match *callee {
            JsExpr::Member(_, p) => if p@ == "setEnumType"@ && args@.len() >= 3 {
                match (args@[0], args@[2]) {
                    (JsArg::Expr(JsExpr::Ident(r)), JsArg::Expr(JsExpr::Array(vals))) => Some(
                        (enum_name_of(args@[1], r@), vals@),
                    ),
                    _ => None,
                }
            } else {
                None
            },
            _ => None,
        },
        _ => None,
    }
}

/// The number of a `no: <number>` property.
pub open spec fn entry_no(p: JsProp) -> Option<u64> {
    match p {
        JsProp::Prop(k, JsExpr::Num(n)) => if key_name(k) == Some("no"@) {
            Some(n.bits)
        } else {
            None
        },
        _ => None,
    }
}

/// The string of a `name: "..."` property.
pub open spec fn entry_name(p: JsProp) -> Option<Seq<char>> {
    match p {
        JsProp::Prop(k, v) => if key_name(k) == Some("name"@) {
            string_value(v)
        } else {
            None
        },
        JsProp::Spread => None,
    }
}

/// An enum value: an object literal with a numeric `no` and a string `name`
/// (the first of each).
pub open spec fn enum_entry(e: JsElem) -> Option<EntryView> {
    match elem_object(e) {
        Some(ps) => match (first_some(ps, |p: JsProp| entry_no(p)), first_some(ps, |p: JsProp| entry_name(p))) {
            (Some(no), Some(name)) => Some(EntryView { no: no, name: name }),
            _ => None,
        },
        None => None,
    }
}

pub open spec fn enum_entries(vals: Seq<JsElem>) -> Seq<EntryView> {
    vals.filter_map(|e: JsElem| enum_entry(e))
}

/// The enums the first `n` statements of `body` define; a later definition
/// of a name replaces an earlier one in place.
pub open spec fn enums_upto(body: Seq<JsStmt>, n: int) -> Seq<EnumGroupView>
    decreases n,
{
    if n <= 0 {
        Seq::empty()
    } else {
        let prev = enums_upto(body, n - 1);
        match enum_call(body[n - 1]) {
            Some((name, vals)) => upsert_group(prev, EnumGroupView { name: name, values: enum_entries(vals) }),
            None => prev,
        }
    }
}

/// The enums the module defines with `setEnumType`.
pub open spec fn enums_of(body: Seq<JsStmt>) -> Seq<EnumGroupView> {
    enums_upto(body, body.len() as int)
}

fn first_entry_no(props: &Vec<JsProp>) -> (r: Option<u64>)
    ensures
        r == first_some(props@, |p: JsProp| entry_no(p)),
{
    let mut i: usize = 0;
    while i < props.len()
        invariant
            i <= props.len(),
            first_some(props@, |p: JsProp| entry_no(p)) == first_some_from(props@, |p: JsProp| entry_no(p), i as int),
        decreases props.len() - i,
    {
        if let JsProp::Prop(key, JsExpr::Num(n)) = &props[i] {
            if let Some(kn) = get_prop_key_name(key) {
                if str_eq(kn, "no") {
                    return Some(n.bits);
                }
            }
        }
        i += 1;
    }
    None
}

fn first_entry_name(props: &Vec<JsProp>) -> (r: Option<&str>)
    ensures
        str_opt_view(r) == first_some(props@, |p: JsProp| entry_name(p)),
{
    let mut i: usize = 0;
    while i < props.len()
        invariant
            i <= props.len(),
            first_some(props@, |p: JsProp| entry_name(p)) == first_some_from(props@, |p: JsProp| entry_name(p), i as int),
        decreases props.len() - i,
    {
        if let JsProp::Prop(key, value) = &props[i] {
            if let Some(kn) = get_prop_key_name(key) {
                if str_eq(kn, "name") {
                    let v = get_string_value(value);
                    if v.is_some() {
                        return v;
                    }
                }
            }
        }
        i += 1;
    }
    None
}

fn enum_values(vals: &Vec<JsElem>) -> (r: Vec<MappedEnumEntry>)
    ensures
        entries_view(r@) == enum_entries(vals@),
{
    let mut out: Vec<MappedEnumEntry> = Vec::new();
    let mut i: usize = 0;
    while i < vals.len()
        invariant
            i <= vals.len(),
            entries_view(out@) == vals@.take(i as int).filter_map(|e: JsElem| enum_entry(e)),
        decreases vals.len() - i,
    {
        proof {
            lemma_filter_map_take_step(vals@, |e: JsElem| enum_entry(e), i as int);
        }
        if let JsElem::Expr(JsExpr::Object(obj)) = &vals[i] {
            let no = first_entry_no(obj);
            let name = first_entry_name(obj);
            if let (Some(no), Some(name)) = (no, name) {
                let entry = MappedEnumEntry { no, name: name.to_owned() };
                let ghost before = out@;
                out.push(entry);
                assert(entries_view(out@) =~= entries_view(before).push(entry@));
            }
        }
        i += 1;
    }
    assert(vals@.take(vals.len() as int) =~= vals@);
    out
}

fn enum_call_exec(s: &JsStmt) -> (r: Option<(String, &Vec<JsElem>)>)
    ensures
        match r {
            Some((name, vals)) => enum_call(*s) == Some((name@, vals@)),
            None => enum_call(*s) is None,
        },
{
    if let JsStmt::Expr(JsExpr::Call(callee, args)) = s {
        if let JsExpr::Member(_, p) = &**callee {
            if str_eq(p.as_str(), "setEnumType") && args.len() >= 3 {
                if let (JsArg::Expr(JsExpr::Ident(r)), JsArg::Expr(JsExpr::Array(vals))) = (&args[0], &args[2]) {
                    let name = match &args[1] {
                        JsArg::Expr(e) => match get_string_value(e) {
                            Some(v) => v.to_owned(),
                            None => r.clone(),
                        },
                        JsArg::Spread => r.clone(),
                    };
                    return Some((name, vals));
                }
            }
        }
    }
    None
}

pub fn extract_enums(body: &Vec<JsStmt>) -> (r: Vec<MappedEnumGroup>)
    ensures
        groups_view(r@) == enums_of(body@),
{
    let mut groups: Vec<MappedEnumGroup> = Vec::new();
    let mut i: usize = 0;
    while i < body.len()
        invariant
            i <= body.len(),
            groups_view(groups@) == enums_upto(body@, i as int),
        decreases body.len() - i,
    {
        if let Some((name, vals)) = enum_call_exec(&body[i]) {
            let values = enum_values(vals);
            upsert_group_exec(&mut groups, MappedEnumGroup { name, values });
        }
        i += 1;
    }
    groups
}

// ---------------------------------------------------------------------------
// Message dependencies

/// A name that needs no class of its own: a scalar type, a name already in
/// the name table, or a name already visited.
pub open spec fn excluded(d: Seq<char>, mapping: Seq<(Seq<char>, Seq<char>)>, visited: Seq<Seq<char>>) -> bool {
    is_scalar_name(d) || lookup(mapping, d) is Some || visited.contains(d)
}

/// The type a field description depends on: the message identifier of a
/// `message` field, the enum of an `enum` field (`T: f(E)`), or the value
/// type of a `map` field that is not excluded.
pub open spec fn elem_dep(e: JsElem, mapping: Seq<(Seq<char>, Seq<char>)>, visited: Seq<Seq<char>>) -> Option<Seq<char>> {
    match elem_object(e) {
        Some(props) => match (obj_prop(props, "kind"@), obj_prop(props, "T"@)) {
            (Some(kv), Some(tp)) => {
                let kind = string_or_empty(kv);
                if kind == "message"@ {
                    match tp {
                        JsExpr::Ident(id) => Some(id@),
                        _ => None,
                    }
                } else if kind == "enum"@ {
                    match tp {
                        JsExpr::Call(_, args) => first_arg_ident(args@),
                        _ => None,
                    }
                } else if kind == "map"@ {
                    match tp {
                        JsExpr::Object(o) => {
                            let vt = map_value_type(o@);
                            if excluded(vt, mapping, visited) {
                                None
                            } else {
                                Some(vt)
                            }
                        },
                        _ => None,
                    }
                } else {
                    None
                }
            },
            _ => None,
        },
        None => None,
    }
}

/// The dependencies of the first `n` field descriptions: each one that is not
/// excluded, once, in order of first appearance.
pub open spec fn deps_upto(
    els: Seq<JsElem>,
    n: int,
    mapping: Seq<(Seq<char>, Seq<char>)>,
    visited: Seq<Seq<char>>,
) -> Seq<Seq<char>>
    decreases n,
{
    if n <= 0 {
        Seq::empty()
    } else {
        let prev = deps_upto(els, n - 1, mapping, visited);
        match elem_dep(els[n - 1], mapping, visited) {
            Some(d) => if !excluded(d, mapping, visited) && !prev.contains(d) {
                prev.push(d)
            } else {
                prev
            },
            None => prev,
        }
    }
}

/// The types a field-list call depends on that still need a class.
pub open spec fn deps_of(args: Seq<JsArg>, mapping: Seq<(Seq<char>, Seq<char>)>, visited: Seq<Seq<char>>) -> Seq<Seq<char>> {
    match fields_array_of(args) {
        Some(els) => deps_upto(els, els.len() as int, mapping, visited),
        None => Seq::empty(),
    }
}

fn is_excluded(d: &str, mapping: &Vec<(String, String)>, visited: &Vec<String>) -> (r: bool)
    ensures
        r == excluded(d@, crate::util::pairs_view(mapping@), names_view(visited@)),
{
    is_scalar_type_name(d) || lookup_name(mapping, d).is_some() || contains_name(visited, d)
}

fn elem_dep_exec(props: &Vec<JsProp>, mapping: &Vec<(String, String)>, visited: &Vec<String>) -> (r: Option<String>)
    ensures
        crate::util::string_opt_view(r) == elem_dep(
            JsElem::Expr(JsExpr::Object(*props)),
            crate::util::pairs_view(mapping@),
            names_view(visited@),
        ),
{
    let kind = match get_obj_prop(props, "kind") {
        Some(v) => string_or_empty_exec(v),
        None => {
            return None;
        },
    };
    let tp = match get_obj_prop(props, "T") {
        Some(v) => v,
        None => {
            return None;
        },
    };
    if str_eq(kind.as_str(), "message") {
        match tp {
            JsExpr::Ident(id) => Some(id.clone()),
            _ => None,
        }
    } else if str_eq(kind.as_str(), "enum") {
        match tp {
            JsExpr::Call(_, args) => first_arg_ident_exec(args),
            _ => None,
        }
    } else if str_eq(kind.as_str(), "map") {
        match tp {
            JsExpr::Object(o) => {
                let vt = resolve_map_value_type(o);
                if is_excluded(vt.as_str(), mapping, visited) {
                    None
                } else {
                    Some(vt)
                }
            },
            _ => None,
        }
    } else {
        None
    }
}

pub fn collect_deps(args: &Vec<JsArg>, mapping: &Vec<(String, String)>, visited: &Vec<String>) -> (r: Vec<String>)
    ensures
        names_view(r@) == deps_of(args@, crate::util::pairs_view(mapping@), names_view(visited@)),
{
    let els = match fields_array(args) {
        Some(els) => els,
        None => {
            return Vec::new();
        },
    };
    let ghost m = crate::util::pairs_view(mapping@);
    let ghost vis = names_view(visited@);
    let mut deps: Vec<String> = Vec::new();
    let mut i: usize = 0;
    while i < els.len()
        invariant
            i <= els.len(),
            m == crate::util::pairs_view(mapping@),
            vis == names_view(visited@),
            names_view(deps@) == deps_upto(els@, i as int, m, vis),
        decreases els.len() - i,
    {
        if let JsElem::Expr(JsExpr::Object(obj)) = &els[i] {
            if let Some(dep) = elem_dep_exec(obj, mapping, visited) {
                if !is_excluded(dep.as_str(), mapping, visited) && !contains_name(&deps, dep.as_str()) {
                    let ghost before = deps@;
                    let ghost dv = dep@;
                    deps.push(dep);
                    assert(names_view(deps@) =~= names_view(before).push(dv));
                }
            }
        }
        i += 1;
    }
    deps
}

// ---------------------------------------------------------------------------
// Packet tables

/// A key naming a client or server packet.
pub open spec fn is_packet_key(k: Seq<char>) -> bool {
    has_prefix(k, "CPacket"@) || has_prefix(k, "SPacket"@)
}

pub open spec fn prop_is_packet(p: JsProp) -> bool {
    match p {
        JsProp::Prop(k, _) => match key_name(k) {
            Some(kn) => is_packet_key(kn),
            None => false,
        },
        JsProp::Spread => false,
    }
}

/// An object literal with some property keyed by a packet name.
pub open spec fn is_packet_table(props: Seq<JsProp>) -> bool {
    exists|j: int| 0 <= j < props.len() && prop_is_packet(#[trigger] props[j])
}

/// The packet tables an expression holds: an object literal that is one, and
/// those within comma expressions and the right sides of assignments, in
/// order.
pub open spec fn packet_tables(e: JsExpr) -> Seq<Seq<JsProp>>
    decreases e, 0nat,
{
    match e {
        JsExpr::Object(ps) => if is_packet_table(ps@) {
            seq![ps@]
        } else {
            Seq::empty()
        },
        JsExpr::Sequence(es) => packet_tables_upto(es@, es@.len() as int),
        JsExpr::Assign(_, r) => packet_tables(*r),
        _ => Seq::empty(),
    }
}

/// The packet tables of the first `n` expressions of a list, in order.
pub open spec fn packet_tables_upto(es: Seq<JsExpr>, n: int) -> Seq<Seq<JsProp>>
    decreases es, n,
{
    if n <= 0 || n > es.len() {
        Seq::empty()
    } else {
        packet_tables_upto(es, n - 1) + packet_tables(es[n - 1])
    }
}

pub open spec fn tables_view(v: Seq<&Vec<JsProp>>) -> Seq<Seq<JsProp>> {
    v.map_values(|t: &Vec<JsProp>| t@)
}

fn is_packet_object(props: &Vec<JsProp>) -> (r: bool)
    ensures
        r == is_packet_table(props@),
{
    let mut j: usize = 0;
    while j < props.len()
        invariant
            j <= props.len(),
            forall|x: int| 0 <= x < j ==> !prop_is_packet(#[trigger] props@[x]),
        decreases props.len() - j,
    {
        if let JsProp::Prop(key, _) = &props[j] {
            if let Some(kn) = get_prop_key_name(key) {
                if starts_with(kn, "CPacket") || starts_with(kn, "SPacket") {
                    assert(prop_is_packet(props@[j as int]));
                    return true;
                }
            }
        }
        j += 1;
    }
    false
}

pub fn find_objs_in_expr<'a>(expr: &'a JsExpr, out: &mut Vec<&'a Vec<JsProp>>)
    ensures
        tables_view(final(out)@) == tables_view(old(out)@) + packet_tables(*expr),
    decreases expr,
{
    match expr {
        JsExpr::Object(props) => {
            if is_packet_object(props) {
                out.push(props);
                assert(tables_view(out@) =~= tables_view(old(out)@) + seq![props@]);
            } else {
                assert(tables_view(out@) =~= tables_view(old(out)@) + Seq::<Seq<JsProp>>::empty());
            }
        },
        JsExpr::Sequence(es) => {
            let mut i: usize = 0;
            while i < es.len()
                invariant
                    i <= es.len(),
                    *expr == JsExpr::Sequence(*es),
                    tables_view(out@) == tables_view(old(out)@) + packet_tables_upto(es@, i as int),
                decreases es.len() - i,
            {
                let ghost before = tables_view(out@);
                proof {
                    vstd::std_specs::vec::axiom_vec_index_decreases(*es, i as int);
                    assert(decreases_to!(*expr => (*expr)->Sequence_0));
                }
                find_objs_in_expr(&es[i], out);
                assert(tables_view(out@) =~= tables_view(old(out)@) + packet_tables_upto(es@, i + 1));
                i += 1;
            }
        },
        JsExpr::Assign(_, right) => {
            find_objs_in_expr(right, out);
        },
        _ => {
            assert(tables_view(out@) =~= tables_view(old(out)@) + Seq::<Seq<JsProp>>::empty());
        },
    }
}

/// The packet tables in the initializers of the first `n` declarators.
pub open spec fn decl_tables_upto(ds: Seq<JsDeclarator>, n: int) -> Seq<Seq<JsProp>>
    decreases n,
{
    if n <= 0 {
        Seq::empty()
    } else {
        decl_tables_upto(ds, n - 1) + match ds[n - 1].init {
            Some(init) => packet_tables(init),
            None => Seq::empty(),
        }
    }
}

/// The packet tables of a top-level statement: those of an expression
/// statement's expression, or of a declaration's initializers.
pub open spec fn stmt_tables(s: JsStmt) -> Seq<Seq<JsProp>> {
    match s {
        JsStmt::Expr(e) => packet_tables(e),
        JsStmt::VarDecl(ds) => decl_tables_upto(ds@, ds@.len() as int),
        JsStmt::Other => Seq::empty(),
    }
}

pub open spec fn body_tables_upto(body: Seq<JsStmt>, n: int) -> Seq<Seq<JsProp>>
    decreases n,
{
    if n <= 0 {
        Seq::empty()
    } else {
        body_tables_upto(body, n - 1) + stmt_tables(body[n - 1])
    }
}

/// The packet tables of the module's top-level statements, in order.
pub open spec fn packet_tables_of(body: Seq<JsStmt>) -> Seq<Seq<JsProp>> {
    body_tables_upto(body, body.len() as int)
}

/// The client, server and shared packet tables of a bundle, as lists of
/// `packet name: class identifier` pairs.
pub struct PacketMaps {
    pub c_pairs: Vec<(String, String)>,
    pub s_pairs: Vec<(String, String)>,
    pub appended_pairs: Vec<(String, String)>,
}

pub struct PacketMapsView {
    pub c: Seq<(Seq<char>, Seq<char>)>,
    pub s: Seq<(Seq<char>, Seq<char>)>,
    pub appended: Seq<(Seq<char>, Seq<char>)>,
}

impl View for PacketMaps {
    type V = PacketMapsView;

    open spec fn view(&self) -> PacketMapsView {
        PacketMapsView {
            c: pairs_view(self.c_pairs@),
            s: pairs_view(self.s_pairs@),
            appended: pairs_view(self.appended_pairs@),
        }
    }
}

/// Some pair's key begins with `p`.
pub open spec fn has_key_prefix(pairs: Seq<(Seq<char>, Seq<char>)>, p: Seq<char>) -> bool {
    exists|i: int| 0 <= i < pairs.len() && has_prefix(#[trigger] pairs[i].0, p)
}

/// The tables after looking at one more packet table: one with only client
/// packets replaces the client table, one with only server packets the
/// server table, and one with both the shared table.
pub open spec fn classify(maps: PacketMapsView, pairs: Seq<(Seq<char>, Seq<char>)>) -> PacketMapsView {
    let has_c = has_key_prefix(pairs, "CPacket"@);
    let has_s = has_key_prefix(pairs, "SPacket"@);
    if has_c && !has_s {
        PacketMapsView { c: pairs, s: maps.s, appended: maps.appended }
    } else if has_s && !has_c {
        PacketMapsView { c: maps.c, s: pairs, appended: maps.appended }
    } else if has_c && has_s {
        PacketMapsView { c: maps.c, s: maps.s, appended: pairs }
    } else {
        maps
    }
}

pub open spec fn packet_maps_upto(tables: Seq<Seq<JsProp>>, n: int) -> PacketMapsView
    decreases n,
{
    if n <= 0 {
        PacketMapsView { c: Seq::empty(), s: Seq::empty(), appended: Seq::empty() }
    } else {
        classify(packet_maps_upto(tables, n - 1), object_pairs(tables[n - 1]))
    }
}

/// The packet tables of a module: the last client-only, server-only and
/// shared table in it.
pub open spec fn packet_maps_of(body: Seq<JsStmt>) -> PacketMapsView {
    let tables = packet_tables_of(body);
    packet_maps_upto(tables, tables.len() as int)
}

fn pairs_have_prefix(pairs: &Vec<(String, String)>, p: &str) -> (r: bool)
    ensures
        r == has_key_prefix(pairs_view(pairs@), p@),
{
    let mut i: usize = 0;
    while i < pairs.len()
        invariant
            i <= pairs.len(),
            forall|x: int| 0 <= x < i ==> !has_prefix(#[trigger] pairs_view(pairs@)[x].0, p@),
        decreases pairs.len() - i,
    {
        if starts_with(pairs[i].0.as_str(), p) {
            assert(has_prefix(pairs_view(pairs@)[i as int].0, p@));
            return true;
        }
        i += 1;
    }
    false
}

fn collect_packet_tables<'a>(body: &'a Vec<JsStmt>) -> (r: Vec<&'a Vec<JsProp>>)
    ensures
        tables_view(r@) == packet_tables_of(body@),
{
    let mut objs: Vec<&'a Vec<JsProp>> = Vec::new();
    let mut i: usize = 0;
    while i < body.len()
        invariant
            i <= body.len(),
            tables_view(objs@) == body_tables_upto(body@, i as int),
        decreases body.len() - i,
    {
        match &body[i] {
            JsStmt::Expr(e) => {
                find_objs_in_expr(e, &mut objs);
            },
            JsStmt::VarDecl(ds) => {
                let ghost start = tables_view(objs@);
                let mut j: usize = 0;
                while j < ds.len()
                    invariant
                        j <= ds.len(),
                        tables_view(objs@) == start + decl_tables_upto(ds@, j as int),
                    decreases ds.len() - j,
                {
                    if let Some(init) = &ds[j].init {
                        find_objs_in_expr(init, &mut objs);
                    }
                    assert(tables_view(objs@) =~= start + decl_tables_upto(ds@, j + 1));
                    j += 1;
                }
            },
            JsStmt::Other => {},
        }
        assert(tables_view(objs@) =~= body_tables_upto(body@, i + 1));
        i += 1;
    }
    objs
}

pub fn find_packet_maps(body: &Vec<JsStmt>) -> (r: PacketMaps)
    ensures
        r@ == packet_maps_of(body@),
{
    let objs = collect_packet_tables(body);
    let mut maps = PacketMaps { c_pairs: Vec::new(), s_pairs: Vec::new(), appended_pairs: Vec::new() };
    assert(pairs_view(maps.c_pairs@) =~= Seq::empty());
    assert(pairs_view(maps.s_pairs@) =~= Seq::empty());
    assert(pairs_view(maps.appended_pairs@) =~= Seq::empty());
    let mut i: usize = 0;
    while i < objs.len()
        invariant
            i <= objs.len(),
            tables_view(objs@) == packet_tables_of(body@),
            maps@ == packet_maps_upto(tables_view(objs@), i as int),
        decreases objs.len() - i,
    {
        let pairs = obj_to_pairs(objs[i]);
        let has_c = pairs_have_prefix(&pairs, "CPacket");
        let has_s = pairs_have_prefix(&pairs, "SPacket");
        if has_c && !has_s {
            maps.c_pairs = pairs;
        } else if has_s && !has_c {
            maps.s_pairs = pairs;
        } else if has_c && has_s {
            maps.appended_pairs = pairs;
        }
        i += 1;
    }
    maps
}

// ---------------------------------------------------------------------------
// Laws

/// No two enums extracted from a module share a name: a later definition of
/// a name replaces the earlier one.
pub proof fn law_enums_distinct(body: Seq<JsStmt>)
    ensures
        distinct_group_names(enums_of(body)),
{
    lemma_enums_upto_distinct(body, body.len() as int);
}

proof fn lemma_enums_upto_distinct(body: Seq<JsStmt>, n: int)
    ensures
        distinct_group_names(enums_upto(body, n)),
    decreases n,
{
    if n > 0 {
        lemma_enums_upto_distinct(body, n - 1);
        if let Some((name, vals)) = enum_call(body[n - 1]) {
            law_upsert_group(enums_upto(body, n - 1), EnumGroupView { name: name, values: enum_entries(vals) });
        }
    }
}

proof fn lemma_deps_upto(els: Seq<JsElem>, n: int, mapping: Seq<(Seq<char>, Seq<char>)>, visited: Seq<Seq<char>>)
    ensures
        deps_upto(els, n, mapping, visited).no_duplicates(),
        forall|i: int| 0 <= i < deps_upto(els, n, mapping, visited).len() ==> !excluded(
            #[trigger] deps_upto(els, n, mapping, visited)[i],
            mapping,
            visited,
        ),
    decreases n,
{
    if n > 0 {
        lemma_deps_upto(els, n - 1, mapping, visited);
        let prev = deps_upto(els, n - 1, mapping, visited);
        if let Some(d) = elem_dep(els[n - 1], mapping, visited) {
            if !excluded(d, mapping, visited) && !prev.contains(d) {
                let cur = prev.push(d);
                assert forall|i: int, j: int| 0 <= i < cur.len() && 0 <= j < cur.len() && i != j implies cur[i] != cur[j] by {
                    if i == prev.len() as int {
                        assert(cur[j] == prev[j]);
                    } else if j == prev.len() as int {
                        assert(cur[i] == prev[i]);
                    }
                }
            }
        }
    }
}

/// The dependencies of a field list name each type once, and none of them is
/// a scalar type, a name already in the name table, or a visited name.
pub proof fn law_deps_fresh(args: Seq<JsArg>, mapping: Seq<(Seq<char>, Seq<char>)>, visited: Seq<Seq<char>>)
    ensures
        deps_of(args, mapping, visited).no_duplicates(),
        forall|i: int| 0 <= i < deps_of(args, mapping, visited).len() ==> !excluded(
            #[trigger] deps_of(args, mapping, visited)[i],
            mapping,
            visited,
        ),
{
    if let Some(els) = fields_array_of(args) {
        lemma_deps_upto(els, els.len() as int, mapping, visited);
    }
}

/// A scalar type number resolves to protobuf's name for it: numbers 1 to 18
/// name, in order, double, float, int64, uint64, int32, fixed64, fixed32,
/// bool, string, group, message, bytes, uint32, enum, sfixed32, sfixed64,
/// sint32 and sint64; every other number `n` resolves to
/// `unknown_scalar_<n>`. `is_scalar_name` holds of those eighteen names.
pub proof fn law_scalar_names(id: u32)
    ensures
        ({
            let names = seq![
                "double"@, "float"@, "int64"@, "uint64"@, "int32"@, "fixed64"@, "fixed32"@, "bool"@,
                "string"@, "group"@, "message"@, "bytes"@, "uint32"@, "enum"@, "sfixed32"@,
                "sfixed64"@, "sint32"@, "sint64"@,
            ];
            &&& 1 <= id <= 18 ==> scalar_type(id) == names[id - 1] && is_scalar_name(names[id - 1])
            &&& !(1 <= id <= 18) ==> scalar_type(id) == "unknown_scalar_"@ + decimal(id as nat)
        }),
{
    let names = seq![
        "double"@, "float"@, "int64"@, "uint64"@, "int32"@, "fixed64"@, "fixed32"@, "bool"@,
        "string"@, "group"@, "message"@, "bytes"@, "uint32"@, "enum"@, "sfixed32"@,
        "sfixed64"@, "sint32"@, "sint64"@,
    ];
    if 1 <= id <= 18 {
        assert(scalar_name(id) == Some(names[id - 1]));
    }
}

proof fn lemma_contains_in_concat<A>(a: Seq<A>, b: Seq<A>, x: A)
    requires
        a.contains(x) || b.contains(x),
    ensures
        (a + b).contains(x),
{
    if a.contains(x) {
        let i = choose|i: int| 0 <= i < a.len() && a[i] == x;
        assert((a + b)[i] == x);
    } else {
        let i = choose|i: int| 0 <= i < b.len() && b[i] == x;
        assert((a + b)[a.len() + i] == x);
    }
}

proof fn lemma_decl_tables_keep(ds: Seq<JsDeclarator>, k: int, n: int, t: Seq<JsProp>)
    requires
        0 <= k < n <= ds.len(),
        ds[k].init matches Some(init) && packet_tables(init).contains(t),
    ensures
        decl_tables_upto(ds, n).contains(t),
    decreases n,
{
    let cur = match ds[n - 1].init {
        Some(init) => packet_tables(init),
        None => Seq::empty(),
    };
    if k < n - 1 {
        lemma_decl_tables_keep(ds, k, n - 1, t);
    }
    lemma_contains_in_concat(decl_tables_upto(ds, n - 1), cur, t);
}

/// Every declarator of a declaration is searched: a packet table in the
/// initializer of any of its declarators is among the statement's tables.
pub proof fn law_every_declarator_searched(ds: Vec<JsDeclarator>, k: int, t: Seq<JsProp>)
    requires
        0 <= k < ds@.len(),
        ds@[k].init matches Some(init) && packet_tables(init).contains(t),
    ensures
        stmt_tables(JsStmt::VarDecl(ds)).contains(t),
{
    lemma_decl_tables_keep(ds@, k, ds@.len() as int, t);
}

proof fn lemma_body_tables_keep(body: Seq<JsStmt>, i: int, n: int, t: Seq<JsProp>)
    requires
        0 <= i < n <= body.len(),
        stmt_tables(body[i]).contains(t),
    ensures
        body_tables_upto(body, n).contains(t),
    decreases n,
{
    if i < n - 1 {
        lemma_body_tables_keep(body, i, n - 1, t);
    }
    lemma_contains_in_concat(body_tables_upto(body, n - 1), stmt_tables(body[n - 1]), t);
}

/// Every top-level statement is searched: a packet table in the expression
/// of an expression statement, or in the initializer of any declarator of a
/// declaration, is among the module's packet tables.
pub proof fn law_every_statement_searched(body: Seq<JsStmt>, i: int, k: int, t: Seq<JsProp>)
    requires
        0 <= i < body.len(),
        (body[i] matches JsStmt::Expr(e) && packet_tables(e).contains(t)) || (body[i] matches JsStmt::VarDecl(ds)
            && 0 <= k < ds@.len() && (ds@[k].init matches Some(init) && packet_tables(init).contains(t))),
    ensures
        packet_tables_of(body).contains(t),
{
    if let JsStmt::VarDecl(ds) = body[i] {
        law_every_declarator_searched(ds, k, t);
    }
    lemma_body_tables_keep(body, i, body.len() as int, t);
}

/// An object literal with a property keyed `CPacket...` or `SPacket...` is a
/// packet table, found where it stands (and found inside comma expressions
/// and on the right of assignments).
pub proof fn law_packet_table_found(props: Vec<JsProp>, j: int)
    requires
        0 <= j < props@.len(),
        props@[j] matches JsProp::Prop(key, _) && (key_name(key) matches Some(kn) && (has_prefix(kn, "CPacket"@)
            || has_prefix(kn, "SPacket"@))),
    ensures
        packet_tables(JsExpr::Object(props)) == seq![props@],
{
    assert(prop_is_packet(props@[j]));
}

/// A `message` field whose `T` is an identifier depends on that identifier,
/// whatever its other properties (`repeated`, `opt`, `oneof`, ...).
pub proof fn law_message_field_dependency(
    e: JsElem,
    mapping: Seq<(Seq<char>, Seq<char>)>,
    visited: Seq<Seq<char>>,
    id: String,
)
    requires
        elem_object(e) matches Some(props) && (obj_prop(props, "kind"@) matches Some(kv) && string_value(kv)
            == Some("message"@)) && obj_prop(props, "T"@) == Some(JsExpr::Ident(id)),
    ensures
        elem_dep(e, mapping, visited) == Some(id@),
{
}

/// An `enum` field whose `T` is a call with an identifier as its first
/// argument (`T: f(E)`) depends on that identifier, whatever its other
/// properties.
pub proof fn law_enum_field_dependency(
    e: JsElem,
    mapping: Seq<(Seq<char>, Seq<char>)>,
    visited: Seq<Seq<char>>,
    id: String,
)
    requires
        elem_object(e) matches Some(props) && (obj_prop(props, "kind"@) matches Some(kv) && string_value(kv)
            == Some("enum"@)) && (obj_prop(props, "T"@) matches Some(JsExpr::Call(_, args)) && args@.len() > 0
            && args@[0] == JsArg::Expr(JsExpr::Ident(id))),
    ensures
        elem_dep(e, mapping, visited) == Some(id@),
{
    reveal_strlit("message");
    reveal_strlit("enum");
    assert("message"@.len() != "enum"@.len());
}

/// A `message` field whose `T` is an identifier reports, as its type, what
/// the name table maps that identifier to, or the identifier itself where
/// the table has no entry for it.
pub proof fn law_field_type_through_table(e: JsElem, mapping: Seq<(Seq<char>, Seq<char>)>, id: String)
    requires
        elem_object(e) matches Some(props) && ((obj_prop(props, "no"@) is Some && obj_prop(props, "no"@).unwrap() is Num)
            && obj_prop(props, "name"@) is Some && (obj_prop(props, "kind"@) matches Some(kv) && string_value(kv)
            == Some("message"@)) && obj_prop(props, "T"@) == Some(JsExpr::Ident(id))),
    ensures
        field_of(e, mapping) matches Some(f) && f.t == Some(
            match lookup(mapping, id@) {
                Some(tn) => tn,
                None => id@,
            },
        ),
{
    reveal_strlit("message");
    reveal_strlit("scalar");
    reveal_strlit("enum");
    assert("message"@.len() != "scalar"@.len() && "message"@.len() != "enum"@.len());
}

proof fn lemma_deps_keep(
    els: Seq<JsElem>,
    i: int,
    n: int,
    mapping: Seq<(Seq<char>, Seq<char>)>,
    visited: Seq<Seq<char>>,
    d: Seq<char>,
)
    requires
        0 <= i < n <= els.len(),
        elem_dep(els[i], mapping, visited) == Some(d),
        !excluded(d, mapping, visited),
    ensures
        deps_upto(els, n, mapping, visited).contains(d),
    decreases n,
{
    let prev = deps_upto(els, n - 1, mapping, visited);
    if i < n - 1 {
        lemma_deps_keep(els, i, n - 1, mapping, visited, d);
        let j = choose|j: int| 0 <= j < prev.len() && prev[j] == d;
        if let Some(d2) = elem_dep(els[n - 1], mapping, visited) {
            if !excluded(d2, mapping, visited) && !prev.contains(d2) {
                assert(prev.push(d2)[j] == d);
            }
        }
    } else {
        if !prev.contains(d) {
            assert(prev.push(d)[prev.len() as int] == d);
        }
    }
}

/// A field list depends on the identifier of each of its `message` fields
/// (whatever their other properties) that is not excluded: not a scalar
/// name, not in the name table and not visited.
pub proof fn law_message_fields_are_dependencies(
    args: Seq<JsArg>,
    i: int,
    mapping: Seq<(Seq<char>, Seq<char>)>,
    visited: Seq<Seq<char>>,
    id: String,
)
    requires
        fields_array_of(args) matches Some(els) && 0 <= i < els.len() && (elem_object(els[i]) matches Some(props)
            && (obj_prop(props, "kind"@) matches Some(kv) && string_value(kv) == Some("message"@))
            && obj_prop(props, "T"@) == Some(JsExpr::Ident(id))),
        !excluded(id@, mapping, visited),
    ensures
        deps_of(args, mapping, visited).contains(id@),
{
    let els = fields_array_of(args).unwrap();
    law_message_field_dependency(els[i], mapping, visited, id);
    lemma_deps_keep(els, i, els.len() as int, mapping, visited, id@);
}

} // verus!
