use packet_gen::aliases::chain_terminates;
use packet_gen::ast::{
    JsArg, JsArrowBody, JsClass, JsDeclarator, JsElem, JsExpr, JsKey, JsMember, JsProp, JsStmt,
    JsTarget, NumberLit, TemplateQuasi,
};
use packet_gen::extract::{
    collect_deps, extract_enums, extract_type_name, fields_to_vec, find_class, find_fields_call,
    find_objs_in_expr, find_packet_maps, get_obj_prop, is_scalar_type_name,
    resolve_field_type_str, resolve_map_value_type, resolve_scalar,
};
use packet_gen::runtime_syntax::{find_runtime_syntax, infer_syntax_from_fields};
use packet_gen::util::{
    dereference_decl, dereference_value, extract_class_from_init, find_class_decl,
    get_prop_key_name, get_string_value, obj_to_pairs,
};

fn s(x: &str) -> String {
    x.to_string()
}

fn ident(n: &str) -> JsExpr {
    JsExpr::Ident(s(n))
}

fn lit(v: &str) -> JsExpr {
    JsExpr::Str(s(v))
}

fn num(v: f64) -> JsExpr {
    JsExpr::Num(NumberLit { bits: v.to_bits(), as_u32: v as u32 })
}

fn prop(k: &str, v: JsExpr) -> JsProp {
    JsProp::Prop(JsKey::Static(s(k)), v)
}

fn obj(props: Vec<JsProp>) -> JsExpr {
    JsExpr::Object(props)
}

fn var(name: &str, init: Option<JsExpr>) -> JsStmt {
    JsStmt::VarDecl(vec![JsDeclarator { id: Some(s(name)), init }])
}

fn class(stmts: Vec<JsStmt>) -> JsExpr {
    JsExpr::Class(JsClass { members: vec![JsMember::Other, JsMember::StaticBlock(stmts)] })
}

fn set_member(object: JsExpr, property: &str, value: JsExpr) -> JsStmt {
    JsStmt::Expr(JsExpr::Assign(Box::new(JsTarget::Member(object, s(property))), Box::new(value)))
}

fn call(callee: JsExpr, args: Vec<JsExpr>) -> JsExpr {
    JsExpr::Call(Box::new(callee), args.into_iter().map(JsArg::Expr).collect())
}

fn field_list(fields: Vec<JsExpr>) -> JsExpr {
    let arr = JsExpr::Array(fields.into_iter().map(JsElem::Expr).collect());
    call(ident("f"), vec![JsExpr::Arrow(Box::new(JsArrowBody::Expr(arr)))])
}

fn field(no: f64, name: &str, kind: &str, t: Option<JsExpr>, extra: Vec<JsProp>) -> JsExpr {
    let mut props = vec![prop("no", num(no)), prop("name", lit(name)), prop("kind", lit(kind))];
    if let Some(t) = t {
        props.push(prop("T", t));
    }
    props.extend(extra);
    obj(props)
}

fn args_of(e: &JsExpr) -> &Vec<JsArg> {
    match e {
        JsExpr::Call(_, args) => args,
        _ => panic!("not a call"),
    }
}

#[test]
fn prop_key_names() {
    assert_eq!(get_prop_key_name(&JsKey::Static(s("a"))), Some("a"));
    assert_eq!(get_prop_key_name(&JsKey::Ident(s("b"))), Some("b"));
    assert_eq!(get_prop_key_name(&JsKey::Str(s("c d"))), Some("c d"));
    assert_eq!(get_prop_key_name(&JsKey::Other), None);
}

#[test]
fn string_values() {
    assert_eq!(get_string_value(&lit("x")), Some("x"));
    let cooked = JsExpr::Template(vec![TemplateQuasi { raw: s("a\\tb"), cooked: Some(s("a\tb")) }], vec![]);
    assert_eq!(get_string_value(&cooked), Some("a\tb"));
    let raw_only = JsExpr::Template(vec![TemplateQuasi { raw: s("r"), cooked: None }], vec![]);
    assert_eq!(get_string_value(&raw_only), Some("r"));
    let with_expr = JsExpr::Template(
        vec![TemplateQuasi { raw: s("a"), cooked: Some(s("a")) }, TemplateQuasi { raw: s(""), cooked: Some(s("")) }],
        vec![ident("x")],
    );
    assert_eq!(get_string_value(&with_expr), None);
    assert_eq!(get_string_value(&ident("x")), None);
}

#[test]
fn first_declaration_wins() {
    let body = vec![
        JsStmt::Other,
        JsStmt::VarDecl(vec![
            JsDeclarator { id: None, init: Some(num(0.0)) },
            JsDeclarator { id: Some(s("a")), init: Some(num(1.0)) },
        ]),
        var("a", Some(num(2.0))),
    ];
    let d = find_class_decl(&body, "a").unwrap();
    match &d.init {
        Some(JsExpr::Num(n)) => assert_eq!(n.as_u32, 1),
        _ => panic!("wrong declarator"),
    }
    assert!(find_class_decl(&body, "b").is_none());
}

#[test]
fn class_from_initializers() {
    let c = class(vec![]);
    assert!(extract_class_from_init(&c).is_some());
    let seq = JsExpr::Sequence(vec![JsExpr::Assign(Box::new(JsTarget::Ident(s("_a"))), Box::new(class(vec![]))), ident("_a")]);
    assert!(extract_class_from_init(&seq).is_some());
    let seq2 = JsExpr::Sequence(vec![ident("x"), class(vec![])]);
    assert!(extract_class_from_init(&seq2).is_none());
    assert!(extract_class_from_init(&ident("C")).is_none());
}

#[test]
fn dereference_follows_aliases() {
    let body = vec![
        var("A", Some(ident("B"))),
        var("B", Some(JsExpr::Sequence(vec![JsExpr::Assign(Box::new(JsTarget::Ident(s("_b"))), Box::new(class(vec![])))]))),
        var("C", None),
    ];
    let start = ident("A");
    let (e, name) = dereference_value(&start, &body).unwrap();
    assert!(matches!(e, JsExpr::Class(_)));
    assert_eq!(name.as_deref(), Some("_b"));
    assert!(dereference_value(&ident("C"), &body).is_none());
    assert!(dereference_value(&ident("Missing"), &body).is_none());
    assert!(dereference_value(&num(1.0), &body).is_none());
    let c = class(vec![]);
    let (e2, n2) = dereference_value(&c, &body).unwrap();
    assert!(matches!(e2, JsExpr::Class(_)));
    assert!(n2.is_none());
    let decl = JsDeclarator { id: Some(s("D")), init: None };
    assert!(dereference_decl(&decl, &body).is_none());
}

#[test]
fn alias_cycles_are_detected() {
    let cyclic = vec![var("A", Some(ident("B"))), var("B", Some(ident("C"))), var("C", Some(ident("A")))];
    assert!(!chain_terminates(&ident("A"), &cyclic));
    assert!(!chain_terminates(&ident("C"), &cyclic));
    assert!(chain_terminates(&ident("D"), &cyclic));
    let fine = vec![var("A", Some(ident("B"))), var("B", Some(num(1.0))), var("A", Some(ident("A")))];
    assert!(chain_terminates(&ident("A"), &fine));
    assert!(chain_terminates(&ident("B"), &fine));
}

#[test]
fn pairs_of_object() {
    let props = vec![
        prop("CPacketA", ident("A")),
        prop("b", lit("not an identifier")),
        JsProp::Spread,
        JsProp::Prop(JsKey::Str(s("SPacketB")), ident("B")),
        JsProp::Prop(JsKey::Other, ident("C")),
    ];
    let pairs = obj_to_pairs(&props);
    assert_eq!(pairs, vec![(s("CPacketA"), s("A")), (s("SPacketB"), s("B"))]);
}

#[test]
fn scalar_names() {
    assert_eq!(resolve_scalar(1), "double");
    assert_eq!(resolve_scalar(9), "string");
    assert_eq!(resolve_scalar(18), "sint64");
    assert_eq!(resolve_scalar(0), "unknown_scalar_0");
    assert_eq!(resolve_scalar(4294967295), "unknown_scalar_4294967295");
    assert!(is_scalar_type_name("bytes"));
    assert!(!is_scalar_type_name("Bytes"));
}

#[test]
fn field_type_names() {
    assert_eq!(resolve_field_type_str("scalar", &num(5.0)), "int32");
    assert_eq!(resolve_field_type_str("scalar", &ident("x")), "unknown_scalar");
    assert_eq!(resolve_field_type_str("enum", &ident("E")), "E");
    assert_eq!(resolve_field_type_str("enum", &call(ident("get"), vec![ident("E2")])), "E2");
    assert_eq!(resolve_field_type_str("enum", &call(ident("get"), vec![lit("E3")])), "unknown_enum");
    assert_eq!(resolve_field_type_str("message", &ident("M")), "M");
    let block = JsExpr::Arrow(Box::new(JsArrowBody::Block(vec![JsStmt::Other, JsStmt::Expr(ident("M2"))])));
    assert_eq!(resolve_field_type_str("message", &block), "M2");
    let concise = JsExpr::Arrow(Box::new(JsArrowBody::Expr(call(ident("g"), vec![ident("M3")]))));
    assert_eq!(resolve_field_type_str("message", &concise), "M3");
    let empty = JsExpr::Arrow(Box::new(JsArrowBody::Block(vec![])));
    assert_eq!(resolve_field_type_str("message", &empty), "unknown_message");
    assert_eq!(resolve_field_type_str("map", &num(1.0)), "map");
    assert_eq!(resolve_field_type_str("other", &num(1.0)), "unknown");
}

#[test]
fn map_value_types() {
    let v = vec![prop("kind", lit("message")), prop("T", ident("Msg"))];
    assert_eq!(resolve_map_value_type(&v), "Msg");
    let no_t = vec![prop("kind", lit("scalar"))];
    assert_eq!(resolve_map_value_type(&no_t), "unknown");
    let kind_later = vec![prop("kind", num(1.0)), prop("kind", lit("scalar")), prop("T", num(8.0))];
    assert_eq!(resolve_map_value_type(&kind_later), "bool");
}

#[test]
fn object_properties() {
    let props = vec![prop("a", num(1.0)), prop("a", num(2.0))];
    match get_obj_prop(&props, "a") {
        Some(JsExpr::Num(n)) => assert_eq!(n.as_u32, 1),
        _ => panic!("first property expected"),
    }
    assert!(get_obj_prop(&props, "b").is_none());
}

fn message_body() -> Vec<JsStmt> {
    vec![
        var("M", Some(class(vec![
            set_member(JsExpr::This, "typeName", lit("pkg.sub.M")),
            set_member(ident("M"), "runtime", ident("proto3")),
            set_member(JsExpr::This, "fields", field_list(vec![
                field(1.0, "a", "message", Some(ident("Other")), vec![]),
                field(2.0, "b", "enum", Some(call(ident("e"), vec![ident("E")])), vec![]),
                field(3.0, "c", "scalar", Some(num(9.0)), vec![prop("opt", lit(""))]),
                field(4.0, "d", "map", None, vec![prop("K", num(9.0)), prop("V", obj(vec![prop("kind", lit("scalar")), prop("T", num(3.0))]))]),
                field(5.0, "e", "message", Some(ident("Other")), vec![]),
                num(7.0),
                obj(vec![prop("name", lit("no number"))]),
            ])),
        ]))),
        JsStmt::Expr(JsExpr::Assign(Box::new(JsTarget::Ident(s("N"))), Box::new(class(vec![])))),
    ]
}

#[test]
fn classes_and_field_lists() {
    let body = message_body();
    assert!(find_class(&body, "M").is_some());
    assert!(find_class(&body, "N").is_some());
    assert!(find_class(&body, "Z").is_none());
    let c = find_class(&body, "M").unwrap();
    assert_eq!(extract_type_name(c).as_deref(), Some("pkg_sub_M"));
    assert!(find_fields_call(&body, "N").is_none());
    let fc = find_fields_call(&body, "M").unwrap();
    let mapping = vec![(s("Other"), s("pkg_Other"))];
    let fields = fields_to_vec(fc, &mapping);
    assert_eq!(fields.len(), 5);
    assert_eq!(fields[0].t.as_deref(), Some("pkg_Other"));
    assert_eq!(fields[1].t.as_deref(), Some("E"));
    assert!(fields[2].opt);
    let map = fields[3].map.as_ref().unwrap();
    assert_eq!(map.k.as_deref(), Some("string"));
    assert_eq!(map.v.as_deref(), Some("int64"));
    assert_eq!(infer_syntax_from_fields(c), "proto2");
    assert_eq!(find_runtime_syntax(&body, "M").as_deref(), Some("proto2"));
    assert_eq!(find_runtime_syntax(&body, "N").as_deref(), Some("proto3"));
    assert_eq!(find_runtime_syntax(&body, "Z"), None);
}

#[test]
fn dependencies_are_fresh_and_distinct() {
    let body = message_body();
    let fc = find_fields_call(&body, "M").unwrap();
    let deps = collect_deps(fc, &vec![], &vec![]);
    assert_eq!(deps, vec![s("Other"), s("E")]);
    let deps2 = collect_deps(fc, &vec![(s("Other"), s("x"))], &vec![s("E")]);
    assert!(deps2.is_empty());
    let map_dep = vec![call(ident("f"), vec![JsExpr::Arrow(Box::new(JsArrowBody::Expr(JsExpr::Array(vec![
        JsElem::Expr(field(1.0, "m", "map", Some(obj(vec![prop("kind", lit("message")), prop("T", ident("V"))])), vec![])),
    ]))))])];
    assert_eq!(collect_deps(args_of(&map_dep[0]), &vec![], &vec![]), vec![s("V")]);
}

#[test]
fn enum_tables() {
    let set_enum = |name: JsExpr, values: Vec<JsExpr>| {
        JsStmt::Expr(JsExpr::Call(
            Box::new(JsExpr::Member(Box::new(ident("util")), s("setEnumType"))),
            vec![JsArg::Expr(ident("Ref")), JsArg::Expr(name), JsArg::Expr(JsExpr::Array(values.into_iter().map(JsElem::Expr).collect()))],
        ))
    };
    let body = vec![
        set_enum(lit("A"), vec![obj(vec![prop("no", lit("x")), prop("no", num(3.0)), prop("name", lit("THREE"))])]),
        set_enum(num(0.0), vec![obj(vec![prop("name", lit("NO_NUMBER"))])]),
    ];
    let enums = extract_enums(&body);
    assert_eq!(enums.len(), 2);
    assert_eq!(enums[0].name, "A");
    assert_eq!(enums[0].values.len(), 1);
    assert_eq!(f64::from_bits(enums[0].values[0].no), 3.0);
    assert_eq!(enums[1].name, "Ref");
    assert!(enums[1].values.is_empty());
}

#[test]
fn packet_tables() {
    let c_table = obj(vec![prop("CPacketA", ident("A"))]);
    let s_table = obj(vec![prop("SPacketB", ident("B"))]);
    let both = obj(vec![prop("CPacketC", ident("C")), prop("SPacketD", ident("D"))]);
    let other = obj(vec![prop("x", ident("X"))]);
    let expr = JsExpr::Sequence(vec![
        JsExpr::Assign(Box::new(JsTarget::Ident(s("t"))), Box::new(c_table.clone_tree())),
        other.clone_tree(),
    ]);
    let mut out = Vec::new();
    find_objs_in_expr(&expr, &mut out);
    assert_eq!(out.len(), 1);
    let body = vec![
        JsStmt::Expr(expr),
        var("s", Some(s_table)),
        var("b", Some(both)),
        var("c2", Some(obj(vec![prop("CPacketE", ident("E"))]))),
    ];
    let maps = find_packet_maps(&body);
    assert_eq!(maps.c_pairs, vec![(s("CPacketE"), s("E"))]);
    assert_eq!(maps.s_pairs, vec![(s("SPacketB"), s("B"))]);
    assert_eq!(maps.appended_pairs, vec![(s("CPacketC"), s("C")), (s("SPacketD"), s("D"))]);
}

trait CloneTree {
    fn clone_tree(&self) -> JsExpr;
}

impl CloneTree for JsExpr {
    fn clone_tree(&self) -> JsExpr {
        match self {
            JsExpr::Object(props) => JsExpr::Object(
                props
                    .iter()
                    .map(|p| match p {
                        JsProp::Prop(JsKey::Static(k), JsExpr::Ident(v)) => prop(k, ident(v)),
                        _ => JsProp::Spread,
                    })
                    .collect(),
            ),
            _ => JsExpr::Other,
        }
    }
}
