//! Which protobuf syntax (`proto2` or `proto3`) a message class was generated
//! for: from the runtime object the class names, or else from the shape of its
//! field list.
use vstd::prelude::*;
use crate::ast::{JsArg, JsClass, JsDeclarator, JsElem, JsExpr, JsProp, JsStmt, JsTarget, first_stmt_expr, arrow_first_expr};
use crate::extract::{
    class_named, find_class, lemma_static_first_flat, static_first, static_statements, static_stmts,
    stmt_fields_call, stmt_refs_view,
};
use crate::seqs::{first_some, first_some_from, lemma_first_some_at, lemma_first_some_none};
use crate::text::str_eq;
use crate::util::{declares, get_prop_key_name, get_string_value, key_name, string_opt_view, string_value};

verus! {

pub open spec fn is_proto_syntax(v: Seq<char>) -> bool {
    v == "proto2"@ || v == "proto3"@
}

/// The identifier a statement `X.runtime = <identifier>` assigns.
pub open spec fn stmt_runtime_ident(s: JsStmt) -> Option<Seq<char>> {
    match s {
        JsStmt::Expr(JsExpr::Assign(l, r)) => match (*l, *r) {
            (JsTarget::Member(_, p), JsExpr::Ident(id)) => if p@ == "runtime"@ {
                Some(id@)
            } else {
                None
            },
            _ => None,
        },
        _ => None,
    }
}

/// The runtime identifier the class bound to `name` assigns in its static
/// blocks.
pub open spec fn runtime_identifier(body: Seq<JsStmt>, name: Seq<char>) -> Option<Seq<char>> {
    match class_named(body, name) {
        Some(c) => static_first(c, |s: JsStmt| stmt_runtime_ident(s)),
        None => None,
    }
}

fn stmt_runtime_ident_exec(s: &JsStmt) -> (r: Option<String>)
    ensures
        string_opt_view(r) == stmt_runtime_ident(*s),
{
    if let JsStmt::Expr(JsExpr::Assign(left, right)) = s {
        if let (JsTarget::Member(_, p), JsExpr::Ident(id)) = (&**left, &**right) {
            if str_eq(p.as_str(), "runtime") {
                return Some(id.clone());
            }
        }
    }
    None
}

fn find_runtime_identifier(body: &Vec<JsStmt>, class_name: &str) -> (r: Option<String>)
    ensures
        string_opt_view(r) == runtime_identifier(body@, class_name@),
{
    let c = match find_class(body, class_name) {
        Some(c) => c,
        None => {
            return None;
        },
    };
    let ss = static_statements(c);
    proof {
        lemma_static_first_flat(*c, |s: JsStmt| stmt_runtime_ident(s));
    }
    let mut j: usize = 0;
    while j < ss.len()
        invariant
            j <= ss.len(),
            class_named(body@, class_name@) == Some(*c),
            stmt_refs_view(ss@) == static_stmts(*c),
            static_first(*c, |s: JsStmt| stmt_runtime_ident(s)) == first_some_from(
                static_stmts(*c),
                |s: JsStmt| stmt_runtime_ident(s),
                j as int,
            ),
        decreases ss.len() - j,
    {
        assert(*ss@[j as int] == static_stmts(*c)[j as int]);
        let found = stmt_runtime_ident_exec(ss[j]);
        if found.is_some() {
            return found;
        }
        j += 1;
    }
    None
}

/// Where a declarator of a runtime variable leads: to a syntax name, or on to
/// another variable.
pub enum RuntimeLink {
    Final(Seq<char>),
    Next(Seq<char>),
}

/// What a declarator of `name` says about the runtime: `name = proto2` or
/// `proto3` ends the chain, `name = other` leads on to `other`, and
/// `name = f("proto2" or "proto3", ...)` ends it with that string. Any other
/// declarator says nothing.
pub open spec fn decl_runtime_link(d: JsDeclarator, name: Seq<char>) -> Option<RuntimeLink> {
    if !declares(d, name) {
        None
    } else {
        match d.init {
            Some(JsExpr::Ident(n)) => if is_proto_syntax(n@) {
                Some(RuntimeLink::Final(n@))
            } else {
                Some(RuntimeLink::Next(n@))
            },
            Some(JsExpr::Call(_, args)) => if args@.len() > 0 {
                match args@[0] {
                    JsArg::Expr(e) => match string_value(e) {
                        Some(v) => if is_proto_syntax(v) {
                            Some(RuntimeLink::Final(v))
                        } else {
                            None
                        },
                        None => None,
                    },
                    JsArg::Spread => None,
                }
            } else {
                None
            },
            _ => None,
        }
    }
}

pub open spec fn stmt_runtime_link(s: JsStmt, name: Seq<char>) -> Option<RuntimeLink> {
    match s {
        JsStmt::VarDecl(ds) => first_some(ds@, |d: JsDeclarator| decl_runtime_link(d, name)),
        _ => None,
    }
}

/// The first declarator in `body` that says something about the runtime
/// variable `name`.
pub open spec fn runtime_link(body: Seq<JsStmt>, name: Seq<char>) -> Option<RuntimeLink> {
    first_some(body, |s: JsStmt| stmt_runtime_link(s, name))
}

/// The syntax name the runtime variable `name` resolves to, following at
/// most six variables in all (`depth` of them already followed).
pub open spec fn resolve_runtime(body: Seq<JsStmt>, name: Seq<char>, depth: nat) -> Option<Seq<char>>
    decreases 6 - depth,
{
    if depth > 5 {
        None
    } else {
        match runtime_link(body, name) {
            None => None,
            Some(RuntimeLink::Final(v)) => Some(v),
            Some(RuntimeLink::Next(n)) => resolve_runtime(body, n, depth + 1),
        }
    }
}

/// Exec form of a runtime link: `(true, v)` ends with `v`, `(false, n)` leads
/// on to `n`.
pub open spec fn link_view(r: Option<(bool, String)>) -> Option<RuntimeLink> {
    match r {
        Some((true, v)) => Some(RuntimeLink::Final(v@)),
        Some((false, n)) => Some(RuntimeLink::Next(n@)),
        None => None,
    }
}

fn is_proto_syntax_exec(v: &str) -> (r: bool)
    ensures
        r == is_proto_syntax(v@),
{
    str_eq(v, "proto2") || str_eq(v, "proto3")
}

fn decl_runtime_link_exec(d: &JsDeclarator, name: &str) -> (r: Option<(bool, String)>)
    ensures
        link_view(r) == decl_runtime_link(*d, name@),
{
    match &d.id {
        Some(id) => {
            if !str_eq(id.as_str(), name) {
                return None;
            }
        },
        None => {
            return None;
        },
    }
    match &d.init {
        Some(JsExpr::Ident(n)) => Some((is_proto_syntax_exec(n.as_str()), n.clone())),
        Some(JsExpr::Call(_, args)) => {
            if args.len() > 0 {
                if let JsArg::Expr(e) = &args[0] {
                    if let Some(v) = get_string_value(e) {
                        if is_proto_syntax_exec(v) {
                            return Some((true, v.to_owned()));
                        }
                    }
                }
            }
            None
        },
        _ => None,
    }
}

fn runtime_link_exec(body: &Vec<JsStmt>, name: &str) -> (r: Option<(bool, String)>)
    ensures
        link_view(r) == runtime_link(body@, name@),
{
    let mut i: usize = 0;
    while i < body.len()
        invariant
            i <= body.len(),
            runtime_link(body@, name@) == first_some_from(
                body@,
                |s: JsStmt| stmt_runtime_link(s, name@),
                i as int,
            ),
        decreases body.len() - i,
    {
        if let JsStmt::VarDecl(ds) = &body[i] {
            let mut j: usize = 0;
            while j < ds.len()
                invariant
                    i < body.len(),
                    body@[i as int] == JsStmt::VarDecl(*ds),
                    j <= ds.len(),
                    runtime_link(body@, name@) == first_some_from(
                        body@,
                        |s: JsStmt| stmt_runtime_link(s, name@),
                        i as int,
                    ),
                    first_some(ds@, |d: JsDeclarator| decl_runtime_link(d, name@)) == first_some_from(
                        ds@,
                        |d: JsDeclarator| decl_runtime_link(d, name@),
                        j as int,
                    ),
                decreases ds.len() - j,
            {
                let found = decl_runtime_link_exec(&ds[j], name);
                if found.is_some() {
                    return found;
                }
                j += 1;
            }
        }
        i += 1;
    }
    None
}

fn resolve_runtime_value(body: &Vec<JsStmt>, var_name: &str, depth: u32) -> (r: Option<String>)
    ensures
        string_opt_view(r) == resolve_runtime(body@, var_name@, depth as nat),
    decreases 6 - depth,
{
    if depth > 5 {
        return None;
    }
    match runtime_link_exec(body, var_name) {
        None => None,
        Some((true, v)) => Some(v),
        Some((false, n)) => resolve_runtime_value(body, n.as_str(), depth + 1),
    }
}

/// A field list element that is an object literal, as its properties.
pub open spec fn elem_object(e: JsElem) -> Option<Seq<JsProp>> {
    match e {
        JsElem::Expr(JsExpr::Object(ps)) => Some(ps@),
        _ => None,
    }
}

pub open spec fn prop_has_key(p: JsProp, k: Seq<char>) -> bool {
    p matches JsProp::Prop(key, _) && key_name(key) == Some(k)
}

/// Some property of the object literal has the key `k`.
pub open spec fn has_key(props: Seq<JsProp>, k: Seq<char>) -> bool {
    exists|j: int| 0 <= j < props.len() && prop_has_key(#[trigger] props[j], k)
}

/// The field description is an object literal with an `opt` key.
pub open spec fn elem_is_optional(e: JsElem) -> bool {
    match elem_object(e) {
        Some(ps) => has_key(ps, "opt"@),
        None => false,
    }
}

/// The field description is an object literal with neither an `opt` nor a
/// `repeated` key.
pub open spec fn elem_is_plain(e: JsElem) -> bool {
    match elem_object(e) {
        Some(ps) => !has_key(ps, "opt"@) && !has_key(ps, "repeated"@),
        None => false,
    }
}

/// Some field of the list is marked `opt`.
pub open spec fn declares_optional(els: Seq<JsElem>) -> bool {
    exists|i: int| 0 <= i < els.len() && elem_is_optional(#[trigger] els[i])
}

/// Some field of the list is neither `opt` nor `repeated`.
pub open spec fn declares_plain(els: Seq<JsElem>) -> bool {
    exists|i: int| 0 <= i < els.len() && elem_is_plain(#[trigger] els[i])
}

/// A field list with both optional and plain fields was written for proto2;
/// any other for proto3.
pub open spec fn syntax_of_fields(els: Seq<JsElem>) -> Seq<char> {
    if declares_optional(els) && declares_plain(els) {
        "proto2"@
    } else {
        "proto3"@
    }
}

/// The array of field descriptions in a field-list call `f(() => [...])`.
pub open spec fn fields_array_of(args: Seq<JsArg>) -> Option<Seq<JsElem>> {
    if args.len() > 0 {
        match args[0] {
            JsArg::Expr(JsExpr::Arrow(b)) => match first_stmt_expr(*b) {
                Some(JsExpr::Array(els)) => Some(els@),
                _ => None,
            },
            _ => None,
        }
    } else {
        None
    }
}

pub open spec fn stmt_fields_elements(s: JsStmt) -> Option<Seq<JsElem>> {
    match stmt_fields_call(s) {
        Some(args) => fields_array_of(args),
        None => None,
    }
}

/// The syntax the class's first field list of the form `X.fields = f(() =>
/// [...])` implies; `proto3` when it has none.
pub open spec fn inferred_syntax(c: JsClass) -> Seq<char> {
    match static_first(c, |s: JsStmt| stmt_fields_elements(s)) {
        Some(els) => syntax_of_fields(els),
        None => "proto3"@,
    }
}

pub fn fields_array<'a>(args: &'a Vec<JsArg>) -> (r: Option<&'a Vec<JsElem>>)
    ensures
        crate::extract::vec_opt_view(r) == fields_array_of(args@),
{
    if args.len() > 0 {
        if let JsArg::Expr(JsExpr::Arrow(b)) = &args[0] {
            if let Some(JsExpr::Array(els)) = arrow_first_expr(b) {
                return Some(els);
            }
        }
    }
    None
}

fn object_has_key(props: &Vec<JsProp>, k: &str) -> (r: bool)
    ensures
        r == has_key(props@, k@),
{
    let mut j: usize = 0;
    while j < props.len()
        invariant
            j <= props.len(),
            forall|x: int| 0 <= x < j ==> !prop_has_key(#[trigger] props@[x], k@),
        decreases props.len() - j,
    {
        if let JsProp::Prop(key, _) = &props[j] {
            if let Some(kn) = get_prop_key_name(key) {
                if str_eq(kn, k) {
                    assert(prop_has_key(props@[j as int], k@));
                    return true;
                }
            }
        }
        j += 1;
    }
    false
}

pub fn syntax_of_field_list(els: &Vec<JsElem>) -> (r: String)
    ensures
        r@ == syntax_of_fields(els@),
{
    let mut has_opt = false;
    let mut non_opt_non_repeated = false;
    let mut i: usize = 0;
    while i < els.len()
        invariant
            i <= els.len(),
            has_opt == exists|x: int| 0 <= x < i && elem_is_optional(#[trigger] els@[x]),
            non_opt_non_repeated == exists|x: int| 0 <= x < i && elem_is_plain(#[trigger] els@[x]),
        decreases els.len() - i,
    {
        if let JsElem::Expr(JsExpr::Object(obj)) = &els[i] {
            let opt_prop = object_has_key(obj, "opt");
            let repeated_prop = object_has_key(obj, "repeated");
            if opt_prop {
                has_opt = true;
            }
            if !opt_prop && !repeated_prop {
                non_opt_non_repeated = true;
            }
        }
        i += 1;
    }
    if has_opt && non_opt_non_repeated {
        "proto2".to_owned()
    } else {
        "proto3".to_owned()
    }
}

fn stmt_fields_elements_exec(s: &JsStmt) -> (r: Option<&Vec<JsElem>>)
    ensures
        crate::extract::vec_opt_view(r) == stmt_fields_elements(*s),
{
    if let JsStmt::Expr(JsExpr::Assign(left, right)) = s {
        if let (JsTarget::Member(_, p), JsExpr::Call(_, args)) = (&**left, &**right) {
            if str_eq(p.as_str(), "fields") {
                return fields_array(args);
            }
        }
    }
    None
}

pub fn infer_syntax_from_fields(c: &JsClass) -> (r: String)
    ensures
        r@ == inferred_syntax(*c),
{
    let ss = static_statements(c);
    proof {
        lemma_static_first_flat(*c, |s: JsStmt| stmt_fields_elements(s));
    }
    let mut j: usize = 0;
    while j < ss.len()
        invariant
            j <= ss.len(),
            stmt_refs_view(ss@) == static_stmts(*c),
            static_first(*c, |s: JsStmt| stmt_fields_elements(s)) == first_some_from(
                static_stmts(*c),
                |s: JsStmt| stmt_fields_elements(s),
                j as int,
            ),
        decreases ss.len() - j,
    {
        assert(*ss@[j as int] == static_stmts(*c)[j as int]);
        if let Some(els) = stmt_fields_elements_exec(ss[j]) {
            return syntax_of_field_list(els);
        }
        j += 1;
    }
    "proto3".to_owned()
}

/// The syntax of the message class bound to `class_name`: what its runtime
/// variable resolves to, when that is `proto2` or `proto3`, and otherwise
/// what its field list implies; nothing when no class is bound to the name.
pub open spec fn runtime_syntax(body: Seq<JsStmt>, class_name: Seq<char>) -> Option<Seq<char>> {
    match class_named(body, class_name) {
        None => None,
        Some(c) => match runtime_identifier(body, class_name) {
            Some(id) => match resolve_runtime(body, id, 0) {
                Some(v) => if is_proto_syntax(v) {
                    Some(v)
                } else {
                    Some(inferred_syntax(c))
                },
                None => Some(inferred_syntax(c)),
            },
            None => Some(inferred_syntax(c)),
        },
    }
}

pub fn find_runtime_syntax(body: &Vec<JsStmt>, class_name: &str) -> (r: Option<String>)
    ensures
        string_opt_view(r) == runtime_syntax(body@, class_name@),
{
    let class = match find_class(body, class_name) {
        Some(c) => c,
        None => {
            return None;
        },
    };
    let runtime_id = find_runtime_identifier(body, class_name);
    if let Some(id) = runtime_id {
        if let Some(resolved) = resolve_runtime_value(body, id.as_str(), 0) {
            if is_proto_syntax_exec(resolved.as_str()) {
                return Some(resolved);
            }
        }
    }
    Some(infer_syntax_from_fields(class))
}

/// A class always gets a syntax, and the syntax is `proto2` or `proto3`;
/// a name that binds no class gets none.
pub proof fn law_runtime_syntax(body: Seq<JsStmt>, class_name: Seq<char>)
    ensures
        (runtime_syntax(body, class_name) is Some) == (class_named(body, class_name) is Some),
        runtime_syntax(body, class_name) matches Some(v) ==> is_proto_syntax(v),
{
}

/// The statement declares `name` in one of its declarators.
pub open spec fn declares_in(s: JsStmt, name: Seq<char>) -> bool {
    match s {
        JsStmt::VarDecl(ds) => exists|b: int| 0 <= b < ds@.len() && declares(#[trigger] ds@[b], name),
        _ => false,
    }
}

/// The declarator declares `name` as the runtime `v`, `proto2` or `proto3`:
/// either bound to the variable of that name (`var name = proto3`) or made by
/// a call whose first argument is that string
/// (`var name = makeProtoRuntime("proto3")`).
pub open spec fn runtime_made_with(d: JsDeclarator, name: Seq<char>, v: Seq<char>) -> bool {
    &&& declares(d, name)
    &&& is_proto_syntax(v)
    &&& {
        ||| d.init matches Some(JsExpr::Ident(x)) && x@ == v
        ||| d.init matches Some(JsExpr::Call(_, args)) && args@.len() > 0 && (args@[0] matches JsArg::Expr(e)
            && string_value(e) == Some(v))
    }
}

/// A runtime variable bound to `proto2` or `proto3`, or made by a call with
/// `proto2` or `proto3` as its first argument, resolves to that very name, where that declaration is the
/// first of the variable in the module (at any depth within the limit).
pub proof fn law_runtime_made_with_literal(body: Seq<JsStmt>, name: Seq<char>, i: int, j: int, depth: nat, v: Seq<char>)
    requires
        0 <= i < body.len(),
        forall|a: int| 0 <= a < i ==> !declares_in(#[trigger] body[a], name),
        body[i] matches JsStmt::VarDecl(ds) && 0 <= j < ds@.len() && runtime_made_with(ds@[j], name, v)
            && forall|b: int| 0 <= b < j ==> !declares(#[trigger] ds@[b], name),
        depth <= 5,
    ensures
        resolve_runtime(body, name, depth) == Some(v),
{
    let ds = body[i]->VarDecl_0;
    let f = |d: JsDeclarator| decl_runtime_link(d, name);
    assert forall|b: int| 0 <= b < j implies (#[trigger] f(ds@[b])) is None by {
        assert(!declares(ds@[b], name));
    }
    assert(f(ds@[j]) == Some(RuntimeLink::Final(v)));
    lemma_first_some_at(ds@, f, 0, j);
    let g = |s: JsStmt| stmt_runtime_link(s, name);
    assert forall|a: int| 0 <= a < i implies (#[trigger] g(body[a])) is None by {
        if let JsStmt::VarDecl(ds2) = body[a] {
            assert forall|b: int| 0 <= b < ds2@.len() implies (#[trigger] f(ds2@[b])) is None by {
                assert(!declares(ds2@[b], name));
            }
            lemma_first_some_none(ds2@, f, 0);
        }
    }
    lemma_first_some_at(body, g, 0, i);
}

/// A message class whose runtime is such a variable (see
/// `law_runtime_made_with_literal`) has that string as its syntax.
pub proof fn law_syntax_from_runtime_literal(body: Seq<JsStmt>, class_name: Seq<char>, name: Seq<char>, i: int, j: int, v: Seq<char>)
    requires
        class_named(body, class_name) is Some,
        runtime_identifier(body, class_name) == Some(name),
        0 <= i < body.len(),
        forall|a: int| 0 <= a < i ==> !declares_in(#[trigger] body[a], name),
        body[i] matches JsStmt::VarDecl(ds) && 0 <= j < ds@.len() && runtime_made_with(ds@[j], name, v)
            && forall|b: int| 0 <= b < j ==> !declares(#[trigger] ds@[b], name),
    ensures
        runtime_syntax(body, class_name) == Some(v),
{
    law_runtime_made_with_literal(body, name, i, j, 0, v);
}

} // verus!
