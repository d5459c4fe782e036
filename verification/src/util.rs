//! Readers over the syntax tree: names of property keys, values of string
//! literals, declarations of a name, classes behind an initializer, and the
//! alias chains between them.
use vstd::prelude::*;
use crate::ast::{JsDeclarator, JsClass, JsExpr, JsKey, JsProp, JsStmt, JsTarget, TemplateQuasi};
use crate::seqs::{deref_opt, first_some, first_some_from, lemma_filter_map_take_step};
use crate::text::str_eq;

verus! {

/// The name a property key stands for, if it is a plain name, an identifier or
/// a string literal.
pub open spec fn key_name(k: JsKey) -> Option<Seq<char>> {
    match k {
        JsKey::Static(n) => Some(n@),
        JsKey::Ident(n) => Some(n@),
        JsKey::Str(n) => Some(n@),
        JsKey::Other => None,
    }
}

pub open spec fn str_opt_view(o: Option<&str>) -> Option<Seq<char>> {
    match o {
        Some(s) => Some(s@),
        None => None,
    }
}

pub open spec fn string_opt_view(o: Option<String>) -> Option<Seq<char>> {
    match o {
        Some(s) => Some(s@),
        None => None,
    }
}

pub fn get_prop_key_name(key: &JsKey) -> (r: Option<&str>)
    ensures
        str_opt_view(r) == key_name(*key),
{
    match key {
        JsKey::Static(n) => Some(n.as_str()),
        JsKey::Ident(n) => Some(n.as_str()),
        JsKey::Str(n) => Some(n.as_str()),
        JsKey::Other => None,
    }
}

/// The text of a template piece: its cooked text, or its raw text where the
/// cooked one is missing.
pub open spec fn quasi_text(q: TemplateQuasi) -> Seq<char> {
    match q.cooked {
        Some(c) => c@,
        None => q.raw@,
    }
}

/// The string an expression spells out: a string literal, or a template
/// literal made of one piece and no embedded expression.
pub open spec fn string_value(e: JsExpr) -> Option<Seq<char>> {
    match e {
        JsExpr::Str(s) => Some(s@),
        JsExpr::Template(q, ex) => if ex@.len() == 0 && q@.len() == 1 {
            Some(quasi_text(q@[0]))
        } else {
            None
        },
        _ => None,
    }
}

pub fn get_string_value(expr: &JsExpr) -> (r: Option<&str>)
    ensures
        str_opt_view(r) == string_value(*expr),
{
    match expr {
        JsExpr::Str(s) => Some(s.as_str()),
        JsExpr::Template(q, ex) => {
            if ex.len() == 0 && q.len() == 1 {
                match &q[0].cooked {
                    Some(c) => Some(c.as_str()),
                    None => Some(q[0].raw.as_str()),
                }
            } else {
                None
            }
        },
        _ => None,
    }
}

/// The declarator binds the plain identifier `name`.
pub open spec fn declares(d: JsDeclarator, name: Seq<char>) -> bool {
    d.id matches Some(n) && n@ == name
}

pub open spec fn named_declarator(d: JsDeclarator, name: Seq<char>) -> Option<JsDeclarator> {
    if declares(d, name) {
        Some(d)
    } else {
        None
    }
}

/// The first declarator of a statement that binds `name`.
pub open spec fn stmt_declarator(s: JsStmt, name: Seq<char>) -> Option<JsDeclarator> {
    match s {
        JsStmt::VarDecl(ds) => first_some(ds@, |d: JsDeclarator| named_declarator(d, name)),
        _ => None,
    }
}

/// The first declarator in `body` (statement by statement, and within a
/// statement from left to right) that binds `name`.
pub open spec fn find_decl(body: Seq<JsStmt>, name: Seq<char>) -> Option<JsDeclarator> {
    first_some(body, |s: JsStmt| stmt_declarator(s, name))
}

fn find_in_declaration<'a>(ds: &'a Vec<JsDeclarator>, name: &str) -> (r: Option<&'a JsDeclarator>)
    ensures
        deref_opt(r) == first_some(ds@, |d: JsDeclarator| named_declarator(d, name@)),
{
    let mut j: usize = 0;
    while j < ds.len()
        invariant
            j <= ds.len(),
            first_some(ds@, |d: JsDeclarator| named_declarator(d, name@)) == first_some_from(ds@, |d: JsDeclarator| named_declarator(d, name@), j as int),
        decreases ds.len() - j,
    {
        if let Some(id) = &ds[j].id {
            if str_eq(id.as_str(), name) {
                return Some(&ds[j]);
            }
        }
        j += 1;
    }
    None
}

pub fn find_class_decl<'a>(body: &'a Vec<JsStmt>, name: &str) -> (r: Option<&'a JsDeclarator>)
    ensures
        deref_opt(r) == find_decl(body@, name@),
{
    let mut i: usize = 0;
    while i < body.len()
        invariant
            i <= body.len(),
            find_decl(body@, name@) == first_some_from(body@, |s: JsStmt| stmt_declarator(s, name@), i as int),
        decreases body.len() - i,
    {
        if let JsStmt::VarDecl(ds) = &body[i] {
            if let Some(d) = find_in_declaration(ds, name) {
                return Some(d);
            }
        }
        i += 1;
    }
    None
}

/// The class an initializer holds: a class expression, or a comma expression
/// whose first member assigns a class expression.
pub open spec fn class_of_init(e: JsExpr) -> Option<JsClass> {
    match e {
        JsExpr::Class(c) => Some(c),
        JsExpr::Sequence(es) => if es@.len() > 0 {
            match es@[0] {
                JsExpr::Assign(_, r) => match *r {
                    JsExpr::Class(c) => Some(c),
                    _ => None,
                },
                _ => None,
            }
        } else {
            None
        },
        _ => None,
    }
}

pub fn extract_class_from_init(init: &JsExpr) -> (r: Option<&JsClass>)
    ensures
        deref_opt(r) == class_of_init(*init),
{
    match init {
        JsExpr::Class(c) => Some(c),
        JsExpr::Sequence(es) => {
            if es.len() > 0 {
                if let JsExpr::Assign(_, right) = &es[0] {
                    if let JsExpr::Class(c) = &**right {
                        return Some(c);
                    }
                }
            }
            None
        },
        _ => None,
    }
}

/// The identifier an assignment target names.
pub open spec fn target_ident(t: JsTarget) -> Option<Seq<char>> {
    match t {
        JsTarget::Ident(n) => Some(n@),
        _ => None,
    }
}

/// What an initializer stands for once identifiers are followed to their
/// declarations: a class expression stands for itself; a comma expression
/// whose first member is an assignment stands for the assigned value, under
/// the name it is assigned to; an identifier stands for what the initializer
/// of its first declarator stands for. `None` inside: nothing. The outer
/// `None` means that `fuel` identifiers were followed without reaching an
/// answer.
pub open spec fn deref_within(init: JsExpr, body: Seq<JsStmt>, fuel: nat) -> Option<Option<(JsExpr, Option<Seq<char>>)>>
    decreases fuel,
{
    match init {
        JsExpr::Class(_) => Some(Some((init, None))),
        JsExpr::Sequence(es) => Some(
            if es@.len() > 0 {
                match es@[0] {
                    JsExpr::Assign(l, r) => Some((*r, target_ident(*l))),
                    _ => None,
                }
            } else {
                None
            },
        ),
        JsExpr::Ident(n) => if fuel == 0 {
            None
        } else {
            match find_decl(body, n@) {
                Some(d) => match d.init {
                    Some(next) => deref_within(next, body, (fuel - 1) as nat),
                    None => Some(None),
                },
                None => Some(None),
            }
        },
        _ => Some(None),
    }
}

/// Following identifiers from `init` reaches an answer: the chain of aliases
/// does not run in a circle.
pub open spec fn deref_terminates(init: JsExpr, body: Seq<JsStmt>) -> bool {
    exists|fuel: nat| (#[trigger] deref_within(init, body, fuel)) is Some
}

/// What `init` stands for (see `deref_within`), where the chain ends.
pub open spec fn deref_result(init: JsExpr, body: Seq<JsStmt>) -> Option<(JsExpr, Option<Seq<char>>)> {
    deref_within(init, body, choose|fuel: nat| (#[trigger] deref_within(init, body, fuel)) is Some).unwrap()
}

/// More fuel gives the same answer.
pub proof fn lemma_deref_fuel_monotone(init: JsExpr, body: Seq<JsStmt>, f1: nat, f2: nat)
    requires
        deref_within(init, body, f1) is Some,
        f1 <= f2,
    ensures
        deref_within(init, body, f2) == deref_within(init, body, f1),
    decreases f1,
{
    if let JsExpr::Ident(n) = init {
        if let Some(d) = find_decl(body, n@) {
            if let Some(next) = d.init {
                lemma_deref_fuel_monotone(next, body, (f1 - 1) as nat, (f2 - 1) as nat);
            }
        }
    }
}

/// Any fuel that reaches an answer reaches `deref_result`.
pub proof fn lemma_deref_result(init: JsExpr, body: Seq<JsStmt>, f: nat)
    requires
        deref_within(init, body, f) is Some,
    ensures
        deref_terminates(init, body),
        deref_within(init, body, f) == Some(deref_result(init, body)),
{
    let g = choose|fuel: nat| (#[trigger] deref_within(init, body, fuel)) is Some;
    if f <= g {
        lemma_deref_fuel_monotone(init, body, f, g);
    } else {
        lemma_deref_fuel_monotone(init, body, g, f);
    }
}

pub open spec fn deref_view(r: Option<(&JsExpr, Option<String>)>) -> Option<(JsExpr, Option<Seq<char>>)> {
    match r {
        Some((e, n)) => Some((*e, string_opt_view(n))),
        None => None,
    }
}

pub fn dereference_value<'a>(init: &'a JsExpr, body: &'a Vec<JsStmt>) -> (r: Option<(&'a JsExpr, Option<String>)>)
    requires
        deref_terminates(*init, body@),
    ensures
        deref_view(r) == deref_result(*init, body@),
{
    let ghost fuel = choose|fuel: nat| (#[trigger] deref_within(*init, body@, fuel)) is Some;
    proof {
        lemma_deref_result(*init, body@, fuel);
    }
    let mut cur = init;
    loop
        invariant
            deref_within(*cur, body@, fuel) is Some,
            deref_within(*cur, body@, fuel) == Some(deref_result(*init, body@)),
        decreases fuel,
    {
        match cur {
            JsExpr::Class(_) => {
                return Some((cur, None));
            },
            JsExpr::Sequence(es) => {
                if es.len() > 0 {
                    if let JsExpr::Assign(left, right) = &es[0] {
                        let name = match &**left {
                            JsTarget::Ident(id) => Some(id.clone()),
                            _ => None,
                        };
                        return Some((&**right, name));
                    }
                }
                return None;
            },
            JsExpr::Ident(id) => {
                let decl = match find_class_decl(body, id.as_str()) {
                    Some(d) => d,
                    None => {
                        return None;
                    },
                };
                match &decl.init {
                    Some(next) => {
                        proof {
                            lemma_deref_fuel_monotone(*next, body@, (fuel - 1) as nat, fuel);
                            fuel = (fuel - 1) as nat;
                        }
                        cur = next;
                    },
                    None => {
                        return None;
                    },
                }
            },
            _ => {
                return None;
            },
        }
    }
}

/// What a declarator's initializer stands for (see `deref_result`); nothing
/// when it has no initializer.
pub open spec fn deref_decl_result(decl: JsDeclarator, body: Seq<JsStmt>) -> Option<(JsExpr, Option<Seq<char>>)> {
    match decl.init {
        Some(init) => deref_result(init, body),
        None => None,
    }
}

pub fn dereference_decl<'a>(decl: &'a JsDeclarator, body: &'a Vec<JsStmt>) -> (r: Option<(&'a JsExpr, Option<String>)>)
    requires
        decl.init matches Some(init) ==> deref_terminates(init, body@),
    ensures
        deref_view(r) == deref_decl_result(*decl, body@),
{
    match &decl.init {
        Some(init) => dereference_value(init, body),
        None => None,
    }
}

/// A `key: identifier` property, as the pair of the key's name and the
/// identifier.
pub open spec fn prop_pair(p: JsProp) -> Option<(Seq<char>, Seq<char>)> {
    match p {
        JsProp::Prop(k, v) => match (key_name(k), v) {
            (Some(kn), JsExpr::Ident(id)) => Some((kn, id@)),
            _ => None,
        },
        JsProp::Spread => None,
    }
}

/// The `key: identifier` properties of an object literal, in order.
pub open spec fn object_pairs(props: Seq<JsProp>) -> Seq<(Seq<char>, Seq<char>)> {
    props.filter_map(|p: JsProp| prop_pair(p))
}

pub open spec fn pairs_view(v: Seq<(String, String)>) -> Seq<(Seq<char>, Seq<char>)> {
    v.map_values(|p: (String, String)| (p.0@, p.1@))
}

pub fn obj_to_pairs(props: &Vec<JsProp>) -> (r: Vec<(String, String)>)
    ensures
        pairs_view(r@) == object_pairs(props@),
{
    let mut pairs: Vec<(String, String)> = Vec::new();
    let mut i: usize = 0;
    while i < props.len()
        invariant
            i <= props.len(),
            pairs_view(pairs@) == props@.take(i as int).filter_map(|p: JsProp| prop_pair(p)),
        decreases props.len() - i,
    {
        proof {
            lemma_filter_map_take_step(props@, |p: JsProp| prop_pair(p), i as int);
        }
        let ghost before = pairs@;
        if let JsProp::Prop(key, value) = &props[i] {
            if let Some(kn) = get_prop_key_name(key) {
                if let JsExpr::Ident(id) = value {
                    pairs.push((kn.to_owned(), id.clone()));
                    assert(pairs_view(pairs@) =~= pairs_view(before).push((kn@, id@)));
                }
            }
        }
        i += 1;
    }
    assert(props@.take(props.len() as int) =~= props@);
    pairs
}

} // verus!
