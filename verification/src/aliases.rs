//! Alias chains between declarations: a chain of identifiers, each declared
//! with the next one as its initializer, ends or runs in a circle. Following
//! such a circle is the one way the extraction could fail to finish; this
//! module decides, for one starting point, whether the chain ends.
use vstd::prelude::*;
use crate::ast::{JsDeclarator, JsExpr, JsStmt};
use crate::seqs::{first_some_from, lemma_difference_shrinks, lemma_first_some_witness};
use crate::tables::{contains_name, names_view};
use crate::util::{
    declares, deref_terminates, deref_within, find_class_decl, find_decl, named_declarator,
    stmt_declarator,
};

verus! {

/// The name the declarator binds, or the empty string when its binding is
/// not a plain identifier.
pub open spec fn decl_id_name(d: JsDeclarator) -> Seq<char> {
    match d.id {
        Some(n) => n@,
        None => Seq::empty(),
    }
}

pub open spec fn stmt_names(s: JsStmt) -> Seq<Seq<char>> {
    match s {
        JsStmt::VarDecl(ds) => ds@.map_values(|d: JsDeclarator| decl_id_name(d)),
        _ => Seq::empty(),
    }
}

pub open spec fn names_upto(body: Seq<JsStmt>, n: int) -> Seq<Seq<char>>
    decreases n,
{
    if n <= 0 {
        Seq::empty()
    } else {
        names_upto(body, n - 1) + stmt_names(body[n - 1])
    }
}

/// The names of all declarators of the module (with the empty string for
/// those that bind a pattern): a finite set holding every declared name.
pub open spec fn declared_names(body: Seq<JsStmt>) -> Set<Seq<char>> {
    names_upto(body, body.len() as int).to_set()
}

proof fn lemma_names_upto_grows(body: Seq<JsStmt>, k: int, m: int, x: Seq<char>)
    requires
        0 <= k <= m <= body.len(),
        names_upto(body, k).contains(x),
    ensures
        names_upto(body, m).contains(x),
    decreases m - k,
{
    if k < m {
        lemma_names_upto_grows(body, k, m - 1, x);
        let left = names_upto(body, m - 1);
        let i = choose|i: int| 0 <= i < left.len() && left[i] == x;
        assert((left + stmt_names(body[m - 1]))[i] == x);
    }
}

/// Every name that `find_decl` finds is a declared name.
pub proof fn lemma_found_is_declared(body: Seq<JsStmt>, name: Seq<char>)
    requires
        find_decl(body, name) is Some,
    ensures
        declared_names(body).contains(name),
        declared_names(body).finite(),
{
    broadcast use vstd::seq_lib::seq_to_set_is_finite;

    let f = |s: JsStmt| stmt_declarator(s, name);
    lemma_first_some_witness(body, f, 0);
    let a = choose|a: int| 0 <= 0 <= a < body.len() && f(body[a]) == first_some_from(body, f, 0);
    if let JsStmt::VarDecl(ds) = body[a] {
        let g = |d: JsDeclarator| named_declarator(d, name);
        lemma_first_some_witness(ds@, g, 0);
        let b = choose|b: int| 0 <= 0 <= b < ds@.len() && g(ds@[b]) == first_some_from(ds@, g, 0);
        assert(declares(ds@[b], name));
        let left = names_upto(body, a);
        assert(stmt_names(body[a])[b] == name);
        assert((left + stmt_names(body[a]))[left.len() + b] == name);
        assert(names_upto(body, a + 1).contains(name));
        lemma_names_upto_grows(body, a + 1, body.len() as int, name);
    }
}

/// Identifiers with no fuel lead nowhere; with a period they never end.
proof fn lemma_periodic_never_ends(x: JsExpr, body: Seq<JsStmt>, p: nat, f: nat)
    requires
        p >= 1,
        forall|g: nat| #[trigger] deref_within(x, body, g) == if g < p {
            None
        } else {
            deref_within(x, body, (g - p) as nat)
        },
    ensures
        deref_within(x, body, f) is None,
    decreases f,
{
    if f >= p {
        lemma_periodic_never_ends(x, body, p, (f - p) as nat);
    }
}

/// The identifier expression naming `s`.
pub open spec fn ident_of(s: String) -> JsExpr {
    JsExpr::Ident(s)
}

/// Decides whether following identifiers from `init` reaches an answer: it
/// follows the chain and stops at its end, or where a name comes back.
pub fn chain_terminates(init: &JsExpr, body: &Vec<JsStmt>) -> (r: bool)
    ensures
        r == deref_terminates(*init, body@),
{
    broadcast use vstd::seq_lib::seq_to_set_is_finite;

    let ghost universe = declared_names(body@);
    let mut seen: Vec<String> = Vec::new();
    let mut cur = init;
    assert(names_view(seen@).to_set() =~= Set::<Seq<char>>::empty());
    loop
        invariant
            universe == declared_names(body@),
            universe.finite(),
            names_view(seen@).to_set().subset_of(universe),
            forall|f: nat| #[trigger] deref_within(*init, body@, f) == if f < seen@.len() {
                None
            } else {
                deref_within(*cur, body@, (f - seen@.len()) as nat)
            },
            forall|k: int, f: nat|
                0 <= k < seen@.len() ==> #[trigger] deref_within(ident_of(seen@[k]), body@, f) == if f < seen@.len() - k {
                    None
                } else {
                    deref_within(*cur, body@, (f - (seen@.len() - k)) as nat)
                },
        decreases universe.difference(names_view(seen@).to_set()).len(),
    {
        match cur {
            JsExpr::Ident(id) => {
                if contains_name(&seen, id.as_str()) {
                    proof {
                        let k = choose|k: int| 0 <= k < names_view(seen@).len() && names_view(seen@)[k] == id@;
                        let p = (seen@.len() - k) as nat;
                        let x = ident_of(seen@[k]);
                        assert forall|g: nat| #[trigger] deref_within(x, body@, g) == if g < p {
                            None
                        } else {
                            deref_within(x, body@, (g - p) as nat)
                        } by {
                            if g >= p {
                                assert(deref_within(*cur, body@, (g - p) as nat) == deref_within(x, body@, (g - p) as nat));
                            }
                        }
                        assert forall|f: nat| #[trigger] deref_within(*init, body@, f) is None by {
                            if f >= seen@.len() {
                                let g = (f - seen@.len()) as nat;
                                lemma_periodic_never_ends(x, body@, p, g);
                                assert(deref_within(*cur, body@, g) == deref_within(x, body@, g));
                            }
                        }
                    }
                    return false;
                }
                let decl = match find_class_decl(body, id.as_str()) {
                    Some(d) => d,
                    None => {
                        assert(deref_within(*init, body@, (seen@.len() + 1) as nat) is Some);
                        return true;
                    },
                };
                match &decl.init {
                    Some(next) => {
                        proof {
                            lemma_found_is_declared(body@, id@);
                            assert(!names_view(seen@).to_set().contains(id@));
                            lemma_difference_shrinks(universe, names_view(seen@).to_set(), id@);
                        }
                        let ghost old_seen = seen@;
                        let ghost old_cur = *cur;
                        seen.push(id.clone());
                        cur = next;
                        proof {
                            assert(names_view(seen@) =~= names_view(old_seen).push(id@));
                            names_view(old_seen).lemma_push_to_set_commute(id@);
                            assert(names_view(seen@).to_set() =~= names_view(old_seen).to_set().insert(id@));
                            assert forall|f: nat| #[trigger] deref_within(*init, body@, f) == if f < seen@.len() {
                                None
                            } else {
                                deref_within(*cur, body@, (f - seen@.len()) as nat)
                            } by {
                                if f >= old_seen.len() {
                                    assert(deref_within(old_cur, body@, (f - old_seen.len()) as nat) == if f < seen@.len() {
                                        None
                                    } else {
                                        deref_within(*cur, body@, (f - seen@.len()) as nat)
                                    });
                                }
                            }
                            assert forall|k: int, f: nat|
                                0 <= k < seen@.len() implies #[trigger] deref_within(ident_of(seen@[k]), body@, f) == if f < seen@.len() - k {
                                    None
                                } else {
                                    deref_within(*cur, body@, (f - (seen@.len() - k)) as nat)
                                } by {
                                if k < old_seen.len() {
                                    assert(seen@[k] == old_seen[k]);
                                    if f >= old_seen.len() - k {
                                        assert(deref_within(old_cur, body@, (f - (old_seen.len() - k)) as nat) == if f < seen@.len() - k {
                                            None
                                        } else {
                                            deref_within(*cur, body@, (f - (seen@.len() - k)) as nat)
                                        });
                                    }
                                } else {
                                    assert(seen@[k]@ == id@);
                                }
                            }
                        }
                    },
                    None => {
                        assert(deref_within(*init, body@, (seen@.len() + 1) as nat) is Some);
                        return true;
                    },
                }
            },
            _ => {
                assert(deref_within(*init, body@, seen@.len() as nat) is Some);
                return true;
            },
        }
    }
}

/// The first declarator of `n`, if any, has an initializer whose alias chain
/// ends.
pub open spec fn alias_ok(body: Seq<JsStmt>, n: Seq<char>) -> bool {
    match find_decl(body, n) {
        Some(d) => match d.init {
            Some(init) => deref_terminates(init, body),
            None => true,
        },
        None => true,
    }
}

/// No alias chain in the module runs in a circle: for every name, the chain
/// that starts at the initializer of its first declarator ends.
pub open spec fn aliases_resolve(body: Seq<JsStmt>) -> bool {
    forall|n: Seq<char>| #[trigger] alias_ok(body, n)
}

} // verus!
