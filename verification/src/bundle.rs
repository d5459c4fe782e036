//! The extraction of a whole bundle: the message classes named by the packet
//! tables, then every message and enum they depend on, found by a worklist
//! over type names, and the enums of the module.
use vstd::prelude::*;
use crate::aliases::{alias_ok, aliases_resolve, chain_terminates, declared_names, lemma_found_is_declared};
use crate::ast::{JsClass, JsElem, JsExpr, JsStmt};
use crate::extract::{
    field_of, field_type_name, obj_prop,
    collect_deps, deps_of, enums_of, extract_enums, extract_type_name, fields_call, fields_of,
    fields_to_vec, find_fields_call, find_packet_maps, packet_maps_of, type_name_of,
};
use crate::js_parse::{parse_module, parsed_module};
use crate::runtime_syntax::{elem_object, find_runtime_syntax, is_proto_syntax, law_runtime_syntax, runtime_syntax};
use crate::tables::{
    distinct_typenames, law_lookup_after_upsert, law_upsert_message, lookup, typenames, contains_name, names_view, upsert, upsert_message, upsert_message_exec, upsert_name,
};
use crate::types::{messages_view, BundleView, MappedMessage, MessageView, ParseBundleResult};
use crate::util::{
    string_value,
    class_of_init, deref_decl_result, dereference_decl, extract_class_from_init, find_class_decl,
    find_decl, pairs_view, string_opt_view,
};

verus! {

/// The state of an extraction: the table from runtime class names to type
/// names, the messages found so far (keyed by type name), the type names
/// visited, and the type names still to look at.
pub struct ExtractionView {
    pub mapping: Seq<(Seq<char>, Seq<char>)>,
    pub messages: Seq<MessageView>,
    pub visited: Seq<Seq<char>>,
    pub queue: Seq<Seq<char>>,
}

pub struct Extraction {
    pub mapping: Vec<(String, String)>,
    pub messages: Vec<MappedMessage>,
    pub visited: Vec<String>,
    pub queue: Vec<String>,
}

impl View for Extraction {
    type V = ExtractionView;

    open spec fn view(&self) -> ExtractionView {
        ExtractionView {
            mapping: pairs_view(self.mapping@),
            messages: messages_view(self.messages@),
            visited: names_view(self.visited@),
            queue: names_view(self.queue@),
        }
    }
}

pub open spec fn or_name(o: Option<Seq<char>>, fallback: Seq<char>) -> Seq<char> {
    match o {
        Some(n) => n,
        None => fallback,
    }
}

/// The class that `name` leads to through its first declarator and the
/// alias chain of its initializer, with the name the chain assigns the class
/// to, if any.
pub open spec fn class_target(body: Seq<JsStmt>, name: Seq<char>) -> Option<(JsClass, Option<Seq<char>>)> {
    match find_decl(body, name) {
        Some(d) => match deref_decl_result(d, body) {
            Some((e, tname)) => match class_of_init(e) {
                Some(c) => Some((c, tname)),
                None => None,
            },
            None => None,
        },
        None => None,
    }
}

/// The message of the class bound to `runtime`, under type name `tn`, if
/// that class has a field list; type names in its fields go through
/// `mapping`.
pub open spec fn message_for(
    body: Seq<JsStmt>,
    runtime: Seq<char>,
    tn: Seq<char>,
    mapping: Seq<(Seq<char>, Seq<char>)>,
) -> Option<MessageView> {
    match fields_call(body, runtime) {
        Some(fc) => Some(
            MessageView {
                typename: tn,
                syntax: or_name(runtime_syntax(body, runtime), "proto3"@),
                fields: fields_of(fc, mapping),
            },
        ),
        None => None,
    }
}

/// The state after registering `st` with the class of `name`, as the
/// packet tables and the worklist do: `None` where the alias chain that
/// `name` starts runs in a circle.
pub open spec fn register_pair(body: Seq<JsStmt>, st: ExtractionView, key: Seq<char>, prop: Seq<char>) -> Option<ExtractionView> {
    if !alias_ok(body, prop) {
        None
    } else {
        Some(
            match class_target(body, prop) {
                None => st,
                Some((c, tname)) => {
                    let runtime = or_name(tname, prop);
                    let tn = or_name(type_name_of(c), key);
                    let mapping = upsert(st.mapping, runtime, tn);
                    ExtractionView {
                        mapping: mapping,
                        messages: match message_for(body, runtime, tn, mapping) {
                            Some(m) => upsert_message(st.messages, m),
                            None => st.messages,
                        },
                        visited: st.visited,
                        queue: st.queue,
                    }
                },
            },
        )
    }
}

pub open spec fn register_upto(
    body: Seq<JsStmt>,
    st: ExtractionView,
    pairs: Seq<(Seq<char>, Seq<char>)>,
    n: int,
) -> Option<ExtractionView>
    decreases n,
{
    if n <= 0 {
        Some(st)
    } else {
        match register_upto(body, st, pairs, n - 1) {
            Some(s) => register_pair(body, s, pairs[n - 1].0, pairs[n - 1].1),
            None => None,
        }
    }
}

pub open spec fn register_all(body: Seq<JsStmt>, st: ExtractionView, pairs: Seq<(Seq<char>, Seq<char>)>) -> Option<ExtractionView> {
    register_upto(body, st, pairs, pairs.len() as int)
}

pub open spec fn register_then(body: Seq<JsStmt>, o: Option<ExtractionView>, pairs: Seq<(Seq<char>, Seq<char>)>) -> Option<ExtractionView> {
    match o {
        Some(st) => register_all(body, st, pairs),
        None => None,
    }
}

pub open spec fn empty_state() -> ExtractionView {
    ExtractionView { mapping: Seq::empty(), messages: Seq::empty(), visited: Seq::empty(), queue: Seq::empty() }
}

/// The entries of the packet tables registered, client, server and shared
/// in that order.
pub open spec fn registered(body: Seq<JsStmt>) -> Option<ExtractionView> {
    let maps = packet_maps_of(body);
    register_then(body, register_then(body, register_all(body, empty_state(), maps.c), maps.s), maps.appended)
}

/// The state after the packet tables, with every message found visited and
/// queued (in the order of the message table).
pub open spec fn initial_state(body: Seq<JsStmt>) -> Option<ExtractionView> {
    match registered(body) {
        Some(st) => {
            let names = st.messages.map_values(|m: MessageView| m.typename);
            Some(ExtractionView { mapping: st.mapping, messages: st.messages, visited: names, queue: names })
        },
        None => None,
    }
}

/// Visits one dependency `dep` of a message: unless visited, the class it
/// leads to has its runtime name mapped to its type name, and, where that
/// type name is new and the class has a field list, its message is stored,
/// and the type name visited and queued. `None` where the alias chain that
/// `dep` starts runs in a circle.
pub open spec fn visit_dep(body: Seq<JsStmt>, st: ExtractionView, dep: Seq<char>) -> Option<ExtractionView> {
    if st.visited.contains(dep) {
        Some(st)
    } else if !alias_ok(body, dep) {
        None
    } else {
        Some(
            match class_target(body, dep) {
                None => st,
                Some((c, tname)) => {
                    let runtime = or_name(tname, dep);
                    let tn = or_name(type_name_of(c), dep);
                    let mapping = upsert(st.mapping, runtime, tn);
                    match message_for(body, runtime, tn, mapping) {
                        Some(m) => if !st.visited.contains(tn) {
                            ExtractionView {
                                mapping: mapping,
                                messages: upsert_message(st.messages, m),
                                visited: st.visited.push(tn),
                                queue: st.queue.push(tn),
                            }
                        } else {
                            ExtractionView { mapping: mapping, messages: st.messages, visited: st.visited, queue: st.queue }
                        },
                        None => ExtractionView {
                            mapping: mapping,
                            messages: st.messages,
                            visited: st.visited,
                            queue: st.queue,
                        },
                    }
                },
            },
        )
    }
}

pub open spec fn visit_deps_upto(body: Seq<JsStmt>, st: ExtractionView, deps: Seq<Seq<char>>, n: int) -> Option<ExtractionView>
    decreases n,
{
    if n <= 0 {
        Some(st)
    } else {
        match visit_deps_upto(body, st, deps, n - 1) {
            Some(s) => visit_dep(body, s, deps[n - 1]),
            None => None,
        }
    }
}

/// The state with the last queued name taken off the queue.
pub open spec fn popped(st: ExtractionView) -> ExtractionView {
    ExtractionView { mapping: st.mapping, messages: st.messages, visited: st.visited, queue: st.queue.drop_last() }
}

/// One round of the worklist: the last queued type name is taken off the
/// queue, and, if a class bound to that name has a field list, each of the
/// types its fields depend on is visited.
pub open spec fn worklist_step(body: Seq<JsStmt>, st: ExtractionView) -> Option<ExtractionView> {
    if st.queue.len() == 0 {
        Some(st)
    } else {
        let p = popped(st);
        match fields_call(body, st.queue.last()) {
            None => Some(p),
            Some(fc) => {
                let deps = deps_of(fc, p.mapping, p.visited);
                visit_deps_upto(body, p, deps, deps.len() as int)
            },
        }
    }
}

/// The state after `k` rounds of the worklist; `None` once a followed alias
/// chain has run in a circle.
pub open spec fn worklist_after(body: Seq<JsStmt>, k: nat) -> Option<ExtractionView>
    decreases k,
{
    if k == 0 {
        initial_state(body)
    } else {
        match worklist_after(body, (k - 1) as nat) {
            Some(st) => worklist_step(body, st),
            None => None,
        }
    }
}

/// The extraction has come to rest: a chain ran in a circle, or the queue
/// is empty.
pub open spec fn settled(o: Option<ExtractionView>) -> bool {
    match o {
        Some(st) => st.queue.len() == 0,
        None => true,
    }
}

/// The worklist comes to rest after finitely many rounds.
pub open spec fn worklist_ends(body: Seq<JsStmt>) -> bool {
    exists|k: nat| #[trigger] settled(worklist_after(body, k))
}

/// What extraction yields for a module: the messages of the state where the
/// worklist is empty, and the module's enums; `None` where a followed alias
/// chain runs in a circle.
pub open spec fn extracted(body: Seq<JsStmt>) -> Option<BundleView> {
    let k = choose|k: nat| #[trigger] settled(worklist_after(body, k));
    match worklist_after(body, k) {
        Some(st) => Some(BundleView { messages: st.messages, enums: enums_of(body) }),
        None => None,
    }
}

/// Once at rest, further rounds change nothing.
pub proof fn lemma_worklist_settled(body: Seq<JsStmt>, k: nat, m: nat)
    requires
        settled(worklist_after(body, k)),
        k <= m,
    ensures
        worklist_after(body, m) == worklist_after(body, k),
    decreases m - k,
{
    if k < m {
        lemma_worklist_settled(body, k, (m - 1) as nat);
    }
}

/// Any round at rest gives what `extracted` describes.
pub proof fn lemma_extracted_at(body: Seq<JsStmt>, k: nat)
    requires
        settled(worklist_after(body, k)),
    ensures
        worklist_ends(body),
        extracted(body) == match worklist_after(body, k) {
            Some(st) => Some(BundleView { messages: st.messages, enums: enums_of(body) }),
            None => None,
        },
{
    let k2 = choose|k2: nat| #[trigger] settled(worklist_after(body, k2));
    if k <= k2 {
        lemma_worklist_settled(body, k, k2);
    } else {
        lemma_worklist_settled(body, k2, k);
    }
}

proof fn lemma_register_none(body: Seq<JsStmt>, st: ExtractionView, pairs: Seq<(Seq<char>, Seq<char>)>, n: int, m: int)
    requires
        register_upto(body, st, pairs, n) is None,
        n <= m,
    ensures
        register_upto(body, st, pairs, m) is None,
    decreases m - n,
{
    if n < m {
        lemma_register_none(body, st, pairs, n, m - 1);
    }
}

proof fn lemma_visit_deps_none(body: Seq<JsStmt>, st: ExtractionView, deps: Seq<Seq<char>>, n: int, m: int)
    requires
        visit_deps_upto(body, st, deps, n) is None,
        n <= m,
    ensures
        visit_deps_upto(body, st, deps, m) is None,
    decreases m - n,
{
    if n < m {
        lemma_visit_deps_none(body, st, deps, n, m - 1);
    }
}

/// A name that leads to a class whose type name is not visited yet.
pub open spec fn fresh(body: Seq<JsStmt>, n: Seq<char>, visited: Seq<Seq<char>>) -> bool {
    match class_target(body, n) {
        Some((c, _)) => !visited.contains(or_name(type_name_of(c), n)),
        None => false,
    }
}

/// The declared names that could still add a message: a finite set that
/// every new message shrinks.
pub open spec fn pending(body: Seq<JsStmt>, visited: Seq<Seq<char>>) -> Set<Seq<char>> {
    declared_names(body).filter(|n: Seq<char>| fresh(body, n, visited))
}

/// Visiting a dependency either leaves the visited names and the queue as
/// they were, or queues one name and shrinks the pending names.
pub proof fn lemma_visit_dep_progress(body: Seq<JsStmt>, st: ExtractionView, dep: Seq<char>)
    ensures
        pending(body, st.visited).finite(),
        visit_dep(body, st, dep) matches Some(st2) ==> {
            &&& pending(body, st2.visited).subset_of(pending(body, st.visited))
            &&& (st2.visited == st.visited && st2.queue == st.queue) || (st2.queue.len()
                == st.queue.len() + 1 && pending(body, st2.visited).len() < pending(body, st.visited).len())
        },
{
    broadcast use vstd::set::group_set_axioms;
    broadcast use vstd::seq_lib::seq_to_set_is_finite;

    let p1 = pending(body, st.visited);
    assert(declared_names(body).finite());
    assert(p1.finite());
    if let Some(st2) = visit_dep(body, st, dep) {
        let p2 = pending(body, st2.visited);
        if st2.visited != st.visited {
            let (c, tname) = class_target(body, dep).unwrap();
            let tn = or_name(type_name_of(c), dep);
            assert(st2.visited == st.visited.push(tn));
            assert forall|n: Seq<char>| #[trigger] p2.contains(n) implies p1.contains(n) by {
                if !st.visited.contains(or_name(type_name_of(class_target(body, n).unwrap().0), n)) {
                } else {
                    let x = or_name(type_name_of(class_target(body, n).unwrap().0), n);
                    let i = choose|i: int| 0 <= i < st.visited.len() && st.visited[i] == x;
                    assert(st2.visited[i] == x);
                }
            }
            lemma_found_is_declared(body, dep);
            assert(p1.contains(dep));
            assert(st2.visited[st.visited.len() as int] == tn);
            assert(!p2.contains(dep));
            assert(p2.subset_of(p1.remove(dep)));
            vstd::set_lib::lemma_len_subset(p2, p1.remove(dep));
        } else {
            assert(p2 =~= p1);
        }
    }
}

/// The class that `name` leads to, with the name its chain assigns it to:
/// `None` where the chain runs in a circle, `Some(None)` where it leads to
/// no class.
fn resolve_target<'a>(body: &'a Vec<JsStmt>, name: &str) -> (r: Option<Option<(&'a JsClass, Option<String>)>>)
    ensures
        match r {
            None => !alias_ok(body@, name@),
            Some(None) => alias_ok(body@, name@) && class_target(body@, name@) is None,
            Some(Some((c, t))) => alias_ok(body@, name@) && class_target(body@, name@) == Some((*c, string_opt_view(t))),
        },
{
    let decl = match find_class_decl(body, name) {
        Some(d) => d,
        None => {
            return Some(None);
        },
    };
    match &decl.init {
        Some(init) => {
            if !chain_terminates(init, body) {
                return None;
            }
        },
        None => {
            return Some(None);
        },
    }
    let (target, tname) = match dereference_decl(decl, body) {
        Some(t) => t,
        None => {
            return Some(None);
        },
    };
    match extract_class_from_init(target) {
        Some(c) => Some(Some((c, tname))),
        None => Some(None),
    }
}

fn build_message(body: &Vec<JsStmt>, runtime: &str, tn: String, mapping: &Vec<(String, String)>) -> (r: Option<MappedMessage>)
    ensures
        match r {
            Some(m) => message_for(body@, runtime@, tn@, pairs_view(mapping@)) == Some(m@),
            None => message_for(body@, runtime@, tn@, pairs_view(mapping@)) is None,
        },
{
    let fc = match find_fields_call(body, runtime) {
        Some(fc) => fc,
        None => {
            return None;
        },
    };
    let fields = fields_to_vec(fc, mapping);
    let syntax = match find_runtime_syntax(body, runtime) {
        Some(s) => s,
        None => "proto3".to_owned(),
    };
    Some(MappedMessage { typename: tn, syntax, fields })
}

fn register_pair_exec(body: &Vec<JsStmt>, st: &mut Extraction, key: &String, prop: &String) -> (ok: bool)
    ensures
        ok == register_pair(body@, old(st)@, key@, prop@) is Some,
        ok ==> Some(final(st)@) == register_pair(body@, old(st)@, key@, prop@),
{
    let (c, tname) = match resolve_target(body, prop.as_str()) {
        None => {
            return false;
        },
        Some(None) => {
            return true;
        },
        Some(Some(t)) => t,
    };
    let runtime = match tname {
        Some(t) => t,
        None => prop.clone(),
    };
    let tn = match extract_type_name(c) {
        Some(t) => t,
        None => key.clone(),
    };
    upsert_name(&mut st.mapping, runtime.clone(), tn.clone());
    if let Some(m) = build_message(body, runtime.as_str(), tn, &st.mapping) {
        upsert_message_exec(&mut st.messages, m);
    }
    true
}

fn register_pairs(body: &Vec<JsStmt>, st: &mut Extraction, pairs: &Vec<(String, String)>) -> (ok: bool)
    ensures
        ok == register_all(body@, old(st)@, pairs_view(pairs@)) is Some,
        ok ==> Some(final(st)@) == register_all(body@, old(st)@, pairs_view(pairs@)),
        ok ==> final(st)@.visited == old(st)@.visited && final(st)@.queue == old(st)@.queue,
{
    let mut i: usize = 0;
    while i < pairs.len()
        invariant
            i <= pairs.len(),
            register_upto(body@, old(st)@, pairs_view(pairs@), i as int) == Some(st@),
            st@.visited == old(st)@.visited,
            st@.queue == old(st)@.queue,
        decreases pairs.len() - i,
    {
        if !register_pair_exec(body, st, &pairs[i].0, &pairs[i].1) {
            proof {
                lemma_register_none(body@, old(st)@, pairs_view(pairs@), i + 1, pairs.len() as int);
            }
            return false;
        }
        i += 1;
    }
    true
}

fn visit_dep_exec(body: &Vec<JsStmt>, st: &mut Extraction, dep: &String) -> (ok: bool)
    ensures
        ok == visit_dep(body@, old(st)@, dep@) is Some,
        ok ==> Some(final(st)@) == visit_dep(body@, old(st)@, dep@),
{
    if contains_name(&st.visited, dep.as_str()) {
        return true;
    }
    let (c, tname) = match resolve_target(body, dep.as_str()) {
        None => {
            return false;
        },
        Some(None) => {
            return true;
        },
        Some(Some(t)) => t,
    };
    let runtime = match tname {
        Some(t) => t,
        None => dep.clone(),
    };
    let tn = match extract_type_name(c) {
        Some(t) => t,
        None => dep.clone(),
    };
    upsert_name(&mut st.mapping, runtime.clone(), tn.clone());
    if !contains_name(&st.visited, tn.as_str()) {
        if let Some(m) = build_message(body, runtime.as_str(), tn.clone(), &st.mapping) {
            upsert_message_exec(&mut st.messages, m);
            let ghost before = st.visited@;
            st.visited.push(tn.clone());
            assert(names_view(st.visited@) =~= names_view(before).push(tn@));
            let ghost before_q = st.queue@;
            st.queue.push(tn);
            assert(names_view(st.queue@) =~= names_view(before_q).push(tn@));
        }
    }
    true
}

/// The state after the packet tables (see `initial_state`), or `None`.
fn initial_exec(body: &Vec<JsStmt>) -> (r: Option<Extraction>)
    ensures
        match r {
            Some(st) => initial_state(body@) == Some(st@),
            None => initial_state(body@) is None,
        },
{
    let maps = find_packet_maps(body);
    let mut st = Extraction { mapping: Vec::new(), messages: Vec::new(), visited: Vec::new(), queue: Vec::new() };
    proof {
        assert(pairs_view(st.mapping@) =~= Seq::empty());
        assert(messages_view(st.messages@) =~= Seq::empty());
        assert(names_view(st.visited@) =~= Seq::empty());
        assert(names_view(st.queue@) =~= Seq::empty());
        assert(st@ == empty_state());
    }
    if !register_pairs(body, &mut st, &maps.c_pairs) {
        return None;
    }
    if !register_pairs(body, &mut st, &maps.s_pairs) {
        return None;
    }
    if !register_pairs(body, &mut st, &maps.appended_pairs) {
        return None;
    }
    let ghost reg = st@;
    assert(registered(body@) == Some(reg));
    let ghost names = messages_view(st.messages@).map_values(|m: MessageView| m.typename);
    let mut i: usize = 0;
    while i < st.messages.len()
        invariant
            i <= st.messages.len(),
            names == messages_view(st.messages@).map_values(|m: MessageView| m.typename),
            messages_view(st.messages@) == reg.messages,
            pairs_view(st.mapping@) == reg.mapping,
            names_view(st.visited@) == names.take(i as int),
            names_view(st.queue@) == names.take(i as int),
        decreases st.messages.len() - i,
    {
        let n = st.messages[i].typename.clone();
        assert(names[i as int] == n@);
        let ghost bv = st.visited@;
        let ghost bq = st.queue@;
        st.visited.push(n.clone());
        st.queue.push(n);
        assert(names_view(st.visited@) =~= names_view(bv).push(n@));
        assert(names_view(st.queue@) =~= names_view(bq).push(n@));
        assert(names.take(i + 1) =~= names.take(i as int).push(names[i as int]));
        i += 1;
    }
    assert(names.take(st.messages.len() as int) =~= names);
    assert(st@ == ExtractionView { mapping: reg.mapping, messages: reg.messages, visited: names, queue: names });
    Some(st)
}

/// Extracts the messages and enums of a parsed module (see `extracted`):
/// `None` exactly where a chain of aliases that the extraction follows runs
/// in a circle. The worklist always comes to rest.
pub fn extract_from_module(body: &Vec<JsStmt>) -> (r: Option<ParseBundleResult>)
    ensures
        worklist_ends(body@),
        match r {
            Some(b) => extracted(body@) == Some(b@),
            None => extracted(body@) is None,
        },
{
    let mut st = match initial_exec(body) {
        Some(s) => s,
        None => {
            proof {
                lemma_extracted_at(body@, 0);
            }
            return None;
        },
    };
    let ghost mut k: nat = 0;
    while st.queue.len() > 0
        invariant
            worklist_after(body@, k) == Some(st@),
        decreases pending(body@, st@.visited).len(), st@.queue.len(),
    {
        let ghost before = st@;
        let name = match st.queue.pop() {
            Some(n) => n,
            None => {
                return None;
            },
        };
        let ghost p = st@;
        assert(p.queue =~= before.queue.drop_last());
        assert(p == popped(before));
        assert(name@ == before.queue.last());
        proof {
            lemma_visit_dep_progress(body@, p, Seq::empty());
        }
        match find_fields_call(body, name.as_str()) {
            None => {},
            Some(fc) => {
                let deps = collect_deps(fc, &st.mapping, &st.visited);
                let ghost dv = names_view(deps@);
                let mut j: usize = 0;
                while j < deps.len()
                    invariant
                        j <= deps.len(),
                        dv == names_view(deps@),
                        worklist_after(body@, k) == Some(before),
                        p == popped(before),
                        dv == deps_of(fields_call(body@, before.queue.last()).unwrap(), p.mapping, p.visited),
                        fields_call(body@, before.queue.last()) is Some,
                        before.queue.len() > 0,
                        visit_deps_upto(body@, p, dv, j as int) == Some(st@),
                        pending(body@, p.visited).finite(),
                        pending(body@, st@.visited).subset_of(pending(body@, p.visited)),
                        st@.queue.len() >= p.queue.len(),
                        pending(body@, st@.visited).len() + (st@.queue.len() - p.queue.len())
                            <= pending(body@, p.visited).len(),
                    decreases deps.len() - j,
                {
                    proof {
                        lemma_visit_dep_progress(body@, st@, dv[j as int]);
                    }
                    if !visit_dep_exec(body, &mut st, &deps[j]) {
                        proof {
                            lemma_visit_deps_none(body@, p, dv, j + 1, dv.len() as int);
                            assert(worklist_after(body@, k + 1) is None);
                            lemma_extracted_at(body@, k + 1);
                        }
                        return None;
                    }
                    j += 1;
                }
            },
        }
        proof {
            k = k + 1;
        }
    }
    proof {
        lemma_extracted_at(body@, k);
    }
    let enums = extract_enums(body);
    Some(ParseBundleResult { messages: st.messages, enums })
}

/// The message `extract_bundle` fails with.
pub open spec fn circular_alias_message() -> Seq<char> {
    "a chain of aliases that the extraction follows runs in a circle"@
}

/// Parses a bundle and extracts its messages and enums, with the parser's
/// diagnostics. The extraction fails exactly where a chain of aliases that
/// it follows runs in a circle, the one case in which following it would
/// never end.
pub fn extract_bundle_with_warnings(source: &str) -> (r: (Result<ParseBundleResult, String>, Vec<String>))
    ensures
        worklist_ends(parsed_module(source@).0),
        names_view(r.1@) == parsed_module(source@).1,
        match r.0 {
            Ok(b) => extracted(parsed_module(source@).0) == Some(b@),
            Err(e) => extracted(parsed_module(source@).0) is None && e@ == circular_alias_message(),
        },
{
    let (body, warnings) = parse_module(source);
    let result = match extract_from_module(&body) {
        Some(b) => Ok(b),
        None => Err("a chain of aliases that the extraction follows runs in a circle".to_owned()),
    };
    (result, warnings)
}

/// Parses a bundle and extracts its messages and enums (see
/// `extract_bundle_with_warnings`, whose diagnostics this leaves out).
pub fn extract_bundle(source: &str) -> (r: Result<ParseBundleResult, String>)
    ensures
        worklist_ends(parsed_module(source@).0),
        match r {
            Ok(b) => extracted(parsed_module(source@).0) == Some(b@),
            Err(e) => extracted(parsed_module(source@).0) is None && e@ == circular_alias_message(),
        },
{
    let (result, _warnings) = extract_bundle_with_warnings(source);
    result
}

/// What every state of the worklist keeps: no two messages share a type
/// name, the visited names are exactly the messages' type names, and every
/// message's syntax is `proto2` or `proto3`.
pub open spec fn state_ok(st: ExtractionView) -> bool {
    &&& distinct_typenames(st.messages)
    &&& st.visited.to_set() == typenames(st.messages)
    &&& forall|x: MessageView| #[trigger] st.messages.contains(x) ==> is_proto_syntax(x.syntax)
}

/// The messages of the table are distinct by type name and all of proto2 or
/// proto3 syntax.
pub open spec fn table_ok(ms: Seq<MessageView>) -> bool {
    &&& distinct_typenames(ms)
    &&& forall|x: MessageView| #[trigger] ms.contains(x) ==> is_proto_syntax(x.syntax)
}

proof fn lemma_message_for_syntax(
    body: Seq<JsStmt>,
    runtime: Seq<char>,
    tn: Seq<char>,
    mapping: Seq<(Seq<char>, Seq<char>)>,
)
    ensures
        message_for(body, runtime, tn, mapping) matches Some(m) ==> m.typename == tn && is_proto_syntax(m.syntax),
{
    law_runtime_syntax(body, runtime);
}

proof fn lemma_upsert_table_ok(ms: Seq<MessageView>, m: MessageView)
    requires
        table_ok(ms),
        is_proto_syntax(m.syntax),
    ensures
        table_ok(upsert_message(ms, m)),
        typenames(upsert_message(ms, m)) == typenames(ms).insert(m.typename),
{
    law_upsert_message(ms, m);
}

proof fn lemma_register_table_ok(body: Seq<JsStmt>, st: ExtractionView, pairs: Seq<(Seq<char>, Seq<char>)>, n: int)
    requires
        table_ok(st.messages),
    ensures
        register_upto(body, st, pairs, n) matches Some(s) ==> table_ok(s.messages),
    decreases n,
{
    if n > 0 {
        lemma_register_table_ok(body, st, pairs, n - 1);
        if let Some(prev) = register_upto(body, st, pairs, n - 1) {
            let (key, prop) = pairs[n - 1];
            if let Some((c, tname)) = class_target(body, prop) {
                let runtime = or_name(tname, prop);
                let tn = or_name(type_name_of(c), key);
                let mapping = upsert(prev.mapping, runtime, tn);
                lemma_message_for_syntax(body, runtime, tn, mapping);
                if let Some(m) = message_for(body, runtime, tn, mapping) {
                    lemma_upsert_table_ok(prev.messages, m);
                }
            }
        }
    }
}

proof fn lemma_initial_state_ok(body: Seq<JsStmt>)
    ensures
        initial_state(body) matches Some(st) ==> state_ok(st),
{
    let maps = packet_maps_of(body);
    lemma_register_table_ok(body, empty_state(), maps.c, maps.c.len() as int);
    if let Some(s1) = register_all(body, empty_state(), maps.c) {
        lemma_register_table_ok(body, s1, maps.s, maps.s.len() as int);
        if let Some(s2) = register_all(body, s1, maps.s) {
            lemma_register_table_ok(body, s2, maps.appended, maps.appended.len() as int);
        }
    }
}

proof fn lemma_visit_dep_ok(body: Seq<JsStmt>, st: ExtractionView, dep: Seq<char>)
    requires
        state_ok(st),
    ensures
        visit_dep(body, st, dep) matches Some(s) ==> state_ok(s),
{
    if !st.visited.contains(dep) && alias_ok(body, dep) {
        if let Some((c, tname)) = class_target(body, dep) {
            let runtime = or_name(tname, dep);
            let tn = or_name(type_name_of(c), dep);
            let mapping = upsert(st.mapping, runtime, tn);
            lemma_message_for_syntax(body, runtime, tn, mapping);
            if let Some(m) = message_for(body, runtime, tn, mapping) {
                if !st.visited.contains(tn) {
                    lemma_upsert_table_ok(st.messages, m);
                    st.visited.lemma_push_to_set_commute(tn);
                }
            }
        }
    }
}

proof fn lemma_visit_deps_ok(body: Seq<JsStmt>, st: ExtractionView, deps: Seq<Seq<char>>, n: int)
    requires
        state_ok(st),
    ensures
        visit_deps_upto(body, st, deps, n) matches Some(s) ==> state_ok(s),
    decreases n,
{
    if n > 0 {
        lemma_visit_deps_ok(body, st, deps, n - 1);
        if let Some(prev) = visit_deps_upto(body, st, deps, n - 1) {
            lemma_visit_dep_ok(body, prev, deps[n - 1]);
        }
    }
}

/// Every state of the worklist keeps `state_ok`.
pub proof fn law_worklist_invariant(body: Seq<JsStmt>, k: nat)
    ensures
        worklist_after(body, k) matches Some(st) ==> state_ok(st),
    decreases k,
{
    if k == 0 {
        lemma_initial_state_ok(body);
    } else {
        law_worklist_invariant(body, (k - 1) as nat);
        if let Some(st) = worklist_after(body, (k - 1) as nat) {
            if st.queue.len() > 0 {
                let p = popped(st);
                if let Some(fc) = fields_call(body, st.queue.last()) {
                    let deps = deps_of(fc, p.mapping, p.visited);
                    lemma_visit_deps_ok(body, p, deps, deps.len() as int);
                }
            }
        }
    }
}

/// The messages extracted from any module have distinct type names, and each
/// has `proto2` or `proto3` syntax.
pub proof fn law_extracted_messages(body: Seq<JsStmt>)
    ensures
        extracted(body) matches Some(b) ==> {
            &&& distinct_typenames(b.messages)
            &&& forall|x: MessageView| #[trigger] b.messages.contains(x) ==> is_proto_syntax(x.syntax)
        },
{
    let k = choose|k: nat| #[trigger] settled(worklist_after(body, k));
    law_worklist_invariant(body, k);
}

proof fn lemma_visit_deps_keeps_names(body: Seq<JsStmt>, st: ExtractionView, deps: Seq<Seq<char>>, n: int)
    ensures
        visit_deps_upto(body, st, deps, n) matches Some(s) ==> typenames(st.messages).subset_of(typenames(s.messages)),
    decreases n,
{
    if n > 0 {
        lemma_visit_deps_keeps_names(body, st, deps, n - 1);
        if let Some(prev) = visit_deps_upto(body, st, deps, n - 1) {
            let dep = deps[n - 1];
            if !prev.visited.contains(dep) && alias_ok(body, dep) {
                if let Some((c, tname)) = class_target(body, dep) {
                    let runtime = or_name(tname, dep);
                    let tn = or_name(type_name_of(c), dep);
                    let mapping = upsert(prev.mapping, runtime, tn);
                    if let Some(m) = message_for(body, runtime, tn, mapping) {
                        law_upsert_message(prev.messages, m);
                    }
                }
            }
        }
    }
}

/// The worklist never drops a message: every type name in the table after
/// the packet tables is still there after any number of rounds.
pub proof fn law_messages_kept(body: Seq<JsStmt>, k: nat)
    ensures
        initial_state(body) matches Some(s0) ==> (worklist_after(body, k) matches Some(sk) ==> typenames(
            s0.messages,
        ).subset_of(typenames(sk.messages))),
    decreases k,
{
    if k > 0 {
        law_messages_kept(body, (k - 1) as nat);
        if let Some(st) = worklist_after(body, (k - 1) as nat) {
            if st.queue.len() > 0 {
                let p = popped(st);
                if let Some(fc) = fields_call(body, st.queue.last()) {
                    let deps = deps_of(fc, p.mapping, p.visited);
                    lemma_visit_deps_keeps_names(body, p, deps, deps.len() as int);
                }
            }
        }
    }
}

/// Every message that the packet tables register is among the extracted
/// messages (by type name).
pub proof fn law_registered_messages_extracted(body: Seq<JsStmt>)
    ensures
        initial_state(body) matches Some(s0) ==> (extracted(body) matches Some(b) ==> typenames(
            s0.messages,
        ).subset_of(typenames(b.messages))),
{
    let k = choose|k: nat| #[trigger] settled(worklist_after(body, k));
    law_messages_kept(body, k);
}

proof fn lemma_register_resolves(body: Seq<JsStmt>, st: ExtractionView, pairs: Seq<(Seq<char>, Seq<char>)>, n: int)
    requires
        aliases_resolve(body),
    ensures
        register_upto(body, st, pairs, n) is Some,
    decreases n,
{
    if n > 0 {
        lemma_register_resolves(body, st, pairs, n - 1);
        assert(alias_ok(body, pairs[n - 1].1));
    }
}

proof fn lemma_visit_deps_resolve(body: Seq<JsStmt>, st: ExtractionView, deps: Seq<Seq<char>>, n: int)
    requires
        aliases_resolve(body),
    ensures
        visit_deps_upto(body, st, deps, n) is Some,
    decreases n,
{
    if n > 0 {
        lemma_visit_deps_resolve(body, st, deps, n - 1);
        assert(alias_ok(body, deps[n - 1]));
    }
}

proof fn lemma_worklist_resolves(body: Seq<JsStmt>, k: nat)
    requires
        aliases_resolve(body),
    ensures
        worklist_after(body, k) is Some,
    decreases k,
{
    if k == 0 {
        let maps = packet_maps_of(body);
        lemma_register_resolves(body, empty_state(), maps.c, maps.c.len() as int);
        let s1 = register_all(body, empty_state(), maps.c).unwrap();
        lemma_register_resolves(body, s1, maps.s, maps.s.len() as int);
        let s2 = register_all(body, s1, maps.s).unwrap();
        lemma_register_resolves(body, s2, maps.appended, maps.appended.len() as int);
    } else {
        lemma_worklist_resolves(body, (k - 1) as nat);
        let st = worklist_after(body, (k - 1) as nat).unwrap();
        if st.queue.len() > 0 {
            let p = popped(st);
            if let Some(fc) = fields_call(body, st.queue.last()) {
                let deps = deps_of(fc, p.mapping, p.visited);
                lemma_visit_deps_resolve(body, p, deps, deps.len() as int);
            }
        }
    }
}

/// The extraction fails only for a module with a chain of aliases that runs
/// in a circle: where every chain ends, it yields a bundle.
pub proof fn law_extraction_succeeds(body: Seq<JsStmt>)
    requires
        aliases_resolve(body),
    ensures
        extracted(body) is Some,
{
    let k = choose|k: nat| #[trigger] settled(worklist_after(body, k));
    lemma_worklist_resolves(body, k);
}

/// `n` is the class name of an entry of one of the pairs.
pub open spec fn names_entry(pairs: Seq<(Seq<char>, Seq<char>)>, n: Seq<char>) -> bool {
    exists|i: int| 0 <= i < pairs.len() && #[trigger] pairs[i].1 == n
}

/// `n` is a class name that a packet table of the module lists.
pub open spec fn table_entry(body: Seq<JsStmt>, n: Seq<char>) -> bool {
    let maps = packet_maps_of(body);
    names_entry(maps.c, n) || names_entry(maps.s, n) || names_entry(maps.appended, n)
}

/// `n` is among the dependencies that round `k` of the worklist visits: the
/// state before the round has a queued name whose class has a field list,
/// and `n` is a dependency of that field list.
pub open spec fn round_dependency(body: Seq<JsStmt>, k: nat, n: Seq<char>) -> bool {
    match worklist_after(body, k) {
        Some(st) => st.queue.len() > 0 && match fields_call(body, st.queue.last()) {
            Some(fc) => deps_of(fc, popped(st).mapping, popped(st).visited).contains(n),
            None => false,
        },
        None => false,
    }
}

/// A name that the extraction follows: an entry of a packet table, or a
/// dependency visited by some round of the worklist.
pub open spec fn followed(body: Seq<JsStmt>, n: Seq<char>) -> bool {
    table_entry(body, n) || exists|k: nat| #[trigger] round_dependency(body, k, n)
}

proof fn lemma_register_none_witness(body: Seq<JsStmt>, st: ExtractionView, pairs: Seq<(Seq<char>, Seq<char>)>, n: int)
    requires
        register_upto(body, st, pairs, n) is None,
        n <= pairs.len(),
    ensures
        exists|i: int| 0 <= i < pairs.len() && !alias_ok(body, #[trigger] pairs[i].1),
    decreases n,
{
    if n > 0 {
        if register_upto(body, st, pairs, n - 1) is None {
            lemma_register_none_witness(body, st, pairs, n - 1);
        } else {
            assert(!alias_ok(body, pairs[n - 1].1));
        }
    }
}

proof fn lemma_visit_deps_none_witness(body: Seq<JsStmt>, st: ExtractionView, deps: Seq<Seq<char>>, n: int)
    requires
        visit_deps_upto(body, st, deps, n) is None,
        n <= deps.len(),
    ensures
        exists|j: int| 0 <= j < deps.len() && !alias_ok(body, #[trigger] deps[j]),
    decreases n,
{
    if n > 0 {
        if visit_deps_upto(body, st, deps, n - 1) is None {
            lemma_visit_deps_none_witness(body, st, deps, n - 1);
        } else {
            assert(!alias_ok(body, deps[n - 1]));
        }
    }
}

proof fn lemma_table_none_witness(body: Seq<JsStmt>)
    requires
        initial_state(body) is None,
    ensures
        exists|n: Seq<char>| table_entry(body, n) && !alias_ok(body, n),
{
    let maps = packet_maps_of(body);
    let pairs = if register_all(body, empty_state(), maps.c) is None {
        lemma_register_none_witness(body, empty_state(), maps.c, maps.c.len() as int);
        maps.c
    } else {
        let s1 = register_all(body, empty_state(), maps.c).unwrap();
        if register_all(body, s1, maps.s) is None {
            lemma_register_none_witness(body, s1, maps.s, maps.s.len() as int);
            maps.s
        } else {
            let s2 = register_all(body, s1, maps.s).unwrap();
            lemma_register_none_witness(body, s2, maps.appended, maps.appended.len() as int);
            maps.appended
        }
    };
    let i = choose|i: int| 0 <= i < pairs.len() && !alias_ok(body, #[trigger] pairs[i].1);
    let n = pairs[i].1;
    assert(names_entry(pairs, n));
    assert(table_entry(body, n));
}

proof fn lemma_worklist_none_witness(body: Seq<JsStmt>, k: nat)
    requires
        worklist_after(body, k) is None,
    ensures
        exists|n: Seq<char>| followed(body, n) && !alias_ok(body, n),
    decreases k,
{
    if k == 0 {
        lemma_table_none_witness(body);
    } else if worklist_after(body, (k - 1) as nat) is None {
        lemma_worklist_none_witness(body, (k - 1) as nat);
    } else {
        let st = worklist_after(body, (k - 1) as nat).unwrap();
        let p = popped(st);
        let fc = fields_call(body, st.queue.last()).unwrap();
        let deps = deps_of(fc, p.mapping, p.visited);
        lemma_visit_deps_none_witness(body, p, deps, deps.len() as int);
        let j = choose|j: int| 0 <= j < deps.len() && !alias_ok(body, #[trigger] deps[j]);
        let n = deps[j];
        assert(deps.contains(n));
        assert(round_dependency(body, (k - 1) as nat, n));
        assert(followed(body, n));
    }
}

/// The extraction fails only where it follows a chain of aliases that runs
/// in a circle: when it yields nothing, some name that it follows (a packet
/// table entry, or a dependency visited by a round of the worklist) has a
/// first declarator whose initializer starts a chain that never ends.
pub proof fn law_failure_follows_circular_chain(body: Seq<JsStmt>)
    ensures
        extracted(body) is None ==> exists|n: Seq<char>| followed(body, n) && !alias_ok(body, n),
{
    let k = choose|k: nat| #[trigger] settled(worklist_after(body, k));
    if extracted(body) is None {
        lemma_worklist_none_witness(body, k);
    }
}

/// Registering a packet-table entry `key: prop` whose name leads to a class
/// enters the class's runtime name (the name its alias chain assigns it to,
/// or else `prop`) into the name table, mapped to its type name (the one it
/// declares, or else `key`).
pub proof fn law_registration_maps_runtime(body: Seq<JsStmt>, st: ExtractionView, key: Seq<char>, prop: Seq<char>)
    ensures
        register_pair(body, st, key, prop) matches Some(st2) ==> (class_target(body, prop) matches Some(
            (c, tname),
        ) ==> lookup(st2.mapping, or_name(tname, prop)) == Some(or_name(type_name_of(c), key))),
{
    if let Some((c, tname)) = class_target(body, prop) {
        law_lookup_after_upsert(st.mapping, or_name(tname, prop), or_name(type_name_of(c), key), prop);
    }
}

/// Visiting a dependency `dep` that is not visited yet and leads to a class
/// enters the class's runtime name into the name table, mapped to its type
/// name (the one it declares, or else `dep`).
pub proof fn law_visit_maps_runtime(body: Seq<JsStmt>, st: ExtractionView, dep: Seq<char>)
    ensures
        visit_dep(body, st, dep) matches Some(st2) ==> (!st.visited.contains(dep) ==> (class_target(body, dep) matches Some(
            (c, tname),
        ) ==> lookup(st2.mapping, or_name(tname, dep)) == Some(or_name(type_name_of(c), dep)))),
{
    if let Some((c, tname)) = class_target(body, dep) {
        law_lookup_after_upsert(st.mapping, or_name(tname, dep), or_name(type_name_of(c), dep), dep);
    }
}

/// After a packet-table entry is registered, a `message` field whose `T` is
/// the identifier of the registered class's runtime name reports the class's
/// type name.
pub proof fn law_registered_runtime_renames_fields(
    body: Seq<JsStmt>,
    st: ExtractionView,
    key: Seq<char>,
    prop: Seq<char>,
    e: JsElem,
    id: String,
)
    requires
        register_pair(body, st, key, prop) is Some,
        class_target(body, prop) matches Some((c, tname)) && id@ == or_name(tname, prop),
        elem_object(e) matches Some(props) && ((obj_prop(props, "no"@) is Some && obj_prop(props, "no"@).unwrap() is Num) && obj_prop(props, "name"@) is Some
            && (obj_prop(props, "kind"@) matches Some(kv) && string_value(kv) == Some("message"@))
            && obj_prop(props, "T"@) == Some(JsExpr::Ident(id))),
    ensures
        ({
            let (c, tname) = class_target(body, prop).unwrap();
            field_of(e, register_pair(body, st, key, prop).unwrap().mapping) matches Some(f) && f.t == Some(
                or_name(type_name_of(c), key),
            )
        }),
{
    law_registration_maps_runtime(body, st, key, prop);
    reveal_strlit("message");
    reveal_strlit("scalar");
    reveal_strlit("enum");
    assert("message"@.len() != "scalar"@.len() && "message"@.len() != "enum"@.len());
    assert(field_type_name("message"@, JsExpr::Ident(id)) == id@);
}

} // verus!
