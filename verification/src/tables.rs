//! Small keyed tables kept as vectors: a name table (name to name), the
//! message table (keyed by type name), the enum table (keyed by enum name),
//! and lists of names. Inserting under a key that is present replaces its
//! entry in place; a new key goes to the end.
use vstd::prelude::*;
use crate::seqs::{first_some, first_some_from};
use crate::text::str_eq;
use crate::types::{
    groups_view, messages_view, EnumGroupView, MappedEnumGroup, MappedMessage, MessageView,
};
use crate::util::pairs_view;

verus! {

/// The value of an entry under key `k`.
pub open spec fn entry_value(p: (Seq<char>, Seq<char>), k: Seq<char>) -> Option<Seq<char>> {
    if p.0 == k {
        Some(p.1)
    } else {
        None
    }
}

/// The value of the first entry of `m` under key `k`.
pub open spec fn lookup(m: Seq<(Seq<char>, Seq<char>)>, k: Seq<char>) -> Option<Seq<char>> {
    first_some(m, |p: (Seq<char>, Seq<char>)| entry_value(p, k))
}

/// The position of the first entry of `m` under key `k`, from position `i` on.
pub open spec fn key_index_from(m: Seq<(Seq<char>, Seq<char>)>, k: Seq<char>, i: int) -> Option<int>
    decreases m.len() - i,
{
    if i < 0 || i >= m.len() {
        None
    } else if m[i].0 == k {
        Some(i)
    } else {
        key_index_from(m, k, i + 1)
    }
}

/// `m` with `k` mapped to `v`: the entry under `k` replaced, or a new entry
/// at the end.
pub open spec fn upsert(m: Seq<(Seq<char>, Seq<char>)>, k: Seq<char>, v: Seq<char>) -> Seq<(Seq<char>, Seq<char>)> {
    match key_index_from(m, k, 0) {
        Some(i) => m.update(i, (k, v)),
        None => m.push((k, v)),
    }
}

pub fn lookup_name<'a>(m: &'a Vec<(String, String)>, k: &str) -> (r: Option<&'a String>)
    ensures
        match r {
            Some(v) => lookup(pairs_view(m@), k@) == Some(v@),
            None => lookup(pairs_view(m@), k@) is None,
        },
{
    let mut i: usize = 0;
    while i < m.len()
        invariant
            i <= m.len(),
            lookup(pairs_view(m@), k@) == first_some_from(
                pairs_view(m@),
                |p: (Seq<char>, Seq<char>)| entry_value(p, k@),
                i as int,
            ),
        decreases m.len() - i,
    {
        if str_eq(m[i].0.as_str(), k) {
            return Some(&m[i].1);
        }
        i += 1;
    }
    None
}

/// The value under `k`, or `raw` itself when `k` has none.
pub open spec fn mapped_name(m: Seq<(Seq<char>, Seq<char>)>, raw: Seq<char>) -> Seq<char> {
    match lookup(m, raw) {
        Some(v) => v,
        None => raw,
    }
}

pub fn map_name(m: &Vec<(String, String)>, raw: String) -> (r: String)
    ensures
        r@ == mapped_name(pairs_view(m@), raw@),
{
    match lookup_name(m, raw.as_str()) {
        Some(v) => v.clone(),
        None => raw,
    }
}

pub fn upsert_name(m: &mut Vec<(String, String)>, k: String, v: String)
    ensures
        pairs_view(final(m)@) == upsert(pairs_view(old(m)@), k@, v@),
{
    let mut i: usize = 0;
    while i < m.len()
        invariant
            i <= m.len(),
            m@ == old(m)@,
            key_index_from(pairs_view(m@), k@, 0) == key_index_from(pairs_view(m@), k@, i as int),
        decreases m.len() - i,
    {
        if str_eq(m[i].0.as_str(), k.as_str()) {
            let ghost kv = k@;
            let ghost vv = v@;
            m.set(i, (k, v));
            assert(pairs_view(m@) =~= pairs_view(old(m)@).update(i as int, (kv, vv)));
            return;
        }
        i += 1;
    }
    let ghost kv = k@;
    let ghost vv = v@;
    m.push((k, v));
    assert(pairs_view(m@) =~= pairs_view(old(m)@).push((kv, vv)));
}

/// The position of the first message named `tn`, from position `i` on.
pub open spec fn message_index_from(ms: Seq<MessageView>, tn: Seq<char>, i: int) -> Option<int>
    decreases ms.len() - i,
{
    if i < 0 || i >= ms.len() {
        None
    } else if ms[i].typename == tn {
        Some(i)
    } else {
        message_index_from(ms, tn, i + 1)
    }
}

/// `ms` with message `m` stored under its type name.
pub open spec fn upsert_message(ms: Seq<MessageView>, m: MessageView) -> Seq<MessageView> {
    match message_index_from(ms, m.typename, 0) {
        Some(i) => ms.update(i, m),
        None => ms.push(m),
    }
}

pub fn upsert_message_exec(ms: &mut Vec<MappedMessage>, m: MappedMessage)
    ensures
        messages_view(final(ms)@) == upsert_message(messages_view(old(ms)@), m@),
{
    let mut i: usize = 0;
    while i < ms.len()
        invariant
            i <= ms.len(),
            ms@ == old(ms)@,
            message_index_from(messages_view(ms@), m@.typename, 0) == message_index_from(
                messages_view(ms@),
                m@.typename,
                i as int,
            ),
        decreases ms.len() - i,
    {
        if ms[i].typename == m.typename {
            let ghost mv = m@;
            ms.set(i, m);
            assert(messages_view(ms@) =~= messages_view(old(ms)@).update(i as int, mv));
            return;
        }
        i += 1;
    }
    let ghost mv = m@;
    ms.push(m);
    assert(messages_view(ms@) =~= messages_view(old(ms)@).push(mv));
}

/// The position of the first enum named `name`, from position `i` on.
pub open spec fn group_index_from(gs: Seq<EnumGroupView>, name: Seq<char>, i: int) -> Option<int>
    decreases gs.len() - i,
{
    if i < 0 || i >= gs.len() {
        None
    } else if gs[i].name == name {
        Some(i)
    } else {
        group_index_from(gs, name, i + 1)
    }
}

/// `gs` with enum `g` stored under its name.
pub open spec fn upsert_group(gs: Seq<EnumGroupView>, g: EnumGroupView) -> Seq<EnumGroupView> {
    match group_index_from(gs, g.name, 0) {
        Some(i) => gs.update(i, g),
        None => gs.push(g),
    }
}

pub fn upsert_group_exec(gs: &mut Vec<MappedEnumGroup>, g: MappedEnumGroup)
    ensures
        groups_view(final(gs)@) == upsert_group(groups_view(old(gs)@), g@),
{
    let mut i: usize = 0;
    while i < gs.len()
        invariant
            i <= gs.len(),
            gs@ == old(gs)@,
            group_index_from(groups_view(gs@), g@.name, 0) == group_index_from(
                groups_view(gs@),
                g@.name,
                i as int,
            ),
        decreases gs.len() - i,
    {
        if gs[i].name == g.name {
            let ghost gv = g@;
            gs.set(i, g);
            assert(groups_view(gs@) =~= groups_view(old(gs)@).update(i as int, gv));
            return;
        }
        i += 1;
    }
    let ghost gv = g@;
    gs.push(g);
    assert(groups_view(gs@) =~= groups_view(old(gs)@).push(gv));
}

pub open spec fn names_view(v: Seq<String>) -> Seq<Seq<char>> {
    v.map_values(|s: String| s@)
}

pub fn contains_name(v: &Vec<String>, s: &str) -> (r: bool)
    ensures
        r == names_view(v@).contains(s@),
{
    let mut i: usize = 0;
    while i < v.len()
        invariant
            i <= v.len(),
            forall|j: int| 0 <= j < i ==> names_view(v@)[j] != s@,
        decreases v.len() - i,
    {
        if str_eq(v[i].as_str(), s) {
            assert(names_view(v@)[i as int] == s@);
            return true;
        }
        i += 1;
    }
    false
}

proof fn lemma_lookup_from_upsert_index(
    m: Seq<(Seq<char>, Seq<char>)>,
    k: Seq<char>,
    v: Seq<char>,
    i: int,
    k2: Seq<char>,
    j: int,
)
    requires
        0 <= j <= i < m.len(),
        m[i].0 == k,
        forall|x: int| j <= x < i ==> m[x].0 != k,
    ensures
        first_some_from(
            m.update(i, (k, v)),
            |p: (Seq<char>, Seq<char>)| entry_value(p, k2),
            j,
        ) == if k2 == k {
            Some(v)
        } else {
            first_some_from(m, |p: (Seq<char>, Seq<char>)| entry_value(p, k2), j)
        },
    decreases m.len() - j,
{
    if j < i {
        lemma_lookup_from_upsert_index(m, k, v, i, k2, j + 1);
    } else if k2 != k && j + 1 <= m.len() {
        lemma_lookup_from_same_beyond(m, m.update(i, (k, v)), k2, j + 1);
    }
}

proof fn lemma_lookup_from_same_beyond(
    m: Seq<(Seq<char>, Seq<char>)>,
    m2: Seq<(Seq<char>, Seq<char>)>,
    k2: Seq<char>,
    j: int,
)
    requires
        0 <= j <= m.len(),
        m2.len() == m.len(),
        forall|x: int| j <= x < m.len() ==> m2[x] == m[x],
    ensures
        first_some_from(m2, |p: (Seq<char>, Seq<char>)| entry_value(p, k2), j)
            == first_some_from(m, |p: (Seq<char>, Seq<char>)| entry_value(p, k2), j),
    decreases m.len() - j,
{
    if j < m.len() {
        lemma_lookup_from_same_beyond(m, m2, k2, j + 1);
    }
}

proof fn lemma_lookup_from_push(m: Seq<(Seq<char>, Seq<char>)>, k: Seq<char>, v: Seq<char>, k2: Seq<char>, j: int)
    requires
        0 <= j <= m.len(),
        forall|x: int| j <= x < m.len() ==> m[x].0 != k,
    ensures
        first_some_from(
            m.push((k, v)),
            |p: (Seq<char>, Seq<char>)| entry_value(p, k2),
            j,
        ) == if k2 == k {
            Some(v)
        } else {
            first_some_from(m, |p: (Seq<char>, Seq<char>)| entry_value(p, k2), j)
        },
    decreases m.len() - j,
{
    let f = |p: (Seq<char>, Seq<char>)| entry_value(p, k2);
    let m2 = m.push((k, v));
    if j < m.len() {
        lemma_lookup_from_push(m, k, v, k2, j + 1);
        assert(m2[j] == m[j]);
    } else {
        assert(m2[j] == (k, v));
        assert(first_some_from(m2, f, j + 1) is None);
        assert(first_some_from(m, f, j) is None);
    }
}

proof fn lemma_key_index_from(m: Seq<(Seq<char>, Seq<char>)>, k: Seq<char>, j: int)
    requires
        0 <= j <= m.len(),
    ensures
        match key_index_from(m, k, j) {
            Some(i) => j <= i < m.len() && m[i].0 == k && forall|x: int| j <= x < i ==> m[x].0 != k,
            None => forall|x: int| j <= x < m.len() ==> m[x].0 != k,
        },
    decreases m.len() - j,
{
    if j < m.len() {
        lemma_key_index_from(m, k, j + 1);
    }
}

/// Reading a name table after writing `k ↦ v` gives `v` for `k`, and what the
/// table held before for every other key.
pub proof fn law_lookup_after_upsert(m: Seq<(Seq<char>, Seq<char>)>, k: Seq<char>, v: Seq<char>, k2: Seq<char>)
    ensures
        lookup(upsert(m, k, v), k) == Some(v),
        k2 != k ==> lookup(upsert(m, k, v), k2) == lookup(m, k2),
{
    lemma_key_index_from(m, k, 0);
    match key_index_from(m, k, 0) {
        Some(i) => {
            assert(upsert(m, k, v) == m.update(i, (k, v)));
            lemma_lookup_from_upsert_index(m, k, v, i, k, 0);
            lemma_lookup_from_upsert_index(m, k, v, i, k2, 0);
        },
        None => {
            assert(upsert(m, k, v) == m.push((k, v)));
            lemma_lookup_from_push(m, k, v, k, 0);
            lemma_lookup_from_push(m, k, v, k2, 0);
        },
    }
}

/// No two messages of the table share a type name.
pub open spec fn distinct_typenames(ms: Seq<MessageView>) -> bool {
    forall|i: int, j: int| 0 <= i < j < ms.len() ==> ms[i].typename != ms[j].typename
}

/// The type names of the messages of the table.
pub open spec fn typenames(ms: Seq<MessageView>) -> Set<Seq<char>> {
    ms.map_values(|m: MessageView| m.typename).to_set()
}

proof fn lemma_message_index_from(ms: Seq<MessageView>, tn: Seq<char>, j: int)
    requires
        0 <= j <= ms.len(),
    ensures
        match message_index_from(ms, tn, j) {
            Some(i) => j <= i < ms.len() && ms[i].typename == tn,
            None => forall|x: int| j <= x < ms.len() ==> ms[x].typename != tn,
        },
    decreases ms.len() - j,
{
    if j < ms.len() {
        lemma_message_index_from(ms, tn, j + 1);
    }
}

/// Storing a message keeps the type names of the table distinct, adds the
/// message's type name to them and takes none away, and leaves the message
/// in the table.
pub proof fn law_upsert_message(ms: Seq<MessageView>, m: MessageView)
    ensures
        distinct_typenames(ms) ==> distinct_typenames(upsert_message(ms, m)),
        typenames(upsert_message(ms, m)) == typenames(ms).insert(m.typename),
        upsert_message(ms, m).contains(m),
        forall|x: MessageView| #[trigger] upsert_message(ms, m).contains(x) ==> x == m || ms.contains(x),
{
    lemma_message_index_from(ms, m.typename, 0);
    let r = upsert_message(ms, m);
    let names = ms.map_values(|x: MessageView| x.typename);
    let rnames = r.map_values(|x: MessageView| x.typename);
    match message_index_from(ms, m.typename, 0) {
        Some(i) => {
            assert(rnames =~= names);
            assert(names[i] == m.typename);
            assert(typenames(ms).contains(m.typename));
            assert(typenames(r) =~= typenames(ms).insert(m.typename));
            assert(r[i] == m);
            assert forall|x: MessageView| #[trigger] r.contains(x) implies x == m || ms.contains(x) by {
                let j = choose|j: int| 0 <= j < r.len() && r[j] == x;
                if j != i {
                    assert(ms[j] == x);
                }
            }
        },
        None => {
            assert(rnames =~= names.push(m.typename));
            names.lemma_push_to_set_commute(m.typename);
            assert(r[ms.len() as int] == m);
            assert forall|x: MessageView| #[trigger] r.contains(x) implies x == m || ms.contains(x) by {
                let j = choose|j: int| 0 <= j < r.len() && r[j] == x;
                if j < ms.len() {
                    assert(ms[j] == x);
                }
            }
        },
    }
}

/// No two enums of the table share a name.
pub open spec fn distinct_group_names(gs: Seq<EnumGroupView>) -> bool {
    forall|i: int, j: int| 0 <= i < j < gs.len() ==> gs[i].name != gs[j].name
}

proof fn lemma_group_index_from(gs: Seq<EnumGroupView>, name: Seq<char>, j: int)
    requires
        0 <= j <= gs.len(),
    ensures
        match group_index_from(gs, name, j) {
            Some(i) => j <= i < gs.len() && gs[i].name == name,
            None => forall|x: int| j <= x < gs.len() ==> gs[x].name != name,
        },
    decreases gs.len() - j,
{
    if j < gs.len() {
        lemma_group_index_from(gs, name, j + 1);
    }
}

/// Storing an enum keeps the names of the table distinct and leaves the enum
/// in the table.
pub proof fn law_upsert_group(gs: Seq<EnumGroupView>, g: EnumGroupView)
    ensures
        distinct_group_names(gs) ==> distinct_group_names(upsert_group(gs, g)),
        upsert_group(gs, g).contains(g),
{
    lemma_group_index_from(gs, g.name, 0);
    match group_index_from(gs, g.name, 0) {
        Some(i) => {
            assert(upsert_group(gs, g)[i] == g);
        },
        None => {
            assert(upsert_group(gs, g)[gs.len() as int] == g);
        },
    }
}

} // verus!
