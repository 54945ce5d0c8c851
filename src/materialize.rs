use vstd::prelude::*;
use vstd::string::*;

use crate::refs::{intern, intern_opt, RefTable, Variables};
use crate::stacks::FrameData;
use crate::text::{
    concat3, decimal, decimal_string, index_label, index_name, lower_of, lowercase, quoted,
    quoted_of, seq_le, str_le,
};
use crate::types::{views, VarView, Variable};
use crate::values::{Arg, Field, ListEntry, Local, ValueInfo, TAG_NULL};

verus! {

/// Whether a value is shown as an object: it has fields, or it is the world singleton.
pub open spec fn is_object(v: ValueInfo) -> bool {
    v.raw.is_globals() || v.has_vars
}

/// The set of children a value can be expanded into.
pub open spec fn child_kind(v: ValueInfo) -> Option<Variables> {
    if v.list_len is Some {
        Some(Variables::ListContents { tag: v.raw.tag, data: v.raw.data })
    } else if is_object(v) {
        Some(Variables::ObjectVars { tag: v.raw.tag, data: v.raw.data })
    } else {
        None
    }
}

/// The text a value is displayed with.
pub open spec fn display_text(v: ValueInfo) -> Seq<char> {
    match v.list_len {
        Some(Ok(n)) => "/list {len = "@ + decimal(n as nat) + "}"@,
        Some(Err(m)) => "/list (failed to get len: "@ + quoted_of(m@) + ")"@,
        None => match v.text {
            Ok(t) => if t@.len() == 0 { v.raw_text@ } else { t@ },
            Err(m) => v.raw_text@ + " -- stringify error: "@ + quoted_of(m@),
        },
    }
}

/// Rendering one named value: the handle table after, and the variable.
pub open spec fn render(kinds: Seq<Variables>, name: Seq<char>, v: ValueInfo) -> (Seq<Variables>, VarView) {
    let (k, r) = intern_opt(kinds, child_kind(v));
    (k, VarView { name: name, value: display_text(v), variables: r })
}

/// Rendering named values in order.
pub open spec fn render_seq(kinds: Seq<Variables>, items: Seq<(Seq<char>, ValueInfo)>) -> (Seq<Variables>, Seq<VarView>)
    decreases items.len(),
{
    if items.len() == 0 {
        (kinds, Seq::empty())
    } else {
        let (k, vs) = render_seq(kinds, items.drop_last());
        let (k2, v) = render(k, items.last().0, items.last().1);
        (k2, vs.push(v))
    }
}

/// Converts a value into a displayed variable, with a handle for its children if it has any.
pub fn value_to_variable(table: &mut RefTable, name: String, value: &ValueInfo) -> (r: Variable)
    requires
        old(table).wf(),
    ensures
        final(table).wf(),
        (final(table).kinds(), r@) == render(old(table).kinds(), name@, *value),
{
    match &value.list_len {
        Some(len) => {
            let variables = table.get_ref(Variables::ListContents { tag: value.raw.tag, data: value.raw.data });
            let text = match len {
                Ok(n) => {
                    let d = decimal_string(*n as u64);
                    concat3("/list {len = ", d.as_str(), "}")
                },
                Err(m) => {
                    let q = quoted(m.as_str());
                    concat3("/list (failed to get len: ", q.as_str(), ")")
                },
            };
            return Variable { name, value: text, variables };
        },
        None => {},
    }
    let variables = if value.has_vars || (value.raw.tag == crate::values::TAG_WORLD
        && value.raw.data == crate::values::WORLD_ID) {
        table.get_ref(Variables::ObjectVars { tag: value.raw.tag, data: value.raw.data })
    } else {
        None
    };
    let text = match &value.text {
        Ok(t) => if t.as_str().unicode_len() == 0 {
            value.raw_text.clone()
        } else {
            t.clone()
        },
        Err(m) => {
            let q = quoted(m.as_str());
            concat3(value.raw_text.as_str(), " -- stringify error: ", q.as_str())
        },
    };
    Variable { name, value: text, variables }
}

/// Renders a sequence of named values in order.
fn render_all(table: &mut RefTable, out: &mut Vec<Variable>, items: Vec<(String, &ValueInfo)>)
    requires
        old(table).wf(),
    ensures
        final(table).wf(),
        ({
            let (k, vs) = render_seq(old(table).kinds(), items@.map_values(|p: (String, &ValueInfo)| (p.0@, *p.1)));
            final(table).kinds() == k && views(final(out)@) == views(old(out)@) + vs
        }),
{
    let ghost k0 = table.kinds();
    let ghost out0 = views(out@);
    let ghost all = items@.map_values(|p: (String, &ValueInfo)| (p.0@, *p.1));
    let n = items.len();
    let mut i: usize = 0;
    let mut items = items;
    let ghost items0 = items@;
    assert(all.take(0) =~= Seq::<(Seq<char>, ValueInfo)>::empty());
    assert(views(out@) =~= out0 + Seq::<VarView>::empty());
    while i < n
        invariant
            n == items0.len(),
            i <= n,
            all == items0.map_values(|p: (String, &ValueInfo)| (p.0@, *p.1)),
            items@ == items0.skip(i as int),
            table.wf(),
            ({
                let (k, vs) = render_seq(k0, all.take(i as int));
                table.kinds() == k && views(out@) == out0 + vs
            }),
        decreases n - i,
    {
        assert(items@[0] == items0[i as int]);
        let (name, value) = items.remove(0);
        assert(items@ =~= items0.skip(i + 1));
        assert(all.take(i + 1).drop_last() =~= all.take(i as int));
        let ghost before = views(out@);
        let v = value_to_variable(table, name, value);
        out.push(v);
        assert(views(out@) =~= before.push(v@));
        i = i + 1;
    }
    assert(all.take(n as int) =~= all);
}

/// The number of unnamed arguments among the first `n`.
pub open spec fn unnamed_upto(args: Seq<Arg>, n: int) -> nat
    decreases n,
{
    if n <= 0 || n > args.len() {
        0
    } else {
        unnamed_upto(args, n - 1) + if args[n - 1].name is None { 1nat } else { 0nat }
    }
}

/// The label of argument `i`: its name, or `undefined argument #k` for the `k`-th unnamed one.
pub open spec fn arg_name(args: Seq<Arg>, i: int) -> Seq<char> {
    match args[i].name {
        Some(n) => n@,
        None => "undefined argument #"@ + decimal(unnamed_upto(args, i + 1)),
    }
}

/// The values shown as a frame's arguments: `src`, `usr`, then the call's arguments.
pub open spec fn arg_items(f: FrameData) -> Seq<(Seq<char>, ValueInfo)> {
    seq![("src"@, f.src), ("usr"@, f.usr)] + f.args@.map(|i: int, a: Arg| (arg_name(f.args@, i), a.value))
}

/// The values shown as a frame's locals: `.`, then the named locals in order.
pub open spec fn local_items(f: FrameData) -> Seq<(Seq<char>, ValueInfo)> {
    seq![("."@, f.dot)] + f.locals@.map_values(|l: Local| (l.name@, l.value))
}

/// The values shown as a frame's evaluation stack, named by position from `[0]`.
pub open spec fn stack_items(f: FrameData) -> Seq<(Seq<char>, ValueInfo)> {
    f.stack@.map(|i: int, v: ValueInfo| (index_name(i as nat), v))
}

/// The arguments view of frame `frame` (whose data is `f`).
pub open spec fn args_view(kinds: Seq<Variables>, f: FrameData, frame: u32, show_internals: bool) -> (Seq<Variables>, Seq<VarView>) {
    let (k, vs) = render_seq(kinds, arg_items(f));
    if show_internals {
        let (k2, r) = intern(k, Variables::Internals { frame });
        (k2, vs.push(VarView { name: "BYOND Internals"@, value: ""@, variables: r }))
    } else {
        (k, vs)
    }
}

/// The internals view of frame `frame`: its raw stack, then its cache value.
pub open spec fn internals_view(kinds: Seq<Variables>, f: FrameData, frame: u32) -> (Seq<Variables>, Seq<VarView>) {
    let (k, r) = intern(kinds, Variables::Stack { frame });
    let (k2, c) = render(k, "Cache"@, f.cache);
    (k2, seq![VarView { name: "Stack"@, value: ""@, variables: r }, c])
}

/// The variables shown for a frame's arguments.
pub fn get_args(table: &mut RefTable, f: &FrameData, frame: u32, show_internals: bool) -> (r: Vec<Variable>)
    requires
        old(table).wf(),
    ensures
        final(table).wf(),
        (final(table).kinds(), views(r@)) == args_view(old(table).kinds(), *f, frame, show_internals),
{
    let ghost all = arg_items(*f);
    let mut items: Vec<(String, &ValueInfo)> = Vec::new();
    items.push((String::from_str("src"), &f.src));
    items.push((String::from_str("usr"), &f.usr));
    let mut unnamed: u64 = 0;
    let n = f.args.len();
    let mut i: usize = 0;
    while i < n
        invariant
            n == f.args@.len(),
            all == arg_items(*f),
            i <= n,
            unnamed == unnamed_upto(f.args@, i as int),
            unnamed <= i,
            items@.map_values(|p: (String, &ValueInfo)| (p.0@, *p.1)) =~= all.take(i + 2),
        decreases n - i,
    {
        let a = &f.args[i];
        let name = match &a.name {
            Some(s) => s.clone(),
            None => {
                unnamed = unnamed + 1;
                let d = decimal_string(unnamed);
                concat3("undefined argument #", d.as_str(), "")
            },
        };
        proof {
            reveal_strlit("");
            assert(unnamed_upto(f.args@, i + 1) == unnamed);
            assert(name@ =~= arg_name(f.args@, i as int));
            assert(all[i + 2] == (name@, a.value));
        }
        items.push((name, &a.value));
        assert(all.take(i + 3) =~= all.take(i + 2).push(all[i + 2]));
        i = i + 1;
    }
    let mut out: Vec<Variable> = Vec::new();
    render_all(table, &mut out, items);
    assert(all.take(n + 2) =~= all);
    assert(views(out@) =~= Seq::<VarView>::empty() + views(out@));
    if show_internals {
        let ghost before = views(out@);
        let variables = table.get_ref(Variables::Internals { frame });
        out.push(Variable { name: String::from_str("BYOND Internals"), value: String::from_str(""), variables });
        assert(views(out@) =~= before.push(out@.last()@));
    }
    out
}

/// The variables shown for a frame's locals.
pub fn get_locals(table: &mut RefTable, f: &FrameData) -> (r: Vec<Variable>)
    requires
        old(table).wf(),
    ensures
        final(table).wf(),
        (final(table).kinds(), views(r@)) == render_seq(old(table).kinds(), local_items(*f)),
{
    let ghost all = local_items(*f);
    let mut items: Vec<(String, &ValueInfo)> = Vec::new();
    items.push((String::from_str("."), &f.dot));
    let n = f.locals.len();
    let mut i: usize = 0;
    while i < n
        invariant
            n == f.locals@.len(),
            all == local_items(*f),
            i <= n,
            items@.map_values(|p: (String, &ValueInfo)| (p.0@, *p.1)) =~= all.take(i + 1),
        decreases n - i,
    {
        let l = &f.locals[i];
        items.push((l.name.clone(), &l.value));
        assert(all[i + 1] == (l.name@, l.value));
        assert(all.take(i + 2) =~= all.take(i + 1).push(all[i + 1]));
        i = i + 1;
    }
    let mut out: Vec<Variable> = Vec::new();
    render_all(table, &mut out, items);
    assert(all.take(n + 1) =~= all);
    assert(views(out@) =~= Seq::<VarView>::empty() + views(out@));
    out
}

/// The variables shown for a frame's raw evaluation stack.
pub fn get_vm_stack(table: &mut RefTable, f: &FrameData) -> (r: Vec<Variable>)
    requires
        old(table).wf(),
    ensures
        final(table).wf(),
        (final(table).kinds(), views(r@)) == render_seq(old(table).kinds(), stack_items(*f)),
{
    let ghost all = stack_items(*f);
    let mut items: Vec<(String, &ValueInfo)> = Vec::new();
    let n = f.stack.len();
    let mut i: usize = 0;
    while i < n
        invariant
            n == f.stack@.len(),
            all == stack_items(*f),
            i <= n,
            items@.map_values(|p: (String, &ValueInfo)| (p.0@, *p.1)) =~= all.take(i as int),
        decreases n - i,
    {
        items.push((index_label(i as u64), &f.stack[i]));
        assert(all[i as int] == (index_name(i as nat), f.stack@[i as int]));
        assert(all.take(i + 1) =~= all.take(i as int).push(all[i as int]));
        i = i + 1;
    }
    let mut out: Vec<Variable> = Vec::new();
    render_all(table, &mut out, items);
    assert(all.take(n as int) =~= all);
    assert(views(out@) =~= Seq::<VarView>::empty() + views(out@));
    out
}

/// The variables shown for a frame's VM internals.
pub fn get_internals(table: &mut RefTable, f: &FrameData, frame: u32) -> (r: Vec<Variable>)
    requires
        old(table).wf(),
    ensures
        final(table).wf(),
        (final(table).kinds(), views(r@)) == internals_view(old(table).kinds(), *f, frame),
{
    let stack_ref = table.get_ref(Variables::Stack { frame });
    let cache = value_to_variable(table, String::from_str("Cache"), &f.cache);
    let r = vec![Variable { name: String::from_str("Stack"), value: String::from_str(""), variables: stack_ref }, cache];
    assert(views(r@) =~= seq![r@[0]@, r@[1]@]);
    r
}

/// Rendering the element at 1-based position `i` of a list: an association entry
/// (one with a non-null associated value) shows `key = value` with a handle for the pair;
/// any other shows the element itself. Reading the texts of an association entry may fail.
pub open spec fn entry_view(kinds: Seq<Variables>, e: ListEntry, i: nat) -> Result<(Seq<Variables>, VarView), Seq<char>> {
    if e.assoc is Some && e.assoc.unwrap().raw.tag != TAG_NULL {
        let a = e.assoc.unwrap();
        match e.key.text {
            Err(m) => Err(m@),
            Ok(kt) => match a.text {
                Err(m) => Err(m@),
                Ok(vt) => {
                    let (k, r) = intern(kinds, Variables::ListPair {
                        key_tag: e.key.raw.tag,
                        key_data: e.key.raw.data,
                        value_tag: a.raw.tag,
                        value_data: a.raw.data,
                    });
                    Ok((k, VarView { name: index_name(i), value: kt@ + " = "@ + vt@, variables: r }))
                },
            },
        }
    } else {
        Ok(render(kinds, index_name(i), e.key))
    }
}

/// Rendering a list's elements in order, up to the first failure.
pub open spec fn list_view(kinds: Seq<Variables>, es: Seq<ListEntry>) -> (Seq<Variables>, Result<Seq<VarView>, Seq<char>>)
    decreases es.len(),
{
    if es.len() == 0 {
        (kinds, Ok(Seq::empty()))
    } else {
        let (k, r) = list_view(kinds, es.drop_last());
        match r {
            Err(m) => (k, Err(m)),
            Ok(vs) => match entry_view(k, es.last(), es.len()) {
                Err(m) => (k, Err(m)),
                Ok((k2, v)) => (k2, Ok(vs.push(v))),
            },
        }
    }
}

proof fn lemma_list_err(kinds: Seq<Variables>, es: Seq<ListEntry>, j: int)
    requires
        0 <= j <= es.len(),
        list_view(kinds, es.take(j)).1 is Err,
    ensures
        list_view(kinds, es) == list_view(kinds, es.take(j)),
    decreases es.len() - j,
{
    if j < es.len() {
        assert(es.take(j + 1).drop_last() =~= es.take(j));
        lemma_list_err(kinds, es, j + 1);
    } else {
        assert(es.take(j) =~= es);
    }
}

/// The variables shown for a list's elements, named `[1]`, `[2]`, ...
pub fn list_to_variables(table: &mut RefTable, entries: &Vec<ListEntry>) -> (r: Result<Vec<Variable>, String>)
    requires
        old(table).wf(),
    ensures
        final(table).wf(),
        final(table).kinds() == list_view(old(table).kinds(), entries@).0,
        match r {
            Ok(vs) => list_view(old(table).kinds(), entries@).1 == Ok::<Seq<VarView>, Seq<char>>(views(vs@)),
            Err(m) => list_view(old(table).kinds(), entries@).1 == Err::<Seq<VarView>, Seq<char>>(m@),
        },
{
    let ghost k0 = table.kinds();
    let mut out: Vec<Variable> = Vec::new();
    let n = entries.len();
    let mut i: usize = 0;
    assert(entries@.take(0) =~= Seq::<ListEntry>::empty());
    assert(views(out@) =~= Seq::<VarView>::empty());
    while i < n
        invariant
            n == entries@.len(),
            i <= n,
            table.wf(),
            k0 == old(table).kinds(),
            list_view(k0, entries@.take(i as int)) == (table.kinds(), Ok::<Seq<VarView>, Seq<char>>(views(out@))),
        decreases n - i,
    {
        let e = &entries[i];
        let ghost kb = table.kinds();
        let ghost before = views(out@);
        assert(entries@.take(i + 1).drop_last() =~= entries@.take(i as int));
        assert(entries@.take(i + 1).last() == *e);
        let name = index_label((i + 1) as u64);
        let assoc: Option<&ValueInfo> = match &e.assoc {
            Some(a) => if a.raw.tag != TAG_NULL { Some(a) } else { None },
            None => None,
        };
        match assoc {
            Some(a) => {
                let kt = match &e.key.text {
                    Ok(t) => t,
                    Err(m) => {
                        proof {
                            assert(entry_view(kb, *e, (i + 1) as nat) == Err::<(Seq<Variables>, VarView), Seq<char>>(m@));
                            assert(list_view(k0, entries@.take(i + 1)) == (kb, Err::<Seq<VarView>, Seq<char>>(m@)));
                            lemma_list_err(k0, entries@, i + 1);
                        }
                        return Err(m.clone());
                    },
                };
                let vt = match &a.text {
                    Ok(t) => t,
                    Err(m) => {
                        proof {
                            assert(entry_view(kb, *e, (i + 1) as nat) == Err::<(Seq<Variables>, VarView), Seq<char>>(m@));
                            assert(list_view(k0, entries@.take(i + 1)) == (kb, Err::<Seq<VarView>, Seq<char>>(m@)));
                            lemma_list_err(k0, entries@, i + 1);
                        }
                        return Err(m.clone());
                    },
                };
                let text = concat3(kt.as_str(), " = ", vt.as_str());
                let variables = table.get_ref(Variables::ListPair {
                    key_tag: e.key.raw.tag,
                    key_data: e.key.raw.data,
                    value_tag: a.raw.tag,
                    value_data: a.raw.data,
                });
                out.push(Variable { name, value: text, variables });
            },
            None => {
                let v = value_to_variable(table, name, &e.key);
                out.push(v);
            },
        }
        assert(views(out@) =~= before.push(out@.last()@));
        i = i + 1;
    }
    assert(entries@.take(n as int) =~= entries@);
    Ok(out)
}

/// A variable paired with the key it sorts by.
pub type Keyed = (VarView, Seq<char>);

/// Pairs each variable with its key.
pub open spec fn keyed(vs: Seq<VarView>, ks: Seq<Seq<char>>) -> Seq<Keyed> {
    Seq::new(vs.len(), |i: int| (vs[i], ks[i]))
}

/// The variables of keyed pairs.
pub open spec fn firsts(s: Seq<Keyed>) -> Seq<VarView> {
    s.map_values(|p: Keyed| p.0)
}

/// Inserting into a sorted sequence after every element whose key is no greater.
pub open spec fn insert_keyed(s: Seq<Keyed>, x: Keyed) -> Seq<Keyed>
    decreases s.len(),
{
    if s.len() == 0 {
        seq![x]
    } else if seq_le(s.last().1, x.1) {
        s.push(x)
    } else {
        insert_keyed(s.drop_last(), x).push(s.last())
    }
}

/// A stable sort by key.
pub open spec fn sort_keyed(s: Seq<Keyed>) -> Seq<Keyed>
    decreases s.len(),
{
    if s.len() == 0 {
        s
    } else {
        insert_keyed(sort_keyed(s.drop_last()), s.last())
    }
}

/// A stable sort by lower-case name.
pub open spec fn sort_by_lower(s: Seq<VarView>) -> Seq<VarView> {
    firsts(sort_keyed(s.map_values(|v: VarView| (v, lower_of(v.name)))))
}

/// The variables named `type`.
pub open spec fn named_type(vs: Seq<VarView>) -> Seq<VarView> {
    vs.filter(|v: VarView| v.name == "type"@)
}

/// The variables not named `type`.
pub open spec fn not_named_type(vs: Seq<VarView>) -> Seq<VarView> {
    vs.filter(|v: VarView| v.name != "type"@)
}

/// An object's fields as shown: a field named `type` first, the others sorted by lower-case name.
pub open spec fn arrange(vs: Seq<VarView>) -> Seq<VarView> {
    named_type(vs) + sort_by_lower(not_named_type(vs))
}

/// The values shown as an object's fields, in the order they were read.
pub open spec fn field_items(fs: Seq<Field>) -> Seq<(Seq<char>, ValueInfo)> {
    fs.map_values(|f: Field| (f.name@, f.value))
}

/// Rendering an object's fields.
pub open spec fn object_view(kinds: Seq<Variables>, fs: Seq<Field>) -> (Seq<Variables>, Seq<VarView>) {
    let (k, vs) = render_seq(kinds, field_items(fs));
    (k, arrange(vs))
}

proof fn lemma_insert_at(s: Seq<Keyed>, x: Keyed, j: int)
    requires
        0 <= j <= s.len(),
        forall|t: int| j <= t < s.len() ==> !seq_le(#[trigger] s[t].1, x.1),
        j > 0 ==> seq_le(s[j - 1].1, x.1),
    ensures
        insert_keyed(s, x) == s.insert(j, x),
    decreases s.len(),
{
    if s.len() == 0 {
        assert(s.insert(j, x) =~= seq![x]);
    } else if seq_le(s.last().1, x.1) {
        assert(j == s.len());
        assert(s.insert(j, x) =~= s.push(x));
    } else {
        lemma_insert_at(s.drop_last(), x, j);
        assert(s.drop_last().insert(j, x).push(s.last()) =~= s.insert(j, x));
    }
}

/// Whether keyed pairs are in ascending key order.
pub open spec fn keys_ascending(s: Seq<Keyed>) -> bool {
    forall|i: int| 0 <= i < s.len() - 1 ==> seq_le(#[trigger] s[i].1, s[i + 1].1)
}

proof fn lemma_seq_le_total(a: Seq<char>, b: Seq<char>)
    ensures
        seq_le(a, b) || seq_le(b, a),
    decreases a.len(),
{
    if a.len() > 0 && b.len() > 0 && a[0] as u32 == b[0] as u32 {
        lemma_seq_le_total(a.drop_first(), b.drop_first());
    }
}

proof fn lemma_insert_keyed(s: Seq<Keyed>, x: Keyed)
    requires
        keys_ascending(s),
    ensures
        keys_ascending(insert_keyed(s, x)),
        insert_keyed(s, x).to_multiset() == s.to_multiset().insert(x),
        insert_keyed(s, x).len() == s.len() + 1,
        insert_keyed(s, x).last() == x || (s.len() > 0 && insert_keyed(s, x).last() == s.last()),
    decreases s.len(),
{
    broadcast use vstd::seq_lib::group_to_multiset_ensures;
    if s.len() == 0 {
        assert(seq![x] =~= Seq::<Keyed>::empty().push(x));
    } else if seq_le(s.last().1, x.1) {
    } else {
        let d = s.drop_last();
        assert(keys_ascending(d));
        lemma_insert_keyed(d, x);
        lemma_seq_le_total(s.last().1, x.1);
        let r = insert_keyed(d, x);
        if d.len() > 0 {
            assert(d.last() == s[s.len() - 2]);
        }
        assert(s =~= d.push(s.last()));
        assert(keys_ascending(r.push(s.last())));
    }
}

/// The stable sort by key yields its input, rearranged, in ascending key order.
pub proof fn lemma_sort_keyed(s: Seq<Keyed>)
    ensures
        keys_ascending(sort_keyed(s)),
        sort_keyed(s).to_multiset() == s.to_multiset(),
    decreases s.len(),
{
    broadcast use vstd::seq_lib::group_to_multiset_ensures;
    if s.len() > 0 {
        lemma_sort_keyed(s.drop_last());
        lemma_insert_keyed(sort_keyed(s.drop_last()), s.last());
        assert(s =~= s.drop_last().push(s.last()));
    }
}

/// Sorts variables stably by the given keys (one for each variable), in the order std's
/// `Ord for String` gives.
pub fn sort_by_keys(items: Vec<Variable>, keys: Vec<String>) -> (r: Vec<Variable>)
    requires
        items@.len() == keys@.len(),
    ensures
        views(r@) == firsts(sort_keyed(keyed(views(items@), keys@.map_values(|k: String| k@)))),
{
    let ghost input = keyed(views(items@), keys@.map_values(|k: String| k@));
    let n = items.len();
    let mut items = items;
    let mut keys = keys;
    let ghost items0 = items@;
    let ghost keys0 = keys@;
    let mut sorted: Vec<Variable> = Vec::new();
    let mut skeys: Vec<String> = Vec::new();
    let mut j: usize = 0;
    assert(input.take(0) =~= Seq::<Keyed>::empty());
    assert(keyed(views(sorted@), skeys@.map_values(|k: String| k@)) =~= Seq::<Keyed>::empty());
    while j < n
        invariant
            n == input.len(),
            n == items0.len(),
            n == keys0.len(),
            input == keyed(views(items0), keys0.map_values(|k: String| k@)),
            j <= n,
            items@ == items0.skip(j as int),
            keys@ == keys0.skip(j as int),
            sorted@.len() == skeys@.len(),
            keyed(views(sorted@), skeys@.map_values(|k: String| k@)) == sort_keyed(input.take(j as int)),
        decreases n - j,
    {
        assert(items@[0] == items0[j as int]);
        assert(keys@[0] == keys0[j as int]);
        let v = items.remove(0);
        let key = keys.remove(0);
        assert(items@ =~= items0.skip(j + 1));
        assert(keys@ =~= keys0.skip(j + 1));
        let ghost x: Keyed = (v@, key@);
        assert(input[j as int] == x);
        let ghost before = keyed(views(sorted@), skeys@.map_values(|k: String| k@));
        let mut p: usize = sorted.len();
        while p > 0 && !str_le(skeys[p - 1].as_str(), key.as_str())
            invariant
                p <= sorted@.len(),
                skeys@.len() == sorted@.len(),
                before == keyed(views(sorted@), skeys@.map_values(|k: String| k@)),
                x == (v@, key@),
                forall|t: int| p <= t < sorted@.len() ==> !seq_le(#[trigger] before[t].1, x.1),
            decreases p,
        {
            assert(before[p - 1].1 == skeys@[p - 1]@);
            p = p - 1;
        }
        proof {
            if p > 0 {
                assert(before[p - 1].1 == skeys@[p - 1]@);
            }
            lemma_insert_at(before, x, p as int);
            let pre = input.take(j as int);
            assert(input.take(j + 1).drop_last() =~= pre);
            assert(input.take(j + 1).last() == x);
        }
        sorted.insert(p, v);
        skeys.insert(p, key);
        assert(keyed(views(sorted@), skeys@.map_values(|k: String| k@)) =~= before.insert(p as int, x));
        j = j + 1;
    }
    assert(input.take(n as int) =~= input);
    assert(views(sorted@) =~= firsts(keyed(views(sorted@), skeys@.map_values(|k: String| k@))));
    sorted
}

/// The variables shown for an object's fields.
pub fn object_to_variables(table: &mut RefTable, fields: &Vec<Field>) -> (r: Vec<Variable>)
    requires
        old(table).wf(),
    ensures
        final(table).wf(),
        (final(table).kinds(), views(r@)) == object_view(old(table).kinds(), fields@),
{
    let ghost all = field_items(fields@);
    let mut items: Vec<(String, &ValueInfo)> = Vec::new();
    let n = fields.len();
    let mut i: usize = 0;
    while i < n
        invariant
            n == fields@.len(),
            all == field_items(fields@),
            i <= n,
            items@.map_values(|p: (String, &ValueInfo)| (p.0@, *p.1)) =~= all.take(i as int),
        decreases n - i,
    {
        let f = &fields[i];
        items.push((f.name.clone(), &f.value));
        assert(all[i as int] == (f.name@, f.value));
        assert(all.take(i + 1) =~= all.take(i as int).push(all[i as int]));
        i = i + 1;
    }
    let mut rendered: Vec<Variable> = Vec::new();
    render_all(table, &mut rendered, items);
    assert(all.take(n as int) =~= all);
    assert(views(rendered@) =~= Seq::<VarView>::empty() + views(rendered@));
    let ghost vs = views(rendered@);

    let mut top: Vec<Variable> = Vec::new();
    let mut rest: Vec<Variable> = Vec::new();
    let mut keys: Vec<String> = Vec::new();
    let m = rendered.len();
    let mut j: usize = 0;
    assert(vs.take(0) =~= Seq::<VarView>::empty());
    proof { reveal(Seq::filter); }
    assert(views(top@) =~= Seq::<VarView>::empty());
    assert(views(rest@) =~= Seq::<VarView>::empty());
    while j < m
        invariant
            m == vs.len(),
            j <= m,
            rendered@.len() == m - j,
            forall|t: int| 0 <= t < m - j ==> rendered@[t]@ == vs[t + j],
            views(top@) == named_type(vs.take(j as int)),
            views(rest@) == not_named_type(vs.take(j as int)),
            keys@.len() == rest@.len(),
            forall|t: int| 0 <= t < keys@.len() ==> keys@[t]@ == lower_of(#[trigger] rest@[t].name@),
        decreases m - j,
    {
        let v = rendered.remove(0);
        assert(v@ == vs[j as int]);
        assert(vs.take(j + 1).drop_last() =~= vs.take(j as int));
        assert(vs.take(j + 1).last() == v@);
        let type_field = String::from_str("type");
        let is_top = v.name.eq(&type_field);
        proof { reveal(Seq::filter); }
        assert(named_type(vs.take(j + 1)) == if (v@.name == "type"@) {
            named_type(vs.take(j as int)).push(v@)
        } else {
            named_type(vs.take(j as int))
        });
        assert(not_named_type(vs.take(j + 1)) == if (v@.name != "type"@) {
            not_named_type(vs.take(j as int)).push(v@)
        } else {
            not_named_type(vs.take(j as int))
        });
        if is_top {
            let ghost before = views(top@);
            top.push(v);
            assert(views(top@) =~= before.push(top@.last()@));
        } else {
            let ghost before = views(rest@);
            keys.push(lowercase(v.name.as_str()));
            rest.push(v);
            assert(views(rest@) =~= before.push(rest@.last()@));
        }
        proof {
            assert(forall|t: int| 0 <= t < m - j - 1 ==> rendered@[t]@ == vs[t + j + 1]);
        }
        j = j + 1;
    }
    assert(vs.take(m as int) =~= vs);
    let ghost others = not_named_type(vs);
    assert(keyed(views(rest@), keys@.map_values(|k: String| k@))
        =~= others.map_values(|v: VarView| (v, lower_of(v.name))));
    let sorted = sort_by_keys(rest, keys);
    let ghost tops = views(top@);
    let mut sorted = sorted;
    top.append(&mut sorted);
    assert(views(top@) =~= tops + sort_by_lower(others));
    top
}

} // verus!
