use crate::decl::{is_method, Decl, Param};
use crate::emit::{
    members_result,
    method_result,
    params_result,
    separator_from,
    short_name,
    units_result,
};
use crate::types::type_text;
use vstd::prelude::*;

verus! {

proof fn lemma_separator_from(s: Seq<char>, i: int)
    requires
        0 <= i <= s.len(),
        forall|j: int| 0 <= j < i ==> s[j] != ':',
    ensures
        i <= separator_from(s, i) <= s.len(),
        forall|j: int| 0 <= j < separator_from(s, i) ==> s[j] != ':',
        separator_from(s, i) < s.len() ==> s[separator_from(s, i)] == ':',
    decreases s.len() - i,
{
    if i < s.len() && s[i] != ':' {
        lemma_separator_from(s, i + 1);
    }
}

/// The short name of a selector is the prefix before its first `:`: it holds no `:`,
/// and it is either the whole selector or followed by a `:`.
pub proof fn lemma_short_name_shape(sel: Seq<char>)
    ensures
        short_name(sel).len() <= sel.len(),
        short_name(sel) == sel.take(short_name(sel).len() as int),
        forall|j: int| 0 <= j < short_name(sel).len() ==> short_name(sel)[j] != ':',
        short_name(sel).len() < sel.len() ==> sel[short_name(sel).len() as int] == ':',
        (forall|j: int| 0 <= j < sel.len() ==> sel[j] != ':') ==> short_name(sel) == sel,
{
    lemma_separator_from(sel, 0);
    let k = separator_from(sel, 0);
    assert(short_name(sel).len() == k);
    if forall|j: int| 0 <= j < sel.len() ==> sel[j] != ':' {
        assert(sel.take(sel.len() as int) =~= sel);
    }
}

/// A translated method is bound under its full selector as native name, and
/// under the text before the selector's first `:` (all of it when it has none)
/// as callable name.
pub proof fn law_selector_fidelity(m: Decl)
    requires
        method_result(m) is Ok,
    ensures
        method_result(m)->Ok_0.native_name == m.name->Some_0@,
        method_result(m)->Ok_0.short_name == short_name(m.name->Some_0@),
        ({
            let sel = m.name->Some_0@;
            let n = method_result(m)->Ok_0.short_name;
            &&& n == sel.take(n.len() as int)
            &&& forall|j: int| 0 <= j < n.len() ==> n[j] != ':'
            &&& n.len() < sel.len() ==> sel[n.len() as int] == ':'
            &&& (forall|j: int| 0 <= j < sel.len() ==> sel[j] != ':') ==> n == sel
        }),
{
    lemma_short_name_shape(m.name->Some_0@);
}

proof fn lemma_params_in_order(args: Seq<Param>)
    requires
        params_result(args) is Ok,
    ensures
        params_result(args)->Ok_0.len() == args.len(),
        forall|i: int|
            0 <= i < args.len() ==> params_result(args)->Ok_0[i] == (
            args[i].name->Some_0@,
            type_text(args[i].ty->Some_0),
        ),
    decreases args.len(),
{
    if args.len() > 0 {
        lemma_params_in_order(args.drop_last());
    }
}

/// A translated method's parameters follow its arguments one for one, in source
/// order: each is the argument's own name with the mapped text of its type.
pub proof fn law_argument_order(m: Decl)
    requires
        method_result(m) is Ok,
    ensures
        ({
            let args = m.arguments->Some_0@;
            let ps = method_result(m)->Ok_0.params;
            &&& ps.len() == args.len()
            &&& forall|i: int|
                0 <= i < args.len() ==> ps[i] == (
                args[i].name->Some_0@,
                type_text(args[i].ty->Some_0),
            )
        }),
{
    lemma_params_in_order(m.arguments->Some_0@);
}

/// Inserting a declaration that is not a class (a protocol, a record, anything else)
/// anywhere among the top-level declarations changes nothing in what is emitted.
pub proof fn law_skip_top_level(ds: Seq<Decl>, i: int, d: Decl)
    requires
        0 <= i <= ds.len(),
        !(d.kind is InterfaceDecl),
    ensures
        units_result(ds.insert(i, d)) == units_result(ds),
    decreases ds.len(),
{
    let s = ds.insert(i, d);
    if i == ds.len() {
        assert(s.drop_last() =~= ds);
    } else {
        assert(s.drop_last() =~= ds.drop_last().insert(i, d));
        assert(s.last() == ds.last());
        law_skip_top_level(ds.drop_last(), i, d);
    }
}

/// Inserting a member that is not a method (a property, anything else) anywhere
/// among a class's members changes nothing in the bindings of the class.
pub proof fn law_skip_member(cs: Seq<Decl>, i: int, d: Decl)
    requires
        0 <= i <= cs.len(),
        !is_method(d.kind),
    ensures
        members_result(cs.insert(i, d)) == members_result(cs),
    decreases cs.len(),
{
    let s = cs.insert(i, d);
    if i == cs.len() {
        assert(s.drop_last() =~= cs);
    } else {
        assert(s.drop_last() =~= cs.drop_last().insert(i, d));
        assert(s.last() == cs.last());
        law_skip_member(cs.drop_last(), i, d);
    }
}

} // verus!
