use crate::emit::{BindingUnit, MethodBinding, MethodSpec, UnitSpec};
use vstd::prelude::*;
use vstd::string::StringExecFns;

verus! {

/// `name: type` pairs joined by `", "`.
pub open spec fn params_text(ps: Seq<(Seq<char>, Seq<char>)>) -> Seq<char>
    decreases ps.len(),
{
    if ps.len() == 0 {
        Seq::empty()
    } else if ps.len() == 1 {
        ps[0].0 + ": "@ + ps[0].1
    } else {
        params_text(ps.drop_last()) + ", "@ + ps.last().0 + ": "@ + ps.last().1
    }
}

/// One line of a binding unit, for one method.
pub open spec fn method_text(m: MethodSpec) -> Seq<char> {
    "    @:native(\""@ + m.native_name + "\") public "@ + (if m.is_static {
        "static "@
    } else {
        Seq::empty()
    }) + "function "@ + m.short_name + "("@ + params_text(m.params) + "): "@ + m.return_type
        + ";\n"@
}

/// The lines of all methods, in order.
pub open spec fn methods_text(ms: Seq<MethodSpec>) -> Seq<char>
    decreases ms.len(),
{
    if ms.len() == 0 {
        Seq::empty()
    } else {
        methods_text(ms.drop_last()) + method_text(ms.last())
    }
}

/// The whole text of a binding unit, declared in package `appkit`.
pub open spec fn unit_text(u: UnitSpec) -> Seq<char> {
    "package appkit;\n@:objc extern class "@ + u.class_name + " {\n"@
        + methods_text(u.methods) + "}\n"@
}

/// Renders the binding line of one method.
pub fn render_method(m: &MethodBinding) -> (r: String)
    ensures
        r@ == method_text(m@),
{
    let mut r = String::from_str("    @:native(\"");
    r.append(m.native_name.as_str());
    r.append("\") public ");
    if m.is_static {
        r.append("static ");
    } else {
        assert(r@ + Seq::<char>::empty() =~= r@);
    }
    r.append("function ");
    r.append(m.short_name.as_str());
    r.append("(");
    let ps = &m.params;
    let mut i: usize = 0;
    let ghost start = r@;
    assert(ps@.take(0) =~= Seq::<(String, String)>::empty());
    assert(crate::emit::pairs_view(ps@.take(0)) =~= Seq::empty());
    assert(start + Seq::<char>::empty() =~= start);
    while i < ps.len()
        invariant
            i <= ps.len(),
            r@ == start + params_text(crate::emit::pairs_view(ps@.take(i as int))),
        decreases ps.len() - i,
    {
        let ghost before = crate::emit::pairs_view(ps@.take(i as int));
        let ghost after = crate::emit::pairs_view(ps@.take(i + 1));
        assert(after.drop_last() =~= before);
        if i != 0 {
            r.append(", ");
        }
        r.append(ps[i].0.as_str());
        r.append(": ");
        r.append(ps[i].1.as_str());
        i = i + 1;
    }
    assert(ps@.take(ps.len() as int) =~= ps@);
    r.append("): ");
    r.append(m.return_type.as_str());
    r.append(";\n");
    r
}

/// Renders a whole binding unit: package line, class header, one line per method, closing brace.
pub fn render_unit(u: &BindingUnit) -> (r: String)
    ensures
        r@ == unit_text(u@),
{
    let mut r = String::from_str("package appkit;\n@:objc extern class ");
    r.append(u.class_name.as_str());
    r.append(" {\n");
    let ms = &u.methods;
    let mut i: usize = 0;
    let ghost start = r@;
    assert(crate::emit::methods_view(ms@.take(0)) =~= Seq::empty());
    assert(start + Seq::<char>::empty() =~= start);
    while i < ms.len()
        invariant
            i <= ms.len(),
            r@ == start + methods_text(crate::emit::methods_view(ms@.take(i as int))),
        decreases ms.len() - i,
    {
        let ghost before = crate::emit::methods_view(ms@.take(i as int));
        let ghost after = crate::emit::methods_view(ms@.take(i + 1));
        assert(after.drop_last() =~= before);
        let line = render_method(&ms[i]);
        r.append(line.as_str());
        i = i + 1;
    }
    assert(ms@.take(ms.len() as int) =~= ms@);
    r.append("}\n");
    r
}

} // verus!
