use crate::decl::{is_method, Decl, DeclKind, Param};
use crate::types::{map_type, type_text};
use vstd::prelude::*;
use vstd::string::{StrSliceExecFns, StringExecFns};

verus! {

/// Why a declaration could not be translated: something the AST should have resolved is missing.
#[derive(Clone, Copy, Debug, PartialEq, Eq, Structural)]
pub enum TranslateError {
    MissingClassName,
    MissingMethodName,
    MissingResultType,
    MissingArguments,
    MissingArgumentName,
    MissingArgumentType,
}

/// The binding of one method.
pub struct MethodBinding {
    /// The selector up to its first `:`, used as the callable name.
    pub short_name: String,
    /// The full selector, used as the native name.
    pub native_name: String,
    pub is_static: bool,
    /// Each argument's name and mapped type, in source order.
    pub params: Vec<(String, String)>,
    pub return_type: String,
}

pub ghost struct MethodSpec {
    pub short_name: Seq<char>,
    pub native_name: Seq<char>,
    pub is_static: bool,
    pub params: Seq<(Seq<char>, Seq<char>)>,
    pub return_type: Seq<char>,
}

pub open spec fn pairs_view(v: Seq<(String, String)>) -> Seq<(Seq<char>, Seq<char>)> {
    v.map_values(|p: (String, String)| (p.0@, p.1@))
}

impl View for MethodBinding {
    type V = MethodSpec;

    open spec fn view(&self) -> MethodSpec {
        MethodSpec {
            short_name: self.short_name@,
            native_name: self.native_name@,
            is_static: self.is_static,
            params: pairs_view(self.params@),
            return_type: self.return_type@,
        }
    }
}

/// The binding unit of one class: its native name and its method bindings in source order.
pub struct BindingUnit {
    pub class_name: String,
    pub methods: Vec<MethodBinding>,
}

pub ghost struct UnitSpec {
    pub class_name: Seq<char>,
    pub methods: Seq<MethodSpec>,
}

pub open spec fn methods_view(v: Seq<MethodBinding>) -> Seq<MethodSpec> {
    v.map_values(|m: MethodBinding| m@)
}

impl View for BindingUnit {
    type V = UnitSpec;

    open spec fn view(&self) -> UnitSpec {
        UnitSpec { class_name: self.class_name@, methods: methods_view(self.methods@) }
    }
}

/// Index of the first `:` in `s` at or after `i`, or the length of `s` if there is none.
pub open spec fn separator_from(s: Seq<char>, i: int) -> int
    decreases s.len() - i,
{
    if i < 0 || i >= s.len() {
        s.len() as int
    } else if s[i] == ':' {
        i
    } else {
        separator_from(s, i + 1)
    }
}

/// The short name of a selector: everything before its first `:`.
pub open spec fn short_name(sel: Seq<char>) -> Seq<char> {
    sel.take(separator_from(sel, 0))
}

/// The bindings of the arguments, or the error for the first argument that lacks a name or a type.
pub open spec fn params_result(args: Seq<Param>) -> Result<
    Seq<(Seq<char>, Seq<char>)>,
    TranslateError,
>
    decreases args.len(),
{
    if args.len() == 0 {
        Ok(Seq::empty())
    } else {
        match params_result(args.drop_last()) {
            Err(e) => Err(e),
            Ok(ps) => {
                let a = args.last();
                if a.name is None {
                    Err(TranslateError::MissingArgumentName)
                } else if a.ty is None {
                    Err(TranslateError::MissingArgumentType)
                } else {
                    Ok(ps.push((a.name->Some_0@, type_text(a.ty->Some_0))))
                }
            },
        }
    }
}

/// The binding of a method declaration, or the first thing it lacks.
pub open spec fn method_result(m: Decl) -> Result<MethodSpec, TranslateError> {
    if m.name is None {
        Err(TranslateError::MissingMethodName)
    } else if m.result_type is None {
        Err(TranslateError::MissingResultType)
    } else if m.arguments is None {
        Err(TranslateError::MissingArguments)
    } else {
        match params_result(m.arguments->Some_0@) {
            Err(e) => Err(e),
            Ok(ps) => Ok(
                MethodSpec {
                    short_name: short_name(m.name->Some_0@),
                    native_name: m.name->Some_0@,
                    is_static: m.kind is ClassMethod,
                    params: ps,
                    return_type: type_text(m.result_type->Some_0),
                },
            ),
        }
    }
}

/// The bindings of the method members among `cs`, in order; other members are skipped.
pub open spec fn members_result(cs: Seq<Decl>) -> Result<Seq<MethodSpec>, TranslateError>
    decreases cs.len(),
{
    if cs.len() == 0 {
        Ok(Seq::empty())
    } else {
        match members_result(cs.drop_last()) {
            Err(e) => Err(e),
            Ok(ms) => {
                if is_method(cs.last().kind) {
                    match method_result(cs.last()) {
                        Err(e) => Err(e),
                        Ok(m) => Ok(ms.push(m)),
                    }
                } else {
                    Ok(ms)
                }
            },
        }
    }
}

/// The binding unit of a class declaration.
pub open spec fn class_result(d: Decl) -> Result<UnitSpec, TranslateError> {
    if d.name is None {
        Err(TranslateError::MissingClassName)
    } else {
        match members_result(d.children@) {
            Err(e) => Err(e),
            Ok(ms) => Ok(UnitSpec { class_name: d.name->Some_0@, methods: ms }),
        }
    }
}

/// The binding units of the class declarations among `ds`, in order; other declarations are skipped.
pub open spec fn units_result(ds: Seq<Decl>) -> Result<Seq<UnitSpec>, TranslateError>
    decreases ds.len(),
{
    if ds.len() == 0 {
        Ok(Seq::empty())
    } else {
        match units_result(ds.drop_last()) {
            Err(e) => Err(e),
            Ok(us) => {
                if ds.last().kind is InterfaceDecl {
                    match class_result(ds.last()) {
                        Err(e) => Err(e),
                        Ok(u) => Ok(us.push(u)),
                    }
                } else {
                    Ok(us)
                }
            },
        }
    }
}

/// The callable name of a selector: the text before its first `:`, or all of it.
pub fn selector_short_name(sel: &String) -> (r: String)
    ensures
        r@ == short_name(sel@),
{
    let s = sel.as_str();
    let n = s.unicode_len();
    let mut i: usize = 0;
    while i < n && s.get_char(i) != ':'
        invariant
            n == s@.len(),
            s@ == sel@,
            i <= n,
            separator_from(s@, i as int) == separator_from(s@, 0),
        decreases n - i,
    {
        i = i + 1;
    }
    String::from_str(s.substring_char(0, i))
}

/// Binds each argument, in order, to its name and mapped type.
pub fn emit_params(args: &Vec<Param>) -> (r: Result<Vec<(String, String)>, TranslateError>)
    ensures
        match r {
            Ok(ps) => params_result(args@) == Ok::<_, TranslateError>(pairs_view(ps@)),
            Err(e) => params_result(args@) == Err::<Seq<(Seq<char>, Seq<char>)>, _>(e),
        },
{
    let mut out: Vec<(String, String)> = Vec::new();
    let mut i: usize = 0;
    assert(args@.take(0) =~= Seq::<Param>::empty());
    assert(pairs_view(out@) =~= Seq::empty());
    while i < args.len()
        invariant
            i <= args.len(),
            params_result(args@.take(i as int)) == Ok::<_, TranslateError>(pairs_view(out@)),
        decreases args.len() - i,
    {
        assert(args@.take(i + 1).drop_last() =~= args@.take(i as int));
        let a = &args[i];
        let name = match &a.name {
            Some(n) => n.clone(),
            None => {
                proof {
                    lemma_params_error_persists(args@, i as int + 1);
                }
                return Err(TranslateError::MissingArgumentName);
            },
        };
        let ty = match &a.ty {
            Some(t) => map_type(t),
            None => {
                proof {
                    lemma_params_error_persists(args@, i as int + 1);
                }
                return Err(TranslateError::MissingArgumentType);
            },
        };
        let ghost prev = out@;
        out.push((name, ty));
        assert(pairs_view(out@) =~= pairs_view(prev).push((name@, ty@)));
        i = i + 1;
    }
    assert(args@.take(args.len() as int) =~= args@);
    Ok(out)
}

/// An error among the first `k` arguments is the error of the whole list.
proof fn lemma_params_error_persists(args: Seq<Param>, k: int)
    requires
        0 <= k <= args.len(),
        params_result(args.take(k)) is Err,
    ensures
        params_result(args) == params_result(args.take(k)),
    decreases args.len() - k,
{
    if k < args.len() {
        assert(args.take(k + 1).drop_last() =~= args.take(k));
        lemma_params_error_persists(args, k + 1);
    } else {
        assert(args.take(k) =~= args);
    }
}

/// Translates one instance or class method into its binding.
pub fn emit_method(m: &Decl) -> (r: Result<MethodBinding, TranslateError>)
    ensures
        match r {
            Ok(b) => method_result(*m) == Ok::<_, TranslateError>(b@),
            Err(e) => method_result(*m) == Err::<MethodSpec, _>(e),
        },
{
    let full = match &m.name {
        Some(n) => n,
        None => return Err(TranslateError::MissingMethodName),
    };
    let short = selector_short_name(full);
    let return_type = match &m.result_type {
        Some(t) => map_type(t),
        None => return Err(TranslateError::MissingResultType),
    };
    let params = match &m.arguments {
        Some(args) => match emit_params(args) {
            Ok(ps) => ps,
            Err(e) => return Err(e),
        },
        None => return Err(TranslateError::MissingArguments),
    };
    let is_static = match m.kind {
        DeclKind::ClassMethod => true,
        _ => false,
    };
    Ok(MethodBinding { short_name: short, native_name: full.clone(), is_static, params, return_type })
}

/// Translates one class declaration: its name and the bindings of its method members, in source order.
pub fn emit_class(d: &Decl) -> (r: Result<BindingUnit, TranslateError>)
    ensures
        match r {
            Ok(u) => class_result(*d) == Ok::<_, TranslateError>(u@),
            Err(e) => class_result(*d) == Err::<UnitSpec, _>(e),
        },
{
    let class_name = match &d.name {
        Some(n) => n.clone(),
        None => return Err(TranslateError::MissingClassName),
    };
    let cs = &d.children;
    let mut methods: Vec<MethodBinding> = Vec::new();
    let mut i: usize = 0;
    assert(cs@.take(0) =~= Seq::<Decl>::empty());
    assert(methods_view(methods@) =~= Seq::empty());
    while i < cs.len()
        invariant
            cs == &d.children,
            d.name is Some,
            i <= cs.len(),
            members_result(cs@.take(i as int)) == Ok::<_, TranslateError>(methods_view(methods@)),
        decreases cs.len() - i,
    {
        assert(cs@.take(i + 1).drop_last() =~= cs@.take(i as int));
        let c = &cs[i];
        match c.kind {
            DeclKind::InstanceMethod | DeclKind::ClassMethod => {
                match emit_method(c) {
                    Ok(b) => {
                        let ghost prev = methods@;
                        methods.push(b);
                        assert(methods_view(methods@) =~= methods_view(prev).push(b@));
                    },
                    Err(e) => {
                        assert(cs@.take(i + 1).last() == *c);
                        assert(members_result(cs@.take(i + 1)) == Err::<Seq<MethodSpec>, _>(e));
                        proof {
                            lemma_members_error_persists(cs@, i as int + 1);
                        }
                        return Err(e);
                    },
                }
            },
            _ => {},
        }
        i = i + 1;
    }
    assert(cs@.take(cs.len() as int) =~= cs@);
    Ok(BindingUnit { class_name, methods })
}

/// An error among the first `k` members is the error of the whole class body.
proof fn lemma_members_error_persists(cs: Seq<Decl>, k: int)
    requires
        0 <= k <= cs.len(),
        members_result(cs.take(k)) is Err,
    ensures
        members_result(cs) == members_result(cs.take(k)),
    decreases cs.len() - k,
{
    if k < cs.len() {
        assert(cs.take(k + 1).drop_last() =~= cs.take(k));
        lemma_members_error_persists(cs, k + 1);
    } else {
        assert(cs.take(k) =~= cs);
    }
}

/// Translates the class declarations among the top-level declarations, in order.
/// Protocols, records and every other kind are skipped.
pub fn walk(ds: &Vec<Decl>) -> (r: Result<Vec<BindingUnit>, TranslateError>)
    ensures
        match r {
            Ok(us) => units_result(ds@) == Ok::<_, TranslateError>(units_view(us@)),
            Err(e) => units_result(ds@) == Err::<Seq<UnitSpec>, _>(e),
        },
{
    let mut units: Vec<BindingUnit> = Vec::new();
    let mut i: usize = 0;
    assert(ds@.take(0) =~= Seq::<Decl>::empty());
    assert(units_view(units@) =~= Seq::empty());
    while i < ds.len()
        invariant
            i <= ds.len(),
            units_result(ds@.take(i as int)) == Ok::<_, TranslateError>(units_view(units@)),
        decreases ds.len() - i,
    {
        assert(ds@.take(i + 1).drop_last() =~= ds@.take(i as int));
        let d = &ds[i];
        match d.kind {
            DeclKind::InterfaceDecl => {
                match emit_class(d) {
                    Ok(u) => {
                        let ghost prev = units@;
                        units.push(u);
                        assert(units_view(units@) =~= units_view(prev).push(u@));
                    },
                    Err(e) => {
                        assert(ds@.take(i + 1).last() == *d);
                        proof {
                            lemma_units_error_persists(ds@, i as int + 1);
                        }
                        return Err(e);
                    },
                }
            },
            _ => {},
        }
        i = i + 1;
    }
    assert(ds@.take(ds.len() as int) =~= ds@);
    Ok(units)
}

pub open spec fn units_view(v: Seq<BindingUnit>) -> Seq<UnitSpec> {
    v.map_values(|u: BindingUnit| u@)
}

/// An error among the first `k` declarations is the error of the whole walk.
proof fn lemma_units_error_persists(ds: Seq<Decl>, k: int)
    requires
        0 <= k <= ds.len(),
        units_result(ds.take(k)) is Err,
    ensures
        units_result(ds) == units_result(ds.take(k)),
    decreases ds.len() - k,
{
    if k < ds.len() {
        assert(ds.take(k + 1).drop_last() =~= ds.take(k));
        lemma_units_error_persists(ds, k + 1);
    } else {
        assert(ds.take(k) =~= ds);
    }
}

/// Emits the next class at or after index `start` among the top-level declarations,
/// so that each unit can be handed on as soon as it is complete. Returns the unit
/// and the index after that class, `None` when no class is left, or the error of
/// the class that failed.
pub fn next_unit(ds: &Vec<Decl>, start: usize) -> (r: Result<Option<(usize, BindingUnit)>, TranslateError>)
    ensures
        match r {
            Ok(None) => forall|j: int| start <= j < ds.len() ==> !(ds@[j].kind is InterfaceDecl),
            Ok(Some((next, u))) => {
                &&& start < next <= ds.len()
                &&& ds@[next - 1].kind is InterfaceDecl
                &&& forall|j: int| start <= j < next - 1 ==> !(ds@[j].kind is InterfaceDecl)
                &&& class_result(ds@[next - 1]) == Ok::<_, TranslateError>(u@)
            },
            Err(e) => exists|k: int|
                {
                    &&& start <= k < ds.len()
                    &&& ds@[k].kind is InterfaceDecl
                    &&& forall|j: int| start <= j < k ==> !(ds@[j].kind is InterfaceDecl)
                    &&& class_result(ds@[k]) == Err::<UnitSpec, _>(e)
                },
        },
{
    let mut i: usize = start;
    while i < ds.len()
        invariant
            start <= i,
            forall|j: int| start <= j < i ==> !(ds@[j].kind is InterfaceDecl),
        decreases ds.len() - i,
    {
        match ds[i].kind {
            DeclKind::InterfaceDecl => {
                match emit_class(&ds[i]) {
                    Ok(u) => {
                        return Ok(Some((i + 1, u)));
                    },
                    Err(e) => {
                        assert(ds@[i as int].kind is InterfaceDecl);
                        return Err(e);
                    },
                }
            },
            _ => {},
        }
        i = i + 1;
    }
    Ok(None)
}

} // verus!
