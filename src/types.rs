use vstd::prelude::*;
use vstd::string::StringExecFns;

verus! {

/// A native type expression, as the AST provider resolved it.
pub enum TypeExpr {
    /// Pointer to an Objective-C object of the pointee type.
    ObjectPointer { pointee: Box<TypeExpr> },
    /// An object type over a base class, possibly specialised by type arguments.
    Object { base: Box<TypeExpr>, type_args: Vec<TypeExpr> },
    /// A reference to a class interface, possibly specialised by type arguments.
    InterfaceRef { display_name: String, type_args: Vec<TypeExpr> },
    /// The dynamic object type `id`.
    Id,
    /// The selector type `SEL`.
    Selector,
    /// Pointer to a block whose function type is the pointee.
    BlockPointer { pointee: Box<TypeExpr> },
    /// A function prototype.
    FunctionPrototype,
    /// `void`.
    Void,
    /// Any kind that has no structural mapping: its display name and the name of its kind.
    Other { display_name: String, kind_name: String },
}

/// The Haxe type text for a native type.
pub open spec fn type_text(t: TypeExpr) -> Seq<char>
    decreases t, 0int,
{
    match t {
        TypeExpr::ObjectPointer { pointee } => "cpp.Star<"@ + type_text(*pointee) + ">"@,
        TypeExpr::Object { base, type_args } => {
            if type_args.len() == 0 {
                type_text(*base)
            } else {
                type_text(*base) + "<"@ + args_text(type_args, type_args.len() as int) + ">"@
            }
        },
        TypeExpr::InterfaceRef { display_name, type_args } => {
            if type_args.len() == 0 {
                "/* ObjCInterface */ "@ + display_name@
            } else {
                "/* ObjCInterface */ "@ + display_name@ + "<"@ + args_text(
                    type_args,
                    type_args.len() as int,
                ) + ">"@
            }
        },
        TypeExpr::Id => "cpp.objc.NSObject"@,
        TypeExpr::Selector => "SEL"@,
        TypeExpr::BlockPointer { pointee } => "cpp.objc.ObjcBlock<"@ + type_text(*pointee) + ">"@,
        TypeExpr::FunctionPrototype => "haxe.Function"@,
        TypeExpr::Void => "Void"@,
        TypeExpr::Other { display_name, kind_name } => display_name@ + " /* "@ + kind_name@
            + " */"@,
    }
}

/// The type texts of the first `n` type arguments, joined by `", "`.
pub open spec fn args_text(args: Vec<TypeExpr>, n: int) -> Seq<char>
    decreases args, n,
{
    if n <= 0 || n > args.len() {
        Seq::empty()
    } else if n == 1 {
        proof {
            broadcast use vstd::std_specs::vec::axiom_vec_index_decreases;
        }
        type_text(args[0])
    } else {
        proof {
            broadcast use vstd::std_specs::vec::axiom_vec_index_decreases;
        }
        args_text(args, n - 1) + ", "@ + type_text(args[n - 1])
    }
}

/// Maps a native type to its Haxe type text. Total: every kind yields some text.
pub fn map_type(t: &TypeExpr) -> (r: String)
    ensures
        r@ == type_text(*t),
        r@.len() > 0,
    decreases t, 0int,
{
    proof {
        lemma_type_text_nonempty(*t);
    }
    match t {
        TypeExpr::ObjectPointer { pointee } => {
            let inner = map_type(pointee);
            let mut r = String::from_str("cpp.Star<");
            r.append(inner.as_str());
            r.append(">");
            r
        },
        TypeExpr::Object { base, type_args } => {
            let base_text = map_type(base);
            if type_args.len() == 0 {
                base_text
            } else {
                let joined = map_args(type_args);
                let mut r = base_text;
                r.append("<");
                r.append(joined.as_str());
                r.append(">");
                r
            }
        },
        TypeExpr::InterfaceRef { display_name, type_args } => {
            let mut r = String::from_str("/* ObjCInterface */ ");
            r.append(display_name.as_str());
            if type_args.len() != 0 {
                let joined = map_args(type_args);
                r.append("<");
                r.append(joined.as_str());
                r.append(">");
            }
            r
        },
        TypeExpr::Id => String::from_str("cpp.objc.NSObject"),
        TypeExpr::Selector => String::from_str("SEL"),
        TypeExpr::BlockPointer { pointee } => {
            let inner = map_type(pointee);
            let mut r = String::from_str("cpp.objc.ObjcBlock<");
            r.append(inner.as_str());
            r.append(">");
            r
        },
        TypeExpr::FunctionPrototype => String::from_str("haxe.Function"),
        TypeExpr::Void => String::from_str("Void"),
        TypeExpr::Other { display_name, kind_name } => {
            let mut r = display_name.clone();
            r.append(" /* ");
            r.append(kind_name.as_str());
            r.append(" */");
            r
        },
    }
}

/// Maps each type argument in order and joins the results with `", "`.
pub fn map_args(args: &Vec<TypeExpr>) -> (r: String)
    ensures
        r@ == args_text(*args, args.len() as int),
    decreases args, 1int,
{
    let mut r = String::new();
    let mut i: usize = 0;
    while i < args.len()
        invariant
            i <= args.len(),
            r@ == args_text(*args, i as int),
        decreases args.len() - i,
    {
        proof {
            broadcast use vstd::std_specs::vec::axiom_vec_index_decreases;
        }
        let item = map_type(&args[i]);
        if i != 0 {
            r.append(", ");
        }
        r.append(item.as_str());
        i = i + 1;
    }
    r
}

/// Every native type maps to a non-empty type text, however deeply it nests.
pub proof fn lemma_type_text_nonempty(t: TypeExpr)
    ensures
        type_text(t).len() > 0,
    decreases t,
{
    broadcast use vstd::string::axiom_str_literal_len;

    match t {
        TypeExpr::Object { base, type_args } => {
            lemma_type_text_nonempty(*base);
        },
        _ => {
            reveal_strlit("cpp.Star<");
            reveal_strlit("/* ObjCInterface */ ");
            reveal_strlit("cpp.objc.NSObject");
            reveal_strlit("SEL");
            reveal_strlit("cpp.objc.ObjcBlock<");
            reveal_strlit("haxe.Function");
            reveal_strlit("Void");
            reveal_strlit(" */");
        },
    }
}

/// An object type with base `b` and type arguments `[x, y]` maps to
/// `B<X, Y>`, where `B`, `X` and `Y` are the mapped texts of `b`, `x` and `y`.
pub proof fn law_parameterized_object_shape(t: TypeExpr, b: TypeExpr, x: TypeExpr, y: TypeExpr)
    requires
        t matches TypeExpr::Object { base, type_args } && *base == b && type_args@ == seq![x, y],
    ensures
        type_text(t) == type_text(b) + "<"@ + type_text(x) + ", "@ + type_text(y) + ">"@,
{
    if let TypeExpr::Object { base, type_args } = t {
        reveal_with_fuel(args_text, 2);
        assert(type_args.len() == 2);
        assert(type_args[0] == x && type_args[1] == y);
        assert(args_text(type_args, 1) == type_text(x));
        assert(args_text(type_args, 2) == type_text(x) + ", "@ + type_text(y));
        assert(type_text(t) == type_text(b) + "<"@ + (type_text(x) + ", "@ + type_text(y)) + ">"@);
        let bb = type_text(b) + "<"@;
        vstd::seq_lib::lemma_concat_associative(type_text(x) + ", "@, type_text(y), ">"@);
        vstd::seq_lib::lemma_concat_associative(type_text(x), ", "@, type_text(y));
        vstd::seq_lib::lemma_concat_associative(bb, type_text(x) + ", "@ + type_text(y), ">"@);
        vstd::seq_lib::lemma_concat_associative(bb, type_text(x) + ", "@, type_text(y));
        vstd::seq_lib::lemma_concat_associative(bb, type_text(x), ", "@);
    }
}

} // verus!
