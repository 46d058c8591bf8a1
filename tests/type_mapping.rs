use objc_haxe::types::{map_args, map_type, TypeExpr};

fn iface(name: &str) -> TypeExpr {
    TypeExpr::InterfaceRef { display_name: name.to_string(), type_args: vec![] }
}

fn ptr(t: TypeExpr) -> TypeExpr {
    TypeExpr::ObjectPointer { pointee: Box::new(t) }
}

fn object(base: TypeExpr, args: Vec<TypeExpr>) -> TypeExpr {
    TypeExpr::Object { base: Box::new(base), type_args: args }
}

fn other(name: &str, kind: &str) -> TypeExpr {
    TypeExpr::Other { display_name: name.to_string(), kind_name: kind.to_string() }
}

#[test]
fn fixed_kinds_map_to_fixed_names() {
    assert_eq!(map_type(&TypeExpr::Id), "cpp.objc.NSObject");
    assert_eq!(map_type(&TypeExpr::Selector), "SEL");
    assert_eq!(map_type(&TypeExpr::FunctionPrototype), "haxe.Function");
    assert_eq!(map_type(&TypeExpr::Void), "Void");
}

#[test]
fn object_pointer_wraps_pointee() {
    assert_eq!(map_type(&ptr(iface("Foo"))), "cpp.Star</* ObjCInterface */ Foo>");
    assert_eq!(map_type(&ptr(TypeExpr::Id)), "cpp.Star<cpp.objc.NSObject>");
}

#[test]
fn block_pointer_wraps_pointee() {
    let t = TypeExpr::BlockPointer { pointee: Box::new(TypeExpr::FunctionPrototype) };
    assert_eq!(map_type(&t), "cpp.objc.ObjcBlock<haxe.Function>");
}

#[test]
fn unparameterized_object_is_its_base() {
    assert_eq!(map_type(&object(iface("NSView"), vec![])), "/* ObjCInterface */ NSView");
}

#[test]
fn parameterized_object_two_arguments() {
    let t = object(other("Foo", "Typedef"), vec![other("Bar", "Typedef"), other("Baz", "Typedef")]);
    assert_eq!(map_type(&t), "Foo /* Typedef */<Bar /* Typedef */, Baz /* Typedef */>");
}

#[test]
fn parameterized_object_nested() {
    let inner = object(iface("NSArray"), vec![ptr(iface("NSString"))]);
    let t = ptr(object(iface("NSDictionary"), vec![ptr(iface("NSString")), ptr(inner)]));
    assert_eq!(
        map_type(&t),
        "cpp.Star</* ObjCInterface */ NSDictionary<cpp.Star</* ObjCInterface */ NSString>, \
         cpp.Star</* ObjCInterface */ NSArray<cpp.Star</* ObjCInterface */ NSString>>>>>"
    );
}

#[test]
fn interface_reference_uses_display_name() {
    assert_eq!(map_type(&iface("NSWindow")), "/* ObjCInterface */ NSWindow");
    let t = TypeExpr::InterfaceRef {
        display_name: "NSArray".to_string(),
        type_args: vec![TypeExpr::Id, TypeExpr::Selector],
    };
    assert_eq!(map_type(&t), "/* ObjCInterface */ NSArray<cpp.objc.NSObject, SEL>");
}

#[test]
fn unknown_kind_falls_back_to_marked_display_name() {
    let r = map_type(&other("weird_t", "Elaborated"));
    assert_eq!(r, "weird_t /* Elaborated */");
    assert!(r.contains("weird_t"));
    assert!(r.contains("Elaborated"));
}

#[test]
fn every_kind_maps_to_nonempty_text() {
    let kinds = vec![
        ptr(TypeExpr::Void),
        object(TypeExpr::Void, vec![]),
        object(TypeExpr::Id, vec![TypeExpr::Id]),
        iface(""),
        TypeExpr::Id,
        TypeExpr::Selector,
        TypeExpr::BlockPointer { pointee: Box::new(TypeExpr::Void) },
        TypeExpr::FunctionPrototype,
        TypeExpr::Void,
        other("", ""),
    ];
    for k in kinds.iter() {
        assert!(!map_type(k).is_empty());
    }
    let mut deep = TypeExpr::Id;
    for _ in 0..200 {
        deep = ptr(object(deep, vec![]));
    }
    assert!(map_type(&deep).starts_with("cpp.Star<cpp.Star<"));
}

#[test]
fn type_arguments_join_in_order() {
    assert_eq!(map_args(&vec![]), "");
    assert_eq!(map_args(&vec![TypeExpr::Void]), "Void");
    assert_eq!(map_args(&vec![TypeExpr::Selector, TypeExpr::Void, TypeExpr::Id]), "SEL, Void, cpp.objc.NSObject");
}
