use move_function_analyzer::ast::{
    Ability, Function, FunctionBody, FunctionParameter, Loc, Sequence, TypeParameter, Visibility,
};
use move_function_analyzer::signature::SignatureBuilder;
use move_function_analyzer::type_resolver::TypeResolver;
use move_function_analyzer::types::{LeadingName, NameAccessChain, PathEntry, TypeNode};

fn named(name: &str) -> TypeNode {
    TypeNode::Apply(Box::new(NameAccessChain::Single(PathEntry {
        name: name.to_string(),
        type_args: None,
    })))
}

fn generic(name: &str, args: Vec<TypeNode>) -> TypeNode {
    TypeNode::Apply(Box::new(NameAccessChain::Single(PathEntry {
        name: name.to_string(),
        type_args: Some(args),
    })))
}

fn count(s: &str, c: char) -> usize {
    s.chars().filter(|x| *x == c).count()
}

fn function(name: &str, params: Vec<(&str, TypeNode)>, ret: TypeNode) -> Function {
    Function {
        name: name.to_string(),
        visibility: Visibility::Internal,
        entry: false,
        body: FunctionBody::Defined(Sequence { items: vec![], tail: None }),
        type_parameters: vec![],
        parameters: params
            .into_iter()
            .map(|(n, t)| FunctionParameter { name: n.to_string(), type_: t })
            .collect(),
        return_type: ret,
        loc: Loc { start: 0, end: 0 },
    }
}

#[test]
fn unit_renders_as_empty_brackets() {
    let r = TypeResolver::new();
    assert_eq!(r.type_to_string(&TypeNode::Unit), "()");
    assert_eq!(r.format_unit_type(), "()");
}

#[test]
fn empty_tuple_renders_like_unit() {
    let r = TypeResolver::new();
    assert_eq!(r.type_to_string(&TypeNode::Multiple(vec![])), "()");
}

#[test]
fn tuple_renders_with_commas() {
    let r = TypeResolver::new();
    let t = TypeNode::Multiple(vec![named("u64"), named("bool"), named("address")]);
    assert_eq!(r.type_to_string(&t), "(u64, bool, address)");
}

#[test]
fn references_render_with_and_without_mut() {
    let r = TypeResolver::new();
    assert_eq!(r.type_to_string(&TypeNode::Ref(false, Box::new(named("Coin")))), "&Coin");
    assert_eq!(r.type_to_string(&TypeNode::Ref(true, Box::new(named("Coin")))), "&mut Coin");
    assert_eq!(r.format_reference_type(true, &named("u8")), "&mut u8");
}

#[test]
fn function_type_renders_with_bars_and_arrow() {
    let r = TypeResolver::new();
    let t = TypeNode::Fun(vec![named("u64"), named("bool")], Box::new(named("u8")));
    assert_eq!(r.type_to_string(&t), "|u64, bool| -> u8");
    let none = TypeNode::Fun(vec![], Box::new(TypeNode::Unit));
    assert_eq!(r.type_to_string(&none), "|| -> ()");
}

#[test]
fn unresolved_type_renders_as_sentinel() {
    let r = TypeResolver::new();
    assert_eq!(r.type_to_string(&TypeNode::UnresolvedError), "UnresolvedError");
}

#[test]
fn nested_generics_render_in_full() {
    let r = TypeResolver::new();
    let t = generic(
        "Table",
        vec![named("address"), generic("vector", vec![generic("Option", vec![named("u64")])])],
    );
    assert_eq!(r.type_to_string(&t), "Table<address, vector<Option<u64>>>");
}

#[test]
fn empty_type_argument_list_renders_empty_angle_brackets() {
    let r = TypeResolver::new();
    assert_eq!(r.type_to_string(&generic("Box", vec![])), "Box<>");
}

#[test]
fn qualified_names_render_with_double_colons() {
    let r = TypeResolver::new();
    let two = TypeNode::Apply(Box::new(NameAccessChain::Path(
        LeadingName::Name("coin".to_string()),
        vec![PathEntry { name: "Coin".to_string(), type_args: Some(vec![named("SUI")]) }],
    )));
    assert_eq!(r.type_to_string(&two), "coin::Coin<SUI>");
    let three = TypeNode::Apply(Box::new(NameAccessChain::Path(
        LeadingName::Name("sui".to_string()),
        vec![
            PathEntry { name: "object".to_string(), type_args: None },
            PathEntry { name: "UID".to_string(), type_args: None },
        ],
    )));
    assert_eq!(r.type_to_string(&three), "sui::object::UID");
}

#[test]
fn global_address_renders_with_at_sign() {
    let r = TypeResolver::new();
    let t = TypeNode::Apply(Box::new(NameAccessChain::Path(
        LeadingName::GlobalAddress("pkg".to_string()),
        vec![PathEntry { name: "m".to_string(), type_args: None }],
    )));
    assert_eq!(r.type_to_string(&t), "@pkg::m");
}

#[test]
fn numeric_address_renders_as_lowercase_hex() {
    let r = TypeResolver::new();
    let t = TypeNode::Apply(Box::new(NameAccessChain::Path(
        LeadingName::AnonymousAddress(vec![0x00, 0x0f, 0xa1, 0xff]),
        vec![
            PathEntry { name: "m".to_string(), type_args: None },
            PathEntry { name: "T".to_string(), type_args: None },
        ],
    )));
    assert_eq!(r.type_to_string(&t), "0x000fa1ff::m::T");
}

#[test]
fn numeric_address_of_full_width_has_sixty_four_digits() {
    let r = TypeResolver::new();
    let mut bytes = vec![0u8; 32];
    bytes[31] = 2;
    let t = TypeNode::Apply(Box::new(NameAccessChain::Path(
        LeadingName::AnonymousAddress(bytes),
        vec![PathEntry { name: "coin".to_string(), type_args: None }],
    )));
    let s = r.type_to_string(&t);
    assert_eq!(s.len(), 2 + 64 + 2 + 4);
    assert!(s.starts_with("0x0000"));
    assert!(s.ends_with("02::coin"));
}

#[test]
fn rendering_twice_gives_the_same_text() {
    let r = TypeResolver::new();
    let t = TypeNode::Ref(
        true,
        Box::new(generic("Table", vec![named("address"), generic("vector", vec![named("u8")])])),
    );
    assert_eq!(r.type_to_string(&t), r.type_to_string(&t));
    assert_eq!(TypeResolver::new().type_to_string(&t), r.type_to_string(&t));
}

#[test]
fn brackets_balance_in_rendered_types() {
    let r = TypeResolver::new();
    let t = TypeNode::Multiple(vec![
        generic("Table", vec![named("address"), generic("vector", vec![named("u8")])]),
        TypeNode::Unit,
        TypeNode::Ref(false, Box::new(TypeNode::Multiple(vec![named("u8"), named("u8")]))),
    ]);
    let s = r.type_to_string(&t);
    assert_eq!(count(&s, '<'), count(&s, '>'));
    assert_eq!(count(&s, '('), count(&s, ')'));
    assert_eq!(count(&s, '<'), 2);
    assert_eq!(count(&s, '('), 3);
}

#[test]
fn function_type_adds_one_closing_angle_bracket() {
    let r = TypeResolver::new();
    let t = TypeNode::Fun(vec![generic("vector", vec![named("u8")])], Box::new(named("u64")));
    let s = r.type_to_string(&t);
    assert_eq!(s, "|vector<u8>| -> u64");
    assert_eq!(count(&s, '>'), count(&s, '<') + 1);
    assert_eq!(count(&s, '('), count(&s, ')'));
}

#[test]
fn signature_of_private_function() {
    let b = SignatureBuilder::new();
    let f = function("test", vec![("x", named("u64")), ("y", named("bool"))], named("u64"));
    let s = b.build_signature(&f);
    assert_eq!(s, "fun test(x: u64, y: bool): u64");
    assert!(s.ends_with("test(x: u64, y: bool): u64"));
    let ps = b.extract_parameters(&f);
    assert_eq!(ps.len(), 2);
    assert_eq!(ps[0].name, "x");
    assert_eq!(ps[0].type_, "u64");
    assert_eq!(ps[1].name, "y");
    assert_eq!(ps[1].type_, "bool");
}

#[test]
fn signature_of_friend_function_with_constrained_type_parameter() {
    let b = SignatureBuilder::new();
    let mut f = function("name", vec![("v", named("T"))], TypeNode::Unit);
    f.visibility = Visibility::Friend;
    f.type_parameters =
        vec![TypeParameter { name: "T".to_string(), abilities: vec![Ability::Copy, Ability::Drop] }];
    assert_eq!(b.build_signature(&f), "public(friend) fun name<T: copy + drop>(v: T): ()");
}

#[test]
fn signature_tokens_stand_in_fixed_order() {
    let b = SignatureBuilder::new();
    let mut f = function("mint", vec![], named("u64"));
    f.visibility = Visibility::Public;
    f.entry = true;
    f.body = FunctionBody::Native;
    f.type_parameters = vec![
        TypeParameter { name: "T".to_string(), abilities: vec![Ability::Key, Ability::Store] },
        TypeParameter { name: "U".to_string(), abilities: vec![] },
    ];
    assert_eq!(b.build_signature(&f), "public entry native fun mint<T: key + store, U>(): u64");
    f.visibility = Visibility::Package;
    f.entry = false;
    f.body = FunctionBody::Defined(Sequence { items: vec![], tail: None });
    f.type_parameters = vec![];
    assert_eq!(b.build_signature(&f), "public(package) fun mint(): u64");
}

#[test]
fn brackets_balance_in_signatures() {
    let b = SignatureBuilder::new();
    let mut f = function(
        "swap",
        vec![
            ("a", TypeNode::Ref(true, Box::new(generic("Coin", vec![named("X")])))),
            ("b", TypeNode::Multiple(vec![named("u8"), named("u8")])),
        ],
        generic("Option", vec![generic("Coin", vec![named("Y")])]),
    );
    f.visibility = Visibility::Friend;
    f.type_parameters = vec![
        TypeParameter { name: "X".to_string(), abilities: vec![Ability::Store] },
        TypeParameter { name: "Y".to_string(), abilities: vec![] },
    ];
    let s = b.build_signature(&f);
    assert_eq!(
        s,
        "public(friend) fun swap<X: store, Y>(a: &mut Coin<X>, b: (u8, u8)): Option<Coin<Y>>"
    );
    assert_eq!(count(&s, '<'), count(&s, '>'));
    assert_eq!(count(&s, '('), count(&s, ')'));
}

#[test]
fn struct_type_with_and_without_arguments() {
    let r = TypeResolver::new();
    assert_eq!(r.resolve_struct_type("Coin", None), "Coin");
    assert_eq!(r.resolve_struct_type("Coin", Some(&vec![])), "Coin");
    assert_eq!(r.resolve_struct_type("Coin", Some(&vec![named("SUI")])), "Coin<SUI>");
    assert_eq!(r.find_qualified_struct_name("Coin"), Some("Coin".to_string()));
    assert_eq!(r.format_vector_type(&named("u8")), "vector<u8>");
    assert_eq!(r.handle_nested_generics("Table", &vec![]), "Table");
    assert_eq!(
        r.handle_nested_generics(
            "Table",
            &vec![named("u8"), generic("A", vec![generic("B", vec![generic("C", vec![named("D")])])])]
        ),
        "Table<u8, A<B<C<D>>>>"
    );
}

#[test]
fn basic_and_resource_type_names() {
    let r = TypeResolver::new();
    for n in ["u8", "u16", "u32", "u64", "u128", "u256", "bool", "address", "signer", "vector"] {
        assert!(r.is_basic_move_type(n));
    }
    assert!(!r.is_basic_move_type("u7"));
    assert!(!r.is_basic_move_type(""));
    assert!(r.is_resource_type("MyCoin"));
    assert!(r.is_resource_type("ObjectBag"));
    assert!(r.is_resource_type("UID"));
    assert!(r.is_resource_type("AdminCap"));
    assert!(r.is_resource_type("OneTimeWitness"));
    assert!(!r.is_resource_type("Capability"));
    assert!(!r.is_resource_type("Balance"));
    assert!(!r.is_resource_type(""));
}

#[test]
fn capabilities_follow_the_name() {
    let r = TypeResolver::new();
    assert_eq!(r.infer_type_capabilities("u64"), vec!["copy", "drop", "store"]);
    assert_eq!(r.infer_type_capabilities("AdminCap"), vec!["key"]);
    assert_eq!(r.infer_type_capabilities("CoinStore"), vec!["key", "store"]);
    assert_eq!(r.infer_type_capabilities("ObjectData"), vec!["key", "store"]);
    assert_eq!(r.infer_type_capabilities("vector<Foo>"), vec!["store"]);
    assert_eq!(r.infer_type_capabilities("Foo"), vec!["unknown"]);
    let (name, caps) = r.resolve_resource_type_with_capabilities("AdminCap");
    assert_eq!(name, "AdminCap");
    assert_eq!(caps, vec!["key"]);
}

#[test]
fn readable_text_keeps_compact_types() {
    let r = TypeResolver::new();
    assert_eq!(r.enhance_type_readability("Table<u8, vector<u8>>"), "Table<u8, vector<u8>>");
    assert_eq!(r.enhance_type_readability("  Coin <SUI>  "), "Coin<SUI>");
    assert_eq!(r.enhance_type_readability("\u{2003}u64\t\n"), "u64");
    assert_eq!(r.enhance_type_readability(""), "");
    assert_eq!(r.generate_readable_type_string(&generic("Coin", vec![named("SUI")])), "Coin<SUI>");
    assert!(r.contains_generics("Coin<SUI>"));
    assert!(!r.contains_generics("Coin<"));
    assert!(!r.contains_generics("u64"));
    assert_eq!(r.format_deeply_nested_type("A<B<C<D>>>"), "A<B<C<D>>>");
    assert_eq!(r.simplify_deep_nesting("A<B>"), "A<B>");
}

#[test]
fn complexity_adds_up() {
    let r = TypeResolver::new();
    assert_eq!(r.calculate_type_complexity(&TypeNode::Unit), 0);
    assert_eq!(r.calculate_type_complexity(&TypeNode::UnresolvedError), 0);
    assert_eq!(r.calculate_type_complexity(&named("u64")), 1);
    assert_eq!(r.calculate_type_complexity(&generic("vector", vec![named("u8")])), 2);
    assert_eq!(r.calculate_type_complexity(&TypeNode::Ref(false, Box::new(named("u8")))), 2);
    let f = TypeNode::Fun(vec![named("u8"), named("u8")], Box::new(named("bool")));
    assert_eq!(r.calculate_type_complexity(&f), 5);
    assert_eq!(r.calculate_type_complexity(&TypeNode::Multiple(vec![named("u8"), f])), 7);
    let path = TypeNode::Apply(Box::new(NameAccessChain::Path(
        LeadingName::Name("m".to_string()),
        vec![PathEntry { name: "T".to_string(), type_args: Some(vec![named("u8")]) }],
    )));
    assert_eq!(r.calculate_type_complexity(&path), 2);
}

#[test]
fn comprehensive_type_info() {
    let r = TypeResolver::new();
    let info =
        r.generate_comprehensive_type_info(&TypeNode::Ref(true, Box::new(generic("Coin", vec![named("SUI")]))));
    assert_eq!(info.type_string, "&mut Coin<SUI>");
    assert_eq!(info.readable_string, "&mut Coin<SUI>");
    assert!(info.is_reference);
    assert!(info.is_mutable);
    assert!(info.is_generic);
    assert_eq!(info.complexity_level, 3);
    assert!(info.capabilities.is_empty());
    let plain = r.generate_comprehensive_type_info(&named("u64"));
    assert!(!plain.is_reference);
    assert!(!plain.is_mutable);
    assert!(!plain.is_generic);
    assert_eq!(plain.complexity_level, 1);
    assert_eq!(plain.capabilities, vec!["copy", "drop", "store"]);
}
