use move_function_analyzer::ast::{
    Exp, FieldInit, Function, FunctionBody, FunctionParameter, Loc, MatchArm, ModuleDefinition,
    ModuleMember, Project, Sequence, SequenceItem, SourceFile, SourceText, Visibility,
};
use move_function_analyzer::calls::CallGraphExtractor;
use move_function_analyzer::records::{FunctionCall, ModuleInfo};
use move_function_analyzer::types::{LeadingName, NameAccessChain, PathEntry, TypeNode};

fn single(name: &str) -> NameAccessChain {
    NameAccessChain::Single(PathEntry { name: name.to_string(), type_args: None })
}

fn path(root: &str, rest: &[&str]) -> NameAccessChain {
    NameAccessChain::Path(
        LeadingName::Name(root.to_string()),
        rest.iter().map(|n| PathEntry { name: n.to_string(), type_args: None }).collect(),
    )
}

fn named(name: &str) -> TypeNode {
    TypeNode::Apply(Box::new(single(name)))
}

fn call(name: &str, args: Vec<Exp>) -> Exp {
    Exp::Call(single(name), args)
}

fn var(name: &str) -> Exp {
    Exp::Name(single(name))
}

fn function(name: &str, params: Vec<(&str, TypeNode)>, ret: TypeNode, body: Vec<Exp>) -> Function {
    Function {
        name: name.to_string(),
        visibility: Visibility::Internal,
        entry: false,
        body: FunctionBody::Defined(Sequence {
            items: body.into_iter().map(SequenceItem::Statement).collect(),
            tail: None,
        }),
        type_parameters: vec![],
        parameters: params
            .into_iter()
            .map(|(n, t)| FunctionParameter { name: n.to_string(), type_: t })
            .collect(),
        return_type: ret,
        loc: Loc { start: 0, end: 0 },
    }
}

fn helper(name: &str) -> ModuleMember {
    ModuleMember::Function(function(name, vec![], TypeNode::Unit, vec![]))
}

fn module(name: &str, members: Vec<ModuleMember>) -> ModuleDefinition {
    ModuleDefinition { address: vec![0; 32], name: name.to_string(), members }
}

fn file(path: &str, modules: Vec<ModuleDefinition>) -> SourceFile {
    SourceFile { path: path.to_string(), text: SourceText::Loaded(String::new()), modules }
}

fn owner(name: &str, path: &str) -> ModuleInfo {
    ModuleInfo { address: vec![0; 32], name: name.to_string(), file_path: path.to_string() }
}

fn body(items: Vec<Exp>) -> FunctionBody {
    FunctionBody::Defined(Sequence {
        items: items.into_iter().map(SequenceItem::Statement).collect(),
        tail: None,
    })
}

fn names(calls: &[FunctionCall]) -> Vec<String> {
    calls.iter().map(|c| c.function.clone()).collect()
}

fn project_with_helpers(helpers: &[&str]) -> Project {
    let mut members: Vec<ModuleMember> = vec![ModuleMember::Struct("Thing".to_string())];
    for h in helpers {
        members.push(helper(h));
    }
    Project { files: vec![file("sources/m.move", vec![module("m", members)])] }
}

#[test]
fn body_without_calls_has_no_edges() {
    let p = project_with_helpers(&["helper"]);
    let x = CallGraphExtractor::new(&p);
    let b = FunctionBody::Defined(Sequence { items: vec![], tail: Some(Box::new(var("x"))) });
    assert!(x.extract(&b, &owner("m", "sources/m.move")).is_empty());
    assert!(x.extract(&FunctionBody::Native, &owner("m", "sources/m.move")).is_empty());
}

#[test]
fn two_calls_of_one_helper_give_one_edge() {
    let p = project_with_helpers(&["helper"]);
    let x = CallGraphExtractor::new(&p);
    let b = body(vec![call("helper", vec![Exp::Value]), call("helper", vec![Exp::Value])]);
    let calls = x.extract(&b, &owner("m", "sources/m.move"));
    assert_eq!(
        calls,
        vec![FunctionCall::new(
            "sources/m.move".to_string(),
            "fun helper(): ()".to_string(),
            "m".to_string()
        )]
    );
}

#[test]
fn three_calls_of_one_helper_give_one_edge() {
    let p = project_with_helpers(&["helper", "other"]);
    let x = CallGraphExtractor::new(&p);
    let b = body(vec![
        call("helper", vec![var("x")]),
        call("other", vec![]),
        call("helper", vec![var("x")]),
        call("helper", vec![var("x")]),
    ]);
    let calls = x.extract(&b, &owner("m", "sources/m.move"));
    assert_eq!(names(&calls), vec!["fun helper(): ()", "fun other(): ()"]);
}

#[test]
fn intrinsics_are_no_edges() {
    let p = project_with_helpers(&["helper"]);
    let x = CallGraphExtractor::new(&p);
    for name in
        ["assert", "move_to", "move_from", "borrow_global", "borrow_global_mut", "exists", "freeze"]
    {
        let b = body(vec![call(name, vec![Exp::Value, Exp::Value])]);
        assert!(x.extract(&b, &owner("m", "sources/m.move")).is_empty());
    }
}

#[test]
fn intrinsic_arguments_are_still_scanned() {
    let p = project_with_helpers(&["helper"]);
    let x = CallGraphExtractor::new(&p);
    let b = body(vec![call("assert", vec![call("helper", vec![]), Exp::Value])]);
    assert_eq!(names(&x.extract(&b, &owner("m", "sources/m.move"))), vec!["fun helper(): ()"]);
}

#[test]
fn unknown_name_is_dropped_but_its_arguments_are_scanned() {
    let p = project_with_helpers(&["helper"]);
    let x = CallGraphExtractor::new(&p);
    let b = body(vec![call("elsewhere", vec![call("helper", vec![])])]);
    assert_eq!(names(&x.extract(&b, &owner("m", "sources/m.move"))), vec!["fun helper(): ()"]);
}

#[test]
fn direct_call_resolves_in_the_owning_module_only() {
    let p = Project {
        files: vec![
            file("a.move", vec![module("a", vec![helper("only_in_a")])]),
            file("b.move", vec![module("b", vec![helper("only_in_b")])]),
        ],
    };
    let x = CallGraphExtractor::new(&p);
    let b = body(vec![call("only_in_a", vec![]), call("only_in_b", vec![])]);
    let from_a = x.extract(&b, &owner("a", "a.move"));
    assert_eq!(names(&from_a), vec!["fun only_in_a(): ()"]);
    assert_eq!(from_a[0].module, "a");
    assert_eq!(from_a[0].file, "a.move");
    let from_b = x.extract(&b, &owner("b", "b.move"));
    assert_eq!(names(&from_b), vec!["fun only_in_b(): ()"]);
    let from_nowhere = x.extract(&b, &owner("c", "c.move"));
    assert!(from_nowhere.is_empty());
    let wrong_file = x.extract(&b, &owner("a", "b.move"));
    assert!(wrong_file.is_empty());
}

#[test]
fn every_construct_is_walked() {
    let helpers: Vec<String> = (0..14).map(|i| format!("h{}", i)).collect();
    let refs: Vec<&str> = helpers.iter().map(|s| s.as_str()).collect();
    let p = project_with_helpers(&refs);
    let x = CallGraphExtractor::new(&p);
    let block = Exp::Block(Sequence {
        items: vec![SequenceItem::Bind(vec!["v".to_string()], None, call("h5", vec![]))],
        tail: Some(Box::new(call("h6", vec![]))),
    });
    let b = body(vec![
        Exp::IfElse(
            Box::new(call("h0", vec![])),
            Box::new(call("h1", vec![])),
            Some(Box::new(call("h2", vec![]))),
        ),
        Exp::While(Box::new(call("h3", vec![])), Box::new(call("h4", vec![]))),
        Exp::Loop(Box::new(block)),
        Exp::BinopExp(Box::new(call("h7", vec![])), Box::new(call("h8", vec![]))),
        Exp::UnaryExp(Box::new(call("h9", vec![]))),
        Exp::Pack(
            single("Thing"),
            vec![FieldInit { name: "f".to_string(), value: call("h10", vec![]) }],
        ),
        Exp::Vector(vec![Exp::Value, call("h11", vec![])]),
        Exp::Match(
            Box::new(var("x")),
            vec![MatchArm { guard: Some(call("h12", vec![])), body: call("h13", vec![]) }],
        ),
    ]);
    let calls = x.extract(&b, &owner("m", "sources/m.move"));
    let expected: Vec<String> = (0..14).map(|i| format!("fun h{}(): ()", i)).collect();
    assert_eq!(names(&calls), expected);
}

#[test]
fn remaining_constructs_are_walked() {
    let helpers: Vec<String> = (0..17).map(|i| format!("g{}", i)).collect();
    let refs: Vec<&str> = helpers.iter().map(|s| s.as_str()).collect();
    let p = project_with_helpers(&refs);
    let x = CallGraphExtractor::new(&p);
    let g = |i: usize| call(&format!("g{}", i), vec![]);
    let b = FunctionBody::Defined(Sequence {
        items: vec![
            SequenceItem::Declare(vec!["d".to_string()], Some(named("u64"))),
            SequenceItem::Statement(Exp::Assign(Box::new(var("d")), Box::new(g(0)))),
            SequenceItem::Statement(Exp::Labeled("l".to_string(), Box::new(g(1)))),
            SequenceItem::Statement(Exp::Lambda(vec!["a".to_string()], Box::new(g(2)))),
            SequenceItem::Statement(Exp::Quant(vec![g(3)], Some(Box::new(g(4))), Box::new(g(5)))),
            SequenceItem::Statement(Exp::ExpList(vec![g(6), Exp::Unit])),
            SequenceItem::Statement(Exp::Parens(Box::new(g(7)))),
            SequenceItem::Statement(Exp::Abort(Some(Box::new(g(8))))),
            SequenceItem::Statement(Exp::Break(Some(Box::new(g(9))))),
            SequenceItem::Statement(Exp::Dereference(Box::new(g(10)))),
            SequenceItem::Statement(Exp::Borrow(true, Box::new(g(11)))),
            SequenceItem::Statement(Exp::Dot(Box::new(g(12)), "f".to_string())),
            SequenceItem::Statement(Exp::Index(Box::new(g(13)), vec![g(14)])),
            SequenceItem::Statement(Exp::Cast(Box::new(g(15)), named("u8"))),
            SequenceItem::Statement(Exp::Continue),
            SequenceItem::Statement(Exp::Spec),
            SequenceItem::Statement(Exp::UnresolvedError),
            SequenceItem::Statement(Exp::Move("d".to_string())),
            SequenceItem::Statement(Exp::Copy("d".to_string())),
            SequenceItem::Statement(Exp::Abort(None)),
        ],
        tail: Some(Box::new(Exp::Return(Some(Box::new(Exp::Annotate(
            Box::new(g(16)),
            named("u64"),
        )))))),
    });
    let calls = x.extract(&b, &owner("m", "sources/m.move"));
    let expected: Vec<String> = (0..17).map(|i| format!("fun g{}(): ()", i)).collect();
    assert_eq!(names(&calls), expected);
}

#[test]
fn method_call_on_a_variable_gives_no_edge() {
    let p = Project {
        files: vec![file(
            "m.move",
            vec![
                module("m", vec![helper("helper")]),
                module("coin", vec![helper("transfer")]),
                module("coin_transfer", vec![helper("transfer")]),
            ],
        )],
    };
    let x = CallGraphExtractor::new(&p);
    let b = body(vec![Exp::DotCall(
        Box::new(var("coin")),
        "transfer".to_string(),
        vec![call("helper", vec![])],
    )]);
    let calls = x.extract(&b, &owner("m", "m.move"));
    assert_eq!(names(&calls), vec!["fun helper(): ()"]);
    for c in &calls {
        assert_eq!(c.module, "m");
        assert!(!c.module.contains("coin"));
    }
}

#[test]
fn method_call_walks_receiver_and_arguments() {
    let p = project_with_helpers(&["make", "arg"]);
    let x = CallGraphExtractor::new(&p);
    let b = body(vec![Exp::DotCall(
        Box::new(call("make", vec![])),
        "apply".to_string(),
        vec![call("arg", vec![])],
    )]);
    let calls = x.extract(&b, &owner("m", "sources/m.move"));
    assert_eq!(names(&calls), vec!["fun make(): ()", "fun arg(): ()"]);
}

#[test]
fn method_call_on_a_constructed_value_resolves_by_its_type() {
    let method = ModuleMember::Function(function(
        "burn",
        vec![("c", named("Coin"))],
        TypeNode::Unit,
        vec![],
    ));
    let unrelated = ModuleMember::Function(function(
        "burn",
        vec![("c", named("Token"))],
        TypeNode::Unit,
        vec![],
    ));
    let p = Project {
        files: vec![file(
            "m.move",
            vec![module("first", vec![unrelated]), module("bank", vec![method])],
        )],
    };
    let x = CallGraphExtractor::new(&p);
    let receiver = Exp::Pack(single("Coin"), vec![]);
    let b = body(vec![Exp::DotCall(Box::new(receiver), "burn".to_string(), vec![])]);
    let calls = x.extract(&b, &owner("first", "m.move"));
    assert_eq!(
        calls,
        vec![FunctionCall::new(
            "m.move".to_string(),
            "fun burn(c: Coin): ()".to_string(),
            "bank".to_string()
        )]
    );
}

#[test]
fn accessor_like_methods_are_no_calls() {
    let getter = |name: &str| {
        ModuleMember::Function(function(name, vec![("c", named("Coin"))], TypeNode::Unit, vec![]))
    };
    let p = Project {
        files: vec![file(
            "m.move",
            vec![module(
                "bank",
                vec![getter("get_value"), getter("is_zero"), getter("has_key"), getter("value"), getter("length")],
            )],
        )],
    };
    let x = CallGraphExtractor::new(&p);
    for name in ["get_value", "is_zero", "has_key", "value", "length"] {
        let receiver = Exp::Pack(single("Coin"), vec![]);
        let b = body(vec![Exp::DotCall(Box::new(receiver), name.to_string(), vec![])]);
        assert!(x.extract(&b, &owner("bank", "m.move")).is_empty());
    }
}

#[test]
fn qualified_call_resolves_in_the_named_module() {
    let p = Project {
        files: vec![
            file("a.move", vec![module("a", vec![helper("run")])]),
            file("b.move", vec![module("b", vec![helper("run")])]),
        ],
    };
    let x = CallGraphExtractor::new(&p);
    let b = body(vec![Exp::Call(path("b", &["run"]), vec![])]);
    let calls = x.extract(&b, &owner("a", "a.move"));
    assert_eq!(
        calls,
        vec![FunctionCall::new("b.move".to_string(), "fun run(): ()".to_string(), "b".to_string())]
    );
}

#[test]
fn qualified_call_on_a_type_finds_the_function_that_takes_it() {
    let takes = ModuleMember::Function(function(
        "split",
        vec![("c", TypeNode::Ref(true, Box::new(named("Coin"))))],
        named("Coin"),
        vec![],
    ));
    let p = Project { files: vec![file("bank.move", vec![module("bank", vec![takes])])] };
    let x = CallGraphExtractor::new(&p);
    let b = body(vec![Exp::Call(path("Coin", &["split"]), vec![var("c")])]);
    let calls = x.extract(&b, &owner("other", "other.move"));
    assert_eq!(names(&calls), vec!["fun split(c: &mut Coin): Coin"]);
    assert_eq!(calls[0].module, "bank");
    let missing = body(vec![Exp::Call(path("Token", &["split"]), vec![var("c")])]);
    assert!(x.extract(&missing, &owner("other", "other.move")).is_empty());
}

#[test]
fn standard_library_modules_are_skipped() {
    let p = Project {
        files: vec![file("v.move", vec![module("vector", vec![helper("push_back")])])],
    };
    let x = CallGraphExtractor::new(&p);
    let b = body(vec![Exp::Call(path("vector", &["push_back"]), vec![])]);
    assert!(x.extract(&b, &owner("m", "m.move")).is_empty());
}

#[test]
fn fully_qualified_call_gives_an_external_edge() {
    let p = project_with_helpers(&[]);
    let x = CallGraphExtractor::new(&p);
    let b = body(vec![Exp::Call(path("deepbook", &["clob", "place_order"]), vec![])]);
    let calls = x.extract(&b, &owner("m", "sources/m.move"));
    assert_eq!(
        calls,
        vec![FunctionCall::new(
            "external:deepbook".to_string(),
            "deepbook::clob::place_order".to_string(),
            "clob".to_string()
        )]
    );
}

#[test]
fn fully_qualified_call_by_numeric_address() {
    let p = project_with_helpers(&[]);
    let x = CallGraphExtractor::new(&p);
    let chain = |bytes: Vec<u8>| {
        NameAccessChain::Path(
            LeadingName::AnonymousAddress(bytes),
            vec![
                PathEntry { name: "m".to_string(), type_args: None },
                PathEntry { name: "f".to_string(), type_args: None },
            ],
        )
    };
    let calls = x.extract(
        &body(vec![Exp::Call(chain(vec![0xab, 0x01]), vec![])]),
        &owner("m", "sources/m.move"),
    );
    assert_eq!(
        calls,
        vec![FunctionCall::new(
            "external:0xab01".to_string(),
            "0xab01::m::f".to_string(),
            "m".to_string()
        )]
    );
    for last in [1u8, 2, 3] {
        let mut bytes = vec![0u8; 32];
        bytes[31] = last;
        let b = body(vec![Exp::Call(chain(bytes), vec![])]);
        assert!(x.extract(&b, &owner("m", "sources/m.move")).is_empty());
    }
    let b = body(vec![Exp::Call(chain(vec![0, 4]), vec![])]);
    assert_eq!(x.extract(&b, &owner("m", "sources/m.move")).len(), 1);
    let b = body(vec![Exp::Call(chain(vec![1, 1]), vec![])]);
    assert_eq!(x.extract(&b, &owner("m", "sources/m.move")).len(), 1);
    let b = body(vec![Exp::Call(chain(vec![]), vec![])]);
    assert_eq!(x.extract(&b, &owner("m", "sources/m.move")).len(), 1);
}

#[test]
fn framework_namespaces_are_skipped() {
    let p = project_with_helpers(&[]);
    let x = CallGraphExtractor::new(&p);
    for root in ["std", "sui", "sui_system"] {
        let b = body(vec![Exp::Call(path(root, &["coin", "mint"]), vec![])]);
        assert!(x.extract(&b, &owner("m", "sources/m.move")).is_empty());
    }
}

#[test]
fn longer_paths_give_no_edge() {
    let p = project_with_helpers(&["helper"]);
    let x = CallGraphExtractor::new(&p);
    let b = body(vec![Exp::Call(path("a", &["b", "c", "d"]), vec![call("helper", vec![])])]);
    assert_eq!(names(&x.extract(&b, &owner("m", "sources/m.move"))), vec!["fun helper(): ()"]);
}

#[test]
fn overloads_in_different_modules_are_different_edges() {
    let p = Project {
        files: vec![
            file("a.move", vec![module("a", vec![helper("run")])]),
            file("b.move", vec![module("b", vec![helper("run")])]),
        ],
    };
    let x = CallGraphExtractor::new(&p);
    let b = body(vec![
        Exp::Call(path("a", &["run"]), vec![]),
        Exp::Call(path("b", &["run"]), vec![]),
        call("run", vec![]),
    ]);
    let calls = x.extract(&b, &owner("a", "a.move"));
    assert_eq!(calls.len(), 2);
    assert_eq!(calls[0].module, "a");
    assert_eq!(calls[1].module, "b");
}
