use move_function_analyzer::analyzer::FunctionAnalyzer;
use move_function_analyzer::ast::{
    Exp, Function, FunctionBody, FunctionParameter, Loc, ModuleDefinition, ModuleMember, Project,
    Sequence, SequenceItem, SourceFile, SourceText, Visibility,
};
use move_function_analyzer::index::FunctionIndex;
use move_function_analyzer::records::{AnalyzerError, FunctionCall, LocationInfo, ModuleInfo, Parameter};
use move_function_analyzer::types::{NameAccessChain, PathEntry, TypeNode};

fn single(name: &str) -> NameAccessChain {
    NameAccessChain::Single(PathEntry { name: name.to_string(), type_args: None })
}

fn named(name: &str) -> TypeNode {
    TypeNode::Apply(Box::new(single(name)))
}

fn function_at(text: &str, name: &str, params: Vec<(&str, &str)>, ret: &str, body: Sequence) -> Function {
    let head = format!("fun {}", name);
    let start = text.find(&head).unwrap();
    let end = text[start..].find('}').unwrap() + start + 1;
    Function {
        name: name.to_string(),
        visibility: Visibility::Internal,
        entry: false,
        body: FunctionBody::Defined(body),
        type_parameters: vec![],
        parameters: params
            .into_iter()
            .map(|(n, t)| FunctionParameter { name: n.to_string(), type_: named(t) })
            .collect(),
        return_type: named(ret),
        loc: Loc { start: start as u32, end: end as u32 },
    }
}

const TEXT: &str = "module pkg::m {\n    /// Returns its argument.\n    fun test(x: u64, y: bool): u64 { x }\n\n    fun helper(v: u64): u64 { v }\n\n    fun twice() { helper(1); helper(2); }\n}\n";

fn project() -> Project {
    let test = function_at(
        TEXT,
        "test",
        vec![("x", "u64"), ("y", "bool")],
        "u64",
        Sequence { items: vec![], tail: Some(Box::new(Exp::Name(single("x")))) },
    );
    let helper = function_at(
        TEXT,
        "helper",
        vec![("v", "u64")],
        "u64",
        Sequence { items: vec![], tail: Some(Box::new(Exp::Name(single("v")))) },
    );
    let mut twice = function_at(
        TEXT,
        "twice",
        vec![],
        "u64",
        Sequence {
            items: vec![
                SequenceItem::Statement(Exp::Call(single("helper"), vec![Exp::Value])),
                SequenceItem::Statement(Exp::Call(single("helper"), vec![Exp::Value])),
            ],
            tail: None,
        },
    );
    twice.return_type = TypeNode::Unit;
    Project {
        files: vec![SourceFile {
            path: "sources/m.move".to_string(),
            text: SourceText::Loaded(TEXT.to_string()),
            modules: vec![ModuleDefinition {
                address: vec![7; 32],
                name: "m".to_string(),
                members: vec![
                    ModuleMember::Struct("S".to_string()),
                    ModuleMember::Function(test),
                    ModuleMember::Function(helper),
                    ModuleMember::Other,
                    ModuleMember::Function(twice),
                ],
            }],
        }],
    }
}

fn simple(name: &str) -> Function {
    Function {
        name: name.to_string(),
        visibility: Visibility::Public,
        entry: false,
        body: FunctionBody::Native,
        type_parameters: vec![],
        parameters: vec![],
        return_type: TypeNode::Unit,
        loc: Loc { start: 0, end: 3 },
    }
}

fn one_module_file(path: &str, text: SourceText, module: &str, functions: &[&str]) -> SourceFile {
    SourceFile {
        path: path.to_string(),
        text,
        modules: vec![ModuleDefinition {
            address: vec![1],
            name: module.to_string(),
            members: functions.iter().map(|n| ModuleMember::Function(simple(n))).collect(),
        }],
    }
}

#[test]
fn report_on_a_function_without_calls() {
    let p = project();
    let a = FunctionAnalyzer::new(&p);
    let reports = a.analyze_function("test").unwrap();
    assert_eq!(reports.len(), 1);
    let r = &reports[0];
    assert_eq!(r.contract, "m");
    assert_eq!(r.function, "fun test(x: u64, y: bool): u64");
    assert!(r.function.ends_with("test(x: u64, y: bool): u64"));
    assert_eq!(
        r.parameters,
        vec![
            Parameter::new("x".to_string(), "u64".to_string()),
            Parameter::new("y".to_string(), "bool".to_string())
        ]
    );
    assert!(r.calls.is_empty());
    assert_eq!(r.location, LocationInfo::new("sources/m.move".to_string(), 2, 3));
    assert_eq!(
        r.source,
        "    /// Returns its argument.\n    fun test(x: u64, y: bool): u64 { x }"
    );
}

#[test]
fn report_on_a_function_with_two_calls_of_one_helper() {
    let p = project();
    let a = FunctionAnalyzer::new(&p);
    let reports = a.analyze_function("twice").unwrap();
    assert_eq!(reports.len(), 1);
    assert_eq!(
        reports[0].calls,
        vec![FunctionCall::new(
            "sources/m.move".to_string(),
            "fun helper(v: u64): u64".to_string(),
            "m".to_string()
        )]
    );
    assert_eq!(reports[0].function, "fun twice(): ()");
    assert_eq!(reports[0].location.start_line, 6);
    assert_eq!(reports[0].location.end_line, 7);
    assert_eq!(reports[0].location.line_count(), 2);
}

#[test]
fn analysis_twice_gives_the_same_reports() {
    let p = project();
    let a = FunctionAnalyzer::new(&p);
    assert_eq!(a.analyze_function("twice").unwrap(), a.analyze_function("twice").unwrap());
    let b = FunctionAnalyzer::new(&p);
    assert_eq!(a.analyze_function("test").unwrap(), b.analyze_function("test").unwrap());
}

#[test]
fn blank_name_is_rejected() {
    let p = project();
    let a = FunctionAnalyzer::new(&p);
    for name in ["", " ", "\t\n", "  \r\n "] {
        match a.analyze_function(name) {
            Err(AnalyzerError::AnalysisError(m)) => assert_eq!(m, "Function name cannot be empty"),
            other => panic!("unexpected: {:?}", other),
        }
        assert!(FunctionAnalyzer::is_blank(name));
    }
    assert!(!FunctionAnalyzer::is_blank(" x "));
}

#[test]
fn unknown_name_is_not_found() {
    let p = project();
    let a = FunctionAnalyzer::new(&p);
    match a.analyze_function("missing") {
        Err(e) => {
            assert_eq!(e, AnalyzerError::FunctionNotFound("missing".to_string()));
            assert_eq!(e.message(), "Function not found: missing");
        },
        other => panic!("unexpected: {:?}", other),
    }
    assert!(matches!(a.analyze_function("Test"), Err(AnalyzerError::FunctionNotFound(_))));
    assert!(matches!(a.analyze_function("S"), Err(AnalyzerError::FunctionNotFound(_))));
}

#[test]
fn definitions_are_found_in_order_of_files_and_modules() {
    let p = Project {
        files: vec![
            one_module_file("a.move", SourceText::Loaded("abc".to_string()), "a", &["f", "g", "f"]),
            one_module_file("b.move", SourceText::Loaded("abc".to_string()), "b", &["g", "f"]),
        ],
    };
    let index = FunctionIndex::new(&p);
    let found = index.find_by_name("f");
    let places: Vec<(String, String)> = found
        .iter()
        .map(|d| (d.module_info.file_path.clone(), d.module_info.name.clone()))
        .collect();
    assert_eq!(
        places,
        vec![
            ("a.move".to_string(), "a".to_string()),
            ("a.move".to_string(), "a".to_string()),
            ("b.move".to_string(), "b".to_string())
        ]
    );
    assert_eq!(found[0].module_info.address, vec![1]);
    assert_eq!(found[0].location, Loc { start: 0, end: 3 });
    assert_eq!(found[0].function.name, "f");
    assert!(index.find_by_name("h").is_empty());
    assert!(index.find_by_name("").is_empty());
    let (m, path) = index.find_module_by_name("b").unwrap();
    assert_eq!(m.name, "b");
    assert_eq!(path, "b.move");
    assert!(index.find_module_by_name("c").is_none());
    let info = ModuleInfo { address: vec![1], name: "b".to_string(), file_path: "b.move".to_string() };
    assert_eq!(index.find_owning_module(&info).unwrap().name, "b");
    let other_address =
        ModuleInfo { address: vec![2], name: "b".to_string(), file_path: "b.move".to_string() };
    assert!(index.find_owning_module(&other_address).is_none());
    let other_file =
        ModuleInfo { address: vec![1], name: "b".to_string(), file_path: "a.move".to_string() };
    assert!(index.find_owning_module(&other_file).is_none());
    assert_eq!(FunctionIndex::find_function(m, "g").unwrap().name, "g");
    assert!(FunctionIndex::find_function(m, "x").is_none());
}

#[test]
fn first_module_of_a_name_wins() {
    let p = Project {
        files: vec![
            one_module_file("first.move", SourceText::Loaded(String::new()), "m", &["f"]),
            one_module_file("second.move", SourceText::Loaded(String::new()), "m", &["g"]),
        ],
    };
    let index = FunctionIndex::new(&p);
    let (_, path) = index.find_module_by_name("m").unwrap();
    assert_eq!(path, "first.move");
}

#[test]
fn one_failing_definition_gets_a_degraded_report() {
    let p = Project {
        files: vec![
            one_module_file("a.move", SourceText::Unreadable("permission denied".to_string()), "a", &["f"]),
            one_module_file("b.move", SourceText::Loaded("fun f() {}".to_string()), "b", &["f"]),
            one_module_file("c.move", SourceText::Loaded("x".to_string()), "c", &["f"]),
        ],
    };
    let a = FunctionAnalyzer::new(&p);
    let reports = a.analyze_function("f").unwrap();
    assert_eq!(reports.len(), 3);
    assert_eq!(reports[0].contract, "a");
    assert_eq!(reports[0].function, "f(...)");
    assert_eq!(
        reports[0].source,
        "// Error extracting function details: IO error: permission denied"
    );
    assert_eq!(reports[0].location, LocationInfo::new("a.move".to_string(), 0, 0));
    assert!(reports[0].parameters.is_empty());
    assert!(reports[0].calls.is_empty());
    assert_eq!(reports[1].contract, "b");
    assert_eq!(reports[1].function, "public native fun f(): ()");
    assert_eq!(reports[1].source, "fun f() {}");
    assert_eq!(reports[1].location, LocationInfo::new("b.move".to_string(), 1, 1));
    assert_eq!(reports[2].function, "f(...)");
    assert_eq!(
        reports[2].source,
        "// Error extracting function details: Analysis error: Byte offset exceeds file length"
    );
}

#[test]
fn analysis_fails_where_every_definition_fails() {
    let p = Project {
        files: vec![
            one_module_file("a.move", SourceText::Unreadable("gone".to_string()), "a", &["f"]),
            one_module_file("b.move", SourceText::Loaded("x".to_string()), "b", &["f", "f"]),
        ],
    };
    let a = FunctionAnalyzer::new(&p);
    match a.analyze_function("f") {
        Err(AnalyzerError::AnalysisError(m)) => {
            assert_eq!(m, "Failed to analyze any definition of function: f")
        },
        other => panic!("unexpected: {:?}", other),
    }
}

#[test]
fn definition_errors_name_their_cause() {
    let p = Project {
        files: vec![
            one_module_file("a.move", SourceText::Unreadable("gone".to_string()), "a", &["f"]),
            one_module_file("b.move", SourceText::Loaded("x".to_string()), "b", &["f"]),
        ],
    };
    let a = FunctionAnalyzer::new(&p);
    let f = simple("f");
    let info = |path: &str| ModuleInfo {
        address: vec![1],
        name: "a".to_string(),
        file_path: path.to_string(),
    };
    assert_eq!(
        a.analyze_definition(&f, &info("a.move")),
        Err(AnalyzerError::IoError("gone".to_string()))
    );
    assert_eq!(
        a.analyze_definition(&f, &info("b.move")),
        Err(AnalyzerError::AnalysisError("Byte offset exceeds file length".to_string()))
    );
    assert_eq!(
        a.analyze_definition(&f, &info("c.move")),
        Err(AnalyzerError::IoError("No such source file: c.move".to_string()))
    );
    assert!(a.find_file("a.move").is_some());
    assert!(a.find_file("c.move").is_none());
}
