use move_function_analyzer::records::{
    AnalyzerError, FunctionAnalysis, FunctionCall, FunctionCategory, FunctionTypeInfo,
    FunctionVisibility, LocationInfo, Parameter,
};
use move_function_analyzer::text::{contains, ends_with, join_strings, same_bytes, same_text, starts_with};

#[test]
fn line_count_counts_both_ends() {
    assert_eq!(LocationInfo::new("a.move".to_string(), 3, 7).line_count(), 5);
    assert_eq!(LocationInfo::new("a.move".to_string(), 3, 3).line_count(), 1);
    assert_eq!(LocationInfo::new("a.move".to_string(), 0, 0).line_count(), 1);
    assert_eq!(LocationInfo::new("a.move".to_string(), 7, 3).line_count(), 0);
    assert_eq!(LocationInfo::new("a.move".to_string(), 1, u32::MAX).line_count(), u32::MAX);
}

#[test]
fn constructors_keep_their_arguments() {
    let location = LocationInfo::new("a.move".to_string(), 1, 2);
    assert_eq!(location.file, "a.move");
    assert_eq!((location.start_line, location.end_line), (1, 2));
    let parameter = Parameter::new("x".to_string(), "u64".to_string());
    assert_eq!((parameter.name.as_str(), parameter.type_.as_str()), ("x", "u64"));
    let call = FunctionCall::new("b.move".to_string(), "fun f(): ()".to_string(), "b".to_string());
    assert_eq!(call.file, "b.move");
    assert_eq!(call.function, "fun f(): ()");
    assert_eq!(call.module, "b");
    let analysis = FunctionAnalysis::new(
        "m".to_string(),
        "fun g(x: u64): ()".to_string(),
        "fun g(x: u64) {}".to_string(),
        location.clone(),
        vec![parameter.clone()],
        vec![call.clone()],
    );
    assert_eq!(analysis.contract, "m");
    assert_eq!(analysis.function, "fun g(x: u64): ()");
    assert_eq!(analysis.source, "fun g(x: u64) {}");
    assert_eq!(analysis.location, location);
    assert_eq!(analysis.parameters, vec![parameter]);
    assert_eq!(analysis.calls, vec![call]);
}

#[test]
fn error_messages() {
    assert_eq!(
        AnalyzerError::InvalidProjectPath("/x".to_string()).message(),
        "Invalid project path: /x"
    );
    assert_eq!(AnalyzerError::InvalidMoveToml.message(), "Move.toml file not found or invalid");
    assert_eq!(AnalyzerError::FunctionNotFound("f".to_string()).message(), "Function not found: f");
    assert_eq!(AnalyzerError::ParseError("p".to_string()).message(), "Parse error: p");
    assert_eq!(
        AnalyzerError::TypeResolutionError("t".to_string()).message(),
        "Type resolution error: t"
    );
    assert_eq!(AnalyzerError::IoError("i".to_string()).message(), "IO error: i");
    assert_eq!(AnalyzerError::JsonError("j".to_string()).message(), "JSON error: j");
    assert_eq!(AnalyzerError::AnalysisError("a".to_string()).message(), "Analysis error: a");
}

fn info(visibility: FunctionVisibility, entry: bool, native: bool, generic: bool) -> FunctionTypeInfo {
    FunctionTypeInfo {
        visibility,
        is_entry: entry,
        is_native: native,
        category: FunctionCategory::Private,
        has_type_parameters: generic,
        parameter_count: 0,
    }
}

#[test]
fn function_type_info() {
    let plain = info(FunctionVisibility::Private, false, false, false);
    assert!(!plain.is_transaction_callable());
    assert!(!plain.is_externally_accessible());
    assert_eq!(plain.description(), "private function");
    let all = info(FunctionVisibility::PublicFriend, true, true, true);
    assert!(all.is_transaction_callable());
    assert!(all.is_externally_accessible());
    assert_eq!(all.description(), "public(friend) entry native function (generic)");
    let public = info(FunctionVisibility::Public, false, true, false);
    assert!(public.is_externally_accessible());
    assert_eq!(public.description(), "public native function");
    assert_eq!(
        info(FunctionVisibility::Public, true, false, true).description(),
        "public entry function (generic)"
    );
}

#[test]
fn text_helpers() {
    assert!(same_text("abc", "abc"));
    assert!(!same_text("abc", "abd"));
    assert!(!same_text("abc", "ab"));
    assert!(same_text("", ""));
    assert!(same_bytes(&vec![1, 2], &vec![1, 2]));
    assert!(!same_bytes(&vec![1, 2], &vec![1, 3]));
    assert!(!same_bytes(&vec![1, 2], &vec![1]));
    assert!(starts_with("get_value", "get_"));
    assert!(!starts_with("get", "get_"));
    assert!(starts_with("x", ""));
    assert!(ends_with("AdminCap", "Cap"));
    assert!(!ends_with("Cap", "AdminCap"));
    assert!(ends_with("", ""));
    assert!(contains("MyCoinStore", "Coin"));
    assert!(contains("Coin", "Coin"));
    assert!(contains("aaab", "ab"));
    assert!(!contains("Coi", "Coin"));
    assert!(contains("x", ""));
    assert!(contains("", ""));
    assert_eq!(join_strings(&vec![], ", "), "");
    assert_eq!(join_strings(&vec!["a".to_string()], ", "), "a");
    assert_eq!(join_strings(&vec!["a".to_string(), "b".to_string(), "".to_string()], ", "), "a, b, ");
}
