//! The records that an analysis hands out, and its errors.

use vstd::prelude::*;
use vstd::string::*;
use crate::ast::{Function, Loc};

verus! {

/// Where a function stands: its file and its first and last line, counted
/// from one.
#[derive(Debug, Clone, PartialEq, Eq)]
pub struct LocationInfo {
    pub file: String,
    pub start_line: u32,
    pub end_line: u32,
}

/// A parameter with its name and the text of its type.
#[derive(Debug, Clone, PartialEq, Eq)]
pub struct Parameter {
    pub name: String,
    pub type_: String,
}

/// A call edge: the callee's file, its signature and its module.
#[derive(Debug, Clone, PartialEq, Eq)]
pub struct FunctionCall {
    pub file: String,
    pub function: String,
    pub module: String,
}

/// The full report on one function.
#[derive(Debug, Clone, PartialEq, Eq)]
pub struct FunctionAnalysis {
    pub contract: String,
    pub function: String,
    pub source: String,
    pub location: LocationInfo,
    pub parameters: Vec<Parameter>,
    pub calls: Vec<FunctionCall>,
}

/// What can go wrong in an analysis.
#[derive(Debug, Clone, PartialEq, Eq)]
pub enum AnalyzerError {
    InvalidProjectPath(String),
    InvalidMoveToml,
    FunctionNotFound(String),
    ParseError(String),
    TypeResolutionError(String),
    IoError(String),
    JsonError(String),
    AnalysisError(String),
}

/// The module that owns a function.
#[derive(Debug, Clone, PartialEq, Eq)]
pub struct ModuleInfo {
    pub address: Vec<u8>,
    pub name: String,
    pub file_path: String,
}

/// A function definition together with the module that owns it.
#[derive(Debug, PartialEq, Eq)]
pub struct FunctionDef<'a> {
    pub function: &'a Function,
    pub module_info: ModuleInfo,
    pub location: Loc,
}

/// The text of a parameter record.
pub struct ParameterText {
    pub name: Seq<char>,
    pub type_: Seq<char>,
}

/// The text of a call edge.
pub struct CallText {
    pub file: Seq<char>,
    pub function: Seq<char>,
    pub module: Seq<char>,
}

/// The text of a location.
pub struct LocationText {
    pub file: Seq<char>,
    pub start_line: u32,
    pub end_line: u32,
}

/// The text of a report.
pub struct AnalysisText {
    pub contract: Seq<char>,
    pub function: Seq<char>,
    pub source: Seq<char>,
    pub location: LocationText,
    pub parameters: Seq<ParameterText>,
    pub calls: Seq<CallText>,
}

impl View for Parameter {
    type V = ParameterText;

    open spec fn view(&self) -> ParameterText {
        ParameterText { name: self.name@, type_: self.type_@ }
    }
}

impl View for FunctionCall {
    type V = CallText;

    open spec fn view(&self) -> CallText {
        CallText { file: self.file@, function: self.function@, module: self.module@ }
    }
}

impl View for LocationInfo {
    type V = LocationText;

    open spec fn view(&self) -> LocationText {
        LocationText { file: self.file@, start_line: self.start_line, end_line: self.end_line }
    }
}

/// The text of each parameter record, in order.
pub open spec fn parameter_texts(ps: Seq<Parameter>) -> Seq<ParameterText> {
    Seq::new(ps.len(), |i: int| ps[i]@)
}

/// The text of each call edge, in order.
pub open spec fn call_texts(cs: Seq<FunctionCall>) -> Seq<CallText> {
    Seq::new(cs.len(), |i: int| cs[i]@)
}

impl View for FunctionAnalysis {
    type V = AnalysisText;

    open spec fn view(&self) -> AnalysisText {
        AnalysisText {
            contract: self.contract@,
            function: self.function@,
            source: self.source@,
            location: self.location@,
            parameters: parameter_texts(self.parameters@),
            calls: call_texts(self.calls@),
        }
    }
}

/// The text of an error.
pub enum ErrorText {
    InvalidProjectPath(Seq<char>),
    InvalidMoveToml,
    FunctionNotFound(Seq<char>),
    ParseError(Seq<char>),
    TypeResolutionError(Seq<char>),
    IoError(Seq<char>),
    JsonError(Seq<char>),
    AnalysisError(Seq<char>),
}

impl View for AnalyzerError {
    type V = ErrorText;

    open spec fn view(&self) -> ErrorText {
        match *self {
            AnalyzerError::InvalidProjectPath(p) => ErrorText::InvalidProjectPath(p@),
            AnalyzerError::InvalidMoveToml => ErrorText::InvalidMoveToml,
            AnalyzerError::FunctionNotFound(n) => ErrorText::FunctionNotFound(n@),
            AnalyzerError::ParseError(m) => ErrorText::ParseError(m@),
            AnalyzerError::TypeResolutionError(m) => ErrorText::TypeResolutionError(m@),
            AnalyzerError::IoError(m) => ErrorText::IoError(m@),
            AnalyzerError::JsonError(m) => ErrorText::JsonError(m@),
            AnalyzerError::AnalysisError(m) => ErrorText::AnalysisError(m@),
        }
    }
}

/// The text of an error as it is shown: what went wrong, a colon, and the
/// detail.
pub open spec fn error_message(e: ErrorText) -> Seq<char> {
    match e {
        ErrorText::InvalidProjectPath(p) => "Invalid project path: "@ + p,
        ErrorText::InvalidMoveToml => "Move.toml file not found or invalid"@,
        ErrorText::FunctionNotFound(n) => "Function not found: "@ + n,
        ErrorText::ParseError(m) => "Parse error: "@ + m,
        ErrorText::TypeResolutionError(m) => "Type resolution error: "@ + m,
        ErrorText::IoError(m) => "IO error: "@ + m,
        ErrorText::JsonError(m) => "JSON error: "@ + m,
        ErrorText::AnalysisError(m) => "Analysis error: "@ + m,
    }
}

/// The error of a check, if it failed.
pub open spec fn fault(r: Result<(), AnalyzerError>) -> Option<ErrorText> {
    match r {
        Ok(_) => None,
        Err(e) => Some(e@),
    }
}

impl LocationInfo {
    pub fn new(file: String, start_line: u32, end_line: u32) -> (r: Self)
        ensures
            r.file == file,
            r.start_line == start_line,
            r.end_line == end_line,
    {
        LocationInfo { file, start_line, end_line }
    }

    /// The number of lines from the first to the last, both counted.
    pub open spec fn spec_line_count(&self) -> int {
        if self.end_line >= self.start_line {
            self.end_line - self.start_line + 1
        } else {
            0
        }
    }

    /// The number of lines from the first to the last, both counted; zero
    /// where the last line lies before the first.
    pub fn line_count(&self) -> (n: u32)
        requires
            self.spec_line_count() <= u32::MAX,
        ensures
            n == self.spec_line_count(),
    {
        if self.end_line >= self.start_line {
            self.end_line - self.start_line + 1
        } else {
            0
        }
    }
}

impl Parameter {
    pub fn new(name: String, type_: String) -> (r: Self)
        ensures
            r.name == name,
            r.type_ == type_,
    {
        Parameter { name, type_ }
    }
}

impl FunctionCall {
    pub fn new(file: String, function: String, module: String) -> (r: Self)
        ensures
            r.file == file,
            r.function == function,
            r.module == module,
    {
        FunctionCall { file, function, module }
    }
}

impl FunctionAnalysis {
    pub fn new(
        contract: String,
        function: String,
        source: String,
        location: LocationInfo,
        parameters: Vec<Parameter>,
        calls: Vec<FunctionCall>,
    ) -> (r: Self)
        ensures
            r.contract == contract,
            r.function == function,
            r.source == source,
            r.location == location,
            r.parameters == parameters,
            r.calls == calls,
    {
        FunctionAnalysis { contract, function, source, location, parameters, calls }
    }
}

impl AnalyzerError {
    /// The text of the error.
    pub fn message(&self) -> (s: String)
        ensures
            s@ == error_message(self@),
    {
        match self {
            AnalyzerError::InvalidProjectPath(p) => String::from_str("Invalid project path: ").concat(p.as_str()),
            AnalyzerError::InvalidMoveToml => String::from_str("Move.toml file not found or invalid"),
            AnalyzerError::FunctionNotFound(n) => String::from_str("Function not found: ").concat(n.as_str()),
            AnalyzerError::ParseError(m) => String::from_str("Parse error: ").concat(m.as_str()),
            AnalyzerError::TypeResolutionError(m) => String::from_str("Type resolution error: ").concat(m.as_str()),
            AnalyzerError::IoError(m) => String::from_str("IO error: ").concat(m.as_str()),
            AnalyzerError::JsonError(m) => String::from_str("JSON error: ").concat(m.as_str()),
            AnalyzerError::AnalysisError(m) => String::from_str("Analysis error: ").concat(m.as_str()),
        }
    }
}

/// How far a function can be seen.
#[derive(Debug, Clone, Copy, PartialEq, Eq)]
pub enum FunctionVisibility {
    Public,
    PublicFriend,
    Private,
}

/// What kind of function a function is.
#[derive(Debug, Clone, Copy, PartialEq, Eq)]
pub enum FunctionCategory {
    Public,
    PublicFriend,
    Private,
    Entry,
    Native,
}

/// The modifiers and the shape of a function.
#[derive(Debug, Clone, PartialEq, Eq)]
pub struct FunctionTypeInfo {
    pub visibility: FunctionVisibility,
    pub is_entry: bool,
    pub is_native: bool,
    pub category: FunctionCategory,
    pub has_type_parameters: bool,
    pub parameter_count: usize,
}

impl FunctionTypeInfo {
    /// Whether a transaction can call the function: whether it is an
    /// entry function.
    pub fn is_transaction_callable(&self) -> (r: bool)
        ensures
            r == self.is_entry,
    {
        self.is_entry
    }

    /// Whether the function can be called from outside its module.
    pub fn is_externally_accessible(&self) -> (r: bool)
        ensures
            r == (self.visibility is Public || self.visibility is PublicFriend),
    {
        match self.visibility {
            FunctionVisibility::Public => true,
            FunctionVisibility::PublicFriend => true,
            FunctionVisibility::Private => false,
        }
    }

    /// The words that describe the function: visibility, `entry`,
    /// `native`, `function`, and `(generic)` where it has type parameters.
    pub open spec fn spec_description(&self) -> Seq<char> {
        (match self.visibility {
            FunctionVisibility::Public => "public"@,
            FunctionVisibility::PublicFriend => "public(friend)"@,
            FunctionVisibility::Private => "private"@,
        }) + (if self.is_entry {
            " entry"@
        } else {
            Seq::<char>::empty()
        }) + (if self.is_native {
            " native"@
        } else {
            Seq::<char>::empty()
        }) + " function"@ + (if self.has_type_parameters {
            " (generic)"@
        } else {
            Seq::<char>::empty()
        })
    }

    /// The words that describe the function.
    pub fn description(&self) -> (s: String)
        ensures
            s@ == self.spec_description(),
    {
        let mut desc = String::new();
        match self.visibility {
            FunctionVisibility::Public => desc.append("public"),
            FunctionVisibility::PublicFriend => desc.append("public(friend)"),
            FunctionVisibility::Private => desc.append("private"),
        }
        if self.is_entry {
            desc.append(" entry");
        }
        if self.is_native {
            desc.append(" native");
        }
        desc.append(" function");
        if self.has_type_parameters {
            desc.append(" (generic)");
        }
        desc
    }
}

} // verus!
