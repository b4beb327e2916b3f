//! The analysis of every function of a given name: signature, source,
//! location, parameters and call edges, one report per definition.

use vstd::prelude::*;
use vstd::string::*;
use crate::ast::{Function, Project, SourceFile, SourceText};
use crate::calls::{dedup, edges_body, CallGraphExtractor};
use crate::index::{
    function_at, matching_positions, module_info_at, describes, FunctionIndex, ModuleInfoText,
    Position,
};
use crate::records::{
    call_texts, error_message, parameter_texts, AnalysisText, AnalyzerError, CallText, ErrorText,
    FunctionAnalysis,
    FunctionCall, FunctionDef, LocationInfo, LocationText, ModuleInfo, Parameter, ParameterText,
};
use crate::signature::{parameter_records, signature_text, SignatureBuilder};
use crate::source::{
    extract_source, span_error_text, span_first_line, span_fits, span_last_line, span_text,
};
use crate::text::{chars_of, same_text};

verus! {

/// Spaces, tabs and line ends.
pub open spec fn is_space_char(c: char) -> bool {
    c == ' ' || c == '\t' || c == '\r' || c == '\n'
}

/// Whether a name is empty or made of blank characters only.
pub open spec fn is_blank_name(name: Seq<char>) -> bool {
    forall|i: int| 0 <= i < name.len() ==> is_space_char(#[trigger] name[i])
}

/// The first file with the given path among the files from `from` on.
pub open spec fn file_index_from(files: Seq<SourceFile>, path: Seq<char>, from: int) -> Option<int>
    decreases files.len() - from,
{
    if from < 0 || from >= files.len() {
        None
    } else if files[from].path@ == path {
        Some(from)
    } else {
        file_index_from(files, path, from + 1)
    }
}

/// What is known of the text of the file with the given path.
pub open spec fn text_of_file(p: Project, path: Seq<char>) -> Option<SourceText> {
    match file_index_from(p.files@, path, 0) {
        Some(i) => Some(p.files@[i].text),
        None => None,
    }
}

/// Why the report on a definition cannot be made in full, if it cannot:
/// the file of the definition is not among the files or was not read, or
/// the span of the definition does not lie in it.
pub open spec fn failure(p: Project, f: Function, info: ModuleInfoText) -> Option<ErrorText> {
    match text_of_file(p, info.file_path) {
        Some(SourceText::Loaded(content)) => if span_fits(content@, f.loc) {
            None
        } else {
            Some(ErrorText::AnalysisError(span_error_text(f.loc)))
        },
        Some(SourceText::Unreadable(why)) => Some(ErrorText::IoError(why@)),
        None => Some(ErrorText::IoError("No such source file: "@ + info.file_path)),
    }
}

/// The full report on a definition whose source can be extracted.
pub open spec fn full_report(p: Project, f: Function, info: ModuleInfoText) -> AnalysisText {
    let content = text_of_file(p, info.file_path)->Some_0->Loaded_0@;
    AnalysisText {
        contract: info.name,
        function: signature_text(f),
        source: span_text(content, f.loc),
        location: LocationText {
            file: info.file_path,
            start_line: span_first_line(content, f.loc) as u32,
            end_line: span_last_line(content, f.loc) as u32,
        },
        parameters: parameter_records(f.parameters@),
        calls: dedup(edges_body(p, info, f.body)),
    }
}

/// The report that stands in for a definition whose analysis failed: the
/// bare name as signature, the error as a comment in place of the source,
/// no lines, no parameters, no calls.
pub open spec fn degraded_report(f: Function, info: ModuleInfoText, error: Seq<char>) -> AnalysisText {
    AnalysisText {
        contract: info.name,
        function: f.name@ + "(...)"@,
        source: "// Error extracting function details: "@ + error,
        location: LocationText { file: info.file_path, start_line: 0, end_line: 0 },
        parameters: Seq::<ParameterText>::empty(),
        calls: Seq::<CallText>::empty(),
    }
}

/// The report on a definition: the full one, or the degraded one where
/// the full one cannot be made.
pub open spec fn report(p: Project, f: Function, info: ModuleInfoText) -> AnalysisText {
    match failure(p, f, info) {
        Some(error) => degraded_report(f, info, error_message(error)),
        None => full_report(p, f, info),
    }
}

/// Whether the definition at a position cannot be reported in full.
pub open spec fn fails_at(p: Project, pos: Position) -> bool {
    failure(p, function_at(p, pos), module_info_at(p, pos)) is Some
}

/// The report on the definition at a position.
pub open spec fn report_at(p: Project, pos: Position) -> AnalysisText {
    report(p, function_at(p, pos), module_info_at(p, pos))
}

/// How the analysis of a name ends.
pub enum Outcome {
    /// The name is empty or blank.
    BlankName,
    /// No function has the name.
    NotFound,
    /// No definition of the name could be reported in full.
    AllFailed,
    /// One report per definition, in the order of the definitions.
    Reports(Seq<AnalysisText>),
}

/// How the analysis of `name` in the project ends.
pub open spec fn outcome(p: Project, name: Seq<char>) -> Outcome {
    let positions = matching_positions(p, name);
    if is_blank_name(name) {
        Outcome::BlankName
    } else if positions.len() == 0 {
        Outcome::NotFound
    } else if forall|k: int| 0 <= k < positions.len() ==> fails_at(p, #[trigger] positions[k]) {
        Outcome::AllFailed
    } else {
        Outcome::Reports(Seq::new(positions.len(), |k: int| report_at(p, positions[k])))
    }
}

/// The error with which an analysis ends, if it ends with one.
pub open spec fn outcome_error(o: Outcome, name: Seq<char>) -> Option<ErrorText> {
    match o {
        Outcome::BlankName => Some(ErrorText::AnalysisError("Function name cannot be empty"@)),
        Outcome::NotFound => Some(ErrorText::FunctionNotFound(name)),
        Outcome::AllFailed => Some(
            ErrorText::AnalysisError("Failed to analyze any definition of function: "@ + name),
        ),
        Outcome::Reports(_) => None,
    }
}

/// The text of each report, in order.
pub open spec fn analysis_texts(v: Seq<FunctionAnalysis>) -> Seq<AnalysisText> {
    Seq::new(v.len(), |i: int| v[i]@)
}

/// One more report at the end is one more text at the end.
pub proof fn lemma_analysis_texts_push(v: Seq<FunctionAnalysis>, a: FunctionAnalysis)
    ensures
        analysis_texts(v.push(a)) == analysis_texts(v).push(a@),
{
    assert(analysis_texts(v.push(a)) =~= analysis_texts(v).push(a@));
}

/// Analysing a name twice in an unchanged project gives the same reports:
/// what is reported depends on the project and the name alone.
pub proof fn law_analysis_is_repeatable(
    p: Project,
    name: Seq<char>,
    first: Seq<FunctionAnalysis>,
    second: Seq<FunctionAnalysis>,
)
    requires
        outcome(p, name) == Outcome::Reports(analysis_texts(first)),
        outcome(p, name) == Outcome::Reports(analysis_texts(second)),
    ensures
        analysis_texts(first) == analysis_texts(second),
        first.len() == second.len(),
        forall|i: int| 0 <= i < first.len() ==> (#[trigger] first[i])@ == second[i]@,
{
    assert(analysis_texts(first).len() == first.len());
    assert(analysis_texts(second).len() == second.len());
    assert forall|i: int| 0 <= i < first.len() implies (#[trigger] first[i])@ == second[i]@ by {
        assert(analysis_texts(first)[i] == first[i]@);
        assert(analysis_texts(second)[i] == second[i]@);
    }
}

/// Analyses the functions of a project.
pub struct FunctionAnalyzer<'a> {
    pub extractor: CallGraphExtractor<'a>,
}

impl<'a> FunctionAnalyzer<'a> {
    pub fn new(project: &'a Project) -> (r: Self)
        ensures
            r.project() == *project,
    {
        FunctionAnalyzer { extractor: CallGraphExtractor::new(project) }
    }

    /// The project that is analysed.
    pub open spec fn project(&self) -> Project {
        self.extractor.project()
    }

    /// Whether a name is empty or made of blank characters only.
    pub fn is_blank(name: &str) -> (r: bool)
        ensures
            r == is_blank_name(name@),
    {
        let chars = chars_of(name);
        let mut i: usize = 0;
        while i < chars.len()
            invariant
                i <= chars.len(),
                chars@ == name@,
                forall|j: int| 0 <= j < i ==> is_space_char(#[trigger] chars@[j]),
            decreases chars.len() - i,
        {
            let c = chars[i];
            if !(c == ' ' || c == '\t' || c == '\r' || c == '\n') {
                return false;
            }
            i += 1;
        }
        true
    }

    /// The first file with the given path.
    pub fn find_file(&self, path: &str) -> (r: Option<&'a SourceFile>)
        ensures
            match r {
                Some(file) => text_of_file(self.project(), path@) == Some(file.text),
                None => text_of_file(self.project(), path@) is None,
            },
    {
        let project: &'a Project = self.extractor.resolver.index.project;
        let mut i: usize = 0;
        while i < project.files.len()
            invariant
                i <= project.files.len(),
                *project == self.project(),
                file_index_from(project.files@, path@, 0) == file_index_from(
                    project.files@,
                    path@,
                    i as int,
                ),
            decreases project.files.len() - i,
        {
            if same_text(project.files[i].path.as_str(), path) {
                return Some(&project.files[i]);
            }
            i += 1;
        }
        None
    }

    /// The full report on a definition. Fails where the file of the
    /// definition was not read or its span does not lie in the file.
    pub fn analyze_definition(&self, function: &Function, info: &ModuleInfo) -> (r: Result<
        FunctionAnalysis,
        AnalyzerError,
    >)
        ensures
            match r {
                Ok(a) => failure(self.project(), *function, info@) is None && a@ == full_report(
                    self.project(),
                    *function,
                    info@,
                ),
                Err(e) => failure(self.project(), *function, info@) == Some(e@),
            },
    {
        let file = match self.find_file(info.file_path.as_str()) {
            Some(file) => file,
            None => {
                let why = String::from_str("No such source file: ").concat(info.file_path.as_str());
                return Err(AnalyzerError::IoError(why));
            },
        };
        let content = match &file.text {
            SourceText::Loaded(content) => content,
            SourceText::Unreadable(why) => {
                return Err(AnalyzerError::IoError(why.clone()));
            },
        };
        let extract = match extract_source(content.as_str(), function.loc) {
            Ok(x) => x,
            Err(e) => {
                return Err(e);
            },
        };
        let builder = &self.extractor.resolver.builder;
        let signature = builder.build_signature(function);
        let parameters = builder.extract_parameters(function);
        let calls = self.extractor.extract(&function.body, info);
        Ok(
            FunctionAnalysis::new(
                info.name.clone(),
                signature,
                extract.source,
                LocationInfo::new(info.file_path.clone(), extract.start_line, extract.end_line),
                parameters,
                calls,
            ),
        )
    }

    /// The report that stands in for a definition whose analysis failed.
    pub fn degraded(function: &Function, info: &ModuleInfo, error: &AnalyzerError) -> (r:
        FunctionAnalysis)
        ensures
            r@ == degraded_report(*function, info@, error_message(error@)),
    {
        let r = FunctionAnalysis::new(
            info.name.clone(),
            function.name.clone().concat("(...)"),
            String::from_str("// Error extracting function details: ").concat(
                error.message().as_str(),
            ),
            LocationInfo::new(info.file_path.clone(), 0, 0),
            Vec::new(),
            Vec::new(),
        );
        assert(parameter_texts(r.parameters@) =~= Seq::<ParameterText>::empty());
        assert(call_texts(r.calls@) =~= Seq::<CallText>::empty());
        r
    }

    /// One report for every function of the given name, in the order of
    /// the definitions. A definition whose details cannot be extracted
    /// gets a degraded report; where that holds of every definition, or
    /// the name is blank or names no function, the analysis fails.
    pub fn analyze_function(&self, function_name: &str) -> (r: Result<
        Vec<FunctionAnalysis>,
        AnalyzerError,
    >)
        ensures
            match r {
                Ok(v) => outcome(self.project(), function_name@) == Outcome::Reports(
                    analysis_texts(v@),
                ),
                Err(e) => outcome_error(outcome(self.project(), function_name@), function_name@)
                    == Some(e@),
            },
    {
        if Self::is_blank(function_name) {
            return Err(
                AnalyzerError::AnalysisError(String::from_str("Function name cannot be empty")),
            );
        }
        let defs = self.extractor.resolver.index.find_by_name(function_name);
        if defs.len() == 0 {
            return Err(AnalyzerError::FunctionNotFound(String::from_str(function_name)));
        }
        let ghost p = self.project();
        let ghost positions = matching_positions(p, function_name@);
        let ghost wanted = Seq::new(positions.len(), |k: int| report_at(p, positions[k]));
        let mut reports: Vec<FunctionAnalysis> = Vec::new();
        let mut any_full = false;
        let mut i: usize = 0;
        while i < defs.len()
            invariant
                i <= defs.len(),
                p == self.project(),
                positions == matching_positions(p, function_name@),
                wanted == Seq::new(positions.len(), |k: int| report_at(p, positions[k])),
                defs@.len() == positions.len(),
                forall|k: int| 0 <= k < defs@.len() ==> describes(#[trigger] defs@[k], p, positions[k]),
                analysis_texts(reports@) == wanted.take(i as int),
                any_full ==> exists|k: int| 0 <= k < i && !fails_at(p, #[trigger] positions[k]),
                !any_full ==> forall|k: int| 0 <= k < i ==> fails_at(p, #[trigger] positions[k]),
            decreases defs.len() - i,
        {
            let def = &defs[i];
            assert(describes(*def, p, positions[i as int]));
            let report = match self.analyze_definition(def.function, &def.module_info) {
                Ok(a) => {
                    any_full = true;
                    assert(!fails_at(p, positions[i as int]));
                    a
                },
                Err(e) => Self::degraded(def.function, &def.module_info, &e),
            };
            proof {
                assert(report@ == report_at(p, positions[i as int]));
                lemma_analysis_texts_push(reports@, report);
                assert(wanted.take(i + 1) == wanted.take(i as int).push(wanted[i as int]));
            }
            reports.push(report);
            i += 1;
        }
        assert(wanted.take(i as int) == wanted);
        if !any_full {
            return Err(
                AnalyzerError::AnalysisError(
                    String::from_str("Failed to analyze any definition of function: ").concat(
                        function_name,
                    ),
                ),
            );
        }
        Ok(reports)
    }
}

} // verus!
