//! The checks that a project directory and its manifest must pass before
//! the project is loaded. The facts about the file system are gathered by
//! the caller; what they mean is decided here.

use vstd::prelude::*;
use vstd::string::*;
use crate::ast::SourceText;
use crate::records::{fault, AnalyzerError, ErrorText};
use crate::text::{
    alphanumeric, chars_of, ends_with, has_prefix, has_suffix, is_alphanumeric, is_blank,
    is_blank_text, join, join_strings, lemma_texts_push, starts_with, texts,
};

verus! {

/// What was found out about a directory.
#[derive(Debug, Clone, PartialEq, Eq)]
pub struct DirectoryProbe {
    pub path: String,
    pub exists: bool,
    pub is_dir: bool,
    /// Why the directory could not be listed, if it could not.
    pub read_error: Option<String>,
}

/// What was found out about a file.
#[derive(Debug, Clone, PartialEq, Eq)]
pub struct FileProbe {
    pub path: String,
    pub exists: bool,
    pub is_file: bool,
    /// The text of the file, or why it could not be read.
    pub content: SourceText,
}

/// One entry met while walking a directory tree.
#[derive(Debug, Clone, PartialEq, Eq)]
pub enum WalkedEntry {
    /// The walk failed at this entry; the message says why.
    Failed(String),
    Found {
        is_file: bool,
        /// The name of the file, where it is valid text.
        file_name: Option<String>,
        path: String,
        /// The text of the file, or why it could not be read.
        content: SourceText,
    },
}

/// What was found out about a project directory.
#[derive(Debug, Clone, PartialEq, Eq)]
pub struct ProjectProbe {
    pub root: DirectoryProbe,
    pub manifest: FileProbe,
    pub sources: DirectoryProbe,
    pub source_entries: Vec<WalkedEntry>,
    pub tests: DirectoryProbe,
    pub scripts: DirectoryProbe,
}

/// What the checks read of a parsed manifest.
#[derive(Debug, Clone, PartialEq, Eq)]
pub struct Manifest {
    pub package_name: String,
    /// Named addresses, each with its value where it has one.
    pub addresses: Option<Vec<(String, Option<String>)>>,
    pub dev_addresses: Option<Vec<(String, String)>>,
    pub dependencies: Vec<String>,
    pub dev_dependencies: Vec<String>,
}

/// What is wrong with a directory that may be absent: it is no directory,
/// or it cannot be listed.
pub open spec fn optional_directory_fault(d: DirectoryProbe, name: Seq<char>) -> Option<ErrorText> {
    if !d.exists {
        None
    } else if !d.is_dir {
        Some(ErrorText::AnalysisError(name + " path exists but is not a directory: "@ + d.path@))
    } else {
        match d.read_error {
            Some(why) => Some(
                ErrorText::AnalysisError("Cannot read "@ + name + " directory: "@ + why@),
            ),
            None => None,
        }
    }
}

/// Whether a file name is that of a source file: it ends in `.move` and
/// does not begin with a dot.
pub open spec fn is_source_file_name(n: Seq<char>) -> bool {
    has_suffix(n, ".move"@) && !has_prefix(n, "."@)
}

/// What is wrong with an entry of a directory walk, if anything.
pub open spec fn entry_complaint(e: WalkedEntry, dir_name: Seq<char>) -> Option<Seq<char>> {
    match e {
        WalkedEntry::Failed(why) => Some("Error reading "@ + dir_name + " directory: "@ + why@),
        WalkedEntry::Found { is_file, file_name, path, content } => if is_file && (
        file_name matches Some(n) && is_source_file_name(n@)) {
            match content {
                SourceText::Loaded(text) => if is_blank_text(text@) {
                    Some("Move file is empty: "@ + path@)
                } else {
                    None
                },
                SourceText::Unreadable(why) => Some(
                    "Cannot read Move file "@ + path@ + ": "@ + why@,
                ),
            }
        } else {
            None
        },
    }
}

/// What is wrong with the first `n` entries of a directory walk.
pub open spec fn complaints(entries: Seq<WalkedEntry>, dir_name: Seq<char>, n: nat) -> Seq<Seq<char>>
    decreases n,
{
    if n == 0 || n > entries.len() {
        Seq::<Seq<char>>::empty()
    } else {
        let before = complaints(entries, dir_name, (n - 1) as nat);
        match entry_complaint(entries[n - 1], dir_name) {
            Some(c) => before.push(c),
            None => before,
        }
    }
}

/// What is wrong with the source files of a directory: every complaint,
/// joined by a semicolon and a space.
pub open spec fn move_files_fault(entries: Seq<WalkedEntry>, dir_name: Seq<char>) -> Option<ErrorText> {
    let all = complaints(entries, dir_name, entries.len());
    if all.len() == 0 {
        None
    } else {
        Some(
            ErrorText::AnalysisError(
                "Validation errors in "@ + dir_name + " directory: "@ + join(all, "; "@),
            ),
        )
    }
}

/// What is wrong with the directories of a project: the first fault among
/// `sources` with its files, `tests` and `scripts`.
pub open spec fn structure_fault(p: ProjectProbe) -> Option<ErrorText> {
    match optional_directory_fault(p.sources, "sources"@) {
        Some(f) => Some(f),
        None => match (if p.sources.exists {
            move_files_fault(p.source_entries@, "sources"@)
        } else {
            None
        }) {
            Some(f) => Some(f),
            None => match optional_directory_fault(p.tests, "tests"@) {
                Some(f) => Some(f),
                None => optional_directory_fault(p.scripts, "scripts"@),
            },
        },
    }
}

/// What is wrong with a project directory: the first fault in the order
/// root, manifest file, directory structure.
pub open spec fn project_fault(p: ProjectProbe) -> Option<ErrorText> {
    if !p.root.exists {
        Some(ErrorText::InvalidProjectPath(p.root.path@))
    } else if !p.root.is_dir {
        Some(ErrorText::AnalysisError("Project path is not a directory: "@ + p.root.path@))
    } else if p.root.read_error is Some {
        Some(
            ErrorText::AnalysisError(
                "Cannot read project directory "@ + p.root.path@ + ": "@ + p.root.read_error->0@,
            ),
        )
    } else if !p.manifest.exists {
        Some(
            ErrorText::AnalysisError(
                "Move.toml file not found in project directory: "@ + p.root.path@,
            ),
        )
    } else if !p.manifest.is_file {
        Some(ErrorText::AnalysisError("Move.toml exists but is not a file: "@ + p.manifest.path@))
    } else {
        match p.manifest.content {
            SourceText::Loaded(text) => if is_blank_text(text@) {
                Some(ErrorText::AnalysisError("Move.toml file is empty"@))
            } else {
                structure_fault(p)
            },
            SourceText::Unreadable(why) => Some(
                ErrorText::AnalysisError("Cannot read Move.toml file: "@ + why@),
            ),
        }
    }
}

/// Whether a character may stand in a package name.
pub open spec fn is_name_char(c: char) -> bool {
    alphanumeric(c) || c == '_' || c == '-'
}

/// Whether a package name is made of letters, digits, underscores and
/// hyphens only.
pub open spec fn is_package_name(n: Seq<char>) -> bool {
    forall|i: int| 0 <= i < n.len() ==> is_name_char(#[trigger] n[i])
}

/// The first fault among the named addresses from index `from` on.
pub open spec fn addresses_fault(list: Seq<(String, Option<String>)>, from: int) -> Option<ErrorText>
    decreases list.len() - from,
{
    if from < 0 || from >= list.len() {
        None
    } else if list[from].0@.len() == 0 {
        Some(ErrorText::ParseError("Address name cannot be empty"@))
    } else if list[from].1 matches Some(a) && a@.len() == 0 {
        Some(
            ErrorText::ParseError(
                "Invalid address for '"@ + list[from].0@ + "': address cannot be empty"@,
            ),
        )
    } else {
        addresses_fault(list, from + 1)
    }
}

/// The first fault among the development addresses from index `from` on.
pub open spec fn dev_addresses_fault(list: Seq<(String, String)>, from: int) -> Option<ErrorText>
    decreases list.len() - from,
{
    if from < 0 || from >= list.len() {
        None
    } else if list[from].0@.len() == 0 {
        Some(ErrorText::ParseError("Dev address name cannot be empty"@))
    } else if list[from].1@.len() == 0 {
        Some(
            ErrorText::ParseError(
                "Invalid dev address for '"@ + list[from].0@ + "': address cannot be empty"@,
            ),
        )
    } else {
        dev_addresses_fault(list, from + 1)
    }
}

/// Whether one of the names from index `from` on is empty.
pub open spec fn has_empty_name(names: Seq<String>, from: int) -> bool
    decreases names.len() - from,
{
    if from < 0 || from >= names.len() {
        false
    } else {
        names[from]@.len() == 0 || has_empty_name(names, from + 1)
    }
}

/// What is wrong with a manifest: the first fault in the order package
/// name, addresses, development addresses, dependencies, development
/// dependencies.
pub open spec fn manifest_fault(m: Manifest) -> Option<ErrorText> {
    if m.package_name@.len() == 0 {
        Some(ErrorText::ParseError("Package name cannot be empty in Move.toml"@))
    } else if !is_package_name(m.package_name@) {
        Some(
            ErrorText::ParseError(
                "Invalid package name '"@ + m.package_name@
                    + "': must contain only alphanumeric characters, underscores, and hyphens"@,
            ),
        )
    } else {
        match (match m.addresses {
            Some(list) => addresses_fault(list@, 0),
            None => None,
        }) {
            Some(f) => Some(f),
            None => match (match m.dev_addresses {
                Some(list) => dev_addresses_fault(list@, 0),
                None => None,
            }) {
                Some(f) => Some(f),
                None => if has_empty_name(m.dependencies@, 0) {
                    Some(ErrorText::ParseError("Dependency name cannot be empty"@))
                } else if has_empty_name(m.dev_dependencies@, 0) {
                    Some(ErrorText::ParseError("Dev dependency name cannot be empty"@))
                } else {
                    None
                },
            },
        }
    }
}

/// What is wrong after loading: the problems that were reported, joined
/// by a semicolon and a space.
pub open spec fn loading_fault(problems: Seq<String>) -> Option<ErrorText> {
    if problems.len() == 0 {
        None
    } else {
        Some(ErrorText::AnalysisError("Project loading errors: "@ + join(texts(problems), "; "@)))
    }
}

/// Checks projects before they are loaded.
pub struct ProjectLoader {}

impl ProjectLoader {
    /// Whether the project directory and its manifest file can be used.
    pub fn validate_move_project(probe: &ProjectProbe) -> (r: Result<(), AnalyzerError>)
        ensures
            fault(r) == project_fault(*probe),
    {
        if !probe.root.exists {
            return Err(AnalyzerError::InvalidProjectPath(probe.root.path.clone()));
        }
        if !probe.root.is_dir {
            return Err(
                AnalyzerError::AnalysisError(
                    String::from_str("Project path is not a directory: ").concat(
                        probe.root.path.as_str(),
                    ),
                ),
            );
        }
        match &probe.root.read_error {
            Some(why) => {
                return Err(
                    AnalyzerError::AnalysisError(
                        String::from_str("Cannot read project directory ").concat(
                            probe.root.path.as_str(),
                        ).concat(": ").concat(why.as_str()),
                    ),
                );
            },
            None => {},
        }
        if !probe.manifest.exists {
            return Err(
                AnalyzerError::AnalysisError(
                    String::from_str("Move.toml file not found in project directory: ").concat(
                        probe.root.path.as_str(),
                    ),
                ),
            );
        }
        if !probe.manifest.is_file {
            return Err(
                AnalyzerError::AnalysisError(
                    String::from_str("Move.toml exists but is not a file: ").concat(
                        probe.manifest.path.as_str(),
                    ),
                ),
            );
        }
        match &probe.manifest.content {
            SourceText::Loaded(text) => {
                if is_blank(text.as_str()) {
                    return Err(
                        AnalyzerError::AnalysisError(String::from_str("Move.toml file is empty")),
                    );
                }
            },
            SourceText::Unreadable(why) => {
                return Err(
                    AnalyzerError::AnalysisError(
                        String::from_str("Cannot read Move.toml file: ").concat(why.as_str()),
                    ),
                );
            },
        }
        Self::validate_directory_structure(probe)
    }

    /// Whether a directory that may be absent can be used.
    pub fn validate_optional_directory(d: &DirectoryProbe, name: &str) -> (r: Result<
        (),
        AnalyzerError,
    >)
        ensures
            fault(r) == optional_directory_fault(*d, name@),
    {
        if !d.exists {
            return Ok(());
        }
        if !d.is_dir {
            return Err(
                AnalyzerError::AnalysisError(
                    String::from_str(name).concat(" path exists but is not a directory: ").concat(
                        d.path.as_str(),
                    ),
                ),
            );
        }
        match &d.read_error {
            Some(why) => Err(
                AnalyzerError::AnalysisError(
                    String::from_str("Cannot read ").concat(name).concat(" directory: ").concat(
                        why.as_str(),
                    ),
                ),
            ),
            None => Ok(()),
        }
    }

    /// Whether the directories `sources`, `tests` and `scripts` can be
    /// used, and the source files under `sources` with them.
    pub fn validate_directory_structure(probe: &ProjectProbe) -> (r: Result<(), AnalyzerError>)
        ensures
            fault(r) == structure_fault(*probe),
    {
        match Self::validate_optional_directory(&probe.sources, "sources") {
            Err(e) => {
                return Err(e);
            },
            Ok(_) => {},
        }
        if probe.sources.exists {
            match Self::validate_move_files_in_directory(&probe.source_entries, "sources") {
                Err(e) => {
                    return Err(e);
                },
                Ok(_) => {},
            }
        }
        match Self::validate_optional_directory(&probe.tests, "tests") {
            Err(e) => {
                return Err(e);
            },
            Ok(_) => {},
        }
        Self::validate_optional_directory(&probe.scripts, "scripts")
    }

    /// Whether a file name is that of a source file: it ends in `.move`
    /// and does not begin with a dot.
    pub fn is_source_file(name: &str) -> (r: bool)
        ensures
            r == is_source_file_name(name@),
    {
        ends_with(name, ".move") && !starts_with(name, ".")
    }

    /// What is wrong with an entry of a directory walk, if anything.
    pub fn check_entry(entry: &WalkedEntry, dir_name: &str) -> (r: Option<String>)
        ensures
            match r {
                Some(c) => entry_complaint(*entry, dir_name@) == Some(c@),
                None => entry_complaint(*entry, dir_name@) is None,
            },
    {
        match entry {
            WalkedEntry::Failed(why) => Some(
                String::from_str("Error reading ").concat(dir_name).concat(" directory: ").concat(
                    why.as_str(),
                ),
            ),
            WalkedEntry::Found { is_file, file_name, path, content } => {
                if !*is_file {
                    return None;
                }
                let name = match file_name {
                    Some(n) => n,
                    None => {
                        return None;
                    },
                };
                if !Self::is_source_file(name.as_str()) {
                    return None;
                }
                match content {
                    SourceText::Loaded(text) => {
                        if is_blank(text.as_str()) {
                            Some(String::from_str("Move file is empty: ").concat(path.as_str()))
                        } else {
                            None
                        }
                    },
                    SourceText::Unreadable(why) => Some(
                        String::from_str("Cannot read Move file ").concat(path.as_str()).concat(
                            ": ",
                        ).concat(why.as_str()),
                    ),
                }
            },
        }
    }

    /// Whether the source files met in a walk of a directory can be used:
    /// none is empty, each can be read, and the walk itself did not fail.
    pub fn validate_move_files_in_directory(entries: &Vec<WalkedEntry>, dir_name: &str) -> (r: Result<
        (),
        AnalyzerError,
    >)
        ensures
            fault(r) == move_files_fault(entries@, dir_name@),
    {
        let mut validation_errors: Vec<String> = Vec::new();
        assert(texts(validation_errors@) =~= Seq::<Seq<char>>::empty());
        let mut i: usize = 0;
        while i < entries.len()
            invariant
                i <= entries.len(),
                texts(validation_errors@) == complaints(entries@, dir_name@, i as nat),
            decreases entries.len() - i,
        {
            match Self::check_entry(&entries[i], dir_name) {
                Some(c) => {
                    proof {
                        lemma_texts_push(validation_errors@, c);
                    }
                    validation_errors.push(c);
                },
                None => {},
            }
            i += 1;
        }
        if validation_errors.len() > 0 {
            return Err(
                AnalyzerError::AnalysisError(
                    String::from_str("Validation errors in ").concat(dir_name).concat(
                        " directory: ",
                    ).concat(join_strings(&validation_errors, "; ").as_str()),
                ),
            );
        }
        Ok(())
    }

    /// Whether a package name is made of letters, digits, underscores and
    /// hyphens only.
    pub fn valid_package_name(name: &str) -> (r: bool)
        ensures
            r == is_package_name(name@),
    {
        let chars = chars_of(name);
        let mut i: usize = 0;
        while i < chars.len()
            invariant
                i <= chars.len(),
                chars@ == name@,
                forall|j: int| 0 <= j < i ==> is_name_char(#[trigger] chars@[j]),
            decreases chars.len() - i,
        {
            let c = chars[i];
            if !(is_alphanumeric(c) || c == '_' || c == '-') {
                return false;
            }
            i += 1;
        }
        true
    }

    /// Whether one of the names is empty.
    pub fn any_empty_name(names: &Vec<String>) -> (r: bool)
        ensures
            r == has_empty_name(names@, 0),
    {
        let mut i: usize = 0;
        while i < names.len()
            invariant
                i <= names.len(),
                has_empty_name(names@, 0) == has_empty_name(names@, i as int),
            decreases names.len() - i,
        {
            if names[i].as_str().unicode_len() == 0 {
                return true;
            }
            i += 1;
        }
        false
    }

    /// Whether every named address has a name and, where it has a value,
    /// a value that is not empty.
    pub fn check_addresses(addresses: &Vec<(String, Option<String>)>) -> (r: Result<
        (),
        AnalyzerError,
    >)
        ensures
            fault(r) == addresses_fault(addresses@, 0),
    {
        let mut i: usize = 0;
        while i < addresses.len()
            invariant
                i <= addresses.len(),
                addresses_fault(addresses@, 0) == addresses_fault(addresses@, i as int),
            decreases addresses.len() - i,
        {
            let entry = &addresses[i];
            if entry.0.as_str().unicode_len() == 0 {
                return Err(
                    AnalyzerError::ParseError(String::from_str("Address name cannot be empty")),
                );
            }
            match &entry.1 {
                Some(address) => {
                    if address.as_str().unicode_len() == 0 {
                        return Err(
                            AnalyzerError::ParseError(
                                String::from_str("Invalid address for '").concat(
                                    entry.0.as_str(),
                                ).concat("': address cannot be empty"),
                            ),
                        );
                    }
                },
                None => {},
            }
            i += 1;
        }
        Ok(())
    }

    /// Whether every development address has a name and a value.
    pub fn check_dev_addresses(dev_addresses: &Vec<(String, String)>) -> (r: Result<
        (),
        AnalyzerError,
    >)
        ensures
            fault(r) == dev_addresses_fault(dev_addresses@, 0),
    {
        let mut i: usize = 0;
        while i < dev_addresses.len()
            invariant
                i <= dev_addresses.len(),
                dev_addresses_fault(dev_addresses@, 0) == dev_addresses_fault(
                    dev_addresses@,
                    i as int,
                ),
            decreases dev_addresses.len() - i,
        {
            let entry = &dev_addresses[i];
            if entry.0.as_str().unicode_len() == 0 {
                return Err(
                    AnalyzerError::ParseError(String::from_str("Dev address name cannot be empty")),
                );
            }
            if entry.1.as_str().unicode_len() == 0 {
                return Err(
                    AnalyzerError::ParseError(
                        String::from_str("Invalid dev address for '").concat(
                            entry.0.as_str(),
                        ).concat("': address cannot be empty"),
                    ),
                );
            }
            i += 1;
        }
        Ok(())
    }

    /// Whether the content of a parsed manifest can be used.
    pub fn validate_manifest_content(manifest: &Manifest) -> (r: Result<(), AnalyzerError>)
        ensures
            fault(r) == manifest_fault(*manifest),
    {
        if manifest.package_name.as_str().unicode_len() == 0 {
            return Err(
                AnalyzerError::ParseError(
                    String::from_str("Package name cannot be empty in Move.toml"),
                ),
            );
        }
        if !Self::valid_package_name(manifest.package_name.as_str()) {
            return Err(
                AnalyzerError::ParseError(
                    String::from_str("Invalid package name '").concat(
                        manifest.package_name.as_str(),
                    ).concat(
                        "': must contain only alphanumeric characters, underscores, and hyphens",
                    ),
                ),
            );
        }
        match &manifest.addresses {
            Some(addresses) => {
                match Self::check_addresses(addresses) {
                    Err(e) => {
                        return Err(e);
                    },
                    Ok(_) => {},
                }
            },
            None => {},
        }
        match &manifest.dev_addresses {
            Some(dev_addresses) => {
                match Self::check_dev_addresses(dev_addresses) {
                    Err(e) => {
                        return Err(e);
                    },
                    Ok(_) => {},
                }
            },
            None => {},
        }
        if Self::any_empty_name(&manifest.dependencies) {
            return Err(
                AnalyzerError::ParseError(String::from_str("Dependency name cannot be empty")),
            );
        }
        if Self::any_empty_name(&manifest.dev_dependencies) {
            return Err(
                AnalyzerError::ParseError(String::from_str("Dev dependency name cannot be empty")),
            );
        }
        Ok(())
    }

    /// Whether loading reported problems.
    pub fn check_loading_problems(problems: &Vec<String>) -> (r: Result<(), AnalyzerError>)
        ensures
            fault(r) == loading_fault(problems@),
    {
        if problems.len() > 0 {
            return Err(
                AnalyzerError::AnalysisError(
                    String::from_str("Project loading errors: ").concat(
                        join_strings(problems, "; ").as_str(),
                    ),
                ),
            );
        }
        Ok(())
    }
}

} // verus!
