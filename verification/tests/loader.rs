use move_function_analyzer::ast::SourceText;
use move_function_analyzer::loader::{
    DirectoryProbe, FileProbe, Manifest, ProjectLoader, ProjectProbe, WalkedEntry,
};
use move_function_analyzer::records::AnalyzerError;

fn dir(path: &str) -> DirectoryProbe {
    DirectoryProbe { path: path.to_string(), exists: true, is_dir: true, read_error: None }
}

fn absent(path: &str) -> DirectoryProbe {
    DirectoryProbe { path: path.to_string(), exists: false, is_dir: false, read_error: None }
}

fn source(name: &str, text: &str) -> WalkedEntry {
    WalkedEntry::Found {
        is_file: true,
        file_name: Some(name.to_string()),
        path: format!("/p/sources/{}", name),
        content: SourceText::Loaded(text.to_string()),
    }
}

fn good() -> ProjectProbe {
    ProjectProbe {
        root: dir("/p"),
        manifest: FileProbe {
            path: "/p/Move.toml".to_string(),
            exists: true,
            is_file: true,
            content: SourceText::Loaded("[package]\nname = \"p\"\n".to_string()),
        },
        sources: dir("/p/sources"),
        source_entries: vec![source("m.move", "module p::m {}")],
        tests: absent("/p/tests"),
        scripts: absent("/p/scripts"),
    }
}

fn analysis(r: Result<(), AnalyzerError>) -> String {
    match r {
        Err(AnalyzerError::AnalysisError(m)) => m,
        other => panic!("unexpected: {:?}", other),
    }
}

fn parse(r: Result<(), AnalyzerError>) -> String {
    match r {
        Err(AnalyzerError::ParseError(m)) => m,
        other => panic!("unexpected: {:?}", other),
    }
}

fn manifest(name: &str) -> Manifest {
    Manifest {
        package_name: name.to_string(),
        addresses: None,
        dev_addresses: None,
        dependencies: vec![],
        dev_dependencies: vec![],
    }
}

#[test]
fn good_project_passes() {
    assert_eq!(ProjectLoader::validate_move_project(&good()), Ok(()));
    assert_eq!(ProjectLoader::validate_directory_structure(&good()), Ok(()));
}

#[test]
fn missing_root_is_an_invalid_path() {
    let mut p = good();
    p.root.exists = false;
    let e = ProjectLoader::validate_move_project(&p).unwrap_err();
    assert_eq!(e, AnalyzerError::InvalidProjectPath("/p".to_string()));
    assert_eq!(e.message(), "Invalid project path: /p");
}

#[test]
fn root_faults() {
    let mut p = good();
    p.root.is_dir = false;
    assert_eq!(
        analysis(ProjectLoader::validate_move_project(&p)),
        "Project path is not a directory: /p"
    );
    let mut p = good();
    p.root.read_error = Some("denied".to_string());
    assert_eq!(
        analysis(ProjectLoader::validate_move_project(&p)),
        "Cannot read project directory /p: denied"
    );
}

#[test]
fn manifest_file_faults() {
    let mut p = good();
    p.manifest.exists = false;
    assert_eq!(
        analysis(ProjectLoader::validate_move_project(&p)),
        "Move.toml file not found in project directory: /p"
    );
    let mut p = good();
    p.manifest.is_file = false;
    assert_eq!(
        analysis(ProjectLoader::validate_move_project(&p)),
        "Move.toml exists but is not a file: /p/Move.toml"
    );
    let mut p = good();
    p.manifest.content = SourceText::Loaded(" \n\t\u{a0}".to_string());
    assert_eq!(analysis(ProjectLoader::validate_move_project(&p)), "Move.toml file is empty");
    let mut p = good();
    p.manifest.content = SourceText::Unreadable("bad encoding".to_string());
    assert_eq!(
        analysis(ProjectLoader::validate_move_project(&p)),
        "Cannot read Move.toml file: bad encoding"
    );
}

#[test]
fn directory_faults() {
    for (name, pick) in [("sources", 0), ("tests", 1), ("scripts", 2)] {
        let set = |p: &mut ProjectProbe, d: DirectoryProbe| match pick {
            0 => p.sources = d,
            1 => p.tests = d,
            _ => p.scripts = d,
        };
        let path = format!("/p/{}", name);
        let mut p = good();
        let mut d = dir(&path);
        d.is_dir = false;
        set(&mut p, d);
        assert_eq!(
            analysis(ProjectLoader::validate_move_project(&p)),
            format!("{} path exists but is not a directory: {}", name, path)
        );
        let mut p = good();
        let mut d = dir(&path);
        d.read_error = Some("denied".to_string());
        set(&mut p, d);
        assert_eq!(
            analysis(ProjectLoader::validate_move_project(&p)),
            format!("Cannot read {} directory: denied", name)
        );
    }
}

#[test]
fn absent_sources_directory_skips_its_files() {
    let mut p = good();
    p.sources = absent("/p/sources");
    p.source_entries = vec![source("empty.move", "")];
    assert_eq!(ProjectLoader::validate_move_project(&p), Ok(()));
}

#[test]
fn source_file_faults_are_collected() {
    let entries = vec![
        source("ok.move", "module a::b {}"),
        source("empty.move", "  \n"),
        WalkedEntry::Failed("loop detected".to_string()),
        WalkedEntry::Found {
            is_file: true,
            file_name: Some("bad.move".to_string()),
            path: "/p/sources/bad.move".to_string(),
            content: SourceText::Unreadable("denied".to_string()),
        },
        source(".hidden.move", ""),
        source("notes.txt", ""),
        WalkedEntry::Found {
            is_file: false,
            file_name: Some("dir.move".to_string()),
            path: "/p/sources/dir.move".to_string(),
            content: SourceText::Loaded(String::new()),
        },
        WalkedEntry::Found {
            is_file: true,
            file_name: None,
            path: "/p/sources/odd".to_string(),
            content: SourceText::Loaded(String::new()),
        },
    ];
    assert_eq!(
        analysis(ProjectLoader::validate_move_files_in_directory(&entries, "sources")),
        "Validation errors in sources directory: Move file is empty: /p/sources/empty.move; Error reading sources directory: loop detected; Cannot read Move file /p/sources/bad.move: denied"
    );
    assert_eq!(ProjectLoader::validate_move_files_in_directory(&vec![], "sources"), Ok(()));
    assert_eq!(ProjectLoader::check_entry(&entries[0], "sources"), None);
    assert_eq!(
        ProjectLoader::check_entry(&entries[1], "tests"),
        Some("Move file is empty: /p/sources/empty.move".to_string())
    );
    let mut p = good();
    p.source_entries = entries;
    assert!(analysis(ProjectLoader::validate_move_project(&p)).starts_with("Validation errors in"));
}

#[test]
fn source_file_names() {
    assert!(ProjectLoader::is_source_file("m.move"));
    assert!(ProjectLoader::is_source_file("a.b.move"));
    assert!(!ProjectLoader::is_source_file(".move"));
    assert!(!ProjectLoader::is_source_file(".m.move"));
    assert!(!ProjectLoader::is_source_file("m.mov"));
    assert!(!ProjectLoader::is_source_file("move"));
    assert!(!ProjectLoader::is_source_file(""));
}

#[test]
fn package_names() {
    assert_eq!(ProjectLoader::validate_manifest_content(&manifest("my_pkg-2")), Ok(()));
    assert_eq!(ProjectLoader::validate_manifest_content(&manifest("caf\u{e9}")), Ok(()));
    assert_eq!(
        parse(ProjectLoader::validate_manifest_content(&manifest(""))),
        "Package name cannot be empty in Move.toml"
    );
    assert_eq!(
        parse(ProjectLoader::validate_manifest_content(&manifest("my pkg"))),
        "Invalid package name 'my pkg': must contain only alphanumeric characters, underscores, and hyphens"
    );
    assert!(ProjectLoader::valid_package_name("a1_-"));
    assert!(!ProjectLoader::valid_package_name("a.b"));
    assert!(ProjectLoader::valid_package_name(""));
}

#[test]
fn address_faults() {
    let mut m = manifest("p");
    m.addresses = Some(vec![
        ("std".to_string(), Some("0x1".to_string())),
        ("me".to_string(), None),
        ("".to_string(), Some("".to_string())),
    ]);
    assert_eq!(parse(ProjectLoader::validate_manifest_content(&m)), "Address name cannot be empty");
    m.addresses = Some(vec![("std".to_string(), Some("".to_string())), ("".to_string(), None)]);
    assert_eq!(
        parse(ProjectLoader::validate_manifest_content(&m)),
        "Invalid address for 'std': address cannot be empty"
    );
    m.addresses = Some(vec![("std".to_string(), Some("0x1".to_string()))]);
    m.dev_addresses = Some(vec![("".to_string(), "0x2".to_string())]);
    assert_eq!(
        parse(ProjectLoader::validate_manifest_content(&m)),
        "Dev address name cannot be empty"
    );
    m.dev_addresses = Some(vec![("dev".to_string(), "".to_string())]);
    assert_eq!(
        parse(ProjectLoader::validate_manifest_content(&m)),
        "Invalid dev address for 'dev': address cannot be empty"
    );
    m.dev_addresses = Some(vec![("dev".to_string(), "0x2".to_string())]);
    assert_eq!(ProjectLoader::validate_manifest_content(&m), Ok(()));
}

#[test]
fn dependency_faults() {
    let mut m = manifest("p");
    m.dependencies = vec!["Sui".to_string(), "".to_string()];
    m.dev_dependencies = vec!["".to_string()];
    assert_eq!(
        parse(ProjectLoader::validate_manifest_content(&m)),
        "Dependency name cannot be empty"
    );
    m.dependencies = vec!["Sui".to_string()];
    assert_eq!(
        parse(ProjectLoader::validate_manifest_content(&m)),
        "Dev dependency name cannot be empty"
    );
    m.dev_dependencies = vec!["Test".to_string()];
    assert_eq!(ProjectLoader::validate_manifest_content(&m), Ok(()));
    assert!(ProjectLoader::any_empty_name(&vec!["a".to_string(), "".to_string()]));
    assert!(!ProjectLoader::any_empty_name(&vec![]));
}

#[test]
fn loading_problems_are_joined() {
    assert_eq!(ProjectLoader::check_loading_problems(&vec![]), Ok(()));
    assert_eq!(
        analysis(ProjectLoader::check_loading_problems(&vec!["a".to_string(), "b".to_string()])),
        "Project loading errors: a; b"
    );
}
