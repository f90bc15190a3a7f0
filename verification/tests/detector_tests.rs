use nova::runtime_detector::{Framework, Language, RuntimeDetector};

#[test]
fn test_detect_python() {
    let detector = RuntimeDetector::new("app.py");
    assert_eq!(detector.detect_language(), Language::Python);
}

#[test]
fn test_detect_javascript() {
    let detector = RuntimeDetector::new("server.js");
    assert_eq!(detector.detect_language(), Language::JavaScript);
}

#[test]
fn detect_language_by_extension() {
    assert_eq!(RuntimeDetector::new("lib.rs").detect_language(), Language::Rust);
    assert_eq!(RuntimeDetector::new("main.go").detect_language(), Language::Go);
    assert_eq!(RuntimeDetector::new("a/b/c/index.ts").detect_language(), Language::TypeScript);
    assert_eq!(RuntimeDetector::new("site.php").detect_language(), Language::PHP);
    assert_eq!(RuntimeDetector::new("app.rb").detect_language(), Language::Ruby);
    assert_eq!(RuntimeDetector::new("Main.java").detect_language(), Language::Java);
    assert_eq!(RuntimeDetector::new("Program.cs").detect_language(), Language::CSharp);
    assert_eq!(RuntimeDetector::new("data.xyz").detect_language(), Language::Unknown);
    assert_eq!(RuntimeDetector::new("README").detect_language(), Language::Unknown);
    assert_eq!(RuntimeDetector::new(".gitignore").detect_language(), Language::Unknown);
}

#[test]
fn detect_language_from_directory() {
    let d = RuntimeDetector::with_project(
        "proj",
        true,
        vec!["package.json".to_string(), "src".to_string()],
        None,
        None,
        None,
    );
    assert_eq!(d.detect_language(), Language::JavaScript);

    let d = RuntimeDetector::with_project(
        "proj",
        true,
        vec!["requirements.txt".to_string()],
        None,
        None,
        None,
    );
    assert_eq!(d.detect_language(), Language::Python);

    let d = RuntimeDetector::with_project("proj", true, vec!["Cargo.toml".to_string()], None, None, None);
    assert_eq!(d.detect_language(), Language::Rust);

    let d = RuntimeDetector::with_project("proj", true, vec!["Gemfile".to_string()], None, None, None);
    assert_eq!(d.detect_language(), Language::Ruby);

    let d = RuntimeDetector::with_project("proj", true, vec![], None, None, None);
    assert_eq!(d.detect_language(), Language::Unknown);

    let d = RuntimeDetector::with_project("proj", false, vec!["package.json".to_string()], None, None, None);
    assert_eq!(d.detect_language(), Language::Unknown);
}

#[test]
fn detect_js_framework_from_manifest() {
    let manifest = r#"{"name":"web","dependencies":{"next":"13.0.0","react":"18.0.0"}}"#;
    let d = RuntimeDetector::with_project(
        "proj",
        true,
        vec!["package.json".to_string()],
        Some(manifest.to_string()),
        None,
        None,
    );
    assert_eq!(d.detect_framework(), Framework::NextJS);

    let manifest = r#"{"dependencies":{"express":"4.18.0"}}"#;
    let d = RuntimeDetector::with_project(
        "proj",
        true,
        vec!["package.json".to_string()],
        Some(manifest.to_string()),
        None,
        None,
    );
    assert_eq!(d.detect_framework(), Framework::Express);

    let manifest = r#"{"dependencies":{"left-pad":"1.0.0"}}"#;
    let d = RuntimeDetector::with_project(
        "proj",
        true,
        vec!["package.json".to_string()],
        Some(manifest.to_string()),
        None,
        None,
    );
    assert_eq!(d.detect_framework(), Framework::Plain);

    let d = RuntimeDetector::with_project(
        "proj",
        true,
        vec!["package.json".to_string()],
        Some("not json at all".to_string()),
        None,
        None,
    );
    assert_eq!(d.detect_framework(), Framework::Plain);
}

#[test]
fn detect_python_framework_rules() {
    let d = RuntimeDetector::with_project(
        "proj",
        true,
        vec!["requirements.txt".to_string(), "manage.py".to_string()],
        None,
        None,
        None,
    );
    assert_eq!(d.detect_framework(), Framework::Django);

    let d = RuntimeDetector::with_project(
        "proj",
        true,
        vec!["requirements.txt".to_string()],
        None,
        Some("fastapi==0.100\nuvicorn".to_string()),
        None,
    );
    assert_eq!(d.detect_framework(), Framework::FastAPI);

    let d = RuntimeDetector::with_project(
        "proj",
        true,
        vec!["requirements.txt".to_string()],
        None,
        Some("flask==2.0".to_string()),
        None,
    );
    assert_eq!(d.detect_framework(), Framework::Flask);
}

#[test]
fn detect_java_framework_rules() {
    let d = RuntimeDetector::with_project(
        "proj",
        true,
        vec!["pom.xml".to_string()],
        None,
        None,
        Some("<artifactId>spring-boot-starter</artifactId>".to_string()),
    );
    assert_eq!(d.detect_framework(), Framework::SpringBoot);
}

#[test]
fn runtime_command_table() {
    let d = RuntimeDetector::with_project(
        "proj",
        true,
        vec!["requirements.txt".to_string(), "manage.py".to_string()],
        None,
        None,
        None,
    );
    assert_eq!(d.get_runtime_command(), vec!["python", "manage.py", "runserver"]);

    let d = RuntimeDetector::with_project(
        "proj",
        true,
        vec!["requirements.txt".to_string()],
        None,
        Some("fastapi".to_string()),
        None,
    );
    assert_eq!(d.get_runtime_command(), vec!["uvicorn", "main:app", "--host", "0.0.0.0"]);

    let manifest = r#"{"dependencies":{"next":"13"}}"#;
    let d = RuntimeDetector::with_project(
        "proj",
        true,
        vec!["package.json".to_string()],
        Some(manifest.to_string()),
        None,
        None,
    );
    assert_eq!(d.get_runtime_command(), vec!["npm", "run", "dev"]);

    let d = RuntimeDetector::new("thing.wasm");
    assert_eq!(d.get_runtime_command(), vec!["nova", "run", "thing.wasm"]);
}

#[test]
fn file_exists_checks_the_listing() {
    let d = RuntimeDetector::with_project(
        "proj",
        true,
        vec!["artisan".to_string(), "bin/console".to_string()],
        None,
        None,
        None,
    );
    assert!(d.file_exists("artisan"));
    assert!(!d.file_exists("missing"));
    assert_eq!(d.detect_php_framework(), nova::runtime_detector::Framework::Laravel);
}
