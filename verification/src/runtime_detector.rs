//! Source-language and framework detection: from a path's extension, the
//! files present in a project directory, and the manifests those files
//! hold, decide which language the project is written in, which framework
//! it uses, and which command would run it.
//!
//! The decision rules live here, verified; the driver gathers the plain
//! facts they consume (whether the path is a directory, which files its
//! directory holds, the text of the relevant manifests) and builds the
//! detector from them.

use vstd::prelude::*;
use crate::json::{
    entries_contain, entries_have_key, json_field_entries, object_field_entries,
};
use crate::text::{
    contains_seq, contains_str, copy_str, rfind_char, rfind_char_spec, seq_has_str, seq_views,
    any_str_eq, str_eq,
};

verus! {

/// The source languages the detector tells apart.
#[derive(Clone, Copy, Debug, PartialEq, Eq, Structural)]
pub enum Language {
    Python,
    JavaScript,
    TypeScript,
    Rust,
    Go,
    PHP,
    Ruby,
    Java,
    CSharp,
    Unknown,
}

/// The frameworks the detector recognizes; `Plain` is the absence of one.
#[derive(Clone, Copy, Debug, PartialEq, Eq, Structural)]
pub enum Framework {
    NextJS,
    Express,
    NestJS,
    React,
    Vue,
    Angular,
    Django,
    FastAPI,
    Flask,
    Laravel,
    Symfony,
    Rails,
    Sinatra,
    SpringBoot,
    Plain,
}

/// The final component of a path: what follows the last `/`.
pub open spec fn file_name_of(path: Seq<char>) -> Seq<char> {
    match rfind_char_spec(path, '/') {
        Some(i) => path.skip(i + 1),
        None => path,
    }
}

/// The extension of a path: what follows the last `.` of its file name. A
/// dot at the very front of the file name starts no extension.
pub open spec fn ext_of(path: Seq<char>) -> Option<Seq<char>> {
    let name = file_name_of(path);
    match rfind_char_spec(name, '.') {
        Some(i) => if i > 0 {
            Some(name.skip(i + 1))
        } else {
            None
        },
        None => None,
    }
}

/// The language an extension names; anything unrecognized is `Unknown`.
pub open spec fn language_of_ext(e: Seq<char>) -> Language {
    if e == "py"@ {
        Language::Python
    } else if e == "js"@ {
        Language::JavaScript
    } else if e == "ts"@ {
        Language::TypeScript
    } else if e == "rs"@ {
        Language::Rust
    } else if e == "go"@ {
        Language::Go
    } else if e == "php"@ {
        Language::PHP
    } else if e == "rb"@ {
        Language::Ruby
    } else if e == "java"@ {
        Language::Java
    } else if e == "cs"@ {
        Language::CSharp
    } else {
        Language::Unknown
    }
}

/// The language a project directory's files reveal.
pub open spec fn language_of_files(files: Seq<Seq<char>>) -> Language {
    if seq_has_str(files, "package.json"@) {
        Language::JavaScript
    } else if seq_has_str(files, "requirements.txt"@) || seq_has_str(files, "setup.py"@) {
        Language::Python
    } else if seq_has_str(files, "Cargo.toml"@) {
        Language::Rust
    } else if seq_has_str(files, "go.mod"@) {
        Language::Go
    } else if seq_has_str(files, "composer.json"@) {
        Language::PHP
    } else if seq_has_str(files, "Gemfile"@) {
        Language::Ruby
    } else if seq_has_str(files, "pom.xml"@) || seq_has_str(files, "build.gradle"@) {
        Language::Java
    } else {
        Language::Unknown
    }
}

/// The detector's whole language rule: an extension decides by itself;
/// a path without one is judged by its directory's files, when it is a
/// directory at all.
pub open spec fn spec_detect_language(d: RuntimeDetector) -> Language {
    match ext_of(d.path@) {
        Some(e) => language_of_ext(e),
        None => if d.is_dir {
            language_of_files(seq_views(d.dir_files@))
        } else {
            Language::Unknown
        },
    }
}

/// Which JavaScript framework the dependency entries of a manifest name,
/// first match first.
pub open spec fn js_framework_of_entries(es: Seq<(Seq<char>, Option<Seq<char>>)>) -> Framework {
    if entries_contain(es, "next"@) {
        Framework::NextJS
    } else if entries_contain(es, "express"@) {
        Framework::Express
    } else if entries_contain(es, "@nestjs/core"@) {
        Framework::NestJS
    } else if entries_contain(es, "react"@) {
        Framework::React
    } else if entries_contain(es, "vue"@) {
        Framework::Vue
    } else if entries_contain(es, "@angular/core"@) {
        Framework::Angular
    } else {
        Framework::Plain
    }
}

/// The JavaScript rule: the `dependencies` of the project's manifest text,
/// when there is one and it parses.
pub open spec fn spec_detect_js_framework(d: RuntimeDetector) -> Framework {
    match d.package_json {
        Some(content) => match json_field_entries(content@, "dependencies"@) {
            Some(es) => js_framework_of_entries(es),
            None => Framework::Plain,
        },
        None => Framework::Plain,
    }
}

/// The Python rule: a `manage.py` means Django; otherwise the requirements
/// text is searched, FastAPI before Flask before Django.
pub open spec fn spec_detect_python_framework(d: RuntimeDetector) -> Framework {
    if seq_has_str(seq_views(d.dir_files@), "manage.py"@) {
        Framework::Django
    } else {
        match d.requirements {
            Some(content) => if contains_seq(content@, "fastapi"@) {
                Framework::FastAPI
            } else if contains_seq(content@, "flask"@) {
                Framework::Flask
            } else if contains_seq(content@, "django"@) {
                Framework::Django
            } else {
                Framework::Plain
            },
            None => Framework::Plain,
        }
    }
}

/// The PHP rule: an `artisan` script means Laravel, a `bin/console` means
/// Symfony.
pub open spec fn spec_detect_php_framework(d: RuntimeDetector) -> Framework {
    if seq_has_str(seq_views(d.dir_files@), "artisan"@) {
        Framework::Laravel
    } else if seq_has_str(seq_views(d.dir_files@), "bin/console"@) {
        Framework::Symfony
    } else {
        Framework::Plain
    }
}

/// The Ruby rule: a rackup file or a Rakefile is taken as Rails.
pub open spec fn spec_detect_ruby_framework(d: RuntimeDetector) -> Framework {
    if seq_has_str(seq_views(d.dir_files@), "config.ru"@) || seq_has_str(
        seq_views(d.dir_files@),
        "Rakefile"@,
    ) {
        Framework::Rails
    } else {
        Framework::Plain
    }
}

/// The Java rule: a `pom.xml` naming spring-boot means Spring Boot.
pub open spec fn spec_detect_java_framework(d: RuntimeDetector) -> Framework {
    match d.pom {
        Some(content) => if contains_seq(content@, "spring-boot"@) {
            Framework::SpringBoot
        } else {
            Framework::Plain
        },
        None => Framework::Plain,
    }
}

/// The framework rule: dispatch on the detected language.
pub open spec fn spec_detect_framework(d: RuntimeDetector) -> Framework {
    match spec_detect_language(d) {
        Language::JavaScript | Language::TypeScript => spec_detect_js_framework(d),
        Language::Python => spec_detect_python_framework(d),
        Language::PHP => spec_detect_php_framework(d),
        Language::Ruby => spec_detect_ruby_framework(d),
        Language::Java => spec_detect_java_framework(d),
        _ => Framework::Plain,
    }
}

/// The recommended run command for a detected language and framework.
pub open spec fn spec_runtime_command(d: RuntimeDetector) -> Seq<Seq<char>> {
    let lang = spec_detect_language(d);
    let fw = spec_detect_framework(d);
    if lang == Language::Python && fw == Framework::Django {
        seq!["python"@, "manage.py"@, "runserver"@]
    } else if lang == Language::Python && fw == Framework::FastAPI {
        seq!["uvicorn"@, "main:app"@, "--host"@, "0.0.0.0"@]
    } else if lang == Language::Python && fw == Framework::Flask {
        seq!["flask"@, "run"@, "--host=0.0.0.0"@]
    } else if lang == Language::JavaScript && fw == Framework::NextJS {
        seq!["npm"@, "run"@, "dev"@]
    } else if lang == Language::JavaScript && fw == Framework::Express {
        seq!["node"@, "server.js"@]
    } else {
        seq!["nova"@, "run"@, d.path@]
    }
}

/// The detector: the path under judgment and the plain facts about it the
/// driver gathered. A path that is not a directory has no files and no
/// manifest texts.
pub struct RuntimeDetector {
    /// The path being judged.
    pub path: String,
    /// Whether the path is a directory.
    pub is_dir: bool,
    /// The names of the entries directly inside the directory, plus
    /// `bin/console` when that nested file exists.
    pub dir_files: Vec<String>,
    /// The text of `package.json`, when present and readable.
    pub package_json: Option<String>,
    /// The text of `requirements.txt`, when present and readable.
    pub requirements: Option<String>,
    /// The text of `pom.xml`, when present and readable.
    pub pom: Option<String>,
}

impl RuntimeDetector {
    /// A detector for a plain path about which nothing else is known.
    pub fn new(path: &str) -> (r: Self)
        ensures
            r.path@ == path@,
            !r.is_dir,
            r.dir_files@.len() == 0,
            r.package_json is None,
            r.requirements is None,
            r.pom is None,
    {
        RuntimeDetector {
            path: copy_str(path),
            is_dir: false,
            dir_files: Vec::new(),
            package_json: None,
            requirements: None,
            pom: None,
        }
    }

    /// A detector with the gathered facts about a project directory.
    pub fn with_project(
        path: &str,
        is_dir: bool,
        dir_files: Vec<String>,
        package_json: Option<String>,
        requirements: Option<String>,
        pom: Option<String>,
    ) -> (r: Self)
        ensures
            r.path@ == path@,
            r.is_dir == is_dir,
            r.dir_files == dir_files,
            r.package_json == package_json,
            r.requirements == requirements,
            r.pom == pom,
    {
        RuntimeDetector { path: copy_str(path), is_dir, dir_files, package_json, requirements, pom }
    }

    /// Whether a file of the given name is among the directory's entries.
    pub fn file_exists(&self, name: &str) -> (r: bool)
        ensures
            r == seq_has_str(seq_views(self.dir_files@), name@),
    {
        any_str_eq(&self.dir_files, name)
    }

    /// Detect the language from the file extension, or failing that from
    /// the project structure.
    pub fn detect_language(&self) -> (r: Language)
        ensures
            r == spec_detect_language(*self),
    {
        let n = self.path.as_str().unicode_len();
        let name = match rfind_char(self.path.as_str(), '/') {
            Some(i) => {
                proof {
                    crate::text::lemma_rfind_char_spec(self.path@, '/');
                    assert(self.path@.subrange(i + 1, n as int) =~= self.path@.skip(i + 1));
                }
                self.path.as_str().substring_char(i + 1, n)
            },
            None => self.path.as_str(),
        };
        proof {
            assert(name@ == file_name_of(self.path@));
        }
        let nn = name.unicode_len();
        let ext = match rfind_char(name, '.') {
            Some(i) => if i > 0 {
                proof {
                    crate::text::lemma_rfind_char_spec(name@, '.');
                    assert(name@.subrange(i + 1, nn as int) =~= name@.skip(i + 1));
                }
                Some(name.substring_char(i + 1, nn))
            } else {
                None
            },
            None => None,
        };
        match ext {
            Some(e) => {
                if str_eq(e, "py") {
                    Language::Python
                } else if str_eq(e, "js") {
                    Language::JavaScript
                } else if str_eq(e, "ts") {
                    Language::TypeScript
                } else if str_eq(e, "rs") {
                    Language::Rust
                } else if str_eq(e, "go") {
                    Language::Go
                } else if str_eq(e, "php") {
                    Language::PHP
                } else if str_eq(e, "rb") {
                    Language::Ruby
                } else if str_eq(e, "java") {
                    Language::Java
                } else if str_eq(e, "cs") {
                    Language::CSharp
                } else {
                    Language::Unknown
                }
            },
            None => {
                if self.is_dir {
                    if self.file_exists("package.json") {
                        Language::JavaScript
                    } else if self.file_exists("requirements.txt") || self.file_exists("setup.py") {
                        Language::Python
                    } else if self.file_exists("Cargo.toml") {
                        Language::Rust
                    } else if self.file_exists("go.mod") {
                        Language::Go
                    } else if self.file_exists("composer.json") {
                        Language::PHP
                    } else if self.file_exists("Gemfile") {
                        Language::Ruby
                    } else if self.file_exists("pom.xml") || self.file_exists("build.gradle") {
                        Language::Java
                    } else {
                        Language::Unknown
                    }
                } else {
                    Language::Unknown
                }
            },
        }
    }

    /// Detect the JavaScript framework from the manifest's dependencies.
    pub fn detect_js_framework(&self) -> (r: Framework)
        ensures
            r == spec_detect_js_framework(*self),
    {
        let content = match &self.package_json {
            Some(c) => c,
            None => {
                return Framework::Plain;
            },
        };
        let entries = match object_field_entries(content.as_str(), "dependencies") {
            Some(es) => es,
            None => {
                return Framework::Plain;
            },
        };
        if entries_have_key(&entries, "next") {
            Framework::NextJS
        } else if entries_have_key(&entries, "express") {
            Framework::Express
        } else if entries_have_key(&entries, "@nestjs/core") {
            Framework::NestJS
        } else if entries_have_key(&entries, "react") {
            Framework::React
        } else if entries_have_key(&entries, "vue") {
            Framework::Vue
        } else if entries_have_key(&entries, "@angular/core") {
            Framework::Angular
        } else {
            Framework::Plain
        }
    }

    /// Detect the Python framework from `manage.py` or the requirements.
    pub fn detect_python_framework(&self) -> (r: Framework)
        ensures
            r == spec_detect_python_framework(*self),
    {
        if self.file_exists("manage.py") {
            return Framework::Django;
        }
        match &self.requirements {
            Some(content) => {
                if contains_str(content.as_str(), "fastapi") {
                    Framework::FastAPI
                } else if contains_str(content.as_str(), "flask") {
                    Framework::Flask
                } else if contains_str(content.as_str(), "django") {
                    Framework::Django
                } else {
                    Framework::Plain
                }
            },
            None => Framework::Plain,
        }
    }

    /// Detect the PHP framework from the project's entry scripts.
    pub fn detect_php_framework(&self) -> (r: Framework)
        ensures
            r == spec_detect_php_framework(*self),
    {
        if self.file_exists("artisan") {
            Framework::Laravel
        } else if self.file_exists("bin/console") {
            Framework::Symfony
        } else {
            Framework::Plain
        }
    }

    /// Detect the Ruby framework from the project's build files.
    pub fn detect_ruby_framework(&self) -> (r: Framework)
        ensures
            r == spec_detect_ruby_framework(*self),
    {
        if self.file_exists("config.ru") || self.file_exists("Rakefile") {
            Framework::Rails
        } else {
            Framework::Plain
        }
    }

    /// Detect the Java framework from the Maven manifest.
    pub fn detect_java_framework(&self) -> (r: Framework)
        ensures
            r == spec_detect_java_framework(*self),
    {
        match &self.pom {
            Some(content) => {
                if contains_str(content.as_str(), "spring-boot") {
                    Framework::SpringBoot
                } else {
                    Framework::Plain
                }
            },
            None => Framework::Plain,
        }
    }

    /// Detect the framework for the detected language.
    pub fn detect_framework(&self) -> (r: Framework)
        ensures
            r == spec_detect_framework(*self),
    {
        match self.detect_language() {
            Language::JavaScript | Language::TypeScript => self.detect_js_framework(),
            Language::Python => self.detect_python_framework(),
            Language::PHP => self.detect_php_framework(),
            Language::Ruby => self.detect_ruby_framework(),
            Language::Java => self.detect_java_framework(),
            _ => Framework::Plain,
        }
    }

    /// The recommended command to run the project with.
    pub fn get_runtime_command(&self) -> (r: Vec<String>)
        ensures
            seq_views(r@) == spec_runtime_command(*self),
    {
        let lang = self.detect_language();
        let framework = self.detect_framework();
        let r: Vec<String> = if lang == Language::Python && framework == Framework::Django {
            vec![copy_str("python"), copy_str("manage.py"), copy_str("runserver")]
        } else if lang == Language::Python && framework == Framework::FastAPI {
            vec![
                copy_str("uvicorn"),
                copy_str("main:app"),
                copy_str("--host"),
                copy_str("0.0.0.0"),
            ]
        } else if lang == Language::Python && framework == Framework::Flask {
            vec![copy_str("flask"), copy_str("run"), copy_str("--host=0.0.0.0")]
        } else if lang == Language::JavaScript && framework == Framework::NextJS {
            vec![copy_str("npm"), copy_str("run"), copy_str("dev")]
        } else if lang == Language::JavaScript && framework == Framework::Express {
            vec![copy_str("node"), copy_str("server.js")]
        } else {
            vec![copy_str("nova"), copy_str("run"), copy_str(self.path.as_str())]
        };
        proof {
            assert(seq_views(r@) =~= spec_runtime_command(*self));
        }
        r
    }
}

} // verus!
