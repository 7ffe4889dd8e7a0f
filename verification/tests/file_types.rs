use edit::file_type::{classify_file, comment_prefix_for_file_type, FileType};
use edit::highlight::SyntaxHighlighter;

#[test]
fn comment_prefixes() {
    assert_eq!(comment_prefix_for_file_type(FileType::Python), Some("#"));
    assert_eq!(comment_prefix_for_file_type(FileType::Makefile), Some("#"));
    assert_eq!(comment_prefix_for_file_type(FileType::Rust), Some("//"));
    assert_eq!(comment_prefix_for_file_type(FileType::Less), Some("//"));
    assert_eq!(comment_prefix_for_file_type(FileType::SQL), Some("--"));
    assert_eq!(comment_prefix_for_file_type(FileType::Lua), Some("--"));
    assert_eq!(comment_prefix_for_file_type(FileType::HTML), None);
    assert_eq!(comment_prefix_for_file_type(FileType::JSON), None);
    assert_eq!(comment_prefix_for_file_type(FileType::Plain), None);
}

#[test]
fn detect_special_names() {
    assert_eq!(SyntaxHighlighter::detect_file_type("Dockerfile"), FileType::Dockerfile);
    assert_eq!(SyntaxHighlighter::detect_file_type("build/dockerfile"), FileType::Dockerfile);
    assert_eq!(SyntaxHighlighter::detect_file_type("Dockerfile.dev"), FileType::Dockerfile);
    assert_eq!(SyntaxHighlighter::detect_file_type("GNUmakefile"), FileType::Makefile);
    assert_eq!(SyntaxHighlighter::detect_file_type("Gemfile"), FileType::Ruby);
    assert_eq!(SyntaxHighlighter::detect_file_type("Vagrantfile"), FileType::Ruby);
}

#[test]
fn detect_yaml_names() {
    assert_eq!(SyntaxHighlighter::detect_file_type(".travis.yml"), FileType::YAML);
    assert_eq!(SyntaxHighlighter::detect_file_type("Docker-Compose.YML"), FileType::YAML);
    assert_eq!(SyntaxHighlighter::detect_file_type(".github/workflows/ci.yaml"), FileType::YAML);
    assert_eq!(SyntaxHighlighter::detect_file_type("config.yml"), FileType::YAML);
}

#[test]
fn detect_by_extension() {
    assert_eq!(SyntaxHighlighter::detect_file_type("main.rs"), FileType::Rust);
    assert_eq!(SyntaxHighlighter::detect_file_type("src/app.py"), FileType::Python);
    assert_eq!(SyntaxHighlighter::detect_file_type("x.tsx"), FileType::TypeScript);
    assert_eq!(SyntaxHighlighter::detect_file_type("x.jsx"), FileType::JavaScript);
    assert_eq!(SyntaxHighlighter::detect_file_type("lib.c++"), FileType::Cpp);
    assert_eq!(SyntaxHighlighter::detect_file_type("a.h"), FileType::C);
    assert_eq!(SyntaxHighlighter::detect_file_type("pkg.gemspec"), FileType::Ruby);
    assert_eq!(SyntaxHighlighter::detect_file_type("icon.svg"), FileType::XML);
    assert_eq!(SyntaxHighlighter::detect_file_type("rules.mk"), FileType::Makefile);
    assert_eq!(SyntaxHighlighter::detect_file_type("build.sbt"), FileType::Scala);
    assert_eq!(SyntaxHighlighter::detect_file_type("run.ps1"), FileType::PowerShell);
    assert_eq!(SyntaxHighlighter::detect_file_type("test.t"), FileType::Perl);
    assert_eq!(SyntaxHighlighter::detect_file_type("fix.patch"), FileType::Diff);
    assert_eq!(SyntaxHighlighter::detect_file_type("App.kts"), FileType::Kotlin);
    assert_eq!(SyntaxHighlighter::detect_file_type("Cargo.toml"), FileType::TOML);
}

#[test]
fn detect_plain_cases() {
    assert_eq!(SyntaxHighlighter::detect_file_type("README"), FileType::Plain);
    assert_eq!(SyntaxHighlighter::detect_file_type(".bashrc"), FileType::Plain);
    assert_eq!(SyntaxHighlighter::detect_file_type("notes.txt"), FileType::Plain);
    assert_eq!(SyntaxHighlighter::detect_file_type(""), FileType::Plain);
    // Extensions are compared as written.
    assert_eq!(SyntaxHighlighter::detect_file_type("MAIN.RS"), FileType::Plain);
}

#[test]
fn classify_from_parts() {
    assert_eq!(classify_file("a/Makefile", "Makefile", "a/makefile", None), FileType::Makefile);
    assert_eq!(classify_file("x", "x", "site.yml", None), FileType::YAML);
    assert_eq!(classify_file("x", "x", "x", Some("lua")), FileType::Lua);
    assert_eq!(classify_file("x", "x", "x", Some("nope")), FileType::Plain);
    assert_eq!(classify_file("x", "x", "x", None), FileType::Plain);
}

#[test]
fn only_the_final_name_decides_for_paths() {

    assert_eq!(SyntaxHighlighter::detect_file_type("src/main.rs"), FileType::Rust);
    assert_eq!(SyntaxHighlighter::detect_file_type("project/Makefile"), FileType::Makefile);
    assert_eq!(SyntaxHighlighter::detect_file_type("/etc/docker/Dockerfile.dev"), FileType::Dockerfile);
    assert_eq!(SyntaxHighlighter::detect_file_type("notes.d/readme"), FileType::Plain);
}

#[test]
fn a_directory_does_not_change_the_type() {
    for name in ["notes.md", "main.rs", "makefile", "dockerfile.dev", "site.yml", ".travis.yml", "x.yaml", "readme"] {
        for dir in ["a", "a/b", "/abs/path", ".github", ".github/workflows", "Mixed/Case"] {
            let path = format!("{}/{}", dir, name);
            assert_eq!(SyntaxHighlighter::detect_file_type(&path), SyntaxHighlighter::detect_file_type(name), "{}", path);
        }
    }
    // The one exception: a bare `.yml` right under `.github/`.
    assert_eq!(SyntaxHighlighter::detect_file_type(".github/.yml"), FileType::YAML);
    assert_eq!(SyntaxHighlighter::detect_file_type(".yml"), FileType::Plain);
}
