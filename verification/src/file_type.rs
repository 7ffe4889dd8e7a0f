use vstd::prelude::*;

use crate::paths::{
    after_last_slash, ascii_lowercase, ends_in_plain_name, extension_of_name, has_embedded_dot,
    is_ascii_text, last_dot, lemma_after_last_slash_of_name, path_file_name, str_to_lowercase,
};
use crate::syntect_api::ascii_lower;
use crate::text::{chars_of, ends_with_literal, is_literal, seq_ends_with, seq_starts_with, starts_with_literal};

verus! {

/// The languages the editor knows about.
#[derive(Debug, Clone, Copy, PartialEq, Eq, Hash, Structural)]
pub enum FileType {
    Plain,
    Python,
    Rust,
    JavaScript,
    TypeScript,
    HTML,
    CSS,
    Dockerfile,
    YAML,
    JSON,
    Markdown,
    Shell,
    Go,
    Java,
    C,
    Cpp,
    CSharp,
    Ruby,
    PHP,
    SQL,
    TOML,
    XML,
    Makefile,
    Swift,
    Scala,
    Lua,
    PowerShell,
    Perl,
    Less,
    Diff,
    Kotlin,
}

/// The single-line comment prefix of each language, as a sequence of characters.
pub open spec fn spec_comment_prefix(file_type: FileType) -> Option<Seq<char>> {
    match file_type {
        FileType::Python | FileType::Ruby | FileType::Shell | FileType::Perl | FileType::YAML
        | FileType::TOML | FileType::Dockerfile | FileType::Makefile | FileType::PowerShell => Some(
            seq!['#'],
        ),
        FileType::Rust | FileType::JavaScript | FileType::TypeScript | FileType::Go
        | FileType::Java | FileType::C | FileType::Cpp | FileType::CSharp | FileType::Swift
        | FileType::Scala | FileType::Kotlin | FileType::PHP | FileType::Less => Some(
            seq!['/', '/'],
        ),
        FileType::SQL | FileType::Lua => Some(seq!['-', '-']),
        FileType::HTML | FileType::XML | FileType::CSS | FileType::JSON | FileType::Markdown
        | FileType::Diff | FileType::Plain => None,
    }
}

/// Returns the single-line comment prefix for a file type, or `None` if
/// the language uses only block comments or has no comment syntax.
pub fn comment_prefix_for_file_type(file_type: FileType) -> (r: Option<&'static str>)
    ensures
        match r {
            Some(s) => spec_comment_prefix(file_type) == Some(s@),
            None => spec_comment_prefix(file_type) is None,
        },
{
    let hash = "#";
    let slashes = "//";
    let dashes = "--";
    proof {
        reveal_strlit("#");
        reveal_strlit("//");
        reveal_strlit("--");
    }
    match file_type {
        FileType::Python | FileType::Ruby | FileType::Shell | FileType::Perl | FileType::YAML
        | FileType::TOML | FileType::Dockerfile | FileType::Makefile | FileType::PowerShell => {
            assert(hash@ =~= seq!['#']);
            Some(hash)
        },
        FileType::Rust | FileType::JavaScript | FileType::TypeScript | FileType::Go
        | FileType::Java | FileType::C | FileType::Cpp | FileType::CSharp | FileType::Swift
        | FileType::Scala | FileType::Kotlin | FileType::PHP | FileType::Less => {
            assert(slashes@ =~= seq!['/', '/']);
            Some(slashes)
        },
        FileType::SQL | FileType::Lua => {
            assert(dashes@ =~= seq!['-', '-']);
            Some(dashes)
        },
        FileType::HTML | FileType::XML | FileType::CSS | FileType::JSON | FileType::Markdown
        | FileType::Diff | FileType::Plain => None,
    }
}

/// The file type that a file-name extension selects (`Plain` for an unknown one).
pub open spec fn spec_file_type_for_extension(ext: Seq<char>) -> FileType {
    if ext == "py"@ || ext == "py3"@ || ext == "pyw"@ || ext == "pyi"@ {
        FileType::Python
    } else if ext == "rs"@ {
        FileType::Rust
    } else if ext == "js"@ || ext == "mjs"@ || ext == "cjs"@ || ext == "jsx"@ {
        FileType::JavaScript
    } else if ext == "ts"@ || ext == "tsx"@ {
        FileType::TypeScript
    } else if ext == "html"@ || ext == "htm"@ || ext == "xhtml"@ {
        FileType::HTML
    } else if ext == "css"@ {
        FileType::CSS
    } else if ext == "yaml"@ || ext == "yml"@ {
        FileType::YAML
    } else if ext == "json"@ || ext == "jsonc"@ || ext == "json5"@ {
        FileType::JSON
    } else if ext == "md"@ || ext == "markdown"@ || ext == "mdown"@ || ext == "markdn"@ {
        FileType::Markdown
    } else if ext == "sh"@ || ext == "bash"@ || ext == "zsh"@ || ext == "ksh"@ || ext == "fish"@ {
        FileType::Shell
    } else if ext == "go"@ {
        FileType::Go
    } else if ext == "java"@ {
        FileType::Java
    } else if ext == "c"@ || ext == "h"@ {
        FileType::C
    } else if ext == "cpp"@ || ext == "cc"@ || ext == "cxx"@ || ext == "c++"@ || ext == "hpp"@ || ext == "hh"@ || ext == "hxx"@ || ext == "h++"@ {
        FileType::Cpp
    } else if ext == "cs"@ || ext == "csx"@ {
        FileType::CSharp
    } else if ext == "rb"@ || ext == "rbx"@ || ext == "rjs"@ || ext == "rake"@ || ext == "gemspec"@ || ext == "ru"@ {
        FileType::Ruby
    } else if ext == "php"@ || ext == "php3"@ || ext == "php4"@ || ext == "php5"@ || ext == "php7"@ || ext == "phtml"@ {
        FileType::PHP
    } else if ext == "sql"@ {
        FileType::SQL
    } else if ext == "toml"@ {
        FileType::TOML
    } else if ext == "xml"@ || ext == "xsd"@ || ext == "xsl"@ || ext == "xslt"@ || ext == "svg"@ || ext == "plist"@ {
        FileType::XML
    } else if ext == "mk"@ || ext == "mak"@ {
        FileType::Makefile
    } else if ext == "swift"@ {
        FileType::Swift
    } else if ext == "scala"@ || ext == "sbt"@ || ext == "sc"@ {
        FileType::Scala
    } else if ext == "lua"@ {
        FileType::Lua
    } else if ext == "ps1"@ || ext == "psm1"@ || ext == "psd1"@ || ext == "pssc"@ {
        FileType::PowerShell
    } else if ext == "pl"@ || ext == "pm"@ || ext == "pod"@ || ext == "t"@ {
        FileType::Perl
    } else if ext == "less"@ {
        FileType::Less
    } else if ext == "diff"@ || ext == "patch"@ {
        FileType::Diff
    } else if ext == "kt"@ || ext == "kts"@ {
        FileType::Kotlin
    } else {
        FileType::Plain
    }
}

/// The file type that a file-name extension selects (`Plain` for an unknown one).
pub fn file_type_for_extension(ext: &Vec<char>) -> (r: FileType)
    ensures
        r == spec_file_type_for_extension(ext@),
{
    if is_literal(ext, "py") || is_literal(ext, "py3") || is_literal(ext, "pyw") || is_literal(ext, "pyi") {
        FileType::Python
    } else if is_literal(ext, "rs") {
        FileType::Rust
    } else if is_literal(ext, "js") || is_literal(ext, "mjs") || is_literal(ext, "cjs") || is_literal(ext, "jsx") {
        FileType::JavaScript
    } else if is_literal(ext, "ts") || is_literal(ext, "tsx") {
        FileType::TypeScript
    } else if is_literal(ext, "html") || is_literal(ext, "htm") || is_literal(ext, "xhtml") {
        FileType::HTML
    } else if is_literal(ext, "css") {
        FileType::CSS
    } else if is_literal(ext, "yaml") || is_literal(ext, "yml") {
        FileType::YAML
    } else if is_literal(ext, "json") || is_literal(ext, "jsonc") || is_literal(ext, "json5") {
        FileType::JSON
    } else if is_literal(ext, "md") || is_literal(ext, "markdown") || is_literal(ext, "mdown") || is_literal(ext, "markdn") {
        FileType::Markdown
    } else if is_literal(ext, "sh") || is_literal(ext, "bash") || is_literal(ext, "zsh") || is_literal(ext, "ksh") || is_literal(ext, "fish") {
        FileType::Shell
    } else if is_literal(ext, "go") {
        FileType::Go
    } else if is_literal(ext, "java") {
        FileType::Java
    } else if is_literal(ext, "c") || is_literal(ext, "h") {
        FileType::C
    } else if is_literal(ext, "cpp") || is_literal(ext, "cc") || is_literal(ext, "cxx") || is_literal(ext, "c++") || is_literal(ext, "hpp") || is_literal(ext, "hh") || is_literal(ext, "hxx") || is_literal(ext, "h++") {
        FileType::Cpp
    } else if is_literal(ext, "cs") || is_literal(ext, "csx") {
        FileType::CSharp
    } else if is_literal(ext, "rb") || is_literal(ext, "rbx") || is_literal(ext, "rjs") || is_literal(ext, "rake") || is_literal(ext, "gemspec") || is_literal(ext, "ru") {
        FileType::Ruby
    } else if is_literal(ext, "php") || is_literal(ext, "php3") || is_literal(ext, "php4") || is_literal(ext, "php5") || is_literal(ext, "php7") || is_literal(ext, "phtml") {
        FileType::PHP
    } else if is_literal(ext, "sql") {
        FileType::SQL
    } else if is_literal(ext, "toml") {
        FileType::TOML
    } else if is_literal(ext, "xml") || is_literal(ext, "xsd") || is_literal(ext, "xsl") || is_literal(ext, "xslt") || is_literal(ext, "svg") || is_literal(ext, "plist") {
        FileType::XML
    } else if is_literal(ext, "mk") || is_literal(ext, "mak") {
        FileType::Makefile
    } else if is_literal(ext, "swift") {
        FileType::Swift
    } else if is_literal(ext, "scala") || is_literal(ext, "sbt") || is_literal(ext, "sc") {
        FileType::Scala
    } else if is_literal(ext, "lua") {
        FileType::Lua
    } else if is_literal(ext, "ps1") || is_literal(ext, "psm1") || is_literal(ext, "psd1") || is_literal(ext, "pssc") {
        FileType::PowerShell
    } else if is_literal(ext, "pl") || is_literal(ext, "pm") || is_literal(ext, "pod") || is_literal(ext, "t") {
        FileType::Perl
    } else if is_literal(ext, "less") {
        FileType::Less
    } else if is_literal(ext, "diff") || is_literal(ext, "patch") {
        FileType::Diff
    } else if is_literal(ext, "kt") || is_literal(ext, "kts") {
        FileType::Kotlin
    } else {
        FileType::Plain
    }
}

/// The file names (in lower case) that are YAML whatever their extension.
pub open spec fn is_yaml_file_name(lowercase: Seq<char>) -> bool {
    lowercase == ".travis.yml"@ || lowercase == "docker-compose.yml"@ || lowercase
        == "docker-compose.yaml"@ || lowercase == ".gitlab-ci.yml"@ || lowercase == "appveyor.yml"@
        || lowercase == "circle.yml"@ || lowercase == "wercker.yml"@ || lowercase == "ansible.yml"@
        || lowercase == "playbook.yml"@ || lowercase == "site.yml"@
}

/// How a file is classified from its full name, its base name, its name in lower case and
/// its extension (each as the standard library computes them).
pub open spec fn spec_classify_file(
    filename: Seq<char>,
    basename: Seq<char>,
    lowercase: Seq<char>,
    extension: Option<Seq<char>>,
) -> FileType {
    if basename == "Dockerfile"@ || basename == "dockerfile"@ {
        FileType::Dockerfile
    } else if basename == "Makefile"@ || basename == "makefile"@ || basename == "GNUmakefile"@ || basename == "GNUMakefile"@ || basename == "BSDmakefile"@ {
        FileType::Makefile
    } else if basename == "Rakefile"@ || basename == "Gemfile"@ || basename == "Vagrantfile"@ || basename == "Capfile"@ || basename == "Guardfile"@ || basename == "Brewfile"@ {
        FileType::Ruby
    } else if seq_starts_with(basename, "Dockerfile."@) {
        FileType::Dockerfile
    } else if is_yaml_file_name(lowercase) {
        FileType::YAML
    } else if seq_starts_with(filename, ".github/"@) && (seq_ends_with(filename, ".yml"@)
        || seq_ends_with(filename, ".yaml"@)) {
        FileType::YAML
    } else {
        match extension {
            Some(ext) => spec_file_type_for_extension(ext),
            None => FileType::Plain,
        }
    }
}

/// Classifies a file from its full name, its base name, its name in lower case and its
/// extension.
pub fn classify_file(
    filename: &str,
    basename: &str,
    lowercase: &str,
    extension: Option<&str>,
) -> (r: FileType)
    ensures
        r == spec_classify_file(
            filename@,
            basename@,
            lowercase@,
            match extension {
                Some(e) => Some(e@),
                None => None,
            },
        ),
{
    let base = chars_of(basename);
    if is_literal(&base, "Dockerfile") || is_literal(&base, "dockerfile") {
        return FileType::Dockerfile;
    }
    if is_literal(&base, "Makefile") || is_literal(&base, "makefile") || is_literal(&base, "GNUmakefile") || is_literal(&base, "GNUMakefile") || is_literal(&base, "BSDmakefile") {
        return FileType::Makefile;
    }
    if is_literal(&base, "Rakefile") || is_literal(&base, "Gemfile") || is_literal(&base, "Vagrantfile") || is_literal(&base, "Capfile") || is_literal(&base, "Guardfile") || is_literal(&base, "Brewfile") {
        return FileType::Ruby;
    }
    if starts_with_literal(&base, "Dockerfile.") {
        return FileType::Dockerfile;
    }
    let lower = chars_of(lowercase);
    if is_literal(&lower, ".travis.yml") || is_literal(&lower, "docker-compose.yml") || is_literal(&lower, "docker-compose.yaml") || is_literal(&lower, ".gitlab-ci.yml") || is_literal(&lower, "appveyor.yml") || is_literal(&lower, "circle.yml") || is_literal(&lower, "wercker.yml") || is_literal(&lower, "ansible.yml") || is_literal(&lower, "playbook.yml") || is_literal(&lower, "site.yml") {
        return FileType::YAML;
    }
    let full = chars_of(filename);
    if starts_with_literal(&full, ".github/") && (ends_with_literal(&full, ".yml")
        || ends_with_literal(&full, ".yaml")) {
        return FileType::YAML;
    }
    match extension {
        Some(e) => {
            let ext = chars_of(e);
            file_type_for_extension(&ext)
        },
        None => FileType::Plain,
    }
}

/// The base name that file-type detection looks at: the path's file name, or the whole
/// input when it has none.
pub open spec fn detection_basename(filename: Seq<char>) -> Seq<char> {
    match path_file_name(filename) {
        Some(n) => n,
        None => filename,
    }
}

/// The extension that file-type detection looks at.
pub open spec fn detection_extension(filename: Seq<char>) -> Option<Seq<char>> {
    match path_file_name(filename) {
        Some(n) => extension_of_name(n),
        None => None,
    }
}

/// The file type detected for a file name.
pub open spec fn spec_detect_file_type(filename: Seq<char>) -> FileType {
    spec_classify_file(
        filename,
        detection_basename(filename),
        str_to_lowercase(filename),
        detection_extension(filename),
    )
}


/// Whether `s` holds the character `c`.
pub open spec fn has_char(s: Seq<char>, c: char) -> bool {
    exists|i: int| 0 <= i < s.len() && s[i] == c
}

/// No YAML file name holds a `/`.
proof fn lemma_yaml_file_names_have_no_slash(s: Seq<char>)
    requires
        has_char(s, '/'),
    ensures
        !is_yaml_file_name(s),
{
    let i = choose|i: int| 0 <= i < s.len() && s[i] == '/';
    reveal_strlit(".travis.yml");
    reveal_strlit("docker-compose.yml");
    reveal_strlit("docker-compose.yaml");
    reveal_strlit(".gitlab-ci.yml");
    reveal_strlit("appveyor.yml");
    reveal_strlit("circle.yml");
    reveal_strlit("wercker.yml");
    reveal_strlit("ansible.yml");
    reveal_strlit("playbook.yml");
    reveal_strlit("site.yml");
}

/// A name ending in `.e`, with something before the dot and no dot in `e`, has the
/// extension `e`.
proof fn lemma_extension_of_suffix(name: Seq<char>, e: Seq<char>)
    requires
        e.len() > 0,
        forall|k: int| 0 <= k < e.len() ==> e[k] != '.',
        name.len() > e.len() + 1,
        seq_ends_with(name, seq!['.'] + e),
    ensures
        extension_of_name(name) == Some(e),
{
    let d = name.len() - e.len() - 1;
    let tail = seq!['.'] + e;
    assert(name.subrange(d, name.len() as int) == tail);
    assert(name[d] == tail[0]);
    assert forall|k: int| d < k < name.len() implies name[k] != '.' by {
        assert(name[k] == tail[k - d]);
        assert(tail[k - d] == e[k - d - 1]);
    }
    assert(d >= 1);
    assert(has_embedded_dot(name));
    let i = last_dot(name);
    assert(0 <= i < name.len() && name[i] == '.' && forall|j: int| i < j < name.len() ==> name[j] != '.');
    assert(i == d);
    assert(name.skip(d + 1) =~= e) by {
        assert forall|k: int| 0 <= k < e.len() implies name.skip(d + 1)[k] == e[k] by {
            assert(name[d + 1 + k] == tail[k + 1]);
        }
    }
}

/// The extensions `yml` and `yaml` select YAML.
proof fn lemma_yaml_extensions()
    ensures
        spec_file_type_for_extension("yml"@) == FileType::YAML,
        spec_file_type_for_extension("yaml"@) == FileType::YAML,
{
    reveal_strlit("yml");
    reveal_strlit("yaml");
    reveal_strlit("py");
    reveal_strlit("py3");
    reveal_strlit("pyw");
    reveal_strlit("pyi");
    reveal_strlit("rs");
    reveal_strlit("js");
    reveal_strlit("mjs");
    reveal_strlit("cjs");
    reveal_strlit("jsx");
    reveal_strlit("ts");
    reveal_strlit("tsx");
    reveal_strlit("html");
    reveal_strlit("htm");
    reveal_strlit("xhtml");
    reveal_strlit("css");
    assert("yml"@.len() != "py"@.len());
    assert("yml"@ != "py3"@) by { assert("yml"@[0] != "py3"@[0]); }
    assert("yml"@ != "pyw"@) by { assert("yml"@[0] != "pyw"@[0]); }
    assert("yml"@ != "pyi"@) by { assert("yml"@[0] != "pyi"@[0]); }
    assert("yml"@.len() != "rs"@.len());
    assert("yml"@.len() != "js"@.len());
    assert("yml"@ != "mjs"@) by { assert("yml"@[0] != "mjs"@[0]); }
    assert("yml"@ != "cjs"@) by { assert("yml"@[0] != "cjs"@[0]); }
    assert("yml"@ != "jsx"@) by { assert("yml"@[0] != "jsx"@[0]); }
    assert("yml"@.len() != "ts"@.len());
    assert("yml"@ != "tsx"@) by { assert("yml"@[0] != "tsx"@[0]); }
    assert("yml"@.len() != "html"@.len());
    assert("yml"@ != "htm"@) by { assert("yml"@[0] != "htm"@[0]); }
    assert("yml"@.len() != "xhtml"@.len());
    assert("yml"@ != "css"@) by { assert("yml"@[0] != "css"@[0]); }
    assert("yaml"@.len() != "py"@.len());
    assert("yaml"@.len() != "py3"@.len());
    assert("yaml"@.len() != "pyw"@.len());
    assert("yaml"@.len() != "pyi"@.len());
    assert("yaml"@.len() != "rs"@.len());
    assert("yaml"@.len() != "js"@.len());
    assert("yaml"@.len() != "mjs"@.len());
    assert("yaml"@.len() != "cjs"@.len());
    assert("yaml"@.len() != "jsx"@.len());
    assert("yaml"@.len() != "ts"@.len());
    assert("yaml"@.len() != "tsx"@.len());
    assert("yaml"@ != "html"@) by { assert("yaml"@[0] != "html"@[0]); }
    assert("yaml"@.len() != "htm"@.len());
    assert("yaml"@.len() != "xhtml"@.len());
    assert("yaml"@.len() != "css"@.len());
}

/// Every YAML file name ends in `.yml` or `.yaml`, with something before the dot.
proof fn lemma_yaml_file_name_extension(name: Seq<char>)
    requires
        is_yaml_file_name(name),
    ensures
        extension_of_name(name) == Some("yml"@) || extension_of_name(name) == Some("yaml"@),
{
    reveal_strlit("yml");
    reveal_strlit("yaml");
    reveal_strlit(".travis.yml");
    reveal_strlit("docker-compose.yml");
    reveal_strlit("docker-compose.yaml");
    reveal_strlit(".gitlab-ci.yml");
    reveal_strlit("appveyor.yml");
    reveal_strlit("circle.yml");
    reveal_strlit("wercker.yml");
    reveal_strlit("ansible.yml");
    reveal_strlit("playbook.yml");
    reveal_strlit("site.yml");
    let n = name.len() as int;
    if name == "docker-compose.yaml"@ {
        assert(name.subrange(n - 5, n) =~= seq!['.'] + "yaml"@);
        lemma_extension_of_suffix(name, "yaml"@);
    } else {
        assert(name.subrange(n - 4, n) =~= seq!['.'] + "yml"@);
        lemma_extension_of_suffix(name, "yml"@);
    }
}

/// A path with a directory classifies as its final name alone does, when the final name is
/// its own lower case and the lower-cased path holds a `/`. Only a final name `.yml` or
/// `.yaml` right under `.github/` differs: the path is YAML, the bare name is not.
pub proof fn lemma_classify_in_directory(filename: Seq<char>, name: Seq<char>, lowercase: Seq<char>)
    requires
        has_char(lowercase, '/'),
        !has_char(name, '/'),
        name.len() > 0,
        seq_ends_with(filename, name),
        filename.len() > name.len(),
        filename[filename.len() - name.len() - 1] == '/',
        !(seq_starts_with(filename, ".github/"@) && (name == ".yml"@ || name == ".yaml"@)),
    ensures
        spec_classify_file(filename, name, lowercase, extension_of_name(name)) == spec_classify_file(
            name,
            name,
            name,
            extension_of_name(name),
        ),
{
    lemma_yaml_file_names_have_no_slash(lowercase);
    lemma_yaml_extensions();
    if is_yaml_file_name(name) {
        lemma_yaml_file_name_extension(name);
    }
    reveal_strlit(".github/");
    reveal_strlit(".yml");
    reveal_strlit(".yaml");
    reveal_strlit("yml");
    reveal_strlit("yaml");
    assert(!seq_starts_with(name, ".github/"@)) by {
        if seq_starts_with(name, ".github/"@) {
            assert(name.subrange(0, 8) == ".github/"@);
            assert(".github/"@[7] == '/');
            assert(name.subrange(0, 8)[7] == name[7]);
            assert(name[7] == '/');
            assert(has_char(name, '/'));
        }
    }
    let n = filename.len() as int;
    let m = name.len() as int;
    assert(filename.subrange(n - m, n) == name);
    if seq_starts_with(filename, ".github/"@) && (seq_ends_with(filename, ".yml"@) || seq_ends_with(
        filename,
        ".yaml"@,
    )) {
        let e = if seq_ends_with(filename, ".yml"@) { "yml"@ } else { "yaml"@ };
        let t = seq!['.'] + e;
        assert(t =~= if seq_ends_with(filename, ".yml"@) { ".yml"@ } else { ".yaml"@ });
        assert(filename.subrange(n - t.len(), n) == t);
        // The suffix `.e` lies inside the final name: it holds no `/`.
        if m < t.len() {
            let k = n - m - 1;
            assert(filename[k] == t[k - (n - t.len())]);
            assert(false);
        }
        assert(name.subrange(m - t.len(), m) =~= t) by {
            assert forall|j: int| 0 <= j < t.len() implies name.subrange(m - t.len(), m)[j] == t[j] by {
                assert(name[m - t.len() + j] == filename[n - m + m - t.len() + j]);
                assert(filename.subrange(n - t.len(), n)[j] == filename[n - t.len() + j]);
            }
        }
        if m == t.len() {
            assert(name =~= t);
            assert(false);
        }
        lemma_extension_of_suffix(name, e);
    }
}


/// The line-comment token of each language: `#` for the shells and scripting languages,
/// `//` for the C family, `--` for SQL and Lua, and none for markup, data and plain text.
pub proof fn lemma_comment_tokens(file_type: FileType)
    ensures
        (file_type == FileType::Python || file_type == FileType::Ruby || file_type == FileType::Shell
            || file_type == FileType::Perl || file_type == FileType::YAML || file_type == FileType::TOML
            || file_type == FileType::Dockerfile || file_type == FileType::Makefile || file_type
            == FileType::PowerShell) <==> spec_comment_prefix(file_type) == Some(seq!['#']),
        (file_type == FileType::Rust || file_type == FileType::JavaScript || file_type
            == FileType::TypeScript || file_type == FileType::Go || file_type == FileType::Java
            || file_type == FileType::C || file_type == FileType::Cpp || file_type == FileType::CSharp
            || file_type == FileType::Swift || file_type == FileType::Scala || file_type
            == FileType::Kotlin || file_type == FileType::PHP || file_type == FileType::Less)
            <==> spec_comment_prefix(file_type) == Some(seq!['/', '/']),
        (file_type == FileType::SQL || file_type == FileType::Lua) <==> spec_comment_prefix(file_type)
            == Some(seq!['-', '-']),
        (file_type == FileType::HTML || file_type == FileType::XML || file_type == FileType::CSS
            || file_type == FileType::JSON || file_type == FileType::Markdown || file_type
            == FileType::Diff || file_type == FileType::Plain) <==> spec_comment_prefix(file_type) is None,
{
    assert(seq!['#'] != seq!['/', '/'] && seq!['#'] != seq!['-', '-']);
    assert(seq!['/', '/'] != seq!['-', '-']) by {
        assert(seq!['/', '/'][0] != seq!['-', '-'][0]);
    }
}


/// The language each file extension selects, extension by extension.
#[verifier::rlimit(100)]
pub proof fn lemma_extension_table()
    ensures
        spec_file_type_for_extension("py"@) == FileType::Python,
        spec_file_type_for_extension("py3"@) == FileType::Python,
        spec_file_type_for_extension("pyw"@) == FileType::Python,
        spec_file_type_for_extension("pyi"@) == FileType::Python,
        spec_file_type_for_extension("rs"@) == FileType::Rust,
        spec_file_type_for_extension("js"@) == FileType::JavaScript,
        spec_file_type_for_extension("mjs"@) == FileType::JavaScript,
        spec_file_type_for_extension("cjs"@) == FileType::JavaScript,
        spec_file_type_for_extension("jsx"@) == FileType::JavaScript,
        spec_file_type_for_extension("ts"@) == FileType::TypeScript,
        spec_file_type_for_extension("tsx"@) == FileType::TypeScript,
        spec_file_type_for_extension("html"@) == FileType::HTML,
        spec_file_type_for_extension("htm"@) == FileType::HTML,
        spec_file_type_for_extension("xhtml"@) == FileType::HTML,
        spec_file_type_for_extension("css"@) == FileType::CSS,
        spec_file_type_for_extension("yaml"@) == FileType::YAML,
        spec_file_type_for_extension("yml"@) == FileType::YAML,
        spec_file_type_for_extension("json"@) == FileType::JSON,
        spec_file_type_for_extension("jsonc"@) == FileType::JSON,
        spec_file_type_for_extension("json5"@) == FileType::JSON,
        spec_file_type_for_extension("md"@) == FileType::Markdown,
        spec_file_type_for_extension("markdown"@) == FileType::Markdown,
        spec_file_type_for_extension("mdown"@) == FileType::Markdown,
        spec_file_type_for_extension("markdn"@) == FileType::Markdown,
        spec_file_type_for_extension("sh"@) == FileType::Shell,
        spec_file_type_for_extension("bash"@) == FileType::Shell,
        spec_file_type_for_extension("zsh"@) == FileType::Shell,
        spec_file_type_for_extension("ksh"@) == FileType::Shell,
        spec_file_type_for_extension("fish"@) == FileType::Shell,
        spec_file_type_for_extension("go"@) == FileType::Go,
        spec_file_type_for_extension("java"@) == FileType::Java,
        spec_file_type_for_extension("c"@) == FileType::C,
        spec_file_type_for_extension("h"@) == FileType::C,
        spec_file_type_for_extension("cpp"@) == FileType::Cpp,
        spec_file_type_for_extension("cc"@) == FileType::Cpp,
        spec_file_type_for_extension("cxx"@) == FileType::Cpp,
        spec_file_type_for_extension("c++"@) == FileType::Cpp,
        spec_file_type_for_extension("hpp"@) == FileType::Cpp,
        spec_file_type_for_extension("hh"@) == FileType::Cpp,
        spec_file_type_for_extension("hxx"@) == FileType::Cpp,
        spec_file_type_for_extension("h++"@) == FileType::Cpp,
        spec_file_type_for_extension("cs"@) == FileType::CSharp,
        spec_file_type_for_extension("csx"@) == FileType::CSharp,
        spec_file_type_for_extension("rb"@) == FileType::Ruby,
        spec_file_type_for_extension("rbx"@) == FileType::Ruby,
        spec_file_type_for_extension("rjs"@) == FileType::Ruby,
        spec_file_type_for_extension("rake"@) == FileType::Ruby,
        spec_file_type_for_extension("gemspec"@) == FileType::Ruby,
        spec_file_type_for_extension("ru"@) == FileType::Ruby,
        spec_file_type_for_extension("php"@) == FileType::PHP,
        spec_file_type_for_extension("php3"@) == FileType::PHP,
        spec_file_type_for_extension("php4"@) == FileType::PHP,
        spec_file_type_for_extension("php5"@) == FileType::PHP,
        spec_file_type_for_extension("php7"@) == FileType::PHP,
        spec_file_type_for_extension("phtml"@) == FileType::PHP,
        spec_file_type_for_extension("sql"@) == FileType::SQL,
        spec_file_type_for_extension("toml"@) == FileType::TOML,
        spec_file_type_for_extension("xml"@) == FileType::XML,
        spec_file_type_for_extension("xsd"@) == FileType::XML,
        spec_file_type_for_extension("xsl"@) == FileType::XML,
        spec_file_type_for_extension("xslt"@) == FileType::XML,
        spec_file_type_for_extension("svg"@) == FileType::XML,
        spec_file_type_for_extension("plist"@) == FileType::XML,
        spec_file_type_for_extension("mk"@) == FileType::Makefile,
        spec_file_type_for_extension("mak"@) == FileType::Makefile,
        spec_file_type_for_extension("swift"@) == FileType::Swift,
        spec_file_type_for_extension("scala"@) == FileType::Scala,
        spec_file_type_for_extension("sbt"@) == FileType::Scala,
        spec_file_type_for_extension("sc"@) == FileType::Scala,
        spec_file_type_for_extension("lua"@) == FileType::Lua,
        spec_file_type_for_extension("ps1"@) == FileType::PowerShell,
        spec_file_type_for_extension("psm1"@) == FileType::PowerShell,
        spec_file_type_for_extension("psd1"@) == FileType::PowerShell,
        spec_file_type_for_extension("pssc"@) == FileType::PowerShell,
        spec_file_type_for_extension("pl"@) == FileType::Perl,
        spec_file_type_for_extension("pm"@) == FileType::Perl,
        spec_file_type_for_extension("pod"@) == FileType::Perl,
        spec_file_type_for_extension("t"@) == FileType::Perl,
        spec_file_type_for_extension("less"@) == FileType::Less,
        spec_file_type_for_extension("diff"@) == FileType::Diff,
        spec_file_type_for_extension("patch"@) == FileType::Diff,
        spec_file_type_for_extension("kt"@) == FileType::Kotlin,
        spec_file_type_for_extension("kts"@) == FileType::Kotlin,
{
    reveal_strlit("py");
    reveal_strlit("py3");
    reveal_strlit("pyw");
    reveal_strlit("pyi");
    reveal_strlit("rs");
    reveal_strlit("js");
    reveal_strlit("mjs");
    reveal_strlit("cjs");
    reveal_strlit("jsx");
    reveal_strlit("ts");
    reveal_strlit("tsx");
    reveal_strlit("html");
    reveal_strlit("htm");
    reveal_strlit("xhtml");
    reveal_strlit("css");
    reveal_strlit("yaml");
    reveal_strlit("yml");
    reveal_strlit("json");
    reveal_strlit("jsonc");
    reveal_strlit("json5");
    reveal_strlit("md");
    reveal_strlit("markdown");
    reveal_strlit("mdown");
    reveal_strlit("markdn");
    reveal_strlit("sh");
    reveal_strlit("bash");
    reveal_strlit("zsh");
    reveal_strlit("ksh");
    reveal_strlit("fish");
    reveal_strlit("go");
    reveal_strlit("java");
    reveal_strlit("c");
    reveal_strlit("h");
    reveal_strlit("cpp");
    reveal_strlit("cc");
    reveal_strlit("cxx");
    reveal_strlit("c++");
    reveal_strlit("hpp");
    reveal_strlit("hh");
    reveal_strlit("hxx");
    reveal_strlit("h++");
    reveal_strlit("cs");
    reveal_strlit("csx");
    reveal_strlit("rb");
    reveal_strlit("rbx");
    reveal_strlit("rjs");
    reveal_strlit("rake");
    reveal_strlit("gemspec");
    reveal_strlit("ru");
    reveal_strlit("php");
    reveal_strlit("php3");
    reveal_strlit("php4");
    reveal_strlit("php5");
    reveal_strlit("php7");
    reveal_strlit("phtml");
    reveal_strlit("sql");
    reveal_strlit("toml");
    reveal_strlit("xml");
    reveal_strlit("xsd");
    reveal_strlit("xsl");
    reveal_strlit("xslt");
    reveal_strlit("svg");
    reveal_strlit("plist");
    reveal_strlit("mk");
    reveal_strlit("mak");
    reveal_strlit("swift");
    reveal_strlit("scala");
    reveal_strlit("sbt");
    reveal_strlit("sc");
    reveal_strlit("lua");
    reveal_strlit("ps1");
    reveal_strlit("psm1");
    reveal_strlit("psd1");
    reveal_strlit("pssc");
    reveal_strlit("pl");
    reveal_strlit("pm");
    reveal_strlit("pod");
    reveal_strlit("t");
    reveal_strlit("less");
    reveal_strlit("diff");
    reveal_strlit("patch");
    reveal_strlit("kt");
    reveal_strlit("kts");
    assert("py"@.len() == 2 && "py"@[0] == 'p' && "py"@[1] == 'y');
    assert("py3"@.len() == 3 && "py3"@[0] == 'p' && "py3"@[1] == 'y' && "py3"@[2] == '3');
    assert("pyw"@.len() == 3 && "pyw"@[0] == 'p' && "pyw"@[1] == 'y' && "pyw"@[2] == 'w');
    assert("pyi"@.len() == 3 && "pyi"@[0] == 'p' && "pyi"@[1] == 'y' && "pyi"@[2] == 'i');
    assert("rs"@.len() == 2 && "rs"@[0] == 'r' && "rs"@[1] == 's');
    assert("js"@.len() == 2 && "js"@[0] == 'j' && "js"@[1] == 's');
    assert("mjs"@.len() == 3 && "mjs"@[0] == 'm' && "mjs"@[1] == 'j' && "mjs"@[2] == 's');
    assert("cjs"@.len() == 3 && "cjs"@[0] == 'c' && "cjs"@[1] == 'j' && "cjs"@[2] == 's');
    assert("jsx"@.len() == 3 && "jsx"@[0] == 'j' && "jsx"@[1] == 's' && "jsx"@[2] == 'x');
    assert("ts"@.len() == 2 && "ts"@[0] == 't' && "ts"@[1] == 's');
    assert("tsx"@.len() == 3 && "tsx"@[0] == 't' && "tsx"@[1] == 's' && "tsx"@[2] == 'x');
    assert("html"@.len() == 4 && "html"@[0] == 'h' && "html"@[1] == 't' && "html"@[2] == 'm' && "html"@[3] == 'l');
    assert("htm"@.len() == 3 && "htm"@[0] == 'h' && "htm"@[1] == 't' && "htm"@[2] == 'm');
    assert("xhtml"@.len() == 5 && "xhtml"@[0] == 'x' && "xhtml"@[1] == 'h' && "xhtml"@[2] == 't' && "xhtml"@[3] == 'm' && "xhtml"@[4] == 'l');
    assert("css"@.len() == 3 && "css"@[0] == 'c' && "css"@[1] == 's' && "css"@[2] == 's');
    assert("yaml"@.len() == 4 && "yaml"@[0] == 'y' && "yaml"@[1] == 'a' && "yaml"@[2] == 'm' && "yaml"@[3] == 'l');
    assert("yml"@.len() == 3 && "yml"@[0] == 'y' && "yml"@[1] == 'm' && "yml"@[2] == 'l');
    assert("json"@.len() == 4 && "json"@[0] == 'j' && "json"@[1] == 's' && "json"@[2] == 'o' && "json"@[3] == 'n');
    assert("jsonc"@.len() == 5 && "jsonc"@[0] == 'j' && "jsonc"@[1] == 's' && "jsonc"@[2] == 'o' && "jsonc"@[3] == 'n' && "jsonc"@[4] == 'c');
    assert("json5"@.len() == 5 && "json5"@[0] == 'j' && "json5"@[1] == 's' && "json5"@[2] == 'o' && "json5"@[3] == 'n' && "json5"@[4] == '5');
    assert("md"@.len() == 2 && "md"@[0] == 'm' && "md"@[1] == 'd');
    assert("markdown"@.len() == 8 && "markdown"@[0] == 'm' && "markdown"@[1] == 'a' && "markdown"@[2] == 'r' && "markdown"@[3] == 'k' && "markdown"@[4] == 'd' && "markdown"@[5] == 'o' && "markdown"@[6] == 'w' && "markdown"@[7] == 'n');
    assert("mdown"@.len() == 5 && "mdown"@[0] == 'm' && "mdown"@[1] == 'd' && "mdown"@[2] == 'o' && "mdown"@[3] == 'w' && "mdown"@[4] == 'n');
    assert("markdn"@.len() == 6 && "markdn"@[0] == 'm' && "markdn"@[1] == 'a' && "markdn"@[2] == 'r' && "markdn"@[3] == 'k' && "markdn"@[4] == 'd' && "markdn"@[5] == 'n');
    assert("sh"@.len() == 2 && "sh"@[0] == 's' && "sh"@[1] == 'h');
    assert("bash"@.len() == 4 && "bash"@[0] == 'b' && "bash"@[1] == 'a' && "bash"@[2] == 's' && "bash"@[3] == 'h');
    assert("zsh"@.len() == 3 && "zsh"@[0] == 'z' && "zsh"@[1] == 's' && "zsh"@[2] == 'h');
    assert("ksh"@.len() == 3 && "ksh"@[0] == 'k' && "ksh"@[1] == 's' && "ksh"@[2] == 'h');
    assert("fish"@.len() == 4 && "fish"@[0] == 'f' && "fish"@[1] == 'i' && "fish"@[2] == 's' && "fish"@[3] == 'h');
    assert("go"@.len() == 2 && "go"@[0] == 'g' && "go"@[1] == 'o');
    assert("java"@.len() == 4 && "java"@[0] == 'j' && "java"@[1] == 'a' && "java"@[2] == 'v' && "java"@[3] == 'a');
    assert("c"@.len() == 1 && "c"@[0] == 'c');
    assert("h"@.len() == 1 && "h"@[0] == 'h');
    assert("cpp"@.len() == 3 && "cpp"@[0] == 'c' && "cpp"@[1] == 'p' && "cpp"@[2] == 'p');
    assert("cc"@.len() == 2 && "cc"@[0] == 'c' && "cc"@[1] == 'c');
    assert("cxx"@.len() == 3 && "cxx"@[0] == 'c' && "cxx"@[1] == 'x' && "cxx"@[2] == 'x');
    assert("c++"@.len() == 3 && "c++"@[0] == 'c' && "c++"@[1] == '+' && "c++"@[2] == '+');
    assert("hpp"@.len() == 3 && "hpp"@[0] == 'h' && "hpp"@[1] == 'p' && "hpp"@[2] == 'p');
    assert("hh"@.len() == 2 && "hh"@[0] == 'h' && "hh"@[1] == 'h');
    assert("hxx"@.len() == 3 && "hxx"@[0] == 'h' && "hxx"@[1] == 'x' && "hxx"@[2] == 'x');
    assert("h++"@.len() == 3 && "h++"@[0] == 'h' && "h++"@[1] == '+' && "h++"@[2] == '+');
    assert("cs"@.len() == 2 && "cs"@[0] == 'c' && "cs"@[1] == 's');
    assert("csx"@.len() == 3 && "csx"@[0] == 'c' && "csx"@[1] == 's' && "csx"@[2] == 'x');
    assert("rb"@.len() == 2 && "rb"@[0] == 'r' && "rb"@[1] == 'b');
    assert("rbx"@.len() == 3 && "rbx"@[0] == 'r' && "rbx"@[1] == 'b' && "rbx"@[2] == 'x');
    assert("rjs"@.len() == 3 && "rjs"@[0] == 'r' && "rjs"@[1] == 'j' && "rjs"@[2] == 's');
    assert("rake"@.len() == 4 && "rake"@[0] == 'r' && "rake"@[1] == 'a' && "rake"@[2] == 'k' && "rake"@[3] == 'e');
    assert("gemspec"@.len() == 7 && "gemspec"@[0] == 'g' && "gemspec"@[1] == 'e' && "gemspec"@[2] == 'm' && "gemspec"@[3] == 's' && "gemspec"@[4] == 'p' && "gemspec"@[5] == 'e' && "gemspec"@[6] == 'c');
    assert("ru"@.len() == 2 && "ru"@[0] == 'r' && "ru"@[1] == 'u');
    assert("php"@.len() == 3 && "php"@[0] == 'p' && "php"@[1] == 'h' && "php"@[2] == 'p');
    assert("php3"@.len() == 4 && "php3"@[0] == 'p' && "php3"@[1] == 'h' && "php3"@[2] == 'p' && "php3"@[3] == '3');
    assert("php4"@.len() == 4 && "php4"@[0] == 'p' && "php4"@[1] == 'h' && "php4"@[2] == 'p' && "php4"@[3] == '4');
    assert("php5"@.len() == 4 && "php5"@[0] == 'p' && "php5"@[1] == 'h' && "php5"@[2] == 'p' && "php5"@[3] == '5');
    assert("php7"@.len() == 4 && "php7"@[0] == 'p' && "php7"@[1] == 'h' && "php7"@[2] == 'p' && "php7"@[3] == '7');
    assert("phtml"@.len() == 5 && "phtml"@[0] == 'p' && "phtml"@[1] == 'h' && "phtml"@[2] == 't' && "phtml"@[3] == 'm' && "phtml"@[4] == 'l');
    assert("sql"@.len() == 3 && "sql"@[0] == 's' && "sql"@[1] == 'q' && "sql"@[2] == 'l');
    assert("toml"@.len() == 4 && "toml"@[0] == 't' && "toml"@[1] == 'o' && "toml"@[2] == 'm' && "toml"@[3] == 'l');
    assert("xml"@.len() == 3 && "xml"@[0] == 'x' && "xml"@[1] == 'm' && "xml"@[2] == 'l');
    assert("xsd"@.len() == 3 && "xsd"@[0] == 'x' && "xsd"@[1] == 's' && "xsd"@[2] == 'd');
    assert("xsl"@.len() == 3 && "xsl"@[0] == 'x' && "xsl"@[1] == 's' && "xsl"@[2] == 'l');
    assert("xslt"@.len() == 4 && "xslt"@[0] == 'x' && "xslt"@[1] == 's' && "xslt"@[2] == 'l' && "xslt"@[3] == 't');
    assert("svg"@.len() == 3 && "svg"@[0] == 's' && "svg"@[1] == 'v' && "svg"@[2] == 'g');
    assert("plist"@.len() == 5 && "plist"@[0] == 'p' && "plist"@[1] == 'l' && "plist"@[2] == 'i' && "plist"@[3] == 's' && "plist"@[4] == 't');
    assert("mk"@.len() == 2 && "mk"@[0] == 'm' && "mk"@[1] == 'k');
    assert("mak"@.len() == 3 && "mak"@[0] == 'm' && "mak"@[1] == 'a' && "mak"@[2] == 'k');
    assert("swift"@.len() == 5 && "swift"@[0] == 's' && "swift"@[1] == 'w' && "swift"@[2] == 'i' && "swift"@[3] == 'f' && "swift"@[4] == 't');
    assert("scala"@.len() == 5 && "scala"@[0] == 's' && "scala"@[1] == 'c' && "scala"@[2] == 'a' && "scala"@[3] == 'l' && "scala"@[4] == 'a');
    assert("sbt"@.len() == 3 && "sbt"@[0] == 's' && "sbt"@[1] == 'b' && "sbt"@[2] == 't');
    assert("sc"@.len() == 2 && "sc"@[0] == 's' && "sc"@[1] == 'c');
    assert("lua"@.len() == 3 && "lua"@[0] == 'l' && "lua"@[1] == 'u' && "lua"@[2] == 'a');
    assert("ps1"@.len() == 3 && "ps1"@[0] == 'p' && "ps1"@[1] == 's' && "ps1"@[2] == '1');
    assert("psm1"@.len() == 4 && "psm1"@[0] == 'p' && "psm1"@[1] == 's' && "psm1"@[2] == 'm' && "psm1"@[3] == '1');
    assert("psd1"@.len() == 4 && "psd1"@[0] == 'p' && "psd1"@[1] == 's' && "psd1"@[2] == 'd' && "psd1"@[3] == '1');
    assert("pssc"@.len() == 4 && "pssc"@[0] == 'p' && "pssc"@[1] == 's' && "pssc"@[2] == 's' && "pssc"@[3] == 'c');
    assert("pl"@.len() == 2 && "pl"@[0] == 'p' && "pl"@[1] == 'l');
    assert("pm"@.len() == 2 && "pm"@[0] == 'p' && "pm"@[1] == 'm');
    assert("pod"@.len() == 3 && "pod"@[0] == 'p' && "pod"@[1] == 'o' && "pod"@[2] == 'd');
    assert("t"@.len() == 1 && "t"@[0] == 't');
    assert("less"@.len() == 4 && "less"@[0] == 'l' && "less"@[1] == 'e' && "less"@[2] == 's' && "less"@[3] == 's');
    assert("diff"@.len() == 4 && "diff"@[0] == 'd' && "diff"@[1] == 'i' && "diff"@[2] == 'f' && "diff"@[3] == 'f');
    assert("patch"@.len() == 5 && "patch"@[0] == 'p' && "patch"@[1] == 'a' && "patch"@[2] == 't' && "patch"@[3] == 'c' && "patch"@[4] == 'h');
    assert("kt"@.len() == 2 && "kt"@[0] == 'k' && "kt"@[1] == 't');
    assert("kts"@.len() == 3 && "kts"@[0] == 'k' && "kts"@[1] == 't' && "kts"@[2] == 's');
}


/// A plain ASCII file name `stem.ext` (a stem other than `Dockerfile`, a lower-case
/// extension, neither holding `.`, `/`, `\\` or `:`) is classified by its extension alone:
/// it is a plain name, and its classification is `spec_file_type_for_extension(ext)`.
pub proof fn lemma_extension_decides(stem: Seq<char>, ext: Seq<char>)
    requires
        stem.len() > 0,
        ext.len() > 0,
        forall|i: int|
            0 <= i < stem.len() ==> #[trigger] stem[i] != '.' && stem[i] != '/' && stem[i] != '\\'
                && stem[i] != ':' && (stem[i] as u32) < 128,
        forall|i: int|
            0 <= i < ext.len() ==> #[trigger] ext[i] != '.' && ext[i] != '/' && ext[i] != '\\'
                && ext[i] != ':' && (ext[i] as u32) < 128 && ascii_lower(ext[i]) == ext[i],
        stem != "Dockerfile"@,
    ensures
        ({
            let name = stem + seq!['.'] + ext;
            &&& ends_in_plain_name(name)
            &&& is_ascii_text(name)
            &&& after_last_slash(name) == name
            &&& extension_of_name(name) == Some(ext)
            &&& spec_classify_file(name, name, ascii_lowercase(name), extension_of_name(name))
                == spec_file_type_for_extension(ext)
        }),
{
    let name = stem + seq!['.'] + ext;
    let d = stem.len() as int;
    assert(name[d] == '.');
    assert forall|i: int| 0 <= i < name.len() implies name[i] != '/' && name[i] != '\\' && name[i]
        != ':' && (name[i] as u32) < 128 by {
        if i < d {
            assert(name[i] == stem[i]);
        } else if i > d {
            assert(name[i] == ext[i - d - 1]);
        }
    }
    lemma_after_last_slash_of_name(name);
    reveal_strlit(".");
    reveal_strlit("..");
    assert(name != "."@ && name != ".."@) by {
        assert(name.len() >= 3);
    }
    assert(seq_ends_with(name, seq!['.'] + ext)) by {
        assert(name.subrange(d, name.len() as int) =~= seq!['.'] + ext);
    }
    lemma_extension_of_suffix(name, ext);
    // The lower-cased name is `lower(stem).ext`.
    let lower = ascii_lowercase(name);
    assert(lower.len() == name.len());
    assert(lower[d] == '.');
    assert(seq_ends_with(lower, seq!['.'] + ext)) by {
        assert forall|k: int| 0 <= k < ext.len() + 1 implies lower.subrange(d, lower.len() as int)[k] == (
        seq!['.'] + ext)[k] by {
            if k > 0 {
                assert(name[d + k] == ext[k - 1]);
            }
        }
        assert(lower.subrange(d, lower.len() as int) =~= seq!['.'] + ext);
    }
    assert forall|k: int| 0 <= k < ext.len() implies ext[k] != '.' by {}
    lemma_extension_of_suffix(lower, ext);
    if is_yaml_file_name(lower) {
        lemma_yaml_file_name_extension(lower);
        lemma_yaml_extensions();
    }
    // No special base name holds a `.`, and the name does not start with `Dockerfile.`.
    reveal_strlit("Dockerfile");
    reveal_strlit("dockerfile");
    reveal_strlit("Makefile");
    reveal_strlit("makefile");
    reveal_strlit("GNUmakefile");
    reveal_strlit("GNUMakefile");
    reveal_strlit("BSDmakefile");
    reveal_strlit("Rakefile");
    reveal_strlit("Gemfile");
    reveal_strlit("Vagrantfile");
    reveal_strlit("Capfile");
    reveal_strlit("Guardfile");
    reveal_strlit("Brewfile");
    reveal_strlit("Dockerfile.");
    reveal_strlit(".github/");
    assert(!has_char("Dockerfile"@, '.')) by {
        if has_char("Dockerfile"@, '.') {
            let i = choose|i: int| 0 <= i < "Dockerfile"@.len() && "Dockerfile"@[i] == '.';
        }
    }
    if seq_starts_with(name, "Dockerfile."@) {
        assert(name.subrange(0, 11) == "Dockerfile."@);
        if d < 10 {
            assert(name.subrange(0, 11)[d] == name[d]);
            assert("Dockerfile."@[d] == "Dockerfile"@[d]);
            assert(has_char("Dockerfile"@, '.'));
        } else if d > 10 {
            assert(name.subrange(0, 11)[10] == name[10]);
            assert(name[10] == stem[10]);
        } else {
            assert(stem =~= "Dockerfile"@) by {
                assert forall|k: int| 0 <= k < 10 implies stem[k] == "Dockerfile"@[k] by {
                    assert(name.subrange(0, 11)[k] == name[k]);
                    assert(name[k] == stem[k]);
                    assert("Dockerfile."@[k] == "Dockerfile"@[k]);
                }
            }
        }
    }
    if seq_starts_with(name, ".github/"@) {
        assert(name.subrange(0, 8) == ".github/"@);
        assert(name.subrange(0, 8)[7] == name[7]);
    }
    assert(has_char(name, '.'));
}


/// Some files are known by their name alone, whatever their path and extension:
/// Dockerfiles, makefiles and the Ruby build files; and a name starting with `Dockerfile.`
/// is a Dockerfile too.
pub proof fn lemma_named_files(
    filename: Seq<char>,
    basename: Seq<char>,
    lowercase: Seq<char>,
    extension: Option<Seq<char>>,
)
    ensures
        spec_classify_file(filename, "Dockerfile"@, lowercase, extension) == FileType::Dockerfile,
        spec_classify_file(filename, "dockerfile"@, lowercase, extension) == FileType::Dockerfile,
        spec_classify_file(filename, "Makefile"@, lowercase, extension) == FileType::Makefile,
        spec_classify_file(filename, "makefile"@, lowercase, extension) == FileType::Makefile,
        spec_classify_file(filename, "GNUmakefile"@, lowercase, extension) == FileType::Makefile,
        spec_classify_file(filename, "GNUMakefile"@, lowercase, extension) == FileType::Makefile,
        spec_classify_file(filename, "BSDmakefile"@, lowercase, extension) == FileType::Makefile,
        spec_classify_file(filename, "Rakefile"@, lowercase, extension) == FileType::Ruby,
        spec_classify_file(filename, "Gemfile"@, lowercase, extension) == FileType::Ruby,
        spec_classify_file(filename, "Vagrantfile"@, lowercase, extension) == FileType::Ruby,
        spec_classify_file(filename, "Capfile"@, lowercase, extension) == FileType::Ruby,
        spec_classify_file(filename, "Guardfile"@, lowercase, extension) == FileType::Ruby,
        spec_classify_file(filename, "Brewfile"@, lowercase, extension) == FileType::Ruby,
        seq_starts_with(basename, "Dockerfile."@) ==> spec_classify_file(filename, basename, lowercase, extension)
            == FileType::Dockerfile,
{
    reveal_strlit("Dockerfile");
    reveal_strlit("dockerfile");
    reveal_strlit("Makefile");
    reveal_strlit("makefile");
    reveal_strlit("GNUmakefile");
    reveal_strlit("GNUMakefile");
    reveal_strlit("BSDmakefile");
    reveal_strlit("Rakefile");
    reveal_strlit("Gemfile");
    reveal_strlit("Vagrantfile");
    reveal_strlit("Capfile");
    reveal_strlit("Guardfile");
    reveal_strlit("Brewfile");
    reveal_strlit("Dockerfile.");
    assert("Dockerfile"@.len() == 10 && "Dockerfile"@[0] == 'D' && "Dockerfile"@[1] == 'o' && "Dockerfile"@[2] == 'c' && "Dockerfile"@[3] == 'k' && "Dockerfile"@[4] == 'e' && "Dockerfile"@[5] == 'r' && "Dockerfile"@[6] == 'f' && "Dockerfile"@[7] == 'i' && "Dockerfile"@[8] == 'l' && "Dockerfile"@[9] == 'e');
    assert("dockerfile"@.len() == 10 && "dockerfile"@[0] == 'd' && "dockerfile"@[1] == 'o' && "dockerfile"@[2] == 'c' && "dockerfile"@[3] == 'k' && "dockerfile"@[4] == 'e' && "dockerfile"@[5] == 'r' && "dockerfile"@[6] == 'f' && "dockerfile"@[7] == 'i' && "dockerfile"@[8] == 'l' && "dockerfile"@[9] == 'e');
    assert("Makefile"@.len() == 8 && "Makefile"@[0] == 'M' && "Makefile"@[1] == 'a' && "Makefile"@[2] == 'k' && "Makefile"@[3] == 'e' && "Makefile"@[4] == 'f' && "Makefile"@[5] == 'i' && "Makefile"@[6] == 'l' && "Makefile"@[7] == 'e');
    assert("makefile"@.len() == 8 && "makefile"@[0] == 'm' && "makefile"@[1] == 'a' && "makefile"@[2] == 'k' && "makefile"@[3] == 'e' && "makefile"@[4] == 'f' && "makefile"@[5] == 'i' && "makefile"@[6] == 'l' && "makefile"@[7] == 'e');
    assert("GNUmakefile"@.len() == 11 && "GNUmakefile"@[0] == 'G' && "GNUmakefile"@[1] == 'N' && "GNUmakefile"@[2] == 'U' && "GNUmakefile"@[3] == 'm' && "GNUmakefile"@[4] == 'a' && "GNUmakefile"@[5] == 'k' && "GNUmakefile"@[6] == 'e' && "GNUmakefile"@[7] == 'f' && "GNUmakefile"@[8] == 'i' && "GNUmakefile"@[9] == 'l' && "GNUmakefile"@[10] == 'e');
    assert("GNUMakefile"@.len() == 11 && "GNUMakefile"@[0] == 'G' && "GNUMakefile"@[1] == 'N' && "GNUMakefile"@[2] == 'U' && "GNUMakefile"@[3] == 'M' && "GNUMakefile"@[4] == 'a' && "GNUMakefile"@[5] == 'k' && "GNUMakefile"@[6] == 'e' && "GNUMakefile"@[7] == 'f' && "GNUMakefile"@[8] == 'i' && "GNUMakefile"@[9] == 'l' && "GNUMakefile"@[10] == 'e');
    assert("BSDmakefile"@.len() == 11 && "BSDmakefile"@[0] == 'B' && "BSDmakefile"@[1] == 'S' && "BSDmakefile"@[2] == 'D' && "BSDmakefile"@[3] == 'm' && "BSDmakefile"@[4] == 'a' && "BSDmakefile"@[5] == 'k' && "BSDmakefile"@[6] == 'e' && "BSDmakefile"@[7] == 'f' && "BSDmakefile"@[8] == 'i' && "BSDmakefile"@[9] == 'l' && "BSDmakefile"@[10] == 'e');
    assert("Rakefile"@.len() == 8 && "Rakefile"@[0] == 'R' && "Rakefile"@[1] == 'a' && "Rakefile"@[2] == 'k' && "Rakefile"@[3] == 'e' && "Rakefile"@[4] == 'f' && "Rakefile"@[5] == 'i' && "Rakefile"@[6] == 'l' && "Rakefile"@[7] == 'e');
    assert("Gemfile"@.len() == 7 && "Gemfile"@[0] == 'G' && "Gemfile"@[1] == 'e' && "Gemfile"@[2] == 'm' && "Gemfile"@[3] == 'f' && "Gemfile"@[4] == 'i' && "Gemfile"@[5] == 'l' && "Gemfile"@[6] == 'e');
    assert("Vagrantfile"@.len() == 11 && "Vagrantfile"@[0] == 'V' && "Vagrantfile"@[1] == 'a' && "Vagrantfile"@[2] == 'g' && "Vagrantfile"@[3] == 'r' && "Vagrantfile"@[4] == 'a' && "Vagrantfile"@[5] == 'n' && "Vagrantfile"@[6] == 't' && "Vagrantfile"@[7] == 'f' && "Vagrantfile"@[8] == 'i' && "Vagrantfile"@[9] == 'l' && "Vagrantfile"@[10] == 'e');
    assert("Capfile"@.len() == 7 && "Capfile"@[0] == 'C' && "Capfile"@[1] == 'a' && "Capfile"@[2] == 'p' && "Capfile"@[3] == 'f' && "Capfile"@[4] == 'i' && "Capfile"@[5] == 'l' && "Capfile"@[6] == 'e');
    assert("Guardfile"@.len() == 9 && "Guardfile"@[0] == 'G' && "Guardfile"@[1] == 'u' && "Guardfile"@[2] == 'a' && "Guardfile"@[3] == 'r' && "Guardfile"@[4] == 'd' && "Guardfile"@[5] == 'f' && "Guardfile"@[6] == 'i' && "Guardfile"@[7] == 'l' && "Guardfile"@[8] == 'e');
    assert("Brewfile"@.len() == 8 && "Brewfile"@[0] == 'B' && "Brewfile"@[1] == 'r' && "Brewfile"@[2] == 'e' && "Brewfile"@[3] == 'w' && "Brewfile"@[4] == 'f' && "Brewfile"@[5] == 'i' && "Brewfile"@[6] == 'l' && "Brewfile"@[7] == 'e');
    assert("Dockerfile."@.len() == 11 && "Dockerfile."@[0] == 'D' && "Dockerfile."@[1] == 'o' && "Dockerfile."@[2] == 'c' && "Dockerfile."@[3] == 'k' && "Dockerfile."@[4] == 'e' && "Dockerfile."@[5] == 'r' && "Dockerfile."@[6] == 'f' && "Dockerfile."@[7] == 'i' && "Dockerfile."@[8] == 'l' && "Dockerfile."@[9] == 'e' && "Dockerfile."@[10] == '.');
    if seq_starts_with(basename, "Dockerfile."@) {
        assert(basename.subrange(0, 11) == "Dockerfile."@);
        assert(basename.subrange(0, 11)[0] == basename[0]);
        assert(basename.subrange(0, 11)[10] == basename[10]);
        assert(basename.len() >= 11);
    }
}

} // verus!
