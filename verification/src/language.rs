//! Which files are scanned, and in which language each of them is read.

use crate::rules::{rule_table_for, rule_views, rules_for, PatternRule, Patterns};
use crate::text::{
    chars_of, ends_with, find_last_dot, last_dot, lower, spells, starts_with, to_lower,
};
use vstd::prelude::*;

verus! {

/// The size of the largest file that is scanned (512 KB).
pub const MAX_FILE_SIZE_BYTES: u64 = 524288;

/// How many bytes at the start of a file tell whether it is binary.
pub const BINARY_PROBE_BYTES: usize = 512;

/// Compiled and byte code.
pub open spec fn is_compiled_extension(e: Seq<char>) -> bool {
    ||| e == "exe"@
    ||| e == "dll"@
    ||| e == "so"@
    ||| e == "dylib"@
    ||| e == "bin"@
    ||| e == "o"@
    ||| e == "a"@
    ||| e == "lib"@
    ||| e == "class"@
    ||| e == "jar"@
    ||| e == "war"@
    ||| e == "pyc"@
    ||| e == "pyo"@
    ||| e == "pyd"@
    ||| e == "wasm"@
}

/// Images and graphics.
pub open spec fn is_image_extension(e: Seq<char>) -> bool {
    ||| e == "png"@
    ||| e == "jpg"@
    ||| e == "jpeg"@
    ||| e == "gif"@
    ||| e == "bmp"@
    ||| e == "ico"@
    ||| e == "webp"@
    ||| e == "tiff"@
    ||| e == "psd"@
    ||| e == "raw"@
    ||| e == "svg"@
}

/// Audio and video.
pub open spec fn is_media_extension(e: Seq<char>) -> bool {
    ||| e == "mp3"@
    ||| e == "mp4"@
    ||| e == "wav"@
    ||| e == "ogg"@
    ||| e == "flac"@
    ||| e == "mkv"@
    ||| e == "avi"@
    ||| e == "mov"@
    ||| e == "webm"@
}

/// Archives and compressed files.
pub open spec fn is_archive_extension(e: Seq<char>) -> bool {
    ||| e == "zip"@
    ||| e == "tar"@
    ||| e == "gz"@
    ||| e == "bz2"@
    ||| e == "xz"@
    ||| e == "7z"@
    ||| e == "rar"@
    ||| e == "iso"@
    ||| e == "dmg"@
    ||| e == "pkg"@
}

/// Documents and presentations.
pub open spec fn is_document_extension(e: Seq<char>) -> bool {
    ||| e == "pdf"@
    ||| e == "doc"@
    ||| e == "docx"@
    ||| e == "ppt"@
    ||| e == "pptx"@
    ||| e == "xls"@
    ||| e == "xlsx"@
}

/// Fonts.
pub open spec fn is_font_extension(e: Seq<char>) -> bool {
    ||| e == "woff"@
    ||| e == "woff2"@
    ||| e == "ttf"@
    ||| e == "eot"@
    ||| e == "otf"@
}

/// Databases and data dumps.
pub open spec fn is_database_extension(e: Seq<char>) -> bool {
    ||| e == "db"@
    ||| e == "sqlite"@
    ||| e == "sqlite3"@
    ||| e == "parquet"@
    ||| e == "arrow"@
    ||| e == "avro"@
}

/// Lock files, checksums and source maps.
pub open spec fn is_generated_extension(e: Seq<char>) -> bool {
    ||| e == "lock"@
    ||| e == "sum"@
    ||| e == "map"@
}

/// The extensions, in lower case, of files that hold no source text.
pub open spec fn is_excluded(e: Seq<char>) -> bool {
    ||| is_compiled_extension(e)
    ||| is_image_extension(e)
    ||| is_media_extension(e)
    ||| is_archive_extension(e)
    ||| is_document_extension(e)
    ||| is_font_extension(e)
    ||| is_database_extension(e)
    ||| is_generated_extension(e)
}

/// The part of a file name behind its last dot. It is empty where there is no dot, or
/// where the only dot is the first character.
pub open spec fn extension(name: Seq<char>) -> Seq<char> {
    if last_dot(name) > 0 {
        name.skip(last_dot(name) + 1)
    } else {
        Seq::empty()
    }
}

/// File names of generated or minified files, which are never scanned.
pub open spec fn is_generated_name(name: Seq<char>) -> bool {
    ||| ".min.js"@.is_suffix_of(name)
    ||| ".min.css"@.is_suffix_of(name)
    ||| name == "package-lock.json"@
    ||| name == "Cargo.lock"@
    ||| name == "yarn.lock"@
    ||| name == "pnpm-lock.yaml"@
}

/// The language that a lower-case extension stands for.
pub open spec fn language_of_extension(e: Seq<char>) -> Option<Seq<char>> {
    if e == "py"@ || e == "pyw"@ {
        Some("Python"@)
    } else if e == "go"@ {
        Some("Go"@)
    } else if e == "js"@ || e == "jsx"@ || e == "mjs"@ || e == "cjs"@ {
        Some("JavaScript"@)
    } else if e == "ts"@ || e == "tsx"@ {
        Some("TypeScript"@)
    } else if e == "rs"@ {
        Some("Rust"@)
    } else if e == "c"@ || e == "h"@ {
        Some("C"@)
    } else if e == "cpp"@ || e == "cc"@ || e == "cxx"@ || e == "hpp"@ || e == "hxx"@ {
        Some("C++"@)
    } else if e == "java"@ {
        Some("Java"@)
    } else if e == "cs"@ {
        Some("C#"@)
    } else if e == "kt"@ || e == "kts"@ {
        Some("Kotlin"@)
    } else if e == "scala"@ {
        Some("Scala"@)
    } else if e == "rb"@ {
        Some("Ruby"@)
    } else if e == "php"@ {
        Some("PHP"@)
    } else if e == "sh"@ || e == "bash"@ || e == "zsh"@ {
        Some("Shell"@)
    } else if e == "json"@ || e == "yaml"@ || e == "yml"@ || e == "toml"@ || e == "xml"@ || e
        == "sql"@ {
        Some("Config"@)
    } else {
        None
    }
}

/// The language of a file whose extension stands for none.
pub open spec fn language_of_other_name(name: Seq<char>) -> Option<Seq<char>> {
    if lower(name) == "dockerfile"@ || "Dockerfile."@.is_prefix_of(name) {
        Some("Config"@)
    } else if !"."@.is_prefix_of(name) || extension(name).len() > 0 {
        Some("Generic"@)
    } else {
        None
    }
}

/// The language of a file, by its name; `None` for a file that is not scanned.
pub open spec fn language_of(name: Seq<char>) -> Option<Seq<char>> {
    let e = lower(extension(name));
    if is_generated_name(name) {
        None
    } else if is_excluded(e) {
        None
    } else if language_of_extension(e) is Some {
        language_of_extension(e)
    } else {
        language_of_other_name(name)
    }
}

/// Whether a null byte stands among the first bytes of a file.
pub open spec fn looks_binary(bytes: Seq<u8>) -> bool {
    exists|i: int| 0 <= i < bytes.len() && i < BINARY_PROBE_BYTES && #[trigger] bytes[i] == 0
}

/// The names of directories that hold dependencies, build output or tool state.
pub open spec fn is_ignored_dir_name(name: Seq<char>) -> bool {
    ||| "."@.is_prefix_of(name) && name != "."@ && name != ".."@
    ||| name == "node_modules"@
    ||| name == "vendor"@
    ||| name == "target"@
    ||| name == "dist"@
    ||| name == "build"@
    ||| name == "venv"@
    ||| name == ".venv"@
    ||| name == "env"@
    ||| name == "__pycache__"@
    ||| name == ".git"@
    ||| name == ".idea"@
    ||| name == ".vscode"@
}

/// Whether a file is worth reading: its size (where it is known) is within the limit,
/// its first bytes can be read and look like text, and its name has a language.
pub open spec fn scannable(
    size: Option<u64>,
    head: Option<Seq<u8>>,
    name: Option<Seq<char>>,
) -> bool {
    &&& size matches Some(n) ==> n <= MAX_FILE_SIZE_BYTES
    &&& head matches Some(b) && !looks_binary(b)
    &&& name matches Some(f) && language_of(f) is Some
}

fn compiled_extension(e: &Vec<char>) -> (r: bool)
    ensures
        r == is_compiled_extension(e@),
{
    spells(e, "exe") || spells(e, "dll") || spells(e, "so") || spells(e, "dylib")
        || spells(e, "bin") || spells(e, "o") || spells(e, "a") || spells(e, "lib")
        || spells(e, "class") || spells(e, "jar") || spells(e, "war") || spells(e, "pyc")
        || spells(e, "pyo") || spells(e, "pyd") || spells(e, "wasm")
}

fn image_extension(e: &Vec<char>) -> (r: bool)
    ensures
        r == is_image_extension(e@),
{
    spells(e, "png") || spells(e, "jpg") || spells(e, "jpeg") || spells(e, "gif")
        || spells(e, "bmp") || spells(e, "ico") || spells(e, "webp") || spells(e, "tiff")
        || spells(e, "psd") || spells(e, "raw") || spells(e, "svg")
}

fn media_extension(e: &Vec<char>) -> (r: bool)
    ensures
        r == is_media_extension(e@),
{
    spells(e, "mp3") || spells(e, "mp4") || spells(e, "wav") || spells(e, "ogg")
        || spells(e, "flac") || spells(e, "mkv") || spells(e, "avi") || spells(e, "mov")
        || spells(e, "webm")
}

fn archive_extension(e: &Vec<char>) -> (r: bool)
    ensures
        r == is_archive_extension(e@),
{
    spells(e, "zip") || spells(e, "tar") || spells(e, "gz") || spells(e, "bz2") || spells(e, "xz")
        || spells(e, "7z") || spells(e, "rar") || spells(e, "iso") || spells(e, "dmg")
        || spells(e, "pkg")
}

fn document_extension(e: &Vec<char>) -> (r: bool)
    ensures
        r == is_document_extension(e@),
{
    spells(e, "pdf") || spells(e, "doc") || spells(e, "docx") || spells(e, "ppt")
        || spells(e, "pptx") || spells(e, "xls") || spells(e, "xlsx")
}

fn font_extension(e: &Vec<char>) -> (r: bool)
    ensures
        r == is_font_extension(e@),
{
    spells(e, "woff") || spells(e, "woff2") || spells(e, "ttf") || spells(e, "eot")
        || spells(e, "otf")
}

fn database_extension(e: &Vec<char>) -> (r: bool)
    ensures
        r == is_database_extension(e@),
{
    spells(e, "db") || spells(e, "sqlite") || spells(e, "sqlite3") || spells(e, "parquet")
        || spells(e, "arrow") || spells(e, "avro")
}

fn generated_extension(e: &Vec<char>) -> (r: bool)
    ensures
        r == is_generated_extension(e@),
{
    spells(e, "lock") || spells(e, "sum") || spells(e, "map")
}

/// Tells whether a file extension stands for a binary, an asset or an archive. ASCII
/// case does not matter.
pub fn is_excluded_extension(ext: &str) -> (r: bool)
    ensures
        r == is_excluded(lower(ext@)),
{
    excluded_chars(&chars_of(ext))
}

fn excluded_chars(ext: &Vec<char>) -> (r: bool)
    ensures
        r == is_excluded(lower(ext@)),
{
    let e = to_lower(ext);
    compiled_extension(&e) || image_extension(&e) || media_extension(&e) || archive_extension(&e)
        || document_extension(&e) || font_extension(&e) || database_extension(&e)
        || generated_extension(&e)
}

/// Tells whether a file holds binary data, by the bytes at its start. A file whose
/// bytes could not be read counts as binary.
pub fn is_binary_file(head: Option<&[u8]>) -> (r: bool)
    ensures
        r == match head {
            Some(b) => looks_binary(b@),
            None => true,
        },
{
    match head {
        Some(b) => starts_binary(b),
        None => true,
    }
}

fn starts_binary(bytes: &[u8]) -> (r: bool)
    ensures
        r == looks_binary(bytes@),
{
    let mut i: usize = 0;
    while i < bytes.len() && i < BINARY_PROBE_BYTES
        invariant
            i <= bytes@.len(),
            i <= BINARY_PROBE_BYTES,
            forall|j: int| 0 <= j < i ==> bytes@[j] != 0,
        decreases bytes@.len() - i,
    {
        if bytes[i] == 0 {
            return true;
        }
        i += 1;
    }
    false
}

/// Tells whether an entry found at a depth below the root is a directory that is not
/// descended into. The root itself, at depth 0, always is, whatever its name.
pub fn is_ignored_dir(depth: usize, is_dir: bool, name: &str) -> (r: bool)
    ensures
        r == (depth > 0 && is_dir && is_ignored_dir_name(name@)),
{
    if depth == 0 || !is_dir {
        return false;
    }
    let n = chars_of(name);
    (starts_with(&n, ".") && !spells(&n, ".") && !spells(&n, "..")) || spells(&n, "node_modules")
        || spells(&n, "vendor") || spells(&n, "target") || spells(&n, "dist") || spells(&n, "build")
        || spells(&n, "venv") || spells(&n, ".venv") || spells(&n, "env")
        || spells(&n, "__pycache__") || spells(&n, ".git") || spells(&n, ".idea")
        || spells(&n, ".vscode")
}

fn extension_of(name: &Vec<char>) -> (e: Vec<char>)
    ensures
        e@ == extension(name@),
{
    let mut e: Vec<char> = Vec::new();
    match find_last_dot(name) {
        Some(dot) => {
            let len = name.len();
            if dot > 0 {
                let mut i: usize = dot + 1;
                while i < len
                    invariant
                        len == name@.len(),
                        dot < i <= len,
                        e@ == name@.subrange(dot + 1, i as int),
                    decreases len - i,
                {
                    e.push(name[i]);
                    i += 1;
                }
                assert(name@.subrange(dot + 1, i as int) == name@.skip(dot + 1));
            }
        },
        None => {},
    }
    e
}

fn generated_name(name: &Vec<char>) -> (r: bool)
    ensures
        r == is_generated_name(name@),
{
    ends_with(name, ".min.js") || ends_with(name, ".min.css") || spells(name, "package-lock.json")
        || spells(name, "Cargo.lock") || spells(name, "yarn.lock") || spells(name, "pnpm-lock.yaml")
}

fn label_of_extension(e: &Vec<char>) -> (r: Option<&'static str>)
    ensures
        match r {
            Some(l) => language_of_extension(e@) == Some(l@),
            None => language_of_extension(e@) is None,
        },
{
    if spells(e, "py") || spells(e, "pyw") {
        Some("Python")
    } else if spells(e, "go") {
        Some("Go")
    } else if spells(e, "js") || spells(e, "jsx") || spells(e, "mjs") || spells(e, "cjs") {
        Some("JavaScript")
    } else if spells(e, "ts") || spells(e, "tsx") {
        Some("TypeScript")
    } else if spells(e, "rs") {
        Some("Rust")
    } else if spells(e, "c") || spells(e, "h") {
        Some("C")
    } else if spells(e, "cpp") || spells(e, "cc") || spells(e, "cxx") || spells(e, "hpp") || spells(
        e,
        "hxx",
    ) {
        Some("C++")
    } else if spells(e, "java") {
        Some("Java")
    } else if spells(e, "cs") {
        Some("C#")
    } else if spells(e, "kt") || spells(e, "kts") {
        Some("Kotlin")
    } else if spells(e, "scala") {
        Some("Scala")
    } else if spells(e, "rb") {
        Some("Ruby")
    } else if spells(e, "php") {
        Some("PHP")
    } else if spells(e, "sh") || spells(e, "bash") || spells(e, "zsh") {
        Some("Shell")
    } else if spells(e, "json") || spells(e, "yaml") || spells(e, "yml") || spells(e, "toml")
        || spells(e, "xml") || spells(e, "sql") {
        Some("Config")
    } else {
        None
    }
}

/// The language of a file, by its name.
pub fn language_label(file_name: &str) -> (r: Option<&'static str>)
    ensures
        match r {
            Some(l) => language_of(file_name@) == Some(l@),
            None => language_of(file_name@) is None,
        },
{
    let name = chars_of(file_name);
    if generated_name(&name) {
        return None;
    }
    let ext = extension_of(&name);
    if excluded_chars(&ext) {
        return None;
    }
    let e = to_lower(&ext);
    match label_of_extension(&e) {
        Some(l) => Some(l),
        None => {
            if spells(&to_lower(&name), "dockerfile") || starts_with(&name, "Dockerfile.") {
                Some("Config")
            } else if !starts_with(&name, ".") || ext.len() > 0 {
                Some("Generic")
            } else {
                None
            }
        },
    }
}

/// The language of a file and its rules, by the name of the file. Excluded extensions,
/// minified assets and lock files have none.
pub fn detect_language<'a>(file_name: &str, patterns: &'a Patterns) -> (r: Option<
    (&'static str, Vec<PatternRule<'a>>),
>)
    ensures
        match r {
            Some((l, rules)) => language_of(file_name@) == Some(l@) && rule_views(rules@)
                == rule_table_for(l@),
            None => language_of(file_name@) is None,
        },
{
    match language_label(file_name) {
        Some(l) => Some((l, rules_for(l, patterns))),
        None => None,
    }
}

/// Tells whether a file is worth reading. `size` is `None` where it is not known,
/// `head` where the first bytes could not be read, `file_name` where the file has no
/// name that is text.
pub fn is_scannable(size: Option<u64>, head: Option<&[u8]>, file_name: Option<&str>) -> (r: bool)
    ensures
        r == scannable(
            size,
            match head {
                Some(b) => Some(b@),
                None => None,
            },
            match file_name {
                Some(n) => Some(n@),
                None => None,
            },
        ),
{
    if let Some(n) = size {
        if n > MAX_FILE_SIZE_BYTES {
            return false;
        }
    }
    if is_binary_file(head) {
        return false;
    }
    match file_name {
        Some(n) => language_label(n).is_some(),
        None => false,
    }
}

} // verus!
