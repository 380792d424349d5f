//! Which files are read, and how their bytes become lines.

use crate::language::{
    extension, is_excluded, is_generated_name, is_ignored_dir_name, language_of,
    language_of_extension, looks_binary, scannable,
};
use crate::text::{last_dot, line_end, lower, split_lines, text_lines};
use vstd::prelude::*;
use vstd::utf8::{
    char_is_scalar, decode_utf8, decode_utf8_encode_utf8, encode_scalar, encode_utf8, valid_utf8,
};

verus! {

/// A file is binary exactly where one of its first 512 bytes is 0.
pub proof fn law_null_bytes_make_a_file_binary(bytes: Seq<u8>)
    ensures
        looks_binary(bytes) <==> !(forall|i: int|
            0 <= i < bytes.len() && i < 512 ==> #[trigger] bytes[i] != 0),
{
}

/// A text without the null character is not binary, whatever letters it holds.
pub proof fn law_text_is_not_binary(text: Seq<char>)
    requires
        forall|i: int| 0 <= i < text.len() ==> #[trigger] text[i] != '\0',
    ensures
        !looks_binary(encode_utf8(text)),
{
    lemma_no_null_bytes(text);
}

proof fn lemma_no_null_bytes(text: Seq<char>)
    requires
        forall|i: int| 0 <= i < text.len() ==> #[trigger] text[i] != '\0',
    ensures
        forall|i: int| 0 <= i < encode_utf8(text).len() ==> #[trigger] encode_utf8(text)[i] != 0,
    decreases text.len(),
{
    if text.len() > 0 {
        let rest = text.drop_first();
        assert forall|i: int| 0 <= i < rest.len() implies #[trigger] rest[i] != '\0' by {
            assert(rest[i] == text[i + 1]);
        }
        lemma_no_null_bytes(rest);
        let first = encode_scalar(text[0] as u32);
        lemma_scalar_without_null(text[0]);
        assert forall|i: int| 0 <= i < encode_utf8(text).len() implies #[trigger] encode_utf8(
            text,
        )[i] != 0 by {
            if i < first.len() {
                assert(encode_utf8(text)[i] == first[i]);
            } else {
                assert(encode_utf8(text)[i] == encode_utf8(rest)[i - first.len()]);
            }
        }
    }
}

proof fn lemma_scalar_without_null(c: char)
    requires
        c != '\0',
    ensures
        forall|i: int|
            0 <= i < encode_scalar(c as u32).len() ==> #[trigger] encode_scalar(c as u32)[i] != 0,
{
    let v = c as u32;
    char_is_scalar(c);
    assert(0 < v <= 0x7f ==> (v & 0x7f) as u8 != 0) by (bit_vector);
    assert(0xc0 | ((v >> 6) & 0x1f) as u8 != 0) by (bit_vector);
    assert(0xe0 | ((v >> 12) & 0x0f) as u8 != 0) by (bit_vector);
    assert(0xf0 | ((v >> 18) & 0x7) as u8 != 0) by (bit_vector);
    assert(0x80 | (v & 0x3f) as u8 != 0) by (bit_vector);
    assert(0x80 | ((v >> 6) & 0x3f) as u8 != 0) by (bit_vector);
    assert(0x80 | ((v >> 12) & 0x3f) as u8 != 0) by (bit_vector);
}

/// A file is worth reading exactly where its size, if it is known, is at most 512 KB, its
/// first bytes could be read and hold no null byte among the first 512, and its name is text
/// that has a language.
pub proof fn law_what_is_worth_reading(
    size: Option<u64>,
    head: Option<Seq<u8>>,
    name: Option<Seq<char>>,
)
    ensures
        scannable(size, head, name) <==> {
            &&& size is Some ==> size->0 <= 524288
            &&& head is Some
            &&& forall|i: int| 0 <= i < head->0.len() && i < 512 ==> #[trigger] head->0[i] != 0
            &&& name is Some
            &&& language_of(name->0) is Some
        },
{
}

/// The extension is what stands behind the last dot, if anything stands before it.
pub proof fn law_extension_follows_the_last_dot(stem: Seq<char>, ext: Seq<char>)
    requires
        forall|i: int| 0 <= i < ext.len() ==> #[trigger] ext[i] != '.',
    ensures
        stem.len() > 0 ==> extension(stem + seq!['.'] + ext) == ext,
        stem.len() == 0 ==> extension(stem + seq!['.'] + ext).len() == 0,
        extension(ext).len() == 0,
{
    let name = stem + seq!['.'] + ext;
    lemma_last_dot(stem + seq!['.'], ext);
    lemma_last_dot(Seq::empty(), ext);
    assert(Seq::empty() + ext =~= ext);
    assert((stem + seq!['.']).last() == '.');
    assert(stem.len() > 0 ==> name.skip(stem.len() as int + 1) =~= ext);
}

proof fn lemma_last_dot(a: Seq<char>, b: Seq<char>)
    requires
        forall|i: int| 0 <= i < b.len() ==> #[trigger] b[i] != '.',
    ensures
        last_dot(a + b) == last_dot(a),
    decreases b.len(),
{
    if b.len() == 0 {
        assert(a + b =~= a);
    } else {
        assert((a + b).last() == b[b.len() - 1]);
        assert((a + b).drop_last() =~= a + b.drop_last());
        assert forall|i: int| 0 <= i < b.drop_last().len() implies #[trigger] b.drop_last()[i]
            != '.' by {
            assert(b.drop_last()[i] == b[i]);
        }
        lemma_last_dot(a, b.drop_last());
    }
}

/// Lowering a text moves each ASCII capital to its small letter and keeps every other
/// character where it is.
pub proof fn law_lower_moves_capitals(s: Seq<char>, i: int)
    requires
        0 <= i < s.len(),
    ensures
        lower(s).len() == s.len(),
        'A' <= s[i] <= 'Z' ==> lower(s)[i] as u32 == s[i] as u32 + 32,
        !('A' <= s[i] <= 'Z') ==> lower(s)[i] == s[i],
{
}

/// The extensions of binaries, assets, archives and generated files are excluded, and no
/// others are.
pub proof fn law_excluded_extensions(e: Seq<char>)
    ensures
        is_excluded(e) <==> {
            ||| e == "exe"@
            ||| e == "dll"@
            ||| e == "so"@
            ||| e == "dylib"@
            ||| e == "bin"@
            ||| e == "o"@
            ||| e == "a"@
            ||| e == "lib"@
            ||| e == "class"@
            ||| e == "jar"@
            ||| e == "war"@
            ||| e == "pyc"@
            ||| e == "pyo"@
            ||| e == "pyd"@
            ||| e == "wasm"@
            ||| e == "png"@
            ||| e == "jpg"@
            ||| e == "jpeg"@
            ||| e == "gif"@
            ||| e == "bmp"@
            ||| e == "ico"@
            ||| e == "webp"@
            ||| e == "tiff"@
            ||| e == "psd"@
            ||| e == "raw"@
            ||| e == "svg"@
            ||| e == "mp3"@
            ||| e == "mp4"@
            ||| e == "wav"@
            ||| e == "ogg"@
            ||| e == "flac"@
            ||| e == "mkv"@
            ||| e == "avi"@
            ||| e == "mov"@
            ||| e == "webm"@
            ||| e == "zip"@
            ||| e == "tar"@
            ||| e == "gz"@
            ||| e == "bz2"@
            ||| e == "xz"@
            ||| e == "7z"@
            ||| e == "rar"@
            ||| e == "iso"@
            ||| e == "dmg"@
            ||| e == "pkg"@
            ||| e == "pdf"@
            ||| e == "doc"@
            ||| e == "docx"@
            ||| e == "ppt"@
            ||| e == "pptx"@
            ||| e == "xls"@
            ||| e == "xlsx"@
            ||| e == "woff"@
            ||| e == "woff2"@
            ||| e == "ttf"@
            ||| e == "eot"@
            ||| e == "otf"@
            ||| e == "db"@
            ||| e == "sqlite"@
            ||| e == "sqlite3"@
            ||| e == "parquet"@
            ||| e == "arrow"@
            ||| e == "avro"@
            ||| e == "lock"@
            ||| e == "sum"@
            ||| e == "map"@
        },
{
}

/// No extension but these stands for a language of its own.
pub proof fn law_extensions_with_a_language(e: Seq<char>)
    ensures
        language_of_extension(e) is Some <==> {
            ||| e == "py"@
            ||| e == "pyw"@
            ||| e == "go"@
            ||| e == "js"@
            ||| e == "jsx"@
            ||| e == "mjs"@
            ||| e == "cjs"@
            ||| e == "ts"@
            ||| e == "tsx"@
            ||| e == "rs"@
            ||| e == "c"@
            ||| e == "h"@
            ||| e == "cpp"@
            ||| e == "cc"@
            ||| e == "cxx"@
            ||| e == "hpp"@
            ||| e == "hxx"@
            ||| e == "java"@
            ||| e == "cs"@
            ||| e == "kt"@
            ||| e == "kts"@
            ||| e == "scala"@
            ||| e == "rb"@
            ||| e == "php"@
            ||| e == "sh"@
            ||| e == "bash"@
            ||| e == "zsh"@
            ||| e == "json"@
            ||| e == "yaml"@
            ||| e == "yml"@
            ||| e == "toml"@
            ||| e == "xml"@
            ||| e == "sql"@
        },
{
}

/// What language each of these extensions stands for.
pub proof fn law_languages_of_extensions(e: Seq<char>)
    ensures
        e == "py"@ || e == "pyw"@ ==> language_of_extension(e) == Some("Python"@),
        e == "go"@ ==> language_of_extension(e) == Some("Go"@),
        e == "js"@ || e == "jsx"@ || e == "mjs"@ || e == "cjs"@ ==> language_of_extension(e)
            == Some("JavaScript"@),
        e == "ts"@ || e == "tsx"@ ==> language_of_extension(e) == Some("TypeScript"@),
        e == "rs"@ ==> language_of_extension(e) == Some("Rust"@),
        e == "c"@ || e == "h"@ ==> language_of_extension(e) == Some("C"@),
        e == "cpp"@ || e == "cc"@ || e == "cxx"@ || e == "hpp"@ || e == "hxx"@ ==> language_of_extension(e)
            == Some("C++"@),
        e == "java"@ ==> language_of_extension(e) == Some("Java"@),
        e == "cs"@ ==> language_of_extension(e) == Some("C#"@),
        e == "kt"@ || e == "kts"@ ==> language_of_extension(e) == Some("Kotlin"@),
        e == "scala"@ ==> language_of_extension(e) == Some("Scala"@),
        e == "rb"@ ==> language_of_extension(e) == Some("Ruby"@),
        e == "php"@ ==> language_of_extension(e) == Some("PHP"@),
        e == "sh"@ || e == "bash"@ || e == "zsh"@ ==> language_of_extension(e) == Some("Shell"@),
        e == "json"@ || e == "yaml"@ || e == "yml"@ || e == "toml"@ || e == "xml"@ || e == "sql"@ ==> language_of_extension(e)
            == Some("Config"@),
{
    reveal_strlit("py");
    reveal_strlit("pyw");
    reveal_strlit("go");
    reveal_strlit("js");
    reveal_strlit("jsx");
    reveal_strlit("mjs");
    reveal_strlit("cjs");
    reveal_strlit("ts");
    reveal_strlit("tsx");
    reveal_strlit("rs");
    reveal_strlit("c");
    reveal_strlit("h");
    reveal_strlit("cpp");
    reveal_strlit("cc");
    reveal_strlit("cxx");
    reveal_strlit("hpp");
    reveal_strlit("hxx");
    reveal_strlit("java");
    reveal_strlit("cs");
    reveal_strlit("kt");
    reveal_strlit("kts");
    reveal_strlit("scala");
    reveal_strlit("rb");
    reveal_strlit("php");
    reveal_strlit("sh");
    reveal_strlit("bash");
    reveal_strlit("zsh");
    reveal_strlit("json");
    reveal_strlit("yaml");
    reveal_strlit("yml");
    reveal_strlit("toml");
    reveal_strlit("xml");
    reveal_strlit("sql");
    assert("py"@.len() == 2 && "py"@[0] == 'p' && "py"@[1] == 'y');
    assert("pyw"@.len() == 3 && "pyw"@[0] == 'p' && "pyw"@[1] == 'y' && "pyw"@[2] == 'w');
    assert("go"@.len() == 2 && "go"@[0] == 'g' && "go"@[1] == 'o');
    assert("js"@.len() == 2 && "js"@[0] == 'j' && "js"@[1] == 's');
    assert("jsx"@.len() == 3 && "jsx"@[0] == 'j' && "jsx"@[1] == 's' && "jsx"@[2] == 'x');
    assert("mjs"@.len() == 3 && "mjs"@[0] == 'm' && "mjs"@[1] == 'j' && "mjs"@[2] == 's');
    assert("cjs"@.len() == 3 && "cjs"@[0] == 'c' && "cjs"@[1] == 'j' && "cjs"@[2] == 's');
    assert("ts"@.len() == 2 && "ts"@[0] == 't' && "ts"@[1] == 's');
    assert("tsx"@.len() == 3 && "tsx"@[0] == 't' && "tsx"@[1] == 's' && "tsx"@[2] == 'x');
    assert("rs"@.len() == 2 && "rs"@[0] == 'r' && "rs"@[1] == 's');
    assert("c"@.len() == 1 && "c"@[0] == 'c');
    assert("h"@.len() == 1 && "h"@[0] == 'h');
    assert("cpp"@.len() == 3 && "cpp"@[0] == 'c' && "cpp"@[1] == 'p' && "cpp"@[2] == 'p');
    assert("cc"@.len() == 2 && "cc"@[0] == 'c' && "cc"@[1] == 'c');
    assert("cxx"@.len() == 3 && "cxx"@[0] == 'c' && "cxx"@[1] == 'x' && "cxx"@[2] == 'x');
    assert("hpp"@.len() == 3 && "hpp"@[0] == 'h' && "hpp"@[1] == 'p' && "hpp"@[2] == 'p');
    assert("hxx"@.len() == 3 && "hxx"@[0] == 'h' && "hxx"@[1] == 'x' && "hxx"@[2] == 'x');
    assert("java"@.len() == 4 && "java"@[0] == 'j' && "java"@[1] == 'a' && "java"@[2] == 'v');
    assert("cs"@.len() == 2 && "cs"@[0] == 'c' && "cs"@[1] == 's');
    assert("kt"@.len() == 2 && "kt"@[0] == 'k' && "kt"@[1] == 't');
    assert("kts"@.len() == 3 && "kts"@[0] == 'k' && "kts"@[1] == 't' && "kts"@[2] == 's');
    assert("scala"@.len() == 5 && "scala"@[0] == 's' && "scala"@[1] == 'c' && "scala"@[2] == 'a');
    assert("rb"@.len() == 2 && "rb"@[0] == 'r' && "rb"@[1] == 'b');
    assert("php"@.len() == 3 && "php"@[0] == 'p' && "php"@[1] == 'h' && "php"@[2] == 'p');
    assert("sh"@.len() == 2 && "sh"@[0] == 's' && "sh"@[1] == 'h');
    assert("bash"@.len() == 4 && "bash"@[0] == 'b' && "bash"@[1] == 'a' && "bash"@[2] == 's');
    assert("zsh"@.len() == 3 && "zsh"@[0] == 'z' && "zsh"@[1] == 's' && "zsh"@[2] == 'h');
    assert("json"@.len() == 4 && "json"@[0] == 'j' && "json"@[1] == 's' && "json"@[2] == 'o');
    assert("yaml"@.len() == 4 && "yaml"@[0] == 'y' && "yaml"@[1] == 'a' && "yaml"@[2] == 'm');
    assert("yml"@.len() == 3 && "yml"@[0] == 'y' && "yml"@[1] == 'm' && "yml"@[2] == 'l');
    assert("toml"@.len() == 4 && "toml"@[0] == 't' && "toml"@[1] == 'o' && "toml"@[2] == 'm');
    assert("xml"@.len() == 3 && "xml"@[0] == 'x' && "xml"@[1] == 'm' && "xml"@[2] == 'l');
    assert("sql"@.len() == 3 && "sql"@[0] == 's' && "sql"@[1] == 'q' && "sql"@[2] == 'l');
}

/// Minified assets and lock files are generated, by their names, and no others are.
pub proof fn law_generated_names(name: Seq<char>)
    ensures
        is_generated_name(name) <==> {
            ||| ".min.js"@.is_suffix_of(name)
            ||| ".min.css"@.is_suffix_of(name)
            ||| name == "package-lock.json"@
            ||| name == "Cargo.lock"@
            ||| name == "yarn.lock"@
            ||| name == "pnpm-lock.yaml"@
        },
{
}

/// A generated or excluded file has no language. Otherwise its extension decides, whatever
/// its case. A file with an extension of no language is configuration if it is a Dockerfile,
/// and generic text if not; only a name with a leading dot and no extension has none.
pub proof fn law_language_goes_by_the_name(name: Seq<char>)
    ensures
        ({
            let e = lower(extension(name));
            let own = language_of_extension(e);
            let docker = lower(name) == "dockerfile"@ || "Dockerfile."@.is_prefix_of(name);
            let hidden = "."@.is_prefix_of(name) && extension(name).len() == 0;
            &&& is_generated_name(name) || is_excluded(e) ==> language_of(name) is None
            &&& !is_generated_name(name) && !is_excluded(e) ==> {
                &&& own is Some ==> language_of(name) == own
                &&& own is None && docker ==> language_of(name) == Some("Config"@)
                &&& own is None && !docker && !hidden ==> language_of(name) == Some("Generic"@)
                &&& own is None && !docker && hidden ==> language_of(name) is None
            }
        }),
{
}

/// Hidden directories and those of dependencies, build output and tools are not descended
/// into; every other directory is.
pub proof fn law_ignored_directories(name: Seq<char>)
    ensures
        is_ignored_dir_name(name) <==> {
            ||| name.len() > 0 && name[0] == '.' && name != "."@ && name != ".."@
            ||| name == "node_modules"@
            ||| name == "vendor"@
            ||| name == "target"@
            ||| name == "dist"@
            ||| name == "build"@
            ||| name == "venv"@
            ||| name == ".venv"@
            ||| name == "env"@
            ||| name == "__pycache__"@
            ||| name == ".git"@
            ||| name == ".idea"@
            ||| name == ".vscode"@
        },
{
    reveal_strlit(".");
    reveal_strlit(".venv");
    reveal_strlit(".git");
    reveal_strlit(".idea");
    reveal_strlit(".vscode");
    assert("."@.is_prefix_of(name) ==> name[0] == "."@[0]);
    assert(name.len() > 0 && name[0] == '.' ==> "."@ =~= name.take(1));
    reveal_strlit("..");
}

/// The lines of a file are what its line feeds end, without one carriage return before the
/// line feed; what follows the last line feed is a line of its own, kept as it is.
pub proof fn law_line_feeds_end_lines(line: Seq<u8>, rest: Seq<u8>)
    requires
        forall|i: int| 0 <= i < line.len() ==> #[trigger] line[i] != 10,
    ensures
        split_lines(line + seq![10u8] + rest) == seq![
            if line.len() > 0 && line.last() == 13 {
                line.drop_last()
            } else {
                line
            },
        ] + split_lines(rest),
        line.len() > 0 ==> split_lines(line) == seq![line],
        split_lines(Seq::empty()) == Seq::<Seq<u8>>::empty(),
{
    let all = line + seq![10u8] + rest;
    lemma_line_end(line, seq![10u8] + rest);
    lemma_line_end(line, Seq::empty());
    assert(all =~= line + (seq![10u8] + rest));
    assert(line + Seq::empty() =~= line);
    assert(all.take(line.len() as int) =~= line);
    assert(all.skip(line.len() as int + 1) =~= rest);
}

proof fn lemma_line_end(a: Seq<u8>, b: Seq<u8>)
    requires
        forall|i: int| 0 <= i < a.len() ==> #[trigger] a[i] != 10,
    ensures
        line_end(a + b) == a.len() + line_end(b),
    decreases a.len(),
{
    if a.len() == 0 {
        assert(a + b =~= b);
    } else {
        assert((a + b)[0] == a[0]);
        assert((a + b).drop_first() =~= a.drop_first() + b);
        assert forall|i: int| 0 <= i < a.drop_first().len() implies #[trigger] a.drop_first()[i]
            != 10 by {
            assert(a.drop_first()[i] == a[i + 1]);
        }
        lemma_line_end(a.drop_first(), b);
    }
}

/// The lines of a file are text where each of them is UTF-8, and then the texts encode to
/// the lines.
pub proof fn law_lines_are_text(b: Seq<u8>)
    ensures
        text_lines(b) is Some <==> forall|i: int|
            0 <= i < split_lines(b).len() ==> valid_utf8(#[trigger] split_lines(b)[i]),
        text_lines(b) is Some ==> text_lines(b)->0.len() == split_lines(b).len(),
        text_lines(b) is Some ==> forall|i: int|
            0 <= i < split_lines(b).len() ==> encode_utf8(#[trigger] text_lines(b)->0[i])
                == split_lines(b)[i],
{
    if text_lines(b) is Some {
        let lines = split_lines(b);
        assert forall|i: int| 0 <= i < lines.len() implies encode_utf8(
            #[trigger] text_lines(b)->0[i],
        ) == lines[i] by {
            assert(valid_utf8(lines[i]));
            assert(text_lines(b)->0[i] == decode_utf8(lines[i]));
            decode_utf8_encode_utf8(lines[i]);
        }
    }
}

} // verus!
