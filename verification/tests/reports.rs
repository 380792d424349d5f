use thermodynamic_ast_engine::comment::{hashbang, read_comments};
use thermodynamic_ast_engine::line::{Hotspot, LineMatches};
use thermodynamic_ast_engine::pattern::{compile_all, Pattern};
use thermodynamic_ast_engine::report::{
    build_report, mean_entropy, scan_file, scan_lines, top_hotspots, FileReport,
};
use thermodynamic_ast_engine::rules::{generic_rules, Patterns, VulnerabilityType};
use thermodynamic_ast_engine::sort::sort_descending;
use thermodynamic_ast_engine::text::{
    chars_of, count_of, decode_lines, ends_with, find_last_dot, identifier_char, indent_of,
    matches_at, same_text, spells, starts_with, to_lower, trimmed, white_space,
};

fn patterns() -> Patterns {
    Patterns::compile().unwrap()
}

fn scan(name: &str, content: &str, min_score: u64) -> Option<FileReport> {
    scan_file(&format!("dir/{name}"), name, content.as_bytes(), min_score, &patterns())
}

fn hotspot(score: u64, line: usize) -> Hotspot {
    Hotspot {
        function_name: "f".to_owned(),
        line_number: line,
        source_snippet: "s".to_owned(),
        entropy_score: score,
        vulnerability_type: VulnerabilityType::BlockingIO,
        description: "d".to_owned(),
    }
}

fn file(path: &str, hotspots: Vec<Hotspot>) -> FileReport {
    let total: u128 = hotspots.iter().map(|h| h.entropy_score as u128).sum();
    FileReport {
        file_path: path.to_owned(),
        language: "Go".to_owned(),
        lines_scanned: 1,
        total_entropy: total,
        mean_hotspot_entropy: mean_entropy(total, hotspots.len()),
        hotspots,
    }
}

const SOURCE: &str = "# comment\n\
    import time\n\
    \n\
    def fetch(urls):\n\
    \x20   for u in urls:\n\
    \x20       time.sleep(1)\n\
    \x20       fetch(u)\n\
    # done\n\
    x = 1\n";

#[test]
fn report_of_a_python_file() {
    let r = scan("a.py", SOURCE, 0).unwrap();
    assert_eq!(r.file_path, "dir/a.py");
    assert_eq!(r.language, "Python");
    assert_eq!(r.lines_scanned, 6);
    let found: Vec<(u64, usize, VulnerabilityType)> = r
        .hotspots
        .iter()
        .map(|h| (h.entropy_score, h.line_number, h.vulnerability_type))
        .collect();
    assert_eq!(
        found,
        vec![
            (3000, 7, VulnerabilityType::RecursiveCall),
            (2700, 6, VulnerabilityType::BlockingIO),
            (2250, 5, VulnerabilityType::DeepNesting),
        ]
    );
    assert_eq!(r.hotspots[0].source_snippet, "fetch(u)");
    assert_eq!(r.hotspots[0].function_name, "fetch");
    assert_eq!(r.total_entropy, 7950);
    assert_eq!(r.mean_hotspot_entropy, 2650);
}

#[test]
fn minimum_score_filters() {
    let all = scan("a.py", SOURCE, 0).unwrap();
    let some = scan("a.py", SOURCE, 2700).unwrap();
    let none = scan("a.py", SOURCE, 10001).unwrap();
    assert_eq!(some.hotspots.len(), 2);
    assert_eq!(some.total_entropy, 5700);
    assert_eq!(some.lines_scanned, all.lines_scanned);
    for (x, y) in some.hotspots.iter().zip(all.hotspots.iter()) {
        assert_eq!((x.entropy_score, x.line_number), (y.entropy_score, y.line_number));
    }
    assert!(none.hotspots.is_empty());
    assert_eq!((none.total_entropy, none.mean_hotspot_entropy), (0, 0));
}

#[test]
fn skipped_lines_leave_no_trace() {
    let a = scan("a.go", "func F() {\nfor x {\n}\n}\n", 0).unwrap();
    let b = scan("a.go", "func F() {\n// {{{\nfor x {\n\n/* } */\n/*\n } }\n*/\n}\n}\n", 0).unwrap();
    assert_eq!(a.lines_scanned, b.lines_scanned);
    assert_eq!(a.total_entropy, b.total_entropy);
    assert_eq!((a.hotspots[0].line_number, b.hotspots[0].line_number), (2, 3));
}

#[test]
fn inserted_comments_only_renumber() {
    let a = scan("a.py", SOURCE, 0).unwrap();
    let spaced = SOURCE.replace('\n', "\n  # note\n\n");
    let b = scan("a.py", &spaced, 0).unwrap();
    assert_eq!((&a.language, a.lines_scanned), (&b.language, b.lines_scanned));
    assert_eq!(a.total_entropy, b.total_entropy);
    assert_eq!(a.mean_hotspot_entropy, b.mean_hotspot_entropy);
    assert_eq!(a.hotspots.len(), b.hotspots.len());
    for (x, y) in a.hotspots.iter().zip(b.hotspots.iter()) {
        assert_eq!(y.line_number, x.line_number + 2 * (x.line_number - 1));
        assert_eq!(x.entropy_score, y.entropy_score);
        assert_eq!(x.vulnerability_type, y.vulnerability_type);
        assert_eq!(x.function_name, y.function_name);
        assert_eq!(x.source_snippet, y.source_snippet);
        assert_eq!(x.description, y.description);
    }
}

#[test]
fn comments_go_by_the_language() {
    let scanned = |name: &str, content: &str| scan(name, content, 0).unwrap().lines_scanned;
    assert_eq!(scanned("a.c", "#include <stdio.h>\nint x;\n"), 2);
    for name in ["a.go", "a.js", "a.ts", "a.rs", "a.c", "a.cpp", "a.java", "a.cs", "a.kt", "a.scala"]
    {
        assert_eq!(scanned(name, "# a\n// b\n/* c */\n"), 1, "{name}");
    }
    for name in ["a.py", "a.sh", "a.rb"] {
        assert_eq!(scanned(name, "# a\n// b\n/* c */\n"), 2, "{name}");
    }
    for name in ["a.php", "a.yaml", "a.xyz"] {
        assert_eq!(scanned(name, "# a\n// b\n/* c */\n"), 0, "{name}");
    }
}

#[test]
fn block_comments_are_followed() {
    let scanned = |content: &str| scan("a.c", content, 0).unwrap().lines_scanned;
    assert_eq!(scanned("/*\n * for (;;) {\n\n */\nint x;\n"), 1);
    assert_eq!(scanned("/* a */ int x;\nint y;\n"), 2);
    assert_eq!(scanned("/* a\n b */ int x;\nint y;\n"), 2);
    assert_eq!(scanned("/* a */ /* b */ // c\nint y;\n"), 1);
    assert_eq!(scanned("/* a */ /* b\nint x;\n*/\nint y;\n"), 1);
    assert_eq!(scanned("/*/\nint x;\n/*/\nint y;\n"), 1);
    assert_eq!(scanned("/* never closed\nint x;\n"), 0);
    assert_eq!(scanned("char *g = \"src/*.c\";\nint x;\n"), 2);
    assert_eq!(read_comments("/* a", "C", 0), (true, 1));
    assert_eq!(read_comments("a */", "C", 1), (true, 0));
    assert_eq!(read_comments("a */ b", "C", 1), (false, 0));
    assert_eq!(read_comments("// /*", "C", 0), (true, 0));
    assert_eq!(read_comments("\u{3000}", "C", 0), (true, 0));
    assert_eq!(read_comments("", "C", 1), (true, 1));
    assert_eq!(read_comments("/", "C", 0), (false, 0));
    assert_eq!(read_comments("# x", "Python", 0), (true, 0));
    assert_eq!(read_comments("/* x", "Python", 0), (false, 0));
}

#[test]
fn block_comments_nest_in_some_languages() {
    let line = "/* /* a */ b */";
    for language in ["Rust", "Kotlin", "Scala"] {
        assert_eq!(read_comments(line, language, 0), (true, 0), "{language}");
        assert_eq!(read_comments("/* /* a", language, 0), (true, 2), "{language}");
        assert_eq!(read_comments("*/ */ x", language, 2), (false, 0), "{language}");
        assert_eq!(read_comments("/*", language, usize::MAX), (true, usize::MAX));
    }
    for language in ["Go", "JavaScript", "TypeScript", "C", "C++", "Java", "C#", "PHP"] {
        assert_eq!(read_comments(line, language, 0), (false, 0), "{language}");
        assert_eq!(read_comments("/* /* a", language, 0), (true, 1), "{language}");
    }
    let r = scan("a.rs", "/* a /*\n b */\nlet x = 1;\n*/\nlet y = 2;\n", 0).unwrap();
    assert_eq!(r.lines_scanned, 1);
}

#[test]
fn other_formats_have_no_block_comments() {
    let r = scan("a.yaml", "/*:\n    timeout: 0\n", 0).unwrap();
    assert_eq!(r.lines_scanned, 1);
    let found: Vec<(u64, usize)> =
        r.hotspots.iter().map(|h| (h.entropy_score, h.line_number)).collect();
    assert_eq!(found, vec![(1500, 2)]);
    let without = scan("a.yaml", "    timeout: 0\n", 0).unwrap();
    assert_eq!(without.lines_scanned, r.lines_scanned);
    assert_eq!(without.total_entropy, r.total_entropy);
    assert_eq!(without.hotspots[0].line_number, 1);
    for name in ["_redirects", "_headers", "CODEOWNERS", "a.txt", "a.toml", "Dockerfile"] {
        let r = scan(name, "/* a b\nc d\n/* e */ f\ng h\n", 0).unwrap();
        assert_eq!(r.lines_scanned, 2, "{name}");
    }
}

#[test]
fn hashbangs_are_skipped() {
    let scanned = |name: &str, content: &str| scan(name, content, 0).unwrap().lines_scanned;
    for name in ["a.js", "a.ts", "a.rs", "a.kts", "a.scala", "a.py", "a.sh", "a.rb", "a.php"] {
        assert_eq!(scanned(name, "#!/usr/bin/env x\n"), 0, "{name}");
        assert_eq!(scanned(name, "#!/usr/bin/env x\nf(1)\n"), 1, "{name}");
    }
    assert_eq!(scanned("a.js", "f(1)\n#!/usr/bin/env node\n"), 2);
    assert_eq!(scanned("a.js", "\n#!/usr/bin/env node\n"), 1);
    assert_eq!(scanned("a.js", " #!/usr/bin/env node\n"), 1);
    assert_eq!(scanned("a.js", "#x\n"), 1);
    assert_eq!(scanned("a.rs", "#![allow(dead_code)]\n"), 1);
    assert_eq!(scanned("a.rs", "#!/usr/bin/env /*\nfn f() {}\n"), 1);
    assert!(hashbang("#!") && hashbang("#!/bin/sh") && !hashbang("#![") && !hashbang("#"));
}

#[test]
fn attributes_of_php_are_no_comments() {
    let scanned = |content: &str| scan("a.php", content, 0).unwrap().lines_scanned;
    assert_eq!(scanned("#[Pure]\nf();\n"), 2);
    assert_eq!(scanned("# [x]\n#\n// y\n/* z\n*/\nf();\n"), 1);
    assert_eq!(scan("a.py", "#[x]\n", 0).unwrap().lines_scanned, 0);
}

#[test]
fn sequential_loops_in_a_python_file() {
    let r = scan("a.py", "for a in x:\nfor b in y:\n", 0).unwrap();
    let found: Vec<(u64, usize)> =
        r.hotspots.iter().map(|h| (h.entropy_score, h.line_number)).collect();
    assert_eq!(found, vec![(2250, 1), (2250, 2)]);
}

#[test]
fn files_without_a_report() {
    let p = patterns();
    assert!(scan("a.png", "x", 0).is_none());
    assert!(scan("a.py", "x\0", 0).is_none());
    assert!(scan_file("a.py", "a.py", b"x = '\xff'\n", 0, &p).is_none());
    let big = vec![b'\n'; 512 * 1024 + 1];
    assert!(scan_file("a.py", "a.py", &big, 0, &p).is_none());
    let full = vec![b'\n'; 512 * 1024];
    let r = scan_file("a.py", "a.py", &full, 0, &p).unwrap();
    assert_eq!(r.lines_scanned, 0);
    let empty = scan("a.py", "", 0).unwrap();
    assert_eq!((empty.lines_scanned, empty.hotspots.len()), (0, 0));
}

#[test]
fn secrets_in_configuration() {
    let r = scan("app.yaml", "api_key: \"abcd1234\"\ntimeout: 0\n", 0).unwrap();
    let scores: Vec<u64> = r.hotspots.iter().map(|h| h.entropy_score).collect();
    assert_eq!(scores, vec![2500, 1500]);
    assert_eq!(r.hotspots[0].function_name, "<module>");
}

#[test]
fn given_matches_make_the_report() {
    let p = patterns();
    let rules = generic_rules(&p);
    let hits = |v: Vec<bool>, is_loop: bool| LineMatches {
        declares_function: false,
        declaration: None,
        is_loop,
        rule_hits: v,
    };
    let none = vec![false; 6];
    let lines = vec!["a {", "", "b", "c"];
    let matches = vec![
        hits(none.clone(), true),
        hits(vec![true; 6], true),
        hits(vec![false, false, true, false, true, false], false),
        hits(vec![false, false, false, false, false, true], false),
    ];
    let r = scan_lines("p", &lines, &matches, &rules, "Generic", 760);
    let found: Vec<(u64, usize)> =
        r.hotspots.iter().map(|h| (h.entropy_score, h.line_number)).collect();
    assert_eq!(found, vec![(2700, 4), (1500, 3)]);
    assert_eq!(r.lines_scanned, 3);
    assert_eq!(r.total_entropy, 4200);
    assert_eq!(r.mean_hotspot_entropy, 2100);
}

#[test]
fn mean_is_rounded_half_up() {
    assert_eq!(mean_entropy(0, 0), 0);
    assert_eq!(mean_entropy(10, 4), 3);
    assert_eq!(mean_entropy(9, 4), 2);
    assert_eq!(mean_entropy(10, 3), 3);
    assert_eq!(mean_entropy(11, 3), 4);
    assert_eq!(mean_entropy(u128::MAX, 1), u128::MAX);
}

#[test]
fn sorting_is_stable_and_descending() {
    let scores = [5u64, 9, 5, 1, 9, 7, 5, 0, 9];
    let v: Vec<Hotspot> = scores.iter().enumerate().map(|(i, s)| hotspot(*s, i)).collect();
    let sorted: Vec<(u64, usize)> =
        sort_descending(v).iter().map(|h| (h.entropy_score, h.line_number)).collect();
    let mut expected: Vec<(u64, usize)> =
        scores.iter().enumerate().map(|(i, s)| (*s, i)).collect();
    expected.sort_by(|a, b| b.0.cmp(&a.0));
    assert_eq!(sorted, expected);
    assert!(sort_descending(Vec::<Hotspot>::new()).is_empty());
}

#[test]
fn report_of_a_directory() {
    let files = vec![
        file("low", vec![hotspot(500, 1)]),
        file("high", vec![hotspot(2000, 2), hotspot(1500, 3)]),
        file("none", vec![]),
        file("even", vec![hotspot(500, 4)]),
    ];
    let r = build_report(files, "dir", "1.2.3", "now");
    assert_eq!(r.engine_version, "1.2.3");
    assert_eq!(r.generated_at, "now");
    assert_eq!(r.scanned_directory, "dir");
    assert_eq!(r.files_analyzed, 4);
    assert_eq!(r.total_hotspots, 4);
    assert_eq!(r.global_entropy, 4500);
    let order: Vec<&str> = r.file_reports.iter().map(|f| f.file_path.as_str()).collect();
    assert_eq!(order, vec!["high", "low", "even", "none"]);
}

#[test]
fn report_ignores_the_order_of_the_files() {
    let files = vec![
        file("a", vec![hotspot(500, 1)]),
        file("b", vec![hotspot(2000, 2), hotspot(1500, 3)]),
        file("c", vec![]),
        file("d", vec![hotspot(500, 4)]),
    ];
    let mut reversed = files.clone();
    reversed.reverse();
    let x = build_report(files, "dir", "v", "t");
    let y = build_report(reversed, "dir", "v", "t");
    assert_eq!(x.files_analyzed, y.files_analyzed);
    assert_eq!(x.total_hotspots, y.total_hotspots);
    assert_eq!(x.global_entropy, y.global_entropy);
    let totals = |v: &[FileReport]| -> Vec<u128> { v.iter().map(|f| f.total_entropy).collect() };
    assert_eq!(totals(&x.file_reports), totals(&y.file_reports));
    let paths = |v: &[FileReport]| -> Vec<String> {
        v.iter().map(|f| f.file_path.clone()).collect()
    };
    assert_eq!(paths(&x.file_reports), vec!["b", "a", "d", "c"]);
    assert_eq!(paths(&y.file_reports), vec!["b", "d", "a", "c"]);
}

#[test]
fn report_of_no_files() {
    let r = build_report(vec![], "dir", "v", "t");
    assert_eq!((r.files_analyzed, r.total_hotspots, r.global_entropy), (0, 0, 0));
    assert!(top_hotspots(&r, 5).is_empty());
}

#[test]
fn top_hotspots_over_all_files() {
    let files = vec![
        file("a", vec![hotspot(900, 1), hotspot(500, 2)]),
        file("b", vec![hotspot(1000, 3), hotspot(500, 4)]),
    ];
    let r = build_report(files, "d", "v", "t");
    let top: Vec<(u64, String, usize)> = top_hotspots(&r, 3)
        .into_iter()
        .map(|h| (h.entropy_score, h.file_path, h.line_number))
        .collect();
    assert_eq!(
        top,
        vec![(1000, "b".to_owned(), 3), (900, "a".to_owned(), 1), (500, "b".to_owned(), 4)]
    );
    assert_eq!(top_hotspots(&r, 9).len(), 4);
    assert_eq!(top_hotspots(&r, 1)[0].vulnerability_type, VulnerabilityType::BlockingIO);
}

// Patterns

#[test]
fn patterns_report_the_first_rejected() {
    assert!(compile_all(&vec!["a", "b+"]).is_ok());
    let e = match compile_all(&vec!["a", "(", "["]) {
        Ok(_) => panic!("accepted"),
        Err(e) => e,
    };
    assert_eq!(e.pattern, "(");
    assert_eq!(Pattern::new("foo(bar").err().map(|e| e.pattern), Some("foo(bar".to_owned()));
}

// Text

#[test]
fn lines_end_like_those_of_a_reader() {
    let lines = |s: &str| -> Vec<String> {
        decode_lines(s.as_bytes()).unwrap().iter().map(|l| l.to_string()).collect()
    };
    for s in ["", "\n", "a", "a\n", "a\r\n", "a\r", "\r\n\r\n", "a\n\nb\r\nc\r", "\r\r\n", "é\nß"] {
        let expected: Vec<String> =
            std::io::BufRead::lines(s.as_bytes()).map(|l| l.unwrap()).collect();
        assert_eq!(lines(s), expected, "{s:?}");
    }
    assert!(decode_lines(b"ok\n\xc3\x28\n").is_none());
    assert!(decode_lines(b"\xc3\n\xa9").is_none());
}

#[test]
fn white_space_is_that_of_unicode() {
    for c in '\0'..=char::MAX {
        assert_eq!(white_space(c), c.is_whitespace(), "{c:?}");
    }
}

#[test]
fn characters_of_identifiers() {
    for c in '\0'..='\u{7f}' {
        let expected = c.is_ascii_alphanumeric() || c == '_' || c == '$';
        assert_eq!(identifier_char(c), expected, "{c:?}");
    }
    assert!(identifier_char('é') && identifier_char('名') && !identifier_char('\u{3000}'));
    for c in "→“”«»…—、。「（）！？￥≤∀■✓😀€×÷·".chars() {
        assert!(!identifier_char(c), "{c:?}");
    }
}

#[test]
fn word_characters_are_characters_of_identifiers() {
    let word = regex::Regex::new(r"\w").unwrap();
    let mut buf = [0u8; 4];
    for c in '\0'..=char::MAX {
        if !identifier_char(c) {
            assert!(!word.is_match(c.encode_utf8(&mut buf)), "{c:?}");
        }
    }
}

#[test]
fn trimming_and_indentation() {
    for s in ["", " ", "a", "  a b \t", "\u{a0}x\u{3000}", "\u{200b}x"] {
        let t: String = trimmed(&chars_of(s)).into_iter().collect();
        assert_eq!(t, s.trim());
        assert_eq!(indent_of(s), s.len() - s.trim_start().len());
    }
}

#[test]
fn searching_text() {
    let s = chars_of("aabaab");
    let at = |i: usize, t: &str| matches_at(&s, i, &chars_of(t));
    assert!(at(0, "") && at(0, "aab") && at(3, "aab") && at(2, "baa") && at(6, ""));
    assert!(!at(1, "aab") && !at(0, "aabaabx") && !at(6, "a"));
    assert!(starts_with(&s, "aab") && !starts_with(&s, "ab") && starts_with(&s, ""));
    assert!(ends_with(&s, "aab") && !ends_with(&s, "aaa") && ends_with(&s, ""));
    assert_eq!(count_of(&s, 'a'), 4);
    assert!(spells(&s, "aabaab") && !spells(&s, "aaba"));
    assert!(same_text("é", "é") && !same_text("é", "e") && !same_text("a", "ab"));
    assert_eq!(find_last_dot(&chars_of("a.b.c")), Some(3));
    assert_eq!(find_last_dot(&chars_of("abc")), None);
    let lowered: String = to_lower(&chars_of("AzÉ-Z")).into_iter().collect();
    assert_eq!(lowered, "AzÉ-Z".to_ascii_lowercase());
}
