use thermodynamic_ast_engine::language::{
    detect_language, is_binary_file, is_excluded_extension, is_ignored_dir, is_scannable,
    language_label, MAX_FILE_SIZE_BYTES,
};
use thermodynamic_ast_engine::line::{
    analyze_line, analyze_matches, entropy_score, match_line, Hotspot, LineMatches, ScanState,
};
use thermodynamic_ast_engine::rules::{
    c_cpp_rules, config_rules, func_regex_for, generic_rules, go_rules, java_csharp_rules,
    js_ts_rules, loop_regex_for, python_rules, rules_for, rust_rules, shell_rules, PatternRule,
    Patterns, VulnerabilityType,
};

fn patterns() -> Patterns {
    Patterns::compile().unwrap()
}

fn has(hotspots: &[Hotspot], kind: VulnerabilityType) -> bool {
    hotspots.iter().any(|h| h.vulnerability_type == kind)
}

fn analyze(
    line: &str,
    line_no: usize,
    state: &mut ScanState,
    rules: &[PatternRule<'_>],
    language: &str,
    patterns: &Patterns,
) -> Vec<Hotspot> {
    let func_re = func_regex_for(language, patterns);
    analyze_line(line, line_no, state, rules, func_re, language, patterns)
}

#[test]
fn test_python_blocking_io_detected() {
    let p = patterns();
    let line = "    result = requests.get(url, timeout=30)";
    let mut state = ScanState::new();
    let rules = python_rules(&p);
    let hotspots = analyze(line, 42, &mut state, &rules, "Python", &p);

    assert!(
        has(&hotspots, VulnerabilityType::BlockingIO),
        "Expected BlockingIO hotspot for requests.get"
    );
}

#[test]
fn test_go_allocation_detected() {
    let p = patterns();
    let line = "    data := make([]byte, 1024)";
    let mut state = ScanState::new();
    let rules = go_rules(&p);
    let hotspots = analyze(line, 7, &mut state, &rules, "Go", &p);

    assert!(
        has(&hotspots, VulnerabilityType::HotAllocation),
        "Expected HotAllocation hotspot for make()"
    );
}

#[test]
fn test_nesting_multiplier_increases_score() {
    let p = patterns();
    let mut state = ScanState::new();
    let rules = python_rules(&p);

    // Two levels of loop nesting
    state.loop_depth = 2;

    let line = "    result = requests.get(url)";
    let hotspots = analyze(line, 10, &mut state, &rules, "Python", &p);

    let blocking_io = hotspots
        .iter()
        .find(|h| h.vulnerability_type == VulnerabilityType::BlockingIO)
        .expect("Expected BlockingIO hotspot");

    // base score 18, multiplier at depth 2 = 1 + 0.5 * 4 = 3.0
    assert!(
        blocking_io.entropy_score as f64 / 100.0 > 18.0,
        "Nesting multiplier should increase entropy beyond base score"
    );
    assert_eq!(blocking_io.entropy_score, 5400);
}

#[test]
fn test_go_mutex_detected() {
    let p = patterns();
    let line = "    mu.Lock()  // sync.Mutex";
    let mut state = ScanState::new();
    let rules = go_rules(&p);
    let _hotspots = analyze(line, 99, &mut state, &rules, "Go", &p);

    // The pattern matches on the `sync.` prefix
    let line2 = "    var mu sync.Mutex";
    let hotspots2 = analyze(line2, 100, &mut state, &rules, "Go", &p);

    assert!(
        has(&hotspots2, VulnerabilityType::SyncContention),
        "Expected SyncContention for sync.Mutex declaration"
    );
}

#[test]
fn test_language_detection() {
    let p = patterns();
    assert!(detect_language("foo.py", &p).is_some());
    assert!(detect_language("bar.go", &p).is_some());
    assert!(detect_language("baz.rs", &p).is_some());
    assert!(detect_language("qux.js", &p).is_some());
    assert!(detect_language("App.tsx", &p).is_some());
    assert!(detect_language("main.cpp", &p).is_some());
    assert!(detect_language("Server.java", &p).is_some());
    assert!(detect_language("deploy.sh", &p).is_some());
    assert!(detect_language("config.yaml", &p).is_some());
    assert!(detect_language("Dockerfile", &p).is_some());
    assert!(detect_language("notes.txt", &p).is_some());

    // Binary and excluded files must return None
    assert!(detect_language("image.png", &p).is_none());
    assert!(detect_language("program.exe", &p).is_none());
    assert!(detect_language("bundle.min.js", &p).is_none());
    assert!(detect_language("package-lock.json", &p).is_none());
    assert!(detect_language("Cargo.lock", &p).is_none());
    assert!(detect_language("module.wasm", &p).is_none());
}

#[test]
fn test_polyglot_hotspots() {
    let p = patterns();

    // JavaScript blocking I/O
    let mut js_state = ScanState::new();
    let js_rules = js_ts_rules(&p);
    let js_hotspots = analyze(
        "const data = fs.readFileSync('foo.txt');",
        1,
        &mut js_state,
        &js_rules,
        "JavaScript",
        &p,
    );
    assert!(
        has(&js_hotspots, VulnerabilityType::BlockingIO),
        "Expected BlockingIO for fs.readFileSync"
    );

    // Rust allocation
    let mut rs_state = ScanState::new();
    let rs_rules = rust_rules(&p);
    let rs_hotspots = analyze(
        "let items = Vec::with_capacity(1000);",
        1,
        &mut rs_state,
        &rs_rules,
        "Rust",
        &p,
    );
    assert!(
        has(&rs_hotspots, VulnerabilityType::HotAllocation),
        "Expected HotAllocation for Vec::with_capacity"
    );
}

#[test]
fn test_is_binary_file_detection() {
    let text = b"Hello, this is a plain text file!\nNo null bytes here.";
    let blob = b"Hello\x00Binary\x00Data";
    assert!(!is_binary_file(Some(text)), "Text file should not be marked binary");
    assert!(is_binary_file(Some(blob)), "File with null bytes must be marked binary");
}

#[test]
fn test_entropy_score_clamped() {
    let p = patterns();
    let mut state = ScanState::new();
    state.loop_depth = 100;
    let rules = python_rules(&p);
    let line = "    mu.acquire()  # threading.Lock()";
    let hotspots = analyze(line, 1, &mut state, &rules, "Python", &p);
    assert!(!hotspots.is_empty());
    for h in &hotspots {
        assert!(h.entropy_score as f64 / 100.0 <= 100.0, "Entropy must be clamped to 100.0");
    }
}

#[test]
fn test_sequential_loops_do_not_inflate_nesting_in_go() {
    let p = patterns();
    let mut state = ScanState::new();
    let rules = go_rules(&p);

    analyze("func ProcessData() {", 1, &mut state, &rules, "Go", &p);
    assert_eq!(state.loop_depth, 0);

    analyze("    for i := 0; i < 10; i++ {", 2, &mut state, &rules, "Go", &p);
    assert_eq!(state.loop_depth, 1);

    analyze("    }", 3, &mut state, &rules, "Go", &p);
    assert_eq!(
        state.loop_depth, 0,
        "Loop depth must decrement back to 0 when loop block closes"
    );

    analyze("    for j := 0; j < 10; j++ {", 4, &mut state, &rules, "Go", &p);
    assert_eq!(
        state.loop_depth, 1,
        "Second sequential loop should have loop_depth 1, NOT 2"
    );

    analyze("    }", 5, &mut state, &rules, "Go", &p);
    assert_eq!(state.loop_depth, 0);
}

#[test]
fn test_nested_loops_scale_properly_in_go() {
    let p = patterns();
    let mut state = ScanState::new();
    let rules = go_rules(&p);

    analyze("func ProcessData() {", 1, &mut state, &rules, "Go", &p);
    analyze("    for i := 0; i < 10; i++ {", 2, &mut state, &rules, "Go", &p);
    assert_eq!(state.loop_depth, 1);

    analyze("        for j := 0; j < 10; j++ {", 3, &mut state, &rules, "Go", &p);
    assert_eq!(state.loop_depth, 2, "Nested loop should have loop_depth 2");

    analyze("        }", 4, &mut state, &rules, "Go", &p);
    assert_eq!(state.loop_depth, 1, "Exiting inner loop should drop depth to 1");

    analyze("    }", 5, &mut state, &rules, "Go", &p);
    assert_eq!(state.loop_depth, 0, "Exiting outer loop should drop depth to 0");
}

#[test]
fn test_func_decl_not_flagged_as_recursive() {
    let p = patterns();
    let mut state = ScanState::new();
    let rules = go_rules(&p);

    let hotspots = analyze(
        "func NewCrawler(timeout time.Duration) *Crawler {",
        1,
        &mut state,
        &rules,
        "Go",
        &p,
    );
    assert!(
        !has(&hotspots, VulnerabilityType::RecursiveCall),
        "Function declaration must not be flagged as a recursive call"
    );

    let recursive_hotspots =
        analyze("    return NewCrawler(timeout)", 2, &mut state, &rules, "Go", &p);
    assert!(
        has(&recursive_hotspots, VulnerabilityType::RecursiveCall),
        "Direct self-recursive call must be flagged as RecursiveCall"
    );

    let external_hotspots =
        analyze("    return OtherFunction()", 3, &mut state, &rules, "Go", &p);
    assert!(
        !has(&external_hotspots, VulnerabilityType::RecursiveCall),
        "Calling a different function must not be flagged as RecursiveCall"
    );
}

// Entropy

#[test]
fn entropy_follows_the_square_of_the_depth() {
    assert_eq!(entropy_score(1500, 0), 1500);
    assert_eq!(entropy_score(1500, 1), 2250);
    assert_eq!(entropy_score(1500, 2), 4500);
    assert_eq!(entropy_score(1500, 3), 8250);
    assert_eq!(entropy_score(500, 1), 750);
    assert_eq!(entropy_score(2500, 1), 3750);
}

#[test]
fn entropy_is_rounded_half_up() {
    assert_eq!(entropy_score(1, 0), 1);
    assert_eq!(entropy_score(1, 1), 2);
    assert_eq!(entropy_score(3, 1), 5);
}

#[test]
fn entropy_stops_at_the_maximum() {
    assert_eq!(entropy_score(1500, 4), 10000);
    assert_eq!(entropy_score(500, 199), 10000);
    assert_eq!(entropy_score(1, 200), 10000);
    assert_eq!(entropy_score(1, usize::MAX), 10000);
    assert_eq!(entropy_score(u64::MAX, 0), 10000);
    assert_eq!(entropy_score(0, usize::MAX), 0);
}

#[test]
fn entropy_agrees_with_floating_point() {
    for base in [5u64, 10, 12, 14, 15, 18, 20, 22, 25] {
        for depth in 0usize..300 {
            let multiplier = 1.0 + 0.5 * (depth as f64).powi(2);
            let raw = (base as f64 * multiplier).min(100.0).max(0.0);
            let rounded = (raw * 100.0).round() / 100.0;
            assert_eq!(entropy_score(base * 100, depth) as f64 / 100.0, rounded);
        }
    }
}

// Rule tables

#[test]
fn rule_tables_hold_their_scores() {
    let p = patterns();
    let scores = |rules: Vec<PatternRule<'_>>| -> Vec<u64> {
        rules.iter().map(|r| r.base_score).collect()
    };
    assert_eq!(scores(python_rules(&p)), vec![1500, 2000, 1200, 1800, 500, 2200]);
    assert_eq!(scores(go_rules(&p)), vec![1500, 2000, 1200, 1800, 500, 2200]);
    assert_eq!(scores(js_ts_rules(&p)), vec![1500, 2000, 1200, 2200, 500, 1800]);
    assert_eq!(scores(rust_rules(&p)), vec![1500, 2000, 1200, 1800, 500, 2200]);
    assert_eq!(scores(c_cpp_rules(&p)), vec![1500, 2000, 1400, 1800, 500, 2200]);
    assert_eq!(scores(java_csharp_rules(&p)), vec![1500, 2000, 1200, 1800, 500, 2200]);
    assert_eq!(scores(shell_rules(&p)), vec![1500, 2000, 500]);
    assert_eq!(scores(config_rules(&p)), vec![2500, 1500, 500]);
    assert_eq!(scores(generic_rules(&p)), vec![1500, 1500, 1000, 1500, 500, 1800]);
}

#[test]
fn rule_tables_hold_their_kinds_and_texts() {
    let p = patterns();
    let config = config_rules(&p);
    assert_eq!(config[0].vulnerability, VulnerabilityType::SyncContention);
    assert_eq!(
        config[0].description_tmpl,
        "Sensitive credential or unrotated secret in config file"
    );
    let shell = shell_rules(&p);
    assert_eq!(shell[1].vulnerability, VulnerabilityType::BlockingIO);
    assert_eq!(shell[1].description_tmpl, "Subprocess network or sleep call in shell script");
    let generic = generic_rules(&p);
    let kinds: Vec<VulnerabilityType> = generic.iter().map(|r| r.vulnerability).collect();
    assert_eq!(
        kinds,
        vec![
            VulnerabilityType::DeepNesting,
            VulnerabilityType::RecursiveCall,
            VulnerabilityType::HotAllocation,
            VulnerabilityType::BlockingIO,
            VulnerabilityType::CognitiveBranch,
            VulnerabilityType::SyncContention,
        ]
    );
}

#[test]
fn tables_go_by_the_name_of_the_language() {
    let p = patterns();
    for language in ["Java", "C#", "Kotlin", "Scala"] {
        assert_eq!(
            rules_for(language, &p)[2].description_tmpl,
            "Object / collection instantiation in loop path"
        );
    }
    assert_eq!(
        rules_for("TypeScript", &p)[0].description_tmpl,
        "JavaScript/TypeScript loop or iterator in hot path"
    );
    assert_eq!(rules_for("Ruby", &p)[2].description_tmpl, "Memory allocation operation");
    assert_eq!(rules_for("C++", &p)[2].base_score, 1400);
}

#[test]
fn kinds_have_their_names() {
    assert_eq!(VulnerabilityType::DeepNesting.to_string(), "DeepNesting");
    assert_eq!(VulnerabilityType::RecursiveCall.to_string(), "RecursiveCall");
    assert_eq!(VulnerabilityType::HotAllocation.to_string(), "HotAllocation");
    assert_eq!(VulnerabilityType::BlockingIO.to_string(), "BlockingIO");
    assert_eq!(VulnerabilityType::CognitiveBranch.to_string(), "CognitiveBranch");
    assert_eq!(VulnerabilityType::SyncContention.to_string(), "SyncContention");
}

// Matching

#[test]
fn matches_of_a_declaration() {
    let p = patterns();
    let rules = go_rules(&p);
    let func_re = func_regex_for("Go", &p);
    let m = match_line("func (c *Crawler) Visit(url string) {", &rules, func_re, "Go", &p);
    assert!(m.declares_function);
    assert!(!m.is_loop);
    let groups = m.declaration.unwrap();
    assert_eq!(groups.len(), 2);
    assert_eq!(groups[0].as_deref(), Some("func (c *Crawler) Visit("));
    assert_eq!(groups[1].as_deref(), Some("Visit"));
    assert_eq!(m.rule_hits, vec![false, true, false, false, false, false]);

    let none = match_line("    for i := range xs {", &rules, func_re, "Go", &p);
    assert!(!none.declares_function);
    assert!(none.declaration.is_none());
    assert!(none.is_loop);
    assert_eq!(none.rule_hits, vec![true, false, false, false, false, false]);
}

#[test]
fn second_group_names_an_arrow_function() {
    let p = patterns();
    let rules = js_ts_rules(&p);
    let mut state = ScanState::new();
    analyze("const visit = async (node) => {", 1, &mut state, &rules, "JavaScript", &p);
    assert_eq!(state.current_function, "visit");
    analyze("export async function walk(node) {", 2, &mut state, &rules, "JavaScript", &p);
    assert_eq!(state.current_function, "walk");
}

#[test]
fn loop_heads_differ_by_language() {
    let p = patterns();
    let no_rules: Vec<PatternRule<'_>> = Vec::new();
    let is_loop = |line: &str, language: &str| {
        match_line(line, &no_rules, func_regex_for(language, &p), language, &p).is_loop
    };
    assert!(is_loop("  while x:", "Python"));
    assert!(!is_loop("  while x {", "Go"));
    assert!(is_loop("items.forEach(f)", "TypeScript"));
    assert!(is_loop("loop {", "Rust"));
    assert!(is_loop("do {", "C"));
    assert!(is_loop("foreach (var x in xs)", "C#"));
    assert!(is_loop("until ready", "Shell"));
    assert!(is_loop("repeat 3", "Config"));
    assert!(!is_loop("repeat 3", "Java"));
    let _ = loop_regex_for("Go", &p);
}

#[test]
fn given_matches_decide_alone() {
    let p = patterns();
    let rules = generic_rules(&p);
    let mut state = ScanState::new();
    state.current_function = "f".to_owned();
    let matches = LineMatches {
        declares_function: false,
        declaration: None,
        is_loop: true,
        rule_hits: vec![true, true, false, false, true, false],
    };
    let found = analyze_matches("  \tx = f(y)  ", 9, &mut state, &rules, &matches, "Generic");
    assert_eq!(found.len(), 3);
    assert_eq!(found[0].vulnerability_type, VulnerabilityType::DeepNesting);
    assert_eq!(found[0].entropy_score, 2250);
    assert_eq!(found[0].function_name, "f");
    assert_eq!(found[0].line_number, 9);
    assert_eq!(found[0].source_snippet, "x = f(y)");
    assert_eq!(found[0].description, "Loop construct detected in text file");
    assert_eq!(found[1].vulnerability_type, VulnerabilityType::RecursiveCall);
    assert_eq!(found[2].entropy_score, 750);
    assert_eq!(state.loop_depth, 1);
    assert_eq!(state.loop_levels, vec![0]);
}

#[test]
fn declaration_given_by_its_groups() {
    let p = patterns();
    let rules = generic_rules(&p);
    let declare = |groups: Option<Vec<Option<String>>>| {
        let mut state = ScanState::new();
        state.loop_depth = 3;
        let matches = LineMatches {
            declares_function: groups.is_some(),
            declaration: groups,
            is_loop: false,
            rule_hits: vec![false; 6],
        };
        analyze_matches("x", 1, &mut state, &rules, &matches, "Generic");
        (state.current_function, state.loop_depth)
    };
    let s = |t: &str| Some(t.to_owned());
    assert_eq!(declare(None), ("<module>".to_owned(), 3));
    assert_eq!(declare(Some(vec![s("all")])), ("<module>".to_owned(), 3));
    assert_eq!(declare(Some(vec![s("all"), s("a"), s("b")])), ("a".to_owned(), 0));
    assert_eq!(declare(Some(vec![s("all"), None, s("b")])), ("b".to_owned(), 0));
    assert_eq!(declare(Some(vec![s("all"), None, None])), ("<module>".to_owned(), 3));
}

#[test]
fn recursion_outside_functions_is_not_flagged() {
    let p = patterns();
    let rules = go_rules(&p);
    let mut state = ScanState::new();
    let found = analyze("    return NewCrawler(timeout)", 1, &mut state, &rules, "Go", &p);
    assert!(!has(&found, VulnerabilityType::RecursiveCall));
}

#[test]
fn recursion_on_self_is_flagged() {
    let p = patterns();
    let rules = python_rules(&p);
    let mut state = ScanState::new();
    let head = analyze("    def visit(self, node):", 1, &mut state, &rules, "Python", &p);
    assert!(!has(&head, VulnerabilityType::RecursiveCall));
    let found = analyze("        self.visit(node.left)", 2, &mut state, &rules, "Python", &p);
    assert!(has(&found, VulnerabilityType::RecursiveCall));
    assert_eq!(found[0].function_name, "visit");
}

#[test]
fn longer_names_are_other_functions() {
    let p = patterns();
    let rules = go_rules(&p);
    let mut state = ScanState::new();
    analyze("func Run() {", 1, &mut state, &rules, "Go", &p);
    let mut recursive = |line: &str| {
        has(
            &analyze(line, 2, &mut state, &rules, "Go", &p),
            VulnerabilityType::RecursiveCall,
        )
    };
    assert!(!recursive("    return PreRun()"));
    assert!(!recursive("    return Pre_Run()"));
    assert!(!recursive("    Do(ÉRun(), $Run(), _Run(), 1Run())"));
    assert!(!recursive("    return Runner()"));
    assert!(!recursive("    return Run"));
    assert!(recursive("    return Run()"));
    assert!(recursive("Run()"));
    assert!(recursive("    return PreRun(Run())"));
    assert!(recursive("    Do(this.Run(), 1)"));
    assert!(recursive("    Do(\u{3000}Run())"));
    assert!(recursive("    Do(1) →Run()"));
    assert!(recursive("    Do(1) “Run()”"));
    assert!(recursive("    Do(1)、Run()"));
    assert!(recursive("    Do(1)（Run())"));
}

#[test]
fn operators_and_calls_at_the_edge_of_a_word() {
    let p = patterns();
    let kinds = |line: &str, language: &str| -> Vec<VulnerabilityType> {
        let rules = rules_for(language, &p);
        let mut state = ScanState::new();
        analyze(line, 1, &mut state, &rules, language, &p)
            .iter()
            .map(|h| h.vulnerability_type)
            .collect()
    };
    for language in ["Go", "JavaScript", "Rust", "C", "Java", "Shell"] {
        assert_eq!(kinds("a && b", language), vec![VulnerabilityType::CognitiveBranch]);
        assert_eq!(kinds("a || b", language), vec![VulnerabilityType::CognitiveBranch]);
        assert!(kinds("a & b | c", language).is_empty());
    }
    assert_eq!(kinds("switch x", "Go"), vec![VulnerabilityType::CognitiveBranch]);
    assert!(kinds("elsewhere", "Go").is_empty());
    assert!(kinds("pthread_mutex_lock(&m);", "C").contains(&VulnerabilityType::SyncContention));
    assert!(kinds("a(pthread_mutex_);", "C").contains(&VulnerabilityType::SyncContention));
    assert!(kinds("std::mutex m;", "C++").contains(&VulnerabilityType::SyncContention));
    assert!(kinds("f = open(\"f\")", "Python").contains(&VulnerabilityType::BlockingIO));
    assert!(kinds("time.sleep(1)", "Python").contains(&VulnerabilityType::BlockingIO));
    assert!(!kinds("reopen(1)", "Python").contains(&VulnerabilityType::BlockingIO));
    assert!(kinds("x.clone();", "Generic").contains(&VulnerabilityType::HotAllocation));
    assert!(kinds("x = new T", "Generic").contains(&VulnerabilityType::HotAllocation));
}

#[test]
fn snippets_are_cut_by_characters() {
    let p = patterns();
    let rules = python_rules(&p);
    let mut state = ScanState::new();
    let line = format!("  if {}", "é".repeat(200));
    let found = analyze(&line, 1, &mut state, &rules, "Python", &p);
    assert_eq!(found.len(), 1);
    assert_eq!(found[0].source_snippet, format!("if {}", "é".repeat(117)));
}

// Nesting

#[test]
fn python_loops_end_with_the_indentation() {
    let p = patterns();
    let rules = python_rules(&p);
    let mut state = ScanState::new();
    analyze("for a in b:", 1, &mut state, &rules, "Python", &p);
    analyze("    for c in d:", 2, &mut state, &rules, "Python", &p);
    assert_eq!((state.loop_depth, state.nesting_depth), (2, 1));
    assert_eq!(state.loop_levels, vec![0, 4]);
    analyze("        x = 1", 3, &mut state, &rules, "Python", &p);
    assert_eq!((state.loop_depth, state.nesting_depth), (2, 2));
    analyze("    # comment", 4, &mut state, &rules, "Python", &p);
    assert_eq!(state.loop_depth, 2);
    analyze("    y = 2", 5, &mut state, &rules, "Python", &p);
    assert_eq!(state.loop_depth, 1);
    analyze("z = 3", 6, &mut state, &rules, "Python", &p);
    assert_eq!(state.loop_depth, 0);
    assert!(state.loop_levels.is_empty());
}

#[test]
fn sequential_python_loops_do_not_inflate() {
    let p = patterns();
    let rules = python_rules(&p);
    let mut state = ScanState::new();
    analyze("for a in x:", 1, &mut state, &rules, "Python", &p);
    let found = analyze("for b in y:", 2, &mut state, &rules, "Python", &p);
    assert_eq!(state.loop_depth, 1);
    assert_eq!(state.loop_levels, vec![0]);
    assert_eq!(found.len(), 1);
    assert_eq!(found[0].entropy_score, 2250);
    assert_eq!(found[0].vulnerability_type, VulnerabilityType::DeepNesting);
    analyze("    f(b)", 3, &mut state, &rules, "Python", &p);
    analyze("while c:", 4, &mut state, &rules, "Python", &p);
    assert_eq!((state.loop_depth, state.nesting_depth), (1, 0));
}

#[test]
fn python_loop_heads_close_deeper_loops() {
    let p = patterns();
    let rules = python_rules(&p);
    let mut state = ScanState::new();
    analyze("for a in x:", 1, &mut state, &rules, "Python", &p);
    analyze("    for b in y:", 2, &mut state, &rules, "Python", &p);
    analyze("        for c in z:", 3, &mut state, &rules, "Python", &p);
    assert_eq!(state.loop_levels, vec![0, 4, 8]);
    analyze("    for d in w:", 4, &mut state, &rules, "Python", &p);
    assert_eq!(state.loop_levels, vec![0, 4]);
    assert_eq!(state.loop_depth, 2);
}

#[test]
fn indentation_counts_bytes() {
    let p = patterns();
    let rules = python_rules(&p);
    let mut state = ScanState::new();
    analyze("\u{3000}\u{3000}for a in b:", 1, &mut state, &rules, "Python", &p);
    assert_eq!(state.nesting_depth, 1);
    assert_eq!(state.loop_levels, vec![6]);
}

#[test]
fn shell_loops_end_with_done() {
    let p = patterns();
    let rules = shell_rules(&p);
    let mut state = ScanState::new();
    analyze("for f in *; do", 1, &mut state, &rules, "Shell", &p);
    analyze("  while read l; do", 2, &mut state, &rules, "Shell", &p);
    assert_eq!(state.loop_depth, 2);
    analyze("  done < list", 3, &mut state, &rules, "Shell", &p);
    assert_eq!(state.loop_depth, 1);
    analyze("done", 4, &mut state, &rules, "Shell", &p);
    assert_eq!(state.loop_depth, 0);
    analyze("for x in 1 2; do echo $x; done", 5, &mut state, &rules, "Shell", &p);
    assert_eq!((state.loop_depth, state.loop_levels.len()), (0, 0));
    analyze("done", 6, &mut state, &rules, "Shell", &p);
    assert_eq!(state.loop_depth, 0);
    analyze("donedone", 7, &mut state, &rules, "Shell", &p);
    assert_eq!(state.loop_depth, 0);
}

#[test]
fn brace_depth_saturates() {
    let p = patterns();
    let rules = go_rules(&p);
    let mut state = ScanState::new();
    analyze("}}}", 1, &mut state, &rules, "Go", &p);
    assert_eq!(state.nesting_depth, 0);
    analyze("} else {{", 2, &mut state, &rules, "Go", &p);
    assert_eq!(state.nesting_depth, 2);
    state.loop_depth = usize::MAX;
    analyze("for x {", 3, &mut state, &rules, "Go", &p);
    assert_eq!(state.loop_depth, usize::MAX);
}

#[test]
fn else_branch_closes_loops_of_the_block() {
    let p = patterns();
    let rules = go_rules(&p);
    let mut state = ScanState::new();
    analyze("if a {", 1, &mut state, &rules, "Go", &p);
    analyze("  for x {", 2, &mut state, &rules, "Go", &p);
    analyze("  for y {", 3, &mut state, &rules, "Go", &p);
    assert_eq!(state.loop_levels, vec![2, 3]);
    analyze("  }}} else {", 4, &mut state, &rules, "Go", &p);
    assert_eq!((state.nesting_depth, state.loop_depth), (1, 0));
}

#[test]
fn declarations_reset_the_loops() {
    let p = patterns();
    let rules = rust_rules(&p);
    let mut state = ScanState::new();
    analyze("while true {", 1, &mut state, &rules, "Rust", &p);
    assert_eq!(state.loop_depth, 1);
    analyze("pub(crate) async fn f() {", 2, &mut state, &rules, "Rust", &p);
    assert_eq!((state.loop_depth, state.current_function.as_str()), (0, "f"));
    assert!(state.loop_levels.is_empty());
}

// Which files are scanned

#[test]
fn every_extension_has_its_language() {
    let table = [
        ("Python", "py pyw"),
        ("Go", "go"),
        ("JavaScript", "js jsx mjs cjs"),
        ("TypeScript", "ts tsx"),
        ("Rust", "rs"),
        ("C", "c h"),
        ("C++", "cpp cc cxx hpp hxx"),
        ("Java", "java"),
        ("C#", "cs"),
        ("Kotlin", "kt kts"),
        ("Scala", "scala"),
        ("Ruby", "rb"),
        ("PHP", "php"),
        ("Shell", "sh bash zsh"),
        ("Config", "json yaml yml toml xml sql"),
        ("Generic", "txt md unknown"),
    ];
    for (language, extensions) in table {
        for e in extensions.split(' ') {
            assert_eq!(language_label(&format!("a.{e}")), Some(language));
            assert_eq!(language_label(&format!("a.b.{}", e.to_uppercase())), Some(language));
        }
    }
}

#[test]
fn names_without_extension() {
    assert_eq!(language_label("Makefile"), Some("Generic"));
    assert_eq!(language_label("dockerFILE"), Some("Config"));
    assert_eq!(language_label("Dockerfile.dev"), Some("Config"));
    assert_eq!(language_label("dockerfile.dev"), Some("Generic"));
    assert_eq!(language_label(".bashrc"), None);
    assert_eq!(language_label(".py"), None);
    assert_eq!(language_label(".eslintrc.js"), Some("JavaScript"));
    assert_eq!(language_label(".a.b"), Some("Generic"));
    assert_eq!(language_label("trailing."), Some("Generic"));
    assert_eq!(language_label(".trailing."), None);
}

#[test]
fn generated_files_have_no_language() {
    for name in ["yarn.lock", "pnpm-lock.yaml", "site.min.css", "a.map", "go.sum", "a.PNG"] {
        assert_eq!(language_label(name), None, "{name}");
    }
    assert_eq!(language_label("Package-lock.json"), Some("Config"));
    assert_eq!(language_label("a.MIN.js"), Some("JavaScript"));
}

#[test]
fn every_excluded_extension() {
    let all = "exe dll so dylib bin o a lib class jar war pyc pyo pyd wasm \
        png jpg jpeg gif bmp ico webp tiff psd raw svg \
        mp3 mp4 wav ogg flac mkv avi mov webm \
        zip tar gz bz2 xz 7z rar iso dmg pkg \
        pdf doc docx ppt pptx xls xlsx \
        woff woff2 ttf eot otf \
        db sqlite sqlite3 parquet arrow avro \
        lock sum map";
    for e in all.split_whitespace() {
        assert!(is_excluded_extension(e), "{e}");
        assert!(is_excluded_extension(&e.to_uppercase()), "{e}");
        assert_eq!(language_label(&format!("x.{e}")), None, "{e}");
    }
    for e in ["", "py", "ex", "exee", "txt"] {
        assert!(!is_excluded_extension(e), "{e}");
    }
}

#[test]
fn binary_probe_covers_the_first_bytes() {
    let mut bytes = vec![b'a'; 600];
    assert!(!is_binary_file(Some(&bytes)));
    bytes[512] = 0;
    assert!(!is_binary_file(Some(&bytes)));
    bytes[511] = 0;
    assert!(is_binary_file(Some(&bytes)));
    assert!(!is_binary_file(Some(&[])));
    assert!(is_binary_file(None));
}

#[test]
fn directories_that_are_ignored() {
    for name in [
        "node_modules", "vendor", "target", "dist", "build", "venv", ".venv", "env", "__pycache__",
        ".git", ".idea", ".vscode", ".anything", "...",
    ] {
        assert!(is_ignored_dir(1, true, name), "{name}");
        assert!(!is_ignored_dir(0, true, name), "{name}");
        assert!(!is_ignored_dir(1, false, name), "{name}");
    }
    for name in [".", "..", "src", "Target", "builds", ""] {
        assert!(!is_ignored_dir(1, true, name), "{name}");
    }
}

#[test]
fn what_is_scannable() {
    let text: Option<&[u8]> = Some(b"x = 1\n");
    assert!(is_scannable(Some(6), text, Some("a.py")));
    assert!(is_scannable(None, text, Some("a.py")));
    assert!(is_scannable(Some(MAX_FILE_SIZE_BYTES), text, Some("a.py")));
    assert!(!is_scannable(Some(MAX_FILE_SIZE_BYTES + 1), text, Some("a.py")));
    assert!(!is_scannable(Some(6), Some(b"x\0"), Some("a.py")));
    assert!(!is_scannable(Some(6), None, Some("a.py")));
    assert!(!is_scannable(Some(6), text, Some("a.png")));
    assert!(!is_scannable(Some(6), text, None));
    assert_eq!(MAX_FILE_SIZE_BYTES, 512 * 1024);
}
