//! The rule tables: which pattern signals which risk in which language.

use crate::pattern::{
    compile_all, first_rejected, lemma_first_rejected_concat, sources, Pattern, PatternError,
};
use crate::sources::{
    CONFIG_BLOCKING, CONFIG_BRANCH, CONFIG_SECRET, C_ALLOC, C_BLOCKING_IO, C_BRANCH, C_FOR_WHILE,
    C_FUNC, C_MUTEX, C_RECURSIVE, GENERIC_ALLOC, GENERIC_BLOCKING, GENERIC_BRANCH, GENERIC_FUNC,
    GENERIC_LOOP, GENERIC_MUTEX, GENERIC_RECURSIVE, GO_ALLOC, GO_BLOCKING_IO, GO_BRANCH, GO_FOR,
    GO_FUNC, GO_MUTEX, GO_RECURSIVE, JAVA_ALLOC, JAVA_BLOCKING_IO, JAVA_BRANCH, JAVA_FOR_WHILE,
    JAVA_FUNC, JAVA_MUTEX, JAVA_RECURSIVE, JS_ALLOC, JS_BLOCKING_IO, JS_BRANCH, JS_FOR_WHILE,
    JS_FUNC, JS_MUTEX, JS_RECURSIVE, PY_ALLOC, PY_BLOCKING_IO, PY_BRANCH, PY_FOR_WHILE, PY_FUNC,
    PY_MUTEX, PY_RECURSIVE, RUST_ALLOC, RUST_BLOCKING_IO, RUST_BRANCH, RUST_FOR_WHILE, RUST_FUNC,
    RUST_MUTEX, RUST_RECURSIVE, SH_BLOCKING_IO, SH_BRANCH, SH_FUNC, SH_LOOP,
};
use crate::text::{same_text, texts};
use vstd::prelude::*;

verus! {

/// The kind of risk that a hotspot stands for.
#[derive(Debug, Clone, Copy, PartialEq, Eq, Structural)]
pub enum VulnerabilityType {
    /// Nested loops (`O(n^k)` risk).
    DeepNesting,
    /// Recursion of a function into itself.
    RecursiveCall,
    /// Heap allocation on a hot path.
    HotAllocation,
    /// Blocking input or output on the critical path.
    BlockingIO,
    /// Branches and boolean operators.
    CognitiveBranch,
    /// Synchronisation that threads may contend for.
    SyncContention,
}

impl VulnerabilityType {
    /// The name of the variant.
    pub open spec fn name(self) -> Seq<char> {
        match self {
            VulnerabilityType::DeepNesting => "DeepNesting"@,
            VulnerabilityType::RecursiveCall => "RecursiveCall"@,
            VulnerabilityType::HotAllocation => "HotAllocation"@,
            VulnerabilityType::BlockingIO => "BlockingIO"@,
            VulnerabilityType::CognitiveBranch => "CognitiveBranch"@,
            VulnerabilityType::SyncContention => "SyncContention"@,
        }
    }

    /// The name of the variant, as it is shown to the user.
    pub fn to_string(&self) -> (s: String)
        ensures
            s@ == self.name(),
    {
        let name = match self {
            VulnerabilityType::DeepNesting => "DeepNesting",
            VulnerabilityType::RecursiveCall => "RecursiveCall",
            VulnerabilityType::HotAllocation => "HotAllocation",
            VulnerabilityType::BlockingIO => "BlockingIO",
            VulnerabilityType::CognitiveBranch => "CognitiveBranch",
            VulnerabilityType::SyncContention => "SyncContention",
        };
        name.to_owned()
    }
}

/// One rule: a line that matches `regex` is a hotspot.
pub struct PatternRule<'a> {
    pub regex: &'a Pattern,
    pub vulnerability: VulnerabilityType,
    /// What a match outside every loop contributes, in hundredths of a point.
    pub base_score: u64,
    pub description_tmpl: &'static str,
}

/// What a rule says.
pub struct RuleView {
    pub pattern: Seq<char>,
    pub vulnerability: VulnerabilityType,
    pub base_score: nat,
    pub description: Seq<char>,
}

pub open spec fn rule_view(
    pattern: Seq<char>,
    vulnerability: VulnerabilityType,
    base_score: nat,
    description: Seq<char>,
) -> RuleView {
    RuleView { pattern, vulnerability, base_score, description }
}

impl<'a> View for PatternRule<'a> {
    type V = RuleView;

    open spec fn view(&self) -> RuleView {
        rule_view(
            self.regex@,
            self.vulnerability,
            self.base_score as nat,
            self.description_tmpl@,
        )
    }
}

/// What a list of rules says.
pub open spec fn rule_views(rules: Seq<PatternRule<'_>>) -> Seq<RuleView> {
    rules.map_values(|r: PatternRule<'_>| r@)
}

/// The patterns for one family of languages.
struct FamilyPatterns {
    looping: Pattern,
    recursive: Pattern,
    alloc: Pattern,
    blocking_io: Pattern,
    branch: Pattern,
    mutex: Pattern,
    func: Pattern,
}

impl FamilyPatterns {
    spec fn texts(&self) -> Seq<Seq<char>> {
        seq![
            self.looping@,
            self.recursive@,
            self.alloc@,
            self.blocking_io@,
            self.branch@,
            self.mutex@,
            self.func@,
        ]
    }
}

/// The patterns for shell scripts.
struct ShellPatterns {
    looping: Pattern,
    blocking_io: Pattern,
    branch: Pattern,
    func: Pattern,
}

impl ShellPatterns {
    spec fn texts(&self) -> Seq<Seq<char>> {
        seq![self.looping@, self.blocking_io@, self.branch@, self.func@]
    }
}

/// The patterns for configuration and data files.
struct ConfigPatterns {
    secret: Pattern,
    blocking: Pattern,
    branch: Pattern,
}

impl ConfigPatterns {
    spec fn texts(&self) -> Seq<Seq<char>> {
        seq![self.secret@, self.blocking@, self.branch@]
    }
}

/// Every pattern of the rule tables, compiled.
pub struct Patterns {
    python: FamilyPatterns,
    go: FamilyPatterns,
    js_ts: FamilyPatterns,
    rust: FamilyPatterns,
    c_cpp: FamilyPatterns,
    java_csharp: FamilyPatterns,
    shell: ShellPatterns,
    config: ConfigPatterns,
    generic: FamilyPatterns,
}

proof fn lemma_family_texts(f: FamilyPatterns, t: Seq<Seq<char>>)
    requires
        f.texts() == t,
    ensures
        f.looping@ == t[0],
        f.recursive@ == t[1],
        f.alloc@ == t[2],
        f.blocking_io@ == t[3],
        f.branch@ == t[4],
        f.mutex@ == t[5],
        f.func@ == t[6],
{
}

proof fn lemma_shell_texts(f: ShellPatterns, t: Seq<Seq<char>>)
    requires
        f.texts() == t,
    ensures
        f.looping@ == t[0],
        f.blocking_io@ == t[1],
        f.branch@ == t[2],
        f.func@ == t[3],
{
}

proof fn lemma_config_texts(f: ConfigPatterns, t: Seq<Seq<char>>)
    requires
        f.texts() == t,
    ensures
        f.secret@ == t[0],
        f.blocking@ == t[1],
        f.branch@ == t[2],
{
}

fn compile_family(
    looping: &str,
    recursive: &str,
    alloc: &str,
    blocking_io: &str,
    branch: &str,
    mutex: &str,
    func: &str,
) -> (r: Result<FamilyPatterns, PatternError>)
    ensures
        ({
            let list = seq![looping@, recursive@, alloc@, blocking_io@, branch@, mutex@, func@];
            match r {
                Ok(f) => first_rejected(list) is None && f.texts() == list,
                Err(e) => first_rejected(list) == Some(e.pattern@),
            }
        }),
{
    let list = vec![looping, recursive, alloc, blocking_io, branch, mutex, func];
    let ghost t = seq![looping@, recursive@, alloc@, blocking_io@, branch@, mutex@, func@];
    assert(texts(list@) == t);
    match compile_all(&list) {
        Ok(v) => {
            let mut v = v;
            proof {
                let s = sources(v@);
                assert(s[0] == t[0] && s[1] == t[1] && s[2] == t[2] && s[3] == t[3]);
                assert(s[4] == t[4] && s[5] == t[5] && s[6] == t[6]);
            }
            let func = v.pop().unwrap();
            let mutex = v.pop().unwrap();
            let branch = v.pop().unwrap();
            let blocking_io = v.pop().unwrap();
            let alloc = v.pop().unwrap();
            let recursive = v.pop().unwrap();
            let looping = v.pop().unwrap();
            Ok(FamilyPatterns { looping, recursive, alloc, blocking_io, branch, mutex, func })
        },
        Err(e) => Err(e),
    }
}

fn compile_shell(looping: &str, blocking_io: &str, branch: &str, func: &str) -> (r: Result<
    ShellPatterns,
    PatternError,
>)
    ensures
        ({
            let list = seq![looping@, blocking_io@, branch@, func@];
            match r {
                Ok(f) => first_rejected(list) is None && f.texts() == list,
                Err(e) => first_rejected(list) == Some(e.pattern@),
            }
        }),
{
    let list = vec![looping, blocking_io, branch, func];
    let ghost t = seq![looping@, blocking_io@, branch@, func@];
    assert(texts(list@) == t);
    match compile_all(&list) {
        Ok(v) => {
            let mut v = v;
            proof {
                let s = sources(v@);
                assert(s[0] == t[0] && s[1] == t[1] && s[2] == t[2] && s[3] == t[3]);
            }
            let func = v.pop().unwrap();
            let branch = v.pop().unwrap();
            let blocking_io = v.pop().unwrap();
            let looping = v.pop().unwrap();
            Ok(ShellPatterns { looping, blocking_io, branch, func })
        },
        Err(e) => Err(e),
    }
}

fn compile_config(secret: &str, blocking: &str, branch: &str) -> (r: Result<
    ConfigPatterns,
    PatternError,
>)
    ensures
        ({
            let list = seq![secret@, blocking@, branch@];
            match r {
                Ok(f) => first_rejected(list) is None && f.texts() == list,
                Err(e) => first_rejected(list) == Some(e.pattern@),
            }
        }),
{
    let list = vec![secret, blocking, branch];
    let ghost t = seq![secret@, blocking@, branch@];
    assert(texts(list@) == t);
    match compile_all(&list) {
        Ok(v) => {
            let mut v = v;
            proof {
                let s = sources(v@);
                assert(s[0] == t[0] && s[1] == t[1] && s[2] == t[2]);
            }
            let branch = v.pop().unwrap();
            let blocking = v.pop().unwrap();
            let secret = v.pop().unwrap();
            Ok(ConfigPatterns { secret, blocking, branch })
        },
        Err(e) => Err(e),
    }
}

// The patterns of each table, in the order in which they are compiled.

/// The patterns for Python.
pub open spec fn python_sources() -> Seq<Seq<char>> {
    seq![
        PY_FOR_WHILE@,
        PY_RECURSIVE@,
        PY_ALLOC@,
        PY_BLOCKING_IO@,
        PY_BRANCH@,
        PY_MUTEX@,
        PY_FUNC@,
    ]
}

/// The patterns for Go.
pub open spec fn go_sources() -> Seq<Seq<char>> {
    seq![
        GO_FOR@,
        GO_RECURSIVE@,
        GO_ALLOC@,
        GO_BLOCKING_IO@,
        GO_BRANCH@,
        GO_MUTEX@,
        GO_FUNC@,
    ]
}

/// The patterns for JavaScript and TypeScript.
pub open spec fn js_ts_sources() -> Seq<Seq<char>> {
    seq![
        JS_FOR_WHILE@,
        JS_RECURSIVE@,
        JS_ALLOC@,
        JS_BLOCKING_IO@,
        JS_BRANCH@,
        JS_MUTEX@,
        JS_FUNC@,
    ]
}

/// The patterns for Rust.
pub open spec fn rust_sources() -> Seq<Seq<char>> {
    seq![
        RUST_FOR_WHILE@,
        RUST_RECURSIVE@,
        RUST_ALLOC@,
        RUST_BLOCKING_IO@,
        RUST_BRANCH@,
        RUST_MUTEX@,
        RUST_FUNC@,
    ]
}

/// The patterns for C and C++.
pub open spec fn c_cpp_sources() -> Seq<Seq<char>> {
    seq![
        C_FOR_WHILE@,
        C_RECURSIVE@,
        C_ALLOC@,
        C_BLOCKING_IO@,
        C_BRANCH@,
        C_MUTEX@,
        C_FUNC@,
    ]
}

/// The patterns for Java, C#, Kotlin and Scala.
pub open spec fn java_csharp_sources() -> Seq<Seq<char>> {
    seq![
        JAVA_FOR_WHILE@,
        JAVA_RECURSIVE@,
        JAVA_ALLOC@,
        JAVA_BLOCKING_IO@,
        JAVA_BRANCH@,
        JAVA_MUTEX@,
        JAVA_FUNC@,
    ]
}

/// The patterns for shell scripts.
pub open spec fn shell_sources() -> Seq<Seq<char>> {
    seq![
        SH_LOOP@,
        SH_BLOCKING_IO@,
        SH_BRANCH@,
        SH_FUNC@,
    ]
}

/// The patterns for configuration and data files.
pub open spec fn config_sources() -> Seq<Seq<char>> {
    seq![
        CONFIG_SECRET@,
        CONFIG_BLOCKING@,
        CONFIG_BRANCH@,
    ]
}

/// The patterns for every other text file.
pub open spec fn generic_sources() -> Seq<Seq<char>> {
    seq![
        GENERIC_LOOP@,
        GENERIC_RECURSIVE@,
        GENERIC_ALLOC@,
        GENERIC_BLOCKING@,
        GENERIC_BRANCH@,
        GENERIC_MUTEX@,
        GENERIC_FUNC@,
    ]
}

/// Every pattern, in the order in which they are compiled.
pub open spec fn all_sources() -> Seq<Seq<char>> {
    python_sources() + go_sources() + js_ts_sources() + rust_sources() + c_cpp_sources()
        + java_csharp_sources() + shell_sources() + config_sources() + generic_sources()
}

impl Patterns {
    #[verifier::type_invariant]
    spec fn compiled_from_sources(&self) -> bool {
        &&& self.python.texts() == python_sources()
        &&& self.go.texts() == go_sources()
        &&& self.js_ts.texts() == js_ts_sources()
        &&& self.rust.texts() == rust_sources()
        &&& self.c_cpp.texts() == c_cpp_sources()
        &&& self.java_csharp.texts() == java_csharp_sources()
        &&& self.shell.texts() == shell_sources()
        &&& self.config.texts() == config_sources()
        &&& self.generic.texts() == generic_sources()
    }

    /// Compiles every pattern, up to the first that is rejected.
    pub fn compile() -> (r: Result<Patterns, PatternError>)
        ensures
            match r {
                Ok(_) => first_rejected(all_sources()) is None,
                Err(e) => first_rejected(all_sources()) == Some(e.pattern@),
            },
    {
        proof {
            lemma_first_rejected_concat(python_sources(), go_sources());
            let s1 = python_sources() + go_sources();
            lemma_first_rejected_concat(s1, js_ts_sources());
            let s2 = s1 + js_ts_sources();
            lemma_first_rejected_concat(s2, rust_sources());
            let s3 = s2 + rust_sources();
            lemma_first_rejected_concat(s3, c_cpp_sources());
            let s4 = s3 + c_cpp_sources();
            lemma_first_rejected_concat(s4, java_csharp_sources());
            let s5 = s4 + java_csharp_sources();
            lemma_first_rejected_concat(s5, shell_sources());
            let s6 = s5 + shell_sources();
            lemma_first_rejected_concat(s6, config_sources());
            let s7 = s6 + config_sources();
            lemma_first_rejected_concat(s7, generic_sources());
        }
        let python = match compile_family(
            PY_FOR_WHILE,
            PY_RECURSIVE,
            PY_ALLOC,
            PY_BLOCKING_IO,
            PY_BRANCH,
            PY_MUTEX,
            PY_FUNC,
        ) {
            Ok(p) => p,
            Err(e) => {
                return Err(e);
            },
        };
        let go = match compile_family(
            GO_FOR,
            GO_RECURSIVE,
            GO_ALLOC,
            GO_BLOCKING_IO,
            GO_BRANCH,
            GO_MUTEX,
            GO_FUNC,
        ) {
            Ok(p) => p,
            Err(e) => {
                return Err(e);
            },
        };
        let js_ts = match compile_family(
            JS_FOR_WHILE,
            JS_RECURSIVE,
            JS_ALLOC,
            JS_BLOCKING_IO,
            JS_BRANCH,
            JS_MUTEX,
            JS_FUNC,
        ) {
            Ok(p) => p,
            Err(e) => {
                return Err(e);
            },
        };
        let rust = match compile_family(
            RUST_FOR_WHILE,
            RUST_RECURSIVE,
            RUST_ALLOC,
            RUST_BLOCKING_IO,
            RUST_BRANCH,
            RUST_MUTEX,
            RUST_FUNC,
        ) {
            Ok(p) => p,
            Err(e) => {
                return Err(e);
            },
        };
        let c_cpp = match compile_family(
            C_FOR_WHILE,
            C_RECURSIVE,
            C_ALLOC,
            C_BLOCKING_IO,
            C_BRANCH,
            C_MUTEX,
            C_FUNC,
        ) {
            Ok(p) => p,
            Err(e) => {
                return Err(e);
            },
        };
        let java_csharp = match compile_family(
            JAVA_FOR_WHILE,
            JAVA_RECURSIVE,
            JAVA_ALLOC,
            JAVA_BLOCKING_IO,
            JAVA_BRANCH,
            JAVA_MUTEX,
            JAVA_FUNC,
        ) {
            Ok(p) => p,
            Err(e) => {
                return Err(e);
            },
        };
        let shell = match compile_shell(
            SH_LOOP,
            SH_BLOCKING_IO,
            SH_BRANCH,
            SH_FUNC,
        ) {
            Ok(p) => p,
            Err(e) => {
                return Err(e);
            },
        };
        let config = match compile_config(
            CONFIG_SECRET,
            CONFIG_BLOCKING,
            CONFIG_BRANCH,
        ) {
            Ok(p) => p,
            Err(e) => {
                return Err(e);
            },
        };
        let generic = match compile_family(
            GENERIC_LOOP,
            GENERIC_RECURSIVE,
            GENERIC_ALLOC,
            GENERIC_BLOCKING,
            GENERIC_BRANCH,
            GENERIC_MUTEX,
            GENERIC_FUNC,
        ) {
            Ok(p) => p,
            Err(e) => {
                return Err(e);
            },
        };
        Ok(
            Patterns {
                python,
                go,
                js_ts,
                rust,
                c_cpp,
                java_csharp,
                shell,
                config,
                generic,
            },
        )
    }
}

/// The rules for Python.
pub open spec fn python_rule_table() -> Seq<RuleView> {
    seq![
        rule_view(
            PY_FOR_WHILE@,
            VulnerabilityType::DeepNesting,
            1500,
            "Loop construct detected - nesting depth multiplier applied"@,
        ),
        rule_view(
            PY_RECURSIVE@,
            VulnerabilityType::RecursiveCall,
            2000,
            "Possible recursive invocation - stack-depth risk"@,
        ),
        rule_view(
            PY_ALLOC@,
            VulnerabilityType::HotAllocation,
            1200,
            "Heap allocation inside potentially hot path"@,
        ),
        rule_view(
            PY_BLOCKING_IO@,
            VulnerabilityType::BlockingIO,
            1800,
            "Blocking I/O call on critical path - latency spike risk"@,
        ),
        rule_view(
            PY_BRANCH@,
            VulnerabilityType::CognitiveBranch,
            500,
            "Branch/boolean operator increases cyclomatic complexity"@,
        ),
        rule_view(
            PY_MUTEX@,
            VulnerabilityType::SyncContention,
            2200,
            "Synchronisation primitive - potential lock contention hotspot"@,
        ),
    ]
}

/// The rules for Python.
pub fn python_rules(patterns: &Patterns) -> (rules: Vec<PatternRule<'_>>)
    ensures
        rule_views(rules@) == python_rule_table(),
{
    proof {
        use_type_invariant(patterns);
        lemma_family_texts(patterns.python, python_sources());
    }
    let rules = vec![
        PatternRule {
            regex: &patterns.python.looping,
            vulnerability: VulnerabilityType::DeepNesting,
            base_score: 1500,
            description_tmpl: "Loop construct detected - nesting depth multiplier applied",
        },
        PatternRule {
            regex: &patterns.python.recursive,
            vulnerability: VulnerabilityType::RecursiveCall,
            base_score: 2000,
            description_tmpl: "Possible recursive invocation - stack-depth risk",
        },
        PatternRule {
            regex: &patterns.python.alloc,
            vulnerability: VulnerabilityType::HotAllocation,
            base_score: 1200,
            description_tmpl: "Heap allocation inside potentially hot path",
        },
        PatternRule {
            regex: &patterns.python.blocking_io,
            vulnerability: VulnerabilityType::BlockingIO,
            base_score: 1800,
            description_tmpl: "Blocking I/O call on critical path - latency spike risk",
        },
        PatternRule {
            regex: &patterns.python.branch,
            vulnerability: VulnerabilityType::CognitiveBranch,
            base_score: 500,
            description_tmpl: "Branch/boolean operator increases cyclomatic complexity",
        },
        PatternRule {
            regex: &patterns.python.mutex,
            vulnerability: VulnerabilityType::SyncContention,
            base_score: 2200,
            description_tmpl: "Synchronisation primitive - potential lock contention hotspot",
        },
    ];
    assert(rule_views(rules@) == python_rule_table());
    rules
}

/// The rules for Go.
pub open spec fn go_rule_table() -> Seq<RuleView> {
    seq![
        rule_view(
            GO_FOR@,
            VulnerabilityType::DeepNesting,
            1500,
            "Go for-loop - nesting depth multiplier applied"@,
        ),
        rule_view(
            GO_RECURSIVE@,
            VulnerabilityType::RecursiveCall,
            2000,
            "Exported function call - checked for self-recursion"@,
        ),
        rule_view(
            GO_ALLOC@,
            VulnerabilityType::HotAllocation,
            1200,
            "make/new/slice-literal allocation in hot path"@,
        ),
        rule_view(
            GO_BLOCKING_IO@,
            VulnerabilityType::BlockingIO,
            1800,
            "Blocking stdlib I/O call - goroutine contention risk"@,
        ),
        rule_view(
            GO_BRANCH@,
            VulnerabilityType::CognitiveBranch,
            500,
            "Branch/boolean expression increases cyclomatic complexity"@,
        ),
        rule_view(
            GO_MUTEX@,
            VulnerabilityType::SyncContention,
            2200,
            "sync.Mutex/atomic - potential throughput bottleneck"@,
        ),
    ]
}

/// The rules for Go.
pub fn go_rules(patterns: &Patterns) -> (rules: Vec<PatternRule<'_>>)
    ensures
        rule_views(rules@) == go_rule_table(),
{
    proof {
        use_type_invariant(patterns);
        lemma_family_texts(patterns.go, go_sources());
    }
    let rules = vec![
        PatternRule {
            regex: &patterns.go.looping,
            vulnerability: VulnerabilityType::DeepNesting,
            base_score: 1500,
            description_tmpl: "Go for-loop - nesting depth multiplier applied",
        },
        PatternRule {
            regex: &patterns.go.recursive,
            vulnerability: VulnerabilityType::RecursiveCall,
            base_score: 2000,
            description_tmpl: "Exported function call - checked for self-recursion",
        },
        PatternRule {
            regex: &patterns.go.alloc,
            vulnerability: VulnerabilityType::HotAllocation,
            base_score: 1200,
            description_tmpl: "make/new/slice-literal allocation in hot path",
        },
        PatternRule {
            regex: &patterns.go.blocking_io,
            vulnerability: VulnerabilityType::BlockingIO,
            base_score: 1800,
            description_tmpl: "Blocking stdlib I/O call - goroutine contention risk",
        },
        PatternRule {
            regex: &patterns.go.branch,
            vulnerability: VulnerabilityType::CognitiveBranch,
            base_score: 500,
            description_tmpl: "Branch/boolean expression increases cyclomatic complexity",
        },
        PatternRule {
            regex: &patterns.go.mutex,
            vulnerability: VulnerabilityType::SyncContention,
            base_score: 2200,
            description_tmpl: "sync.Mutex/atomic - potential throughput bottleneck",
        },
    ];
    assert(rule_views(rules@) == go_rule_table());
    rules
}

/// The rules for JavaScript and TypeScript.
pub open spec fn js_ts_rule_table() -> Seq<RuleView> {
    seq![
        rule_view(
            JS_FOR_WHILE@,
            VulnerabilityType::DeepNesting,
            1500,
            "JavaScript/TypeScript loop or iterator in hot path"@,
        ),
        rule_view(
            JS_RECURSIVE@,
            VulnerabilityType::RecursiveCall,
            2000,
            "Recursive call detected - call stack exhaustion risk"@,
        ),
        rule_view(
            JS_ALLOC@,
            VulnerabilityType::HotAllocation,
            1200,
            "Heap allocation inside loop or frequent execution path"@,
        ),
        rule_view(
            JS_BLOCKING_IO@,
            VulnerabilityType::BlockingIO,
            2200,
            "Synchronous blocking I/O freezes the Node event loop"@,
        ),
        rule_view(
            JS_BRANCH@,
            VulnerabilityType::CognitiveBranch,
            500,
            "Branching statement increases cyclomatic complexity"@,
        ),
        rule_view(
            JS_MUTEX@,
            VulnerabilityType::SyncContention,
            1800,
            "Synchronization primitive / shared array contention"@,
        ),
    ]
}

/// The rules for JavaScript and TypeScript.
pub fn js_ts_rules(patterns: &Patterns) -> (rules: Vec<PatternRule<'_>>)
    ensures
        rule_views(rules@) == js_ts_rule_table(),
{
    proof {
        use_type_invariant(patterns);
        lemma_family_texts(patterns.js_ts, js_ts_sources());
    }
    let rules = vec![
        PatternRule {
            regex: &patterns.js_ts.looping,
            vulnerability: VulnerabilityType::DeepNesting,
            base_score: 1500,
            description_tmpl: "JavaScript/TypeScript loop or iterator in hot path",
        },
        PatternRule {
            regex: &patterns.js_ts.recursive,
            vulnerability: VulnerabilityType::RecursiveCall,
            base_score: 2000,
            description_tmpl: "Recursive call detected - call stack exhaustion risk",
        },
        PatternRule {
            regex: &patterns.js_ts.alloc,
            vulnerability: VulnerabilityType::HotAllocation,
            base_score: 1200,
            description_tmpl: "Heap allocation inside loop or frequent execution path",
        },
        PatternRule {
            regex: &patterns.js_ts.blocking_io,
            vulnerability: VulnerabilityType::BlockingIO,
            base_score: 2200,
            description_tmpl: "Synchronous blocking I/O freezes the Node event loop",
        },
        PatternRule {
            regex: &patterns.js_ts.branch,
            vulnerability: VulnerabilityType::CognitiveBranch,
            base_score: 500,
            description_tmpl: "Branching statement increases cyclomatic complexity",
        },
        PatternRule {
            regex: &patterns.js_ts.mutex,
            vulnerability: VulnerabilityType::SyncContention,
            base_score: 1800,
            description_tmpl: "Synchronization primitive / shared array contention",
        },
    ];
    assert(rule_views(rules@) == js_ts_rule_table());
    rules
}

/// The rules for Rust.
pub open spec fn rust_rule_table() -> Seq<RuleView> {
    seq![
        rule_view(
            RUST_FOR_WHILE@,
            VulnerabilityType::DeepNesting,
            1500,
            "Rust loop construct - nesting depth multiplier applied"@,
        ),
        rule_view(
            RUST_RECURSIVE@,
            VulnerabilityType::RecursiveCall,
            2000,
            "Self-recursion detected - stack depth overhead risk"@,
        ),
        rule_view(
            RUST_ALLOC@,
            VulnerabilityType::HotAllocation,
            1200,
            "Heap vector or Box allocation on critical path"@,
        ),
        rule_view(
            RUST_BLOCKING_IO@,
            VulnerabilityType::BlockingIO,
            1800,
            "Blocking I/O or sleep in async/worker context"@,
        ),
        rule_view(
            RUST_BRANCH@,
            VulnerabilityType::CognitiveBranch,
            500,
            "Pattern match / branching adds cyclomatic branches"@,
        ),
        rule_view(
            RUST_MUTEX@,
            VulnerabilityType::SyncContention,
            2200,
            "Mutex / RwLock lock acquisition contention hotspot"@,
        ),
    ]
}

/// The rules for Rust.
pub fn rust_rules(patterns: &Patterns) -> (rules: Vec<PatternRule<'_>>)
    ensures
        rule_views(rules@) == rust_rule_table(),
{
    proof {
        use_type_invariant(patterns);
        lemma_family_texts(patterns.rust, rust_sources());
    }
    let rules = vec![
        PatternRule {
            regex: &patterns.rust.looping,
            vulnerability: VulnerabilityType::DeepNesting,
            base_score: 1500,
            description_tmpl: "Rust loop construct - nesting depth multiplier applied",
        },
        PatternRule {
            regex: &patterns.rust.recursive,
            vulnerability: VulnerabilityType::RecursiveCall,
            base_score: 2000,
            description_tmpl: "Self-recursion detected - stack depth overhead risk",
        },
        PatternRule {
            regex: &patterns.rust.alloc,
            vulnerability: VulnerabilityType::HotAllocation,
            base_score: 1200,
            description_tmpl: "Heap vector or Box allocation on critical path",
        },
        PatternRule {
            regex: &patterns.rust.blocking_io,
            vulnerability: VulnerabilityType::BlockingIO,
            base_score: 1800,
            description_tmpl: "Blocking I/O or sleep in async/worker context",
        },
        PatternRule {
            regex: &patterns.rust.branch,
            vulnerability: VulnerabilityType::CognitiveBranch,
            base_score: 500,
            description_tmpl: "Pattern match / branching adds cyclomatic branches",
        },
        PatternRule {
            regex: &patterns.rust.mutex,
            vulnerability: VulnerabilityType::SyncContention,
            base_score: 2200,
            description_tmpl: "Mutex / RwLock lock acquisition contention hotspot",
        },
    ];
    assert(rule_views(rules@) == rust_rule_table());
    rules
}

/// The rules for C and C++.
pub open spec fn c_cpp_rule_table() -> Seq<RuleView> {
    seq![
        rule_view(
            C_FOR_WHILE@,
            VulnerabilityType::DeepNesting,
            1500,
            "C/C++ loop construct - nesting multiplier applied"@,
        ),
        rule_view(
            C_RECURSIVE@,
            VulnerabilityType::RecursiveCall,
            2000,
            "Function call checked for recursion"@,
        ),
        rule_view(
            C_ALLOC@,
            VulnerabilityType::HotAllocation,
            1400,
            "Dynamic memory allocation (malloc/new) inside hot path"@,
        ),
        rule_view(
            C_BLOCKING_IO@,
            VulnerabilityType::BlockingIO,
            1800,
            "Blocking POSIX/C-runtime I/O operation"@,
        ),
        rule_view(
            C_BRANCH@,
            VulnerabilityType::CognitiveBranch,
            500,
            "Conditional branch / switch increases cyclomatic entropy"@,
        ),
        rule_view(
            C_MUTEX@,
            VulnerabilityType::SyncContention,
            2200,
            "POSIX/std::mutex synchronization primitive contention"@,
        ),
    ]
}

/// The rules for C and C++.
pub fn c_cpp_rules(patterns: &Patterns) -> (rules: Vec<PatternRule<'_>>)
    ensures
        rule_views(rules@) == c_cpp_rule_table(),
{
    proof {
        use_type_invariant(patterns);
        lemma_family_texts(patterns.c_cpp, c_cpp_sources());
    }
    let rules = vec![
        PatternRule {
            regex: &patterns.c_cpp.looping,
            vulnerability: VulnerabilityType::DeepNesting,
            base_score: 1500,
            description_tmpl: "C/C++ loop construct - nesting multiplier applied",
        },
        PatternRule {
            regex: &patterns.c_cpp.recursive,
            vulnerability: VulnerabilityType::RecursiveCall,
            base_score: 2000,
            description_tmpl: "Function call checked for recursion",
        },
        PatternRule {
            regex: &patterns.c_cpp.alloc,
            vulnerability: VulnerabilityType::HotAllocation,
            base_score: 1400,
            description_tmpl: "Dynamic memory allocation (malloc/new) inside hot path",
        },
        PatternRule {
            regex: &patterns.c_cpp.blocking_io,
            vulnerability: VulnerabilityType::BlockingIO,
            base_score: 1800,
            description_tmpl: "Blocking POSIX/C-runtime I/O operation",
        },
        PatternRule {
            regex: &patterns.c_cpp.branch,
            vulnerability: VulnerabilityType::CognitiveBranch,
            base_score: 500,
            description_tmpl: "Conditional branch / switch increases cyclomatic entropy",
        },
        PatternRule {
            regex: &patterns.c_cpp.mutex,
            vulnerability: VulnerabilityType::SyncContention,
            base_score: 2200,
            description_tmpl: "POSIX/std::mutex synchronization primitive contention",
        },
    ];
    assert(rule_views(rules@) == c_cpp_rule_table());
    rules
}

/// The rules for Java, C#, Kotlin and Scala.
pub open spec fn java_csharp_rule_table() -> Seq<RuleView> {
    seq![
        rule_view(
            JAVA_FOR_WHILE@,
            VulnerabilityType::DeepNesting,
            1500,
            "Loop construct - nesting depth multiplier applied"@,
        ),
        rule_view(
            JAVA_RECURSIVE@,
            VulnerabilityType::RecursiveCall,
            2000,
            "Method call checked for recursive depth"@,
        ),
        rule_view(
            JAVA_ALLOC@,
            VulnerabilityType::HotAllocation,
            1200,
            "Object / collection instantiation in loop path"@,
        ),
        rule_view(
            JAVA_BLOCKING_IO@,
            VulnerabilityType::BlockingIO,
            1800,
            "Blocking stream or thread sleep operation"@,
        ),
        rule_view(
            JAVA_BRANCH@,
            VulnerabilityType::CognitiveBranch,
            500,
            "Branch / exception block increases cognitive complexity"@,
        ),
        rule_view(
            JAVA_MUTEX@,
            VulnerabilityType::SyncContention,
            2200,
            "Synchronized block or lock primitive contention"@,
        ),
    ]
}

/// The rules for Java, C#, Kotlin and Scala.
pub fn java_csharp_rules(patterns: &Patterns) -> (rules: Vec<PatternRule<'_>>)
    ensures
        rule_views(rules@) == java_csharp_rule_table(),
{
    proof {
        use_type_invariant(patterns);
        lemma_family_texts(patterns.java_csharp, java_csharp_sources());
    }
    let rules = vec![
        PatternRule {
            regex: &patterns.java_csharp.looping,
            vulnerability: VulnerabilityType::DeepNesting,
            base_score: 1500,
            description_tmpl: "Loop construct - nesting depth multiplier applied",
        },
        PatternRule {
            regex: &patterns.java_csharp.recursive,
            vulnerability: VulnerabilityType::RecursiveCall,
            base_score: 2000,
            description_tmpl: "Method call checked for recursive depth",
        },
        PatternRule {
            regex: &patterns.java_csharp.alloc,
            vulnerability: VulnerabilityType::HotAllocation,
            base_score: 1200,
            description_tmpl: "Object / collection instantiation in loop path",
        },
        PatternRule {
            regex: &patterns.java_csharp.blocking_io,
            vulnerability: VulnerabilityType::BlockingIO,
            base_score: 1800,
            description_tmpl: "Blocking stream or thread sleep operation",
        },
        PatternRule {
            regex: &patterns.java_csharp.branch,
            vulnerability: VulnerabilityType::CognitiveBranch,
            base_score: 500,
            description_tmpl: "Branch / exception block increases cognitive complexity",
        },
        PatternRule {
            regex: &patterns.java_csharp.mutex,
            vulnerability: VulnerabilityType::SyncContention,
            base_score: 2200,
            description_tmpl: "Synchronized block or lock primitive contention",
        },
    ];
    assert(rule_views(rules@) == java_csharp_rule_table());
    rules
}

/// The rules for shell scripts.
pub open spec fn shell_rule_table() -> Seq<RuleView> {
    seq![
        rule_view(
            SH_LOOP@,
            VulnerabilityType::DeepNesting,
            1500,
            "Shell loop detected"@,
        ),
        rule_view(
            SH_BLOCKING_IO@,
            VulnerabilityType::BlockingIO,
            2000,
            "Subprocess network or sleep call in shell script"@,
        ),
        rule_view(
            SH_BRANCH@,
            VulnerabilityType::CognitiveBranch,
            500,
            "Shell condition / branch logic"@,
        ),
    ]
}

/// The rules for shell scripts.
pub fn shell_rules(patterns: &Patterns) -> (rules: Vec<PatternRule<'_>>)
    ensures
        rule_views(rules@) == shell_rule_table(),
{
    proof {
        use_type_invariant(patterns);
        lemma_shell_texts(patterns.shell, shell_sources());
    }
    let rules = vec![
        PatternRule {
            regex: &patterns.shell.looping,
            vulnerability: VulnerabilityType::DeepNesting,
            base_score: 1500,
            description_tmpl: "Shell loop detected",
        },
        PatternRule {
            regex: &patterns.shell.blocking_io,
            vulnerability: VulnerabilityType::BlockingIO,
            base_score: 2000,
            description_tmpl: "Subprocess network or sleep call in shell script",
        },
        PatternRule {
            regex: &patterns.shell.branch,
            vulnerability: VulnerabilityType::CognitiveBranch,
            base_score: 500,
            description_tmpl: "Shell condition / branch logic",
        },
    ];
    assert(rule_views(rules@) == shell_rule_table());
    rules
}

/// The rules for configuration and data files.
pub open spec fn config_rule_table() -> Seq<RuleView> {
    seq![
        rule_view(
            CONFIG_SECRET@,
            VulnerabilityType::SyncContention,
            2500,
            "Sensitive credential or unrotated secret in config file"@,
        ),
        rule_view(
            CONFIG_BLOCKING@,
            VulnerabilityType::BlockingIO,
            1500,
            "Unbounded timeout or excessive connection limit in config"@,
        ),
        rule_view(
            CONFIG_BRANCH@,
            VulnerabilityType::CognitiveBranch,
            500,
            "Complex conditional rule or assertion in config file"@,
        ),
    ]
}

/// The rules for configuration and data files.
pub fn config_rules(patterns: &Patterns) -> (rules: Vec<PatternRule<'_>>)
    ensures
        rule_views(rules@) == config_rule_table(),
{
    proof {
        use_type_invariant(patterns);
        lemma_config_texts(patterns.config, config_sources());
    }
    let rules = vec![
        PatternRule {
            regex: &patterns.config.secret,
            vulnerability: VulnerabilityType::SyncContention,
            base_score: 2500,
            description_tmpl: "Sensitive credential or unrotated secret in config file",
        },
        PatternRule {
            regex: &patterns.config.blocking,
            vulnerability: VulnerabilityType::BlockingIO,
            base_score: 1500,
            description_tmpl: "Unbounded timeout or excessive connection limit in config",
        },
        PatternRule {
            regex: &patterns.config.branch,
            vulnerability: VulnerabilityType::CognitiveBranch,
            base_score: 500,
            description_tmpl: "Complex conditional rule or assertion in config file",
        },
    ];
    assert(rule_views(rules@) == config_rule_table());
    rules
}

/// The rules for every other text file.
pub open spec fn generic_rule_table() -> Seq<RuleView> {
    seq![
        rule_view(
            GENERIC_LOOP@,
            VulnerabilityType::DeepNesting,
            1500,
            "Loop construct detected in text file"@,
        ),
        rule_view(
            GENERIC_RECURSIVE@,
            VulnerabilityType::RecursiveCall,
            1500,
            "Identifier invocation checked for recursive call"@,
        ),
        rule_view(
            GENERIC_ALLOC@,
            VulnerabilityType::HotAllocation,
            1000,
            "Memory allocation operation"@,
        ),
        rule_view(
            GENERIC_BLOCKING@,
            VulnerabilityType::BlockingIO,
            1500,
            "Blocking sleep / wait / network primitive"@,
        ),
        rule_view(
            GENERIC_BRANCH@,
            VulnerabilityType::CognitiveBranch,
            500,
            "Branch / condition construct"@,
        ),
        rule_view(
            GENERIC_MUTEX@,
            VulnerabilityType::SyncContention,
            1800,
            "Synchronization / concurrency primitive"@,
        ),
    ]
}

/// The rules for every other text file.
pub fn generic_rules(patterns: &Patterns) -> (rules: Vec<PatternRule<'_>>)
    ensures
        rule_views(rules@) == generic_rule_table(),
{
    proof {
        use_type_invariant(patterns);
        lemma_family_texts(patterns.generic, generic_sources());
    }
    let rules = vec![
        PatternRule {
            regex: &patterns.generic.looping,
            vulnerability: VulnerabilityType::DeepNesting,
            base_score: 1500,
            description_tmpl: "Loop construct detected in text file",
        },
        PatternRule {
            regex: &patterns.generic.recursive,
            vulnerability: VulnerabilityType::RecursiveCall,
            base_score: 1500,
            description_tmpl: "Identifier invocation checked for recursive call",
        },
        PatternRule {
            regex: &patterns.generic.alloc,
            vulnerability: VulnerabilityType::HotAllocation,
            base_score: 1000,
            description_tmpl: "Memory allocation operation",
        },
        PatternRule {
            regex: &patterns.generic.blocking_io,
            vulnerability: VulnerabilityType::BlockingIO,
            base_score: 1500,
            description_tmpl: "Blocking sleep / wait / network primitive",
        },
        PatternRule {
            regex: &patterns.generic.branch,
            vulnerability: VulnerabilityType::CognitiveBranch,
            base_score: 500,
            description_tmpl: "Branch / condition construct",
        },
        PatternRule {
            regex: &patterns.generic.mutex,
            vulnerability: VulnerabilityType::SyncContention,
            base_score: 1800,
            description_tmpl: "Synchronization / concurrency primitive",
        },
    ];
    assert(rule_views(rules@) == generic_rule_table());
    rules
}

/// The languages that share the rules for Java.
pub open spec fn is_java_like(language: Seq<char>) -> bool {
    ||| language == "Java"@
    ||| language == "C#"@
    ||| language == "Kotlin"@
    ||| language == "Scala"@
}

/// The rules of a language, by its name.
pub open spec fn rule_table_for(language: Seq<char>) -> Seq<RuleView> {
    if language == "Python"@ {
        python_rule_table()
    } else if language == "Go"@ {
        go_rule_table()
    } else if language == "JavaScript"@ || language == "TypeScript"@ {
        js_ts_rule_table()
    } else if language == "Rust"@ {
        rust_rule_table()
    } else if language == "C"@ || language == "C++"@ {
        c_cpp_rule_table()
    } else if is_java_like(language) {
        java_csharp_rule_table()
    } else if language == "Shell"@ {
        shell_rule_table()
    } else if language == "Config"@ {
        config_rule_table()
    } else {
        generic_rule_table()
    }
}

/// The pattern by which a function declaration is recognised in a language.
pub open spec fn func_pattern(language: Seq<char>) -> Seq<char> {
    if language == "Python"@ {
        PY_FUNC@
    } else if language == "Go"@ {
        GO_FUNC@
    } else if language == "JavaScript"@ || language == "TypeScript"@ {
        JS_FUNC@
    } else if language == "Rust"@ {
        RUST_FUNC@
    } else if language == "C"@ || language == "C++"@ {
        C_FUNC@
    } else if is_java_like(language) {
        JAVA_FUNC@
    } else if language == "Shell"@ {
        SH_FUNC@
    } else {
        GENERIC_FUNC@
    }
}

/// The pattern by which the head of a loop is recognised in a language.
pub open spec fn loop_pattern(language: Seq<char>) -> Seq<char> {
    if language == "Python"@ {
        PY_FOR_WHILE@
    } else if language == "Go"@ {
        GO_FOR@
    } else if language == "JavaScript"@ || language == "TypeScript"@ {
        JS_FOR_WHILE@
    } else if language == "Rust"@ {
        RUST_FOR_WHILE@
    } else if language == "C"@ || language == "C++"@ {
        C_FOR_WHILE@
    } else if is_java_like(language) {
        JAVA_FOR_WHILE@
    } else if language == "Shell"@ {
        SH_LOOP@
    } else {
        GENERIC_LOOP@
    }
}

pub(crate) fn java_like(language: &str) -> (r: bool)
    ensures
        r == is_java_like(language@),
{
    same_text(language, "Java") || same_text(language, "C#") || same_text(language, "Kotlin")
        || same_text(language, "Scala")
}

/// The rules of a language, by its name.
pub fn rules_for<'a>(language: &str, patterns: &'a Patterns) -> (rules: Vec<PatternRule<'a>>)
    ensures
        rule_views(rules@) == rule_table_for(language@),
{
    if same_text(language, "Python") {
        python_rules(patterns)
    } else if same_text(language, "Go") {
        go_rules(patterns)
    } else if same_text(language, "JavaScript") || same_text(language, "TypeScript") {
        js_ts_rules(patterns)
    } else if same_text(language, "Rust") {
        rust_rules(patterns)
    } else if same_text(language, "C") || same_text(language, "C++") {
        c_cpp_rules(patterns)
    } else if java_like(language) {
        java_csharp_rules(patterns)
    } else if same_text(language, "Shell") {
        shell_rules(patterns)
    } else if same_text(language, "Config") {
        config_rules(patterns)
    } else {
        generic_rules(patterns)
    }
}

/// The pattern by which a function declaration is recognised in a language.
pub fn func_regex_for<'a>(language: &str, patterns: &'a Patterns) -> (p: &'a Pattern)
    ensures
        p@ == func_pattern(language@),
{
    proof {
        use_type_invariant(patterns);
        lemma_head_and_func(*patterns);
    }
    if same_text(language, "Python") {
        &patterns.python.func
    } else if same_text(language, "Go") {
        &patterns.go.func
    } else if same_text(language, "JavaScript") || same_text(language, "TypeScript") {
        &patterns.js_ts.func
    } else if same_text(language, "Rust") {
        &patterns.rust.func
    } else if same_text(language, "C") || same_text(language, "C++") {
        &patterns.c_cpp.func
    } else if java_like(language) {
        &patterns.java_csharp.func
    } else if same_text(language, "Shell") {
        &patterns.shell.func
    } else {
        &patterns.generic.func
    }
}

/// The pattern by which the head of a loop is recognised in a language.
pub fn loop_regex_for<'a>(language: &str, patterns: &'a Patterns) -> (p: &'a Pattern)
    ensures
        p@ == loop_pattern(language@),
{
    proof {
        use_type_invariant(patterns);
        lemma_head_and_func(*patterns);
    }
    if same_text(language, "Python") {
        &patterns.python.looping
    } else if same_text(language, "Go") {
        &patterns.go.looping
    } else if same_text(language, "JavaScript") || same_text(language, "TypeScript") {
        &patterns.js_ts.looping
    } else if same_text(language, "Rust") {
        &patterns.rust.looping
    } else if same_text(language, "C") || same_text(language, "C++") {
        &patterns.c_cpp.looping
    } else if java_like(language) {
        &patterns.java_csharp.looping
    } else if same_text(language, "Shell") {
        &patterns.shell.looping
    } else {
        &patterns.generic.looping
    }
}

proof fn lemma_head_and_func(p: Patterns)
    requires
        p.compiled_from_sources(),
    ensures
        p.python.looping@ == PY_FOR_WHILE@ && p.python.func@ == PY_FUNC@,
        p.go.looping@ == GO_FOR@ && p.go.func@ == GO_FUNC@,
        p.js_ts.looping@ == JS_FOR_WHILE@ && p.js_ts.func@ == JS_FUNC@,
        p.rust.looping@ == RUST_FOR_WHILE@ && p.rust.func@ == RUST_FUNC@,
        p.c_cpp.looping@ == C_FOR_WHILE@ && p.c_cpp.func@ == C_FUNC@,
        p.java_csharp.looping@ == JAVA_FOR_WHILE@ && p.java_csharp.func@ == JAVA_FUNC@,
        p.shell.looping@ == SH_LOOP@ && p.shell.func@ == SH_FUNC@,
        p.generic.looping@ == GENERIC_LOOP@ && p.generic.func@ == GENERIC_FUNC@,
{
    lemma_family_texts(p.python, python_sources());
    lemma_family_texts(p.go, go_sources());
    lemma_family_texts(p.js_ts, js_ts_sources());
    lemma_family_texts(p.rust, rust_sources());
    lemma_family_texts(p.c_cpp, c_cpp_sources());
    lemma_family_texts(p.java_csharp, java_csharp_sources());
    lemma_shell_texts(p.shell, shell_sources());
    lemma_family_texts(p.generic, generic_sources());
}

} // verus!
