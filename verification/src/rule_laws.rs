//! Which rules each language has.

use crate::pattern::{compiled_regex, first_rejected};
use crate::rules::{func_pattern, loop_pattern, rule_table_for, RuleView, VulnerabilityType};
use vstd::prelude::*;

verus! {

/// A rule by its pattern, the kind of risk that it looks for, its base score and its reason.
pub open spec fn outline(rules: Seq<RuleView>) -> Seq<
    (Seq<char>, VulnerabilityType, nat, Seq<char>),
> {
    rules.map_values(
        |r: RuleView| (r.pattern, r.vulnerability, r.base_score, r.description),
    )
}

proof fn lemma_labels_differ()
    ensures
        "Go"@ != "Python"@,
        "JavaScript"@ != "Python"@,
        "TypeScript"@ != "Python"@,
        "Rust"@ != "Python"@,
        "C"@ != "Python"@,
        "C++"@ != "Python"@,
        "Java"@ != "Python"@,
        "C#"@ != "Python"@,
        "Kotlin"@ != "Python"@,
        "Scala"@ != "Python"@,
        "Shell"@ != "Python"@,
        "Config"@ != "Python"@,
        "JavaScript"@ != "Go"@,
        "TypeScript"@ != "Go"@,
        "Rust"@ != "Go"@,
        "C"@ != "Go"@,
        "C++"@ != "Go"@,
        "Java"@ != "Go"@,
        "C#"@ != "Go"@,
        "Kotlin"@ != "Go"@,
        "Scala"@ != "Go"@,
        "Shell"@ != "Go"@,
        "Config"@ != "Go"@,
        "Rust"@ != "JavaScript"@,
        "Rust"@ != "TypeScript"@,
        "C"@ != "JavaScript"@,
        "C++"@ != "JavaScript"@,
        "C"@ != "TypeScript"@,
        "C++"@ != "TypeScript"@,
        "Java"@ != "JavaScript"@,
        "C#"@ != "JavaScript"@,
        "Kotlin"@ != "JavaScript"@,
        "Scala"@ != "JavaScript"@,
        "Java"@ != "TypeScript"@,
        "C#"@ != "TypeScript"@,
        "Kotlin"@ != "TypeScript"@,
        "Scala"@ != "TypeScript"@,
        "Shell"@ != "JavaScript"@,
        "Shell"@ != "TypeScript"@,
        "Config"@ != "JavaScript"@,
        "Config"@ != "TypeScript"@,
        "C"@ != "Rust"@,
        "C++"@ != "Rust"@,
        "Java"@ != "Rust"@,
        "C#"@ != "Rust"@,
        "Kotlin"@ != "Rust"@,
        "Scala"@ != "Rust"@,
        "Shell"@ != "Rust"@,
        "Config"@ != "Rust"@,
        "Java"@ != "C"@,
        "C#"@ != "C"@,
        "Kotlin"@ != "C"@,
        "Scala"@ != "C"@,
        "Java"@ != "C++"@,
        "C#"@ != "C++"@,
        "Kotlin"@ != "C++"@,
        "Scala"@ != "C++"@,
        "Shell"@ != "C"@,
        "Shell"@ != "C++"@,
        "Config"@ != "C"@,
        "Config"@ != "C++"@,
        "Shell"@ != "Java"@,
        "Shell"@ != "C#"@,
        "Shell"@ != "Kotlin"@,
        "Shell"@ != "Scala"@,
        "Config"@ != "Java"@,
        "Config"@ != "C#"@,
        "Config"@ != "Kotlin"@,
        "Config"@ != "Scala"@,
        "Config"@ != "Shell"@,
{
    reveal_strlit("Python");
    reveal_strlit("Go");
    reveal_strlit("JavaScript");
    reveal_strlit("TypeScript");
    reveal_strlit("Rust");
    reveal_strlit("C");
    reveal_strlit("C++");
    reveal_strlit("Java");
    reveal_strlit("C#");
    reveal_strlit("Kotlin");
    reveal_strlit("Scala");
    reveal_strlit("Shell");
    reveal_strlit("Config");
    assert("Python"@.len() == 6 && "Python"@[0] == 'P');
    assert("Go"@.len() == 2 && "Go"@[0] == 'G');
    assert("JavaScript"@.len() == 10 && "JavaScript"@[0] == 'J');
    assert("TypeScript"@.len() == 10 && "TypeScript"@[0] == 'T');
    assert("Rust"@.len() == 4 && "Rust"@[0] == 'R');
    assert("C"@.len() == 1 && "C"@[0] == 'C');
    assert("C++"@.len() == 3 && "C++"@[0] == 'C');
    assert("Java"@.len() == 4 && "Java"@[0] == 'J');
    assert("C#"@.len() == 2 && "C#"@[0] == 'C');
    assert("Kotlin"@.len() == 6 && "Kotlin"@[0] == 'K');
    assert("Scala"@.len() == 5 && "Scala"@[0] == 'S');
    assert("Shell"@.len() == 5 && "Shell"@[0] == 'S');
    assert("Config"@.len() == 6 && "Config"@[0] == 'C');
    assert("C#"@[1] == '#' && "C++"@[1] == '+');
    assert("Shell"@[1] == 'h' && "Scala"@[1] == 'c');
}

/// The rules of Python, in their order, and the patterns of its
/// loops and declarations.
pub proof fn law_python_rules(language: Seq<char>)
    requires
        language == "Python"@,
    ensures
        outline(rule_table_for(language)) == seq![
            (
                r"^\s*(for|while)\s+"@,
                VulnerabilityType::DeepNesting,
                1500nat,
                "Loop construct detected - nesting depth multiplier applied"@,
            ),
            (
                r"\bself\s*\.\s*\w+\s*\(|(?:^|\s)(\w+)\s*\([^)]*\)\s*$"@,
                VulnerabilityType::RecursiveCall,
                2000nat,
                "Possible recursive invocation - stack-depth risk"@,
            ),
            (
                r"\b(list|dict|set|bytearray|numpy\.zeros|numpy\.ones|np\.zeros|np\.ones|torch\.zeros|torch\.ones)\s*[\(\[]"@,
                VulnerabilityType::HotAllocation,
                1200nat,
                "Heap allocation inside potentially hot path"@,
            ),
            (
                r"\bopen\s*\(|\b(requests\.(get|post|put|delete|patch)|urllib|subprocess\.(call|run|Popen)|time\.sleep|socket\.recv|socket\.accept)\b"@,
                VulnerabilityType::BlockingIO,
                1800nat,
                "Blocking I/O call on critical path - latency spike risk"@,
            ),
            (
                r"\b(if|elif|and|or|not|assert)\b"@,
                VulnerabilityType::CognitiveBranch,
                500nat,
                "Branch/boolean operator increases cyclomatic complexity"@,
            ),
            (
                r"\b(threading\.(Lock|RLock|Semaphore)|asyncio\.Lock|multiprocessing\.Lock)\b"@,
                VulnerabilityType::SyncContention,
                2200nat,
                "Synchronisation primitive - potential lock contention hotspot"@,
            ),
        ],
        loop_pattern(language) == r"^\s*(for|while)\s+"@,
        func_pattern(language) == r"^\s*(?:async\s+)?def\s+(\w+)\s*\("@,
{
    lemma_labels_differ();
}

/// The rules of Go, in their order, and the patterns of its
/// loops and declarations.
pub proof fn law_go_rules(language: Seq<char>)
    requires
        language == "Go"@,
    ensures
        outline(rule_table_for(language)) == seq![
            (
                r"^\s*for\s+"@,
                VulnerabilityType::DeepNesting,
                1500nat,
                "Go for-loop - nesting depth multiplier applied"@,
            ),
            (
                r"(?:^|[\s,=(])([A-Z]\w*)\s*\("@,
                VulnerabilityType::RecursiveCall,
                2000nat,
                "Exported function call - checked for self-recursion"@,
            ),
            (
                r"\bmake\s*\(|\bnew\s*\(|\[\][\w\*]+\{"@,
                VulnerabilityType::HotAllocation,
                1200nat,
                "make/new/slice-literal allocation in hot path"@,
            ),
            (
                r"\b(os\.Open|os\.Create|ioutil\.(ReadFile|WriteFile)|http\.(Get|Post)|net\.Dial|time\.Sleep|bufio\.NewReader|sql\.Open)\b"@,
                VulnerabilityType::BlockingIO,
                1800nat,
                "Blocking stdlib I/O call - goroutine contention risk"@,
            ),
            (
                r"\b(if|else|switch|case|select)\b|&&|\|\|"@,
                VulnerabilityType::CognitiveBranch,
                500nat,
                "Branch/boolean expression increases cyclomatic complexity"@,
            ),
            (
                r"\b(sync\.(Mutex|RWMutex|WaitGroup|Once)|atomic\.(Add|Load|Store|Swap))"@,
                VulnerabilityType::SyncContention,
                2200nat,
                "sync.Mutex/atomic - potential throughput bottleneck"@,
            ),
        ],
        loop_pattern(language) == r"^\s*for\s+"@,
        func_pattern(language) == r"^\s*func\s+(?:\([^)]+\)\s+)?(\w+)\s*\("@,
{
    lemma_labels_differ();
}

/// The rules of JavaScript and TypeScript, in their order, and the patterns of its
/// loops and declarations.
pub proof fn law_js_ts_rules(language: Seq<char>)
    requires
        language == "JavaScript"@ || language == "TypeScript"@,
    ensures
        outline(rule_table_for(language)) == seq![
            (
                r"\b(for\s*\(|while\s*\(|for\s+await|\.forEach\(|\.map\()"@,
                VulnerabilityType::DeepNesting,
                1500nat,
                "JavaScript/TypeScript loop or iterator in hot path"@,
            ),
            (
                r"(?:^|[\s,=(])([a-zA-Z_$][\w$]*)\s*\("@,
                VulnerabilityType::RecursiveCall,
                2000nat,
                "Recursive call detected - call stack exhaustion risk"@,
            ),
            (
                r"\b(new\s+(Array|Buffer|Uint8Array|Map|Set|Object)|Array\.from)\b"@,
                VulnerabilityType::HotAllocation,
                1200nat,
                "Heap allocation inside loop or frequent execution path"@,
            ),
            (
                r"\b(fs\.(readFileSync|writeFileSync|appendFileSync|existsSync)|execSync|spawnSync|Atomics\.wait)\b"@,
                VulnerabilityType::BlockingIO,
                2200nat,
                "Synchronous blocking I/O freezes the Node event loop"@,
            ),
            (
                r"\b(if|else|switch|case|catch)\b|&&|\|\|"@,
                VulnerabilityType::CognitiveBranch,
                500nat,
                "Branching statement increases cyclomatic complexity"@,
            ),
            (
                r"\b(Mutex|Semaphore|Lock|AsyncLock|atomics)\b"@,
                VulnerabilityType::SyncContention,
                1800nat,
                "Synchronization primitive / shared array contention"@,
            ),
        ],
        loop_pattern(language) == r"\b(for\s*\(|while\s*\(|for\s+await|\.forEach\(|\.map\()"@,
        func_pattern(language) == r"^\s*(?:export\s+)?(?:async\s+)?function\s+(\w+)|(?:const|let|var)\s+(\w+)\s*=\s*(?:async\s*)?\("@,
{
    lemma_labels_differ();
}

/// The rules of Rust, in their order, and the patterns of its
/// loops and declarations.
pub proof fn law_rust_rules(language: Seq<char>)
    requires
        language == "Rust"@,
    ensures
        outline(rule_table_for(language)) == seq![
            (
                r"^\s*(for\s+\w+\s+in|while\s+|loop\s*\{)"@,
                VulnerabilityType::DeepNesting,
                1500nat,
                "Rust loop construct - nesting depth multiplier applied"@,
            ),
            (
                r"(?:^|[\s,=(])([a-zA-Z_]\w*)\s*\("@,
                VulnerabilityType::RecursiveCall,
                2000nat,
                "Self-recursion detected - stack depth overhead risk"@,
            ),
            (
                r"\b(Vec::with_capacity|Vec::new|Box::new|String::from|vec!\[)"@,
                VulnerabilityType::HotAllocation,
                1200nat,
                "Heap vector or Box allocation on critical path"@,
            ),
            (
                r"\b(std::fs::|File::open|File::create|thread::sleep|TcpStream::connect|Command::new)\b"@,
                VulnerabilityType::BlockingIO,
                1800nat,
                "Blocking I/O or sleep in async/worker context"@,
            ),
            (
                r"\b(if|else|match)\b|&&|\|\|"@,
                VulnerabilityType::CognitiveBranch,
                500nat,
                "Pattern match / branching adds cyclomatic branches"@,
            ),
            (
                r"\b(Mutex::|RwLock::|AtomicBool|AtomicUsize|Arc::new|mpsc::channel|barrier)\b"@,
                VulnerabilityType::SyncContention,
                2200nat,
                "Mutex / RwLock lock acquisition contention hotspot"@,
            ),
        ],
        loop_pattern(language) == r"^\s*(for\s+\w+\s+in|while\s+|loop\s*\{)"@,
        func_pattern(language) == r"^\s*(?:pub(?:\([^)]+\))?\s+)?(?:async\s+)?fn\s+(\w+)"@,
{
    lemma_labels_differ();
}

/// The rules of C and C++, in their order, and the patterns of its
/// loops and declarations.
pub proof fn law_c_cpp_rules(language: Seq<char>)
    requires
        language == "C"@ || language == "C++"@,
    ensures
        outline(rule_table_for(language)) == seq![
            (
                r"^\s*(for\s*\(|while\s*\(|do\s*\{)"@,
                VulnerabilityType::DeepNesting,
                1500nat,
                "C/C++ loop construct - nesting multiplier applied"@,
            ),
            (
                r"(?:^|[\s,=(])([a-zA-Z_]\w*)\s*\("@,
                VulnerabilityType::RecursiveCall,
                2000nat,
                "Function call checked for recursion"@,
            ),
            (
                r"\b(malloc\s*\(|calloc\s*\(|realloc\s*\(|new\s+\w+)"@,
                VulnerabilityType::HotAllocation,
                1400nat,
                "Dynamic memory allocation (malloc/new) inside hot path"@,
            ),
            (
                r"\b(fopen|fread|fwrite|sleep|usleep|recv|send|connect|system)\b"@,
                VulnerabilityType::BlockingIO,
                1800nat,
                "Blocking POSIX/C-runtime I/O operation"@,
            ),
            (
                r"\b(if|else|switch|case)\b|&&|\|\|"@,
                VulnerabilityType::CognitiveBranch,
                500nat,
                "Conditional branch / switch increases cyclomatic entropy"@,
            ),
            (
                r"\b(pthread_mutex_\w*|std::mutex|std::lock_guard|std::unique_lock|atomic)\b"@,
                VulnerabilityType::SyncContention,
                2200nat,
                "POSIX/std::mutex synchronization primitive contention"@,
            ),
        ],
        loop_pattern(language) == r"^\s*(for\s*\(|while\s*\(|do\s*\{)"@,
        func_pattern(language) == r"^\s*(?:[\w:*&<>]+\s+)+(\w+)\s*\([^;]*\)\s*\{?$"@,
{
    lemma_labels_differ();
}

/// The rules of Java, C#, Kotlin and Scala, in their order, and the patterns of its
/// loops and declarations.
pub proof fn law_java_csharp_rules(language: Seq<char>)
    requires
        language == "Java"@ || language == "C#"@ || language == "Kotlin"@ || language == "Scala"@,
    ensures
        outline(rule_table_for(language)) == seq![
            (
                r"^\s*(for\s*\(|while\s*\(|foreach\s*\()"@,
                VulnerabilityType::DeepNesting,
                1500nat,
                "Loop construct - nesting depth multiplier applied"@,
            ),
            (
                r"(?:^|[\s,=(])([a-zA-Z_]\w*)\s*\("@,
                VulnerabilityType::RecursiveCall,
                2000nat,
                "Method call checked for recursive depth"@,
            ),
            (
                r"\b(new\s+\w+\[|new\s+ArrayList|new\s+HashMap|new\s+byte\[)"@,
                VulnerabilityType::HotAllocation,
                1200nat,
                "Object / collection instantiation in loop path"@,
            ),
            (
                r"\b(Thread\.sleep|FileInputStream|FileOutputStream|Socket|HttpClient|File\.read)\b"@,
                VulnerabilityType::BlockingIO,
                1800nat,
                "Blocking stream or thread sleep operation"@,
            ),
            (
                r"\b(if|else|switch|case|catch)\b|&&|\|\|"@,
                VulnerabilityType::CognitiveBranch,
                500nat,
                "Branch / exception block increases cognitive complexity"@,
            ),
            (
                r"\b(synchronized|ReentrantLock|Semaphore|CountDownLatch|Monitor\.Enter)\b"@,
                VulnerabilityType::SyncContention,
                2200nat,
                "Synchronized block or lock primitive contention"@,
            ),
        ],
        loop_pattern(language) == r"^\s*(for\s*\(|while\s*\(|foreach\s*\()"@,
        func_pattern(language) == r"^\s*(?:public|private|protected|static|final|native|synchronized|abstract|\s)+[\w<>\[\]]+\s+(\w+)\s*\("@,
{
    lemma_labels_differ();
}

/// The rules of shell scripts, in their order, and the patterns of its
/// loops and declarations.
pub proof fn law_shell_rules(language: Seq<char>)
    requires
        language == "Shell"@,
    ensures
        outline(rule_table_for(language)) == seq![
            (
                r"^\s*(for\s+\w+\s+in|while\s+|until\s+)"@,
                VulnerabilityType::DeepNesting,
                1500nat,
                "Shell loop detected"@,
            ),
            (
                r"\b(sleep|curl|wget|scp|rsync|ssh|nc|netcat)\b"@,
                VulnerabilityType::BlockingIO,
                2000nat,
                "Subprocess network or sleep call in shell script"@,
            ),
            (
                r"\b(if\s+|elif\s+|then|else|case\s+)|&&|\|\|"@,
                VulnerabilityType::CognitiveBranch,
                500nat,
                "Shell condition / branch logic"@,
            ),
        ],
        loop_pattern(language) == r"^\s*(for\s+\w+\s+in|while\s+|until\s+)"@,
        func_pattern(language) == r"^\s*(?:function\s+)?(\w+)\s*\(\)"@,
{
    lemma_labels_differ();
}

/// The rules of configuration, in their order, and the patterns of its
/// loops and declarations.
pub proof fn law_config_rules(language: Seq<char>)
    requires
        language == "Config"@,
    ensures
        outline(rule_table_for(language)) == seq![
            (
                r#"(?i)\b(password|secret|api_key|token|private_key)\s*[:=]\s*['"][^'"]{4,}"#@,
                VulnerabilityType::SyncContention,
                2500nat,
                "Sensitive credential or unrotated secret in config file"@,
            ),
            (
                r"(?i)\b(timeout\s*:\s*0|unlimited|keep_alive|max_connections\s*:\s*\d{5,})"@,
                VulnerabilityType::BlockingIO,
                1500nat,
                "Unbounded timeout or excessive connection limit in config"@,
            ),
            (
                r"^\s*-\s+name:|\b(when|condition|assert):"@,
                VulnerabilityType::CognitiveBranch,
                500nat,
                "Complex conditional rule or assertion in config file"@,
            ),
        ],
        loop_pattern(language) == r"\b(for\s+|while\s+|loop\s*\{|repeat\s+)"@,
        func_pattern(language) == r"^\s*(?:def|func|fn|function|sub|void|int|bool|string)\s+(\w+)"@,
{
    lemma_labels_differ();
}

/// The rules of every other text, in their order, and the patterns of its
/// loops and declarations.
pub proof fn law_generic_rules(language: Seq<char>)
    requires
        language != "Python"@,
        language != "Go"@,
        language != "JavaScript"@,
        language != "TypeScript"@,
        language != "Rust"@,
        language != "C"@,
        language != "C++"@,
        language != "Java"@,
        language != "C#"@,
        language != "Kotlin"@,
        language != "Scala"@,
        language != "Shell"@,
        language != "Config"@,
    ensures
        outline(rule_table_for(language)) == seq![
            (
                r"\b(for\s+|while\s+|loop\s*\{|repeat\s+)"@,
                VulnerabilityType::DeepNesting,
                1500nat,
                "Loop construct detected in text file"@,
            ),
            (
                r"(?:^|[\s,=(])([a-zA-Z_]\w*)\s*\("@,
                VulnerabilityType::RecursiveCall,
                1500nat,
                "Identifier invocation checked for recursive call"@,
            ),
            (
                r"\b(malloc|alloc|new\s+\w+)\b|\bclone\(\)"@,
                VulnerabilityType::HotAllocation,
                1000nat,
                "Memory allocation operation"@,
            ),
            (
                r"\b(sleep|delay|wait|read|write|connect|recv|send)\s*\("@,
                VulnerabilityType::BlockingIO,
                1500nat,
                "Blocking sleep / wait / network primitive"@,
            ),
            (
                r"\b(if|else|switch|case|when|unless|catch)\b"@,
                VulnerabilityType::CognitiveBranch,
                500nat,
                "Branch / condition construct"@,
            ),
            (
                r"\b(mutex|lock|semaphore|atomic|critical_section)\b"@,
                VulnerabilityType::SyncContention,
                1800nat,
                "Synchronization / concurrency primitive"@,
            ),
        ],
        loop_pattern(language) == r"\b(for\s+|while\s+|loop\s*\{|repeat\s+)"@,
        func_pattern(language) == r"^\s*(?:def|func|fn|function|sub|void|int|bool|string)\s+(\w+)"@,
{
    lemma_labels_differ();
}

/// A pattern is the first rejected one of a list exactly where it is rejected and all those
/// before it compile; there is none exactly where all of them compile.
pub proof fn law_first_rejected_is_first(patterns: Seq<Seq<char>>, i: int)
    ensures
        first_rejected(patterns) is None <==> forall|j: int|
            0 <= j < patterns.len() ==> compiled_regex(#[trigger] patterns[j]) is Some,
        0 <= i < patterns.len() && compiled_regex(patterns[i]) is None && (forall|j: int|
            0 <= j < i ==> compiled_regex(#[trigger] patterns[j]) is Some) ==> first_rejected(
            patterns,
        ) == Some(patterns[i]),
    decreases patterns.len(),
{
    if patterns.len() > 0 {
        let rest = patterns.drop_first();
        law_first_rejected_is_first(rest, i - 1);
        assert forall|j: int| 0 <= j < rest.len() implies #[trigger] rest[j] == patterns[j + 1] by {}
        if compiled_regex(patterns[0]) is Some {
            if first_rejected(rest) is None {
                assert forall|j: int| 0 <= j < patterns.len() implies compiled_regex(
                    #[trigger] patterns[j],
                ) is Some by {
                    if j > 0 {
                        assert(rest[j - 1] == patterns[j]);
                    }
                }
            } else {
                let j = choose|j: int|
                    0 <= j < rest.len() && compiled_regex(#[trigger] rest[j]) is None;
                assert(patterns[j + 1] == rest[j]);
            }
            if 0 < i < patterns.len() {
                assert(rest[i - 1] == patterns[i]);
            }
        }
    }
}

} // verus!
