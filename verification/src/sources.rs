//! The regular expressions of the rule tables, as text.

use vstd::prelude::*;

verus! {

// Python

pub const PY_FOR_WHILE: &'static str = r"^\s*(for|while)\s+";

pub const PY_RECURSIVE: &'static str = r"\bself\s*\.\s*\w+\s*\(|(?:^|\s)(\w+)\s*\([^)]*\)\s*$";

pub const PY_ALLOC: &'static str = r"\b(list|dict|set|bytearray|numpy\.zeros|numpy\.ones|np\.zeros|np\.ones|torch\.zeros|torch\.ones)\s*[\(\[]";

pub const PY_BLOCKING_IO: &'static str = r"\bopen\s*\(|\b(requests\.(get|post|put|delete|patch)|urllib|subprocess\.(call|run|Popen)|time\.sleep|socket\.recv|socket\.accept)\b";

pub const PY_BRANCH: &'static str = r"\b(if|elif|and|or|not|assert)\b";

pub const PY_MUTEX: &'static str = r"\b(threading\.(Lock|RLock|Semaphore)|asyncio\.Lock|multiprocessing\.Lock)\b";

pub const PY_FUNC: &'static str = r"^\s*(?:async\s+)?def\s+(\w+)\s*\(";

// Go

pub const GO_FOR: &'static str = r"^\s*for\s+";

pub const GO_RECURSIVE: &'static str = r"(?:^|[\s,=(])([A-Z]\w*)\s*\(";

pub const GO_ALLOC: &'static str = r"\bmake\s*\(|\bnew\s*\(|\[\][\w\*]+\{";

pub const GO_BLOCKING_IO: &'static str = r"\b(os\.Open|os\.Create|ioutil\.(ReadFile|WriteFile)|http\.(Get|Post)|net\.Dial|time\.Sleep|bufio\.NewReader|sql\.Open)\b";

pub const GO_BRANCH: &'static str = r"\b(if|else|switch|case|select)\b|&&|\|\|";

pub const GO_MUTEX: &'static str = r"\b(sync\.(Mutex|RWMutex|WaitGroup|Once)|atomic\.(Add|Load|Store|Swap))";

pub const GO_FUNC: &'static str = r"^\s*func\s+(?:\([^)]+\)\s+)?(\w+)\s*\(";

// JavaScript and TypeScript

pub const JS_FOR_WHILE: &'static str = r"\b(for\s*\(|while\s*\(|for\s+await|\.forEach\(|\.map\()";

pub const JS_RECURSIVE: &'static str = r"(?:^|[\s,=(])([a-zA-Z_$][\w$]*)\s*\(";

pub const JS_ALLOC: &'static str = r"\b(new\s+(Array|Buffer|Uint8Array|Map|Set|Object)|Array\.from)\b";

pub const JS_BLOCKING_IO: &'static str = r"\b(fs\.(readFileSync|writeFileSync|appendFileSync|existsSync)|execSync|spawnSync|Atomics\.wait)\b";

pub const JS_BRANCH: &'static str = r"\b(if|else|switch|case|catch)\b|&&|\|\|";

pub const JS_MUTEX: &'static str = r"\b(Mutex|Semaphore|Lock|AsyncLock|atomics)\b";

pub const JS_FUNC: &'static str = r"^\s*(?:export\s+)?(?:async\s+)?function\s+(\w+)|(?:const|let|var)\s+(\w+)\s*=\s*(?:async\s*)?\(";

// Rust

pub const RUST_FOR_WHILE: &'static str = r"^\s*(for\s+\w+\s+in|while\s+|loop\s*\{)";

pub const RUST_RECURSIVE: &'static str = r"(?:^|[\s,=(])([a-zA-Z_]\w*)\s*\(";

pub const RUST_ALLOC: &'static str = r"\b(Vec::with_capacity|Vec::new|Box::new|String::from|vec!\[)";

pub const RUST_BLOCKING_IO: &'static str = r"\b(std::fs::|File::open|File::create|thread::sleep|TcpStream::connect|Command::new)\b";

pub const RUST_BRANCH: &'static str = r"\b(if|else|match)\b|&&|\|\|";

pub const RUST_MUTEX: &'static str = r"\b(Mutex::|RwLock::|AtomicBool|AtomicUsize|Arc::new|mpsc::channel|barrier)\b";

pub const RUST_FUNC: &'static str = r"^\s*(?:pub(?:\([^)]+\))?\s+)?(?:async\s+)?fn\s+(\w+)";

// C and C++

pub const C_FOR_WHILE: &'static str = r"^\s*(for\s*\(|while\s*\(|do\s*\{)";

pub const C_RECURSIVE: &'static str = r"(?:^|[\s,=(])([a-zA-Z_]\w*)\s*\(";

pub const C_ALLOC: &'static str = r"\b(malloc\s*\(|calloc\s*\(|realloc\s*\(|new\s+\w+)";

pub const C_BLOCKING_IO: &'static str = r"\b(fopen|fread|fwrite|sleep|usleep|recv|send|connect|system)\b";

pub const C_BRANCH: &'static str = r"\b(if|else|switch|case)\b|&&|\|\|";

pub const C_MUTEX: &'static str = r"\b(pthread_mutex_\w*|std::mutex|std::lock_guard|std::unique_lock|atomic)\b";

pub const C_FUNC: &'static str = r"^\s*(?:[\w:*&<>]+\s+)+(\w+)\s*\([^;]*\)\s*\{?$";

// Java, C#, Kotlin and Scala

pub const JAVA_FOR_WHILE: &'static str = r"^\s*(for\s*\(|while\s*\(|foreach\s*\()";

pub const JAVA_RECURSIVE: &'static str = r"(?:^|[\s,=(])([a-zA-Z_]\w*)\s*\(";

pub const JAVA_ALLOC: &'static str = r"\b(new\s+\w+\[|new\s+ArrayList|new\s+HashMap|new\s+byte\[)";

pub const JAVA_BLOCKING_IO: &'static str = r"\b(Thread\.sleep|FileInputStream|FileOutputStream|Socket|HttpClient|File\.read)\b";

pub const JAVA_BRANCH: &'static str = r"\b(if|else|switch|case|catch)\b|&&|\|\|";

pub const JAVA_MUTEX: &'static str = r"\b(synchronized|ReentrantLock|Semaphore|CountDownLatch|Monitor\.Enter)\b";

pub const JAVA_FUNC: &'static str = r"^\s*(?:public|private|protected|static|final|native|synchronized|abstract|\s)+[\w<>\[\]]+\s+(\w+)\s*\(";

// Shell

pub const SH_LOOP: &'static str = r"^\s*(for\s+\w+\s+in|while\s+|until\s+)";

pub const SH_BLOCKING_IO: &'static str = r"\b(sleep|curl|wget|scp|rsync|ssh|nc|netcat)\b";

pub const SH_BRANCH: &'static str = r"\b(if\s+|elif\s+|then|else|case\s+)|&&|\|\|";

pub const SH_FUNC: &'static str = r"^\s*(?:function\s+)?(\w+)\s*\(\)";

// Configuration and data files

pub const CONFIG_SECRET: &'static str = r#"(?i)\b(password|secret|api_key|token|private_key)\s*[:=]\s*['"][^'"]{4,}"#;

pub const CONFIG_BLOCKING: &'static str = r"(?i)\b(timeout\s*:\s*0|unlimited|keep_alive|max_connections\s*:\s*\d{5,})";

pub const CONFIG_BRANCH: &'static str = r"^\s*-\s+name:|\b(when|condition|assert):";

// Every other text file

pub const GENERIC_LOOP: &'static str = r"\b(for\s+|while\s+|loop\s*\{|repeat\s+)";

pub const GENERIC_RECURSIVE: &'static str = r"(?:^|[\s,=(])([a-zA-Z_]\w*)\s*\(";

pub const GENERIC_ALLOC: &'static str = r"\b(malloc|alloc|new\s+\w+)\b|\bclone\(\)";

pub const GENERIC_BLOCKING: &'static str = r"\b(sleep|delay|wait|read|write|connect|recv|send)\s*\(";

pub const GENERIC_BRANCH: &'static str = r"\b(if|else|switch|case|when|unless|catch)\b";

pub const GENERIC_MUTEX: &'static str = r"\b(mutex|lock|semaphore|atomic|critical_section)\b";

pub const GENERIC_FUNC: &'static str = r"^\s*(?:def|func|fn|function|sub|void|int|bool|string)\s+(\w+)";

} // verus!
