//! The JavaScript engine that runs plugins: the modules it can resolve, the console it offers
//! and how `require` presents a module's exports.
use vstd::prelude::*;

verus! {

/// A module handed to the engine: its name and its code.
#[derive(Debug, Clone, PartialEq, Eq)]
pub struct JavascriptEngineModule {
    pub name: String,
    pub code: String,
}

/// The names of the built-in modules that the engine resolves, in order.
pub open spec fn builtin_modules() -> Seq<Seq<char>> {
    seq![
        "fs"@,
        "fs/promises"@,
        "url"@,
        "path"@,
        "crypto"@,
        "buffer"@,
        "timers"@,
        "stream"@,
        "process"@,
        "child_process"@,
        "os"@,
        "events"@,
    ]
}

/// The names of the modules that the engine resolves: the built-in modules, then the given
/// modules in order.
pub fn resolvable_module_names(modules: &Vec<JavascriptEngineModule>) -> (names: Vec<String>)
    ensures
        names@.map_values(|s: String| s@) == builtin_modules() + modules@.map_values(
            |m: JavascriptEngineModule| m.name@,
        ),
{
    let mut names: Vec<String> = Vec::new();
    names.push(String::from_str("fs"));
    names.push(String::from_str("fs/promises"));
    names.push(String::from_str("url"));
    names.push(String::from_str("path"));
    names.push(String::from_str("crypto"));
    names.push(String::from_str("buffer"));
    names.push(String::from_str("timers"));
    names.push(String::from_str("stream"));
    names.push(String::from_str("process"));
    names.push(String::from_str("child_process"));
    names.push(String::from_str("os"));
    names.push(String::from_str("events"));
    assert(names@.map_values(|s: String| s@) =~= builtin_modules());
    let n = modules.len();
    let mut i: usize = 0;
    while i < n
        invariant
            n == modules@.len(),
            i <= n,
            names@.map_values(|s: String| s@) == builtin_modules() + modules@.take(i as int).map_values(
                |m: JavascriptEngineModule| m.name@,
            ),
        decreases n - i,
    {
        let ghost before = names@;
        names.push(modules[i].name.clone());
        assert(names@.map_values(|s: String| s@) =~= before.map_values(|s: String| s@).push(
            modules@[i as int].name@,
        ));
        assert(modules@.take(i + 1).map_values(|m: JavascriptEngineModule| m.name@) =~= modules@.take(
            i as int,
        ).map_values(|m: JavascriptEngineModule| m.name@).push(modules@[i as int].name@));
        assert(names@.map_values(|s: String| s@) =~= builtin_modules() + modules@.take(i + 1).map_values(
            |m: JavascriptEngineModule| m.name@,
        ));
        i = i + 1;
    }
    assert(modules@.take(n as int) =~= modules@);
    names
}

/// The engine resolves each module its loader provides (fs, fs/promises, url, path, crypto,
/// buffer, timers, stream, process, child_process, os and events), each under one name of its
/// own, and every module it is given.
pub proof fn law_every_provided_module_resolves(modules: Seq<JavascriptEngineModule>, names: Seq<Seq<char>>)
    requires
        names == builtin_modules() + modules.map_values(|m: JavascriptEngineModule| m.name@),
    ensures
        names.len() == 12 + modules.len(),
        names.take(12).no_duplicates(),
        names.contains("fs"@),
        names.contains("fs/promises"@),
        names.contains("url"@),
        names.contains("path"@),
        names.contains("crypto"@),
        names.contains("buffer"@),
        names.contains("timers"@),
        names.contains("stream"@),
        names.contains("process"@),
        names.contains("child_process"@),
        names.contains("os"@),
        names.contains("events"@),
        forall|i: int| 0 <= i < modules.len() ==> names.contains(#[trigger] modules[i].name@),
{
    reveal_strlit("fs");
    reveal_strlit("fs/promises");
    reveal_strlit("url");
    reveal_strlit("path");
    reveal_strlit("crypto");
    reveal_strlit("buffer");
    reveal_strlit("timers");
    reveal_strlit("stream");
    reveal_strlit("process");
    reveal_strlit("child_process");
    reveal_strlit("os");
    reveal_strlit("events");
    let b = builtin_modules();
    assert(names.take(12) =~= b);
    assert(names[0] == "fs"@ && names[1] == "fs/promises"@ && names[2] == "url"@ && names[3] == "path"@);
    assert(names[4] == "crypto"@ && names[5] == "buffer"@ && names[6] == "timers"@ && names[7] == "stream"@);
    assert(names[8] == "process"@ && names[9] == "child_process"@ && names[10] == "os"@ && names[11] == "events"@);
    assert forall|i: int, j: int| 0 <= i < 12 && 0 <= j < 12 && i != j implies b[i] != b[j] by {
        if b[i].len() == b[j].len() {
            assert(b[i][0] != b[j][0] || b[i][1] != b[j][1] || b[i][b[i].len() - 1] != b[j][b[j].len() - 1]);
        }
    }
    assert forall|i: int| 0 <= i < modules.len() implies names.contains(#[trigger] modules[i].name@) by {
        assert(names[12 + i] == modules[i].name@);
    }
}

/// The level of a console message.
#[derive(Clone, Copy, Debug, PartialEq, Eq, Structural)]
pub enum LogLevel {
    Info,
    Warn,
    Debug,
    Trace,
    Error,
    Log,
}

/// The logger that writes the messages of the plugins' console to standard output.
#[derive(Debug, Clone, PartialEq, Eq)]
pub struct ConsoleLogger {}

impl ConsoleLogger {
    /// A console logger.
    pub fn new() -> (logger: ConsoleLogger)
        ensures
            logger == (ConsoleLogger {}),
    {
        ConsoleLogger {}
    }
}

/// The methods of the console and the level each logs at; `info` logs at the trace level.
pub open spec fn console_levels() -> Seq<(Seq<char>, LogLevel)> {
    seq![
        ("log"@, LogLevel::Log),
        ("warn"@, LogLevel::Warn),
        ("error"@, LogLevel::Error),
        ("debug"@, LogLevel::Debug),
        ("trace"@, LogLevel::Trace),
        ("info"@, LogLevel::Trace),
    ]
}

/// The methods of the console, in the order they are defined, with the level each logs at.
pub fn console_methods() -> (methods: Vec<(&'static str, LogLevel)>)
    ensures
        methods@.map_values(|m: (&'static str, LogLevel)| (m.0@, m.1)) == console_levels(),
{
    let mut methods: Vec<(&'static str, LogLevel)> = Vec::new();
    methods.push(("log", LogLevel::Log));
    methods.push(("warn", LogLevel::Warn));
    methods.push(("error", LogLevel::Error));
    methods.push(("debug", LogLevel::Debug));
    methods.push(("trace", LogLevel::Trace));
    methods.push(("info", LogLevel::Trace));
    assert(methods@.map_values(|m: (&'static str, LogLevel)| (m.0@, m.1)) =~= console_levels());
    methods
}

/// The object that `require` returns for a module.
#[derive(Clone, Copy, Debug, PartialEq, Eq, Structural)]
pub enum ExportsHolder {
    /// The module's default export, which is an object.
    DefaultExport,
    /// A new object.
    NewObject,
}

/// What `require` does with a module's exports: the object it returns and the exports it copies
/// onto that object, in order.
#[derive(Debug, Clone, PartialEq, Eq)]
pub struct RequirePlan {
    pub holder: ExportsHolder,
    pub copied: Vec<String>,
}

/// The exports that are not yet present on the default export, in order.
pub open spec fn missing_exports(exports: Seq<(String, bool)>) -> Seq<Seq<char>>
    decreases exports.len(),
{
    if exports.len() == 0 {
        Seq::empty()
    } else {
        let rest = missing_exports(exports.drop_last());
        if exports.last().1 {
            rest
        } else {
            rest.push(exports.last().0@)
        }
    }
}

/// How `require` presents a module's exports, given each export's name and whether the default
/// export already has a property of that name: when the default export is an object, the exports
/// it lacks are copied onto it and it is returned; otherwise every export is copied onto a new
/// object.
pub fn require_plan(exports: &Vec<(String, bool)>, default_is_object: bool) -> (plan: RequirePlan)
    ensures
        default_is_object ==> plan.holder == ExportsHolder::DefaultExport && plan.copied@.map_values(
            |s: String| s@,
        ) == missing_exports(exports@),
        !default_is_object ==> plan.holder == ExportsHolder::NewObject && plan.copied@.map_values(
            |s: String| s@,
        ) == exports@.map_values(|e: (String, bool)| e.0@),
{
    let mut copied: Vec<String> = Vec::new();
    let n = exports.len();
    let mut i: usize = 0;
    while i < n
        invariant
            n == exports@.len(),
            i <= n,
            default_is_object ==> copied@.map_values(|s: String| s@) == missing_exports(exports@.take(i as int)),
            !default_is_object ==> copied@.map_values(|s: String| s@) == exports@.take(i as int).map_values(
                |e: (String, bool)| e.0@,
            ),
        decreases n - i,
    {
        assert(exports@.take(i + 1).drop_last() =~= exports@.take(i as int));
        assert(exports@.take(i + 1).last() == exports@[i as int]);
        assert(exports@.take(i + 1).map_values(|e: (String, bool)| e.0@) =~= exports@.take(
            i as int,
        ).map_values(|e: (String, bool)| e.0@).push(exports@[i as int].0@));
        if !default_is_object || !exports[i].1 {
            copied.push(exports[i].0.clone());
        }
        assert(default_is_object ==> copied@.map_values(|s: String| s@) =~= missing_exports(
            exports@.take(i + 1),
        ));
        assert(!default_is_object ==> copied@.map_values(|s: String| s@) =~= exports@.take(
            i + 1,
        ).map_values(|e: (String, bool)| e.0@));
        i = i + 1;
    }
    assert(exports@.take(n as int) =~= exports@);
    let holder = if default_is_object {
        ExportsHolder::DefaultExport
    } else {
        ExportsHolder::NewObject
    };
    RequirePlan { holder, copied }
}

} // verus!
