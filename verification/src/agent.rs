//! The coding agent's command runner: which tools exist, which programs and
//! arguments the safe terminal accepts, how a request becomes a process
//! invocation, and how its output is bounded.
use vstd::prelude::*;
use vstd::string::StringSliceAdditionalSpecFns;
use crate::text::{
    chars_of, contains, contains_seq, join_strings, join_with, lower_seq, owned, str_eq,
    strings_view, strip_suffixes, strip_suffixes_exec, to_lower, trim, trim_vec, vec_eq,
    has_char, byte_len, is_ws, lower_char, trim_end, trim_start,
};
use crate::paths::{canonicalize_path, path_is_dir, path_is_absolute, path_join, path_starts_with, absolute_path, joined_path, path_within};

verus! {

/// Bytes of command output forwarded per command.
pub const MAX_OUTPUT_BYTES: usize = 524288;

/// Longest a command may run, in seconds.
pub const MAX_COMMAND_SECS: u64 = 900;

/// The operating system the runner works for.
#[derive(Clone, Copy, Debug, PartialEq, Eq)]
pub enum Platform {
    Windows,
    Unix,
}

// ---------------------------------------------------------------- tools

/// A capability offered to the model, with its risk and permission level.
#[derive(Clone, Debug)]
pub struct AgentToolSpec {
    pub id: &'static str,
    pub description: &'static str,
    pub risk: &'static str,
    pub permission: &'static str,
    pub timeout_secs: u64,
    pub cancellable: bool,
}

pub struct ToolView {
    pub id: Seq<char>,
    pub description: Seq<char>,
    pub risk: Seq<char>,
    pub permission: Seq<char>,
    pub timeout_secs: u64,
    pub cancellable: bool,
}

impl View for AgentToolSpec {
    type V = ToolView;

    open spec fn view(&self) -> ToolView {
        ToolView {
            id: self.id@,
            description: self.description@,
            risk: self.risk@,
            permission: self.permission@,
            timeout_secs: self.timeout_secs,
            cancellable: self.cancellable,
        }
    }
}

pub open spec fn tool(
    id: Seq<char>,
    description: Seq<char>,
    risk: Seq<char>,
    permission: Seq<char>,
    timeout_secs: u64,
    cancellable: bool,
) -> ToolView {
    ToolView { id, description, risk, permission, timeout_secs, cancellable }
}

/// The agent's tools, in the order they are offered.
pub open spec fn agent_tools() -> Seq<ToolView> {
    seq![
        tool("list_directory"@, "Lista contenido dentro del proyecto"@, "low"@, "read"@, 10, false),
        tool("read_file"@, "Lee un archivo de texto seguro"@, "low"@, "read"@, 10, false),
        tool("search_text"@, "Busca texto en archivos del proyecto"@, "low"@, "read"@, 30, true),
        tool(
            "write_file"@,
            "Crea o modifica un archivo mostrando diff"@,
            "medium"@,
            "write"@,
            10,
            false,
        ),
        tool(
            "delete_path"@,
            "Elimina un elemento tras aprobación explícita"@,
            "high"@,
            "destructive"@,
            10,
            false,
        ),
        tool(
            "run_command"@,
            "Ejecuta una herramienta permitida dentro del proyecto"@,
            "medium"@,
            "execute"@,
            MAX_COMMAND_SECS,
            true,
        ),
        tool(
            "run_tests"@,
            "Ejecuta las pruebas detectadas del proyecto"@,
            "medium"@,
            "execute"@,
            MAX_COMMAND_SECS,
            true,
        ),
        tool(
            "run_build"@,
            "Compila el proyecto con un comando detectado"@,
            "medium"@,
            "execute"@,
            MAX_COMMAND_SECS,
            true,
        ),
    ]
}

pub fn list_agent_tools() -> (r: Vec<AgentToolSpec>)
    ensures
        r@.map_values(|t: AgentToolSpec| t@) == agent_tools(),
{
    let r = vec![
        AgentToolSpec {
            id: "list_directory",
            description: "Lista contenido dentro del proyecto",
            risk: "low",
            permission: "read",
            timeout_secs: 10,
            cancellable: false,
        },
        AgentToolSpec {
            id: "read_file",
            description: "Lee un archivo de texto seguro",
            risk: "low",
            permission: "read",
            timeout_secs: 10,
            cancellable: false,
        },
        AgentToolSpec {
            id: "search_text",
            description: "Busca texto en archivos del proyecto",
            risk: "low",
            permission: "read",
            timeout_secs: 30,
            cancellable: true,
        },
        AgentToolSpec {
            id: "write_file",
            description: "Crea o modifica un archivo mostrando diff",
            risk: "medium",
            permission: "write",
            timeout_secs: 10,
            cancellable: false,
        },
        AgentToolSpec {
            id: "delete_path",
            description: "Elimina un elemento tras aprobación explícita",
            risk: "high",
            permission: "destructive",
            timeout_secs: 10,
            cancellable: false,
        },
        AgentToolSpec {
            id: "run_command",
            description: "Ejecuta una herramienta permitida dentro del proyecto",
            risk: "medium",
            permission: "execute",
            timeout_secs: MAX_COMMAND_SECS,
            cancellable: true,
        },
        AgentToolSpec {
            id: "run_tests",
            description: "Ejecuta las pruebas detectadas del proyecto",
            risk: "medium",
            permission: "execute",
            timeout_secs: MAX_COMMAND_SECS,
            cancellable: true,
        },
        AgentToolSpec {
            id: "run_build",
            description: "Compila el proyecto con un comando detectado",
            risk: "medium",
            permission: "execute",
            timeout_secs: MAX_COMMAND_SECS,
            cancellable: true,
        },
    ];
    assert(r@.map_values(|t: AgentToolSpec| t@) =~= agent_tools());
    r
}

// ---------------------------------------------------------------- requests

/// A command the model asked to run, as the interface sends it.
#[derive(Clone, Debug)]
pub struct AgentCommandRequest {
    pub request_id: String,
    pub root: String,
    pub cwd: String,
    pub program: String,
    pub args: Vec<String>,
    pub timeout_secs: u64,
    pub terminal_mode: String,
    pub shell: String,
    pub command: Option<String>,
}

/// A command found in a project's build files.
#[derive(Clone, Debug)]
pub struct DetectedCommand {
    pub id: String,
    pub label: String,
    pub program: String,
    pub args: Vec<String>,
    pub kind: String,
}

/// Progress of a running command, as reported to the interface.
#[derive(Clone, Debug)]
pub enum AgentCommandEvent {
    Started { command: String },
    Output { stream: String, text: String },
    Finished { exit_code: Option<i32>, duration_ms: u64, truncated: bool },
    Cancelled,
    Error { code: String, title: String, explanation: String, action: String },
}

pub open spec fn opt_view(o: Option<String>) -> Option<Seq<char>> {
    match o {
        Some(s) => Some(s@),
        None => None,
    }
}

/// A shell command line was supplied (anything but whitespace).
pub open spec fn has_shell_command(command: Option<Seq<char>>) -> bool {
    match command {
        Some(c) => trim(c).len() > 0,
        None => false,
    }
}

/// The request asks for Vareliox's own system summary rather than a process.
pub open spec fn system_info_request(command: Option<Seq<char>>, program: Seq<char>) -> bool {
    !has_shell_command(command) && lower_seq(trim(program)) == "nova-system-info"@
}

fn has_shell_command_exec(command: &Option<String>) -> (r: bool)
    ensures
        r == has_shell_command(opt_view(*command)),
{
    match command {
        Some(c) => trim_vec(&chars_of(c.as_str())).len() > 0,
        None => false,
    }
}

pub fn is_system_info_request(request: &AgentCommandRequest) -> (r: bool)
    ensures
        r == system_info_request(opt_view(request.command), request.program@),
{
    if has_shell_command_exec(&request.command) {
        return false;
    }
    let name = to_lower(&trim_vec(&chars_of(request.program.as_str())));
    vec_eq(&name, &chars_of("nova-system-info"))
}

// ---------------------------------------------------------------- programs

/// The executable that the safe terminal runs for a program name reduced to
/// lower case without `.exe`/`.cmd` suffixes; `None` for programs outside the
/// allowlist.
pub open spec fn program_for(b: Seq<char>, p: Platform) -> Option<Seq<char>> {
    let win = p == Platform::Windows;
    if b == "npm"@ {
        Some(if win { "npm.cmd"@ } else { "npm"@ })
    } else if b == "npx"@ {
        Some(if win { "npx.cmd"@ } else { "npx"@ })
    } else if b == "pnpm"@ {
        Some(if win { "pnpm.cmd"@ } else { "pnpm"@ })
    } else if b == "yarn"@ {
        Some(if win { "yarn.cmd"@ } else { "yarn"@ })
    } else if b == "cargo"@ {
        Some("cargo"@)
    } else if b == "rustc"@ {
        Some("rustc"@)
    } else if b == "python"@ || b == "py"@ {
        Some(if win { "python"@ } else { "python3"@ })
    } else if b == "pytest"@ {
        Some("pytest"@)
    } else if b == "dotnet"@ {
        Some("dotnet"@)
    } else if b == "go"@ {
        Some("go"@)
    } else if b == "java"@ {
        Some("java"@)
    } else if b == "mvn"@ {
        Some(if win { "mvn.cmd"@ } else { "mvn"@ })
    } else if b == "gradle"@ {
        Some("gradle"@)
    } else if b == "git"@ {
        Some("git"@)
    } else if win && b == "systeminfo"@ {
        Some("systeminfo"@)
    } else if win && b == "wmic"@ {
        Some("wmic"@)
    } else if !win && b == "df"@ {
        Some("df"@)
    } else if !win && b == "free"@ {
        Some("free"@)
    } else if !win && b == "uname"@ {
        Some("uname"@)
    } else if !win && b == "ls"@ {
        Some("ls"@)
    } else if !win && b == "pwd"@ {
        Some("pwd"@)
    } else if !win && b == "du"@ {
        Some("du"@)
    } else {
        None
    }
}

/// The name a program is looked up by: trimmed, ASCII-lower-cased, trailing
/// `.exe` and then `.cmd` suffixes removed.
pub open spec fn program_base(value: Seq<char>) -> Seq<char> {
    strip_suffixes(strip_suffixes(lower_seq(trim(value)), ".exe"@), ".cmd"@)
}

pub open spec fn allowed_program_spec(value: Seq<char>, p: Platform) -> Option<Seq<char>> {
    program_for(program_base(value), p)
}

fn is(b: &Vec<char>, lit: &str) -> (r: bool)
    ensures
        r == (b@ == lit@),
{
    vec_eq(b, &chars_of(lit))
}

/// The allowlisted executable for a requested program, if any.
pub fn allowed_program(value: &str, platform: Platform) -> (r: Option<&'static str>)
    ensures
        match r {
            Some(s) => allowed_program_spec(value@, platform) == Some(s@),
            None => allowed_program_spec(value@, platform) is None,
        },
{
    let lowered = to_lower(&trim_vec(&chars_of(value)));
    let b = strip_suffixes_exec(&strip_suffixes_exec(&lowered, &chars_of(".exe")), &chars_of(".cmd"));
    let win = match platform {
        Platform::Windows => true,
        Platform::Unix => false,
    };
    if is(&b, "npm") {
        Some(if win { "npm.cmd" } else { "npm" })
    } else if is(&b, "npx") {
        Some(if win { "npx.cmd" } else { "npx" })
    } else if is(&b, "pnpm") {
        Some(if win { "pnpm.cmd" } else { "pnpm" })
    } else if is(&b, "yarn") {
        Some(if win { "yarn.cmd" } else { "yarn" })
    } else if is(&b, "cargo") {
        Some("cargo")
    } else if is(&b, "rustc") {
        Some("rustc")
    } else if is(&b, "python") || is(&b, "py") {
        Some(if win { "python" } else { "python3" })
    } else if is(&b, "pytest") {
        Some("pytest")
    } else if is(&b, "dotnet") {
        Some("dotnet")
    } else if is(&b, "go") {
        Some("go")
    } else if is(&b, "java") {
        Some("java")
    } else if is(&b, "mvn") {
        Some(if win { "mvn.cmd" } else { "mvn" })
    } else if is(&b, "gradle") {
        Some("gradle")
    } else if is(&b, "git") {
        Some("git")
    } else if win && is(&b, "systeminfo") {
        Some("systeminfo")
    } else if win && is(&b, "wmic") {
        Some("wmic")
    } else if !win && is(&b, "df") {
        Some("df")
    } else if !win && is(&b, "free") {
        Some("free")
    } else if !win && is(&b, "uname") {
        Some("uname")
    } else if !win && is(&b, "ls") {
        Some("ls")
    } else if !win && is(&b, "pwd") {
        Some("pwd")
    } else if !win && is(&b, "du") {
        Some("du")
    } else {
        None
    }
}

/// A name for a program reads as itself once trimmed and lower-cased when it
/// does not end in `.exe` or `.cmd`.
proof fn lemma_base_of_plain(v: Seq<char>, name: Seq<char>)
    requires
        lower_seq(trim(v)) == name,
        name.len() < 4 || name[name.len() - 4] != '.',
    ensures
        program_base(v) == name,
{
    reveal_strlit(".exe");
    reveal_strlit(".cmd");
    if name.len() >= 4 {
        assert(name.subrange(name.len() - 4, name.len() as int)[0] == name[name.len() - 4]);
    }
    assert(!crate::text::ends_with(name, ".exe"@));
    assert(!crate::text::ends_with(name, ".cmd"@));
}

/// The programs of the safe terminal's allowlist are each accepted, however
/// they are spelled in case and surrounding spaces, and mapped to the
/// executable run on each platform: the package managers and tool chains on
/// both platforms (the `.cmd` launchers on Windows), `systeminfo` and `wmic`
/// on Windows only, and `df`, `free`, `uname`, `ls`, `pwd`, `du` on Unix only.
pub proof fn lemma_allowlist(v: Seq<char>, p: Platform)
    ensures
        lower_seq(trim(v)) == "npm"@ ==> allowed_program_spec(v, p) == if p == Platform::Windows {
            Some("npm.cmd"@)
        } else {
            Some("npm"@)
        },
        lower_seq(trim(v)) == "npx"@ ==> allowed_program_spec(v, p) == if p == Platform::Windows {
            Some("npx.cmd"@)
        } else {
            Some("npx"@)
        },
        lower_seq(trim(v)) == "pnpm"@ ==> allowed_program_spec(v, p) == if p == Platform::Windows {
            Some("pnpm.cmd"@)
        } else {
            Some("pnpm"@)
        },
        lower_seq(trim(v)) == "yarn"@ ==> allowed_program_spec(v, p) == if p == Platform::Windows {
            Some("yarn.cmd"@)
        } else {
            Some("yarn"@)
        },
        lower_seq(trim(v)) == "cargo"@ ==> allowed_program_spec(v, p) == Some("cargo"@),
        lower_seq(trim(v)) == "rustc"@ ==> allowed_program_spec(v, p) == Some("rustc"@),
        lower_seq(trim(v)) == "python"@ ==> allowed_program_spec(v, p) == if p == Platform::Windows {
            Some("python"@)
        } else {
            Some("python3"@)
        },
        lower_seq(trim(v)) == "py"@ ==> allowed_program_spec(v, p) == if p == Platform::Windows {
            Some("python"@)
        } else {
            Some("python3"@)
        },
        lower_seq(trim(v)) == "pytest"@ ==> allowed_program_spec(v, p) == Some("pytest"@),
        lower_seq(trim(v)) == "dotnet"@ ==> allowed_program_spec(v, p) == Some("dotnet"@),
        lower_seq(trim(v)) == "go"@ ==> allowed_program_spec(v, p) == Some("go"@),
        lower_seq(trim(v)) == "java"@ ==> allowed_program_spec(v, p) == Some("java"@),
        lower_seq(trim(v)) == "mvn"@ ==> allowed_program_spec(v, p) == if p == Platform::Windows {
            Some("mvn.cmd"@)
        } else {
            Some("mvn"@)
        },
        lower_seq(trim(v)) == "gradle"@ ==> allowed_program_spec(v, p) == Some("gradle"@),
        lower_seq(trim(v)) == "git"@ ==> allowed_program_spec(v, p) == Some("git"@),
        lower_seq(trim(v)) == "systeminfo"@ ==> allowed_program_spec(v, p) == if p == Platform::Windows {
            Some("systeminfo"@)
        } else {
            None
        },
        lower_seq(trim(v)) == "wmic"@ ==> allowed_program_spec(v, p) == if p == Platform::Windows {
            Some("wmic"@)
        } else {
            None
        },
        lower_seq(trim(v)) == "df"@ ==> allowed_program_spec(v, p) == if p == Platform::Windows {
            None
        } else {
            Some("df"@)
        },
        lower_seq(trim(v)) == "free"@ ==> allowed_program_spec(v, p) == if p == Platform::Windows {
            None
        } else {
            Some("free"@)
        },
        lower_seq(trim(v)) == "uname"@ ==> allowed_program_spec(v, p) == if p == Platform::Windows {
            None
        } else {
            Some("uname"@)
        },
        lower_seq(trim(v)) == "ls"@ ==> allowed_program_spec(v, p) == if p == Platform::Windows {
            None
        } else {
            Some("ls"@)
        },
        lower_seq(trim(v)) == "pwd"@ ==> allowed_program_spec(v, p) == if p == Platform::Windows {
            None
        } else {
            Some("pwd"@)
        },
        lower_seq(trim(v)) == "du"@ ==> allowed_program_spec(v, p) == if p == Platform::Windows {
            None
        } else {
            Some("du"@)
        },
{
    reveal_strlit("cargo");
    reveal_strlit("df");
    reveal_strlit("dotnet");
    reveal_strlit("du");
    reveal_strlit("free");
    reveal_strlit("git");
    reveal_strlit("go");
    reveal_strlit("gradle");
    reveal_strlit("java");
    reveal_strlit("ls");
    reveal_strlit("mvn");
    reveal_strlit("mvn.cmd");
    reveal_strlit("npm");
    reveal_strlit("npm.cmd");
    reveal_strlit("npx");
    reveal_strlit("npx.cmd");
    reveal_strlit("pnpm");
    reveal_strlit("pnpm.cmd");
    reveal_strlit("pwd");
    reveal_strlit("py");
    reveal_strlit("pytest");
    reveal_strlit("python");
    reveal_strlit("python3");
    reveal_strlit("rustc");
    reveal_strlit("systeminfo");
    reveal_strlit("uname");
    reveal_strlit("wmic");
    reveal_strlit("yarn");
    reveal_strlit("yarn.cmd");
    if lower_seq(trim(v)) == "npm"@ {
        lemma_base_of_plain(v, "npm"@);
    }
    if lower_seq(trim(v)) == "npx"@ {
        lemma_base_of_plain(v, "npx"@);
        assert("npx"@[2] != "npm"@[2]);
    }
    if lower_seq(trim(v)) == "pnpm"@ {
        lemma_base_of_plain(v, "pnpm"@);
    }
    if lower_seq(trim(v)) == "yarn"@ {
        lemma_base_of_plain(v, "yarn"@);
        assert("yarn"@[0] != "pnpm"@[0]);
    }
    if lower_seq(trim(v)) == "cargo"@ {
        lemma_base_of_plain(v, "cargo"@);
    }
    if lower_seq(trim(v)) == "rustc"@ {
        lemma_base_of_plain(v, "rustc"@);
        assert("rustc"@[0] != "cargo"@[0]);
    }
    if lower_seq(trim(v)) == "python"@ {
        lemma_base_of_plain(v, "python"@);
    }
    if lower_seq(trim(v)) == "py"@ {
        lemma_base_of_plain(v, "py"@);
    }
    if lower_seq(trim(v)) == "pytest"@ {
        lemma_base_of_plain(v, "pytest"@);
        assert("pytest"@[3] != "python"@[3]);
    }
    if lower_seq(trim(v)) == "dotnet"@ {
        lemma_base_of_plain(v, "dotnet"@);
        assert("dotnet"@[0] != "python"@[0]);
        assert("dotnet"@[0] != "pytest"@[0]);
    }
    if lower_seq(trim(v)) == "go"@ {
        lemma_base_of_plain(v, "go"@);
        assert("go"@[0] != "py"@[0]);
    }
    if lower_seq(trim(v)) == "java"@ {
        lemma_base_of_plain(v, "java"@);
        assert("java"@[0] != "pnpm"@[0]);
        assert("java"@[0] != "yarn"@[0]);
    }
    if lower_seq(trim(v)) == "mvn"@ {
        lemma_base_of_plain(v, "mvn"@);
        assert("mvn"@[0] != "npm"@[0]);
        assert("mvn"@[0] != "npx"@[0]);
    }
    if lower_seq(trim(v)) == "gradle"@ {
        lemma_base_of_plain(v, "gradle"@);
        assert("gradle"@[0] != "python"@[0]);
        assert("gradle"@[0] != "pytest"@[0]);
        assert("gradle"@[0] != "dotnet"@[0]);
    }
    if lower_seq(trim(v)) == "git"@ {
        lemma_base_of_plain(v, "git"@);
        assert("git"@[0] != "npm"@[0]);
        assert("git"@[0] != "npx"@[0]);
        assert("git"@[0] != "mvn"@[0]);
    }
    if lower_seq(trim(v)) == "systeminfo"@ {
        lemma_base_of_plain(v, "systeminfo"@);
    }
    if lower_seq(trim(v)) == "wmic"@ {
        lemma_base_of_plain(v, "wmic"@);
        assert("wmic"@[0] != "pnpm"@[0]);
        assert("wmic"@[0] != "yarn"@[0]);
        assert("wmic"@[0] != "java"@[0]);
    }
    if lower_seq(trim(v)) == "df"@ {
        lemma_base_of_plain(v, "df"@);
        assert("df"@[0] != "py"@[0]);
        assert("df"@[0] != "go"@[0]);
    }
    if lower_seq(trim(v)) == "free"@ {
        lemma_base_of_plain(v, "free"@);
        assert("free"@[0] != "pnpm"@[0]);
        assert("free"@[0] != "yarn"@[0]);
        assert("free"@[0] != "java"@[0]);
        assert("free"@[0] != "wmic"@[0]);
    }
    if lower_seq(trim(v)) == "uname"@ {
        lemma_base_of_plain(v, "uname"@);
        assert("uname"@[0] != "cargo"@[0]);
        assert("uname"@[0] != "rustc"@[0]);
    }
    if lower_seq(trim(v)) == "ls"@ {
        lemma_base_of_plain(v, "ls"@);
        assert("ls"@[0] != "py"@[0]);
        assert("ls"@[0] != "go"@[0]);
        assert("ls"@[0] != "df"@[0]);
    }
    if lower_seq(trim(v)) == "pwd"@ {
        lemma_base_of_plain(v, "pwd"@);
        assert("pwd"@[0] != "npm"@[0]);
        assert("pwd"@[0] != "npx"@[0]);
        assert("pwd"@[0] != "mvn"@[0]);
        assert("pwd"@[0] != "git"@[0]);
    }
    if lower_seq(trim(v)) == "du"@ {
        lemma_base_of_plain(v, "du"@);
        assert("du"@[0] != "py"@[0]);
        assert("du"@[0] != "go"@[0]);
        assert("du"@[1] != "df"@[1]);
        assert("du"@[0] != "ls"@[0]);
    }
}


/// Shells, download tools and other programs outside the allowlist are
/// refused by the safe terminal however they are spelled in case and
/// surrounding spaces (and with or without `.exe`).
pub proof fn lemma_refused_programs(v: Seq<char>, p: Platform)
    ensures
        lower_seq(trim(v)) == "bash"@ ==> allowed_program_spec(v, p) is None,
        lower_seq(trim(v)) == "bash.exe"@ ==> allowed_program_spec(v, p) is None,
        lower_seq(trim(v)) == "sh"@ ==> allowed_program_spec(v, p) is None,
        lower_seq(trim(v)) == "sh.exe"@ ==> allowed_program_spec(v, p) is None,
        lower_seq(trim(v)) == "zsh"@ ==> allowed_program_spec(v, p) is None,
        lower_seq(trim(v)) == "zsh.exe"@ ==> allowed_program_spec(v, p) is None,
        lower_seq(trim(v)) == "cmd"@ ==> allowed_program_spec(v, p) is None,
        lower_seq(trim(v)) == "cmd.exe"@ ==> allowed_program_spec(v, p) is None,
        lower_seq(trim(v)) == "pwsh"@ ==> allowed_program_spec(v, p) is None,
        lower_seq(trim(v)) == "pwsh.exe"@ ==> allowed_program_spec(v, p) is None,
        lower_seq(trim(v)) == "powershell"@ ==> allowed_program_spec(v, p) is None,
        lower_seq(trim(v)) == "powershell.exe"@ ==> allowed_program_spec(v, p) is None,
        lower_seq(trim(v)) == "curl"@ ==> allowed_program_spec(v, p) is None,
        lower_seq(trim(v)) == "curl.exe"@ ==> allowed_program_spec(v, p) is None,
        lower_seq(trim(v)) == "wget"@ ==> allowed_program_spec(v, p) is None,
        lower_seq(trim(v)) == "wget.exe"@ ==> allowed_program_spec(v, p) is None,
        lower_seq(trim(v)) == "rm"@ ==> allowed_program_spec(v, p) is None,
        lower_seq(trim(v)) == "rm.exe"@ ==> allowed_program_spec(v, p) is None,
        lower_seq(trim(v)) == "sudo"@ ==> allowed_program_spec(v, p) is None,
        lower_seq(trim(v)) == "sudo.exe"@ ==> allowed_program_spec(v, p) is None,
{
    reveal_strlit(".cmd");
    reveal_strlit(".exe");
    reveal_strlit("bash");
    reveal_strlit("bash.exe");
    reveal_strlit("cargo");
    reveal_strlit("cmd");
    reveal_strlit("cmd.exe");
    reveal_strlit("curl");
    reveal_strlit("curl.exe");
    reveal_strlit("df");
    reveal_strlit("dotnet");
    reveal_strlit("du");
    reveal_strlit("free");
    reveal_strlit("git");
    reveal_strlit("go");
    reveal_strlit("gradle");
    reveal_strlit("java");
    reveal_strlit("ls");
    reveal_strlit("mvn");
    reveal_strlit("npm");
    reveal_strlit("npx");
    reveal_strlit("pnpm");
    reveal_strlit("powershell");
    reveal_strlit("powershell.exe");
    reveal_strlit("pwd");
    reveal_strlit("pwsh");
    reveal_strlit("pwsh.exe");
    reveal_strlit("py");
    reveal_strlit("pytest");
    reveal_strlit("python");
    reveal_strlit("rm");
    reveal_strlit("rm.exe");
    reveal_strlit("rustc");
    reveal_strlit("sh");
    reveal_strlit("sh.exe");
    reveal_strlit("sudo");
    reveal_strlit("sudo.exe");
    reveal_strlit("systeminfo");
    reveal_strlit("uname");
    reveal_strlit("wget");
    reveal_strlit("wget.exe");
    reveal_strlit("wmic");
    reveal_strlit("yarn");
    reveal_strlit("zsh");
    reveal_strlit("zsh.exe");
    if lower_seq(trim(v)) == "bash"@ {
        lemma_base_of_plain(v, "bash"@);
        assert("bash"@[0] != "pnpm"@[0]);
        assert("bash"@[0] != "yarn"@[0]);
        assert("bash"@[0] != "java"@[0]);
        assert("bash"@[0] != "wmic"@[0]);
        assert("bash"@[0] != "free"@[0]);
    }
    if lower_seq(trim(v)) == "bash.exe"@ {
        let l = lower_seq(trim(v));
        assert(l.subrange(l.len() - 4, l.len() as int) =~= ".exe"@);
        assert(l.take(l.len() - 4) =~= "bash"@);
        assert(crate::text::strip_suffixes("bash"@, ".exe"@) == "bash"@) by {
            if "bash"@.len() >= 4 {
                assert("bash"@.subrange("bash"@.len() - 4, "bash"@.len() as int)[0] == "bash"@["bash"@.len() - 4]);
            }
        }
        assert(crate::text::strip_suffixes("bash"@, ".cmd"@) == "bash"@) by {
            if "bash"@.len() >= 4 {
                assert("bash"@.subrange("bash"@.len() - 4, "bash"@.len() as int)[0] == "bash"@["bash"@.len() - 4]);
            }
        }
        assert("bash"@[0] != "pnpm"@[0]);
        assert("bash"@[0] != "yarn"@[0]);
        assert("bash"@[0] != "java"@[0]);
        assert("bash"@[0] != "wmic"@[0]);
        assert("bash"@[0] != "free"@[0]);
    }
    if lower_seq(trim(v)) == "sh"@ {
        lemma_base_of_plain(v, "sh"@);
        assert("sh"@[0] != "py"@[0]);
        assert("sh"@[0] != "go"@[0]);
        assert("sh"@[0] != "df"@[0]);
        assert("sh"@[0] != "ls"@[0]);
        assert("sh"@[0] != "du"@[0]);
    }
    if lower_seq(trim(v)) == "sh.exe"@ {
        let l = lower_seq(trim(v));
        assert(l.subrange(l.len() - 4, l.len() as int) =~= ".exe"@);
        assert(l.take(l.len() - 4) =~= "sh"@);
        assert(crate::text::strip_suffixes("sh"@, ".exe"@) == "sh"@) by {
            if "sh"@.len() >= 4 {
                assert("sh"@.subrange("sh"@.len() - 4, "sh"@.len() as int)[0] == "sh"@["sh"@.len() - 4]);
            }
        }
        assert(crate::text::strip_suffixes("sh"@, ".cmd"@) == "sh"@) by {
            if "sh"@.len() >= 4 {
                assert("sh"@.subrange("sh"@.len() - 4, "sh"@.len() as int)[0] == "sh"@["sh"@.len() - 4]);
            }
        }
        assert("sh"@[0] != "py"@[0]);
        assert("sh"@[0] != "go"@[0]);
        assert("sh"@[0] != "df"@[0]);
        assert("sh"@[0] != "ls"@[0]);
        assert("sh"@[0] != "du"@[0]);
    }
    if lower_seq(trim(v)) == "zsh"@ {
        lemma_base_of_plain(v, "zsh"@);
        assert("zsh"@[0] != "npm"@[0]);
        assert("zsh"@[0] != "npx"@[0]);
        assert("zsh"@[0] != "mvn"@[0]);
        assert("zsh"@[0] != "git"@[0]);
        assert("zsh"@[0] != "pwd"@[0]);
    }
    if lower_seq(trim(v)) == "zsh.exe"@ {
        let l = lower_seq(trim(v));
        assert(l.subrange(l.len() - 4, l.len() as int) =~= ".exe"@);
        assert(l.take(l.len() - 4) =~= "zsh"@);
        assert(crate::text::strip_suffixes("zsh"@, ".exe"@) == "zsh"@) by {
            if "zsh"@.len() >= 4 {
                assert("zsh"@.subrange("zsh"@.len() - 4, "zsh"@.len() as int)[0] == "zsh"@["zsh"@.len() - 4]);
            }
        }
        assert(crate::text::strip_suffixes("zsh"@, ".cmd"@) == "zsh"@) by {
            if "zsh"@.len() >= 4 {
                assert("zsh"@.subrange("zsh"@.len() - 4, "zsh"@.len() as int)[0] == "zsh"@["zsh"@.len() - 4]);
            }
        }
        assert("zsh"@[0] != "npm"@[0]);
        assert("zsh"@[0] != "npx"@[0]);
        assert("zsh"@[0] != "mvn"@[0]);
        assert("zsh"@[0] != "git"@[0]);
        assert("zsh"@[0] != "pwd"@[0]);
    }
    if lower_seq(trim(v)) == "cmd"@ {
        lemma_base_of_plain(v, "cmd"@);
        assert("cmd"@[0] != "npm"@[0]);
        assert("cmd"@[0] != "npx"@[0]);
        assert("cmd"@[0] != "mvn"@[0]);
        assert("cmd"@[0] != "git"@[0]);
        assert("cmd"@[0] != "pwd"@[0]);
    }
    if lower_seq(trim(v)) == "cmd.exe"@ {
        let l = lower_seq(trim(v));
        assert(l.subrange(l.len() - 4, l.len() as int) =~= ".exe"@);
        assert(l.take(l.len() - 4) =~= "cmd"@);
        assert(crate::text::strip_suffixes("cmd"@, ".exe"@) == "cmd"@) by {
            if "cmd"@.len() >= 4 {
                assert("cmd"@.subrange("cmd"@.len() - 4, "cmd"@.len() as int)[0] == "cmd"@["cmd"@.len() - 4]);
            }
        }
        assert(crate::text::strip_suffixes("cmd"@, ".cmd"@) == "cmd"@) by {
            if "cmd"@.len() >= 4 {
                assert("cmd"@.subrange("cmd"@.len() - 4, "cmd"@.len() as int)[0] == "cmd"@["cmd"@.len() - 4]);
            }
        }
        assert("cmd"@[0] != "npm"@[0]);
        assert("cmd"@[0] != "npx"@[0]);
        assert("cmd"@[0] != "mvn"@[0]);
        assert("cmd"@[0] != "git"@[0]);
        assert("cmd"@[0] != "pwd"@[0]);
    }
    if lower_seq(trim(v)) == "pwsh"@ {
        lemma_base_of_plain(v, "pwsh"@);
        assert("pwsh"@[1] != "pnpm"@[1]);
        assert("pwsh"@[0] != "yarn"@[0]);
        assert("pwsh"@[0] != "java"@[0]);
        assert("pwsh"@[0] != "wmic"@[0]);
        assert("pwsh"@[0] != "free"@[0]);
    }
    if lower_seq(trim(v)) == "pwsh.exe"@ {
        let l = lower_seq(trim(v));
        assert(l.subrange(l.len() - 4, l.len() as int) =~= ".exe"@);
        assert(l.take(l.len() - 4) =~= "pwsh"@);
        assert(crate::text::strip_suffixes("pwsh"@, ".exe"@) == "pwsh"@) by {
            if "pwsh"@.len() >= 4 {
                assert("pwsh"@.subrange("pwsh"@.len() - 4, "pwsh"@.len() as int)[0] == "pwsh"@["pwsh"@.len() - 4]);
            }
        }
        assert(crate::text::strip_suffixes("pwsh"@, ".cmd"@) == "pwsh"@) by {
            if "pwsh"@.len() >= 4 {
                assert("pwsh"@.subrange("pwsh"@.len() - 4, "pwsh"@.len() as int)[0] == "pwsh"@["pwsh"@.len() - 4]);
            }
        }
        assert("pwsh"@[1] != "pnpm"@[1]);
        assert("pwsh"@[0] != "yarn"@[0]);
        assert("pwsh"@[0] != "java"@[0]);
        assert("pwsh"@[0] != "wmic"@[0]);
        assert("pwsh"@[0] != "free"@[0]);
    }
    if lower_seq(trim(v)) == "powershell"@ {
        lemma_base_of_plain(v, "powershell"@);
        assert("powershell"@[0] != "systeminfo"@[0]);
    }
    if lower_seq(trim(v)) == "powershell.exe"@ {
        let l = lower_seq(trim(v));
        assert(l.subrange(l.len() - 4, l.len() as int) =~= ".exe"@);
        assert(l.take(l.len() - 4) =~= "powershell"@);
        assert(crate::text::strip_suffixes("powershell"@, ".exe"@) == "powershell"@) by {
            if "powershell"@.len() >= 4 {
                assert("powershell"@.subrange("powershell"@.len() - 4, "powershell"@.len() as int)[0] == "powershell"@["powershell"@.len() - 4]);
            }
        }
        assert(crate::text::strip_suffixes("powershell"@, ".cmd"@) == "powershell"@) by {
            if "powershell"@.len() >= 4 {
                assert("powershell"@.subrange("powershell"@.len() - 4, "powershell"@.len() as int)[0] == "powershell"@["powershell"@.len() - 4]);
            }
        }
        assert("powershell"@[0] != "systeminfo"@[0]);
    }
    if lower_seq(trim(v)) == "curl"@ {
        lemma_base_of_plain(v, "curl"@);
        assert("curl"@[0] != "pnpm"@[0]);
        assert("curl"@[0] != "yarn"@[0]);
        assert("curl"@[0] != "java"@[0]);
        assert("curl"@[0] != "wmic"@[0]);
        assert("curl"@[0] != "free"@[0]);
    }
    if lower_seq(trim(v)) == "curl.exe"@ {
        let l = lower_seq(trim(v));
        assert(l.subrange(l.len() - 4, l.len() as int) =~= ".exe"@);
        assert(l.take(l.len() - 4) =~= "curl"@);
        assert(crate::text::strip_suffixes("curl"@, ".exe"@) == "curl"@) by {
            if "curl"@.len() >= 4 {
                assert("curl"@.subrange("curl"@.len() - 4, "curl"@.len() as int)[0] == "curl"@["curl"@.len() - 4]);
            }
        }
        assert(crate::text::strip_suffixes("curl"@, ".cmd"@) == "curl"@) by {
            if "curl"@.len() >= 4 {
                assert("curl"@.subrange("curl"@.len() - 4, "curl"@.len() as int)[0] == "curl"@["curl"@.len() - 4]);
            }
        }
        assert("curl"@[0] != "pnpm"@[0]);
        assert("curl"@[0] != "yarn"@[0]);
        assert("curl"@[0] != "java"@[0]);
        assert("curl"@[0] != "wmic"@[0]);
        assert("curl"@[0] != "free"@[0]);
    }
    if lower_seq(trim(v)) == "wget"@ {
        lemma_base_of_plain(v, "wget"@);
        assert("wget"@[0] != "pnpm"@[0]);
        assert("wget"@[0] != "yarn"@[0]);
        assert("wget"@[0] != "java"@[0]);
        assert("wget"@[1] != "wmic"@[1]);
        assert("wget"@[0] != "free"@[0]);
    }
    if lower_seq(trim(v)) == "wget.exe"@ {
        let l = lower_seq(trim(v));
        assert(l.subrange(l.len() - 4, l.len() as int) =~= ".exe"@);
        assert(l.take(l.len() - 4) =~= "wget"@);
        assert(crate::text::strip_suffixes("wget"@, ".exe"@) == "wget"@) by {
            if "wget"@.len() >= 4 {
                assert("wget"@.subrange("wget"@.len() - 4, "wget"@.len() as int)[0] == "wget"@["wget"@.len() - 4]);
            }
        }
        assert(crate::text::strip_suffixes("wget"@, ".cmd"@) == "wget"@) by {
            if "wget"@.len() >= 4 {
                assert("wget"@.subrange("wget"@.len() - 4, "wget"@.len() as int)[0] == "wget"@["wget"@.len() - 4]);
            }
        }
        assert("wget"@[0] != "pnpm"@[0]);
        assert("wget"@[0] != "yarn"@[0]);
        assert("wget"@[0] != "java"@[0]);
        assert("wget"@[1] != "wmic"@[1]);
        assert("wget"@[0] != "free"@[0]);
    }
    if lower_seq(trim(v)) == "rm"@ {
        lemma_base_of_plain(v, "rm"@);
        assert("rm"@[0] != "py"@[0]);
        assert("rm"@[0] != "go"@[0]);
        assert("rm"@[0] != "df"@[0]);
        assert("rm"@[0] != "ls"@[0]);
        assert("rm"@[0] != "du"@[0]);
    }
    if lower_seq(trim(v)) == "rm.exe"@ {
        let l = lower_seq(trim(v));
        assert(l.subrange(l.len() - 4, l.len() as int) =~= ".exe"@);
        assert(l.take(l.len() - 4) =~= "rm"@);
        assert(crate::text::strip_suffixes("rm"@, ".exe"@) == "rm"@) by {
            if "rm"@.len() >= 4 {
                assert("rm"@.subrange("rm"@.len() - 4, "rm"@.len() as int)[0] == "rm"@["rm"@.len() - 4]);
            }
        }
        assert(crate::text::strip_suffixes("rm"@, ".cmd"@) == "rm"@) by {
            if "rm"@.len() >= 4 {
                assert("rm"@.subrange("rm"@.len() - 4, "rm"@.len() as int)[0] == "rm"@["rm"@.len() - 4]);
            }
        }
        assert("rm"@[0] != "py"@[0]);
        assert("rm"@[0] != "go"@[0]);
        assert("rm"@[0] != "df"@[0]);
        assert("rm"@[0] != "ls"@[0]);
        assert("rm"@[0] != "du"@[0]);
    }
    if lower_seq(trim(v)) == "sudo"@ {
        lemma_base_of_plain(v, "sudo"@);
        assert("sudo"@[0] != "pnpm"@[0]);
        assert("sudo"@[0] != "yarn"@[0]);
        assert("sudo"@[0] != "java"@[0]);
        assert("sudo"@[0] != "wmic"@[0]);
        assert("sudo"@[0] != "free"@[0]);
    }
    if lower_seq(trim(v)) == "sudo.exe"@ {
        let l = lower_seq(trim(v));
        assert(l.subrange(l.len() - 4, l.len() as int) =~= ".exe"@);
        assert(l.take(l.len() - 4) =~= "sudo"@);
        assert(crate::text::strip_suffixes("sudo"@, ".exe"@) == "sudo"@) by {
            if "sudo"@.len() >= 4 {
                assert("sudo"@.subrange("sudo"@.len() - 4, "sudo"@.len() as int)[0] == "sudo"@["sudo"@.len() - 4]);
            }
        }
        assert(crate::text::strip_suffixes("sudo"@, ".cmd"@) == "sudo"@) by {
            if "sudo"@.len() >= 4 {
                assert("sudo"@.subrange("sudo"@.len() - 4, "sudo"@.len() as int)[0] == "sudo"@["sudo"@.len() - 4]);
            }
        }
        assert("sudo"@[0] != "pnpm"@[0]);
        assert("sudo"@[0] != "yarn"@[0]);
        assert("sudo"@[0] != "java"@[0]);
        assert("sudo"@[0] != "wmic"@[0]);
        assert("sudo"@[0] != "free"@[0]);
    }
}


/// ASCII lower-case letters map to upper case; every other character is kept.
pub open spec fn upper_char(c: char) -> char {
    if 'a' <= c && c <= 'z' {
        ((c as u32) - 32) as char
    } else {
        c
    }
}

pub open spec fn upper_seq(s: Seq<char>) -> Seq<char> {
    s.map_values(|c: char| upper_char(c))
}

proof fn lemma_upper_char(c: char)
    ensures
        lower_char(upper_char(c)) == lower_char(c),
        is_ws(upper_char(c)) == is_ws(c),
{
}

proof fn lemma_trim_start_upper(s: Seq<char>)
    ensures
        trim_start(upper_seq(s)) == upper_seq(trim_start(s)),
    decreases s.len(),
{
    if s.len() > 0 {
        lemma_upper_char(s[0]);
        if is_ws(s[0]) {
            assert(upper_seq(s).drop_first() =~= upper_seq(s.drop_first()));
            lemma_trim_start_upper(s.drop_first());
        }
    }
}

proof fn lemma_trim_end_upper(s: Seq<char>)
    ensures
        trim_end(upper_seq(s)) == upper_seq(trim_end(s)),
    decreases s.len(),
{
    if s.len() > 0 {
        lemma_upper_char(s.last());
        if is_ws(s.last()) {
            assert(upper_seq(s).drop_last() =~= upper_seq(s.drop_last()));
            lemma_trim_end_upper(s.drop_last());
        }
    }
}

proof fn lemma_trim_start_shape(s: Seq<char>)
    ensures
        trim_start(s).len() == 0 || !is_ws(trim_start(s)[0]),
    decreases s.len(),
{
    if s.len() > 0 && is_ws(s[0]) {
        lemma_trim_start_shape(s.drop_first());
    }
}

proof fn lemma_trim_end_shape(s: Seq<char>)
    ensures
        trim_end(s).len() <= s.len(),
        trim_end(s) == s.subrange(0, trim_end(s).len() as int),
        trim_end(s).len() == 0 || !is_ws(trim_end(s).last()),
    decreases s.len(),
{
    if s.len() > 0 && is_ws(s.last()) {
        lemma_trim_end_shape(s.drop_last());
        assert(s.drop_last().subrange(0, trim_end(s).len() as int) =~= s.subrange(0, trim_end(s).len() as int));
    } else {
        assert(s.subrange(0, s.len() as int) =~= s);
    }
}

/// Trimming twice is trimming once.
proof fn lemma_trim_twice(s: Seq<char>)
    ensures
        trim(trim(s)) == trim(s),
{
    let t = trim_start(s);
    lemma_trim_start_shape(s);
    lemma_trim_end_shape(t);
    let u = trim_end(t);
    if u.len() > 0 {
        assert(u[0] == t[0]);
    }
    assert(trim_start(u) == u);
    assert(trim_end(u) == u);
}

proof fn lemma_lower_upper(s: Seq<char>)
    ensures
        lower_seq(upper_seq(s)) == lower_seq(s),
{
    assert forall|i: int| 0 <= i < s.len() implies lower_seq(upper_seq(s))[i] == lower_seq(s)[i] by {
        lemma_upper_char(s[i]);
    }
    assert(lower_seq(upper_seq(s)) =~= lower_seq(s));
}

/// Program names are matched without regard to ASCII case or surrounding
/// whitespace: two names that agree once trimmed and lower-cased get the same
/// answer, and a name gets the same answer as its trimmed upper-case form.
pub proof fn lemma_program_case_insensitive(v: Seq<char>, w: Seq<char>, p: Platform)
    ensures
        lower_seq(trim(v)) == lower_seq(trim(w)) ==> allowed_program_spec(v, p)
            == allowed_program_spec(w, p),
        allowed_program_spec(upper_seq(trim(v)), p) == allowed_program_spec(v, p),
{
    let t = trim(v);
    lemma_trim_start_upper(t);
    lemma_trim_end_upper(trim_start(t));
    assert(trim(upper_seq(t)) == upper_seq(trim(t)));
    lemma_trim_twice(v);
    lemma_lower_upper(t);
    assert(lower_seq(trim(upper_seq(t))) == lower_seq(t));
}


// ---------------------------------------------------------------- arguments

pub open spec fn msg_unsafe_args() -> Seq<char> {
    "El comando contiene operadores de shell o argumentos no seguros."@
}

pub open spec fn msg_blocked_args() -> Seq<char> {
    "El comando intenta instalar globalmente, publicar, descargar scripts o modificar el sistema."@
}

/// Shell operators that an argument may not contain.
pub open spec fn shell_tokens() -> Seq<Seq<char>> {
    seq!["&&"@, "||"@, ";"@, "`"@, "$(`"@, ">"@, "<"@]
}

/// Phrases that mark global installs, publishing, downloads or system changes.
pub open spec fn blocked_phrases() -> Seq<Seq<char>> {
    seq![
        "--global"@, " -g "@, "install -g"@, "uninstall -g"@, "publish"@, "curl"@, "wget"@,
        "powershell"@, "cmd /c"@, "rm -rf"@, "rmdir /s"@, "format"@, "shutdown"@,
    ]
}

/// An argument longer than 500 bytes, holding NUL, or holding a shell operator.
pub open spec fn unsafe_arg(a: Seq<char>) -> bool {
    byte_len(a) > 500 || a.contains('\0') || exists|k: int|
        0 <= k < shell_tokens().len() && contains_seq(a, #[trigger] shell_tokens()[k])
}

pub open spec fn blocked_command_line(joined: Seq<char>) -> bool {
    exists|k: int|
        0 <= k < blocked_phrases().len() && contains_seq(
            lower_seq(joined),
            #[trigger] blocked_phrases()[k],
        )
}

/// Arguments for the safe terminal: at most 40, each safe, and together (joined
/// by spaces, ASCII-lower-cased) free of blocked phrases.
pub open spec fn args_verdict(args: Seq<Seq<char>>) -> Option<Seq<char>> {
    if args.len() > 40 || exists|i: int| 0 <= i < args.len() && unsafe_arg(#[trigger] args[i]) {
        Some(msg_unsafe_args())
    } else if blocked_command_line(join_with(args, " "@)) {
        Some(msg_blocked_args())
    } else {
        None
    }
}

/// The safe terminal's argument check: more than 40 arguments, or one holding
/// a shell operator (`&&`, `||`, `;`, a backquote, `$(` followed by a
/// backquote, `>`, `<`), a NUL or more than 500 bytes, is refused as unsafe;
/// otherwise a command line that, joined by spaces and in lower case, speaks
/// of a global install, publishing, a download tool, PowerShell, `cmd /c`,
/// `rm -rf`, `rmdir /s`, `format` or `shutdown` is refused as blocked.
pub proof fn lemma_args_refused(args: Seq<Seq<char>>, i: int)
    ensures
        args.len() > 40 ==> args_verdict(args) == Some("El comando contiene operadores de shell o argumentos no seguros."@),
        0 <= i < args.len() && (contains_seq(args[i], "&&"@) || contains_seq(args[i], "||"@) || contains_seq(args[i], ";"@) || contains_seq(args[i], "`"@) || contains_seq(args[i], "$(`"@) || contains_seq(args[i], ">"@) || contains_seq(args[i], "<"@) || args[i].contains('\0') || crate::text::byte_len(args[i]) > 500)
            ==> args_verdict(args) == Some("El comando contiene operadores de shell o argumentos no seguros."@),
        args.len() <= 40 && (forall|j: int| 0 <= j < args.len() ==> !unsafe_arg(#[trigger] args[j]))
            && (contains_seq(lower_seq(join_with(args, " "@)), "--global"@) || contains_seq(lower_seq(join_with(args, " "@)), " -g "@) || contains_seq(lower_seq(join_with(args, " "@)), "install -g"@) || contains_seq(lower_seq(join_with(args, " "@)), "uninstall -g"@) || contains_seq(lower_seq(join_with(args, " "@)), "publish"@) || contains_seq(lower_seq(join_with(args, " "@)), "curl"@) || contains_seq(lower_seq(join_with(args, " "@)), "wget"@) || contains_seq(lower_seq(join_with(args, " "@)), "powershell"@) || contains_seq(lower_seq(join_with(args, " "@)), "cmd /c"@) || contains_seq(lower_seq(join_with(args, " "@)), "rm -rf"@) || contains_seq(lower_seq(join_with(args, " "@)), "rmdir /s"@) || contains_seq(lower_seq(join_with(args, " "@)), "format"@) || contains_seq(lower_seq(join_with(args, " "@)), "shutdown"@)) ==> args_verdict(args) == Some("El comando intenta instalar globalmente, publicar, descargar scripts o modificar el sistema."@),
{
    let t = shell_tokens();
    let b = blocked_phrases();
    if 0 <= i < args.len() {
        if contains_seq(args[i], "&&"@) {
            assert(t[0] == "&&"@);
            assert(unsafe_arg(args[i]));
        }
        if contains_seq(args[i], "||"@) {
            assert(t[1] == "||"@);
            assert(unsafe_arg(args[i]));
        }
        if contains_seq(args[i], ";"@) {
            assert(t[2] == ";"@);
            assert(unsafe_arg(args[i]));
        }
        if contains_seq(args[i], "`"@) {
            assert(t[3] == "`"@);
            assert(unsafe_arg(args[i]));
        }
        if contains_seq(args[i], "$(`"@) {
            assert(t[4] == "$(`"@);
            assert(unsafe_arg(args[i]));
        }
        if contains_seq(args[i], ">"@) {
            assert(t[5] == ">"@);
            assert(unsafe_arg(args[i]));
        }
        if contains_seq(args[i], "<"@) {
            assert(t[6] == "<"@);
            assert(unsafe_arg(args[i]));
        }
    }
    if contains_seq(lower_seq(join_with(args, " "@)), "--global"@) {
        assert(b[0] == "--global"@);
        assert(blocked_command_line(join_with(args, " "@)));
    }
    if contains_seq(lower_seq(join_with(args, " "@)), " -g "@) {
        assert(b[1] == " -g "@);
        assert(blocked_command_line(join_with(args, " "@)));
    }
    if contains_seq(lower_seq(join_with(args, " "@)), "install -g"@) {
        assert(b[2] == "install -g"@);
        assert(blocked_command_line(join_with(args, " "@)));
    }
    if contains_seq(lower_seq(join_with(args, " "@)), "uninstall -g"@) {
        assert(b[3] == "uninstall -g"@);
        assert(blocked_command_line(join_with(args, " "@)));
    }
    if contains_seq(lower_seq(join_with(args, " "@)), "publish"@) {
        assert(b[4] == "publish"@);
        assert(blocked_command_line(join_with(args, " "@)));
    }
    if contains_seq(lower_seq(join_with(args, " "@)), "curl"@) {
        assert(b[5] == "curl"@);
        assert(blocked_command_line(join_with(args, " "@)));
    }
    if contains_seq(lower_seq(join_with(args, " "@)), "wget"@) {
        assert(b[6] == "wget"@);
        assert(blocked_command_line(join_with(args, " "@)));
    }
    if contains_seq(lower_seq(join_with(args, " "@)), "powershell"@) {
        assert(b[7] == "powershell"@);
        assert(blocked_command_line(join_with(args, " "@)));
    }
    if contains_seq(lower_seq(join_with(args, " "@)), "cmd /c"@) {
        assert(b[8] == "cmd /c"@);
        assert(blocked_command_line(join_with(args, " "@)));
    }
    if contains_seq(lower_seq(join_with(args, " "@)), "rm -rf"@) {
        assert(b[9] == "rm -rf"@);
        assert(blocked_command_line(join_with(args, " "@)));
    }
    if contains_seq(lower_seq(join_with(args, " "@)), "rmdir /s"@) {
        assert(b[10] == "rmdir /s"@);
        assert(blocked_command_line(join_with(args, " "@)));
    }
    if contains_seq(lower_seq(join_with(args, " "@)), "format"@) {
        assert(b[11] == "format"@);
        assert(blocked_command_line(join_with(args, " "@)));
    }
    if contains_seq(lower_seq(join_with(args, " "@)), "shutdown"@) {
        assert(b[12] == "shutdown"@);
        assert(blocked_command_line(join_with(args, " "@)));
    }
}

fn token_list() -> (r: Vec<&'static str>)
    ensures
        r@.len() == shell_tokens().len(),
        forall|i: int| 0 <= i < r@.len() ==> #[trigger] r@[i]@ == shell_tokens()[i],
{
    vec!["&&", "||", ";", "`", "$(`", ">", "<"]
}

fn phrase_list() -> (r: Vec<&'static str>)
    ensures
        r@.len() == blocked_phrases().len(),
        forall|i: int| 0 <= i < r@.len() ==> #[trigger] r@[i]@ == blocked_phrases()[i],
{
    vec![
        "--global", " -g ", "install -g", "uninstall -g", "publish", "curl", "wget",
        "powershell", "cmd /c", "rm -rf", "rmdir /s", "format", "shutdown",
    ]
}

/// Does `text` contain one of `needles` (each given as a literal)?
fn contains_any(text: &Vec<char>, needles: &Vec<&'static str>) -> (r: bool)
    ensures
        r == exists|k: int| 0 <= k < needles@.len() && contains_seq(text@, #[trigger] needles@[k]@),
{
    let mut k: usize = 0;
    while k < needles.len()
        invariant
            k <= needles.len(),
            forall|j: int| 0 <= j < k ==> !contains_seq(text@, #[trigger] needles@[j]@),
        decreases needles.len() - k,
    {
        if contains(text, &chars_of(needles[k])) {
            return true;
        }
        k += 1;
    }
    false
}

fn unsafe_arg_exec(a: &String) -> (r: bool)
    ensures
        r == unsafe_arg(a@),
{
    let v = chars_of(a.as_str());
    let tokens = token_list();
    let tok = contains_any(&v, &tokens);
    assert(tok == exists|k: int| 0 <= k < shell_tokens().len() && contains_seq(a@, #[trigger] shell_tokens()[k])) by {
        if tok {
            let k = choose|k: int| 0 <= k < tokens@.len() && contains_seq(v@, #[trigger] tokens@[k]@);
            assert(shell_tokens()[k] == tokens@[k]@);
        }
        if exists|k: int| 0 <= k < shell_tokens().len() && contains_seq(a@, #[trigger] shell_tokens()[k]) {
            let k = choose|k: int| 0 <= k < shell_tokens().len() && contains_seq(a@, #[trigger] shell_tokens()[k]);
            assert(tokens@[k]@ == shell_tokens()[k]);
        }
    }
    a.as_str().len() > 500 || has_char(&v, '\0') || tok
}

/// Checks the arguments of a safe-terminal command (see `args_verdict`).
pub fn validate_args(args: &Vec<String>) -> (r: Result<(), String>)
    ensures
        match args_verdict(strings_view(args@)) {
            Some(m) => r matches Err(e) && e@ == m,
            None => r is Ok,
        },
{
    let ghost av = strings_view(args@);
    let mut bad = args.len() > 40;
    let mut i: usize = 0;
    while i < args.len() && !bad
        invariant
            i <= args.len(),
            av == strings_view(args@),
            bad == (args.len() > 40),
            forall|j: int| 0 <= j < i ==> !unsafe_arg(#[trigger] av[j]),
        decreases args.len() - i,
    {
        if unsafe_arg_exec(&args[i]) {
            assert(unsafe_arg(av[i as int]));
            return Err(owned("El comando contiene operadores de shell o argumentos no seguros."));
        }
        i += 1;
    }
    if bad {
        return Err(owned("El comando contiene operadores de shell o argumentos no seguros."));
    }
    let joined = to_lower(&join_strings(args, " "));
    let phrases = phrase_list();
    let hit = contains_any(&joined, &phrases);
    proof {
        if hit {
            let k = choose|k: int| 0 <= k < phrases@.len() && contains_seq(joined@, #[trigger] phrases@[k]@);
            assert(blocked_phrases()[k] == phrases@[k]@);
        }
        if blocked_command_line(join_with(av, " "@)) {
            let k = choose|k: int| 0 <= k < blocked_phrases().len() && contains_seq(lower_seq(join_with(av, " "@)), #[trigger] blocked_phrases()[k]);
            assert(phrases@[k]@ == blocked_phrases()[k]);
        }
    }
    if hit {
        return Err(owned(
            "El comando intenta instalar globalmente, publicar, descargar scripts o modificar el sistema.",
        ));
    }
    Ok(())
}

// ---------------------------------------------------------------- shells

pub open spec fn msg_shell_not_authorized() -> Seq<char> {
    "La terminal completa no está autorizada en Configuración > Terminal."@
}

pub open spec fn msg_shell_empty_or_long() -> Seq<char> {
    "El comando de terminal está vacío o es demasiado largo."@
}

pub open spec fn msg_windows_shell() -> Seq<char> {
    "Ese intérprete no está disponible en Windows."@
}

pub open spec fn msg_unix_shell() -> Seq<char> {
    "Ese intérprete no está disponible en Linux."@
}

pub open spec fn msg_missing_shell(path: Seq<char>) -> Seq<char> {
    "No se encontró "@ + path + " en este equipo."@
}

/// The interpreter binary for a requested shell on Unix systems.
pub open spec fn unix_shell_path(shell: Seq<char>) -> Option<Seq<char>> {
    if shell == "zsh"@ {
        Some("/bin/zsh"@)
    } else if shell == "bash"@ || shell == "automatic"@ || shell == ""@ {
        Some("/bin/bash"@)
    } else {
        None
    }
}

pub open spec fn ps_prefix() -> Seq<char> {
    "[Console]::OutputEncoding = [System.Text.UTF8Encoding]::new(); $OutputEncoding = [Console]::OutputEncoding; $ErrorActionPreference = 'Stop'; "@
}

pub open spec fn ps_suffix() -> Seq<char> {
    "\nif (-not $?) { exit 1 }; if ($null -ne $LASTEXITCODE) { exit $LASTEXITCODE }"@
}

/// A full shell command line only runs when the terminal level is `shell` or
/// `admin`, stays within 8000 bytes without NUL, and names an interpreter of
/// the platform (cmd or PowerShell on Windows, bash or zsh elsewhere, which
/// must exist). `Ok(None)` when no command line was given.
pub open spec fn shell_outcome(
    command: Option<Seq<char>>,
    mode: Seq<char>,
    shell: Seq<char>,
    p: Platform,
    shell_present: bool,
) -> Result<Option<(Seq<char>, Seq<Seq<char>>)>, Seq<char>> {
    if !has_shell_command(command) {
        Ok(None)
    } else {
        let c = command->0;
        if !(mode == "shell"@ || mode == "admin"@) {
            Err(msg_shell_not_authorized())
        } else if byte_len(c) > 8000 || c.contains('\0') {
            Err(msg_shell_empty_or_long())
        } else if p == Platform::Windows {
            if shell == "cmd"@ {
                Ok(Some(("cmd.exe"@, seq!["/D"@, "/S"@, "/C"@, c])))
            } else if shell == "powershell"@ || shell == "automatic"@ || shell == ""@ {
                Ok(
                    Some(
                        (
                            "powershell.exe"@,
                            seq![
                                "-NoLogo"@,
                                "-NoProfile"@,
                                "-NonInteractive"@,
                                "-Command"@,
                                ps_prefix() + c + ps_suffix(),
                            ],
                        ),
                    ),
                )
            } else {
                Err(msg_windows_shell())
            }
        } else {
            match unix_shell_path(shell) {
                None => Err(msg_unix_shell()),
                Some(path) => if !shell_present {
                    Err(msg_missing_shell(path))
                } else {
                    Ok(Some((path, seq!["-lc"@, c])))
                },
            }
        }
    }
}

pub open spec fn invocation_view(o: Option<(String, Vec<String>)>) -> Option<(Seq<char>, Seq<Seq<char>>)> {
    match o {
        Some(x) => Some((x.0@, strings_view(x.1@))),
        None => None,
    }
}

pub open spec fn shell_result_matches(
    r: Result<Option<(String, Vec<String>)>, String>,
    o: Result<Option<(Seq<char>, Seq<Seq<char>>)>, Seq<char>>,
) -> bool {
    match o {
        Ok(v) => r matches Ok(x) && invocation_view(x) == v,
        Err(m) => r matches Err(e) && e@ == m,
    }
}

fn unix_shell_exec(shell: &String) -> (r: Option<&'static str>)
    ensures
        match r {
            Some(p) => unix_shell_path(shell@) == Some(p@),
            None => unix_shell_path(shell@) is None,
        },
{
    let v = chars_of(shell.as_str());
    if is(&v, "zsh") {
        Some("/bin/zsh")
    } else if is(&v, "bash") || is(&v, "automatic") || is(&v, "") {
        Some("/bin/bash")
    } else {
        None
    }
}

/// Builds the shell invocation (see `shell_outcome`), given whether the
/// selected Unix interpreter exists.
pub fn shell_command_plan(request: &AgentCommandRequest, platform: Platform, shell_present: bool) -> (r: Result<Option<(String, Vec<String>)>, String>)
    ensures
        shell_result_matches(
            r,
            shell_outcome(
                opt_view(request.command),
                request.terminal_mode@,
                request.shell@,
                platform,
                shell_present,
            ),
        ),
{
    if !has_shell_command_exec(&request.command) {
        return Ok(None);
    }
    let command: &String = match &request.command {
        Some(c) => c,
        None => return Ok(None),
    };
    let mode = chars_of(request.terminal_mode.as_str());
    if !(is(&mode, "shell") || is(&mode, "admin")) {
        return Err(owned("La terminal completa no está autorizada en Configuración > Terminal."));
    }
    if command.as_str().len() > 8000 || has_char(&chars_of(command.as_str()), '\0') {
        return Err(owned("El comando de terminal está vacío o es demasiado largo."));
    }
    let shell = chars_of(request.shell.as_str());
    match platform {
        Platform::Windows => {
            if is(&shell, "cmd") {
                let args = vec![owned("/D"), owned("/S"), owned("/C"), command.clone()];
                assert(strings_view(args@) =~= seq!["/D"@, "/S"@, "/C"@, command@]);
                Ok(Some((owned("cmd.exe"), args)))
            } else if is(&shell, "powershell") || is(&shell, "automatic") || is(&shell, "") {
                let mut script = chars_of(
                    "[Console]::OutputEncoding = [System.Text.UTF8Encoding]::new(); $OutputEncoding = [Console]::OutputEncoding; $ErrorActionPreference = 'Stop'; ",
                );
                crate::text::extend(&mut script, &chars_of(command.as_str()));
                crate::text::extend(
                    &mut script,
                    &chars_of(
                        "\nif (-not $?) { exit 1 }; if ($null -ne $LASTEXITCODE) { exit $LASTEXITCODE }",
                    ),
                );
                let args = vec![
                    owned("-NoLogo"),
                    owned("-NoProfile"),
                    owned("-NonInteractive"),
                    owned("-Command"),
                    crate::text::string_of(&script),
                ];
                assert(strings_view(args@) =~= seq![
                    "-NoLogo"@,
                    "-NoProfile"@,
                    "-NonInteractive"@,
                    "-Command"@,
                    ps_prefix() + command@ + ps_suffix(),
                ]);
                Ok(Some((owned("powershell.exe"), args)))
            } else {
                Err(owned("Ese intérprete no está disponible en Windows."))
            }
        },
        Platform::Unix => match unix_shell_exec(&request.shell) {
            None => Err(owned("Ese intérprete no está disponible en Linux.")),
            Some(path) => {
                if !shell_present {
                    let mut m = chars_of("No se encontró ");
                    crate::text::extend(&mut m, &chars_of(path));
                    crate::text::extend(&mut m, &chars_of(" en este equipo."));
                    Err(crate::text::string_of(&m))
                } else {
                    let args = vec![owned("-lc"), command.clone()];
                    assert(strings_view(args@) =~= seq!["-lc"@, command@]);
                    Ok(Some((owned(path), args)))
                }
            },
        },
    }
}

/// The shell invocation for a request, checking on Unix that the selected
/// interpreter exists (see `shell_outcome`).
pub fn shell_command(request: &AgentCommandRequest, platform: Platform) -> (r: Result<Option<(String, Vec<String>)>, String>)
    ensures
        exists|present: bool|
            shell_result_matches(
                r,
                #[trigger] shell_outcome(
                    opt_view(request.command),
                    request.terminal_mode@,
                    request.shell@,
                    platform,
                    present,
                ),
            ),
{
    let present = match platform {
        Platform::Windows => false,
        Platform::Unix => match unix_shell_exec(&request.shell) {
            Some(path) => crate::paths::path_is_file(path),
            None => false,
        },
    };
    let r = shell_command_plan(request, platform, present);
    assert(shell_result_matches(
        r,
        shell_outcome(
            opt_view(request.command),
            request.terminal_mode@,
            request.shell@,
            platform,
            present,
        ),
    ));
    r
}

// ---------------------------------------------------------------- working directory

pub open spec fn msg_root_missing() -> Seq<char> {
    "La carpeta del proyecto no existe o no es accesible."@
}

pub open spec fn msg_root_not_dir() -> Seq<char> {
    "La ruta asignada no es una carpeta."@
}

pub open spec fn msg_cwd_missing() -> Seq<char> {
    "La carpeta de ejecución no existe."@
}

pub open spec fn msg_cwd_outside() -> Seq<char> {
    "La carpeta de ejecución está fuera de la ubicación autorizada."@
}

/// What a project folder comes to, given the canonical form of its path
/// (`None` when it does not exist or cannot be reached) and whether that form
/// names a directory.
pub open spec fn root_verdict(canonical: Option<Seq<char>>, is_dir: bool) -> Result<Seq<char>, Seq<char>> {
    match canonical {
        None => Err(msg_root_missing()),
        Some(root) => if is_dir {
            Ok(root)
        } else {
            Err(msg_root_not_dir())
        },
    }
}

/// The project folder, given what the filesystem answered (see
/// `root_verdict`).
pub fn root_outcome(canonical: Option<String>, is_dir: bool) -> (r: Result<String, String>)
    ensures
        match root_verdict(opt_view(canonical), is_dir) {
            Ok(root) => r matches Ok(x) && x@ == root,
            Err(e) => r matches Err(x) && x@ == e,
        },
{
    match canonical {
        None => Err(owned("La carpeta del proyecto no existe o no es accesible.")),
        Some(root) => if is_dir {
            Ok(root)
        } else {
            Err(owned("La ruta asignada no es una carpeta."))
        },
    }
}

/// The project folder in canonical form: the absolute, canonical path of an
/// existing directory. Which path that is depends on the filesystem; the
/// failures are those of `root_verdict`.
pub fn canonical_root(value: &str) -> (r: Result<String, String>)
    ensures
        r matches Ok(root) ==> absolute_path(root@),
        r matches Err(e) ==> e@ == msg_root_missing() || e@ == msg_root_not_dir(),
{
    let canonical = canonicalize_path(value);
    let is_dir = match &canonical {
        Some(root) => path_is_dir(root.as_str()),
        None => false,
    };
    root_outcome(canonical, is_dir)
}

/// The directory a requested working directory designates: the root when the
/// request is blank, the request itself when absolute, else the request joined
/// to the root.
pub open spec fn cwd_candidate(root: Seq<char>, relative: Seq<char>) -> Seq<char> {
    let requested = trim(relative);
    if requested.len() == 0 {
        root
    } else if absolute_path(requested) {
        requested
    } else {
        joined_path(root, requested)
    }
}

/// Where a command runs: a blank working directory is the project root
/// itself; an absolute one is taken as it is (trimmed); a relative one is
/// joined to the root. Whatever it names, it is accepted only as its
/// canonical form lying within the root and naming a directory; a path that
/// does not exist is reported as missing, and one that resolves outside the
/// root, or to something other than a directory, as outside.
pub proof fn lemma_working_directory(root: Seq<char>, relative: Seq<char>, canonical: Option<Seq<char>>, is_dir: bool)
    ensures
        trim(relative).len() == 0 ==> cwd_candidate(root, relative) == root,
        trim(relative).len() > 0 && absolute_path(trim(relative)) ==> cwd_candidate(root, relative) == trim(relative),
        trim(relative).len() > 0 && !absolute_path(trim(relative)) ==> cwd_candidate(root, relative) == joined_path(root, trim(relative)),
        canonical is None ==> cwd_answer(root, canonical, is_dir) == Err::<Seq<char>, Seq<char>>("La carpeta de ejecución no existe."@),
        canonical matches Some(c) ==> (path_within(c, root) && is_dir <==> cwd_answer(root, canonical, is_dir) == Ok::<Seq<char>, Seq<char>>(c)),
        canonical matches Some(c) && !(path_within(c, root) && is_dir) ==> cwd_answer(root, canonical, is_dir)
            == Err::<Seq<char>, Seq<char>>("La carpeta de ejecución está fuera de la ubicación autorizada."@),
{
}

/// The time a command may run: what was asked, but at least one second and
/// at most fifteen minutes.
pub proof fn lemma_command_time_limit(t: u64)
    ensures
        1 <= clamp_timeout(t) <= 900,
        1 <= t <= 900 ==> clamp_timeout(t) == t,
        t == 0 ==> clamp_timeout(t) == 1,
        t > 900 ==> clamp_timeout(t) == 900,
{
}

/// What a working directory comes to, given the canonical form of its
/// candidate (`None` when it does not exist), whether that form lies within
/// the root and whether it names a directory: missing, outside, or accepted as
/// that canonical form.
pub open spec fn cwd_verdict(canonical: Option<Seq<char>>, within: bool, is_dir: bool) -> Result<Seq<char>, Seq<char>> {
    match canonical {
        None => Err(msg_cwd_missing()),
        Some(c) => if within && is_dir {
            Ok(c)
        } else {
            Err(msg_cwd_outside())
        },
    }
}

/// `cwd_verdict` where the canonical form's place within `root` is that of
/// `Path::starts_with`.
pub open spec fn cwd_answer(root: Seq<char>, canonical: Option<Seq<char>>, is_dir: bool) -> Result<Seq<char>, Seq<char>> {
    cwd_verdict(canonical, canonical matches Some(c) && path_within(c, root), is_dir)
}

pub open spec fn result_view(r: Result<String, String>) -> Result<Seq<char>, Seq<char>> {
    match r {
        Ok(s) => Ok(s@),
        Err(e) => Err(e@),
    }
}

/// The working directory, given what the filesystem answered (see
/// `cwd_verdict`).
pub fn cwd_outcome(canonical: Option<String>, within: bool, is_dir: bool) -> (r: Result<String, String>)
    ensures
        result_view(r) == cwd_verdict(opt_view(canonical), within, is_dir),
{
    match canonical {
        None => Err(owned("La carpeta de ejecución no existe.")),
        Some(c) => if within && is_dir {
            Ok(c)
        } else {
            Err(owned("La carpeta de ejecución está fuera de la ubicación autorizada."))
        },
    }
}

/// The working directory for a command: the canonical form of
/// `cwd_candidate`, accepted only when it lies inside `root` (component-wise)
/// and is a directory. The filesystem gives the canonical form (an absolute
/// path) and says whether it is a directory; for whatever it answers, the
/// result is the `cwd_verdict` of that answer.
pub fn safe_cwd(root: &str, relative: &str) -> (r: Result<String, String>)
    ensures
        exists|canonical: Option<Seq<char>>, is_dir: bool|
            (canonical matches Some(c) ==> absolute_path(c)) && result_view(r)
                == #[trigger] cwd_answer(root@, canonical, is_dir),
        r matches Ok(cwd) ==> path_within(cwd@, root@) && absolute_path(cwd@),
        r matches Err(e) ==> e@ == msg_cwd_missing() || e@ == msg_cwd_outside(),
{
    let candidate = cwd_candidate_exec(root, relative);
    let canonical = canonicalize_path(candidate.as_str());
    let (within, is_dir) = match &canonical {
        Some(c) => {
            let within = path_starts_with(c.as_str(), root);
            (within, within && path_is_dir(c.as_str()))
        },
        None => (false, false),
    };
    let ghost cv = opt_view(canonical);
    let r = cwd_outcome(canonical, within, is_dir);
    proof {
        assert(result_view(r) == cwd_answer(root@, cv, is_dir));
    }
    r
}

/// The candidate that `safe_cwd` canonicalizes (see `cwd_candidate`).
fn cwd_candidate_exec(root: &str, relative: &str) -> (r: String)
    ensures
        r@ == cwd_candidate(root@, relative@),
{
    let requested = crate::text::string_of(&trim_vec(&chars_of(relative)));
    if requested.as_str().is_empty() {
        owned(root)
    } else if path_is_absolute(requested.as_str()) {
        requested
    } else {
        path_join(root, requested.as_str())
    }
}

// ---------------------------------------------------------------- invocation

pub open spec fn msg_terminal_disabled() -> Seq<char> {
    "La terminal está desactivada en Configuración > Terminal."@
}

pub open spec fn msg_missing_request_id() -> Seq<char> {
    "Falta el identificador del proceso."@
}

pub open spec fn msg_bad_program() -> Seq<char> {
    "El programa o sus argumentos no son válidos."@
}

pub open spec fn msg_not_allowlisted() -> Seq<char> {
    "El programa solicitado no está en la lista segura de Vareliox Code."@
}

pub struct RequestView {
    pub request_id: Seq<char>,
    pub root: Seq<char>,
    pub cwd: Seq<char>,
    pub program: Seq<char>,
    pub args: Seq<Seq<char>>,
    pub timeout_secs: u64,
    pub terminal_mode: Seq<char>,
    pub shell: Seq<char>,
    pub command: Option<Seq<char>>,
}

impl View for AgentCommandRequest {
    type V = RequestView;

    open spec fn view(&self) -> RequestView {
        RequestView {
            request_id: self.request_id@,
            root: self.root@,
            cwd: self.cwd@,
            program: self.program@,
            args: strings_view(self.args@),
            timeout_secs: self.timeout_secs,
            terminal_mode: self.terminal_mode@,
            shell: self.shell@,
            command: opt_view(self.command),
        }
    }
}

/// The system summary runs unless the terminal is disabled, and needs a
/// request id.
pub open spec fn system_info_verdict(r: RequestView) -> Option<Seq<char>> {
    if r.terminal_mode == "disabled"@ {
        Some(msg_terminal_disabled())
    } else if trim(r.request_id).len() == 0 {
        Some(msg_missing_request_id())
    } else {
        None
    }
}

pub fn system_info_gate(request: &AgentCommandRequest) -> (r: Result<(), String>)
    ensures
        match system_info_verdict(request@) {
            Some(m) => r matches Err(e) && e@ == m,
            None => r is Ok,
        },
{
    if is(&chars_of(request.terminal_mode.as_str()), "disabled") {
        return Err(owned("La terminal está desactivada en Configuración > Terminal."));
    }
    if trim_vec(&chars_of(request.request_id.as_str())).len() == 0 {
        return Err(owned("Falta el identificador del proceso."));
    }
    Ok(())
}

/// Program and arguments a request runs with: the shell invocation when a
/// command line is given; otherwise, in `shell`/`admin` mode, the program as
/// named (allowlisted names resolved) with its arguments unchecked but free of
/// NUL; in the safe mode, only allowlisted programs with checked arguments.
pub open spec fn invocation_outcome(r: RequestView, p: Platform, present: bool) -> Result<(Seq<char>, Seq<Seq<char>>), Seq<char>> {
    match shell_outcome(r.command, r.terminal_mode, r.shell, p, present) {
        Err(m) => Err(m),
        Ok(Some(x)) => Ok(x),
        Ok(None) => if r.terminal_mode == "disabled"@ {
            Err(msg_terminal_disabled())
        } else if r.terminal_mode == "shell"@ || r.terminal_mode == "admin"@ {
            if trim(r.program).len() == 0 || r.program.contains('\0') || exists|i: int|
                0 <= i < r.args.len() && (#[trigger] r.args[i]).contains('\0') {
                Err(msg_bad_program())
            } else {
                Ok(
                    (
                        match allowed_program_spec(r.program, p) {
                            Some(x) => x,
                            None => trim(r.program),
                        },
                        r.args,
                    ),
                )
            }
        } else {
            match args_verdict(r.args) {
                Some(m) => Err(m),
                None => match allowed_program_spec(r.program, p) {
                    None => Err(msg_not_allowlisted()),
                    Some(x) => Ok((x, r.args)),
                },
            }
        },
    }
}

fn any_arg_has_nul(args: &Vec<String>) -> (r: bool)
    ensures
        r == exists|i: int| 0 <= i < args@.len() && (#[trigger] strings_view(args@)[i]).contains('\0'),
{
    let mut i: usize = 0;
    while i < args.len()
        invariant
            i <= args.len(),
            forall|k: int| 0 <= k < i ==> !(#[trigger] strings_view(args@)[k]).contains('\0'),
        decreases args.len() - i,
    {
        if has_char(&chars_of(args[i].as_str()), '\0') {
            assert(strings_view(args@)[i as int] == args@[i as int]@);
            return true;
        }
        assert(strings_view(args@)[i as int] == args@[i as int]@);
        i += 1;
    }
    false
}

/// Decides program and arguments for a request (see `invocation_outcome`),
/// given whether the selected Unix interpreter exists.
pub fn plan_invocation(request: &AgentCommandRequest, platform: Platform, shell_present: bool) -> (r: Result<(String, Vec<String>), String>)
    ensures
        match invocation_outcome(request@, platform, shell_present) {
            Ok(x) => r matches Ok(y) && y.0@ == x.0 && strings_view(y.1@) == x.1,
            Err(m) => r matches Err(e) && e@ == m,
        },
{
    match shell_command_plan(request, platform, shell_present) {
        Err(e) => return Err(e),
        Ok(Some(x)) => return Ok(x),
        Ok(None) => {},
    }
    let mode = chars_of(request.terminal_mode.as_str());
    if is(&mode, "disabled") {
        return Err(owned("La terminal está desactivada en Configuración > Terminal."));
    }
    if is(&mode, "shell") || is(&mode, "admin") {
        let program = trim_vec(&chars_of(request.program.as_str()));
        if program.len() == 0 || has_char(&chars_of(request.program.as_str()), '\0')
            || any_arg_has_nul(&request.args) {
            return Err(owned("El programa o sus argumentos no son válidos."));
        }
        let name = match allowed_program(request.program.as_str(), platform) {
            Some(x) => owned(x),
            None => crate::text::string_of(&program),
        };
        Ok((name, request.args.clone()))
    } else {
        match validate_args(&request.args) {
            Err(e) => return Err(e),
            Ok(()) => {},
        }
        match allowed_program(request.program.as_str(), platform) {
            None => Err(owned("El programa solicitado no está en la lista segura de Vareliox Code.")),
            Some(x) => Ok((owned(x), request.args.clone())),
        }
    }
}

/// Requested timeout limited to 1..=900 seconds.
pub open spec fn clamp_timeout(t: u64) -> u64 {
    if t < 1 {
        1
    } else if t > MAX_COMMAND_SECS {
        MAX_COMMAND_SECS
    } else {
        t
    }
}

/// How a command is shown: its command line, or program and arguments, trimmed.
pub open spec fn display_line(r: RequestView) -> Seq<char> {
    trim(
        match r.command {
            Some(c) => c,
            None => r.program + " "@ + join_with(r.args, " "@),
        },
    )
}

pub fn display_command(request: &AgentCommandRequest) -> (r: String)
    ensures
        r@ == display_line(request@),
{
    let line = match &request.command {
        Some(c) => chars_of(c.as_str()),
        None => {
            let mut v = chars_of(request.program.as_str());
            v.push(' ');
            crate::text::extend(&mut v, &join_strings(&request.args, " "));
            assert(v@ =~= request.program@ + " "@ + join_with(strings_view(request.args@), " "@))
                by {
                reveal_strlit(" ");
            }
            v
        },
    };
    crate::text::string_of(&trim_vec(&line))
}

/// Everything the runner needs to start a process.
#[derive(Clone, Debug)]
pub struct CommandPlan {
    pub root: String,
    pub cwd: String,
    pub program: String,
    pub args: Vec<String>,
    pub timeout_secs: u64,
    pub display: String,
}

pub open spec fn plan_fields(plan: CommandPlan) -> (Seq<char>, Seq<char>, Seq<char>, Seq<Seq<char>>, u64, Seq<char>) {
    (plan.root@, plan.cwd@, plan.program@, strings_view(plan.args@), plan.timeout_secs, plan.display@)
}

/// The plan of a request once its root and working directory are known and
/// it is known whether the selected Unix interpreter exists: program and
/// arguments as `invocation_outcome` decides, a non-blank request id, the
/// clamped timeout and the display line.
pub open spec fn completed_plan(r: RequestView, p: Platform, root: Seq<char>, cwd: Seq<char>, present: bool) -> Result<
    (Seq<char>, Seq<char>, Seq<char>, Seq<Seq<char>>, u64, Seq<char>),
    Seq<char>,
> {
    match invocation_outcome(r, p, present) {
        Err(e) => Err(e),
        Ok((program, args)) => if trim(r.request_id).len() == 0 {
            Err(msg_missing_request_id())
        } else {
            Ok((root, cwd, program, args, clamp_timeout(r.timeout_secs), display_line(r)))
        },
    }
}

/// The plan of a request, given its root, its working directory and whether
/// the selected Unix interpreter exists (see `completed_plan`).
pub fn complete_plan(request: &AgentCommandRequest, platform: Platform, root: String, cwd: String, shell_present: bool) -> (r: Result<CommandPlan, String>)
    ensures
        match completed_plan(request@, platform, root@, cwd@, shell_present) {
            Ok(v) => r matches Ok(plan) && plan_fields(plan) == v,
            Err(e) => r matches Err(x) && x@ == e,
        },
{
    let (program, args) = plan_invocation(request, platform, shell_present)?;
    if trim_vec(&chars_of(request.request_id.as_str())).len() == 0 {
        return Err(owned("Falta el identificador del proceso."));
    }
    let t = request.timeout_secs;
    let timeout_secs = if t < 1 {
        1
    } else if t > MAX_COMMAND_SECS {
        MAX_COMMAND_SECS
    } else {
        t
    };
    let display = display_command(request);
    Ok(CommandPlan { root, cwd, program, args, timeout_secs, display })
}

/// Prepares a (non system-info) request: canonical root, working directory
/// inside it, then the plan of `completed_plan`. The filesystem decides the
/// root, the working directory and whether the Unix interpreter exists;
/// whatever it answers, a failure is one of the root and working-directory
/// failures or one of `completed_plan`, and a plan is the one
/// `completed_plan` gives for that root and directory.
pub fn prepare_command(request: &AgentCommandRequest, platform: Platform) -> (r: Result<CommandPlan, String>)
    ensures
        r matches Ok(plan) ==> {
            &&& path_within(plan.cwd@, plan.root@)
            &&& absolute_path(plan.root@)
            &&& exists|present: bool| #[trigger]
                completed_plan(request@, platform, plan.root@, plan.cwd@, present) == Ok::<_, Seq<char>>(plan_fields(plan))
            &&& exists|present: bool| #[trigger]
                invocation_outcome(request@, platform, present) == Ok::<(Seq<char>, Seq<Seq<char>>), Seq<char>>((plan.program@, strings_view(plan.args@)))
            &&& trim(request.request_id@).len() > 0
            &&& plan.timeout_secs == clamp_timeout(request.timeout_secs)
            &&& plan.display@ == display_line(request@)
        },
        r matches Err(e) ==> {
            ||| e@ == msg_root_missing()
            ||| e@ == msg_root_not_dir()
            ||| e@ == msg_cwd_missing()
            ||| e@ == msg_cwd_outside()
            ||| exists|present: bool| #[trigger]
                invocation_outcome(request@, platform, present) == Err::<(Seq<char>, Seq<Seq<char>>), Seq<char>>(e@)
            ||| (e@ == msg_missing_request_id() && trim(request.request_id@).len() == 0)
        },
{
    let root = canonical_root(request.root.as_str())?;
    let cwd = safe_cwd(root.as_str(), request.cwd.as_str())?;
    let present = match platform {
        Platform::Windows => false,
        Platform::Unix => match unix_shell_exec(&request.shell) {
            Some(path) => crate::paths::path_is_file(path),
            None => false,
        },
    };
    let ghost root_view = root@;
    let ghost cwd_view = cwd@;
    let r = complete_plan(request, platform, root, cwd, present);
    proof {
        match completed_plan(request@, platform, root_view, cwd_view, present) {
            Ok(v) => {
                assert(invocation_outcome(request@, platform, present) == Ok::<(Seq<char>, Seq<Seq<char>>), Seq<char>>((v.2, v.3)));
            },
            Err(e) => {
                if invocation_outcome(request@, platform, present) is Ok {
                    assert(e == msg_missing_request_id());
                }
            },
        }
    }
    r
}

// ---------------------------------------------------------------- output

/// The largest character boundary of `bytes` not beyond `k`.
pub open spec fn last_boundary(bytes: Seq<u8>, k: int) -> int
    decreases k,
{
    if k <= 0 {
        0
    } else if vstd::utf8::is_char_boundary(bytes, k) {
        k
    } else {
        last_boundary(bytes, k - 1)
    }
}

/// How much of a chunk of output is forwarded once `used` bytes were sent: as
/// many whole characters as fit in what is left of `MAX_OUTPUT_BYTES`, or
/// nothing once the budget is spent. The flag says whether anything was held
/// back.
pub open spec fn clipped(used: usize, bytes: Seq<u8>) -> (Option<Seq<u8>>, bool) {
    if used >= MAX_OUTPUT_BYTES {
        (None, true)
    } else {
        let limit = if bytes.len() < MAX_OUTPUT_BYTES - used {
            bytes.len() as int
        } else {
            (MAX_OUTPUT_BYTES - used) as int
        };
        let end = last_boundary(bytes, limit);
        (Some(bytes.subrange(0, end)), end < bytes.len())
    }
}

pub fn clip_output(used: usize, text: &str) -> (r: (Option<String>, bool))
    requires
        text.spec_bytes().len() <= usize::MAX,
    ensures
        clipped(used, text.spec_bytes()).1 == r.1,
        match clipped(used, text.spec_bytes()).0 {
            None => r.0 is None,
            Some(b) => r.0 matches Some(sent) && vstd::utf8::encode_utf8(sent@) == b && used
                + b.len() <= MAX_OUTPUT_BYTES,
        },
{
    broadcast use vstd::utf8::group_utf8_lib;

    if used >= MAX_OUTPUT_BYTES {
        return (None, true);
    }
    let remaining = MAX_OUTPUT_BYTES - used;
    let len = text.len();
    let mut end = if len < remaining {
        len
    } else {
        remaining
    };
    let ghost limit = end as int;
    proof {
        vstd::utf8::encode_utf8_valid_utf8(text@);
    }
    while !text.is_char_boundary(end)
        invariant
            end <= limit,
            limit <= text.spec_bytes().len(),
            vstd::utf8::valid_utf8(text.spec_bytes()),
            last_boundary(text.spec_bytes(), end as int) == last_boundary(text.spec_bytes(), limit),
        decreases end,
    {
        assert(end > 0) by {
            if end == 0 {
                assert(vstd::utf8::is_char_boundary(text.spec_bytes(), 0));
            }
        }
        end -= 1;
    }
    let (head, _) = text.split_at(end);
    let sent = head.to_owned();
    proof {
        assert(last_boundary(text.spec_bytes(), end as int) == end as int);
        assert(len == text.spec_bytes().len());
        assert(sent@ == head@);
        assert(vstd::utf8::encode_utf8(sent@) == head.spec_bytes());
    }
    (Some(sent), end < len)
}

// ---------------------------------------------------------------- events

/// The event that ends a run, unless it was cancelled or timed out (those
/// report their own event and no completion).
pub fn completion_event(
    cancelled: bool,
    timed_out: bool,
    exit_code: Option<i32>,
    duration_ms: u64,
    truncated: bool,
) -> (r: Option<AgentCommandEvent>)
    ensures
        (cancelled || timed_out) ==> r is None,
        !(cancelled || timed_out) ==> r == Some(
            AgentCommandEvent::Finished { exit_code, duration_ms, truncated },
        ),
{
    if !cancelled && !timed_out {
        Some(AgentCommandEvent::Finished { exit_code, duration_ms, truncated })
    } else {
        None
    }
}

pub open spec fn timeout_explanation(timeout: u64) -> Seq<char> {
    "Superó el límite de "@ + crate::text::decimal(timeout as nat) + " segundos."@
}

/// The event reported when a command exceeds its time limit.
pub fn timeout_event(timeout: u64) -> (r: AgentCommandEvent)
    ensures
        r matches AgentCommandEvent::Error { code, title, explanation, action } && code@
            == "COMMAND_TIMEOUT"@ && title@ == "El comando tardó demasiado"@ && explanation@
            == timeout_explanation(timeout) && action@
            == "Reduce la tarea o aumenta el límite permitido."@,
{
    let mut text = chars_of("Superó el límite de ");
    crate::text::extend(&mut text, &crate::text::decimal_exec(timeout));
    crate::text::extend(&mut text, &chars_of(" segundos."));
    AgentCommandEvent::Error {
        code: owned("COMMAND_TIMEOUT"),
        title: owned("El comando tardó demasiado"),
        explanation: crate::text::string_of(&text),
        action: owned("Reduce la tarea o aumenta el límite permitido."),
    }
}

// ---------------------------------------------------------------- the run loop

/// Where a running command stands.
#[derive(Clone, Copy, Debug, PartialEq, Eq, Structural)]
pub enum RunPhase {
    /// The process runs, or its pipes are still open.
    Running,
    /// It was cancelled or timed out; that event was the last one sent.
    Stopped,
    /// It exited and both pipes closed; the closing event is still owed.
    Completed,
    /// The closing event, if any, was given.
    Over,
}

/// A command run as the event loop sees it: output bytes forwarded, whether
/// any were held back, what is still open, the exit code and the time limit.
#[derive(Clone, Copy, Debug)]
pub struct CommandRun {
    pub phase: RunPhase,
    pub output: usize,
    pub truncated: bool,
    pub pipes_open: bool,
    pub process_done: bool,
    pub exit_code: Option<i32>,
    pub timed_out: bool,
    pub timeout_secs: u64,
}

/// Output within budget; a run keeps going until the process is done and the
/// pipes are closed, and a time-out always stops it.
pub open spec fn run_wf(s: CommandRun) -> bool {
    &&& s.output <= MAX_OUTPUT_BYTES
    &&& s.phase == RunPhase::Running ==> !(s.process_done && !s.pipes_open) && !s.timed_out
    &&& s.phase == RunPhase::Completed ==> s.process_done && !s.pipes_open && !s.timed_out
}

pub enum CommandEventView {
    Started(Seq<char>),
    Output(Seq<char>, Seq<char>),
    Finished(Option<i32>, u64, bool),
    Cancelled,
    Error(Seq<char>, Seq<char>, Seq<char>, Seq<char>),
}

impl View for AgentCommandEvent {
    type V = CommandEventView;

    open spec fn view(&self) -> CommandEventView {
        match self {
            AgentCommandEvent::Started { command } => CommandEventView::Started(command@),
            AgentCommandEvent::Output { stream, text } => CommandEventView::Output(stream@, text@),
            AgentCommandEvent::Finished { exit_code, duration_ms, truncated } =>
                CommandEventView::Finished(*exit_code, *duration_ms, *truncated),
            AgentCommandEvent::Cancelled => CommandEventView::Cancelled,
            AgentCommandEvent::Error { code, title, explanation, action } =>
                CommandEventView::Error(code@, title@, explanation@, action@),
        }
    }
}

/// An event that closes a run: nothing is sent after it.
pub open spec fn closes_run(e: CommandEventView) -> bool {
    e is Finished || e is Cancelled || e is Error
}

/// The UTF-8 size of the text an event carries as output.
pub open spec fn output_size(e: CommandEventView) -> nat {
    match e {
        CommandEventView::Output(_, text) => vstd::utf8::encode_utf8(text).len(),
        _ => 0,
    }
}

pub open spec fn timeout_event_view(timeout: u64) -> CommandEventView {
    CommandEventView::Error(
        "COMMAND_TIMEOUT"@,
        "El comando tardó demasiado"@,
        timeout_explanation(timeout),
        "Reduce la tarea o aumenta el límite permitido."@,
    )
}

/// What the event loop saw.
#[derive(Debug)]
pub enum RunEvent {
    /// Text read from one of the pipes.
    Output { stream: String, text: String },
    /// Both pipes are closed.
    PipesClosed,
    /// The process exited, with this code if it has one.
    Exited(Option<i32>),
    /// The user cancelled the run.
    Cancelled,
    /// The time limit passed.
    TimedOut,
}

pub enum RunEventView {
    Output(Seq<char>, Seq<char>),
    PipesClosed,
    Exited(Option<i32>),
    Cancelled,
    TimedOut,
}

impl View for RunEvent {
    type V = RunEventView;

    open spec fn view(&self) -> RunEventView {
        match self {
            RunEvent::Output { stream, text } => RunEventView::Output(stream@, text@),
            RunEvent::PipesClosed => RunEventView::PipesClosed,
            RunEvent::Exited(code) => RunEventView::Exited(*code),
            RunEvent::Cancelled => RunEventView::Cancelled,
            RunEvent::TimedOut => RunEventView::TimedOut,
        }
    }
}

/// What the loop does after a step: send `events` in order, stop the process
/// when `terminate`, and call `command_run_finish` when `complete`.
#[derive(Debug)]
pub struct RunStep {
    pub events: Vec<AgentCommandEvent>,
    pub terminate: bool,
    pub complete: bool,
}

pub struct RunStepView {
    pub events: Seq<CommandEventView>,
    pub terminate: bool,
    pub complete: bool,
}

impl View for RunStep {
    type V = RunStepView;

    open spec fn view(&self) -> RunStepView {
        RunStepView {
            events: self.events@.map_values(|e: AgentCommandEvent| e@),
            terminate: self.terminate,
            complete: self.complete,
        }
    }
}

pub open spec fn quiet_step(s: CommandRun) -> (CommandRun, RunStepView) {
    (s, RunStepView { events: Seq::empty(), terminate: false, complete: false })
}

/// Text read from a pipe: the part that fits the budget (see `clipped`) is
/// forwarded as one `Output` event.
pub open spec fn after_output(s: CommandRun, stream: Seq<char>, text: Seq<char>) -> (CommandRun, RunStepView) {
    let c = clipped(s.output, vstd::utf8::encode_utf8(text));
    let sent: Seq<u8> = match c.0 {
        Some(b) => b,
        None => Seq::empty(),
    };
    (
        CommandRun { output: (s.output + sent.len()) as usize, truncated: s.truncated || c.1, ..s },
        RunStepView {
            events: match c.0 {
                Some(b) => seq![CommandEventView::Output(stream, vstd::utf8::decode_utf8(b))],
                None => Seq::empty(),
            },
            terminate: false,
            complete: false,
        },
    )
}

/// One step of a command run.
pub open spec fn run_next(s: CommandRun, e: RunEventView) -> (CommandRun, RunStepView) {
    if s.phase != RunPhase::Running {
        quiet_step(s)
    } else {
        match e {
            RunEventView::Output(stream, text) => if s.pipes_open {
                after_output(s, stream, text)
            } else {
                quiet_step(s)
            },
            RunEventView::PipesClosed => (
                CommandRun {
                    pipes_open: false,
                    phase: if s.process_done {
                        RunPhase::Completed
                    } else {
                        RunPhase::Running
                    },
                    ..s
                },
                RunStepView { events: Seq::empty(), terminate: false, complete: s.process_done },
            ),
            RunEventView::Exited(code) => if s.process_done {
                quiet_step(s)
            } else {
                (
                    CommandRun {
                        process_done: true,
                        exit_code: code,
                        phase: if s.pipes_open {
                            RunPhase::Running
                        } else {
                            RunPhase::Completed
                        },
                        ..s
                    },
                    RunStepView { events: Seq::empty(), terminate: false, complete: !s.pipes_open },
                )
            },
            RunEventView::Cancelled => (
                CommandRun { phase: RunPhase::Stopped, ..s },
                RunStepView {
                    events: seq![CommandEventView::Cancelled],
                    terminate: true,
                    complete: false,
                },
            ),
            RunEventView::TimedOut => (
                CommandRun { phase: RunPhase::Stopped, timed_out: true, ..s },
                RunStepView {
                    events: seq![timeout_event_view(s.timeout_secs)],
                    terminate: true,
                    complete: false,
                },
            ),
        }
    }
}

/// Starts the loop of a command about to be spawned: the `Started` event
/// comes first, with the command line shown to the user.
pub fn command_run_start(display: &str, timeout_secs: u64) -> (r: (CommandRun, AgentCommandEvent))
    ensures
        r.0 == fresh_run(timeout_secs),
        r.1@ == CommandEventView::Started(display@),
        run_wf(r.0),
{
    (
        CommandRun {
            phase: RunPhase::Running,
            output: 0,
            truncated: false,
            pipes_open: true,
            process_done: false,
            exit_code: None,
            timed_out: false,
            timeout_secs,
        },
        AgentCommandEvent::Started { command: owned(display) },
    )
}

/// One step of the loop (see `run_next`).
pub fn command_run_step(state: CommandRun, event: RunEvent) -> (r: (CommandRun, RunStep))
    requires
        run_wf(state),
    ensures
        (r.0, r.1@) == run_next(state, event@),
        run_wf(r.0),
{
    broadcast use vstd::utf8::group_utf8_lib;

    let quiet = RunStep { events: Vec::new(), terminate: false, complete: false };
    proof {
        assert(quiet@.events =~= Seq::<CommandEventView>::empty());
    }
    if state.phase != RunPhase::Running {
        return (state, quiet);
    }
    match event {
        RunEvent::Output { stream, text } => {
            let ghost sv = stream@;
            let ghost tv = text@;
            if !state.pipes_open {
                return (state, quiet);
            }
            let ts = text.as_str();
            let n = ts.as_bytes().len();
            assert(ts.spec_bytes().len() == n);
            let (sent, cut) = clip_output(state.output, ts);
            let ghost c = clipped(state.output, vstd::utf8::encode_utf8(text@));
            let truncated = state.truncated || cut;
            match sent {
                Some(t) => {
                    let tb = t.as_str();
                    let size = tb.as_bytes().len();
                    let ghost b = c.0->0;
                    proof {
                        assert(tb.spec_bytes() == b);
                        assert(vstd::utf8::decode_utf8(b) == t@);
                    }
                    let output = state.output + size;
                    let mut events: Vec<AgentCommandEvent> = Vec::new();
                    events.push(AgentCommandEvent::Output { stream, text: t });
                    let step = RunStep { events, terminate: false, complete: false };
                    proof {
                        assert(step@.events =~= after_output(state, sv, tv).1.events);
                    }
                    (CommandRun { output, truncated, ..state }, step)
                },
                None => (CommandRun { truncated, ..state }, quiet),
            }
        },
        RunEvent::PipesClosed => {
            let done = state.process_done;
            let phase = if done {
                RunPhase::Completed
            } else {
                RunPhase::Running
            };
            (
                CommandRun { pipes_open: false, phase, ..state },
                RunStep { events: Vec::new(), terminate: false, complete: done },
            )
        },
        RunEvent::Exited(code) => {
            if state.process_done {
                return (state, quiet);
            }
            let closed = !state.pipes_open;
            let phase = if closed {
                RunPhase::Completed
            } else {
                RunPhase::Running
            };
            (
                CommandRun { process_done: true, exit_code: code, phase, ..state },
                RunStep { events: Vec::new(), terminate: false, complete: closed },
            )
        },
        RunEvent::Cancelled => {
            let mut events: Vec<AgentCommandEvent> = Vec::new();
            events.push(AgentCommandEvent::Cancelled);
            let step = RunStep { events, terminate: true, complete: false };
            proof {
                assert(step@.events =~= seq![CommandEventView::Cancelled]);
            }
            (CommandRun { phase: RunPhase::Stopped, ..state }, step)
        },
        RunEvent::TimedOut => {
            let mut events: Vec<AgentCommandEvent> = Vec::new();
            events.push(timeout_event(state.timeout_secs));
            let step = RunStep { events, terminate: true, complete: false };
            proof {
                assert(step@.events =~= seq![timeout_event_view(state.timeout_secs)]);
            }
            (CommandRun { phase: RunPhase::Stopped, timed_out: true, ..state }, step)
        },
    }
}

/// Closes a completed run: `Finished` with its exit code, the time it took
/// and whether output was held back, unless it was cancelled meanwhile (see
/// `completion_event`).
pub fn command_run_finish(state: CommandRun, cancelled: bool, duration_ms: u64) -> (r: (
    CommandRun,
    Option<AgentCommandEvent>,
))
    requires
        run_wf(state),
        state.phase == RunPhase::Completed,
    ensures
        r.0 == (CommandRun { phase: RunPhase::Over, ..state }),
        cancelled ==> r.1 is None,
        !cancelled ==> (r.1 matches Some(e) && e@ == CommandEventView::Finished(
            state.exit_code,
            duration_ms,
            state.truncated,
        )),
{
    let event = completion_event(cancelled, state.timed_out, state.exit_code, duration_ms, state.truncated);
    (CommandRun { phase: RunPhase::Over, ..state }, event)
}

/// A run just started by `command_run_start`.
pub open spec fn fresh_run(timeout_secs: u64) -> CommandRun {
    CommandRun {
        phase: RunPhase::Running,
        output: 0,
        truncated: false,
        pipes_open: true,
        process_done: false,
        exit_code: None,
        timed_out: false,
        timeout_secs,
    }
}

/// Cancelling a run and then running again under the same id: the cancelled
/// run reports `Cancelled`, stops, and never completes; forgetting its id
/// (`ActiveRequests::finish`) leaves no handle behind, so the next run under
/// that id (`ActiveRequests::start`) holds its own handle, and that run, once
/// its process exits and its pipes close, completes with its exit code
/// (reported as `Finished` by `command_run_finish` unless it too is cancelled).
pub proof fn lemma_cancel_then_rerun<T>(
    active: Map<Seq<char>, T>,
    id: Seq<char>,
    first: T,
    second: T,
    running: CommandRun,
    later: RunEventView,
    timeout_secs: u64,
    code: Option<i32>,
)
    requires
        run_wf(running),
        running.phase == RunPhase::Running,
    ensures
        ({
            let stopped = run_next(running, RunEventView::Cancelled);
            &&& stopped.1.events == seq![CommandEventView::Cancelled]
            &&& stopped.1.terminate && !stopped.1.complete
            &&& stopped.0.phase == RunPhase::Stopped
            &&& run_next(stopped.0, later) == quiet_step(stopped.0)
        }),
        !active.insert(id, first).remove(id).contains_key(id),
        active.insert(id, first).remove(id).insert(id, second).get(id) == Some(second),
        ({
            let exited = run_next(fresh_run(timeout_secs), RunEventView::Exited(code));
            let closed = run_next(exited.0, RunEventView::PipesClosed);
            &&& run_wf(fresh_run(timeout_secs))
            &&& exited.1.events.len() == 0 && !exited.1.complete
            &&& closed.1.events.len() == 0 && closed.1.complete
            &&& closed.0.phase == RunPhase::Completed
            &&& closed.0.exit_code == code
        }),
{
    assert(run_next(running, RunEventView::Cancelled).1.events =~= seq![CommandEventView::Cancelled]);
}

/// `last_boundary` lands on a character boundary of valid UTF-8, within `k`.
proof fn lemma_last_boundary(bytes: Seq<u8>, k: int)
    requires
        vstd::utf8::valid_utf8(bytes),
        k <= bytes.len(),
    ensures
        0 <= last_boundary(bytes, k),
        last_boundary(bytes, k) <= k || k < 0,
        vstd::utf8::is_char_boundary(bytes, last_boundary(bytes, k)),
    decreases k,
{
    broadcast use vstd::utf8::is_char_boundary_start_end_of_seq;

    if k > 0 && !vstd::utf8::is_char_boundary(bytes, k) {
        lemma_last_boundary(bytes, k - 1);
    }
}

/// Every step keeps a run well formed and sends at most one event. Output
/// events carry exactly the bytes added to the forwarded count, which never
/// passes `MAX_OUTPUT_BYTES`; an event that closes the run is sent only when
/// a running command stops, and once a run has left `Running` no step sends
/// anything or changes it.
pub proof fn lemma_run_events_ordered(s: CommandRun, e: RunEventView)
    requires
        run_wf(s),
    ensures
        run_wf(run_next(s, e).0),
        run_next(s, e).1.events.len() <= 1,
        run_next(s, e).1.events.len() == 1 ==> {
            let ev = run_next(s, e).1.events[0];
            &&& !(ev is Started)
            &&& s.output + output_size(ev) == run_next(s, e).0.output
            &&& closes_run(ev) ==> s.phase == RunPhase::Running && run_next(s, e).0.phase
                == RunPhase::Stopped
        },
        run_next(s, e).1.events.len() == 0 ==> run_next(s, e).0.output == s.output,
        s.phase != RunPhase::Running ==> run_next(s, e) == quiet_step(s),
        run_next(s, e).1.complete ==> run_next(s, e).0.phase == RunPhase::Completed,
{
    broadcast use vstd::utf8::group_utf8_lib;

    if s.phase == RunPhase::Running {
        if let RunEventView::Output(stream, text) = e {
            if s.pipes_open {
                let bytes = vstd::utf8::encode_utf8(text);
                let c = clipped(s.output, bytes);
                if c.0 is Some {
                    let limit = if bytes.len() < MAX_OUTPUT_BYTES - s.output {
                        bytes.len() as int
                    } else {
                        (MAX_OUTPUT_BYTES - s.output) as int
                    };
                    lemma_last_boundary(bytes, limit);
                    let end = last_boundary(bytes, limit);
                    assert(vstd::utf8::valid_utf8(bytes.subrange(0, end)));
                    assert(vstd::utf8::encode_utf8(vstd::utf8::decode_utf8(bytes.subrange(0, end)))
                        == bytes.subrange(0, end));
                }
            }
        }
    }
}

/// Once a run is over (after `command_run_finish`), no step sends anything or
/// changes it.
pub proof fn lemma_run_over_is_final(s: CommandRun, e: RunEventView)
    requires
        s.phase == RunPhase::Over,
    ensures
        run_next(s, e) == quiet_step(s),
{
}

// ---------------------------------------------------------------- project commands

/// What a project folder holds that decides its commands.
#[derive(Clone, Debug)]
pub struct ProjectMarkers {
    /// The text of `package.json` when it is a readable file.
    pub package_json: Option<String>,
    pub cargo_toml: bool,
    pub pyproject_toml: bool,
    pub pytest_ini: bool,
    pub tests_dir: bool,
    pub go_mod: bool,
    /// The folder holds a `.sln` file.
    pub solution_file: bool,
}

pub struct CommandView {
    pub id: Seq<char>,
    pub label: Seq<char>,
    pub program: Seq<char>,
    pub args: Seq<Seq<char>>,
    pub kind: Seq<char>,
}

impl View for DetectedCommand {
    type V = CommandView;

    open spec fn view(&self) -> CommandView {
        CommandView {
            id: self.id@,
            label: self.label@,
            program: self.program@,
            args: strings_view(self.args@),
            kind: self.kind@,
        }
    }
}

pub open spec fn cmd(
    id: Seq<char>,
    label: Seq<char>,
    program: Seq<char>,
    args: Seq<Seq<char>>,
    kind: Seq<char>,
) -> Seq<CommandView> {
    seq![CommandView { id, label, program, args, kind }]
}

pub open spec fn when(c: bool, s: Seq<CommandView>) -> Seq<CommandView> {
    if c {
        s
    } else {
        Seq::empty()
    }
}

pub open spec fn has_script(scripts: Option<Seq<Seq<char>>>, name: Seq<char>) -> bool {
    match scripts {
        Some(keys) => keys.contains(name),
        None => false,
    }
}

/// The commands a project offers, from its build files only: npm scripts
/// `test`, `build`, `lint`; Cargo; pytest; Go; .NET solutions.
pub open spec fn project_commands_spec(
    scripts: Option<Seq<Seq<char>>>,
    cargo: bool,
    python: bool,
    go: bool,
    dotnet: bool,
) -> Seq<CommandView> {
    when(has_script(scripts, "test"@), cmd("npm-test"@, "Ejecutar pruebas"@, "npm"@, seq!["test"@], "test"@))
        + when(has_script(scripts, "build"@), cmd("npm-build"@, "Compilar proyecto"@, "npm"@, seq!["run"@, "build"@], "build"@))
        + when(has_script(scripts, "lint"@), cmd("npm-lint"@, "Comprobar código"@, "npm"@, seq!["run"@, "lint"@], "check"@))
        + when(cargo, cmd("cargo-test"@, "Ejecutar pruebas Rust"@, "cargo"@, seq!["test"@], "test"@)
            + cmd("cargo-check"@, "Comprobar Rust"@, "cargo"@, seq!["check"@], "check"@)
            + cmd("cargo-build"@, "Compilar Rust"@, "cargo"@, seq!["build"@], "build"@))
        + when(python, cmd("pytest"@, "Ejecutar pruebas Python"@, "python"@, seq!["-m"@, "pytest"@], "test"@))
        + when(go, cmd("go-test"@, "Ejecutar pruebas Go"@, "go"@, seq!["test"@, "./..."@], "test"@)
            + cmd("go-build"@, "Compilar Go"@, "go"@, seq!["build"@, "./..."@], "build"@))
        + when(dotnet, cmd("dotnet-test"@, "Ejecutar pruebas .NET"@, "dotnet"@, seq!["test"@], "test"@)
            + cmd("dotnet-build"@, "Compilar .NET"@, "dotnet"@, seq!["build"@], "build"@))
}

pub open spec fn markers_commands(scripts: Option<Seq<Seq<char>>>, m: ProjectMarkers) -> Seq<CommandView> {
    project_commands_spec(
        scripts,
        m.cargo_toml,
        m.pyproject_toml || m.pytest_ini || m.tests_dir,
        m.go_mod,
        m.solution_file,
    )
}

pub open spec fn commands_view(v: Seq<DetectedCommand>) -> Seq<CommandView> {
    v.map_values(|c: DetectedCommand| c@)
}

fn add_command(
    found: &mut Vec<DetectedCommand>,
    id: &str,
    label: &str,
    program: &str,
    first: &str,
    second: Option<&str>,
    kind: &str,
)
    ensures
        commands_view(final(found)@) == commands_view(old(found)@) + cmd(
            id@,
            label@,
            program@,
            match second {
                Some(s) => seq![first@, s@],
                None => seq![first@],
            },
            kind@,
        ),
{
    let list = match second {
        Some(s) => vec![owned(first), owned(s)],
        None => vec![owned(first)],
    };
    assert(strings_view(list@) =~= match second {
        Some(s) => seq![first@, s@],
        None => seq![first@],
    });
    let c = DetectedCommand {
        id: owned(id),
        label: owned(label),
        program: owned(program),
        args: list,
        kind: owned(kind),
    };
    found.push(c);
    assert(commands_view(found@) =~= commands_view(old(found)@) + seq![c@]);
}

fn has_key(keys: &Option<Vec<String>>, name: &str) -> (r: bool)
    ensures
        r == has_script(crate::json::opt_strings(*keys), name@),
{
    match keys {
        None => false,
        Some(k) => {
            let ghost kv = strings_view(k@);
            assert(crate::json::opt_strings(*keys) == Some(kv));
            let mut i: usize = 0;
            while i < k.len()
                invariant
                    i <= k.len(),
                    kv == strings_view(k@),
                    crate::json::opt_strings(*keys) == Some(kv),
                    forall|j: int| 0 <= j < i ==> kv[j] != name@,
                decreases k.len() - i,
            {
                if str_eq(k[i].as_str(), name) {
                    assert(kv[i as int] == name@);
                    assert(kv.contains(name@));
                    return true;
                }
                i += 1;
            }
            assert(crate::json::opt_strings(*keys) == Some(kv));
            false
        },
    }
}

pub open spec fn npm_group(sv: Option<Seq<Seq<char>>>) -> Seq<CommandView> {
    when(has_script(sv, "test"@), cmd("npm-test"@, "Ejecutar pruebas"@, "npm"@, seq!["test"@], "test"@))
        + when(has_script(sv, "build"@), cmd("npm-build"@, "Compilar proyecto"@, "npm"@, seq!["run"@, "build"@], "build"@))
        + when(has_script(sv, "lint"@), cmd("npm-lint"@, "Comprobar código"@, "npm"@, seq!["run"@, "lint"@], "check"@))
}

fn add_npm(found: &mut Vec<DetectedCommand>, scripts: &Option<Vec<String>>)
    ensures
        commands_view(final(found)@) == commands_view(old(found)@) + npm_group(crate::json::opt_strings(*scripts)),
{
    let ghost sv = crate::json::opt_strings(*scripts);
    let ghost start = commands_view(found@);
    if has_key(scripts, "test") {
        add_command(found, "npm-test", "Ejecutar pruebas", "npm", "test", None, "test");
    }
    assert(commands_view(found@) =~= start + when(has_script(sv, "test"@), cmd("npm-test"@, "Ejecutar pruebas"@, "npm"@, seq!["test"@], "test"@)));
    let ghost mid = commands_view(found@);
    if has_key(scripts, "build") {
        add_command(found, "npm-build", "Compilar proyecto", "npm", "run", Some("build"), "build");
    }
    assert(commands_view(found@) =~= mid + when(has_script(sv, "build"@), cmd("npm-build"@, "Compilar proyecto"@, "npm"@, seq!["run"@, "build"@], "build"@)));
    let ghost mid2 = commands_view(found@);
    if has_key(scripts, "lint") {
        add_command(found, "npm-lint", "Comprobar código", "npm", "run", Some("lint"), "check");
    }
    assert(commands_view(found@) =~= mid2 + when(has_script(sv, "lint"@), cmd("npm-lint"@, "Comprobar código"@, "npm"@, seq!["run"@, "lint"@], "check"@)));
    assert(commands_view(found@) =~= start + npm_group(sv));
}

pub open spec fn cargo_group() -> Seq<CommandView> {
    cmd("cargo-test"@, "Ejecutar pruebas Rust"@, "cargo"@, seq!["test"@], "test"@)
        + cmd("cargo-check"@, "Comprobar Rust"@, "cargo"@, seq!["check"@], "check"@)
        + cmd("cargo-build"@, "Compilar Rust"@, "cargo"@, seq!["build"@], "build"@)
}

fn add_cargo(found: &mut Vec<DetectedCommand>)
    ensures
        commands_view(final(found)@) == commands_view(old(found)@) + cargo_group(),
{
    add_command(found, "cargo-test", "Ejecutar pruebas Rust", "cargo", "test", None, "test");
    add_command(found, "cargo-check", "Comprobar Rust", "cargo", "check", None, "check");
    add_command(found, "cargo-build", "Compilar Rust", "cargo", "build", None, "build");
    assert(commands_view(found@) =~= commands_view(old(found)@) + cargo_group());
}

pub open spec fn go_group() -> Seq<CommandView> {
    cmd("go-test"@, "Ejecutar pruebas Go"@, "go"@, seq!["test"@, "./..."@], "test"@)
        + cmd("go-build"@, "Compilar Go"@, "go"@, seq!["build"@, "./..."@], "build"@)
}

fn add_go(found: &mut Vec<DetectedCommand>)
    ensures
        commands_view(final(found)@) == commands_view(old(found)@) + go_group(),
{
    add_command(found, "go-test", "Ejecutar pruebas Go", "go", "test", Some("./..."), "test");
    add_command(found, "go-build", "Compilar Go", "go", "build", Some("./..."), "build");
    assert(commands_view(found@) =~= commands_view(old(found)@) + go_group());
}

pub open spec fn dotnet_group() -> Seq<CommandView> {
    cmd("dotnet-test"@, "Ejecutar pruebas .NET"@, "dotnet"@, seq!["test"@], "test"@)
        + cmd("dotnet-build"@, "Compilar .NET"@, "dotnet"@, seq!["build"@], "build"@)
}

fn add_dotnet(found: &mut Vec<DetectedCommand>)
    ensures
        commands_view(final(found)@) == commands_view(old(found)@) + dotnet_group(),
{
    add_command(found, "dotnet-test", "Ejecutar pruebas .NET", "dotnet", "test", None, "test");
    add_command(found, "dotnet-build", "Compilar .NET", "dotnet", "build", None, "build");
    assert(commands_view(found@) =~= commands_view(old(found)@) + dotnet_group());
}

pub open spec fn python_group() -> Seq<CommandView> {
    cmd("pytest"@, "Ejecutar pruebas Python"@, "python"@, seq!["-m"@, "pytest"@], "test"@)
}

/// Where a project command stands in the order `project_commands_spec`
/// lists them, told by its id: its length, first letter and, where needed,
/// the letter after `npm-` or `cargo-`.
pub open spec fn command_rank(id: Seq<char>) -> int {
    if id.len() == 8 && id[0] == 'n' && id[4] == 't' {
        0
    } else if id.len() == 9 && id[0] == 'n' {
        1
    } else if id.len() == 8 && id[0] == 'n' {
        2
    } else if id.len() == 10 && id[0] == 'c' {
        3
    } else if id.len() == 11 && id[0] == 'c' && id[6] == 'c' {
        4
    } else if id.len() == 11 && id[0] == 'c' {
        5
    } else if id[0] == 'p' {
        6
    } else if id.len() == 7 && id[0] == 'g' {
        7
    } else if id.len() == 8 && id[0] == 'g' {
        8
    } else if id.len() == 11 && id[0] == 'd' {
        9
    } else {
        10
    }
}

/// Ranks rise along `s` and lie in `lo..hi`.
pub open spec fn ranked(s: Seq<CommandView>, lo: int, hi: int) -> bool {
    &&& forall|i: int, j: int|
        0 <= i < j < s.len() ==> command_rank(#[trigger] s[i].id) < command_rank(#[trigger] s[j].id)
    &&& forall|i: int| 0 <= i < s.len() ==> lo <= command_rank(#[trigger] s[i].id) < hi
}

/// Every command of `s` runs a program of the allowlist with arguments that
/// pass the check.
pub open spec fn runs_allowlisted(s: Seq<CommandView>, p: Platform) -> bool {
    forall|i: int|
        0 <= i < s.len() ==> (#[trigger] allowed_program_spec(s[i].program, p)) is Some
            && args_verdict(s[i].args) is None
}

proof fn lemma_ranked_concat(a: Seq<CommandView>, b: Seq<CommandView>, lo: int, mid: int, hi: int, p: Platform)
    requires
        lo <= mid <= hi,
        ranked(a, lo, mid),
        ranked(b, mid, hi),
        runs_allowlisted(a, p),
        runs_allowlisted(b, p),
    ensures
        ranked(a + b, lo, hi),
        runs_allowlisted(a + b, p),
{
    let ab = a + b;
    assert forall|i: int, j: int| 0 <= i < j < ab.len() implies command_rank(#[trigger] ab[i].id)
        < command_rank(#[trigger] ab[j].id) by {
        if j < a.len() {
            assert(ab[i] == a[i] && ab[j] == a[j]);
        } else if i < a.len() {
            assert(ab[i] == a[i] && ab[j] == b[j - a.len()]);
        } else {
            assert(ab[i] == b[i - a.len()] && ab[j] == b[j - a.len()]);
        }
    }
    assert forall|i: int| 0 <= i < ab.len() implies lo <= command_rank(#[trigger] ab[i].id) < hi by {
        if i < a.len() {
            assert(ab[i] == a[i]);
        } else {
            assert(ab[i] == b[i - a.len()]);
        }
    }
    assert forall|i: int| 0 <= i < ab.len() implies (#[trigger] allowed_program_spec(
        ab[i].program,
        p,
    )) is Some && args_verdict(ab[i].args) is None by {
        if i < a.len() {
            assert(ab[i] == a[i]);
        } else {
            assert(ab[i] == b[i - a.len()]);
        }
    }
}

proof fn lemma_ranked_when(c: bool, g: Seq<CommandView>, lo: int, hi: int, p: Platform)
    requires
        ranked(g, lo, hi),
        runs_allowlisted(g, p),
    ensures
        ranked(when(c, g), lo, hi),
        runs_allowlisted(when(c, g), p),
{
}

/// A program named in lower case, without surrounding whitespace and not
/// ending in `.exe` or `.cmd`, is looked up as it is.
proof fn lemma_plain_program(name: Seq<char>)
    requires
        name.len() > 0,
        lower_seq(name) == name,
        !is_ws(name[0]),
        !is_ws(name.last()),
        name.len() < 4 || name[name.len() - 4] != '.',
    ensures
        program_base(name) == name,
{
    reveal_strlit(".exe");
    reveal_strlit(".cmd");
    assert(trim_start(name) == name);
    assert(trim_end(name) == name);
    if name.len() >= 4 {
        assert(name.subrange(name.len() - 4, name.len() as int)[0] == name[name.len() - 4]);
    }
    assert(!crate::text::ends_with(name, ".exe"@));
    assert(!crate::text::ends_with(name, ".cmd"@));
}

proof fn lemma_single_command(c: CommandView, r: int, p: Platform)
    requires
        command_rank(c.id) == r,
        allowed_program_spec(c.program, p) is Some,
        args_verdict(c.args) is None,
    ensures
        ranked(seq![c], r, r + 1),
        runs_allowlisted(seq![c], p),
{
}

proof fn lemma_programs_allowlisted(p: Platform)
    ensures
        allowed_program_spec("npm"@, p) is Some,
        allowed_program_spec("cargo"@, p) is Some,
        allowed_program_spec("python"@, p) is Some,
        allowed_program_spec("go"@, p) is Some,
        allowed_program_spec("dotnet"@, p) is Some,
{
    reveal_strlit("npm");
    reveal_strlit("cargo");
    reveal_strlit("python");
    reveal_strlit("go");
    reveal_strlit("dotnet");
    assert(lower_seq("npm"@) =~= "npm"@);
    assert(lower_seq("cargo"@) =~= "cargo"@);
    assert(lower_seq("python"@) =~= "python"@);
    assert(lower_seq("go"@) =~= "go"@);
    assert(lower_seq("dotnet"@) =~= "dotnet"@);
    lemma_plain_program("npm"@);
    lemma_plain_program("cargo"@);
    lemma_plain_program("python"@);
    lemma_plain_program("go"@);
    lemma_plain_program("dotnet"@);
}

/// The commands a project offers have pairwise distinct ids, and each of
/// them runs a program of the safe terminal's allowlist with arguments that
/// pass its check, whatever the build files hold and on either platform.
pub proof fn lemma_project_commands_safe(
    scripts: Option<Seq<Seq<char>>>,
    cargo: bool,
    python: bool,
    go: bool,
    dotnet: bool,
    p: Platform,
)
    ensures
        ({
            let cs = project_commands_spec(scripts, cargo, python, go, dotnet);
            &&& forall|i: int, j: int| 0 <= i < j < cs.len() ==> (#[trigger] cs[i]).id != (#[trigger] cs[j]).id
            &&& forall|i: int| 0 <= i < cs.len() ==> (#[trigger] allowed_program_spec(cs[i].program, p)) is Some
            &&& forall|i: int| 0 <= i < cs.len() ==> (#[trigger] args_verdict(cs[i].args)) is None
        }),
{
    reveal_strlit("npm-test");
    reveal_strlit("npm-build");
    reveal_strlit("npm-lint");
    reveal_strlit("cargo-test");
    reveal_strlit("cargo-check");
    reveal_strlit("cargo-build");
    reveal_strlit("pytest");
    reveal_strlit("go-test");
    reveal_strlit("go-build");
    reveal_strlit("dotnet-test");
    reveal_strlit("dotnet-build");
    lemma_programs_allowlisted(p);
    lemma_project_args();
    let t = cmd("npm-test"@, "Ejecutar pruebas"@, "npm"@, seq!["test"@], "test"@);
    let b = cmd("npm-build"@, "Compilar proyecto"@, "npm"@, seq!["run"@, "build"@], "build"@);
    let l = cmd("npm-lint"@, "Comprobar código"@, "npm"@, seq!["run"@, "lint"@], "check"@);
    let ct = cmd("cargo-test"@, "Ejecutar pruebas Rust"@, "cargo"@, seq!["test"@], "test"@);
    let cc = cmd("cargo-check"@, "Comprobar Rust"@, "cargo"@, seq!["check"@], "check"@);
    let cb = cmd("cargo-build"@, "Compilar Rust"@, "cargo"@, seq!["build"@], "build"@);
    let py = cmd("pytest"@, "Ejecutar pruebas Python"@, "python"@, seq!["-m"@, "pytest"@], "test"@);
    let gt = cmd("go-test"@, "Ejecutar pruebas Go"@, "go"@, seq!["test"@, "./..."@], "test"@);
    let gb = cmd("go-build"@, "Compilar Go"@, "go"@, seq!["build"@, "./..."@], "build"@);
    let dt = cmd("dotnet-test"@, "Ejecutar pruebas .NET"@, "dotnet"@, seq!["test"@], "test"@);
    let db = cmd("dotnet-build"@, "Compilar .NET"@, "dotnet"@, seq!["build"@], "build"@);
    lemma_single_command(t[0], 0, p);
    lemma_single_command(b[0], 1, p);
    lemma_single_command(l[0], 2, p);
    lemma_single_command(ct[0], 3, p);
    lemma_single_command(cc[0], 4, p);
    lemma_single_command(cb[0], 5, p);
    lemma_single_command(py[0], 6, p);
    lemma_single_command(gt[0], 7, p);
    lemma_single_command(gb[0], 8, p);
    lemma_single_command(dt[0], 9, p);
    lemma_single_command(db[0], 10, p);
    assert(t =~= seq![t[0]]);
    assert(b =~= seq![b[0]]);
    assert(l =~= seq![l[0]]);
    assert(ct =~= seq![ct[0]]);
    assert(cc =~= seq![cc[0]]);
    assert(cb =~= seq![cb[0]]);
    assert(py =~= seq![py[0]]);
    assert(gt =~= seq![gt[0]]);
    assert(gb =~= seq![gb[0]]);
    assert(dt =~= seq![dt[0]]);
    assert(db =~= seq![db[0]]);
    lemma_ranked_concat(ct, cc, 3, 4, 5, p);
    lemma_ranked_concat(ct + cc, cb, 3, 5, 6, p);
    lemma_ranked_concat(gt, gb, 7, 8, 9, p);
    lemma_ranked_concat(dt, db, 9, 10, 11, p);
    let w1 = when(has_script(scripts, "test"@), t);
    let w2 = when(has_script(scripts, "build"@), b);
    let w3 = when(has_script(scripts, "lint"@), l);
    let w4 = when(cargo, ct + cc + cb);
    let w5 = when(python, py);
    let w6 = when(go, gt + gb);
    let w7 = when(dotnet, dt + db);
    lemma_ranked_when(has_script(scripts, "test"@), t, 0, 1, p);
    lemma_ranked_when(has_script(scripts, "build"@), b, 1, 2, p);
    lemma_ranked_when(has_script(scripts, "lint"@), l, 2, 3, p);
    lemma_ranked_when(cargo, ct + cc + cb, 3, 6, p);
    lemma_ranked_when(python, py, 6, 7, p);
    lemma_ranked_when(go, gt + gb, 7, 9, p);
    lemma_ranked_when(dotnet, dt + db, 9, 11, p);
    lemma_ranked_concat(w1, w2, 0, 1, 2, p);
    lemma_ranked_concat(w1 + w2, w3, 0, 2, 3, p);
    lemma_ranked_concat(w1 + w2 + w3, w4, 0, 3, 6, p);
    lemma_ranked_concat(w1 + w2 + w3 + w4, w5, 0, 6, 7, p);
    lemma_ranked_concat(w1 + w2 + w3 + w4 + w5, w6, 0, 7, 9, p);
    lemma_ranked_concat(w1 + w2 + w3 + w4 + w5 + w6, w7, 0, 9, 11, p);
    let cs = project_commands_spec(scripts, cargo, python, go, dotnet);
    assert(cs == w1 + w2 + w3 + w4 + w5 + w6 + w7);
    assert forall|i: int, j: int| 0 <= i < j < cs.len() implies (#[trigger] cs[i]).id != (
    #[trigger] cs[j]).id by {
        assert(command_rank(cs[i].id) < command_rank(cs[j].id));
    }
    assert forall|i: int| 0 <= i < cs.len() implies (#[trigger] args_verdict(cs[i].args)) is None by {
        assert(allowed_program_spec(cs[i].program, p) is Some);
    }
}

/// `c` does not occur in `s` at or after `i`.
pub open spec fn lacks_from(s: Seq<char>, c: char, i: int) -> bool
    decreases s.len() - i,
{
    i >= s.len() || (s[i] != c && lacks_from(s, c, i + 1))
}

/// `x` followed by `y` does not occur in `s` at or after `i`.
pub open spec fn lacks_pair_from(s: Seq<char>, x: char, y: char, i: int) -> bool
    decreases s.len() - i,
{
    i + 1 >= s.len() || (!(s[i] == x && s[i + 1] == y) && lacks_pair_from(s, x, y, i + 1))
}

proof fn lemma_lacks(s: Seq<char>, c: char, i: int)
    requires
        0 <= i,
        lacks_from(s, c, i),
    ensures
        forall|k: int| i <= k < s.len() ==> s[k] != c,
    decreases s.len() - i,
{
    if i < s.len() {
        lemma_lacks(s, c, i + 1);
    }
}

proof fn lemma_lacks_pair(s: Seq<char>, x: char, y: char, i: int)
    requires
        0 <= i,
        lacks_pair_from(s, x, y, i),
    ensures
        forall|k: int| i <= k && k + 1 < s.len() ==> !(#[trigger] s[k] == x && s[k + 1] == y),
    decreases s.len() - i,
{
    if i + 1 < s.len() {
        lemma_lacks_pair(s, x, y, i + 1);
    }
}

/// A needle with a character that the text lacks does not occur in it.
proof fn lemma_missing_char(hay: Seq<char>, needle: Seq<char>, k: int)
    requires
        0 <= k < needle.len(),
        lacks_from(hay, needle[k], 0),
    ensures
        !contains_seq(hay, needle),
{
    lemma_lacks(hay, needle[k], 0);
    if contains_seq(hay, needle) {
        let i = choose|i: int| crate::text::occurs_at(hay, needle, i);
        assert(hay.subrange(i, i + needle.len())[k] == hay[i + k]);
    }
}

/// A needle whose first two characters never follow each other in the text
/// does not occur in it.
proof fn lemma_missing_pair(hay: Seq<char>, needle: Seq<char>)
    requires
        needle.len() >= 2,
        lacks_pair_from(hay, needle[0], needle[1], 0),
    ensures
        !contains_seq(hay, needle),
{
    lemma_lacks_pair(hay, needle[0], needle[1], 0);
    if contains_seq(hay, needle) {
        let i = choose|i: int| crate::text::occurs_at(hay, needle, i);
        assert(hay.subrange(i, i + needle.len())[0] == hay[i]);
        assert(hay.subrange(i, i + needle.len())[1] == hay[i + 1]);
    }
}

proof fn lemma_encoded_len(s: Seq<char>)
    ensures
        vstd::utf8::encode_utf8(s).len() <= 4 * s.len(),
    decreases s.len(),
{
    if s.len() > 0 {
        lemma_encoded_len(s.drop_first());
    }
}

/// Text built only from lower-case letters other than `f`, `g`, `o` and `w`,
/// digits, spaces and `-./`, in which `p` is never followed by `u`, `c` by `u`
/// or `m`, nor `r` by `m`.
pub open spec fn plain_line(s: Seq<char>) -> bool {
    &&& s.len() <= 100
    &&& lower_seq(s) == s
    &&& lacks_from(s, '&', 0) && lacks_from(s, '|', 0) && lacks_from(s, ';', 0)
    &&& lacks_from(s, '`', 0) && lacks_from(s, '$', 0) && lacks_from(s, '>', 0)
    &&& lacks_from(s, '<', 0) && lacks_from(s, '\0', 0)
    &&& lacks_from(s, 'f', 0) && lacks_from(s, 'g', 0) && lacks_from(s, 'o', 0)
    &&& lacks_from(s, 'w', 0)
    &&& lacks_pair_from(s, 'p', 'u', 0) && lacks_pair_from(s, 'c', 'u', 0)
    &&& lacks_pair_from(s, 'c', 'm', 0) && lacks_pair_from(s, 'r', 'm', 0)
}

/// Plain text holds no shell operator and none of the blocked phrases.
proof fn lemma_plain_line(s: Seq<char>)
    requires
        plain_line(s),
    ensures
        !unsafe_arg(s),
        !blocked_command_line(s),
{
    reveal_strlit("&&");
    reveal_strlit("||");
    reveal_strlit(";");
    reveal_strlit("`");
    reveal_strlit("$(`");
    reveal_strlit(">");
    reveal_strlit("<");
    reveal_strlit("--global");
    reveal_strlit(" -g ");
    reveal_strlit("install -g");
    reveal_strlit("uninstall -g");
    reveal_strlit("publish");
    reveal_strlit("curl");
    reveal_strlit("wget");
    reveal_strlit("powershell");
    reveal_strlit("cmd /c");
    reveal_strlit("rm -rf");
    reveal_strlit("rmdir /s");
    reveal_strlit("format");
    reveal_strlit("shutdown");
    lemma_encoded_len(s);
    lemma_lacks(s, '\0', 0);
    let t = shell_tokens();
    assert forall|k: int| 0 <= k < t.len() implies !contains_seq(s, #[trigger] t[k]) by {
        lemma_missing_char(s, t[k], 0);
    }
    let b = blocked_phrases();
    assert forall|k: int| 0 <= k < b.len() implies !contains_seq(lower_seq(s), #[trigger] b[k]) by {
        if k == 0 {
            lemma_missing_char(s, b[k], 2);
        } else if k == 1 {
            lemma_missing_char(s, b[k], 2);
        } else if k == 2 {
            lemma_missing_char(s, b[k], 9);
        } else if k == 3 {
            lemma_missing_char(s, b[k], 11);
        } else if k == 4 {
            lemma_missing_pair(s, b[k]);
        } else if k == 5 {
            lemma_missing_pair(s, b[k]);
        } else if k == 6 {
            lemma_missing_char(s, b[k], 0);
        } else if k == 7 {
            lemma_missing_char(s, b[k], 1);
        } else if k == 8 {
            lemma_missing_pair(s, b[k]);
        } else if k == 9 {
            lemma_missing_char(s, b[k], 5);
        } else if k == 10 {
            lemma_missing_pair(s, b[k]);
        } else if k == 11 {
            lemma_missing_char(s, b[k], 0);
        } else {
            lemma_missing_char(s, b[k], 5);
        }
    }
}

/// Arguments that are plain one by one and together pass the check.
proof fn lemma_plain_args(args: Seq<Seq<char>>)
    requires
        args.len() <= 40,
        forall|i: int| 0 <= i < args.len() ==> plain_line(#[trigger] args[i]),
        plain_line(join_with(args, " "@)),
    ensures
        args_verdict(args) is None,
{
    assert forall|i: int| 0 <= i < args.len() implies !unsafe_arg(#[trigger] args[i]) by {
        lemma_plain_line(args[i]);
    }
    lemma_plain_line(join_with(args, " "@));
}

/// Every argument list a project command uses passes the check.
proof fn lemma_project_args()
    ensures
        args_verdict(seq!["test"@]) is None,
        args_verdict(seq!["run"@, "build"@]) is None,
        args_verdict(seq!["run"@, "lint"@]) is None,
        args_verdict(seq!["check"@]) is None,
        args_verdict(seq!["build"@]) is None,
        args_verdict(seq!["-m"@, "pytest"@]) is None,
        args_verdict(seq!["test"@, "./..."@]) is None,
        args_verdict(seq!["build"@, "./..."@]) is None,
{
    reveal_with_fuel(lacks_from, 12);
    reveal_with_fuel(lacks_pair_from, 12);
    reveal_strlit("test");
    reveal_strlit("run");
    reveal_strlit("build");
    reveal_strlit("lint");
    reveal_strlit("check");
    reveal_strlit("-m");
    reveal_strlit("pytest");
    reveal_strlit("./...");
    reveal_strlit(" ");
    assert(lower_seq("test"@) =~= "test"@);
    assert(lower_seq("run"@) =~= "run"@);
    assert(lower_seq("build"@) =~= "build"@);
    assert(lower_seq("lint"@) =~= "lint"@);
    assert(lower_seq("check"@) =~= "check"@);
    assert(lower_seq("-m"@) =~= "-m"@);
    assert(lower_seq("pytest"@) =~= "pytest"@);
    assert(lower_seq("./..."@) =~= "./..."@);
    assert(plain_line("test"@));
    assert(plain_line("run"@));
    assert(plain_line("build"@));
    assert(plain_line("lint"@));
    assert(plain_line("check"@));
    assert(plain_line("-m"@));
    assert(plain_line("pytest"@));
    assert(plain_line("./..."@));
    assert(lower_seq("run"@ + " "@ + "build"@) =~= "run"@ + " "@ + "build"@);
    assert(lower_seq("run"@ + " "@ + "lint"@) =~= "run"@ + " "@ + "lint"@);
    assert(lower_seq("-m"@ + " "@ + "pytest"@) =~= "-m"@ + " "@ + "pytest"@);
    assert(lower_seq("test"@ + " "@ + "./..."@) =~= "test"@ + " "@ + "./..."@);
    assert(lower_seq("build"@ + " "@ + "./..."@) =~= "build"@ + " "@ + "./..."@);
    assert(plain_line("run"@ + " "@ + "build"@));
    assert(plain_line("run"@ + " "@ + "lint"@));
    assert(plain_line("-m"@ + " "@ + "pytest"@));
    assert(plain_line("test"@ + " "@ + "./..."@));
    assert(plain_line("build"@ + " "@ + "./..."@));
    lemma_single_arg("test"@);
    lemma_single_arg("check"@);
    lemma_single_arg("build"@);
    lemma_pair_args("run"@, "build"@);
    lemma_pair_args("run"@, "lint"@);
    lemma_pair_args("-m"@, "pytest"@);
    lemma_pair_args("test"@, "./..."@);
    lemma_pair_args("build"@, "./..."@);
}

proof fn lemma_single_arg(a: Seq<char>)
    requires
        plain_line(a),
    ensures
        args_verdict(seq![a]) is None,
{
    assert(join_with(seq![a], " "@) == a);
    lemma_plain_args(seq![a]);
}

proof fn lemma_pair_args(a: Seq<char>, b: Seq<char>)
    requires
        plain_line(a),
        plain_line(b),
        plain_line(a + " "@ + b),
    ensures
        args_verdict(seq![a, b]) is None,
{
    assert(seq![a, b].drop_last() =~= seq![a]);
    assert(join_with(seq![a], " "@) == a);
    assert(seq![a, b].last() == b);
    assert(join_with(seq![a, b], " "@) == join_with(seq![a], " "@) + " "@ + b);
    lemma_plain_args(seq![a, b]);
}

/// The commands of a project (see `project_commands_spec`); the scripts of
/// `package.json` are read with `serde_json`.
pub fn project_commands(markers: &ProjectMarkers) -> (r: Vec<DetectedCommand>)
    ensures
        commands_view(r@) == markers_commands(
            match markers.package_json {
                Some(t) => crate::json::package_script_names(t@),
                None => None,
            },
            *markers,
        ),
{
    let scripts = match &markers.package_json {
        Some(text) => crate::json::package_scripts(text.as_str()),
        None => None,
    };
    let ghost sv = crate::json::opt_strings(scripts);
    let mut found: Vec<DetectedCommand> = Vec::new();
    assert(commands_view(found@) =~= Seq::<CommandView>::empty());
    add_npm(&mut found, &scripts);
    let ghost a = commands_view(found@);
    if markers.cargo_toml {
        add_cargo(&mut found);
    }
    assert(commands_view(found@) =~= a + when(markers.cargo_toml, cargo_group()));
    let ghost b = commands_view(found@);
    let python = markers.pyproject_toml || markers.pytest_ini || markers.tests_dir;
    if python {
        add_command(&mut found, "pytest", "Ejecutar pruebas Python", "python", "-m", Some("pytest"), "test");
    }
    assert(commands_view(found@) =~= b + when(python, python_group()));
    let ghost c = commands_view(found@);
    if markers.go_mod {
        add_go(&mut found);
    }
    assert(commands_view(found@) =~= c + when(markers.go_mod, go_group()));
    let ghost d = commands_view(found@);
    if markers.solution_file {
        add_dotnet(&mut found);
    }
    assert(commands_view(found@) =~= d + when(markers.solution_file, dotnet_group()));
    assert(commands_view(found@) =~= markers_commands(sv, *markers));
    found
}


// ---------------------------------------------------------------- reading pipes

/// What `std::str::from_utf8` reports on `bytes`: `Ok` for valid UTF-8, else
/// the length of the valid prefix and the length of the invalid sequence
/// after it (`None` when the bytes end inside a character).
pub uninterp spec fn utf8_report(bytes: Seq<u8>) -> Result<(), (usize, Option<usize>)>;

/// Bytes that some continuation makes valid UTF-8: valid UTF-8 itself, or
/// valid UTF-8 cut inside a character.
pub open spec fn utf8_prefix(bytes: Seq<u8>) -> bool {
    exists|ext: Seq<u8>| vstd::utf8::valid_utf8(#[trigger] (bytes + ext))
}

/// `std::str::from_utf8`, reduced to its report. std documents that it
/// accepts exactly valid UTF-8; that `valid_up_to` is the longest prefix
/// that is valid; and that `error_len` is `None` only when the input ends
/// inside a character, otherwise naming an unexpected byte sequence, which
/// no continuation of the input can repair.
#[verifier::external_body]
fn check_utf8(bytes: &[u8]) -> (r: Result<(), (usize, Option<usize>)>)
    ensures
        r == utf8_report(bytes@),
        r is Ok <==> vstd::utf8::valid_utf8(bytes@),
        r matches Err((n, _)) ==> n <= bytes@.len() && vstd::utf8::valid_utf8(bytes@.take(n as int)),
        r matches Err((_, Some(_))) ==> !utf8_prefix(bytes@),
{
    match std::str::from_utf8(bytes) {
        Ok(_) => Ok(()),
        Err(e) => Err((e.valid_up_to(), e.error_len())),
    }
}

/// How many of the bytes read from a pipe so far are passed on as text: all
/// of them, unless they end inside a character, whose first bytes then wait
/// for the rest. Invalid bytes are passed on (to be shown replaced).
pub open spec fn flush_point(len: int, report: Result<(), (usize, Option<usize>)>) -> int {
    match report {
        Ok(()) => len,
        Err((valid, None)) => valid as int,
        Err((_, Some(_))) => len,
    }
}

/// The number of pending pipe bytes to pass on now (see `flush_point`). When
/// the bytes can still become valid UTF-8, what is passed on is valid UTF-8.
pub fn flush_len(pending: &[u8]) -> (r: usize)
    ensures
        r == flush_point(pending@.len() as int, utf8_report(pending@)),
        r <= pending@.len(),
        vstd::utf8::valid_utf8(pending@) ==> r == pending@.len(),
        utf8_prefix(pending@) ==> vstd::utf8::valid_utf8(pending@.take(r as int)),
{
    match check_utf8(pending) {
        Ok(()) => {
            assert(pending@.take(pending@.len() as int) =~= pending@);
            pending.len()
        },
        Err((valid, None)) => valid,
        Err((_, Some(_))) => pending.len(),
    }
}

/// What `String::from_utf8_lossy` makes of some bytes.
pub uninterp spec fn lossy_decoded(bytes: Seq<u8>) -> Seq<char>;

/// `String::from_utf8_lossy`, owned. std documents that valid UTF-8 comes back
/// as the text it encodes and that each invalid sequence becomes U+FFFD, so
/// bytes never come back as empty text.
#[verifier::external_body]
fn lossy_text(bytes: &[u8]) -> (r: String)
    ensures
        r@ == lossy_decoded(bytes@),
        vstd::utf8::valid_utf8(bytes@) ==> r@ == vstd::utf8::decode_utf8(bytes@),
        bytes@.len() > 0 ==> r@.len() > 0,
{
    String::from_utf8_lossy(bytes).into_owned()
}

/// A valid prefix of valid UTF-8 leaves valid UTF-8 behind it, and the text
/// of the whole is the text of the prefix followed by that of the rest.
proof fn lemma_utf8_after_prefix(a: Seq<u8>, b: Seq<u8>)
    requires
        vstd::utf8::valid_utf8(a),
        vstd::utf8::valid_utf8(a + b),
    ensures
        vstd::utf8::valid_utf8(b),
        vstd::utf8::decode_utf8(a + b) == vstd::utf8::decode_utf8(a) + vstd::utf8::decode_utf8(b),
    decreases a.len(),
{
    if a.len() == 0 {
        assert(a + b =~= b);
        assert(vstd::utf8::decode_utf8(a) =~= Seq::<char>::empty());
        assert(vstd::utf8::decode_utf8(a) + vstd::utf8::decode_utf8(b) =~= vstd::utf8::decode_utf8(b));
    } else {
        let ab = a + b;
        let l = vstd::utf8::length_of_first_scalar(a);
        assert(ab[0] == a[0]);
        assert(l <= a.len());
        assert(forall|i: int| 0 <= i < a.len() ==> #[trigger] ab[i] == a[i]);
        assert(vstd::utf8::length_of_first_scalar(ab) == l);
        assert(vstd::utf8::decode_first_scalar(ab) == vstd::utf8::decode_first_scalar(a));
        assert(vstd::utf8::pop_first_scalar(ab) =~= vstd::utf8::pop_first_scalar(a) + b);
        lemma_utf8_after_prefix(vstd::utf8::pop_first_scalar(a), b);
        assert(vstd::utf8::decode_utf8(ab) =~= vstd::utf8::decode_utf8(a) + vstd::utf8::decode_utf8(b));
    }
}

/// Valid UTF-8 followed by valid UTF-8 is valid, and its text is the two
/// texts in order.
proof fn lemma_utf8_concat(a: Seq<u8>, b: Seq<u8>)
    requires
        vstd::utf8::valid_utf8(a),
        vstd::utf8::valid_utf8(b),
    ensures
        vstd::utf8::valid_utf8(a + b),
        vstd::utf8::decode_utf8(a + b) == vstd::utf8::decode_utf8(a) + vstd::utf8::decode_utf8(b),
{
    vstd::utf8::valid_utf8_concat(a, b);
    lemma_utf8_after_prefix(a, b);
}

/// The text of one output pipe, handed on in pieces as its bytes arrive: the
/// first bytes of a character cut by a read wait for the rest.
pub struct PipeText {
    pending: Vec<u8>,
    read: Ghost<Seq<u8>>,
    sent: Ghost<Seq<u8>>,
    shown: Ghost<Seq<char>>,
}

impl PipeText {
    /// Every byte read so far.
    pub closed spec fn read(&self) -> Seq<u8> {
        self.read@
    }

    /// The bytes already handed on as text.
    pub closed spec fn sent(&self) -> Seq<u8> {
        self.sent@
    }

    /// The bytes still waiting.
    pub closed spec fn pending(&self) -> Seq<u8> {
        self.pending@
    }

    /// The texts handed on so far, joined.
    pub closed spec fn shown(&self) -> Seq<char> {
        self.shown@
    }

    /// What was read is what was sent followed by what waits; while the bytes
    /// read can still become valid UTF-8, what was sent is valid and the
    /// texts handed on are exactly its text.
    pub open spec fn wf(&self) -> bool {
        &&& self.read() == self.sent() + self.pending()
        &&& utf8_prefix(self.read()) ==> vstd::utf8::valid_utf8(self.sent())
            && self.shown() == vstd::utf8::decode_utf8(self.sent())
    }

    pub fn new() -> (r: PipeText)
        ensures
            r.wf(),
            r.read() == Seq::<u8>::empty(),
            r.shown() == Seq::<char>::empty(),
    {
        let r = PipeText {
            pending: Vec::new(),
            read: Ghost(Seq::empty()),
            sent: Ghost(Seq::empty()),
            shown: Ghost(Seq::empty()),
        };
        assert(r.sent() + r.pending() =~= r.read());
        assert(vstd::utf8::decode_utf8(Seq::<u8>::empty()) =~= Seq::<char>::empty());
        r
    }

    /// Takes the bytes of one read and hands on the text that is complete:
    /// the waiting bytes up to `flush_point`, that is everything but a
    /// character cut at the end, decoded lossily. A text handed on is never
    /// empty.
    pub fn feed(&mut self, chunk: &[u8]) -> (r: Option<String>)
        requires
            old(self).wf(),
        ensures
            final(self).wf(),
            final(self).read() == old(self).read() + chunk@,
            ({
                let waiting = old(self).pending() + chunk@;
                let end = flush_point(waiting.len() as int, utf8_report(waiting));
                &&& final(self).pending() == waiting.skip(end)
                &&& match r {
                    Some(t) => end > 0 && t@ == lossy_decoded(waiting.take(end)) && t@.len() > 0
                        && final(self).shown() == old(self).shown() + t@,
                    None => end == 0 && final(self).shown() == old(self).shown(),
                }
            }),
    {
        let ghost before = self.read();
        let ghost ext_read = before + chunk@;
        let mut i: usize = 0;
        while i < chunk.len()
            invariant
                i <= chunk@.len(),
                self.pending@ == old(self).pending@ + chunk@.take(i as int),
                self.read == old(self).read,
                self.sent == old(self).sent,
                self.shown == old(self).shown,
            decreases chunk@.len() - i,
        {
            self.pending.push(chunk[i]);
            i += 1;
            assert(self.pending@ =~= old(self).pending@ + chunk@.take(i as int));
        }
        assert(chunk@.take(chunk@.len() as int) =~= chunk@);
        self.read = Ghost(ext_read);
        assert(ext_read =~= self.sent@ + self.pending@);
        let ghost p = self.pending@;
        let end = flush_len(self.pending.as_slice());
        proof {
            if utf8_prefix(ext_read) {
                let ext = choose|ext: Seq<u8>| vstd::utf8::valid_utf8(#[trigger] (ext_read + ext));
                assert(utf8_prefix(before)) by {
                    assert(before + (chunk@ + ext) =~= ext_read + ext);
                }
                assert((self.sent@ + (p + ext)) =~= ext_read + ext);
                lemma_utf8_after_prefix(self.sent@, p + ext);
                assert(utf8_prefix(p));
            }
        }
        if end == 0 {
            assert(p.skip(0) =~= p);
            assert(self.sent@ + self.pending@ =~= ext_read);
            proof {
                if utf8_prefix(ext_read) {
                    let ext = choose|ext: Seq<u8>| vstd::utf8::valid_utf8(#[trigger] (ext_read + ext));
                    assert(before + (chunk@ + ext) =~= ext_read + ext);
                }
            }
            return None;
        }
        let rest = self.pending.split_off(end);
        let text = lossy_text(self.pending.as_slice());
        let ghost head = self.pending@;
        assert(head =~= p.take(end as int));
        proof {
            if utf8_prefix(ext_read) {
                let ext = choose|ext: Seq<u8>| vstd::utf8::valid_utf8(#[trigger] (ext_read + ext));
                assert(utf8_prefix(before)) by {
                    assert(before + (chunk@ + ext) =~= ext_read + ext);
                }
                lemma_utf8_concat(self.sent@, head);
            }
        }
        self.sent = Ghost(self.sent@ + head);
        self.shown = Ghost(self.shown@ + text@);
        self.pending = rest;
        assert(self.pending@ =~= p.skip(end as int));
        assert(self.sent@ + self.pending@ =~= ext_read);
        Some(text)
    }

    /// The end of the pipe: whatever still waits is handed on, invalid or
    /// not. When everything read was valid UTF-8, the texts handed on,
    /// joined, are exactly its text.
    pub fn finish(self) -> (r: Option<String>)
        requires
            self.wf(),
        ensures
            r is None <==> self.pending().len() == 0,
            r matches Some(t) ==> t@ == lossy_decoded(self.pending()) && t@.len() > 0,
            vstd::utf8::valid_utf8(self.read()) ==> match r {
                Some(t) => self.shown() + t@ == vstd::utf8::decode_utf8(self.read()),
                None => self.shown() == vstd::utf8::decode_utf8(self.read()),
            },
    {
        proof {
            if vstd::utf8::valid_utf8(self.read()) {
                assert(self.read() + Seq::<u8>::empty() =~= self.read());
                assert(utf8_prefix(self.read()));
                lemma_utf8_after_prefix(self.sent(), self.pending());
            }
        }
        if self.pending.len() == 0 {
            assert(self.sent() + self.pending() =~= self.sent());
            None
        } else {
            Some(lossy_text(self.pending.as_slice()))
        }
    }
}

// ---------------------------------------------------------------- tools outside PATH

/// Folders where Windows installers put tools without adding them to PATH.
pub fn known_tool_folders() -> (r: Vec<&'static str>)
    ensures
        r@.len() == 2,
        r@[0]@ == "C:\\Program Files\\Nmap"@,
        r@[1]@ == "C:\\Program Files (x86)\\Nmap"@,
{
    vec!["C:\\Program Files\\Nmap", "C:\\Program Files (x86)\\Nmap"]
}

/// Some entry of `paths` names `folder`, ignoring ASCII case.
pub open spec fn listed_path(paths: Seq<Seq<char>>, folder: Seq<char>) -> bool {
    exists|i: int| 0 <= i < paths.len() && lower_seq(#[trigger] paths[i]) == lower_seq(folder)
}

/// `paths` with each of `folders` appended, in order, unless already listed.
pub open spec fn with_folders(paths: Seq<Seq<char>>, folders: Seq<Seq<char>>) -> Seq<Seq<char>>
    decreases folders.len(),
{
    if folders.len() == 0 {
        paths
    } else {
        let p = with_folders(paths, folders.drop_last());
        if listed_path(p, folders.last()) {
            p
        } else {
            p.push(folders.last())
        }
    }
}

proof fn lemma_with_folders_grows(paths: Seq<Seq<char>>, folders: Seq<Seq<char>>)
    ensures
        with_folders(paths, folders).len() >= paths.len(),
        with_folders(paths, folders).take(paths.len() as int) == paths,
    decreases folders.len(),
{
    if folders.len() > 0 {
        lemma_with_folders_grows(paths, folders.drop_last());
        let p = with_folders(paths, folders.drop_last());
        assert(p.push(folders.last()).take(paths.len() as int) =~= p.take(paths.len() as int));
    }
}

fn listed_path_exec(paths: &Vec<String>, folder: &str) -> (r: bool)
    ensures
        r == listed_path(strings_view(paths@), folder@),
{
    let wanted = to_lower(&chars_of(folder));
    let mut i: usize = 0;
    while i < paths.len()
        invariant
            i <= paths.len(),
            wanted@ == lower_seq(folder@),
            forall|k: int|
                0 <= k < i ==> lower_seq(#[trigger] strings_view(paths@)[k]) != lower_seq(folder@),
        decreases paths.len() - i,
    {
        if vec_eq(&to_lower(&chars_of(paths[i].as_str())), &wanted) {
            assert(lower_seq(strings_view(paths@)[i as int]) == lower_seq(folder@));
            return true;
        }
        i += 1;
    }
    false
}

/// The PATH a command runs with when some of `folders_with_tool` (the known
/// folders that hold the tool) are missing from `paths`: those appended in
/// order; `None` when all are already listed.
pub fn extended_tool_path(paths: Vec<String>, folders_with_tool: &Vec<&str>) -> (r: Option<Vec<String>>)
    ensures
        ({
            let full = with_folders(
                strings_view(paths@),
                folders_with_tool@.map_values(|f: &str| f@),
            );
            if full.len() > paths@.len() {
                r matches Some(v) && strings_view(v@) == full
            } else {
                r is None
            }
        }),
{
    let ghost start = strings_view(paths@);
    let ghost fv = folders_with_tool@.map_values(|f: &str| f@);
    let initial = paths.len();
    let mut out = paths;
    let mut i: usize = 0;
    assert(fv.take(0) =~= Seq::<Seq<char>>::empty());
    while i < folders_with_tool.len()
        invariant
            i <= folders_with_tool.len(),
            fv == folders_with_tool@.map_values(|f: &str| f@),
            strings_view(out@) == with_folders(start, fv.take(i as int)),
        decreases folders_with_tool.len() - i,
    {
        let folder = folders_with_tool[i];
        assert(fv.take(i + 1).drop_last() =~= fv.take(i as int));
        assert(fv.take(i + 1).last() == folder@);
        if !listed_path_exec(&out, folder) {
            let ghost before = strings_view(out@);
            out.push(owned(folder));
            assert(strings_view(out@) =~= before.push(folder@));
        }
        i += 1;
    }
    assert(fv.take(folders_with_tool.len() as int) =~= fv);
    proof {
        lemma_with_folders_grows(start, fv);
    }
    if out.len() > initial {
        Some(out)
    } else {
        None
    }
}


// ---------------------------------------------------------------- laws

/// Below the shell and admin levels no command line is ever run: only an
/// allowlisted program, resolved for the platform, with arguments that pass
/// the argument check, exactly as requested.
pub proof fn lemma_safe_levels_run_only_allowlisted_programs(r: RequestView, p: Platform, present: bool)
    requires
        r.terminal_mode != "shell"@,
        r.terminal_mode != "admin"@,
    ensures
        invocation_outcome(r, p, present) matches Ok((program, args)) ==> {
            &&& !has_shell_command(r.command)
            &&& allowed_program_spec(r.program, p) == Some(program)
            &&& args_verdict(r.args) is None
            &&& args == r.args
        },
{
}

} // verus!
