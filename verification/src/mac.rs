//! The macOS seatbelt backend: what is spawned, with which limits, and the files of a sandbox.

use vstd::prelude::*;

use crate::mechanism::{
    self, port_number, push_item, CreateRequest, CreateResult, DoctorItem, HostOs, MechanismError,
};
use crate::paths;
use crate::policy::{self, MechanismKind, NetworkMode, PolicyError, SandboxPolicy};
use crate::seatbelt::{self, generate_seatbelt_profile};
use crate::text::{
    self, copy_pairs, extend_texts, lists_text, push_pair, push_text, strip_prefix,
};

verus! {

/// The seatbelt backend.
#[derive(Debug)]
pub struct MacMechanism {
    /// Directory for seatbelt profiles (optional override).
    pub state_dir: Option<String>,
}

/// The places where `sandbox-exec` is looked for, in order.
pub open spec fn candidates() -> Seq<Seq<char>> {
    seq!["/usr/bin/sandbox-exec"@, "/usr/local/bin/sandbox-exec"@]
}

/// The places where `sandbox-exec` is looked for, in order.
pub fn sandbox_exec_candidates() -> (r: Vec<String>)
    ensures
        text::texts(r@) == candidates(),
{
    let mut out: Vec<String> = Vec::new();
    push_text(&mut out, "/usr/bin/sandbox-exec");
    push_text(&mut out, "/usr/local/bin/sandbox-exec");
    proof {
        assert(text::texts(out@) =~= candidates());
    }
    out
}

/// The first place where `sandbox-exec` is, of the paths that exist.
pub open spec fn found_sandbox_exec(existing: Seq<Seq<char>>) -> Option<Seq<char>> {
    if existing.contains(candidates()[0]) {
        Some(candidates()[0])
    } else if existing.contains(candidates()[1]) {
        Some(candidates()[1])
    } else {
        None
    }
}

/// The first place where `sandbox-exec` is, of the paths that exist.
pub fn which_sandbox_exec(existing: &Vec<String>) -> (r: Option<String>)
    ensures
        text::optional_text(r) == found_sandbox_exec(text::texts(existing@)),
{
    if lists_text(existing, "/usr/bin/sandbox-exec") {
        Some("/usr/bin/sandbox-exec".to_owned())
    } else if lists_text(existing, "/usr/local/bin/sandbox-exec") {
        Some("/usr/local/bin/sandbox-exec".to_owned())
    } else {
        None
    }
}

/// A process to spawn: its command line, and the variables to set, in order.
#[derive(Debug, PartialEq, Eq)]
pub struct SpawnPlan {
    pub argv: Vec<String>,
    pub env: Vec<(String, String)>,
}

/// The command line that runs a command, or an interactive shell where there is none, under a
/// profile.
pub open spec fn sandboxed_argv(
    sandbox_exec: Seq<char>,
    profile_path: Seq<char>,
    command: Seq<Seq<char>>,
) -> Seq<Seq<char>> {
    seq![sandbox_exec, "-f"@, profile_path] + if command.len() == 0 {
        seq!["/bin/zsh"@, "-i"@]
    } else {
        command
    }
}

/// The variables that point a sandboxed process to the proxy on this host.
pub open spec fn proxy_env(mode: NetworkMode, port: Option<Seq<char>>) -> Seq<
    (Seq<char>, Seq<char>),
> {
    match port {
        Some(port) if mode == NetworkMode::Allowlist => {
            let url = "http://127.0.0.1:"@ + port;
            seq![
                ("HTTP_PROXY"@, url),
                ("HTTPS_PROXY"@, url),
                ("http_proxy"@, url),
                ("https_proxy"@, url),
                ("NO_PROXY"@, "localhost,127.0.0.1"@),
            ]
        },
        _ => Seq::empty(),
    }
}

/// What to spawn for a command under a profile; `sandbox_exec` is where the binary was found.
pub fn spawn_plan(
    sandbox_exec: Option<String>,
    profile_path: &str,
    policy: &SandboxPolicy,
    command: &Vec<String>,
    env: &Vec<(String, String)>,
    proxy_port: &Option<String>,
) -> (r: Result<SpawnPlan, MechanismError>)
    ensures
        match sandbox_exec {
            None => r is Err && r->Err_0@ == mechanism::MechanismErrorView::Unavailable(
                "sandbox-exec not found (macOS only)"@,
            ),
            Some(binary) => {
                &&& r is Ok
                &&& text::texts(r->Ok_0.argv@) == sandboxed_argv(
                    binary@,
                    profile_path@,
                    text::texts(command@),
                )
                &&& text::pairs(r->Ok_0.env@) == text::pairs(env@) + proxy_env(
                    policy.network.mode,
                    text::optional_text(*proxy_port),
                )
            },
        },
{
    let binary = match sandbox_exec {
        Some(binary) => binary,
        None => {
            return Err(
                MechanismError::Unavailable("sandbox-exec not found (macOS only)".to_owned()),
            );
        },
    };
    let mut argv: Vec<String> = Vec::new();
    push_text(&mut argv, binary.as_str());
    push_text(&mut argv, "-f");
    push_text(&mut argv, profile_path);
    if command.len() == 0 {
        push_text(&mut argv, "/bin/zsh");
        push_text(&mut argv, "-i");
    } else {
        extend_texts(&mut argv, command);
    }
    proof {
        assert(text::texts(argv@) =~= sandboxed_argv(
            binary@,
            profile_path@,
            text::texts(command@),
        ));
    }
    let mut vars = copy_pairs(env);
    if policy.network.mode == NetworkMode::Allowlist {
        if let Some(port) = proxy_port {
            let url = "http://127.0.0.1:".to_owned().concat(port.as_str());
            push_pair(&mut vars, "HTTP_PROXY", url.as_str());
            push_pair(&mut vars, "HTTPS_PROXY", url.as_str());
            push_pair(&mut vars, "http_proxy", url.as_str());
            push_pair(&mut vars, "https_proxy", url.as_str());
            push_pair(&mut vars, "NO_PROXY", "localhost,127.0.0.1");
        }
    }
    proof {
        assert(text::pairs(vars@) =~= text::pairs(env@) + proxy_env(
            policy.network.mode,
            text::optional_text(*proxy_port),
        ));
    }
    Ok(SpawnPlan { argv, env: vars })
}

/// The exit code of a spawned command, or why it could not be spawned.
pub fn spawn_outcome(status: Result<Option<i32>, String>) -> (r: Result<
    Option<i32>,
    MechanismError,
>)
    ensures
        match status {
            Ok(code) => r == Ok::<Option<i32>, MechanismError>(code),
            Err(cause) => r is Err && r->Err_0@ == mechanism::MechanismErrorView::Message(
                "sandbox-exec failed: "@ + cause@,
            ),
        },
{
    match status {
        Ok(code) => Ok(code),
        Err(cause) => Err(
            MechanismError::Message("sandbox-exec failed: ".to_owned().concat(cause.as_str())),
        ),
    }
}

/// Resource limits of a spawned process.
#[derive(Debug, Clone, Copy, PartialEq, Eq, Structural)]
pub struct Rlimits {
    /// Bytes of memory.
    pub memory: u64,
    /// Seconds of CPU time.
    pub cpu_seconds: u64,
}

/// The limits that a policy sets: its memory, and an hour of CPU time on each of its CPUs, but at
/// least a minute.
pub fn rlimits(policy: &SandboxPolicy) -> (r: Result<Rlimits, MechanismError>)
    ensures
        match policy::size_value(policy.resources.memory@) {
            Ok(bytes) => {
                &&& r is Ok
                &&& r->Ok_0.memory as nat == bytes
                &&& r->Ok_0.cpu_seconds == if policy.resources.cpus.hour_seconds >= 60 {
                    policy.resources.cpus.hour_seconds
                } else {
                    60
                }
            },
            Err(e) => r is Err && r->Err_0@ == mechanism::MechanismErrorView::Message(e.message()),
        },
{
    let memory: u64 = match policy.resources.memory_bytes() {
        Ok(bytes) => bytes,
        Err(e) => {
            return Err(MechanismError::Message(e.message()));
        },
    };
    let hours: u64 = policy.resources.cpus.hour_seconds;
    Ok(Rlimits { memory, cpu_seconds: if hours >= 60 { hours } else { 60 } })
}

/// The files that a persistent sandbox keeps.
#[derive(Debug, PartialEq, Eq)]
pub struct InstanceFiles {
    pub dir: String,
    /// The seatbelt profile.
    pub profile: String,
    /// The working directory, as text.
    pub workdir: String,
    /// The policy.
    pub policy: String,
}

/// How a sandbox is created.
#[derive(Debug, PartialEq, Eq)]
pub enum CreatePlan {
    /// Run the command of the request under the profile and wait for it.
    Run,
    /// Keep the profile on disk for later commands.
    Keep(InstanceFiles),
}

/// A file that a persistent sandbox writes when it is created.
#[derive(Debug, Clone, PartialEq, Eq)]
pub struct KeptFile {
    pub path: String,
    pub text: String,
    /// Whether the sandbox is not created where the file cannot be written.
    pub needed: bool,
}

/// A file to write with its texts as characters.
pub struct KeptFileView {
    pub path: Seq<char>,
    pub text: Seq<char>,
    pub needed: bool,
}

impl View for KeptFile {
    type V = KeptFileView;

    open spec fn view(&self) -> KeptFileView {
        KeptFileView { path: self.path@, text: self.text@, needed: self.needed }
    }
}

/// What a persistent sandbox writes, in order: its profile for the working directory `workdir`, the
/// working directory of the request, and its policy where that could be written out.
pub open spec fn kept(
    files: InstanceFiles,
    req: CreateRequest,
    workdir: Seq<char>,
    written: Result<String, PolicyError>,
) -> Seq<KeptFileView> {
    seq![
        KeptFileView {
            path: files.profile@,
            text: text::lines_text(seatbelt::profile_rules(req.policy, workdir)),
            needed: true,
        },
        KeptFileView { path: files.workdir@, text: req.workdir@, needed: true },
    ] + match written {
        Ok(yaml) => seq![
            KeptFileView { path: files.policy@, text: yaml@, needed: false },
        ],
        Err(_) => Seq::empty(),
    }
}

/// The directory of a persistent sandbox under a state directory.
pub open spec fn instance_dir(base: Seq<char>, name: Seq<char>) -> Seq<char> {
    paths::joined(paths::joined(base, "instances"@), name)
}

/// A sandbox that a runtime id stands for.
#[derive(Debug, PartialEq, Eq)]
pub struct MacRuntime {
    pub dir: String,
    pub profile: String,
    /// The file that holds the working directory.
    pub workdir_file: String,
    /// The file that holds the policy.
    pub policy_file: String,
}

/// The profile path in a runtime id.
pub open spec fn runtime_profile(runtime_id: Seq<char>) -> Option<Seq<char>> {
    text::after_prefix(runtime_id, "mac:"@)
}

/// The directory of the profile in a runtime id.
pub open spec fn runtime_dir(runtime_id: Seq<char>) -> Option<Seq<char>> {
    match runtime_profile(runtime_id) {
        Some(profile) => paths::parent_of(profile),
        None => None,
    }
}

/// Reads a runtime id: `mac:` and the path of a profile, in whose directory the other files of the
/// sandbox are.
pub fn parse_mac_runtime(runtime_id: &str) -> (r: Result<MacRuntime, MechanismError>)
    ensures
        match runtime_profile(runtime_id@) {
            None => r is Err && r->Err_0@ == mechanism::MechanismErrorView::Message(
                "not a mac runtime id: "@ + runtime_id@,
            ),
            Some(profile) => match paths::parent_of(profile) {
                None => r is Err && r->Err_0@ == mechanism::MechanismErrorView::Message(
                    "invalid mac runtime id"@,
                ),
                Some(dir) => {
                    &&& r is Ok
                    &&& r->Ok_0.dir@ == dir
                    &&& r->Ok_0.profile@ == profile
                    &&& r->Ok_0.workdir_file@ == paths::joined(dir, "workdir"@)
                    &&& r->Ok_0.policy_file@ == paths::joined(dir, "policy.yaml"@)
                },
            },
        },
{
    match strip_prefix(runtime_id, "mac:") {
        None => Err(
            MechanismError::Message("not a mac runtime id: ".to_owned().concat(runtime_id)),
        ),
        Some(profile) => match paths::parent(profile.as_str()) {
            None => Err(MechanismError::Message("invalid mac runtime id".to_owned())),
            Some(dir) => {
                let workdir_file = paths::join(dir.as_str(), "workdir");
                let policy_file = paths::join(dir.as_str(), "policy.yaml");
                Ok(MacRuntime { dir, profile, workdir_file, policy_file })
            },
        },
    }
}

/// The working directory of a sandbox: what its file holds, or the current directory where that
/// cannot be read.
pub fn stored_workdir(read: Option<String>) -> (r: String)
    ensures
        match read {
            Some(dir) => r == dir,
            None => r@ == "."@,
        },
{
    match read {
        Some(dir) => dir,
        None => ".".to_owned(),
    }
}

/// The policy of a sandbox: what its file holds, or the default where that cannot be read.
pub fn stored_policy(read: Option<SandboxPolicy>) -> (r: SandboxPolicy)
    ensures
        match read {
            Some(policy) => r == policy,
            None => r.is_restrictive(),
        },
{
    match read {
        Some(policy) => policy,
        None => SandboxPolicy::default(),
    }
}

impl Default for MacMechanism {
    fn default() -> (r: Self)
        ensures
            r.state_dir is None,
    {
        MacMechanism { state_dir: None }
    }
}

impl MacMechanism {
    pub fn new() -> (r: Self)
        ensures
            r.state_dir is None,
    {
        MacMechanism { state_dir: None }
    }

    pub fn kind(&self) -> (r: MechanismKind)
        ensures
            r == MechanismKind::Mac,
    {
        MechanismKind::Mac
    }

    pub fn name(&self) -> (r: &'static str)
        ensures
            r@ == "mac_seatbelt"@,
    {
        "mac_seatbelt"
    }

    /// Whether `sandbox-exec` is one of the paths that exist.
    pub fn sandbox_exec_available(existing: &Vec<String>) -> (r: bool)
        ensures
            r == (found_sandbox_exec(text::texts(existing@)) is Some),
    {
        which_sandbox_exec(existing).is_some()
    }

    /// Health checks, given which of the places of `sandbox-exec` exist, the operating system and
    /// its name.
    pub fn doctor(&self, existing: &Vec<String>, os: HostOs, os_name: &str) -> (r: Vec<DoctorItem>)
        ensures
            mechanism::report(r@) == seq![
                mechanism::DoctorItemView {
                    name: "sandbox-exec"@,
                    ok: found_sandbox_exec(text::texts(existing@)) is Some,
                    detail: match found_sandbox_exec(text::texts(existing@)) {
                        Some(path) => path,
                        None => "not found — macOS host required"@,
                    },
                },
                mechanism::DoctorItemView {
                    name: "platform"@,
                    ok: os == HostOs::MacOs,
                    detail: os_name@,
                },
                mechanism::DoctorItemView {
                    name: "rlimits"@,
                    ok: true,
                    detail: "setrlimit AS/DATA/CPU (soft; weaker than Linux cgroups)"@,
                },
            ],
    {
        let mut items: Vec<DoctorItem> = Vec::new();
        match which_sandbox_exec(existing) {
            Some(path) => {
                push_item(&mut items, "sandbox-exec", true, path.as_str());
            },
            None => {
                push_item(&mut items, "sandbox-exec", false, "not found — macOS host required");
            },
        }
        push_item(&mut items, "platform", os == HostOs::MacOs, os_name);
        push_item(
            &mut items,
            "rlimits",
            true,
            "setrlimit AS/DATA/CPU (soft; weaker than Linux cgroups)",
        );
        proof {
            let found = found_sandbox_exec(text::texts(existing@));
            assert(mechanism::report(items@) =~= seq![
                mechanism::DoctorItemView {
                    name: "sandbox-exec"@,
                    ok: found is Some,
                    detail: match found {
                        Some(path) => path,
                        None => "not found — macOS host required"@,
                    },
                },
                mechanism::DoctorItemView {
                    name: "platform"@,
                    ok: os == HostOs::MacOs,
                    detail: os_name@,
                },
                mechanism::DoctorItemView {
                    name: "rlimits"@,
                    ok: true,
                    detail: "setrlimit AS/DATA/CPU (soft; weaker than Linux cgroups)"@,
                },
            ]);
        }
        items
    }

    /// How a sandbox is created on a host: an ephemeral one, or one with a command, is run; any
    /// other keeps its files under the state directory, or under `fallback` where none is set.
    pub fn create_plan(&self, req: &CreateRequest, os: HostOs, fallback: &str) -> (r: Result<
        CreatePlan,
        MechanismError,
    >)
        ensures
            os != HostOs::MacOs ==> r is Err && r->Err_0@
                == mechanism::MechanismErrorView::Unavailable("mac_seatbelt requires macOS"@),
            os == HostOs::MacOs ==> r is Ok && if req.ephemeral || req.command@.len() > 0 {
                r->Ok_0 is Run
            } else {
                let dir = instance_dir(
                    match self.state_dir {
                        Some(base) => base@,
                        None => fallback@,
                    },
                    req.name@,
                );
                &&& r->Ok_0 is Keep
                &&& r->Ok_0->Keep_0.dir@ == dir
                &&& r->Ok_0->Keep_0.profile@ == paths::joined(dir, "profile.sb"@)
                &&& r->Ok_0->Keep_0.workdir@ == paths::joined(dir, "workdir"@)
                &&& r->Ok_0->Keep_0.policy@ == paths::joined(dir, "policy.yaml"@)
            },
    {
        if os != HostOs::MacOs {
            return Err(MechanismError::Unavailable("mac_seatbelt requires macOS".to_owned()));
        }
        if req.ephemeral || req.command.len() > 0 {
            return Ok(CreatePlan::Run);
        }
        let base: String = match &self.state_dir {
            Some(base) => base.clone(),
            None => fallback.to_owned(),
        };
        let instances = paths::join(base.as_str(), "instances");
        let dir = paths::join(instances.as_str(), req.name.as_str());
        let profile = paths::join(dir.as_str(), "profile.sb");
        let workdir = paths::join(dir.as_str(), "workdir");
        let policy = paths::join(dir.as_str(), "policy.yaml");
        Ok(CreatePlan::Keep(InstanceFiles { dir, profile, workdir, policy }))
    }

    /// The result of a sandbox that was run and ended with an exit code.
    pub fn run_result(
        &self,
        req: &CreateRequest,
        proxy_port: &Option<String>,
        exit_code: Option<i32>,
    ) -> (r: CreateResult)
        ensures
            r.describes(
                req.name@,
                MechanismKind::Mac,
                "mac-ephemeral:"@ + req.name@,
                text::optional_text(*proxy_port),
                exit_code,
            ),
    {
        CreateResult {
            name: req.name.clone(),
            mechanism: MechanismKind::Mac,
            runtime_id: "mac-ephemeral:".to_owned().concat(req.name.as_str()),
            proxy_port: port_number(proxy_port),
            log_path: None,
            exit_code,
        }
    }

    /// What a persistent sandbox writes. `workdir` is the working directory of the request with its
    /// links resolved, and `written` is its policy as it is written to disk.
    pub fn kept_files(
        &self,
        files: &InstanceFiles,
        req: &CreateRequest,
        workdir: &str,
        written: Result<String, PolicyError>,
    ) -> (r: Result<Vec<KeptFile>, MechanismError>)
        ensures
            r is Ok,
            r->Ok_0@.map_values(|f: KeptFile| f@) == kept(*files, *req, workdir@, written),
    {
        let profile = match generate_seatbelt_profile(&req.policy, workdir) {
            Ok(profile) => profile,
            Err(e) => {
                return Err(e);
            },
        };
        let mut out: Vec<KeptFile> = Vec::new();
        out.push(KeptFile { path: files.profile.clone(), text: profile, needed: true });
        out.push(KeptFile { path: files.workdir.clone(), text: req.workdir.clone(), needed: true });
        if let Ok(yaml) = written {
            out.push(KeptFile { path: files.policy.clone(), text: yaml, needed: false });
        }
        proof {
            assert(out@.map_values(|f: KeptFile| f@) =~= kept(*files, *req, workdir@, written));
        }
        Ok(out)
    }

    /// The result of a sandbox whose profile was kept.
    pub fn kept_result(
        &self,
        req: &CreateRequest,
        files: &InstanceFiles,
        proxy_port: &Option<String>,
    ) -> (r: CreateResult)
        ensures
            r.describes(
                req.name@,
                MechanismKind::Mac,
                "mac:"@ + files.profile@,
                text::optional_text(*proxy_port),
                None,
            ),
    {
        CreateResult {
            name: req.name.clone(),
            mechanism: MechanismKind::Mac,
            runtime_id: "mac:".to_owned().concat(files.profile.as_str()),
            proxy_port: port_number(proxy_port),
            log_path: None,
            exit_code: None,
        }
    }

    /// The directory that is deleted when a sandbox is removed; a runtime id that is none of this
    /// backend's deletes nothing.
    pub fn removal_dir(&self, runtime_id: &str) -> (r: Option<String>)
        ensures
            text::optional_text(r) == runtime_dir(runtime_id@),
    {
        match parse_mac_runtime(runtime_id) {
            Ok(runtime) => Some(runtime.dir),
            Err(_) => None,
        }
    }
}

/// The runtime id of a sandbox that was kept leads back to its profile and to its directory.
pub proof fn law_runtime_id_reads_back(base: Seq<char>, name: Seq<char>)
    ensures
        ({
            let dir = instance_dir(base, name);
            let profile = paths::joined(dir, "profile.sb"@);
            &&& runtime_profile("mac:"@ + profile) == Some(profile)
            &&& runtime_dir("mac:"@ + profile) == Some(paths::trimmed(dir))
        }),
{
    reveal_strlit("mac:");
    reveal_strlit("profile.sb");
    reveal_strlit("instances");
    let dir = instance_dir(base, name);
    let p = paths::joined(dir, "profile.sb"@);
    let id = "mac:"@ + p;
    assert(id.subrange(0, 4) =~= "mac:"@);
    assert(id.skip(4) =~= p);
    paths::law_parent_of_file(dir, "profile.sb"@);
}

/// A later command in a sandbox that was kept under a plain name reads the files that were written
/// when it was created: its directory is the one that the runtime id leads to.
pub proof fn law_exec_reads_what_was_kept(base: Seq<char>, name: Seq<char>)
    requires
        name.len() > 0,
        !name.contains('/'),
        name != seq!['.'],
    ensures
        runtime_dir("mac:"@ + paths::joined(instance_dir(base, name), "profile.sb"@)) == Some(
            instance_dir(base, name),
        ),
{
    law_runtime_id_reads_back(base, name);
    reveal_strlit("instances");
    let dir = instance_dir(base, name);
    let n = name.len() as int;
    assert(name[n - 1] != '/');
    assert(dir.last() == name[n - 1]);
    if name[n - 1] == '.' {
        if n == 1 {
            assert(name =~= seq!['.']);
        } else {
            assert(name[n - 2] != '/');
            assert(dir[dir.len() - 2] == name[n - 2]);
        }
    }
}

/// Removing a sandbox that was run and not kept deletes nothing.
pub proof fn law_run_sandbox_has_no_files(name: Seq<char>)
    ensures
        runtime_dir("mac-ephemeral:"@ + name) is None,
{
    reveal_strlit("mac:");
    reveal_strlit("mac-ephemeral:");
    let id = "mac-ephemeral:"@ + name;
    assert(id[3] == '-');
    if "mac:"@.is_prefix_of(id) {
        assert("mac:"@[3] == id.subrange(0, 4)[3]);
    }
}

/// `sandbox-exec` is looked for in two places, `/usr/bin` before `/usr/local/bin`.
pub proof fn law_places_of_sandbox_exec(existing: Seq<Seq<char>>)
    ensures
        candidates() == seq!["/usr/bin/sandbox-exec"@, "/usr/local/bin/sandbox-exec"@],
        existing.contains("/usr/bin/sandbox-exec"@) ==> found_sandbox_exec(existing) == Some(
            "/usr/bin/sandbox-exec"@,
        ),
        !existing.contains("/usr/bin/sandbox-exec"@) && existing.contains(
            "/usr/local/bin/sandbox-exec"@,
        ) ==> found_sandbox_exec(existing) == Some("/usr/local/bin/sandbox-exec"@),
        !existing.contains("/usr/bin/sandbox-exec"@) && !existing.contains(
            "/usr/local/bin/sandbox-exec"@,
        ) ==> found_sandbox_exec(existing) is None,
{
}

/// A command runs under the profile word for word; without one it is an interactive shell.
pub proof fn law_command_runs_under_the_profile(
    program: Seq<char>,
    profile: Seq<char>,
    command: Seq<Seq<char>>,
    i: int,
)
    ensures
        ({
            let argv = sandboxed_argv(program, profile, command);
            &&& argv.len() == 3 + (if command.len() == 0 {
                2
            } else {
                command.len()
            })
            &&& argv[0] == program
            &&& argv[1] == "-f"@
            &&& argv[2] == profile
            &&& 0 <= i < command.len() ==> argv[3 + i] == command[i]
            &&& command.len() == 0 ==> argv[3] == "/bin/zsh"@ && argv[4] == "-i"@
        }),
{
}

/// In allowlist mode, where a proxy runs, the five proxy variables are set to it; otherwise none.
pub proof fn law_proxy_variables(mode: NetworkMode, port: Seq<char>)
    ensures
        proxy_env(mode, None) == Seq::<(Seq<char>, Seq<char>)>::empty(),
        mode != NetworkMode::Allowlist ==> proxy_env(mode, Some(port)) == Seq::<
            (Seq<char>, Seq<char>),
        >::empty(),
        mode == NetworkMode::Allowlist ==> proxy_env(mode, Some(port)) == seq![
            ("HTTP_PROXY"@, "http://127.0.0.1:"@ + port),
            ("HTTPS_PROXY"@, "http://127.0.0.1:"@ + port),
            ("http_proxy"@, "http://127.0.0.1:"@ + port),
            ("https_proxy"@, "http://127.0.0.1:"@ + port),
            ("NO_PROXY"@, "localhost,127.0.0.1"@),
        ],
{
}

/// A sandbox that is kept has a directory of its own name under `instances`.
pub proof fn law_kept_sandbox_has_its_directory(base: Seq<char>, name: Seq<char>)
    requires
        base.len() > 0,
        base.last() != '/',
        name.len() > 0,
        name[0] != '/',
    ensures
        instance_dir(base, name) == base + "/instances/"@ + name,
{
    reveal_strlit("instances");
    reveal_strlit("/instances/");
    let d = paths::joined(base, "instances"@);
    assert(d =~= base.push('/') + "instances"@);
    assert(d.last() == 's');
    assert(instance_dir(base, name) =~= base + "/instances/"@ + name);
}

/// A sandbox that is kept writes its profile, its working directory and, where it could be written
/// out, its policy, each to its own file; the first two must succeed.
pub proof fn law_what_a_kept_sandbox_writes(
    files: InstanceFiles,
    req: CreateRequest,
    workdir: Seq<char>,
    written: Result<String, PolicyError>,
)
    ensures
        ({
            let all = kept(files, req, workdir, written);
            &&& all.len() == if written is Ok {
                3nat
            } else {
                2nat
            }
            &&& all[0].path == files.profile@ && all[0].needed
            &&& all[0].text == text::lines_text(seatbelt::profile_rules(req.policy, workdir))
            &&& all[1].path == files.workdir@ && all[1].needed
            &&& all[1].text == req.workdir@
            &&& written matches Ok(yaml) ==> all[2].path == files.policy@ && !all[2].needed
                && all[2].text == yaml@
        }),
{
}

/// A runtime id of this backend is `mac:` and the path of a profile; any other text is none.
pub proof fn law_runtime_id_is_a_profile(profile: Seq<char>, id: Seq<char>)
    ensures
        runtime_profile("mac:"@ + profile) == Some(profile),
        runtime_profile(id) is Some ==> id == "mac:"@ + runtime_profile(id)->0,
        runtime_dir("mac:"@ + profile) == paths::parent_of(profile),
        runtime_profile(id) is None ==> runtime_dir(id) is None,
{
    text::law_after_prefix(id, "mac:"@, profile);
}

/// A file to write has the path, the text and the mark that it was made with.
pub proof fn law_kept_file_is_what_it_holds(f: KeptFile)
    ensures
        f@.path == f.path@,
        f@.text == f.text@,
        f@.needed == f.needed,
{
}

/// Off macOS nothing is created. On macOS a request that is ephemeral or has a command is run, and
/// any other keeps its files below the state directory that is set, or below the one that is given
/// in its place.
pub proof fn law_how_a_sandbox_is_created(
    m: &MacMechanism,
    req: &CreateRequest,
    os: HostOs,
    fallback: &str,
    r: Result<CreatePlan, MechanismError>,
)
    requires
        call_ensures(MacMechanism::create_plan, (m, req, os, fallback), r),
    ensures
        r is Ok <==> os == HostOs::MacOs,
        r is Err ==> r->Err_0@ == mechanism::MechanismErrorView::Unavailable(
            "mac_seatbelt requires macOS"@,
        ),
        r is Ok ==> (r->Ok_0 is Run <==> req.ephemeral || req.command@.len() > 0),
        r matches Ok(CreatePlan::Keep(files)) ==> {
            let base = if m.state_dir is Some {
                m.state_dir->0@
            } else {
                fallback@
            };
            &&& files.dir@ == paths::joined(paths::joined(base, "instances"@), req.name@)
            &&& files.profile@ == paths::joined(files.dir@, "profile.sb"@)
            &&& files.workdir@ == paths::joined(files.dir@, "workdir"@)
            &&& files.policy@ == paths::joined(files.dir@, "policy.yaml"@)
        },
{
}

/// What a kept sandbox goes by leads back to its own files: removing it deletes its own directory,
/// and a command in it reads its own profile.
pub proof fn law_kept_sandbox_is_found_again(
    m: &MacMechanism,
    req: &CreateRequest,
    os: HostOs,
    fallback: &str,
    files: InstanceFiles,
    port: &Option<String>,
    kept_as: CreateResult,
    id: &str,
    runtime: Result<MacRuntime, MechanismError>,
    gone: Option<String>,
)
    requires
        call_ensures(MacMechanism::create_plan, (m, req, os, fallback), Ok(CreatePlan::Keep(files))),
        call_ensures(MacMechanism::kept_result, (m, req, &files, port), kept_as),
        id@ == kept_as.runtime_id@,
        call_ensures(parse_mac_runtime, (id,), runtime),
        call_ensures(MacMechanism::removal_dir, (m, id), gone),
    ensures
        kept_as.name@ == req.name@,
        kept_as.mechanism == MechanismKind::Mac,
        kept_as.runtime_id@ == "mac:"@ + files.profile@,
        kept_as.exit_code is None,
        runtime is Ok,
        runtime->Ok_0.profile@ == files.profile@,
        runtime->Ok_0.dir@ == paths::trimmed(files.dir@),
        gone is Some,
        gone->0@ == paths::trimmed(files.dir@),
{
    let base = match m.state_dir {
        Some(base) => base@,
        None => fallback@,
    };
    law_runtime_id_reads_back(base, req.name@);
}

/// A command that was run goes by `mac-ephemeral:` and its name, with its code; one that was not
/// spawned is told.
pub proof fn law_result_of_a_command(
    m: &MacMechanism,
    req: &CreateRequest,
    port: &Option<String>,
    code: Option<i32>,
    ran: CreateResult,
    status: Result<Option<i32>, String>,
    r: Result<Option<i32>, MechanismError>,
)
    requires
        call_ensures(MacMechanism::run_result, (m, req, port, code), ran),
        call_ensures(spawn_outcome, (status,), r),
    ensures
        ran.name@ == req.name@,
        ran.mechanism == MechanismKind::Mac,
        ran.runtime_id@ == "mac-ephemeral:"@ + req.name@,
        ran.exit_code == code,
        status matches Ok(c) ==> r == Ok::<Option<i32>, MechanismError>(c),
        status matches Err(cause) ==> r is Err && r->Err_0@
            == mechanism::MechanismErrorView::Message("sandbox-exec failed: "@ + cause@),
{
}

/// A process gets the memory of its policy, and the CPU seconds of an hour, but never less than a
/// minute; more CPUs never mean less time.
pub proof fn law_limits_of_a_process(
    a: &SandboxPolicy,
    b: &SandboxPolicy,
    x: Result<Rlimits, MechanismError>,
    y: Result<Rlimits, MechanismError>,
)
    requires
        call_ensures(rlimits, (a,), x),
        call_ensures(rlimits, (b,), y),
        a.fault() is None,
        b.fault() is None,
    ensures
        x is Ok,
        policy::size_value(a.resources.memory@) == Ok::<nat, policy::PolicyErrorView>(
            x->Ok_0.memory as nat,
        ),
        x->Ok_0.cpu_seconds >= 60,
        a.resources.cpus.hour_seconds >= 60 ==> x->Ok_0.cpu_seconds
            == a.resources.cpus.hour_seconds,
        a.resources.cpus.hour_seconds < 60 ==> x->Ok_0.cpu_seconds == 60,
        a.resources.cpus.hour_seconds <= b.resources.cpus.hour_seconds ==> x->Ok_0.cpu_seconds
            <= y->Ok_0.cpu_seconds,
{
}

/// A sandbox whose files are not read runs in the current directory, under the restrictive policy;
/// one whose files are read runs as they say.
pub proof fn law_what_a_sandbox_remembers(
    dir: String,
    stored: SandboxPolicy,
    w: String,
    p: SandboxPolicy,
)
    ensures
        call_ensures(stored_workdir, (Some(dir),), w) ==> w == dir,
        call_ensures(stored_workdir, (None,), w) ==> w@ == "."@,
        call_ensures(stored_policy, (Some(stored),), p) ==> p == stored,
        call_ensures(stored_policy, (None,), p) ==> p.is_restrictive(),
{
}

/// A runtime id without the prefix `mac:` is none of this backend's, and removes nothing.
pub proof fn law_foreign_runtime_id_is_refused(
    m: &MacMechanism,
    id: &str,
    runtime: Result<MacRuntime, MechanismError>,
    gone: Option<String>,
)
    requires
        !"mac:"@.is_prefix_of(id@),
        call_ensures(parse_mac_runtime, (id,), runtime),
        call_ensures(MacMechanism::removal_dir, (m, id), gone),
    ensures
        runtime is Err,
        runtime->Err_0@ == mechanism::MechanismErrorView::Message(
            "not a mac runtime id: "@ + id@,
        ),
        gone is None,
{
}

/// The report says where `sandbox-exec` is, whether this is macOS, and how limits are set.
pub proof fn law_report_of_the_backend(
    m: &MacMechanism,
    existing: &Vec<String>,
    os: HostOs,
    os_name: &str,
    r: Vec<DoctorItem>,
)
    requires
        call_ensures(MacMechanism::doctor, (m, existing, os, os_name), r),
    ensures
        r@.len() == 3,
        r@[0].name@ == "sandbox-exec"@,
        r@[0].ok <==> text::texts(existing@).contains("/usr/bin/sandbox-exec"@) || text::texts(
            existing@,
        ).contains("/usr/local/bin/sandbox-exec"@),
        !r@[0].ok ==> r@[0].detail@ == "not found — macOS host required"@,
        text::texts(existing@).contains("/usr/bin/sandbox-exec"@) ==> r@[0].detail@
            == "/usr/bin/sandbox-exec"@,
        r@[1].name@ == "platform"@,
        r@[1].ok <==> os == HostOs::MacOs,
        r@[1].detail@ == os_name@,
        r@[2].name@ == "rlimits"@,
        r@[2].ok,
{
    let items = mechanism::report(r@);
    assert(items.len() == 3);
    assert(items.len() == r@.len());
    assert(items[0].name == r@[0].name@ && items[0].ok == r@[0].ok && items[0].detail
        == r@[0].detail@);
    assert(items[1].name == r@[1].name@ && items[1].ok == r@[1].ok && items[1].detail
        == r@[1].detail@);
    assert(items[2].name == r@[2].name@ && items[2].ok == r@[2].ok);
}

} // verus!
