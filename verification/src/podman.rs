//! The container backend: the command lines for `podman` or `docker`, and what their output means.

use vstd::prelude::*;

use crate::mechanism::{
    self, port_number, push_item, CreateRequest, CreateResult, DoctorItem, ExecRequest,
    MechanismError,
};
use crate::paths;
use crate::policy::{self, FilesystemPolicy, MechanismKind, NetworkMode};
use crate::text::{
    self, decimal_text, extend_texts, has_prefix, lists_text, push_string, push_text, same_text,
    trim_text,
};

verus! {

/// The container backend (podman or docker CLI).
#[derive(Debug, Clone)]
pub struct PodmanMechanism {
    /// Override binary path; otherwise auto-detect.
    pub binary: Option<String>,
    /// Container image.
    pub image: String,
}

/// What the host is found to be before a container is created.
#[derive(Debug)]
pub struct HostFacts {
    /// The working directory with its links resolved.
    pub workdir: String,
    /// Those of the paths that could be mounted that exist.
    pub existing: Vec<String>,
    /// The text of the proxy port, where a proxy runs.
    pub proxy_port: Option<String>,
}

/// How a container is created.
#[derive(Debug, Clone, PartialEq, Eq)]
pub enum ContainerPlan {
    /// Run the container program with these arguments, attached to the terminal, until the command
    /// ends.
    Run(Vec<String>),
    /// Run the container program with these arguments and take its output; the container stays.
    Keep(Vec<String>),
}

impl ContainerPlan {
    /// The arguments of the container program.
    pub open spec fn args(self) -> Seq<String> {
        match self {
            ContainerPlan::Run(args) => args@,
            ContainerPlan::Keep(args) => args@,
        }
    }
}

/// What became of a container plan.
#[derive(Debug, Clone, PartialEq, Eq)]
pub enum ContainerOutcome {
    /// The command ended, with this exit code where it was not killed.
    Ended(Option<i32>),
    /// The container program ended with this output.
    Told(CommandOutput),
    /// The container program could not be run.
    NotRun(String),
}

/// The name of the container of a sandbox.
pub open spec fn container(name: Seq<char>) -> Seq<char> {
    "ssbx-"@ + name
}

/// The name of the container of a sandbox.
pub fn container_name(name: &str) -> (r: String)
    ensures
        r@ == container(name@),
{
    "ssbx-".to_owned().concat(name)
}

/// The runtime id of a container that stays: what the container program printed, or the name of the
/// container where it printed nothing.
pub open spec fn kept_id(name: Seq<char>, stdout: Seq<char>) -> Seq<char> {
    if text::trim(stdout).len() == 0 {
        container(name)
    } else {
        text::trim(stdout)
    }
}

/// The host path that a path of a policy stands for; what starts with `/workspace` is in the
/// container already.
pub open spec fn mount_host(p: Seq<char>, workdir: Seq<char>) -> Option<Seq<char>> {
    if "/workspace"@.is_prefix_of(p) {
        None
    } else {
        Some(paths::joined(workdir, p))
    }
}

/// The mount of a path of a policy: the host path, below `/mnt` by its name, read-only or not. A
/// path that does not exist or has no name is not mounted.
pub open spec fn mount(
    p: Seq<char>,
    workdir: Seq<char>,
    read_only: bool,
    existing: Seq<Seq<char>>,
) -> Option<Seq<char>> {
    match mount_host(p, workdir) {
        Some(host) if existing.contains(host) => match paths::name_of(host) {
            Some(name) => Some(
                host + ":/mnt/"@ + name + if read_only {
                    ":ro"@
                } else {
                    ":rw"@
                },
            ),
            None => None,
        },
        _ => None,
    }
}

/// The mount of a path of a policy.
pub fn mount_spec(
    policy_path: &str,
    workdir: &str,
    read_only: bool,
    existing: &Vec<String>,
) -> (r: Option<String>)
    ensures
        text::optional_text(r) == mount(
            policy_path@,
            workdir@,
            read_only,
            text::texts(existing@),
        ),
{
    if has_prefix(policy_path, "/workspace") {
        return None;
    }
    let host = paths::join(workdir, policy_path);
    if !lists_text(existing, host.as_str()) {
        return None;
    }
    match paths::file_name(host.as_str()) {
        None => None,
        Some(name) => Some(
            host.concat(":/mnt/").concat(name.as_str()).concat(
                if read_only {
                    ":ro"
                } else {
                    ":rw"
                },
            ),
        ),
    }
}

/// Whether a writable path of a policy is never mounted: the container has it anyway.
pub open spec fn built_in(p: Seq<char>) -> bool {
    p == "/workspace"@ || p == "/tmp"@
}

/// The arguments that mount the paths of a list.
pub open spec fn mount_args(
    list: Seq<String>,
    workdir: Seq<char>,
    read_only: bool,
    existing: Seq<Seq<char>>,
) -> Seq<Seq<char>>
    decreases list.len(),
{
    if list.len() == 0 {
        Seq::empty()
    } else {
        let rest = mount_args(list.drop_last(), workdir, read_only, existing);
        match mount(list.last()@, workdir, read_only, existing) {
            Some(spec) if read_only || !built_in(list.last()@) => rest + seq!["-v"@, spec],
            _ => rest,
        }
    }
}

/// Appends the arguments that mount the paths of `list`.
fn push_mounts(
    args: &mut Vec<String>,
    list: &Vec<String>,
    workdir: &str,
    read_only: bool,
    existing: &Vec<String>,
)
    ensures
        text::texts(final(args)@) == text::texts(old(args)@) + mount_args(
            list@,
            workdir@,
            read_only,
            text::texts(existing@),
        ),
{
    let mut i: usize = 0;
    let ghost known = text::texts(existing@);
    proof {
        assert(text::texts(old(args)@) + mount_args(list@.take(0), workdir@, read_only, known)
            =~= text::texts(old(args)@));
    }
    while i < list.len()
        invariant
            i <= list@.len(),
            known == text::texts(existing@),
            text::texts(args@) == text::texts(old(args)@) + mount_args(
                list@.take(i as int),
                workdir@,
                read_only,
                known,
            ),
        decreases list@.len() - i,
    {
        let p = list[i].as_str();
        let skip = !read_only && (same_text(p, "/workspace") || same_text(p, "/tmp"));
        if !skip {
            if let Some(spec) = mount_spec(p, workdir, read_only, existing) {
                push_text(args, "-v");
                push_string(args, spec);
            }
        }
        proof {
            let next = list@.take(i + 1);
            assert(next.drop_last() =~= list@.take(i as int));
            assert(next.last() == list@[i as int]);
            assert(text::texts(args@) =~= text::texts(old(args)@) + mount_args(
                next,
                workdir@,
                read_only,
                known,
            ));
        }
        i += 1;
    }
    proof {
        assert(list@.take(i as int) =~= list@);
    }
}

/// The host paths that the paths of a list could be mounted from.
pub open spec fn mount_hosts(list: Seq<String>, workdir: Seq<char>) -> Seq<Seq<char>>
    decreases list.len(),
{
    if list.len() == 0 {
        Seq::empty()
    } else {
        let rest = mount_hosts(list.drop_last(), workdir);
        match mount_host(list.last()@, workdir) {
            Some(host) => rest.push(host),
            None => rest,
        }
    }
}

/// Appends the host paths that the paths of `list` could be mounted from.
fn push_hosts(out: &mut Vec<String>, list: &Vec<String>, workdir: &str)
    ensures
        text::texts(final(out)@) == text::texts(old(out)@) + mount_hosts(list@, workdir@),
{
    let mut i: usize = 0;
    proof {
        assert(text::texts(old(out)@) + mount_hosts(list@.take(0), workdir@) =~= text::texts(
            old(out)@,
        ));
    }
    while i < list.len()
        invariant
            i <= list@.len(),
            text::texts(out@) == text::texts(old(out)@) + mount_hosts(
                list@.take(i as int),
                workdir@,
            ),
        decreases list@.len() - i,
    {
        let p = list[i].as_str();
        if !has_prefix(p, "/workspace") {
            push_string(out, paths::join(workdir, p));
        }
        proof {
            let next = list@.take(i + 1);
            assert(next.drop_last() =~= list@.take(i as int));
            assert(next.last() == list@[i as int]);
            assert(text::texts(out@) =~= text::texts(old(out)@) + mount_hosts(next, workdir@));
        }
        i += 1;
    }
    proof {
        assert(list@.take(i as int) =~= list@);
    }
}

/// The host paths of a policy whose existence decides whether they are mounted.
pub fn mount_candidates(filesystem: &FilesystemPolicy, workdir: &str) -> (r: Vec<String>)
    ensures
        text::texts(r@) == mount_hosts(filesystem.read_only@, workdir@) + mount_hosts(
            filesystem.read_write@,
            workdir@,
        ),
{
    let mut out: Vec<String> = Vec::new();
    push_hosts(&mut out, &filesystem.read_only, workdir);
    push_hosts(&mut out, &filesystem.read_write, workdir);
    proof {
        assert(text::texts(out@) =~= mount_hosts(filesystem.read_only@, workdir@) + mount_hosts(
            filesystem.read_write@,
            workdir@,
        ));
    }
    out
}

/// The arguments that set the variables of a list.
pub open spec fn env_args(env: Seq<(String, String)>) -> Seq<Seq<char>>
    decreases env.len(),
{
    if env.len() == 0 {
        Seq::empty()
    } else {
        env_args(env.drop_last()) + seq!["-e"@, env.last().0@ + "="@ + env.last().1@]
    }
}

/// Appends the arguments that set the variables of `env`.
fn push_env(args: &mut Vec<String>, env: &Vec<(String, String)>)
    ensures
        text::texts(final(args)@) == text::texts(old(args)@) + env_args(env@),
{
    let mut i: usize = 0;
    proof {
        assert(text::texts(old(args)@) + env_args(env@.take(0)) =~= text::texts(old(args)@));
    }
    while i < env.len()
        invariant
            i <= env@.len(),
            text::texts(args@) == text::texts(old(args)@) + env_args(env@.take(i as int)),
        decreases env@.len() - i,
    {
        push_text(args, "-e");
        push_string(args, env[i].0.clone().concat("=").concat(env[i].1.as_str()));
        proof {
            let next = env@.take(i + 1);
            assert(next.drop_last() =~= env@.take(i as int));
            assert(next.last() == env@[i as int]);
            assert(text::texts(args@) =~= text::texts(old(args)@) + env_args(next));
        }
        i += 1;
    }
    proof {
        assert(env@.take(i as int) =~= env@);
    }
}

/// The arguments that name a container and its limits.
pub open spec fn head_args(
    name: Seq<char>,
    detach: bool,
    cpus: Seq<char>,
    memory: nat,
) -> Seq<Seq<char>> {
    seq![
        "run"@,
        if detach {
            "-d"@
        } else {
            "--rm"@
        },
        "--name"@,
        container(name),
        "--cpus="@ + cpus,
        "--memory="@ + text::decimal(memory),
    ]
}

/// The network arguments of a mode: no network at all but in unrestricted mode.
pub open spec fn network_args(mode: NetworkMode) -> Seq<Seq<char>> {
    match mode {
        NetworkMode::Unrestricted => Seq::empty(),
        _ => seq!["--network"@, "none"@],
    }
}

/// The arguments that bind the working directory.
pub open spec fn workdir_args(bound: bool, workdir: Seq<char>) -> Seq<Seq<char>> {
    if bound {
        seq!["-v"@, workdir + ":/workspace:rw"@, "-w"@, "/workspace"@]
    } else {
        Seq::empty()
    }
}

/// The arguments that name the host inside a container, for a proxy that runs there.
pub open spec fn gateway_args() -> Seq<Seq<char>> {
    seq!["--add-host"@, "host.docker.internal:host-gateway"@]
}

/// The image, and the command that runs in it: what was asked for, or an endless sleep.
pub open spec fn tail_args(image: Seq<char>, command: Seq<Seq<char>>) -> Seq<Seq<char>> {
    seq![image] + if command.len() == 0 {
        seq!["sleep"@, "infinity"@]
    } else {
        command
    }
}

/// All arguments that create a container, with the network of `mode` and `memory` bytes.
pub open spec fn run_args(
    image: Seq<char>,
    req: CreateRequest,
    name: Seq<char>,
    detach: bool,
    mode: NetworkMode,
    host: HostFacts,
    memory: nat,
) -> Seq<Seq<char>> {
    let fs = req.policy.filesystem;
    let existing = text::texts(host.existing@);
    head_args(name, detach, req.policy.resources.cpus.text@, memory) + network_args(mode)
        + workdir_args(fs.workdir, host.workdir@) + mount_args(
        fs.read_only@,
        req.workdir@,
        true,
        existing,
    ) + mount_args(fs.read_write@, req.workdir@, false, existing) + seq![
        "--tmpfs"@,
        "/tmp:rw,size=64m"@,
    ] + env_args(req.env@) + (if mode == NetworkMode::Allowlist && host.proxy_port is Some {
        gateway_args()
    } else {
        Seq::empty()
    }) + tail_args(image, text::texts(req.command@))
}

/// A list of arguments without each `--network` and the argument after it.
pub open spec fn without_network(args: Seq<Seq<char>>) -> Seq<Seq<char>>
    decreases args.len(),
{
    if args.len() == 0 {
        Seq::empty()
    } else if args[0] == "--network"@ {
        if args.len() == 1 {
            Seq::empty()
        } else {
            without_network(args.skip(2))
        }
    } else {
        seq![args[0]] + without_network(args.skip(1))
    }
}

/// A copy of `args` without each `--network` and the argument after it.
fn drop_network(args: &Vec<String>) -> (r: Vec<String>)
    ensures
        text::texts(r@) == without_network(text::texts(args@)),
{
    let mut out: Vec<String> = Vec::new();
    let mut i: usize = 0;
    let ghost all = text::texts(args@);
    proof {
        assert(all.skip(0) =~= all);
        assert(text::texts(out@) + without_network(all) =~= without_network(all));
    }
    while i < args.len()
        invariant
            i <= args@.len(),
            all == text::texts(args@),
            text::texts(out@) + without_network(all.skip(i as int)) == without_network(all),
        decreases args@.len() - i,
    {
        let ghost rest = all.skip(i as int);
        proof {
            assert(rest[0] == args@[i as int]@);
        }
        if same_text(args[i].as_str(), "--network") {
            if i + 1 < args.len() {
                proof {
                    assert(rest.skip(2) =~= all.skip(i + 2));
                }
                i += 2;
            } else {
                proof {
                    assert(all.skip(i + 1) =~= Seq::<Seq<char>>::empty());
                }
                i += 1;
            }
        } else {
            proof {
                assert(rest.skip(1) =~= all.skip(i + 1));
                assert(text::texts(out@) + (seq![rest[0]] + without_network(rest.skip(1)))
                    =~= text::texts(out@).push(rest[0]) + without_network(rest.skip(1)));
            }
            push_text(&mut out, args[i].as_str());
            i += 1;
        }
    }
    proof {
        assert(all.skip(i as int) =~= Seq::<Seq<char>>::empty());
        assert(text::texts(out@) + Seq::<Seq<char>>::empty() =~= text::texts(out@));
    }
    out
}

/// The place of the first occurrence of a text in a list; the length of the list where there is
/// none.
pub open spec fn first_place(list: Seq<Seq<char>>, x: Seq<char>) -> nat
    decreases list.len(),
{
    if list.len() == 0 || list[0] == x {
        0
    } else {
        1 + first_place(list.skip(1), x)
    }
}

/// The place of the first occurrence of `x` in `list`.
fn place_of(list: &Vec<String>, x: &str) -> (r: usize)
    ensures
        r <= list@.len(),
        r == first_place(text::texts(list@), x@),
{
    let mut i: usize = 0;
    let ghost all = text::texts(list@);
    proof {
        assert(all.skip(0) =~= all);
    }
    while i < list.len()
        invariant
            i <= list@.len(),
            all == text::texts(list@),
            first_place(all, x@) == i + first_place(all.skip(i as int), x@),
        decreases list@.len() - i,
    {
        proof {
            assert(all.skip(i as int)[0] == list@[i as int]@);
            assert(all.skip(i as int).skip(1) =~= all.skip(i + 1));
        }
        if same_text(list[i].as_str(), x) {
            return i;
        }
        i += 1;
    }
    i
}

/// The arguments that point the programs of a container to the proxy on the host.
pub open spec fn proxy_args(port: Seq<char>) -> Seq<Seq<char>> {
    let url = "http://host.docker.internal:"@ + port;
    seq![
        "-e"@,
        "NO_PROXY=localhost,127.0.0.1"@,
        "-e"@,
        "http_proxy="@ + url,
        "-e"@,
        "https_proxy="@ + url,
        "-e"@,
        "HTTP_PROXY="@ + url,
        "-e"@,
        "HTTPS_PROXY="@ + url,
    ]
}

/// The arguments of an unrestricted container, turned to the proxy: no `--network`, the gateway
/// after the first argument, and the proxy variables before the image.
pub open spec fn proxied_args(
    args: Seq<Seq<char>>,
    image: Seq<char>,
    port: Option<Seq<char>>,
) -> Seq<Seq<char>> {
    let clean = without_network(args);
    let named = clean.take(1) + gateway_args() + clean.skip(1);
    match port {
        None => named,
        Some(port) => {
            let n = first_place(named, image) as int;
            named.take(n) + proxy_args(port) + named.skip(n)
        },
    }
}

/// The arguments that create the container of a request: in allowlist mode through the proxy, else
/// with the network of the mode.
pub open spec fn creation_args(
    image: Seq<char>,
    req: CreateRequest,
    host: HostFacts,
    memory: nat,
) -> Seq<Seq<char>> {
    if req.policy.network.mode == NetworkMode::Allowlist {
        proxied_args(
            run_args(
                image,
                req,
                req.name@,
                !req.ephemeral,
                NetworkMode::Unrestricted,
                host,
                memory,
            ),
            image,
            text::optional_text(host.proxy_port),
        )
    } else {
        run_args(
            image,
            req,
            req.name@,
            !req.ephemeral,
            req.policy.network.mode,
            host,
            memory,
        )
    }
}

impl Default for PodmanMechanism {
    fn default() -> (r: Self)
        ensures
            r.binary is None,
            r.image@ == "docker.io/library/alpine:3.20"@,
    {
        PodmanMechanism { binary: None, image: "docker.io/library/alpine:3.20".to_owned() }
    }
}

impl PodmanMechanism {
    pub fn new() -> (r: Self)
        ensures
            r.binary is None,
            r.image@ == "docker.io/library/alpine:3.20"@,
    {
        PodmanMechanism::default()
    }

    /// The arguments that create a container with the network of `mode`.
    pub fn build_run_args(
        &self,
        req: &CreateRequest,
        name: &str,
        detach: bool,
        mode: NetworkMode,
        host: &HostFacts,
    ) -> (r: Result<Vec<String>, MechanismError>)
        ensures
            match policy::size_value(req.policy.resources.memory@) {
                Ok(memory) => r is Ok && text::texts(r->Ok_0@) == run_args(
                    self.image@,
                    *req,
                    name@,
                    detach,
                    mode,
                    *host,
                    memory,
                ),
                Err(e) => r is Err && r->Err_0@ == mechanism::MechanismErrorView::Message(
                    e.message(),
                ),
            },
    {
        let policy = &req.policy;
        let memory: u64 = match policy.resources.memory_bytes() {
            Ok(bytes) => bytes,
            Err(e) => {
                return Err(MechanismError::Message(e.message()));
            },
        };
        let mut args: Vec<String> = Vec::new();
        push_text(&mut args, "run");
        push_text(
            &mut args,
            if detach {
                "-d"
            } else {
                "--rm"
            },
        );
        push_text(&mut args, "--name");
        push_string(&mut args, container_name(name));
        push_string(&mut args, "--cpus=".to_owned().concat(policy.resources.cpus.text.as_str()));
        push_string(&mut args, "--memory=".to_owned().concat(decimal_text(memory).as_str()));
        proof {
            assert(text::texts(args@) =~= head_args(
                name@,
                detach,
                policy.resources.cpus.text@,
                memory as nat,
            ));
        }
        if mode != NetworkMode::Unrestricted {
            push_text(&mut args, "--network");
            push_text(&mut args, "none");
        }
        if policy.filesystem.workdir {
            push_text(&mut args, "-v");
            push_string(&mut args, host.workdir.clone().concat(":/workspace:rw"));
            push_text(&mut args, "-w");
            push_text(&mut args, "/workspace");
        }
        proof {
            assert(text::texts(args@) =~= head_args(
                name@,
                detach,
                policy.resources.cpus.text@,
                memory as nat,
            ) + network_args(mode) + workdir_args(policy.filesystem.workdir, host.workdir@));
        }
        push_mounts(
            &mut args,
            &policy.filesystem.read_only,
            req.workdir.as_str(),
            true,
            &host.existing,
        );
        push_mounts(
            &mut args,
            &policy.filesystem.read_write,
            req.workdir.as_str(),
            false,
            &host.existing,
        );
        let ghost before = text::texts(args@);
        push_text(&mut args, "--tmpfs");
        push_text(&mut args, "/tmp:rw,size=64m");
        proof {
            assert(text::texts(args@) =~= before + seq!["--tmpfs"@, "/tmp:rw,size=64m"@]);
        }
        push_env(&mut args, &req.env);
        let ghost before = text::texts(args@);
        let gateway = mode == NetworkMode::Allowlist && host.proxy_port.is_some();
        if gateway {
            push_text(&mut args, "--add-host");
            push_text(&mut args, "host.docker.internal:host-gateway");
        }
        proof {
            assert(text::texts(args@) =~= before + (if gateway {
                gateway_args()
            } else {
                Seq::empty()
            }));
        }
        let ghost before = text::texts(args@);
        push_text(&mut args, self.image.as_str());
        if req.command.len() == 0 {
            push_text(&mut args, "sleep");
            push_text(&mut args, "infinity");
        } else {
            extend_texts(&mut args, &req.command);
        }
        proof {
            assert(text::texts(args@) =~= before + tail_args(
                self.image@,
                text::texts(req.command@),
            ));
        }
        Ok(args)
    }

    /// Allowlist mode: default network, and the variables that point programs to the proxy on the
    /// host.
    pub fn build_allowlist_args(
        &self,
        req: &CreateRequest,
        name: &str,
        detach: bool,
        host: &HostFacts,
    ) -> (r: Result<Vec<String>, MechanismError>)
        ensures
            match policy::size_value(req.policy.resources.memory@) {
                Ok(memory) => r is Ok && text::texts(r->Ok_0@) == proxied_args(
                    run_args(
                        self.image@,
                        *req,
                        name@,
                        detach,
                        NetworkMode::Unrestricted,
                        *host,
                        memory,
                    ),
                    self.image@,
                    text::optional_text(host.proxy_port),
                ),
                Err(e) => r is Err && r->Err_0@ == mechanism::MechanismErrorView::Message(
                    e.message(),
                ),
            },
    {
        let args = match self.build_run_args(req, name, detach, NetworkMode::Unrestricted, host) {
            Ok(args) => args,
            Err(e) => {
                return Err(e);
            },
        };
        let clean = drop_network(&args);
        let ghost c = text::texts(clean@);
        proof {
            lemma_run_comes_first(text::texts(args@));
        }
        let mut named: Vec<String> = Vec::new();
        push_text(&mut named, clean[0].as_str());
        push_text(&mut named, "--add-host");
        push_text(&mut named, "host.docker.internal:host-gateway");
        proof {
            assert(text::texts(named@) =~= c.take(1) + gateway_args());
        }
        let rest = text::tail_of(&clean, 1);
        extend_texts(&mut named, &rest);
        let ghost n = text::texts(named@);
        let port = match &host.proxy_port {
            Some(port) => port,
            None => {
                return Ok(named);
            },
        };
        let place: usize = place_of(&named, self.image.as_str());
        let url = "http://host.docker.internal:".to_owned().concat(port.as_str());
        let mut out = text::head_of(&named, place);
        push_text(&mut out, "-e");
        push_text(&mut out, "NO_PROXY=localhost,127.0.0.1");
        push_text(&mut out, "-e");
        push_string(&mut out, "http_proxy=".to_owned().concat(url.as_str()));
        push_text(&mut out, "-e");
        push_string(&mut out, "https_proxy=".to_owned().concat(url.as_str()));
        push_text(&mut out, "-e");
        push_string(&mut out, "HTTP_PROXY=".to_owned().concat(url.as_str()));
        push_text(&mut out, "-e");
        push_string(&mut out, "HTTPS_PROXY=".to_owned().concat(url.as_str()));
        proof {
            assert(text::texts(out@) =~= n.take(place as int) + proxy_args(port@));
        }
        let rest = text::tail_of(&named, place);
        extend_texts(&mut out, &rest);
        Ok(out)
    }

    /// The arguments that create the container of a request.
    pub fn create_args(&self, req: &CreateRequest, host: &HostFacts) -> (r: Result<
        Vec<String>,
        MechanismError,
    >)
        ensures
            match policy::size_value(req.policy.resources.memory@) {
                Ok(memory) => r is Ok && text::texts(r->Ok_0@) == creation_args(
                    self.image@,
                    *req,
                    *host,
                    memory,
                ),
                Err(e) => r is Err && r->Err_0@ == mechanism::MechanismErrorView::Message(
                    e.message(),
                ),
            },
    {
        if req.policy.network.mode == NetworkMode::Allowlist {
            self.build_allowlist_args(req, req.name.as_str(), !req.ephemeral, host)
        } else {
            self.build_run_args(
                req,
                req.name.as_str(),
                !req.ephemeral,
                req.policy.network.mode,
                host,
            )
        }
    }

    pub fn kind(&self) -> (r: MechanismKind)
        ensures
            r == MechanismKind::Podman,
    {
        MechanismKind::Podman
    }

    pub fn name(&self) -> (r: &'static str)
        ensures
            r@ == "linux_podman"@,
    {
        "linux_podman"
    }

    /// The container program: the one that is set, else podman, else docker, as the search path of
    /// the host has them.
    pub fn runtime_bin(&self) -> (r: Result<String, MechanismError>)
        ensures
            runs_on_host(r, self.binary),
            exists|podman: Option<Seq<char>>, docker: Option<Seq<char>>| #[trigger]
                is_runtime(r, text::optional_text(self.binary), podman, docker) && found_as(
                    podman,
                    "podman"@,
                ) && found_as(docker, "docker"@),
    {
        proof {
            reveal_strlit("podman");
            reveal_strlit("docker");
        }
        let r = runtime_by(&self.binary, find_program);
        proof {
            if self.binary is None {
                let (p, d) = choose|p: Option<String>, d: Option<String>| #[trigger]
                    looked_up(find_program, r, p, d);
                let q = if p is None {
                    text::optional_text(d)
                } else {
                    None
                };
                assert(is_runtime(r, None, text::optional_text(p), q));
            } else {
                assert(is_runtime(r, text::optional_text(self.binary), None, None));
            }
        }
        r
    }

    /// Health checks, given the container program, what its engine answered and the architecture
    /// of the host.
    pub fn doctor(
        &self,
        runtime: &Result<String, MechanismError>,
        engine: &Result<String, MechanismError>,
        host_arch: &str,
    ) -> (r: Vec<DoctorItem>)
        ensures
            mechanism::report(r@) == runtime_report(*runtime, *engine) + seq![
                mechanism::DoctorItemView {
                    name: "host-arch"@,
                    ok: host_arch@ == "aarch64"@,
                    detail: host_arch@ + " (arm64 Mac preferred for linux arm64 guests)"@,
                },
                mechanism::DoctorItemView {
                    name: "default-image"@,
                    ok: true,
                    detail: self.image@,
                },
            ],
    {
        let mut items: Vec<DoctorItem> = Vec::new();
        match runtime {
            Ok(binary) => {
                push_item(&mut items, "runtime-binary", true, binary.as_str());
                match engine {
                    Ok(arch) => {
                        let detail = "reachable, arch=".to_owned().concat(arch.as_str());
                        push_item(&mut items, "runtime-engine", true, detail.as_str());
                    },
                    Err(e) => {
                        push_item(&mut items, "runtime-engine", false, e.message().as_str());
                    },
                }
            },
            Err(e) => {
                push_item(&mut items, "runtime-binary", false, e.message().as_str());
            },
        }
        proof {
            assert(mechanism::report(items@) =~= runtime_report(*runtime, *engine));
        }
        let detail = host_arch.to_owned().concat(" (arm64 Mac preferred for linux arm64 guests)");
        push_item(&mut items, "host-arch", same_text(host_arch, "aarch64"), detail.as_str());
        push_item(&mut items, "default-image", true, self.image.as_str());
        proof {
            assert(mechanism::report(items@) =~= runtime_report(*runtime, *engine) + seq![
                mechanism::DoctorItemView {
                    name: "host-arch"@,
                    ok: host_arch@ == "aarch64"@,
                    detail: host_arch@ + " (arm64 Mac preferred for linux arm64 guests)"@,
                },
                mechanism::DoctorItemView {
                    name: "default-image"@,
                    ok: true,
                    detail: self.image@,
                },
            ]);
        }
        items
    }

    /// How the container of a request is created: an ephemeral one is run until its command ends,
    /// any other stays.
    pub fn create_plan(&self, req: &CreateRequest, host: &HostFacts) -> (r: Result<
        ContainerPlan,
        MechanismError,
    >)
        ensures
            match policy::size_value(req.policy.resources.memory@) {
                Ok(memory) => {
                    &&& r is Ok
                    &&& r->Ok_0 is Run <==> req.ephemeral
                    &&& text::texts(r->Ok_0.args()) == creation_args(
                        self.image@,
                        *req,
                        *host,
                        memory,
                    )
                },
                Err(e) => r is Err && r->Err_0@ == mechanism::MechanismErrorView::Message(
                    e.message(),
                ),
            },
    {
        match self.create_args(req, host) {
            Ok(args) => if req.ephemeral {
                Ok(ContainerPlan::Run(args))
            } else {
                Ok(ContainerPlan::Keep(args))
            },
            Err(e) => Err(e),
        }
    }

    /// The result of creating the container of a request, once its plan was carried out.
    pub fn created(
        &self,
        req: &CreateRequest,
        outcome: &ContainerOutcome,
        proxy_port: &Option<String>,
    ) -> (r: Result<CreateResult, MechanismError>)
        ensures
            match *outcome {
                ContainerOutcome::Ended(code) => r is Ok && r->Ok_0.describes(
                    req.name@,
                    MechanismKind::Podman,
                    "ephemeral:"@ + req.name@,
                    text::optional_text(*proxy_port),
                    code,
                ),
                ContainerOutcome::Told(output) => if output.success {
                    r is Ok && r->Ok_0.describes(
                        req.name@,
                        MechanismKind::Podman,
                        kept_id(req.name@, output.stdout@),
                        text::optional_text(*proxy_port),
                        None,
                    )
                } else {
                    r is Err && r->Err_0@ == mechanism::MechanismErrorView::Message(
                        "create failed: "@ + output.stderr@,
                    )
                },
                ContainerOutcome::NotRun(cause) => r is Err && r->Err_0@
                    == mechanism::MechanismErrorView::Message(cause@),
            },
    {
        match outcome {
            ContainerOutcome::Ended(code) => Ok(self.run_result(req, proxy_port, *code)),
            ContainerOutcome::Told(output) => self.create_result(req, output, proxy_port),
            ContainerOutcome::NotRun(cause) => Err(MechanismError::Message(cause.clone())),
        }
    }

    /// The result of a container that was run and ended with an exit code.
    pub fn run_result(
        &self,
        req: &CreateRequest,
        proxy_port: &Option<String>,
        exit_code: Option<i32>,
    ) -> (r: CreateResult)
        ensures
            r.describes(
                req.name@,
                MechanismKind::Podman,
                "ephemeral:"@ + req.name@,
                text::optional_text(*proxy_port),
                exit_code,
            ),
    {
        CreateResult {
            name: req.name.clone(),
            mechanism: MechanismKind::Podman,
            runtime_id: "ephemeral:".to_owned().concat(req.name.as_str()),
            proxy_port: port_number(proxy_port),
            log_path: None,
            exit_code,
        }
    }

    /// The result of starting a container that stays: it goes by the id that was printed, or by
    /// its name where none was.
    pub fn create_result(
        &self,
        req: &CreateRequest,
        output: &CommandOutput,
        proxy_port: &Option<String>,
    ) -> (r: Result<CreateResult, MechanismError>)
        ensures
            !output.success ==> r is Err && r->Err_0@ == mechanism::MechanismErrorView::Message(
                "create failed: "@ + output.stderr@,
            ),
            output.success ==> r is Ok && r->Ok_0.describes(
                req.name@,
                MechanismKind::Podman,
                kept_id(req.name@, output.stdout@),
                text::optional_text(*proxy_port),
                None,
            ),
    {
        if !output.success {
            return Err(
                MechanismError::Message(
                    "create failed: ".to_owned().concat(output.stderr.as_str()),
                ),
            );
        }
        let id = trim_text(output.stdout.as_str());
        let runtime_id: String = if id.as_str().is_empty() {
            container_name(req.name.as_str())
        } else {
            id
        };
        Ok(
            CreateResult {
                name: req.name.clone(),
                mechanism: MechanismKind::Podman,
                runtime_id,
                proxy_port: port_number(proxy_port),
                log_path: None,
                exit_code: None,
            },
        )
    }

    /// The arguments that run a command in the container of a sandbox.
    pub fn exec_args(&self, req: &ExecRequest) -> (r: Vec<String>)
        ensures
            text::texts(r@) == execution_args(*req),
    {
        let mut args: Vec<String> = Vec::new();
        push_text(&mut args, "exec");
        if req.tty {
            push_text(&mut args, "-it");
        }
        proof {
            assert(text::texts(args@) =~= seq!["exec"@] + if req.tty {
                seq!["-it"@]
            } else {
                Seq::empty()
            });
        }
        push_env(&mut args, &req.env);
        let ghost before = text::texts(args@);
        if let Some(cwd) = &req.cwd {
            push_text(&mut args, "-w");
            push_text(&mut args, cwd.as_str());
        }
        proof {
            assert(text::texts(args@) =~= before + match req.cwd {
                Some(cwd) => seq!["-w"@, cwd@],
                None => Seq::empty(),
            });
        }
        let ghost before = text::texts(args@);
        let id = req.runtime_id.as_str();
        if has_prefix(id, "ssbx-") || id.as_bytes().len() >= 12 {
            push_text(&mut args, id);
        } else {
            push_string(&mut args, container_name(req.name.as_str()));
        }
        if req.command.len() == 0 {
            push_text(&mut args, "sh");
        } else {
            extend_texts(&mut args, &req.command);
        }
        proof {
            assert(text::texts(args@) =~= before + seq![exec_target(*req)] + if req.command@.len()
                == 0 {
                seq!["sh"@]
            } else {
                text::texts(req.command@)
            });
        }
        args
    }

    /// The arguments that remove a container; nothing is left to remove of one that was run and
    /// ended.
    pub fn remove_args(&self, runtime_id: &str) -> (r: Option<Vec<String>>)
        ensures
            match r {
                None => "ephemeral:"@.is_prefix_of(runtime_id@),
                Some(args) => !"ephemeral:"@.is_prefix_of(runtime_id@) && text::texts(args@)
                    == seq!["rm"@, "-f"@, runtime_id@],
            },
    {
        if has_prefix(runtime_id, "ephemeral:") {
            return None;
        }
        let mut args: Vec<String> = Vec::new();
        push_text(&mut args, "rm");
        push_text(&mut args, "-f");
        push_text(&mut args, runtime_id);
        proof {
            assert(text::texts(args@) =~= seq!["rm"@, "-f"@, runtime_id@]);
        }
        Some(args)
    }

    /// The arguments to try after removing a container failed, if it did: it may go by the name of
    /// its sandbox.
    pub fn remove_again_args(&self, runtime_id: &str, removed: bool) -> (r: Option<Vec<String>>)
        ensures
            match r {
                None => removed,
                Some(args) => !removed && text::texts(args@) == seq![
                    "rm"@,
                    "-f"@,
                    container(runtime_id@),
                ],
            },
    {
        if removed {
            return None;
        }
        let mut args: Vec<String> = Vec::new();
        push_text(&mut args, "rm");
        push_text(&mut args, "-f");
        push_string(&mut args, container_name(runtime_id));
        proof {
            assert(text::texts(args@) =~= seq!["rm"@, "-f"@, container(runtime_id@)]);
        }
        Some(args)
    }

    /// The arguments that print the end of the logs of a container.
    pub fn logs_args(&self, runtime_id: &str, tail: usize) -> (r: Vec<String>)
        ensures
            text::texts(r@) == seq![
                "logs"@,
                "--tail"@,
                text::decimal(tail as nat),
                runtime_id@,
            ],
    {
        let mut args: Vec<String> = Vec::new();
        push_text(&mut args, "logs");
        push_text(&mut args, "--tail");
        push_string(&mut args, decimal_text(tail as u64));
        push_text(&mut args, runtime_id);
        proof {
            assert(text::texts(args@) =~= seq![
                "logs"@,
                "--tail"@,
                text::decimal(tail as nat),
                runtime_id@,
            ]);
        }
        args
    }

    /// The arguments to try where the container program could not be run for the logs, if it could
    /// not: the container may go by the name of its sandbox.
    pub fn logs_again_args(&self, runtime_id: &str, tail: usize, ran: bool) -> (r: Option<
        Vec<String>,
    >)
        ensures
            match r {
                None => ran,
                Some(args) => !ran && text::texts(args@) == seq![
                    "logs"@,
                    "--tail"@,
                    text::decimal(tail as nat),
                    container(runtime_id@),
                ],
            },
    {
        if ran {
            None
        } else {
            Some(self.logs_args(container_name(runtime_id).as_str(), tail))
        }
    }

    /// The arguments that ask whether the image is there.
    pub fn inspect_args(&self) -> (r: Vec<String>)
        ensures
            text::texts(r@) == seq!["image"@, "inspect"@, self.image@],
    {
        let mut args: Vec<String> = Vec::new();
        push_text(&mut args, "image");
        push_text(&mut args, "inspect");
        push_text(&mut args, self.image.as_str());
        proof {
            assert(text::texts(args@) =~= seq!["image"@, "inspect"@, self.image@]);
        }
        args
    }

    /// The arguments that pull the image, where it is not there.
    pub fn pull_args(&self, present: bool) -> (r: Option<Vec<String>>)
        ensures
            match r {
                None => present,
                Some(args) => !present && text::texts(args@) == seq!["pull"@, self.image@],
            },
    {
        if present {
            return None;
        }
        let mut args: Vec<String> = Vec::new();
        push_text(&mut args, "pull");
        push_text(&mut args, self.image.as_str());
        proof {
            assert(text::texts(args@) =~= seq!["pull"@, self.image@]);
        }
        Some(args)
    }

    /// What pulling the image came to.
    pub fn pull_result(&self, success: bool) -> (r: Result<(), MechanismError>)
        ensures
            success ==> r is Ok,
            !success ==> r is Err && r->Err_0@ == mechanism::MechanismErrorView::Message(
                "failed to pull "@ + self.image@,
            ),
    {
        if success {
            Ok(())
        } else {
            Err(
                MechanismError::Message("failed to pull ".to_owned().concat(self.image.as_str())),
            )
        }
    }
}

/// Whether a path that was found, if one was, is that of a program with a name.
pub open spec fn found_as(found: Option<Seq<char>>, name: Seq<char>) -> bool {
    found matches Some(p) ==> paths::name_of(p) == Some(name)
}

/// `which::which`, on a Unix host: the path of a program on the search path, if there is one. For a
/// plain name it is a directory joined with that name. Which directory it is, and whether there is
/// one, depends on the environment and on what is on disk; nothing is promised of that. A path that
/// is not UTF-8 counts as none.
#[verifier::external_body]
fn find_program(name: &str) -> (r: Option<String>)
    requires
        name@.len() > 0,
        !name@.contains('/'),
        !name@.contains('.'),
    ensures
        found_as(text::optional_text(r), name@),
{
    which::which(name).ok().and_then(|p| p.into_os_string().into_string().ok())
}

/// Whether `find` can answer `p` for podman and, where that is none, `d` for docker, and `r` is the
/// container program among them.
pub open spec fn looked_up<F: Fn(&str) -> Option<String>>(
    find: F,
    r: Result<String, MechanismError>,
    p: Option<String>,
    d: Option<String>,
) -> bool {
    &&& call_ensures(find, ("podman",), p)
    &&& p is None ==> call_ensures(find, ("docker",), d)
    &&& is_runtime(
        r,
        None,
        text::optional_text(p),
        if p is None {
            text::optional_text(d)
        } else {
            None
        },
    )
}

/// Whether `r` is the container program that the search path of the host gives, where none is set.
pub closed spec fn runs_on_host(
    r: Result<String, MechanismError>,
    binary: Option<String>,
) -> bool {
    match binary {
        Some(b) => r is Ok && r->Ok_0@ == b@,
        None => exists|p: Option<String>, d: Option<String>| #[trigger]
            looked_up(find_program, r, p, d),
    }
}

/// The container program: the one that is set, else podman, else docker, as `find` finds them.
/// Docker is looked for only where podman is not found.
pub fn runtime_by<F: Fn(&str) -> Option<String>>(binary: &Option<String>, find: F) -> (r: Result<
    String,
    MechanismError,
>)
    requires
        call_requires(find, ("podman",)),
        call_requires(find, ("docker",)),
    ensures
        match *binary {
            Some(b) => r is Ok && r->Ok_0@ == b@,
            None => exists|p: Option<String>, d: Option<String>| #[trigger]
                looked_up(find, r, p, d),
        },
{
    if binary.is_some() {
        return choose_runtime(binary, None, None);
    }
    let podman = find("podman");
    let docker = if podman.is_none() {
        find("docker")
    } else {
        None
    };
    let ghost p = podman;
    let ghost d = docker;
    let r = choose_runtime(binary, podman, docker);
    assert(looked_up(find, r, p, d));
    r
}

/// Whether `r` is the container program among one that is set, podman and docker.
pub open spec fn is_runtime(
    r: Result<String, MechanismError>,
    set: Option<Seq<char>>,
    podman: Option<Seq<char>>,
    docker: Option<Seq<char>>,
) -> bool {
    match (set, podman, docker) {
        (Some(p), _, _) => r is Ok && r->Ok_0@ == p,
        (None, Some(p), _) => r is Ok && r->Ok_0@ == p,
        (None, None, Some(p)) => r is Ok && r->Ok_0@ == p,
        (None, None, None) => r is Err && r->Err_0@ == mechanism::MechanismErrorView::Unavailable(
            "neither podman nor docker found on PATH (install Podman Machine or Colima)"@,
        ),
    }
}

/// Chooses the container program: the one that is set, else podman, else docker.
pub fn choose_runtime(
    binary: &Option<String>,
    podman: Option<String>,
    docker: Option<String>,
) -> (r: Result<String, MechanismError>)
    ensures
        is_runtime(
            r,
            text::optional_text(*binary),
            text::optional_text(podman),
            text::optional_text(docker),
        ),
{
    if let Some(binary) = binary {
        return Ok(binary.clone());
    }
    match (podman, docker) {
        (Some(p), _) => Ok(p),
        (None, Some(p)) => Ok(p),
        (None, None) => Err(
            MechanismError::Unavailable(
                "neither podman nor docker found on PATH (install Podman Machine or Colima)".to_owned(),
            ),
        ),
    }
}

/// What a command of the container program printed, as text, and whether it succeeded.
#[derive(Debug, Clone, PartialEq, Eq)]
pub struct CommandOutput {
    pub success: bool,
    pub stdout: String,
    pub stderr: String,
}

/// The error of a container program that could not be run.
pub fn run_failure(binary: &str, cause: &str) -> (r: MechanismError)
    ensures
        r@ == mechanism::MechanismErrorView::Message(
            "failed to run "@ + binary@ + ": "@ + cause@,
        ),
{
    MechanismError::Message(
        "failed to run ".to_owned().concat(binary).concat(": ").concat(cause),
    )
}

/// The arguments that ask the engine for a sign of life.
pub fn ping_args() -> (r: Vec<String>)
    ensures
        text::texts(r@) == seq!["ps"@, "-q"@],
{
    let mut args: Vec<String> = Vec::new();
    push_text(&mut args, "ps");
    push_text(&mut args, "-q");
    proof {
        assert(text::texts(args@) =~= seq!["ps"@, "-q"@]);
    }
    args
}

/// The arguments that ask the engine for its architecture.
pub fn arch_args() -> (r: Vec<String>)
    ensures
        text::texts(r@) == seq!["version"@, "--format"@, "{{.Server.Arch}}"@],
{
    let mut args: Vec<String> = Vec::new();
    push_text(&mut args, "version");
    push_text(&mut args, "--format");
    push_text(&mut args, "{{.Server.Arch}}");
    proof {
        assert(text::texts(args@) =~= seq!["version"@, "--format"@, "{{.Server.Arch}}"@]);
    }
    args
}

/// Whether the engine answered a ping.
pub fn ping_result(binary: &str, ping: Result<CommandOutput, String>) -> (r: Result<
    (),
    MechanismError,
>)
    ensures
        match ping {
            Err(cause) => r is Err && r->Err_0@ == mechanism::MechanismErrorView::Message(cause@),
            Ok(output) => if output.success {
                r is Ok
            } else {
                r is Err && r->Err_0@ == mechanism::MechanismErrorView::Unavailable(
                    binary@ + " not usable (is the machine/VM running?): "@ + output.stderr@,
                )
            },
        },
{
    match ping {
        Err(cause) => Err(MechanismError::Message(cause)),
        Ok(output) => if output.success {
            Ok(())
        } else {
            Err(
                MechanismError::Unavailable(
                    binary.to_owned().concat(" not usable (is the machine/VM running?): ").concat(
                        output.stderr.as_str(),
                    ),
                ),
            )
        },
    }
}

/// The architecture of the engine: what it says of itself, or that of the host where it says
/// nothing.
pub open spec fn engine_arch(output: Option<CommandOutput>, host_arch: Seq<char>) -> Seq<char> {
    match output {
        Some(o) if o.success && text::trim(o.stdout@).len() > 0 => text::trim(o.stdout@),
        _ => host_arch,
    }
}

/// The architecture of the engine.
pub fn arch_result(output: &Option<CommandOutput>, host_arch: &str) -> (r: String)
    ensures
        r@ == engine_arch(*output, host_arch@),
{
    if let Some(o) = output {
        if o.success {
            let arch = trim_text(o.stdout.as_str());
            if !arch.as_str().is_empty() {
                return arch;
            }
        }
    }
    host_arch.to_owned()
}

/// What is reported of the container program and its engine.
pub open spec fn runtime_report(
    runtime: Result<String, MechanismError>,
    engine: Result<String, MechanismError>,
) -> Seq<mechanism::DoctorItemView> {
    match runtime {
        Err(e) => seq![
            mechanism::DoctorItemView {
                name: "runtime-binary"@,
                ok: false,
                detail: e@.message(),
            },
        ],
        Ok(binary) => seq![
            mechanism::DoctorItemView { name: "runtime-binary"@, ok: true, detail: binary@ },
            match engine {
                Ok(arch) => mechanism::DoctorItemView {
                    name: "runtime-engine"@,
                    ok: true,
                    detail: "reachable, arch="@ + arch@,
                },
                Err(e) => mechanism::DoctorItemView {
                    name: "runtime-engine"@,
                    ok: false,
                    detail: e@.message(),
                },
            },
        ],
    }
}

/// The container that an exec request is for: its runtime id, where that is a container name or
/// long enough for a container id, else the container of its sandbox.
pub open spec fn exec_target(req: ExecRequest) -> Seq<char> {
    if "ssbx-"@.is_prefix_of(req.runtime_id@) || vstd::utf8::encode_utf8(req.runtime_id@).len()
        >= 12 {
        req.runtime_id@
    } else {
        container(req.name@)
    }
}

/// All arguments of an exec request.
pub open spec fn execution_args(req: ExecRequest) -> Seq<Seq<char>> {
    seq!["exec"@] + (if req.tty {
        seq!["-it"@]
    } else {
        Seq::empty()
    }) + env_args(req.env@) + (match req.cwd {
        Some(cwd) => seq!["-w"@, cwd@],
        None => Seq::empty(),
    }) + seq![exec_target(req)] + if req.command@.len() == 0 {
        seq!["sh"@]
    } else {
        text::texts(req.command@)
    }
}

/// The log text of a container: what was printed, then the errors.
pub fn logs_text(output: &CommandOutput) -> (r: String)
    ensures
        r@ == output.stdout@ + output.stderr@,
{
    output.stdout.clone().concat(output.stderr.as_str())
}

/// A sandbox without network runs in a container without network: right after the limits.
pub proof fn law_no_network_container(
    image: Seq<char>,
    req: CreateRequest,
    host: HostFacts,
    memory: nat,
)
    requires
        req.policy.network.mode == NetworkMode::NoNetwork,
    ensures
        creation_args(image, req, host, memory).len() > 7,
        creation_args(image, req, host, memory)[6] == "--network"@,
        creation_args(image, req, host, memory)[7] == "none"@,
{
}

/// No `--network` is left.
proof fn lemma_without_network(args: Seq<Seq<char>>)
    ensures
        !without_network(args).contains("--network"@),
    decreases args.len(),
{
    if args.len() > 0 {
        if args[0] == "--network"@ {
            if args.len() > 1 {
                lemma_without_network(args.skip(2));
            }
        } else {
            lemma_without_network(args.skip(1));
            let rest = without_network(args.skip(1));
            let all = without_network(args);
            assert forall|i: int| 0 <= i < all.len() implies all[i] != "--network"@ by {
                if i > 0 {
                    assert(all[i] == rest[i - 1]);
                }
            }
        }
    }
}

/// A sandbox in allowlist mode runs on the default network of the engine, with the gateway to the
/// host and, where a proxy runs, the variables that point to it before the image.
pub proof fn law_allowlist_container(
    image: Seq<char>,
    req: CreateRequest,
    host: HostFacts,
    memory: nat,
)
    requires
        req.policy.network.mode == NetworkMode::Allowlist,
    ensures
        !creation_args(image, req, host, memory).contains("--network"@),
        creation_args(image, req, host, memory).len() >= 3,
        image != "run"@ && image != "--add-host"@ && image != "host.docker.internal:host-gateway"@
            ==> creation_args(image, req, host, memory).take(3) == seq![
            "run"@,
            "--add-host"@,
            "host.docker.internal:host-gateway"@,
        ],
        host.proxy_port matches Some(port) ==> exists|n: int|
            0 <= n && n + proxy_args(port@).len() <= creation_args(
                image,
                req,
                host,
                memory,
            ).len() && #[trigger] creation_args(image, req, host, memory).subrange(
                n,
                (n + proxy_args(port@).len()) as int,
            ) == proxy_args(port@),
{
    let run = run_args(
        image,
        req,
        req.name@,
        !req.ephemeral,
        NetworkMode::Unrestricted,
        host,
        memory,
    );
    let args = creation_args(image, req, host, memory);
    assert(run[0] == "run"@);
    lemma_run_comes_first(run);
    lemma_without_network(run);
    let clean = without_network(run);
    let named = clean.take(1) + gateway_args() + clean.skip(1);
    reveal_strlit("--network");
    reveal_strlit("run");
    reveal_strlit("--add-host");
    reveal_strlit("host.docker.internal:host-gateway");
    reveal_strlit("-e");
    reveal_strlit("NO_PROXY=localhost,127.0.0.1");
    reveal_strlit("http_proxy=");
    reveal_strlit("https_proxy=");
    reveal_strlit("HTTP_PROXY=");
    reveal_strlit("HTTPS_PROXY=");
    assert forall|i: int| 0 <= i < named.len() implies named[i] != "--network"@ by {
        if i == 0 {
            assert(named[i] == clean[0]);
        } else if i == 1 {
            assert(named[i] == "--add-host"@);
            assert(named[i][2] != "--network"@[2]);
        } else if i == 2 {
            assert(named[i][0] != "--network"@[0]);
        } else {
            assert(named[i] == clean[i - 2]);
        }
    }
    match host.proxy_port {
        None => {
            assert(args == named);
            assert(args.take(3) =~= seq![
                "run"@,
                "--add-host"@,
                "host.docker.internal:host-gateway"@,
            ]);
        },
        Some(port) => {
            let n = first_place(named, image) as int;
            lemma_first_place_bound(named, image);
            let p = proxy_args(port@);
            assert(args == named.take(n) + p + named.skip(n));
            assert(args.subrange(n, (n + p.len()) as int) =~= p);
            assert forall|i: int| 0 <= i < args.len() implies args[i] != "--network"@ by {
                if i < n {
                    assert(args[i] == named[i]);
                } else if i < n + p.len() {
                    assert(args[i] == p[i - n]);
                    if (i - n) % 2 == 0 {
                        assert(p[i - n] == "-e"@);
                        assert(p[i - n].len() == 2);
                    } else {
                        assert(p[i - n][0] != '-');
                    }
                } else {
                    assert(args[i] == named[i - p.len()]);
                }
            }
            if image != "run"@ && image != "--add-host"@ && image
                != "host.docker.internal:host-gateway"@ {
                assert(named[0] == "run"@);
                assert(named.skip(1)[0] == "--add-host"@);
                assert(named.skip(1).skip(1)[0] == "host.docker.internal:host-gateway"@);
                reveal_with_fuel(first_place, 4);
                assert(n >= 3);
                assert(args.take(3) =~= seq![
                    "run"@,
                    "--add-host"@,
                    "host.docker.internal:host-gateway"@,
                ]);
            }
        },
    }
}

/// The place of a text is in the list or at its end.
proof fn lemma_first_place_bound(list: Seq<Seq<char>>, x: Seq<char>)
    ensures
        first_place(list, x) <= list.len(),
    decreases list.len(),
{
    if list.len() > 0 && list[0] != x {
        lemma_first_place_bound(list.skip(1), x);
    }
}

/// A path that a policy lists as readable is mounted read-only or not at all.
pub proof fn law_readable_mounts_are_read_only(
    list: Seq<String>,
    workdir: Seq<char>,
    existing: Seq<Seq<char>>,
    i: int,
)
    requires
        0 <= i < mount_args(list, workdir, true, existing).len(),
    ensures
        mount_args(list, workdir, true, existing).len() % 2 == 0,
        i % 2 == 0 ==> mount_args(list, workdir, true, existing)[i] == "-v"@,
        i % 2 == 1 ==> ":ro"@.is_suffix_of(mount_args(list, workdir, true, existing)[i]),
    decreases list.len(),
{
    if list.len() > 0 {
        let rest = mount_args(list.drop_last(), workdir, true, existing);
        let all = mount_args(list, workdir, true, existing);
        if rest.len() > 0 {
            law_readable_mounts_are_read_only(list.drop_last(), workdir, existing, 0);
        }
        if i < rest.len() {
            law_readable_mounts_are_read_only(list.drop_last(), workdir, existing, i);
            assert(all[i] == rest[i]);
        } else {
            let host = mount_host(list.last()@, workdir)->0;
            let spec = mount(list.last()@, workdir, true, existing)->0;
            let name = paths::name_of(host)->0;
            assert(spec == host + ":/mnt/"@ + name + ":ro"@);
            assert(spec.subrange(spec.len() - ":ro"@.len(), spec.len() as int) =~= ":ro"@);
        }
    }
}

/// Nothing is removed for a container that was run and ended.
pub proof fn law_run_container_needs_no_removal(name: Seq<char>)
    ensures
        "ephemeral:"@.is_prefix_of("ephemeral:"@ + name),
{
    assert(("ephemeral:"@ + name).subrange(0, "ephemeral:"@.len() as int) =~= "ephemeral:"@);
}

/// Arguments that start with `run` still do without `--network`.
proof fn lemma_run_comes_first(args: Seq<Seq<char>>)
    requires
        args.len() > 0,
        args[0] == "run"@,
    ensures
        without_network(args).len() > 0,
        without_network(args)[0] == "run"@,
{
    reveal_strlit("run");
    reveal_strlit("--network");
}

/// The container of a sandbox has the name of the sandbox behind `ssbx-`.
pub proof fn law_container_has_the_name_of_its_sandbox(name: Seq<char>)
    ensures
        container(name) == "ssbx-"@ + name,
{
}

/// A container that stays goes by what the container program printed, without the white space
/// around it, or by its name where nothing was printed.
pub proof fn law_id_of_a_kept_container(
    name: Seq<char>,
    pre: Seq<char>,
    id: Seq<char>,
    post: Seq<char>,
)
    requires
        text::all_white(pre),
        text::all_white(post),
        id.len() > 0 ==> !text::is_white(id[0]) && !text::is_white(id.last()),
    ensures
        id.len() > 0 ==> kept_id(name, pre + id + post) == id,
        id.len() == 0 ==> kept_id(name, pre + id + post) == "ssbx-"@ + name,
{
    text::law_trim_takes_white_space_alone(pre, id, post);
}

/// A path of a policy is mounted exactly where it does not start with `/workspace` and its host path
/// exists and ends in a name: from the host path to that name below `/mnt`, read-only or not.
pub proof fn law_mount_of_a_path(
    p: Seq<char>,
    workdir: Seq<char>,
    read_only: bool,
    existing: Seq<Seq<char>>,
)
    ensures
        ({
            let host = paths::joined(workdir, p);
            let here = !"/workspace"@.is_prefix_of(p) && existing.contains(host) && paths::name_of(
                host,
            ) is Some;
            let to = host + ":/mnt/"@ + paths::name_of(host)->0;
            &&& here && read_only ==> mount(p, workdir, read_only, existing) == Some(to + ":ro"@)
            &&& here && !read_only ==> mount(p, workdir, read_only, existing) == Some(to + ":rw"@)
            &&& !here ==> mount(p, workdir, read_only, existing) is None
        }),
{
}

/// Every path of a list is looked at, in order: a path that can be mounted gets one `-v` and its
/// mount. Of the writable paths, `/workspace` and `/tmp` are passed over, and no other is.
pub proof fn law_every_path_is_looked_at(
    list: Seq<String>,
    p: String,
    workdir: Seq<char>,
    read_only: bool,
    existing: Seq<Seq<char>>,
)
    ensures
        mount_args(Seq::<String>::empty(), workdir, read_only, existing) == Seq::<
            Seq<char>,
        >::empty(),
        ({
            let before = mount_args(list, workdir, read_only, existing);
            let after = mount_args(list.push(p), workdir, read_only, existing);
            let passed = !read_only && (p@ == "/workspace"@ || p@ == "/tmp"@);
            match mount(p@, workdir, read_only, existing) {
                Some(spec) if !passed => after == before.push("-v"@).push(spec),
                _ => after == before,
            }
        }),
{
    let all = list.push(p);
    assert(all.drop_last() =~= list);
    assert(all.last() == p);
    let before = mount_args(list, workdir, read_only, existing);
    if let Some(spec) = mount(p@, workdir, read_only, existing) {
        assert(before + seq!["-v"@, spec] =~= before.push("-v"@).push(spec));
    }
}

/// The mount of a path at any place of a list is among the arguments, behind its `-v`.
proof fn lemma_mounted_at(
    list: Seq<String>,
    i: int,
    workdir: Seq<char>,
    read_only: bool,
    existing: Seq<Seq<char>>,
) -> (n: int)
    requires
        0 <= i < list.len(),
        mount(list[i]@, workdir, read_only, existing) is Some,
        read_only || (list[i]@ != "/workspace"@ && list[i]@ != "/tmp"@),
    ensures
        0 <= n,
        n + 1 < mount_args(list, workdir, read_only, existing).len(),
        mount_args(list, workdir, read_only, existing)[n] == "-v"@,
        mount_args(list, workdir, read_only, existing)[n + 1] == mount(
            list[i]@,
            workdir,
            read_only,
            existing,
        )->0,
    decreases list.len(),
{
    let fewer = list.drop_last();
    let rest = mount_args(fewer, workdir, read_only, existing);
    law_every_path_is_looked_at(fewer, list.last(), workdir, read_only, existing);
    assert(fewer.push(list.last()) =~= list);
    if i == list.len() - 1 {
        rest.len() as int
    } else {
        assert(fewer[i] == list[i]);
        lemma_mounted_at(fewer, i, workdir, read_only, existing)
    }
}

/// Each variable is set with one `-e`, in order.
pub proof fn law_every_variable_is_set(env: Seq<(String, String)>, v: (String, String))
    ensures
        env_args(Seq::<(String, String)>::empty()) == Seq::<Seq<char>>::empty(),
        env_args(env.push(v)) == env_args(env).push("-e"@).push(v.0@ + "="@ + v.1@),
{
    assert(env.push(v).drop_last() =~= env);
    assert(env_args(env) + seq!["-e"@, v.0@ + "="@ + v.1@] =~= env_args(env).push("-e"@).push(
        v.0@ + "="@ + v.1@,
    ));
}

/// Every host path that could be mounted is asked for: that of each path that does not start with
/// `/workspace`, in order.
pub proof fn law_every_host_path_is_asked_for(list: Seq<String>, p: String, workdir: Seq<char>)
    ensures
        mount_hosts(Seq::<String>::empty(), workdir) == Seq::<Seq<char>>::empty(),
        "/workspace"@.is_prefix_of(p@) ==> mount_hosts(list.push(p), workdir) == mount_hosts(
            list,
            workdir,
        ),
        !"/workspace"@.is_prefix_of(p@) ==> mount_hosts(list.push(p), workdir) == mount_hosts(
            list,
            workdir,
        ).push(paths::joined(workdir, p@)),
{
    assert(list.push(p).drop_last() =~= list);
}

/// The arguments that create a container, piece by piece: the limits of the policy, the network of
/// the mode, the working directory where it is bound, the readable and then the writable paths,
/// a `/tmp` of its own, the variables, the image and the command.
pub proof fn law_container_piece_by_piece(
    image: Seq<char>,
    req: CreateRequest,
    name: Seq<char>,
    detach: bool,
    mode: NetworkMode,
    host: HostFacts,
    memory: nat,
)
    ensures
        ({
            let fs = req.policy.filesystem;
            let existing = host.existing@.map_values(|s: String| s@);
            let stays = if detach {
                "-d"@
            } else {
                "--rm"@
            };
            let network = if mode == NetworkMode::Unrestricted {
                Seq::empty()
            } else {
                seq!["--network"@, "none"@]
            };
            let workdir = if fs.workdir {
                seq!["-v"@, host.workdir@ + ":/workspace:rw"@, "-w"@, "/workspace"@]
            } else {
                Seq::empty()
            };
            let gateway = if mode == NetworkMode::Allowlist && host.proxy_port is Some {
                seq!["--add-host"@, "host.docker.internal:host-gateway"@]
            } else {
                Seq::empty()
            };
            let command = if req.command@.len() == 0 {
                seq!["sleep"@, "infinity"@]
            } else {
                req.command@.map_values(|s: String| s@)
            };
            run_args(image, req, name, detach, mode, host, memory) == seq![
                "run"@,
                stays,
                "--name"@,
                "ssbx-"@ + name,
                "--cpus="@ + req.policy.resources.cpus.text@,
                "--memory="@ + text::decimal(memory),
            ] + network + workdir + mount_args(fs.read_only@, req.workdir@, true, existing)
                + mount_args(fs.read_write@, req.workdir@, false, existing) + seq![
                "--tmpfs"@,
                "/tmp:rw,size=64m"@,
            ] + env_args(req.env@) + gateway + seq![image] + command
        }),
{
    let existing = host.existing@.map_values(|s: String| s@);
    assert(existing =~= text::texts(host.existing@));
    let command = text::texts(req.command@);
    assert(command =~= req.command@.map_values(|s: String| s@));
    let run = run_args(image, req, name, detach, mode, host, memory);
    let tail = if command.len() == 0 {
        seq!["sleep"@, "infinity"@]
    } else {
        command
    };
    let before = head_args(name, detach, req.policy.resources.cpus.text@, memory) + network_args(
        mode,
    ) + workdir_args(req.policy.filesystem.workdir, host.workdir@) + mount_args(
        req.policy.filesystem.read_only@,
        req.workdir@,
        true,
        existing,
    ) + mount_args(req.policy.filesystem.read_write@, req.workdir@, false, existing) + seq![
        "--tmpfs"@,
        "/tmp:rw,size=64m"@,
    ] + env_args(req.env@) + (if mode == NetworkMode::Allowlist && host.proxy_port is Some {
        gateway_args()
    } else {
        Seq::empty()
    });
    assert(before + (seq![image] + tail) =~= before + seq![image] + tail);
}

/// A request is created under its own name, stays exactly where it is not ephemeral, and has the
/// network of its mode; in allowlist mode it is turned to the proxy.
pub proof fn law_request_becomes_a_container(
    image: Seq<char>,
    req: CreateRequest,
    host: HostFacts,
    memory: nat,
)
    ensures
        req.policy.network.mode != NetworkMode::Allowlist ==> creation_args(
            image,
            req,
            host,
            memory,
        ) == run_args(
            image,
            req,
            req.name@,
            !req.ephemeral,
            req.policy.network.mode,
            host,
            memory,
        ),
        req.policy.network.mode == NetworkMode::Allowlist ==> creation_args(
            image,
            req,
            host,
            memory,
        ) == proxied_args(
            run_args(
                image,
                req,
                req.name@,
                !req.ephemeral,
                NetworkMode::Unrestricted,
                host,
                memory,
            ),
            image,
            text::optional_text(host.proxy_port),
        ),
{
}

/// Only `--network` and the argument behind it are dropped.
pub proof fn law_only_the_network_is_dropped(a: Seq<char>, b: Seq<char>, rest: Seq<Seq<char>>)
    ensures
        without_network(Seq::<Seq<char>>::empty()) == Seq::<Seq<char>>::empty(),
        without_network(seq!["--network"@]) == Seq::<Seq<char>>::empty(),
        without_network(seq!["--network"@, b] + rest) == without_network(rest),
        a != "--network"@ ==> without_network(seq![a] + rest) == seq![a] + without_network(rest),
{
    assert((seq!["--network"@, b] + rest).skip(2) =~= rest);
    assert((seq![a] + rest).skip(1) =~= rest);
}

/// The place of a text in a list is its first.
pub proof fn law_first_place(list: Seq<Seq<char>>, x: Seq<char>)
    ensures
        first_place(list, x) <= list.len(),
        first_place(list, x) < list.len() ==> list[first_place(list, x) as int] == x,
        forall|i: int| 0 <= i < first_place(list, x) ==> #[trigger] list[i] != x,
    decreases list.len(),
{
    if list.len() > 0 && list[0] != x {
        law_first_place(list.skip(1), x);
        assert forall|i: int| 0 <= i < first_place(list, x) implies #[trigger] list[i] != x by {
            if i > 0 {
                assert(list[i] == list.skip(1)[i - 1]);
            }
        }
    }
}

/// A container behind the proxy gets the gateway after its first argument and, where the proxy
/// runs, the five proxy variables right before the first place of its image; every other argument
/// stays where it was.
pub proof fn law_proxy_is_put_before_the_image(
    args: Seq<Seq<char>>,
    image: Seq<char>,
    port: Seq<char>,
)
    requires
        without_network(args).len() > 0,
    ensures
        ({
            let clean = without_network(args);
            let named = seq![
                clean[0],
                "--add-host"@,
                "host.docker.internal:host-gateway"@,
            ] + clean.skip(1);
            let url = "http://host.docker.internal:"@ + port;
            let n = first_place(named, image) as int;
            &&& proxied_args(args, image, None) == named
            &&& proxied_args(args, image, Some(port)) == named.take(n) + seq![
                "-e"@,
                "NO_PROXY=localhost,127.0.0.1"@,
                "-e"@,
                "http_proxy="@ + url,
                "-e"@,
                "https_proxy="@ + url,
                "-e"@,
                "HTTP_PROXY="@ + url,
                "-e"@,
                "HTTPS_PROXY="@ + url,
            ] + named.skip(n)
        }),
{
    let clean = without_network(args);
    assert(clean.take(1) + gateway_args() + clean.skip(1) =~= seq![
        clean[0],
        "--add-host"@,
        "host.docker.internal:host-gateway"@,
    ] + clean.skip(1));
}

/// Whether two arguments follow each other somewhere in a list.
pub open spec fn follows(args: Seq<Seq<char>>, a: Seq<char>, b: Seq<char>) -> bool {
    exists|n: int| 0 <= n && n + 1 < args.len() && #[trigger] args[n] == a && args[n + 1] == b
}

/// Two arguments that follow each other still do where arguments are put before or behind them.
proof fn lemma_follows_between(
    pre: Seq<Seq<char>>,
    args: Seq<Seq<char>>,
    post: Seq<Seq<char>>,
    a: Seq<char>,
    b: Seq<char>,
)
    requires
        follows(args, a, b),
    ensures
        follows(pre + args + post, a, b),
{
    let n = choose|n: int|
        0 <= n && n + 1 < args.len() && #[trigger] args[n] == a && args[n + 1] == b;
    let all = pre + args + post;
    assert(all[pre.len() + n] == a);
    assert(all[pre.len() + n + 1] == b);
}

/// Without `--network` among them, two arguments that follow each other still do once it is dropped
/// elsewhere.
proof fn lemma_without_network_prefix(pre: Seq<Seq<char>>, rest: Seq<Seq<char>>)
    requires
        forall|i: int| 0 <= i < pre.len() ==> #[trigger] pre[i] != "--network"@,
    ensures
        without_network(pre + rest) == pre + without_network(rest),
    decreases pre.len(),
{
    if pre.len() == 0 {
        assert(pre + rest =~= rest);
        assert(pre + without_network(rest) =~= without_network(rest));
    } else {
        let tail = pre.skip(1);
        assert forall|i: int| 0 <= i < tail.len() implies #[trigger] tail[i] != "--network"@ by {
            assert(tail[i] == pre[i + 1]);
        }
        lemma_without_network_prefix(tail, rest);
        assert(pre + rest =~= seq![pre[0]] + (tail + rest));
        law_only_the_network_is_dropped(pre[0], pre[0], tail + rest);
        assert(seq![pre[0]] + (tail + without_network(rest)) =~= pre + without_network(rest));
    }
}

/// A mount holds a colon, so it is no option.
proof fn lemma_mounts_are_no_network(
    list: Seq<String>,
    workdir: Seq<char>,
    read_only: bool,
    existing: Seq<Seq<char>>,
)
    ensures
        forall|i: int|
            0 <= i < mount_args(list, workdir, read_only, existing).len() ==> #[trigger] mount_args(
                list,
                workdir,
                read_only,
                existing,
            )[i] != "--network"@,
    decreases list.len(),
{
    reveal_strlit("--network");
    reveal_strlit("-v");
    reveal_strlit(":/mnt/");
    reveal_strlit(":ro");
    reveal_strlit(":rw");
    if list.len() > 0 {
        let fewer = list.drop_last();
        let p = list.last();
        lemma_mounts_are_no_network(fewer, workdir, read_only, existing);
        law_every_path_is_looked_at(fewer, p, workdir, read_only, existing);
        assert(fewer.push(p) =~= list);
        let rest = mount_args(fewer, workdir, read_only, existing);
        let all = mount_args(list, workdir, read_only, existing);
        assert("-v"@.len() == 2);
        if let Some(spec) = mount(p@, workdir, read_only, existing) {
            let at = paths::joined(workdir, p@).len() as int;
            assert(spec[at] == ':');
            assert forall|i: int| 0 <= i < "--network"@.len() implies "--network"@[i] != ':' by {}
            assert(spec != "--network"@);
        }
        assert forall|i: int| 0 <= i < all.len() implies #[trigger] all[i] != "--network"@ by {
            if i < rest.len() {
                assert(all[i] == rest[i]);
            }
        }
    }
}

/// The arguments before the mounts of a container on the default network are no `--network`.
proof fn lemma_head_is_no_network(
    name: Seq<char>,
    detach: bool,
    cpus: Seq<char>,
    memory: nat,
    bound: bool,
    workdir: Seq<char>,
)
    ensures
        ({
            let head = head_args(name, detach, cpus, memory) + workdir_args(bound, workdir);
            forall|i: int| 0 <= i < head.len() ==> #[trigger] head[i] != "--network"@
        }),
{
    reveal_strlit("--network");
    reveal_strlit("run");
    reveal_strlit("-d");
    reveal_strlit("--rm");
    reveal_strlit("--name");
    reveal_strlit("ssbx-");
    reveal_strlit("--cpus=");
    reveal_strlit("--memory=");
    reveal_strlit("-v");
    reveal_strlit(":/workspace:rw");
    reveal_strlit("-w");
    reveal_strlit("/workspace");
    let head = head_args(name, detach, cpus, memory) + workdir_args(bound, workdir);
    assert("run"@.len() == 3 && "-d"@.len() == 2 && "--rm"@.len() == 4 && "--name"@.len() == 6);
    assert(container(name)[0] == 's');
    assert(("--cpus="@ + cpus)[2] == 'c');
    assert(("--memory="@ + text::decimal(memory))[2] == 'm');
    assert("-v"@.len() == 2 && "-w"@.len() == 2);
    assert("/workspace"@[0] == '/');
    assert((workdir + ":/workspace:rw"@)[workdir.len() as int] == ':');
    assert forall|i: int| 0 <= i < "--network"@.len() implies "--network"@[i] != ':' by {}
    assert(workdir + ":/workspace:rw"@ != "--network"@);
    assert forall|i: int| 0 <= i < head.len() implies #[trigger] head[i] != "--network"@ by {
        if i < 6 {
            assert(head[i] == head_args(name, detach, cpus, memory)[i]);
        } else {
            assert(head[i] == workdir_args(bound, workdir)[i - 6]);
        }
    }
}

/// What is put before a container that is turned to the proxy does not part its mounts, unless the
/// image is named like the second of two arguments that belong together.
proof fn lemma_follows_behind_the_proxy(
    pre: Seq<Seq<char>>,
    mounts: Seq<Seq<char>>,
    rest: Seq<Seq<char>>,
    image: Seq<char>,
    port: Option<Seq<char>>,
    a: Seq<char>,
    b: Seq<char>,
)
    requires
        pre.len() > 0,
        forall|i: int| 0 <= i < pre.len() ==> #[trigger] pre[i] != "--network"@,
        forall|i: int| 0 <= i < mounts.len() ==> #[trigger] mounts[i] != "--network"@,
        follows(mounts, a, b),
        image != b,
    ensures
        follows(proxied_args(pre + mounts + rest, image, port), a, b),
{
    let front = pre + mounts;
    assert forall|j: int| 0 <= j < front.len() implies #[trigger] front[j] != "--network"@ by {
        if j < pre.len() {
            assert(front[j] == pre[j]);
        } else {
            assert(front[j] == mounts[j - pre.len()]);
        }
    }
    lemma_without_network_prefix(front, rest);
    let last = without_network(rest);
    let clean = without_network(pre + mounts + rest);
    assert(clean == front + last);
    let named = clean.take(1) + gateway_args() + clean.skip(1);
    let first = clean.take(1) + gateway_args() + pre.skip(1);
    assert(clean.skip(1) =~= pre.skip(1) + mounts + last);
    assert(named =~= first + mounts + last);
    lemma_follows_between(first, mounts, last, a, b);
    let args = proxied_args(pre + mounts + rest, image, port);
    if let Some(number) = port {
        let n = first_place(named, image) as int;
        law_first_place(named, image);
        let vars = proxy_args(number);
        assert(args == named.take(n) + vars + named.skip(n));
        let m = choose|m: int|
            0 <= m && m + 1 < named.len() && #[trigger] named[m] == a && named[m + 1] == b;
        if n <= m {
            assert(args[m + vars.len()] == named[m]);
            assert(args[m + vars.len() + 1] == named[m + 1]);
        } else {
            assert(n != m + 1);
            assert(args[m] == named[m]);
            assert(args[m + 1] == named[m + 1]);
        }
    } else {
        assert(args == named);
    }
}

/// The mounts of a container stand between its first arguments and the others, in every mode.
proof fn lemma_mounts_stand_together(
    image: Seq<char>,
    req: CreateRequest,
    name: Seq<char>,
    detach: bool,
    mode: NetworkMode,
    host: HostFacts,
    memory: nat,
) -> (rest: Seq<Seq<char>>)
    ensures
        ({
            let fs = req.policy.filesystem;
            let existing = text::texts(host.existing@);
            run_args(image, req, name, detach, mode, host, memory) == (head_args(
                name,
                detach,
                req.policy.resources.cpus.text@,
                memory,
            ) + network_args(mode) + workdir_args(fs.workdir, host.workdir@)) + (mount_args(
                fs.read_only@,
                req.workdir@,
                true,
                existing,
            ) + mount_args(fs.read_write@, req.workdir@, false, existing)) + rest
        }),
{
    let fs = req.policy.filesystem;
    let existing = text::texts(host.existing@);
    let run = run_args(image, req, name, detach, mode, host, memory);
    let pre = head_args(name, detach, req.policy.resources.cpus.text@, memory) + network_args(
        mode,
    ) + workdir_args(fs.workdir, host.workdir@);
    let ro = mount_args(fs.read_only@, req.workdir@, true, existing);
    let rw = mount_args(fs.read_write@, req.workdir@, false, existing);
    let rest = run.skip((pre.len() + ro.len() + rw.len()) as int);
    assert(pre + ro + rw =~= pre + (ro + rw));
    assert(run =~= pre + (ro + rw) + rest);
    rest
}

/// Every path that a policy lists as writable, other than `/workspace` and `/tmp` and what starts
/// with `/workspace`, is mounted to be read and written, wherever it stands in the list, where its
/// host path exists and ends in a name; every such path that it lists as readable is mounted to be
/// read. This holds in every network mode, but for an image that is itself named like the mount.
pub proof fn law_listed_paths_are_mounted(
    image: Seq<char>,
    req: CreateRequest,
    host: HostFacts,
    memory: nat,
    writable: bool,
    i: int,
)
    requires
        0 <= i < (if writable {
            req.policy.filesystem.read_write@
        } else {
            req.policy.filesystem.read_only@
        }).len(),
        ({
            let p = (if writable {
                req.policy.filesystem.read_write@
            } else {
                req.policy.filesystem.read_only@
            })[i]@;
            let from = paths::joined(req.workdir@, p);
            &&& writable ==> p != "/workspace"@ && p != "/tmp"@
            &&& !"/workspace"@.is_prefix_of(p)
            &&& exists|k: int| 0 <= k < host.existing@.len() && #[trigger] host.existing@[k]@ == from
            &&& paths::name_of(from) is Some
            &&& req.policy.network.mode == NetworkMode::Allowlist ==> image != from + ":/mnt/"@
                + paths::name_of(from)->0 + (if writable {
                ":rw"@
            } else {
                ":ro"@
            })
        }),
    ensures
        ({
            let p = (if writable {
                req.policy.filesystem.read_write@
            } else {
                req.policy.filesystem.read_only@
            })[i]@;
            let from = paths::joined(req.workdir@, p);
            follows(
                creation_args(image, req, host, memory),
                "-v"@,
                from + ":/mnt/"@ + paths::name_of(from)->0 + (if writable {
                    ":rw"@
                } else {
                    ":ro"@
                }),
            )
        }),
{
    let fs = req.policy.filesystem;
    let list = if writable {
        fs.read_write@
    } else {
        fs.read_only@
    };
    let p = list[i]@;
    let from = paths::joined(req.workdir@, p);
    let existing = text::texts(host.existing@);
    let k = choose|k: int| 0 <= k < host.existing@.len() && #[trigger] host.existing@[k]@ == from;
    assert(existing[k] == from);
    let spec = from + ":/mnt/"@ + paths::name_of(from)->0 + (if writable {
        ":rw"@
    } else {
        ":ro"@
    });
    law_mount_of_a_path(p, req.workdir@, !writable, existing);
    let at = lemma_mounted_at(list, i, req.workdir@, !writable, existing);
    let ro = mount_args(fs.read_only@, req.workdir@, true, existing);
    let rw = mount_args(fs.read_write@, req.workdir@, false, existing);
    let mounts = ro + rw;
    assert(follows(mounts, "-v"@, spec)) by {
        if writable {
            assert(mounts[ro.len() + at] == "-v"@);
            assert(mounts[ro.len() + at + 1] == spec);
        } else {
            assert(mounts[at] == "-v"@);
            assert(mounts[at + 1] == spec);
        }
    }
    let mode = req.policy.network.mode;
    let args = creation_args(image, req, host, memory);
    let detach = !req.ephemeral;
    let cpus = req.policy.resources.cpus.text@;
    if mode != NetworkMode::Allowlist {
        let pre = head_args(req.name@, detach, cpus, memory) + network_args(mode) + workdir_args(
            fs.workdir,
            host.workdir@,
        );
        let rest = lemma_mounts_stand_together(image, req, req.name@, detach, mode, host, memory);
        lemma_follows_between(pre, mounts, rest, "-v"@, spec);
    } else {
        let unfiltered = NetworkMode::Unrestricted;
        let pre = head_args(req.name@, detach, cpus, memory) + network_args(unfiltered) + workdir_args(
            fs.workdir,
            host.workdir@,
        );
        let rest = lemma_mounts_stand_together(image, req, req.name@, detach, unfiltered, host, memory);
        assert(pre =~= head_args(req.name@, detach, cpus, memory) + workdir_args(
            fs.workdir,
            host.workdir@,
        ));
        lemma_head_is_no_network(req.name@, detach, cpus, memory, fs.workdir, host.workdir@);
        lemma_mounts_are_no_network(fs.read_only@, req.workdir@, true, existing);
        lemma_mounts_are_no_network(fs.read_write@, req.workdir@, false, existing);
        assert forall|j: int| 0 <= j < mounts.len() implies #[trigger] mounts[j] != "--network"@ by {
            if j < ro.len() {
                assert(mounts[j] == ro[j]);
            } else {
                assert(mounts[j] == rw[j - ro.len()]);
            }
        }
        lemma_follows_behind_the_proxy(
            pre,
            mounts,
            rest,
            image,
            text::optional_text(host.proxy_port),
            "-v"@,
            spec,
        );
    }
}

/// Nothing is mounted but what the policy lists: each argument behind a `-v` of the mounts of a list
/// is that of one of its paths.
pub proof fn law_only_listed_paths_are_mounted(
    list: Seq<String>,
    workdir: Seq<char>,
    read_only: bool,
    existing: Seq<Seq<char>>,
    n: int,
)
    requires
        0 <= n < mount_args(list, workdir, read_only, existing).len(),
    ensures
        ({
            let args = mount_args(list, workdir, read_only, existing);
            &&& args.len() % 2 == 0
            &&& n % 2 == 0 ==> args[n] == "-v"@
            &&& n % 2 == 1 ==> exists|i: int|
                0 <= i < list.len() && Some(args[n]) == mount(
                    (#[trigger] list[i])@,
                    workdir,
                    read_only,
                    existing,
                ) && (read_only || (list[i]@ != "/workspace"@ && list[i]@ != "/tmp"@))
        }),
    decreases list.len(),
{
    let fewer = list.drop_last();
    let p = list.last();
    let rest = mount_args(fewer, workdir, read_only, existing);
    let args = mount_args(list, workdir, read_only, existing);
    assert(list.len() > 0);
    law_every_path_is_looked_at(fewer, p, workdir, read_only, existing);
    assert(fewer.push(p) =~= list);
    if rest.len() > 0 {
        law_only_listed_paths_are_mounted(fewer, workdir, read_only, existing, 0);
    }
    if n < rest.len() {
        law_only_listed_paths_are_mounted(fewer, workdir, read_only, existing, n);
        assert(args[n] == rest[n]);
        if n % 2 == 1 {
            let i = choose|i: int|
                0 <= i < fewer.len() && Some(rest[n]) == mount(
                    (#[trigger] fewer[i])@,
                    workdir,
                    read_only,
                    existing,
                ) && (read_only || (fewer[i]@ != "/workspace"@ && fewer[i]@ != "/tmp"@));
            assert(list[i] == fewer[i]);
        }
    } else {
        assert(list[list.len() - 1] == p);
    }
}

/// A command is run in the container that the runtime id names, where that is a container name or
/// at least twelve bytes long, and else in the container of the sandbox.
pub proof fn law_command_reaches_its_container(req: ExecRequest)
    ensures
        "ssbx-"@.is_prefix_of(req.runtime_id@) ==> exec_target(req) == req.runtime_id@,
        vstd::utf8::encode_utf8(req.runtime_id@).len() >= 12 ==> exec_target(req)
            == req.runtime_id@,
        !"ssbx-"@.is_prefix_of(req.runtime_id@) && vstd::utf8::encode_utf8(req.runtime_id@).len()
            < 12 ==> exec_target(req) == "ssbx-"@ + req.name@,
{
}

/// The arguments of a command in a container: a terminal where one is asked for, the variables, the
/// working directory, the container and then the command word for word, or a shell without one.
pub proof fn law_command_in_a_container(req: ExecRequest)
    ensures
        ({
            let tty = if req.tty {
                seq!["exec"@, "-it"@]
            } else {
                seq!["exec"@]
            };
            let cwd = match req.cwd {
                Some(dir) => seq!["-w"@, dir@],
                None => Seq::empty(),
            };
            let command = if req.command@.len() == 0 {
                seq!["sh"@]
            } else {
                req.command@.map_values(|s: String| s@)
            };
            execution_args(req) == tty + env_args(req.env@) + cwd + seq![exec_target(req)] + command
        }),
{
    assert(text::texts(req.command@) =~= req.command@.map_values(|s: String| s@));
    let tty = if req.tty {
        seq!["exec"@, "-it"@]
    } else {
        seq!["exec"@]
    };
    assert(seq!["exec"@] + (if req.tty {
        seq!["-it"@]
    } else {
        Seq::empty()
    }) =~= tty);
}

/// The engine has the architecture that it says, or that of the host where it fails or says
/// nothing.
pub proof fn law_architecture_of_the_engine(output: CommandOutput, host_arch: Seq<char>)
    ensures
        engine_arch(None, host_arch) == host_arch,
        !output.success ==> engine_arch(Some(output), host_arch) == host_arch,
        output.success && text::trim(output.stdout@).len() == 0 ==> engine_arch(
            Some(output),
            host_arch,
        ) == host_arch,
        output.success && text::trim(output.stdout@).len() > 0 ==> engine_arch(
            Some(output),
            host_arch,
        ) == text::trim(output.stdout@),
{
}

/// The report on the container program says whether it was found and where, and if so whether its
/// engine answers, with the architecture or with the reason.
pub proof fn law_report_on_the_engine(
    binary: String,
    arch: String,
    missing: MechanismError,
    down: MechanismError,
)
    ensures
        ({
            let none = runtime_report(Err(missing), Ok(arch));
            &&& none.len() == 1
            &&& none[0].name == "runtime-binary"@ && !none[0].ok && none[0].detail
                == missing@.message()
        }),
        runtime_report(Err(missing), Err(down)) == runtime_report(Err(missing), Ok(arch)),
        ({
            let up = runtime_report(Ok(binary), Ok(arch));
            &&& up.len() == 2
            &&& up[0].name == "runtime-binary"@ && up[0].ok && up[0].detail == binary@
            &&& up[1].name == "runtime-engine"@ && up[1].ok && up[1].detail == "reachable, arch="@
                + arch@
        }),
        ({
            let fails = runtime_report(Ok(binary), Err(down));
            &&& fails.len() == 2
            &&& fails[0].name == "runtime-binary"@ && fails[0].ok && fails[0].detail == binary@
            &&& fails[1].name == "runtime-engine"@ && !fails[1].ok && fails[1].detail
                == down@.message()
        }),
{
}

/// The container program that is set comes first, then podman, then docker; without any there is
/// none.
pub proof fn law_container_program_in_order(
    r: Result<String, MechanismError>,
    set: Seq<char>,
    podman: Seq<char>,
    docker: Seq<char>,
    p: Option<Seq<char>>,
    d: Option<Seq<char>>,
)
    ensures
        is_runtime(r, Some(set), p, d) <==> r is Ok && r->Ok_0@ == set,
        is_runtime(r, None, Some(podman), d) <==> r is Ok && r->Ok_0@ == podman,
        is_runtime(r, None, None, Some(docker)) <==> r is Ok && r->Ok_0@ == docker,
        is_runtime(r, None, None, None) ==> r is Err && r->Err_0 is Unavailable,
{
}

/// A program is found under the name that it was looked for.
pub proof fn law_program_is_found_by_name(found: Seq<char>, name: Seq<char>)
    ensures
        found_as(Some(found), name) <==> paths::name_of(found) == Some(name),
        found_as(None, name),
{
}

/// Where podman is found it is the program, whether or not docker could be found; docker is it only
/// where podman is not found and docker is.
pub proof fn law_podman_is_preferred<F: Fn(&str) -> Option<String>>(
    find: F,
    r: Result<String, MechanismError>,
    p: Option<String>,
    d: Option<String>,
)
    requires
        looked_up(find, r, p, d),
    ensures
        call_ensures(find, ("podman",), p),
        p matches Some(podman) ==> r is Ok && r->Ok_0@ == podman@,
        p is None ==> call_ensures(find, ("docker",), d),
        p is None ==> (d matches Some(docker) ==> r is Ok && r->Ok_0@ == docker@),
        p is None && d is None ==> r is Err,
{
}

/// A plan runs the container program with its own arguments.
pub proof fn law_plan_has_its_arguments(args: Vec<String>)
    ensures
        ContainerPlan::Run(args).args() == args@,
        ContainerPlan::Keep(args).args() == args@,
{
}

/// The container program that is set is the one that runs; without one, what runs is podman, or
/// docker, or nothing.
pub proof fn law_program_on_the_host(r: Result<String, MechanismError>, set: String)
    ensures
        runs_on_host(r, Some(set)) <==> r is Ok && r->Ok_0@ == set@,
        runs_on_host(r, None) ==> exists|p: Option<Seq<char>>, d: Option<Seq<char>>| #[trigger]
            is_runtime(r, None, p, d),
{
    if runs_on_host(r, None) {
        let (p, d) = choose|p: Option<String>, d: Option<String>| #[trigger]
            looked_up(find_program, r, p, d);
        let q = if p is None {
            text::optional_text(d)
        } else {
            None
        };
        assert(is_runtime(r, None, text::optional_text(p), q));
    }
}

/// What is handed to the container program mounts every listed path: to be written where the policy
/// lists it as writable, and to be read where it lists it as readable.
pub proof fn law_created_container_has_its_mounts(
    m: &PodmanMechanism,
    req: &CreateRequest,
    host: &HostFacts,
    writable: bool,
    i: int,
    args: Result<Vec<String>, MechanismError>,
    plan: Result<ContainerPlan, MechanismError>,
)
    requires
        call_ensures(PodmanMechanism::create_args, (m, req, host), args),
        call_ensures(PodmanMechanism::create_plan, (m, req, host), plan),
        policy::size_value(req.policy.resources.memory@) is Ok,
        0 <= i < (if writable {
            req.policy.filesystem.read_write@
        } else {
            req.policy.filesystem.read_only@
        }).len(),
        ({
            let p = (if writable {
                req.policy.filesystem.read_write@
            } else {
                req.policy.filesystem.read_only@
            })[i]@;
            let from = paths::joined(req.workdir@, p);
            &&& writable ==> p != "/workspace"@ && p != "/tmp"@
            &&& !"/workspace"@.is_prefix_of(p)
            &&& exists|k: int| 0 <= k < host.existing@.len() && #[trigger] host.existing@[k]@ == from
            &&& paths::name_of(from) is Some
            &&& req.policy.network.mode == NetworkMode::Allowlist ==> m.image@ != from + ":/mnt/"@
                + paths::name_of(from)->0 + (if writable {
                ":rw"@
            } else {
                ":ro"@
            })
        }),
    ensures
        args is Ok,
        plan is Ok,
        ({
            let p = (if writable {
                req.policy.filesystem.read_write@
            } else {
                req.policy.filesystem.read_only@
            })[i]@;
            let from = paths::joined(req.workdir@, p);
            let spec = from + ":/mnt/"@ + paths::name_of(from)->0 + (if writable {
                ":rw"@
            } else {
                ":ro"@
            });
            &&& follows(text::texts(args->Ok_0@), "-v"@, spec)
            &&& follows(text::texts(plan->Ok_0.args()), "-v"@, spec)
        }),
{
    let memory = policy::size_value(req.policy.resources.memory@)->Ok_0;
    law_listed_paths_are_mounted(m.image@, *req, *host, memory, writable, i);
}

/// What creating a container comes to: one that was run has its code and goes by `ephemeral:` and
/// its name, one that stays goes by the id that was printed, and a failure is told.
pub proof fn law_result_of_a_container(
    m: &PodmanMechanism,
    req: &CreateRequest,
    outcome: &ContainerOutcome,
    port: &Option<String>,
    r: Result<CreateResult, MechanismError>,
)
    requires
        call_ensures(PodmanMechanism::created, (m, req, outcome, port), r),
    ensures
        outcome matches ContainerOutcome::Ended(code) ==> {
            &&& r is Ok
            &&& r->Ok_0.name@ == req.name@
            &&& r->Ok_0.mechanism == MechanismKind::Podman
            &&& r->Ok_0.runtime_id@ == "ephemeral:"@ + req.name@
            &&& r->Ok_0.exit_code == code
        },
        outcome matches ContainerOutcome::Told(output) ==> {
            &&& r is Ok <==> output.success
            &&& output.success ==> {
                &&& r->Ok_0.name@ == req.name@
                &&& r->Ok_0.mechanism == MechanismKind::Podman
                &&& r->Ok_0.runtime_id@ == kept_id(req.name@, output.stdout@)
                &&& r->Ok_0.exit_code is None
            }
            &&& !output.success ==> r->Err_0@ == mechanism::MechanismErrorView::Message(
                "create failed: "@ + output.stderr@,
            )
        },
        outcome matches ContainerOutcome::NotRun(cause) ==> r is Err && r->Err_0@
            == mechanism::MechanismErrorView::Message(cause@),
{
}

/// A container is removed and its logs are read by its runtime id, and then by the name of its
/// sandbox where that failed; what was run once is not removed again.
pub proof fn law_container_is_addressed(
    m: &PodmanMechanism,
    id: &str,
    tail: usize,
    done: bool,
    first: Option<Vec<String>>,
    again: Option<Vec<String>>,
    logs: Vec<String>,
    more: Option<Vec<String>>,
)
    requires
        call_ensures(PodmanMechanism::remove_args, (m, id), first),
        call_ensures(PodmanMechanism::remove_again_args, (m, id, done), again),
        call_ensures(PodmanMechanism::logs_args, (m, id, tail), logs),
        call_ensures(PodmanMechanism::logs_again_args, (m, id, tail, done), more),
    ensures
        first is None <==> "ephemeral:"@.is_prefix_of(id@),
        first is Some ==> text::texts(first->0@) == seq!["rm"@, "-f"@, id@],
        again is Some <==> !done,
        again is Some ==> text::texts(again->0@) == seq!["rm"@, "-f"@, "ssbx-"@ + id@],
        text::texts(logs@) == seq!["logs"@, "--tail"@, text::decimal(tail as nat), id@],
        more is Some <==> !done,
        more is Some ==> text::texts(more->0@) == seq![
            "logs"@,
            "--tail"@,
            text::decimal(tail as nat),
            "ssbx-"@ + id@,
        ],
{
}

/// The image is asked for and, only where it is not there, pulled; a pull that fails is told.
pub proof fn law_image_is_pulled_once(
    m: &PodmanMechanism,
    present: bool,
    ask: Vec<String>,
    pull: Option<Vec<String>>,
    r: Result<(), MechanismError>,
)
    requires
        call_ensures(PodmanMechanism::inspect_args, (m,), ask),
        call_ensures(PodmanMechanism::pull_args, (m, present), pull),
        call_ensures(PodmanMechanism::pull_result, (m, present), r),
    ensures
        text::texts(ask@) == seq!["image"@, "inspect"@, m.image@],
        pull is Some <==> !present,
        pull is Some ==> text::texts(pull->0@) == seq!["pull"@, m.image@],
        r is Ok <==> present,
        r is Err ==> r->Err_0@ == mechanism::MechanismErrorView::Message(
            "failed to pull "@ + m.image@,
        ),
{
}

/// The engine is there exactly where the program ran and succeeded; else the error says why.
pub proof fn law_engine_is_asked(
    binary: &str,
    ping: Result<CommandOutput, String>,
    asked: Vec<String>,
    arch: Vec<String>,
    r: Result<(), MechanismError>,
    output: &CommandOutput,
    logs: String,
    cause: &str,
    failure: MechanismError,
)
    requires
        call_ensures(ping_args, (), asked),
        call_ensures(arch_args, (), arch),
        call_ensures(ping_result, (binary, ping), r),
        call_ensures(logs_text, (output,), logs),
        call_ensures(run_failure, (binary, cause), failure),
    ensures
        text::texts(asked@) == seq!["ps"@, "-q"@],
        text::texts(arch@) == seq!["version"@, "--format"@, "{{.Server.Arch}}"@],
        r is Ok <==> ping is Ok && ping->Ok_0.success,
        ping matches Err(why) ==> r->Err_0@ == mechanism::MechanismErrorView::Message(why@),
        ping is Ok && !ping->Ok_0.success ==> r->Err_0@
            == mechanism::MechanismErrorView::Unavailable(
            binary@ + " not usable (is the machine/VM running?): "@ + ping->Ok_0.stderr@,
        ),
        logs@ == output.stdout@ + output.stderr@,
        failure@ == mechanism::MechanismErrorView::Message(
            "failed to run "@ + binary@ + ": "@ + cause@,
        ),
{
}

} // verus!
