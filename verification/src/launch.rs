//! From the command line to a request for a sandbox: the policy that holds, the backend, the
//! checks before anything starts, and what the backend is asked for.

use vstd::prelude::*;

use crate::mechanism::{self, resolve_mechanism, CreateRequest, DoctorItem, HostOs};
use crate::podman;
use crate::policy::{
    self, preflight, CpuLimit, HostCapacity, MechanismKind, NetworkEndpoint, NetworkMode,
    PolicyError, PolicyErrorView, PoolClaim, ResourcePolicy, SandboxPolicy,
};
use crate::proxy::{self, allow_from_endpoints, AllowSet};
use crate::seatbelt;
use crate::secrets::{self, SecretError, SecretSource};
use crate::text::{self, hexadecimal_text, same_text};

verus! {

/// What the command line sets in place of the policy.
#[derive(Debug, PartialEq, Eq)]
pub struct Overrides {
    pub cpus: Option<CpuLimit>,
    pub memory: Option<String>,
    pub mechanism: Option<MechanismKind>,
}

/// A policy with what the command line sets.
pub open spec fn overridden(base: SandboxPolicy, o: Overrides) -> SandboxPolicy {
    SandboxPolicy {
        resources: ResourcePolicy {
            cpus: match o.cpus {
                Some(c) => c,
                None => base.resources.cpus,
            },
            memory: match o.memory {
                Some(m) => m,
                None => base.resources.memory,
            },
        },
        mechanism: match o.mechanism {
            Some(m) => Some(m),
            None => base.mechanism,
        },
        ..base
    }
}

/// Whether a policy is the one to start from: the one of the policy file, or the restrictive one
/// where no file is named.
pub open spec fn starts_from(
    loaded: Option<Result<SandboxPolicy, PolicyError>>,
    base: SandboxPolicy,
) -> bool {
    match loaded {
        Some(Ok(policy)) => base == policy,
        Some(Err(_)) => false,
        None => base.is_restrictive(),
    }
}

/// Whether `policy` is the valid policy that the command line asks for.
pub open spec fn asked_for(
    loaded: Option<Result<SandboxPolicy, PolicyError>>,
    o: Overrides,
    policy: SandboxPolicy,
) -> bool {
    policy.fault() is None && exists|base: SandboxPolicy| #[trigger]
        starts_from(loaded, base) && policy == overridden(base, o)
}

/// Whether the command line asks for no valid policy, with an error: the file does not load, or
/// the policy with what the command line sets breaks a rule.
pub open spec fn cannot_load(
    loaded: Option<Result<SandboxPolicy, PolicyError>>,
    o: Overrides,
    error: PolicyErrorView,
) -> bool {
    match loaded {
        Some(Err(e)) => error == e@,
        _ => exists|base: SandboxPolicy| #[trigger]
            starts_from(loaded, base) && overridden(base, o).fault() == Some(error),
    }
}

/// The policy that the command line asks for. `loaded` is what became of the policy file, where
/// one is named.
pub fn load_policy(
    loaded: Option<Result<SandboxPolicy, PolicyError>>,
    overrides: Overrides,
) -> (r: Result<SandboxPolicy, PolicyError>)
    ensures
        match r {
            Ok(policy) => asked_for(loaded, overrides, policy),
            Err(e) => cannot_load(loaded, overrides, e@),
        },
{
    let mut policy = match loaded {
        Some(Ok(policy)) => policy,
        Some(Err(e)) => {
            return Err(e);
        },
        None => SandboxPolicy::restrictive_default(),
    };
    let ghost base = policy;
    assert(starts_from(loaded, base));
    if let Some(c) = overrides.cpus {
        policy.resources.cpus = c;
    }
    if let Some(m) = overrides.memory {
        policy.resources.memory = m;
    }
    if let Some(m) = overrides.mechanism {
        policy.mechanism = Some(m);
    }
    assert(policy == overridden(base, overrides));
    match policy.validate() {
        Ok(()) => Ok(policy),
        Err(e) => Err(e),
    }
}

/// A command line that asks for a valid policy is not refused, and one that is refused is refused
/// for one reason: without a policy file, that does not depend on which restrictive policy it
/// starts from.
pub proof fn law_valid_policy_is_not_refused(
    loaded: Option<Result<SandboxPolicy, PolicyError>>,
    o: Overrides,
    policy: SandboxPolicy,
    error: PolicyErrorView,
    other: PolicyErrorView,
)
    ensures
        asked_for(loaded, o, policy) ==> !cannot_load(loaded, o, error),
        cannot_load(loaded, o, error) && cannot_load(loaded, o, other) ==> error == other,
{
    assert forall|a: SandboxPolicy, b: SandboxPolicy|
        #![trigger starts_from(loaded, a), starts_from(loaded, b)]
        starts_from(loaded, a) && starts_from(loaded, b) implies overridden(a, o).fault()
        == overridden(b, o).fault() by {
        let x = overridden(a, o);
        let y = overridden(b, o);
        assert(x.resources.memory@ == y.resources.memory@);
        assert(x.secrets@.len() == y.secrets@.len());
        if loaded is None {
            assert(!x.has_unnamed_secret());
            assert(!y.has_unnamed_secret());
        }
    }
}

/// What the command line sets holds in the policy that it asks for, and nothing else of the policy
/// changes.
pub proof fn law_overrides_hold(
    loaded: Option<Result<SandboxPolicy, PolicyError>>,
    o: Overrides,
    policy: SandboxPolicy,
)
    requires
        asked_for(loaded, o, policy),
    ensures
        o.cpus matches Some(c) ==> policy.resources.cpus == c,
        o.memory matches Some(m) ==> policy.resources.memory == m,
        o.mechanism matches Some(m) ==> policy.mechanism == Some(m),
        loaded matches Some(Ok(base)) ==> {
            &&& policy.filesystem == base.filesystem
            &&& policy.network == base.network
            &&& policy.secrets == base.secrets
        },
        loaded is None ==> policy.network.mode == NetworkMode::NoNetwork && policy.secrets@.len()
            == 0,
{
}

/// The check that says whether the container engine answers.
pub open spec fn says_ready(item: DoctorItem) -> bool {
    item.name@ == "runtime-engine"@ && item.ok
}

/// Whether a report says that the container engine answers.
pub open spec fn engine_answers(items: Seq<DoctorItem>) -> bool {
    exists|i: int| 0 <= i < items.len() && #[trigger] says_ready(items[i])
}

/// Whether a report says that the container engine answers.
pub fn engine_ready(items: &Vec<DoctorItem>) -> (r: bool)
    ensures
        r == engine_answers(items@),
{
    let mut i: usize = 0;
    while i < items.len()
        invariant
            i <= items@.len(),
            forall|k: int| 0 <= k < i ==> !#[trigger] says_ready(items@[k]),
        decreases items@.len() - i,
    {
        if same_text(items[i].name.as_str(), "runtime-engine") && items[i].ok {
            assert(says_ready(items@[i as int]));
            return true;
        }
        i += 1;
    }
    false
}

/// Whether `picked` can be the backend for a command that runs once: on macOS, Seatbelt stands in
/// for a container engine that does not answer.
pub open spec fn prefers<D: Fn() -> Vec<DoctorItem>>(
    kind: MechanismKind,
    os: HostOs,
    doctor: D,
    picked: MechanismKind,
) -> bool {
    let resolved = mechanism::resolved_mechanism(kind, os);
    if resolved == MechanismKind::Podman {
        exists|items: Vec<DoctorItem>| #[trigger]
            call_ensures(doctor, (), items) && picked == if !engine_answers(items@) && os
                == HostOs::MacOs {
                MechanismKind::Mac
            } else {
                MechanismKind::Podman
            }
    } else {
        picked == resolved
    }
}

/// The backend for a command that runs once. `doctor` gives the report on the container engine.
pub fn prefer_available<D: Fn() -> Vec<DoctorItem>>(
    kind: MechanismKind,
    os: HostOs,
    doctor: D,
) -> (r: MechanismKind)
    requires
        call_requires(doctor, ()),
    ensures
        prefers(kind, os, doctor, r),
{
    let kind = resolve_mechanism(kind, os);
    if kind == MechanismKind::Podman {
        let items = doctor();
        if !engine_ready(&items) && os == HostOs::MacOs {
            return MechanismKind::Mac;
        }
    }
    kind
}

/// The keys of the endpoints of a policy.
pub open spec fn policy_keys(endpoints: Seq<NetworkEndpoint>) -> Set<Seq<char>> {
    Set::new(
        |k: Seq<char>|
            exists|i: int|
                0 <= i < endpoints.len() && k == policy::endpoint_key(
                    (#[trigger] endpoints[i]).host@,
                    endpoints[i].port as nat,
                ),
    )
}

/// The allow set of the proxy that a sandbox needs: the endpoints of the policy, where it allows
/// those alone.
pub fn proxy_allow(policy: &SandboxPolicy) -> (r: Option<AllowSet>)
    ensures
        r is Some <==> policy.network.mode == NetworkMode::Allowlist,
        r matches Some(allow) ==> allow@ == policy_keys(policy.network.endpoints@),
{
    if policy.network.mode != NetworkMode::Allowlist {
        return None;
    }
    let endpoints = &policy.network.endpoints;
    let mut list: Vec<(String, u16)> = Vec::new();
    let mut i: usize = 0;
    while i < endpoints.len()
        invariant
            i <= endpoints@.len(),
            list@.len() == i,
            forall|k: int|
                #![trigger list@[k]]
                0 <= k < i ==> list@[k].0@ == endpoints@[k].host@ && list@[k].1
                    == endpoints@[k].port,
        decreases endpoints@.len() - i,
    {
        list.push((endpoints[i].host.as_str().to_owned(), endpoints[i].port));
        i += 1;
    }
    proof {
        let keys = proxy::endpoint_keys(list@);
        assert forall|k: Seq<char>| keys.contains(k) == policy_keys(endpoints@).contains(k) by {
            if keys.contains(k) {
                let j = choose|j: int|
                    0 <= j < list@.len() && k == policy::endpoint_key(
                        (#[trigger] list@[j]).0@,
                        list@[j].1 as nat,
                    );
                assert(endpoints@[j].host@ == list@[j].0@);
            }
            if policy_keys(endpoints@).contains(k) {
                let j = choose|j: int|
                    0 <= j < endpoints@.len() && k == policy::endpoint_key(
                        (#[trigger] endpoints@[j]).host@,
                        endpoints@[j].port as nat,
                    );
                assert(list@[j].0@ == endpoints@[j].host@);
            }
        }
        assert(keys =~= policy_keys(endpoints@));
    }
    Some(allow_from_endpoints(list))
}

/// Why a sandbox is not launched.
#[derive(Debug, PartialEq, Eq)]
pub enum LaunchError {
    /// The policy does not load, is invalid, or does not fit the host.
    Policy(PolicyError),
    /// The host does not say what its working directory is.
    Host(String),
    /// A secret of the policy is not to be had.
    Secret(SecretError),
}

impl LaunchError {
    /// The sentence that a user reads.
    pub fn message(&self) -> (r: String)
        ensures
            r@ == match *self {
                LaunchError::Policy(e) => e@.message(),
                LaunchError::Host(m) => m@,
                LaunchError::Secret(e) => e@.message(),
            },
    {
        match self {
            LaunchError::Policy(e) => e.message(),
            LaunchError::Host(m) => m.clone(),
            LaunchError::Secret(e) => e.message(),
        }
    }
}

/// What the command line wants to launch.
#[derive(Debug)]
pub struct LaunchOptions {
    pub name: String,
    /// Whether the sandbox goes away when its command ends.
    pub ephemeral: bool,
    /// The command of a sandbox that goes away; none for one that stays.
    pub command: Vec<String>,
}

/// What is to be done once every check has passed: start a proxy with the allow set, if there is
/// one; see to it that the image is there, if the backend needs one; then make the request.
#[derive(Debug)]
pub struct LaunchPlan {
    pub kind: MechanismKind,
    pub proxy: Option<AllowSet>,
    pub pull_image: bool,
    pub request: CreateRequest,
}

/// A policy with the backend that was picked for it.
pub open spec fn settled(policy: SandboxPolicy, kind: MechanismKind) -> SandboxPolicy {
    SandboxPolicy { mechanism: Some(kind), ..policy }
}

/// Whether `picked` can be the backend for a sandbox.
pub open spec fn picks<D: Fn() -> Vec<DoctorItem>>(
    kind: MechanismKind,
    os: HostOs,
    ephemeral: bool,
    doctor: D,
    picked: MechanismKind,
) -> bool {
    if ephemeral {
        prefers(kind, os, doctor, picked)
    } else {
        picked == mechanism::resolved_mechanism(kind, os)
    }
}

/// Whether `policy` can be the policy to launch, and `kind` its backend.
pub open spec fn settles_on<D: Fn() -> Vec<DoctorItem>>(
    loaded: Option<Result<SandboxPolicy, PolicyError>>,
    o: Overrides,
    os: HostOs,
    ephemeral: bool,
    doctor: D,
    policy: SandboxPolicy,
    kind: MechanismKind,
) -> bool {
    exists|asked: SandboxPolicy| #[trigger]
        asked_for(loaded, o, asked) && picks(
            asked.wanted_mechanism(),
            os,
            ephemeral,
            doctor,
            kind,
        ) && policy == settled(asked, kind)
}

/// Whether the allocator can grant both claims of a policy.
pub open spec fn passes<A: Fn(PoolClaim) -> Result<(), String>>(
    policy: SandboxPolicy,
    host: HostCapacity,
    allocate: A,
) -> bool {
    &&& policy.fault() is None
    &&& policy::grants(allocate, policy::memory_claim(policy, host))
    &&& policy::grants(allocate, policy::cpu_claim(policy, host))
}

/// Whether the allocator can refuse a claim, with an error.
pub open spec fn cannot_claim<A: Fn(PoolClaim) -> Result<(), String>>(
    allocate: A,
    claim: PoolClaim,
    error: PolicyErrorView,
) -> bool {
    exists|reply: Result<(), String>| #[trigger]
        call_ensures(allocate, (claim,), reply) && reply is Err && error
            == PolicyErrorView::Preflight(reply->Err_0@)
}

/// Whether the allocator can refuse one of the claims of a valid policy, with an error.
pub open spec fn cannot_pass<A: Fn(PoolClaim) -> Result<(), String>>(
    policy: SandboxPolicy,
    host: HostCapacity,
    allocate: A,
    error: PolicyErrorView,
) -> bool {
    &&& policy.fault() is None
    &&& {
        ||| cannot_claim(allocate, policy::memory_claim(policy, host), error)
        ||| {
            &&& policy::grants(allocate, policy::memory_claim(policy, host))
            &&& cannot_claim(allocate, policy::cpu_claim(policy, host), error)
        }
    }
}

/// Makes every check that stands before a launch, in order: the policy, the backend, the claims on
/// the host, the working directory, the secrets. Nothing has been started when this returns.
pub fn plan_launch<
    B,
    D: Fn() -> Vec<DoctorItem>,
    A: Fn(PoolClaim) -> Result<(), String>,
    F: Fn(&SecretSource) -> Result<Vec<u8>, String>,
    L: Fn(&Vec<u8>) -> Result<B, String>,
    R: Fn(&B) -> Result<Vec<u8>, String>,
>(
    options: LaunchOptions,
    loaded: Option<Result<SandboxPolicy, PolicyError>>,
    overrides: Overrides,
    os: HostOs,
    doctor: D,
    host: &HostCapacity,
    allocate: A,
    workdir: Result<String, String>,
    fetch: F,
    lock: L,
    read: R,
) -> (r: Result<LaunchPlan, LaunchError>)
    requires
        call_requires(doctor, ()),
        forall|c: PoolClaim| call_requires(allocate, (c,)),
        forall|s: &SecretSource| call_requires(fetch, (s,)),
        forall|b: &Vec<u8>| call_requires(lock, (b,)),
        forall|b: &B| call_requires(read, (b,)),
    ensures
        match r {
            Ok(plan) => {
                let policy = plan.request.policy;
                &&& settles_on(
                    loaded,
                    overrides,
                    os,
                    options.ephemeral,
                    doctor,
                    policy,
                    plan.kind,
                )
                &&& passes(policy, *host, allocate)
                &&& workdir == Ok::<String, String>(plan.request.workdir)
                &&& secrets::injects(
                    policy.secrets@,
                    plan.request.workdir@,
                    fetch,
                    lock,
                    read,
                    plan.request.env@,
                )
                &&& plan.request.name == options.name
                &&& plan.request.ephemeral == options.ephemeral
                &&& plan.request.command == options.command
                &&& plan.proxy is Some <==> policy.network.mode == NetworkMode::Allowlist
                &&& plan.proxy matches Some(allow) ==> allow@ == policy_keys(
                    policy.network.endpoints@,
                )
                &&& plan.pull_image == (plan.kind == MechanismKind::Podman)
            },
            Err(LaunchError::Policy(e)) => {
                ||| cannot_load(loaded, overrides, e@)
                ||| exists|policy: SandboxPolicy, kind: MechanismKind| #[trigger]
                    settles_on(loaded, overrides, os, options.ephemeral, doctor, policy, kind)
                        && cannot_pass(policy, *host, allocate, e@)
            },
            Err(LaunchError::Host(m)) => {
                &&& workdir == Err::<String, String>(m)
                &&& exists|policy: SandboxPolicy, kind: MechanismKind| #[trigger]
                    settles_on(loaded, overrides, os, options.ephemeral, doctor, policy, kind)
                        && passes(policy, *host, allocate)
            },
            Err(LaunchError::Secret(e)) => {
                &&& workdir is Ok
                &&& exists|policy: SandboxPolicy, kind: MechanismKind| #[trigger]
                    settles_on(loaded, overrides, os, options.ephemeral, doctor, policy, kind)
                        && passes(policy, *host, allocate) && secrets::cannot_inject(
                        policy.secrets@,
                        workdir->Ok_0@,
                        fetch,
                        lock,
                        read,
                        e@,
                    )
            },
        },
{
    let asked = match load_policy(loaded, overrides) {
        Ok(policy) => policy,
        Err(e) => {
            return Err(LaunchError::Policy(e));
        },
    };
    let wanted = asked.mechanism_or_auto();
    let kind = if options.ephemeral {
        prefer_available(wanted, os, doctor)
    } else {
        resolve_mechanism(wanted, os)
    };
    let mut policy = asked;
    policy.mechanism = Some(kind);
    assert(settles_on(loaded, overrides, os, options.ephemeral, doctor, policy, kind));
    assert(policy.fault() == asked.fault());
    match preflight(&policy, host, allocate) {
        Ok(()) => {},
        Err(e) => {
            assert(cannot_pass(policy, *host, allocate, e@));
            return Err(LaunchError::Policy(e));
        },
    }
    assert(passes(policy, *host, allocate));
    let workdir = match workdir {
        Ok(dir) => dir,
        Err(m) => {
            return Err(LaunchError::Host(m));
        },
    };
    let env = match secrets::secret_env(
        &policy.secrets,
        workdir.as_str(),
        fetch,
        lock,
        read,
    ) {
        Ok(env) => env,
        Err(e) => {
            return Err(LaunchError::Secret(e));
        },
    };
    Ok(
        LaunchPlan {
            kind,
            proxy: proxy_allow(&policy),
            pull_image: kind == MechanismKind::Podman,
            request: CreateRequest {
                name: options.name,
                policy,
                workdir,
                ephemeral: options.ephemeral,
                command: options.command,
                env,
            },
        },
    )
}

/// A policy that asks for more than the host has is never launched, with an allocator that refuses
/// what a pool does not hold.
pub proof fn law_launch_never_oversubscribes<A: Fn(PoolClaim) -> Result<(), String>>(
    policy: SandboxPolicy,
    host: HostCapacity,
    allocate: A,
)
    requires
        forall|c: PoolClaim, reply: Result<(), String>| #[trigger]
            call_ensures(allocate, (c,), reply) && c.amount > c.capacity ==> reply is Err,
        passes(policy, host, allocate),
    ensures
        !policy::oversubscribes(policy, host),
{
}

/// A policy that is launched is valid and names its backend, which is never `Auto`.
pub proof fn law_launch_settles_backend<D: Fn() -> Vec<DoctorItem>>(
    loaded: Option<Result<SandboxPolicy, PolicyError>>,
    o: Overrides,
    os: HostOs,
    ephemeral: bool,
    doctor: D,
    policy: SandboxPolicy,
    kind: MechanismKind,
)
    requires
        settles_on(loaded, o, os, ephemeral, doctor, policy, kind),
    ensures
        policy.fault() is None,
        policy.mechanism == Some(kind),
        kind != MechanismKind::Auto,
        mechanism::resolved_mechanism(kind, os) == kind,
{
    let asked = choose|asked: SandboxPolicy| #[trigger]
        asked_for(loaded, o, asked) && picks(asked.wanted_mechanism(), os, ephemeral, doctor, kind)
            && policy == settled(asked, kind);
    assert(policy.fault() == asked.fault());
    mechanism::law_resolving_settles(asked.wanted_mechanism(), os);
}

/// A sandbox that is launched without a policy file has no secret and no network, whichever backend
/// runs it: its container is cut off, and no rule of its profile opens the network.
pub proof fn law_default_launch_has_no_network<D: Fn() -> Vec<DoctorItem>>(
    o: Overrides,
    os: HostOs,
    ephemeral: bool,
    doctor: D,
    kind: MechanismKind,
    req: CreateRequest,
    image: Seq<char>,
    host: podman::HostFacts,
    memory: nat,
    workdir: Seq<char>,
)
    requires
        settles_on(None, o, os, ephemeral, doctor, req.policy, kind),
    ensures
        req.policy.network.mode == NetworkMode::NoNetwork,
        req.policy.secrets@.len() == 0,
        podman::creation_args(image, req, host, memory).len() > 7,
        podman::creation_args(image, req, host, memory)[6] == "--network"@,
        podman::creation_args(image, req, host, memory)[7] == "none"@,
        forall|i: int|
            0 <= i < seatbelt::profile_rules(req.policy, workdir).len()
                ==> !seatbelt::opens_network(
                #[trigger] seatbelt::profile_rules(req.policy, workdir)[i],
            ),
{
    podman::law_no_network_container(image, req, host, memory);
    seatbelt::law_network_by_mode_alone(req.policy, workdir);
}

/// The name of a sandbox that stays: the one that was given, or `default`.
pub open spec fn kept_name(name: Option<Seq<char>>) -> Seq<char> {
    match name {
        Some(n) => n,
        None => "default"@,
    }
}

/// The name of a sandbox that stays.
pub fn create_name(name: Option<String>) -> (r: String)
    ensures
        r@ == kept_name(text::optional_text(name)),
{
    match name {
        Some(n) => n,
        None => "default".to_owned(),
    }
}

/// The time in milliseconds, in hexadecimal.
pub fn uuid_simple(millis: u128) -> (r: String)
    ensures
        r@ == text::hexadecimal(millis as nat),
{
    hexadecimal_text(millis)
}

/// The name of a sandbox that goes away: the one that was given, or one after the time.
pub fn run_name(name: Option<String>, millis: u128) -> (r: String)
    ensures
        r@ == match name {
            Some(n) => n@,
            None => "run-"@ + text::hexadecimal(millis as nat),
        },
{
    match name {
        Some(n) => n,
        None => "run-".to_owned().concat(uuid_simple(millis).as_str()),
    }
}

/// What the command line leaves open stays as the policy file has it, and what it sets is set:
/// nothing else of the file's policy changes, and only a policy without a fault is launched.
pub proof fn law_unset_options_keep_the_policy(
    base: SandboxPolicy,
    o: Overrides,
    policy: SandboxPolicy,
)
    requires
        asked_for(Some(Ok(base)), o, policy),
    ensures
        o.mechanism is None ==> policy.mechanism == base.mechanism,
        o.cpus is None ==> policy.resources.cpus == base.resources.cpus,
        o.memory is None ==> policy.resources.memory == base.resources.memory,
        o.mechanism is Some ==> policy.mechanism == o.mechanism,
        o.cpus is Some ==> policy.resources.cpus == o.cpus->0,
        o.memory is Some ==> policy.resources.memory == o.memory->0,
        policy.version == base.version,
        policy.filesystem == base.filesystem,
        policy.network == base.network,
        policy.secrets == base.secrets,
        policy.fault() is None,
{
}

/// Without a policy file, what the command line leaves open is what the restrictive policy has.
pub proof fn law_without_a_file_the_restrictive_policy_holds(o: Overrides, policy: SandboxPolicy)
    requires
        asked_for(None, o, policy),
    ensures
        exists|base: SandboxPolicy| #[trigger]
            base.is_restrictive() && {
                &&& o.mechanism is None ==> policy.mechanism == base.mechanism
                &&& o.cpus is None ==> policy.resources.cpus == base.resources.cpus
                &&& o.memory is None ==> policy.resources.memory == base.resources.memory
                &&& policy.version == base.version
                &&& policy.filesystem == base.filesystem
                &&& policy.network == base.network
                &&& policy.secrets == base.secrets
            },
        policy.fault() is None,
{
    let base = choose|base: SandboxPolicy| #[trigger]
        starts_from(None, base) && policy == overridden(base, o);
    assert(base.is_restrictive());
}

/// The policy of a file with what the command line sets is what is asked for where it has no fault,
/// and is refused with its fault where it has one.
pub proof fn law_policy_of_a_file_is_asked_for_or_refused(
    base: SandboxPolicy,
    o: Overrides,
    policy: SandboxPolicy,
    error: PolicyErrorView,
)
    requires
        policy.version == base.version,
        policy.filesystem == base.filesystem,
        policy.network == base.network,
        policy.secrets == base.secrets,
        policy.mechanism == if o.mechanism is Some {
            o.mechanism
        } else {
            base.mechanism
        },
        policy.resources.cpus == if o.cpus is Some {
            o.cpus->0
        } else {
            base.resources.cpus
        },
        policy.resources.memory == if o.memory is Some {
            o.memory->0
        } else {
            base.resources.memory
        },
    ensures
        asked_for(Some(Ok(base)), o, policy) <==> policy.fault() is None,
        cannot_load(Some(Ok(base)), o, error) <==> policy.fault() == Some(error),
{
    assert(starts_from(Some(Ok(base)), base));
    assert(policy == overridden(base, o));
}

/// A file that does not load is refused with its own error, whatever the command line sets.
pub proof fn law_file_that_does_not_load_is_refused(
    e: PolicyError,
    o: Overrides,
    policy: SandboxPolicy,
    error: PolicyErrorView,
)
    ensures
        !asked_for(Some(Err(e)), o, policy),
        cannot_load(Some(Err(e)), o, error) <==> error == e@,
{
}

/// The engine answers exactly where some check of the report is named `runtime-engine` and passed.
pub proof fn law_engine_answers_by_its_check(items: Seq<DoctorItem>)
    ensures
        engine_answers(items) <==> exists|i: int|
            0 <= i < items.len() && (#[trigger] items[i]).name@ == "runtime-engine"@ && items[i].ok,
{
    if exists|i: int|
        0 <= i < items.len() && (#[trigger] items[i]).name@ == "runtime-engine"@ && items[i].ok {
        let i = choose|i: int|
            0 <= i < items.len() && (#[trigger] items[i]).name@ == "runtime-engine"@ && items[i].ok;
        assert(says_ready(items[i]));
    }
    if engine_answers(items) {
        let i = choose|i: int| 0 <= i < items.len() && #[trigger] says_ready(items[i]);
        assert(items[i].name@ == "runtime-engine"@ && items[i].ok);
    }
}

/// A backend that is no container is the one that runs, and so is a container off macOS. On macOS
/// a command that runs once goes to Seatbelt only where a report has no `runtime-engine` check that
/// passed, and to the container only where one has.
pub proof fn law_backend_for_a_command<D: Fn() -> Vec<DoctorItem>>(
    kind: MechanismKind,
    os: HostOs,
    doctor: D,
    picked: MechanismKind,
)
    requires
        prefers(kind, os, doctor, picked),
    ensures
        mechanism::resolved_mechanism(kind, os) != MechanismKind::Podman ==> picked
            == mechanism::resolved_mechanism(kind, os),
        mechanism::resolved_mechanism(kind, os) == MechanismKind::Podman && os != HostOs::MacOs
            ==> picked == MechanismKind::Podman,
        mechanism::resolved_mechanism(kind, os) == MechanismKind::Podman ==> picked
            == MechanismKind::Podman || picked == MechanismKind::Mac,
        mechanism::resolved_mechanism(kind, os) == MechanismKind::Podman && picked
            == MechanismKind::Mac ==> exists|items: Vec<DoctorItem>| #[trigger]
            call_ensures(doctor, (), items) && forall|i: int|
                0 <= i < items@.len() ==> (#[trigger] items@[i]).name@ != "runtime-engine"@
                    || !items@[i].ok,
        mechanism::resolved_mechanism(kind, os) == MechanismKind::Podman && os == HostOs::MacOs
            && picked == MechanismKind::Podman ==> exists|items: Vec<DoctorItem>, i: int|
            #![trigger call_ensures(doctor, (), items), items@[i]]
            call_ensures(doctor, (), items) && 0 <= i < items@.len() && items@[i].name@
                == "runtime-engine"@ && items@[i].ok,
{
    if mechanism::resolved_mechanism(kind, os) == MechanismKind::Podman {
        let items = choose|items: Vec<DoctorItem>| #[trigger]
            call_ensures(doctor, (), items) && picked == if !engine_answers(items@) && os
                == HostOs::MacOs {
                MechanismKind::Mac
            } else {
                MechanismKind::Podman
            };
        assert(call_ensures(doctor, (), items));
        if engine_answers(items@) {
            let i = choose|i: int| 0 <= i < items@.len() && #[trigger] says_ready(items@[i]);
            assert(items@[i].name@ == "runtime-engine"@ && items@[i].ok);
        } else {
            assert forall|i: int| 0 <= i < items@.len() implies (#[trigger] items@[i]).name@
                != "runtime-engine"@ || !items@[i].ok by {
                assert(!says_ready(items@[i]));
            }
        }
    }
}

/// A sandbox that stays runs in the backend that its policy stands for; a command that runs once,
/// in the one that is there. The rest of the policy is the one that was asked for.
pub proof fn law_launch_keeps_the_policy<D: Fn() -> Vec<DoctorItem>>(
    base: SandboxPolicy,
    o: Overrides,
    os: HostOs,
    ephemeral: bool,
    doctor: D,
    policy: SandboxPolicy,
    kind: MechanismKind,
)
    requires
        settles_on(Some(Ok(base)), o, os, ephemeral, doctor, policy, kind),
    ensures
        o.cpus is None ==> policy.resources.cpus == base.resources.cpus,
        o.cpus is Some ==> policy.resources.cpus == o.cpus->0,
        o.memory is None ==> policy.resources.memory == base.resources.memory,
        o.memory is Some ==> policy.resources.memory == o.memory->0,
        policy.version == base.version,
        policy.filesystem == base.filesystem,
        policy.network == base.network,
        policy.secrets == base.secrets,
        policy.mechanism == Some(kind),
        ({
            let wanted = if o.mechanism is Some {
                o.mechanism->0
            } else if base.mechanism is Some {
                base.mechanism->0
            } else {
                MechanismKind::Auto
            };
            &&& !ephemeral ==> kind == mechanism::resolved_mechanism(wanted, os)
            &&& ephemeral ==> prefers(wanted, os, doctor, kind)
        }),
{
}

/// A launch passes exactly where the policy has no fault and the allocator can grant the claim on
/// memory and the claim on processors.
pub proof fn law_launch_needs_both_claims<A: Fn(PoolClaim) -> Result<(), String>>(
    policy: SandboxPolicy,
    host: HostCapacity,
    allocate: A,
)
    ensures
        passes(policy, host, allocate) <==> {
            &&& policy.fault() is None
            &&& exists|reply: Result<(), String>| #[trigger]
                call_ensures(allocate, (policy::memory_claim(policy, host),), reply) && reply is Ok
            &&& exists|reply: Result<(), String>| #[trigger]
                call_ensures(allocate, (policy::cpu_claim(policy, host),), reply) && reply is Ok
        },
{
}

/// A launch that is refused for want of resources gives the words of the allocator: of its refusal
/// of the memory, or, with the memory granted, of its refusal of the processors.
pub proof fn law_refused_claim_is_reported<A: Fn(PoolClaim) -> Result<(), String>>(
    policy: SandboxPolicy,
    host: HostCapacity,
    allocate: A,
    error: PolicyErrorView,
)
    requires
        cannot_pass(policy, host, allocate, error),
    ensures
        policy.fault() is None,
        error is Preflight,
        ({
            ||| exists|reply: Result<(), String>| #[trigger]
                call_ensures(allocate, (policy::memory_claim(policy, host),), reply) && reply is Err
                    && reply->Err_0@ == error->Preflight_0
            ||| policy::grants(allocate, policy::memory_claim(policy, host))
                && exists|reply: Result<(), String>| #[trigger]
                call_ensures(allocate, (policy::cpu_claim(policy, host),), reply) && reply is Err
                    && reply->Err_0@ == error->Preflight_0
        }),
{
}

/// A refusal of a claim of a policy without a fault is reported: of the memory at once, of the
/// processors where the memory is granted.
pub proof fn law_claim_can_be_refused<A: Fn(PoolClaim) -> Result<(), String>>(
    policy: SandboxPolicy,
    host: HostCapacity,
    allocate: A,
    words: String,
)
    requires
        policy.fault() is None,
    ensures
        call_ensures(allocate, (policy::memory_claim(policy, host),), Err(words)) ==> cannot_pass(
            policy,
            host,
            allocate,
            PolicyErrorView::Preflight(words@),
        ),
        policy::grants(allocate, policy::memory_claim(policy, host)) && call_ensures(
            allocate,
            (policy::cpu_claim(policy, host),),
            Err(words),
        ) ==> cannot_pass(policy, host, allocate, PolicyErrorView::Preflight(words@)),
{
    let reply = Err::<(), String>(words);
    assert(reply is Err);
}

/// The proxy allows every endpoint of the policy under its host and port, and nothing else.
pub proof fn law_proxy_allows_the_endpoints(endpoints: Seq<NetworkEndpoint>, key: Seq<char>)
    ensures
        policy_keys(endpoints).contains(key) <==> exists|i: int|
            0 <= i < endpoints.len() && key == text::lower((#[trigger] endpoints[i]).host@)
                + ":"@ + text::decimal(endpoints[i].port as nat),
{
    assert forall|i: int| 0 <= i < endpoints.len() implies policy::endpoint_key(
        (#[trigger] endpoints[i]).host@,
        endpoints[i].port as nat,
    ) == text::lower(endpoints[i].host@) + ":"@ + text::decimal(endpoints[i].port as nat) by {
        policy::law_key_is_host_and_port(endpoints[i].host@, endpoints[i].port as nat);
    }
}

/// A sandbox that stays has the name that was given, or `default`.
pub proof fn law_name_of_a_kept_sandbox(name: Seq<char>)
    ensures
        kept_name(Some(name)) == name,
        kept_name(None) == "default"@,
{
}

/// A command that runs once has the name that was given, or the time in hexadecimal behind `run-`.
pub proof fn law_name_of_a_command(name: String, millis: u128, r: String)
    ensures
        call_ensures(run_name, (Some(name), millis), r) ==> r@ == name@,
        call_ensures(run_name, (None, millis), r) ==> r@ == "run-"@ + text::hexadecimal(
            millis as nat,
        ),
        call_ensures(uuid_simple, (millis,), r) ==> r@ == text::hexadecimal(millis as nat),
        call_ensures(create_name, (Some(name),), r) ==> r@ == name@,
        call_ensures(create_name, (None,), r) ==> r@ == "default"@,
{
}

/// What loading a policy answers for the policy of a file: the file's own policy with what the
/// command line sets, and all else as the file has it, or its fault.
pub proof fn law_loaded_policy_is_the_file_with_what_is_set(
    base: SandboxPolicy,
    o: Overrides,
    r: Result<SandboxPolicy, PolicyError>,
)
    requires
        call_ensures(load_policy, (Some(Ok(base)), o), r),
    ensures
        r matches Ok(policy) ==> {
            &&& policy.mechanism == if o.mechanism is Some {
                o.mechanism
            } else {
                base.mechanism
            }
            &&& policy.resources.cpus == if o.cpus is Some {
                o.cpus->0
            } else {
                base.resources.cpus
            }
            &&& policy.resources.memory == if o.memory is Some {
                o.memory->0
            } else {
                base.resources.memory
            }
            &&& policy.version == base.version
            &&& policy.filesystem == base.filesystem
            &&& policy.network == base.network
            &&& policy.secrets == base.secrets
            &&& policy.fault() is None
        },
        o.mechanism is None && o.cpus is None && o.memory is None ==> {
            &&& r is Ok <==> base.fault() is None
            &&& r is Ok ==> r->Ok_0 == base
            &&& r is Err ==> base.fault() == Some(r->Err_0@)
        },
{
    if r is Err {
        let b = choose|b: SandboxPolicy| #[trigger]
            starts_from(Some(Ok(base)), b) && overridden(b, o).fault() == Some(r->Err_0@);
        assert(b == base);
    }
}

} // verus!
