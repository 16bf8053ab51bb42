//! Sandbox policies: what a sandbox may read, write, reach and use.

use vstd::prelude::*;

use crate::paths;
use crate::text::{self, decimal_text, lower_text, parse_unsigned, push_string, same_text};

verus! {

/// Errors loading or validating a sandbox policy.
#[derive(Debug, Clone, PartialEq, Eq)]
pub enum PolicyError {
    Io(String),
    Yaml(String),
    Invalid(String),
    Preflight(String),
}

/// A policy error with its text as characters.
pub enum PolicyErrorView {
    Io(Seq<char>),
    Yaml(Seq<char>),
    Invalid(Seq<char>),
    Preflight(Seq<char>),
}

impl View for PolicyError {
    type V = PolicyErrorView;

    open spec fn view(&self) -> PolicyErrorView {
        match *self {
            PolicyError::Io(m) => PolicyErrorView::Io(m@),
            PolicyError::Yaml(m) => PolicyErrorView::Yaml(m@),
            PolicyError::Invalid(m) => PolicyErrorView::Invalid(m@),
            PolicyError::Preflight(m) => PolicyErrorView::Preflight(m@),
        }
    }
}

impl PolicyErrorView {
    /// The sentence that a user reads.
    pub open spec fn message(self) -> Seq<char> {
        match self {
            PolicyErrorView::Io(m) => "io error: "@ + m,
            PolicyErrorView::Yaml(m) => "yaml parse error: "@ + m,
            PolicyErrorView::Invalid(m) => "invalid policy: "@ + m,
            PolicyErrorView::Preflight(m) => "resource preflight failed: "@ + m,
        }
    }
}

impl PolicyError {
    /// The sentence that a user reads.
    pub fn message(&self) -> (r: String)
        ensures
            r@ == self@.message(),
    {
        match self {
            PolicyError::Io(m) => "io error: ".to_owned().concat(m.as_str()),
            PolicyError::Yaml(m) => "yaml parse error: ".to_owned().concat(m.as_str()),
            PolicyError::Invalid(m) => "invalid policy: ".to_owned().concat(m.as_str()),
            PolicyError::Preflight(m) => "resource preflight failed: ".to_owned().concat(
                m.as_str(),
            ),
        }
    }
}

/// Filesystem allowlists.
#[derive(Debug, Clone, PartialEq, Eq)]
pub struct FilesystemPolicy {
    /// Bind the host working directory as `/workspace` (or equivalent).
    pub workdir: bool,
    pub read_only: Vec<String>,
    pub read_write: Vec<String>,
}

/// Whether a policy that says nothing of the working directory binds it.
pub fn default_true() -> (r: bool)
    ensures
        r,
{
    true
}

impl Default for FilesystemPolicy {
    fn default() -> (r: Self)
        ensures
            r.workdir,
            r.read_only@.len() == 0,
            text::texts(r.read_write@) == seq!["/workspace"@, "/tmp"@],
    {
        let mut read_write: Vec<String> = Vec::new();
        push_string(&mut read_write, "/workspace".to_owned());
        push_string(&mut read_write, "/tmp".to_owned());
        proof {
            assert(text::texts(read_write@) =~= seq!["/workspace"@, "/tmp"@]);
        }
        FilesystemPolicy { workdir: default_true(), read_only: Vec::new(), read_write }
    }
}

/// What of the network a sandbox reaches.
#[derive(Debug, Clone, Copy, PartialEq, Eq, Structural)]
pub enum NetworkMode {
    /// No network access (default).
    NoNetwork,
    /// Only listed endpoints via the userspace proxy.
    Allowlist,
    /// Unrestricted host networking.
    Unrestricted,
}

impl Default for NetworkMode {
    fn default() -> (r: Self)
        ensures
            r == NetworkMode::NoNetwork,
    {
        NetworkMode::NoNetwork
    }
}

/// A host and a port.
#[derive(Debug, Clone, PartialEq, Eq)]
pub struct NetworkEndpoint {
    pub host: String,
    pub port: u16,
}

/// The port of an endpoint that names none.
pub fn default_https_port() -> (r: u16)
    ensures
        r == 443,
{
    443
}

/// The text that stands for a host and a port: the host in lower case, a colon, the port.
pub open spec fn endpoint_key(host: Seq<char>, port: nat) -> Seq<char> {
    text::lower(host).push(':') + text::decimal(port)
}

/// The key of a host and a port.
pub fn key_of(host: &str, port: u16) -> (r: String)
    ensures
        r@ == endpoint_key(host@, port as nat),
{
    let mut out = lower_text(host);
    out.push(':');
    out.append(decimal_text(port as u64).as_str());
    out
}

impl NetworkEndpoint {
    /// The key of this endpoint.
    pub fn key(&self) -> (r: String)
        ensures
            r@ == endpoint_key(self.host@, self.port as nat),
    {
        key_of(self.host.as_str(), self.port)
    }
}

/// Network policy. Default is deny-all (`none`).
#[derive(Debug, Clone, PartialEq, Eq)]
pub struct NetworkPolicy {
    pub mode: NetworkMode,
    pub endpoints: Vec<NetworkEndpoint>,
}

impl Default for NetworkPolicy {
    fn default() -> (r: Self)
        ensures
            r.mode == NetworkMode::NoNetwork,
            r.endpoints@.len() == 0,
    {
        NetworkPolicy { mode: NetworkMode::NoNetwork, endpoints: Vec::new() }
    }
}

/// A fractional number of CPUs, by what the rules read of it: `is_one_number` says how the fields
/// belong together.
#[derive(Debug, Clone, PartialEq, Eq)]
pub struct CpuLimit {
    /// The number as it is written on a command line.
    pub text: String,
    /// Whether the number is zero or less.
    pub zero_or_less: bool,
    /// Thousandths of a CPU, rounded to the nearest.
    pub millicores: u64,
    /// The CPU seconds of one hour on that many CPUs, rounded up.
    pub hour_seconds: u64,
}

impl CpuLimit {
    /// Whether the fields speak of one number: it is zero or less exactly where it is written as
    /// `0` or with a minus sign, and then it claims no thousandth of a CPU and no CPU second.
    pub open spec fn is_one_number(self) -> bool {
        &&& self.zero_or_less == (self.text@ == "0"@ || (self.text@.len() > 0 && self.text@[0]
            == '-'))
        &&& self.zero_or_less ==> self.millicores == 0 && self.hour_seconds == 0
    }
}

/// CPU and memory limits.
#[derive(Debug, Clone, PartialEq, Eq)]
pub struct ResourcePolicy {
    pub cpus: CpuLimit,
    /// Human size like `2G`, `512M`, or raw bytes.
    pub memory: String,
}

/// The CPU limit of a policy that names none: two CPUs.
pub fn default_cpus() -> (r: CpuLimit)
    ensures
        r.text@ == "2"@,
        !r.zero_or_less,
        r.millicores == 2000,
        r.hour_seconds == 7200,
        r.is_one_number(),
{
    proof {
        reveal_strlit("2");
        reveal_strlit("0");
        assert("2"@[0] != "0"@[0]);
    }
    CpuLimit { text: "2".to_owned(), zero_or_less: false, millicores: 2000, hour_seconds: 7200 }
}

/// The memory limit of a policy that names none.
pub fn default_memory() -> (r: String)
    ensures
        r@ == "2G"@,
{
    "2G".to_owned()
}

impl Default for ResourcePolicy {
    fn default() -> (r: Self)
        ensures
            r.cpus.text@ == "2"@,
            !r.cpus.zero_or_less,
            r.cpus.millicores == 2000,
            r.cpus.hour_seconds == 7200,
            r.cpus.is_one_number(),
            r.memory@ == "2G"@,
    {
        ResourcePolicy { cpus: default_cpus(), memory: default_memory() }
    }
}

/// The bytes that a size unit stands for.
pub open spec fn unit_bytes(c: char) -> Option<nat> {
    if c == 'K' || c == 'k' {
        Some(1024)
    } else if c == 'M' || c == 'm' {
        Some(1024 * 1024)
    } else if c == 'G' || c == 'g' {
        Some(1024 * 1024 * 1024)
    } else if c == 'T' || c == 't' {
        Some(1024 * 1024 * 1024 * 1024)
    } else {
        None
    }
}

/// The number part of a size and the factor of its unit.
pub open spec fn size_split(t: Seq<char>) -> (Seq<char>, nat) {
    match unit_bytes(t.last()) {
        Some(factor) => (t.drop_last(), factor),
        None => (t, 1),
    }
}

/// The bytes that a size like `2G`, `512M`, `1024K` or `100` stands for.
pub open spec fn size_value(s: Seq<char>) -> Result<nat, PolicyErrorView> {
    let t = text::trim(s);
    let (number, factor) = size_split(t);
    if t.len() == 0 {
        Err(PolicyErrorView::Invalid("empty memory size"@))
    } else {
        match text::unsigned_value(number, u64::MAX as nat) {
            None => Err(PolicyErrorView::Invalid("invalid memory size '"@ + t + "'"@)),
            Some(v) => if v * factor <= u64::MAX {
                Ok(v * factor)
            } else {
                Err(PolicyErrorView::Invalid("memory size overflow '"@ + t + "'"@))
            },
        }
    }
}

/// Parses sizes like `2G`, `512M`, `1024K`, `100` (bytes).
pub fn parse_size(s: &str) -> (r: Result<u64, PolicyError>)
    ensures
        match size_value(s@) {
            Ok(v) => r is Ok && r->Ok_0 as nat == v,
            Err(e) => r is Err && r->Err_0@ == e,
        },
{
    let trimmed = text::trim_text(s);
    let chars = text::chars_of(trimmed.as_str());
    if chars.len() == 0 {
        return Err(PolicyError::Invalid("empty memory size".to_owned()));
    }
    let n: usize = chars.len();
    let last: char = chars[n - 1];
    let factor: u64 = if last == 'K' || last == 'k' {
        1024
    } else if last == 'M' || last == 'm' {
        1024 * 1024
    } else if last == 'G' || last == 'g' {
        1024 * 1024 * 1024
    } else if last == 'T' || last == 't' {
        1024 * 1024 * 1024 * 1024
    } else {
        1
    };
    let number = text::text_of(&chars, 0, if factor == 1 { n } else { n - 1 });
    proof {
        let t = text::trim(s@);
        assert(t == chars@);
        assert(number@ =~= size_split(t).0);
        assert(factor as nat == size_split(t).1);
    }
    match parse_unsigned(number.as_str(), u64::MAX) {
        None => Err(
            PolicyError::Invalid(
                "invalid memory size '".to_owned().concat(trimmed.as_str()).concat("'"),
            ),
        ),
        Some(v) => match v.checked_mul(factor) {
            Some(bytes) => Ok(bytes),
            None => Err(
                PolicyError::Invalid(
                    "memory size overflow '".to_owned().concat(trimmed.as_str()).concat("'"),
                ),
            ),
        },
    }
}

impl ResourcePolicy {
    /// The memory limit in bytes.
    pub fn memory_bytes(&self) -> (r: Result<u64, PolicyError>)
        ensures
            match size_value(self.memory@) {
                Ok(v) => r is Ok && r->Ok_0 as nat == v,
                Err(e) => r is Err && r->Err_0@ == e,
            },
    {
        parse_size(self.memory.as_str())
    }

    /// The CPU limit in thousandths of a CPU.
    pub fn millicores(&self) -> (r: u64)
        ensures
            r == self.cpus.millicores,
    {
        self.cpus.millicores
    }
}

/// Which backend to use.
#[derive(Debug, Clone, Copy, PartialEq, Eq, Structural)]
pub enum MechanismKind {
    Podman,
    Mac,
    Krun,
    /// Pick based on host OS / availability.
    Auto,
}

impl Default for MechanismKind {
    fn default() -> (r: Self)
        ensures
            r == MechanismKind::Auto,
    {
        MechanismKind::Auto
    }
}

impl MechanismKind {
    /// The name of a backend.
    pub open spec fn name(self) -> Seq<char> {
        match self {
            MechanismKind::Podman => "podman"@,
            MechanismKind::Mac => "mac"@,
            MechanismKind::Krun => "krun"@,
            MechanismKind::Auto => "auto"@,
        }
    }

    /// The backend that a name stands for, in any case.
    pub open spec fn named(s: Seq<char>) -> Option<MechanismKind> {
        let l = text::lower(s);
        if l == "podman"@ || l == "linux"@ || l == "linux_podman"@ {
            Some(MechanismKind::Podman)
        } else if l == "mac"@ || l == "macos"@ || l == "seatbelt"@ || l == "mac_seatbelt"@ {
            Some(MechanismKind::Mac)
        } else if l == "krun"@ || l == "libkrun"@ || l == "linux_libkrun"@ {
            Some(MechanismKind::Krun)
        } else if l == "auto"@ {
            Some(MechanismKind::Auto)
        } else {
            None
        }
    }

    /// The name of this backend.
    pub fn as_str(&self) -> (r: &'static str)
        ensures
            r@ == self.name(),
    {
        match self {
            MechanismKind::Podman => "podman",
            MechanismKind::Mac => "mac",
            MechanismKind::Krun => "krun",
            MechanismKind::Auto => "auto",
        }
    }

    /// The backend that `s` names.
    pub fn from_str(s: &str) -> (r: Result<Self, PolicyError>)
        ensures
            match MechanismKind::named(s@) {
                Some(kind) => r == Ok::<MechanismKind, PolicyError>(kind),
                None => r is Err && r->Err_0@ == PolicyErrorView::Invalid(
                    "unknown mechanism '"@ + text::lower(s@)
                        + "' (expected podman|mac|krun|auto)"@,
                ),
            },
    {
        let name = lower_text(s);
        let l: &str = name.as_str();
        if same_text(l, "podman") || same_text(l, "linux") || same_text(l, "linux_podman") {
            Ok(MechanismKind::Podman)
        } else if same_text(l, "mac") || same_text(l, "macos") || same_text(l, "seatbelt")
            || same_text(l, "mac_seatbelt") {
            Ok(MechanismKind::Mac)
        } else if same_text(l, "krun") || same_text(l, "libkrun") || same_text(l, "linux_libkrun") {
            Ok(MechanismKind::Krun)
        } else if same_text(l, "auto") {
            Ok(MechanismKind::Auto)
        } else {
            Err(
                PolicyError::Invalid(
                    "unknown mechanism '".to_owned().concat(l).concat(
                        "' (expected podman|mac|krun|auto)",
                    ),
                ),
            )
        }
    }
}

/// Reference to a secret injected as an environment variable.
#[derive(Debug, Clone, PartialEq, Eq)]
pub struct SecretRef {
    /// Environment variable name inside the sandbox.
    pub env: String,
    /// Source: `env:NAME` (host env) or `file:PATH` or `value:` (literal, discouraged).
    pub from: String,
}

/// Top-level sandbox policy (mechanism-agnostic).
#[derive(Debug, Clone, PartialEq, Eq)]
pub struct SandboxPolicy {
    pub version: u32,
    pub filesystem: FilesystemPolicy,
    pub network: NetworkPolicy,
    pub resources: ResourcePolicy,
    pub mechanism: Option<MechanismKind>,
    /// Named secrets to inject as environment variables (resolved by supervisor).
    pub secrets: Vec<SecretRef>,
}

impl Default for SandboxPolicy {
    fn default() -> (r: Self)
        ensures
            r.is_restrictive(),
            r.resources.cpus.is_one_number(),
            r.fault() is None,
    {
        proof {
            lemma_default_size();
        }
        SandboxPolicy {
            version: 1,
            filesystem: FilesystemPolicy::default(),
            network: NetworkPolicy::default(),
            resources: ResourcePolicy::default(),
            mechanism: None,
            secrets: Vec::new(),
        }
    }
}

impl SandboxPolicy {
    /// The default policy: the working directory is bound, `/workspace` and `/tmp` are writable,
    /// there is no network, two CPUs, two gibibytes of memory and no secret.
    pub open spec fn is_restrictive(self) -> bool {
        &&& self.version == 1
        &&& self.filesystem.workdir
        &&& self.filesystem.read_only@.len() == 0
        &&& text::texts(self.filesystem.read_write@) == seq!["/workspace"@, "/tmp"@]
        &&& self.network.mode == NetworkMode::NoNetwork
        &&& self.network.endpoints@.len() == 0
        &&& self.resources.cpus.text@ == "2"@
        &&& !self.resources.cpus.zero_or_less
        &&& self.resources.cpus.millicores == 2000
        &&& self.resources.cpus.hour_seconds == 7200
        &&& self.resources.memory@ == "2G"@
        &&& self.mechanism is None
        &&& self.secrets@.len() == 0
    }

    /// Whether some secret lacks its variable name or its source.
    pub open spec fn has_unnamed_secret(self) -> bool {
        exists|i: int|
            0 <= i < self.secrets@.len() && (self.secrets@[i].env@.len() == 0
                || self.secrets@[i].from@.len() == 0)
    }

    /// The first rule that the policy breaks, if it breaks one.
    pub open spec fn fault(self) -> Option<PolicyErrorView> {
        if self.version != 1 {
            Some(
                PolicyErrorView::Invalid(
                    "unsupported policy version "@ + text::decimal(self.version as nat),
                ),
            )
        } else if self.resources.cpus.zero_or_less {
            Some(PolicyErrorView::Invalid("resources.cpus must be > 0"@))
        } else if size_value(self.resources.memory@) is Err {
            Some(size_value(self.resources.memory@)->Err_0)
        } else if self.network.mode == NetworkMode::Allowlist && self.network.endpoints@.len()
            == 0 {
            Some(
                PolicyErrorView::Invalid("network.mode=allowlist requires at least one endpoint"@),
            )
        } else if self.has_unnamed_secret() {
            Some(PolicyErrorView::Invalid("secrets entries need non-empty env and from"@))
        } else {
            None
        }
    }

    /// Checks the rules in order and reports the first that the policy breaks.
    pub fn validate(&self) -> (r: Result<(), PolicyError>)
        ensures
            match self.fault() {
                None => r is Ok,
                Some(e) => r is Err && r->Err_0@ == e,
            },
    {
        if self.version != 1 {
            return Err(
                PolicyError::Invalid(
                    "unsupported policy version ".to_owned().concat(
                        decimal_text(self.version as u64).as_str(),
                    ),
                ),
            );
        }
        if self.resources.cpus.zero_or_less {
            return Err(PolicyError::Invalid("resources.cpus must be > 0".to_owned()));
        }
        match self.resources.memory_bytes() {
            Ok(_) => {},
            Err(e) => {
                return Err(e);
            },
        }
        if self.network.mode == NetworkMode::Allowlist && self.network.endpoints.len() == 0 {
            return Err(
                PolicyError::Invalid(
                    "network.mode=allowlist requires at least one endpoint".to_owned(),
                ),
            );
        }
        let mut i: usize = 0;
        while i < self.secrets.len()
            invariant
                i <= self.secrets@.len(),
                forall|k: int|
                    0 <= k < i ==> (#[trigger] self.secrets@[k]).env@.len() > 0
                        && self.secrets@[k].from@.len() > 0,
                self.version == 1,
                !self.resources.cpus.zero_or_less,
                size_value(self.resources.memory@) is Ok,
                !(self.network.mode == NetworkMode::Allowlist && self.network.endpoints@.len()
                    == 0),
            decreases self.secrets@.len() - i,
        {
            if self.secrets[i].env.as_str().is_empty() || self.secrets[i].from.as_str().is_empty() {
                proof {
                    assert(self.secrets@[i as int].env@.len() == 0
                        || self.secrets@[i as int].from@.len() == 0);
                    assert(self.has_unnamed_secret());
                }
                return Err(
                    PolicyError::Invalid("secrets entries need non-empty env and from".to_owned()),
                );
            }
            i += 1;
        }
        Ok(())
    }

    /// Accepts what a parser made of a policy file: the policy, if the text parsed and the policy
    /// breaks no rule.
    pub fn check_parsed(parsed: Result<SandboxPolicy, String>) -> (r: Result<
        SandboxPolicy,
        PolicyError,
    >)
        ensures
            match parsed {
                Err(m) => r == Err::<SandboxPolicy, PolicyError>(PolicyError::Yaml(m)),
                Ok(policy) => match policy.fault() {
                    None => r == Ok::<SandboxPolicy, PolicyError>(policy),
                    Some(e) => r is Err && r->Err_0@ == e,
                },
            },
    {
        match parsed {
            Err(m) => Err(PolicyError::Yaml(m)),
            Ok(policy) => match policy.validate() {
                Ok(()) => Ok(policy),
                Err(e) => Err(e),
            },
        }
    }

    /// Content hash for change detection, of the policy as it is written to disk.
    pub fn content_hash(written: Result<String, PolicyError>) -> (r: Result<String, PolicyError>)
        ensures
            match written {
                Ok(yaml) => {
                    &&& r is Ok
                    &&& r->Ok_0@ == crate::digest::text_hash(yaml@)
                    &&& r->Ok_0@.len() == 64
                },
                Err(e) => r == Err::<String, PolicyError>(e),
            },
    {
        match written {
            Ok(yaml) => Ok(crate::digest::hash_text(yaml.as_str())),
            Err(e) => Err(e),
        }
    }

    /// The backend that the policy names, or `Auto`.
    pub open spec fn wanted_mechanism(self) -> MechanismKind {
        match self.mechanism {
            Some(kind) => kind,
            None => MechanismKind::Auto,
        }
    }

    /// Effective mechanism (Auto left as Auto for callers to resolve).
    pub fn mechanism_or_auto(&self) -> (r: MechanismKind)
        ensures
            r == self.wanted_mechanism(),
    {
        match self.mechanism {
            Some(kind) => kind,
            None => MechanismKind::Auto,
        }
    }

    /// Restrictive default: workdir RW, no network, 2 CPU / 2G.
    pub fn restrictive_default() -> (r: Self)
        ensures
            r.is_restrictive(),
            r.resources.cpus.is_one_number(),
            r.fault() is None,
    {
        SandboxPolicy::default()
    }
}

/// Digits are not white space, so trimming leaves a text that they start and end.
proof fn lemma_trim_keeps(s: Seq<char>)
    requires
        s.len() > 0,
        !text::is_white(s[0]),
        !text::is_white(s.last()),
    ensures
        text::trim(s) == s,
{
}

/// A number in decimal, with or without a unit, is the size of that many bytes or units; it
/// overflows exactly where the bytes do not fit in 64 bits.
pub proof fn law_size_reads_decimal(n: u64, unit: Option<char>)
    requires
        unit is Some ==> unit_bytes(unit->0) is Some,
    ensures
        ({
            let s = match unit {
                Some(c) => text::decimal(n as nat).push(c),
                None => text::decimal(n as nat),
            };
            let factor = match unit {
                Some(c) => unit_bytes(c)->0,
                None => 1,
            };
            if n * factor <= u64::MAX {
                size_value(s) == Ok::<nat, PolicyErrorView>((n * factor) as nat)
            } else {
                size_value(s) == Err::<nat, PolicyErrorView>(
                    PolicyErrorView::Invalid("memory size overflow '"@ + s + "'"@),
                )
            }
        }),
{
    let d = text::decimal(n as nat);
    text::lemma_decimal_reads_back(n as nat);
    assert(text::is_digit(d[0]));
    assert(text::is_digit(d.last()));
    let s = match unit {
        Some(c) => d.push(c),
        None => d,
    };
    assert(s[0] == d[0]);
    lemma_trim_keeps(s);
    assert(unit_bytes(d.last()) is None);
    assert(size_split(s).0 =~= d);
    assert(text::without_plus(d) == d);
}

/// A policy that writes `0` or a negative number of CPUs is refused for it.
pub proof fn law_no_cpus_is_refused(policy: SandboxPolicy)
    requires
        policy.version == 1,
        policy.resources.cpus.is_one_number(),
        policy.resources.cpus.text@ == "0"@ || (policy.resources.cpus.text@.len() > 0
            && policy.resources.cpus.text@[0] == '-'),
    ensures
        policy.fault() == Some(PolicyErrorView::Invalid("resources.cpus must be > 0"@)),
{
}

/// The size `2G` is two gibibytes.
proof fn lemma_default_size()
    ensures
        size_value("2G"@) == Ok::<nat, PolicyErrorView>(2 * 1024 * 1024 * 1024),
{
    reveal_strlit("2G");
    law_size_reads_decimal(2, Some('G'));
    assert("2G"@ =~= text::decimal(2).push('G'));
}

/// The name of a backend names that backend.
pub proof fn law_mechanism_name_reads_back(kind: MechanismKind)
    ensures
        MechanismKind::named(kind.name()) == Some(kind),
{
    reveal_strlit("podman");
    reveal_strlit("linux");
    reveal_strlit("linux_podman");
    reveal_strlit("mac");
    reveal_strlit("macos");
    reveal_strlit("seatbelt");
    reveal_strlit("mac_seatbelt");
    reveal_strlit("krun");
    reveal_strlit("libkrun");
    reveal_strlit("linux_libkrun");
    reveal_strlit("auto");
    assert(text::lower(kind.name()) =~= kind.name());
    assert("krun"@[0] != "podman"@[0]);
    assert("krun"@[0] != "auto"@[0]);
    assert("auto"@[0] != "mac"@[0]);
}

/// Backends are named in any case.
pub proof fn law_mechanism_name_any_case(s: Seq<char>)
    ensures
        MechanismKind::named(text::lower(s)) == MechanismKind::named(s),
{
    text::lemma_lower_idempotent(s);
}

/// The last colon of a key stands before the port.
proof fn lemma_key_last_colon(host: Seq<char>, port: nat)
    ensures
        ({
            let k = endpoint_key(host, port);
            let n = host.len() as int;
            &&& n < k.len()
            &&& k[n] == ':'
            &&& k.take(n) == text::lower(host)
            &&& k.skip(n + 1) == text::decimal(port)
            &&& forall|i: int| n < i < k.len() ==> k[i] != ':'
        }),
{
    let k = endpoint_key(host, port);
    let n = host.len() as int;
    text::lemma_decimal_reads_back(port);
    assert(k.take(n) =~= text::lower(host));
    assert(k.skip(n + 1) =~= text::decimal(port));
    assert forall|i: int| n < i < k.len() implies k[i] != ':' by {
        assert(k[i] == text::decimal(port)[i - n - 1]);
        assert(text::is_digit(text::decimal(port)[i - n - 1]));
    }
}

/// Two endpoints have one key exactly where their ports are the same and their hosts differ at
/// most in case.
pub proof fn law_key_identifies_endpoint(
    host_a: Seq<char>,
    port_a: nat,
    host_b: Seq<char>,
    port_b: nat,
)
    ensures
        endpoint_key(host_a, port_a) == endpoint_key(host_b, port_b) <==> text::lower(host_a)
            == text::lower(host_b) && port_a == port_b,
{
    if endpoint_key(host_a, port_a) == endpoint_key(host_b, port_b) {
        lemma_key_last_colon(host_a, port_a);
        lemma_key_last_colon(host_b, port_b);
        let k = endpoint_key(host_a, port_a);
        if host_a.len() < host_b.len() {
            assert(k[host_b.len() as int] == ':');
        } else if host_b.len() < host_a.len() {
            assert(k[host_a.len() as int] == ':');
        }
        text::lemma_decimal_injective(port_a, port_b);
    }
}

/// Host capacity that a policy must fit in.
#[derive(Debug, Clone, PartialEq, Eq)]
pub struct HostCapacity {
    pub memory_bytes: u64,
    pub millicores: u64,
}

impl Default for HostCapacity {
    /// Conservative defaults when the host cannot be probed.
    fn default() -> (r: Self)
        ensures
            r.memory_bytes == 8 * 1024 * 1024 * 1024,
            r.millicores == 8000,
    {
        HostCapacity { memory_bytes: 8 * 1024 * 1024 * 1024, millicores: 8000 }
    }
}

/// A pool of a host resource.
#[derive(Debug, Clone, Copy, PartialEq, Eq, Structural)]
pub enum Pool {
    /// Memory, counted in bytes.
    Ram,
    /// CPUs, counted in thousandths.
    Cpu,
}

impl Pool {
    /// The name of this pool.
    pub fn name(&self) -> (r: &'static str)
        ensures
            r@ == match *self {
                Pool::Ram => "RAM"@,
                Pool::Cpu => "CPU"@,
            },
    {
        match self {
            Pool::Ram => "RAM",
            Pool::Cpu => "CPU",
        }
    }
}

/// A claim of `amount` on a pool of `capacity` of which nothing is taken yet.
#[derive(Debug, Clone, Copy, PartialEq, Eq, Structural)]
pub struct PoolClaim {
    pub pool: Pool,
    pub capacity: u64,
    pub amount: u64,
}

/// The claim that a valid policy makes on the memory of the host.
pub open spec fn memory_claim(policy: SandboxPolicy, host: HostCapacity) -> PoolClaim {
    PoolClaim {
        pool: Pool::Ram,
        capacity: host.memory_bytes,
        amount: size_value(policy.resources.memory@)->Ok_0 as u64,
    }
}

/// The claim that a policy makes on the CPUs of the host.
pub open spec fn cpu_claim(policy: SandboxPolicy, host: HostCapacity) -> PoolClaim {
    PoolClaim {
        pool: Pool::Cpu,
        capacity: host.millicores,
        amount: policy.resources.cpus.millicores,
    }
}

/// Whether a valid policy asks for more than the host has.
pub open spec fn oversubscribes(policy: SandboxPolicy, host: HostCapacity) -> bool {
    ||| memory_claim(policy, host).amount > memory_claim(policy, host).capacity
    ||| cpu_claim(policy, host).amount > cpu_claim(policy, host).capacity
}

/// Whether granting `claim` is a possible answer of `allocate`.
pub open spec fn grants<F: Fn(PoolClaim) -> Result<(), String>>(
    allocate: F,
    claim: PoolClaim,
) -> bool {
    exists|reply: Result<(), String>|
        reply is Ok && #[trigger] call_ensures(allocate, (claim,), reply)
}

/// Resource preflight: the policy must be valid, and `allocate` must grant its memory claim and
/// then its CPU claim. With an allocator that refuses what a pool does not hold, a policy that
/// oversubscribes the host is rejected; with one that grants what it holds, a valid policy that
/// fits is accepted.
pub fn preflight<F: Fn(PoolClaim) -> Result<(), String>>(
    policy: &SandboxPolicy,
    host: &HostCapacity,
    allocate: F,
) -> (r: Result<(), PolicyError>)
    requires
        forall|c: PoolClaim| call_requires(allocate, (c,)),
    ensures
        policy.fault() is Some ==> r is Err && r->Err_0@ == policy.fault()->0,
        policy.fault() is None ==> match r {
            Ok(()) => {
                &&& grants(allocate, memory_claim(*policy, *host))
                &&& grants(allocate, cpu_claim(*policy, *host))
            },
            Err(PolicyError::Preflight(m)) => {
                ||| call_ensures(allocate, (memory_claim(*policy, *host),), Err(m))
                ||| {
                    &&& grants(allocate, memory_claim(*policy, *host))
                    &&& call_ensures(allocate, (cpu_claim(*policy, *host),), Err(m))
                }
            },
            Err(_) => false,
        },
        policy.fault() is None && oversubscribes(*policy, *host) && (forall|
            c: PoolClaim,
            reply: Result<(), String>,
        | #[trigger]
            call_ensures(allocate, (c,), reply) && c.amount > c.capacity ==> reply is Err)
            ==> r is Err && r->Err_0 is Preflight,
        policy.fault() is None && !oversubscribes(*policy, *host) && (forall|
            c: PoolClaim,
            reply: Result<(), String>,
        | #[trigger]
            call_ensures(allocate, (c,), reply) && c.amount <= c.capacity ==> reply is Ok)
            ==> r is Ok,
{
    match policy.validate() {
        Ok(()) => {},
        Err(e) => {
            return Err(e);
        },
    }
    let memory: u64 = match policy.resources.memory_bytes() {
        Ok(bytes) => bytes,
        Err(e) => {
            return Err(e);
        },
    };
    let claim = PoolClaim { pool: Pool::Ram, capacity: host.memory_bytes, amount: memory };
    assert(claim == memory_claim(*policy, *host));
    let reply = allocate(claim);
    match reply {
        Ok(()) => {
            assert(grants(allocate, claim));
        },
        Err(m) => {
            return Err(PolicyError::Preflight(m));
        },
    }
    let claim = PoolClaim {
        pool: Pool::Cpu,
        capacity: host.millicores,
        amount: policy.resources.millicores(),
    };
    assert(claim == cpu_claim(*policy, *host));
    let reply = allocate(claim);
    match reply {
        Ok(()) => {
            assert(grants(allocate, claim));
            Ok(())
        },
        Err(m) => Err(PolicyError::Preflight(m)),
    }
}

/// Each path of a list as seen from `workdir`.
pub open spec fn resolved(list: Seq<String>, workdir: Seq<char>) -> Seq<Seq<char>> {
    list.map_values(|p: String| paths::joined(workdir, p@))
}

/// Whether one of the paths of a list is the path `p`.
pub open spec fn lists_path(list: Seq<Seq<char>>, p: Seq<char>) -> bool {
    exists|i: int| 0 <= i < list.len() && paths::same_path(#[trigger] list[i], p)
}

/// The host paths that a sandbox may write: the listed ones, and the working directory where the
/// policy binds it and no listed path is it.
pub open spec fn writable_paths(policy: FilesystemPolicy, workdir: Seq<char>) -> Seq<Seq<char>> {
    let listed = resolved(policy.read_write@, workdir);
    if policy.workdir && !lists_path(listed, workdir) {
        listed.push(workdir)
    } else {
        listed
    }
}

/// Each path of `list` as seen from `workdir`.
fn resolve_all(list: &Vec<String>, workdir: &str) -> (r: Vec<String>)
    ensures
        text::texts(r@) == resolved(list@, workdir@),
{
    let mut out: Vec<String> = Vec::new();
    let mut i: usize = 0;
    while i < list.len()
        invariant
            i <= list@.len(),
            text::texts(out@) == resolved(list@.take(i as int), workdir@),
        decreases list@.len() - i,
    {
        push_string(&mut out, paths::join(workdir, list[i].as_str()));
        proof {
            assert(resolved(list@.take(i + 1), workdir@) =~= resolved(
                list@.take(i as int),
                workdir@,
            ).push(paths::joined(workdir@, list@[i as int]@)));
        }
        i += 1;
    }
    proof {
        assert(list@.take(i as int) =~= list@);
    }
    out
}

/// Whether one of the paths of `list` is the path `p`.
fn lists(list: &Vec<String>, p: &str) -> (r: bool)
    ensures
        r == lists_path(text::texts(list@), p@),
{
    let mut i: usize = 0;
    while i < list.len()
        invariant
            i <= list@.len(),
            forall|k: int|
                0 <= k < i ==> !paths::same_path(#[trigger] text::texts(list@)[k], p@),
        decreases list@.len() - i,
    {
        if paths::is_same_path(list[i].as_str(), p) {
            proof {
                assert(paths::same_path(text::texts(list@)[i as int], p@));
            }
            return true;
        }
        i += 1;
    }
    false
}

/// Resolves relative FS paths against a workdir for absolute host paths: the read-only ones and
/// the writable ones.
pub fn resolve_host_paths(policy: &FilesystemPolicy, workdir: &str) -> (r: (
    Vec<String>,
    Vec<String>,
))
    ensures
        text::texts(r.0@) == resolved(policy.read_only@, workdir@),
        text::texts(r.1@) == writable_paths(*policy, workdir@),
{
    let ro = resolve_all(&policy.read_only, workdir);
    let mut rw = resolve_all(&policy.read_write, workdir);
    if policy.workdir && !lists(&rw, workdir) {
        push_string(&mut rw, workdir.to_owned());
    }
    (ro, rw)
}

/// The key of an endpoint is its host in lower case, a colon and its port in decimal.
pub proof fn law_key_is_host_and_port(host: Seq<char>, port: nat)
    ensures
        endpoint_key(host, port) == text::lower(host) + ":"@ + text::decimal(port),
{
    reveal_strlit(":");
    assert(text::lower(host).push(':') =~= text::lower(host) + ":"@);
}

/// The factor of a size unit, letter by letter.
pub open spec fn factor_of(unit: Option<char>) -> int {
    match unit {
        None => 1,
        Some(c) => if c == 'K' || c == 'k' {
            1024
        } else if c == 'M' || c == 'm' {
            1048576
        } else if c == 'G' || c == 'g' {
            1073741824
        } else {
            1099511627776
        },
    }
}

/// Whether a letter is one of the eight size units.
pub open spec fn is_unit(c: char) -> bool {
    c == 'K' || c == 'k' || c == 'M' || c == 'm' || c == 'G' || c == 'g' || c == 'T' || c == 't'
}

/// Digits are a size: with or without a plus sign before them, a unit behind them and white space
/// around them, they are that many bytes or units. Where the digits alone are too large they are no
/// number, and where the bytes are too many the size overflows.
pub proof fn law_size_is_digits_and_unit(
    pre: Seq<char>,
    plus: bool,
    d: Seq<char>,
    unit: Option<char>,
    post: Seq<char>,
)
    requires
        text::all_white(pre),
        text::all_white(post),
        d.len() > 0,
        forall|i: int| 0 <= i < d.len() ==> 48 <= #[trigger] d[i] as int <= 57,
        unit is Some ==> is_unit(unit->0),
    ensures
        ({
            let number = if plus {
                seq!['+'] + d
            } else {
                d
            };
            let size = match unit {
                Some(c) => number.push(c),
                None => number,
            };
            let n = text::digits_value(d);
            let bytes = n * factor_of(unit);
            &&& bytes <= 0xffff_ffff_ffff_ffff ==> size_value(pre + size + post) == Ok::<
                nat,
                PolicyErrorView,
            >(bytes as nat)
            &&& n <= 0xffff_ffff_ffff_ffff < bytes ==> size_value(pre + size + post) == Err::<
                nat,
                PolicyErrorView,
            >(PolicyErrorView::Invalid("memory size overflow '"@ + size + "'"@))
            &&& n > 0xffff_ffff_ffff_ffff ==> size_value(pre + size + post) == Err::<
                nat,
                PolicyErrorView,
            >(PolicyErrorView::Invalid("invalid memory size '"@ + size + "'"@))
        }),
{
    let number = if plus {
        seq!['+'] + d
    } else {
        d
    };
    let size = match unit {
        Some(c) => number.push(c),
        None => number,
    };
    let n = text::digits_value(d);
    assert(number.last() == d.last());
    assert(48 <= d[d.len() - 1] as int <= 57);
    assert(48 <= d[0] as int <= 57);
    assert(size[0] == number[0]);
    assert(!text::is_white(size[0]));
    assert(!text::is_white(size.last()));
    text::law_trim_takes_white_space_alone(pre, size, post);
    text::law_digits_are_a_number(d, u64::MAX as nat);
    match unit {
        Some(c) => {
            assert(size.drop_last() =~= number);
        },
        None => {},
    }
    assert(size_split(size).0 =~= number);
    assert(size_split(size).1 == factor_of(unit));
    assert(n <= n * factor_of(unit)) by (nonlinear_arith)
        requires
            n >= 0,
            factor_of(unit) >= 1,
    ;
}

/// Nothing else is a size: what is left of it without white space is digits, with or without a plus
/// sign before them and a unit behind them. White space alone is refused as empty, and anything
/// else with its text.
pub proof fn law_nothing_else_is_a_size(s: Seq<char>)
    ensures
        ({
            let t = text::trim(s);
            let number = if t.len() > 0 && is_unit(t.last()) {
                t.drop_last()
            } else {
                t
            };
            &&& t.len() == 0 ==> size_value(s) == Err::<nat, PolicyErrorView>(
                PolicyErrorView::Invalid("empty memory size"@),
            )
            &&& t.len() > 0 && text::unsigned_value(number, 0xffff_ffff_ffff_ffff) is None
                ==> size_value(s) == Err::<nat, PolicyErrorView>(
                PolicyErrorView::Invalid("invalid memory size '"@ + t + "'"@),
            )
        }),
{
    let t = text::trim(s);
    if t.len() > 0 {
        assert(is_unit(t.last()) <==> unit_bytes(t.last()) is Some);
    }
}

/// Each backend goes by its names, in any case, and no other text names one.
pub proof fn law_names_of_backends(s: Seq<char>)
    ensures
        ({
            let l = text::lower(s);
            &&& MechanismKind::named(s) == Some(MechanismKind::Podman) <==> {
                l == "podman"@ || l == "linux"@ || l == "linux_podman"@
            }
            &&& MechanismKind::named(s) == Some(MechanismKind::Mac) <==> {
                l == "mac"@ || l == "macos"@ || l == "seatbelt"@ || l == "mac_seatbelt"@
            }
            &&& MechanismKind::named(s) == Some(MechanismKind::Krun) <==> {
                l == "krun"@ || l == "libkrun"@ || l == "linux_libkrun"@
            }
            &&& MechanismKind::named(s) == Some(MechanismKind::Auto) <==> l == "auto"@
        }),
{
    reveal_strlit("podman");
    reveal_strlit("linux");
    reveal_strlit("linux_podman");
    reveal_strlit("mac");
    reveal_strlit("macos");
    reveal_strlit("seatbelt");
    reveal_strlit("mac_seatbelt");
    reveal_strlit("krun");
    reveal_strlit("libkrun");
    reveal_strlit("linux_libkrun");
    reveal_strlit("auto");
    let l = text::lower(s);
    assert("podman"@.len() == 6 && "linux"@.len() == 5 && "linux_podman"@.len() == 12);
    assert("mac"@.len() == 3 && "macos"@.len() == 5 && "seatbelt"@.len() == 8);
    assert("mac_seatbelt"@.len() == 12 && "krun"@.len() == 4 && "libkrun"@.len() == 7);
    assert("linux_libkrun"@.len() == 13 && "auto"@.len() == 4);
    assert("linux"@[0] != "macos"@[0]);
    assert("linux_podman"@[0] != "mac_seatbelt"@[0]);
    assert("krun"@[0] != "auto"@[0]);
}

/// The backends are named podman, mac, krun and auto.
pub proof fn law_names_of_kinds(kind: MechanismKind)
    ensures
        kind == MechanismKind::Podman ==> kind.name() == "podman"@,
        kind == MechanismKind::Mac ==> kind.name() == "mac"@,
        kind == MechanismKind::Krun ==> kind.name() == "krun"@,
        kind == MechanismKind::Auto ==> kind.name() == "auto"@,
{
}

/// A policy is valid exactly where its version is one, it has more than zero CPUs and a size for
/// its memory, an allowlist names an endpoint, and every secret has a variable and a source.
pub proof fn law_policy_is_valid(policy: SandboxPolicy)
    ensures
        policy.fault() is None <==> {
            &&& policy.version == 1
            &&& !policy.resources.cpus.zero_or_less
            &&& size_value(policy.resources.memory@) is Ok
            &&& policy.network.mode == NetworkMode::Allowlist ==> policy.network.endpoints@.len()
                > 0
            &&& forall|i: int|
                0 <= i < policy.secrets@.len() ==> (#[trigger] policy.secrets@[i]).env@.len() > 0
                    && policy.secrets@[i].from@.len() > 0
        },
{
    if exists|i: int|
        0 <= i < policy.secrets@.len() && ((#[trigger] policy.secrets@[i]).env@.len() == 0
            || policy.secrets@[i].from@.len() == 0) {
        assert(policy.has_unnamed_secret());
    }
}

/// The first rule that a policy breaks is the one that it is refused for, in this order: version,
/// CPUs, memory, endpoints, secrets.
pub proof fn law_first_broken_rule_is_reported(policy: SandboxPolicy, i: int)
    ensures
        ({
            let version = policy.version == 1;
            let cpus = version && !policy.resources.cpus.zero_or_less;
            let memory = cpus && size_value(policy.resources.memory@) is Ok;
            let network = memory && !(policy.network.mode == NetworkMode::Allowlist
                && policy.network.endpoints@.len() == 0);
            &&& !version ==> policy.fault() == Some(
                PolicyErrorView::Invalid(
                    "unsupported policy version "@ + text::decimal(policy.version as nat),
                ),
            )
            &&& version && !cpus ==> policy.fault() == Some(
                PolicyErrorView::Invalid("resources.cpus must be > 0"@),
            )
            &&& cpus && !memory ==> policy.fault() == Some(
                size_value(policy.resources.memory@)->Err_0,
            )
            &&& memory && !network ==> policy.fault() == Some(
                PolicyErrorView::Invalid("network.mode=allowlist requires at least one endpoint"@),
            )
            &&& network && 0 <= i < policy.secrets@.len() && (policy.secrets@[i].env@.len() == 0
                || policy.secrets@[i].from@.len() == 0) ==> policy.fault() == Some(
                PolicyErrorView::Invalid("secrets entries need non-empty env and from"@),
            )
        }),
{
    if 0 <= i < policy.secrets@.len() && (policy.secrets@[i].env@.len() == 0
        || policy.secrets@[i].from@.len() == 0) {
        assert(policy.has_unnamed_secret());
    }
}

/// Each error reads as its own sentence.
pub proof fn law_policy_error_sentences(m: Seq<char>)
    ensures
        PolicyErrorView::Io(m).message() == "io error: "@ + m,
        PolicyErrorView::Yaml(m).message() == "yaml parse error: "@ + m,
        PolicyErrorView::Invalid(m).message() == "invalid policy: "@ + m,
        PolicyErrorView::Preflight(m).message() == "resource preflight failed: "@ + m,
{
}

/// An error holds the text that it was made with.
pub proof fn law_policy_error_holds_its_text(m: String)
    ensures
        PolicyError::Io(m)@ == PolicyErrorView::Io(m@),
        PolicyError::Yaml(m)@ == PolicyErrorView::Yaml(m@),
        PolicyError::Invalid(m)@ == PolicyErrorView::Invalid(m@),
        PolicyError::Preflight(m)@ == PolicyErrorView::Preflight(m@),
{
}

/// A valid policy claims the bytes of its memory from the memory of the host, and its thousandths
/// of a CPU from those of the host; it asks for too much exactly where one claim is larger than
/// what the host has.
pub proof fn law_claims(policy: SandboxPolicy, host: HostCapacity)
    requires
        policy.fault() is None,
    ensures
        memory_claim(policy, host).pool == Pool::Ram,
        memory_claim(policy, host).capacity == host.memory_bytes,
        size_value(policy.resources.memory@) == Ok::<nat, PolicyErrorView>(
            memory_claim(policy, host).amount as nat,
        ),
        cpu_claim(policy, host).pool == Pool::Cpu,
        cpu_claim(policy, host).capacity == host.millicores,
        cpu_claim(policy, host).amount == policy.resources.cpus.millicores,
        oversubscribes(policy, host) <==> size_value(policy.resources.memory@)->Ok_0
            > host.memory_bytes || policy.resources.cpus.millicores > host.millicores,
{
    let v = size_value(policy.resources.memory@)->Ok_0;
    assert(v <= u64::MAX);
}

/// A claim is granted exactly where the allocator can answer it with success.
pub proof fn law_granted_claims<F: Fn(PoolClaim) -> Result<(), String>>(
    allocate: F,
    claim: PoolClaim,
    reply: Result<(), String>,
)
    ensures
        call_ensures(allocate, (claim,), reply) && reply is Ok ==> grants(allocate, claim),
        (forall|x: Result<(), String>| #[trigger]
            call_ensures(allocate, (claim,), x) ==> x is Err) ==> !grants(allocate, claim),
{
}

/// Each path of a list is itself where it starts at the root, and is put behind the working
/// directory where it does not.
pub proof fn law_paths_are_resolved(list: Seq<String>, workdir: Seq<char>, i: int)
    ensures
        resolved(list, workdir).len() == list.len(),
        0 <= i < list.len() && list[i]@.len() > 0 && list[i]@[0] == '/' ==> resolved(
            list,
            workdir,
        )[i] == list[i]@,
        0 <= i < list.len() && !(list[i]@.len() > 0 && list[i]@[0] == '/') && workdir.len() > 0
            && workdir.last() != '/' ==> resolved(list, workdir)[i] == workdir + "/"@ + list[i]@,
        0 <= i < list.len() ==> resolved(list, workdir)[i] == paths::joined(workdir, list[i]@),
{
    reveal_strlit("/");
    if 0 <= i < list.len() {
        assert(workdir.push('/') + list[i]@ =~= workdir + "/"@ + list[i]@);
    }
}

/// The writable paths are the listed ones, in order, and behind them the working directory, where
/// the policy binds it and no listed path is it.
pub proof fn law_writable_paths(policy: FilesystemPolicy, workdir: Seq<char>, i: int)
    ensures
        ({
            let list = policy.read_write@;
            let all = writable_paths(policy, workdir);
            let listed = exists|k: int|
                0 <= k < list.len() && paths::same_path(
                    paths::joined(workdir, (#[trigger] list[k])@),
                    workdir,
                );
            &&& all.len() == list.len() + (if policy.workdir && !listed {
                1int
            } else {
                0int
            })
            &&& 0 <= i < list.len() ==> all[i] == paths::joined(workdir, list[i]@)
            &&& policy.workdir && !listed ==> all.last() == workdir
        }),
{
    let list = policy.read_write@;
    let r = resolved(list, workdir);
    if lists_path(r, workdir) {
        let k = choose|k: int| 0 <= k < r.len() && paths::same_path(#[trigger] r[k], workdir);
        assert(paths::same_path(paths::joined(workdir, list[k]@), workdir));
    }
    if exists|k: int|
        0 <= k < list.len() && paths::same_path(
            paths::joined(workdir, (#[trigger] list[k])@),
            workdir,
        ) {
        let k = choose|k: int|
            0 <= k < list.len() && paths::same_path(
                paths::joined(workdir, (#[trigger] list[k])@),
                workdir,
            );
        assert(paths::same_path(r[k], workdir));
    }
}

/// The default policy: no network, no endpoint, no secret, the working directory with `/workspace`
/// and `/tmp`, two CPUs and two gibibytes.
pub proof fn law_restrictive_policy(policy: SandboxPolicy)
    requires
        policy.is_restrictive(),
    ensures
        policy.version == 1,
        policy.network.mode == NetworkMode::NoNetwork,
        policy.network.endpoints@.len() == 0,
        policy.secrets@.len() == 0,
        policy.mechanism is None,
        policy.filesystem.workdir,
        policy.filesystem.read_only@.len() == 0,
        policy.filesystem.read_write@.len() == 2,
        policy.filesystem.read_write@[0]@ == "/workspace"@,
        policy.filesystem.read_write@[1]@ == "/tmp"@,
        policy.resources.cpus.text@ == "2"@,
        policy.resources.cpus.millicores == 2000,
        policy.resources.cpus.hour_seconds == 7200,
        size_value(policy.resources.memory@) == Ok::<nat, PolicyErrorView>(2147483648),
        policy.fault() is None,
{
    lemma_default_size();
    let t = text::texts(policy.filesystem.read_write@);
    assert(t.len() == seq!["/workspace"@, "/tmp"@].len());
    assert(t.len() == policy.filesystem.read_write@.len());
    assert(t[0] == policy.filesystem.read_write@[0]@);
    assert(t[1] == policy.filesystem.read_write@[1]@);
}

/// A policy wants the backend that it names, or whichever the host picks.
pub proof fn law_wanted_backend(policy: SandboxPolicy)
    ensures
        policy.mechanism matches Some(kind) ==> policy.wanted_mechanism() == kind,
        policy.mechanism is None ==> policy.wanted_mechanism() == MechanismKind::Auto,
{
}

/// A policy that was parsed is taken as it is where it has no fault, and refused with its fault
/// where it has one; a text that does not parse is refused with what the parser says.
pub proof fn law_parsed_policy_is_taken_or_refused(
    policy: SandboxPolicy,
    words: String,
    r: Result<SandboxPolicy, PolicyError>,
    checked: Result<(), PolicyError>,
)
    ensures
        call_ensures(SandboxPolicy::check_parsed, (Ok(policy),), r) ==> {
            &&& policy.fault() is None <==> r is Ok
            &&& r is Ok ==> r->Ok_0 == policy
            &&& r is Err ==> policy.fault() == Some(r->Err_0@)
        },
        call_ensures(SandboxPolicy::check_parsed, (Err(words),), r) ==> r == Err::<
            SandboxPolicy,
            PolicyError,
        >(PolicyError::Yaml(words)),
        call_ensures(SandboxPolicy::validate, (&policy,), checked) ==> {
            &&& policy.fault() is None <==> checked is Ok
            &&& checked is Err ==> policy.fault() == Some(checked->Err_0@)
        },
{
}

/// What a policy that says nothing has: two CPUs, two gigabytes, the working directory, no network,
/// the HTTPS port, and the backend of the host.
pub proof fn law_defaults(
    bound: bool,
    port: u16,
    cpus: CpuLimit,
    memory: String,
    policy: SandboxPolicy,
)
    ensures
        call_ensures(default_true, (), bound) ==> bound,
        call_ensures(default_https_port, (), port) ==> port == 443,
        call_ensures(default_cpus, (), cpus) ==> cpus.text@ == "2"@ && cpus.millicores == 2000
            && cpus.hour_seconds == 7200 && !cpus.zero_or_less,
        call_ensures(default_memory, (), memory) ==> memory@ == "2G"@,
        call_ensures(SandboxPolicy::restrictive_default, (), policy) ==> policy.is_restrictive()
            && policy.fault() is None,
{
}

/// A policy with a fault is refused with it before anything is claimed; one without is accepted
/// only where both claims can be granted, and refused only with the words of a refusal.
pub proof fn law_check_before_a_launch<F: Fn(PoolClaim) -> Result<(), String>>(
    policy: &SandboxPolicy,
    host: &HostCapacity,
    allocate: F,
    r: Result<(), PolicyError>,
)
    requires
        call_ensures(preflight::<F>, (policy, host, allocate), r),
    ensures
        policy.fault() matches Some(fault) ==> r is Err && r->Err_0@ == fault,
        policy.fault() is None && r is Ok ==> grants(allocate, memory_claim(*policy, *host))
            && grants(allocate, cpu_claim(*policy, *host)),
        policy.fault() is None && r is Err ==> r->Err_0 is Preflight,
{
}

} // verus!
