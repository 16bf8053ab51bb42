//! Requests to a sandbox backend and its answers, and the backend trait.

use vstd::prelude::*;

use crate::paths;
use crate::policy::{MechanismKind, SandboxPolicy};
use crate::text::{self, parse_unsigned};

verus! {

/// Errors from mechanism operations.
#[derive(Debug, PartialEq, Eq)]
pub enum MechanismError {
    Message(String),
    Other(String),
    Unavailable(String),
    NotImplemented(String),
}

/// A mechanism error with its text as characters.
pub enum MechanismErrorView {
    Message(Seq<char>),
    Other(Seq<char>),
    Unavailable(Seq<char>),
    NotImplemented(Seq<char>),
}

impl View for MechanismError {
    type V = MechanismErrorView;

    open spec fn view(&self) -> MechanismErrorView {
        match *self {
            MechanismError::Message(m) => MechanismErrorView::Message(m@),
            MechanismError::Other(m) => MechanismErrorView::Other(m@),
            MechanismError::Unavailable(m) => MechanismErrorView::Unavailable(m@),
            MechanismError::NotImplemented(m) => MechanismErrorView::NotImplemented(m@),
        }
    }
}

impl MechanismErrorView {
    /// The sentence that a user reads.
    pub open spec fn message(self) -> Seq<char> {
        match self {
            MechanismErrorView::Message(m) => m,
            MechanismErrorView::Other(m) => m,
            MechanismErrorView::Unavailable(m) => "mechanism not available: "@ + m,
            MechanismErrorView::NotImplemented(m) => "not implemented: "@ + m,
        }
    }
}

impl MechanismError {
    /// The sentence that a user reads.
    pub fn message(&self) -> (r: String)
        ensures
            r@ == self@.message(),
    {
        match self {
            MechanismError::Message(m) => m.clone(),
            MechanismError::Other(m) => m.clone(),
            MechanismError::Unavailable(m) => "mechanism not available: ".to_owned().concat(
                m.as_str(),
            ),
            MechanismError::NotImplemented(m) => "not implemented: ".to_owned().concat(m.as_str()),
        }
    }
}

/// Errors of the supervisor control channel.
#[derive(Debug, PartialEq, Eq)]
pub enum ControlError {
    Message(String),
}

impl ControlError {
    /// The sentence that a user reads.
    pub fn message(&self) -> (r: String)
        ensures
            r@ == "control channel: "@ + self->Message_0@,
    {
        match self {
            ControlError::Message(m) => "control channel: ".to_owned().concat(m.as_str()),
        }
    }
}

/// Request to create or run a sandbox.
#[derive(Debug, Clone)]
pub struct CreateRequest {
    pub name: String,
    pub policy: SandboxPolicy,
    pub workdir: String,
    /// If true, container/process is ephemeral (removed after run).
    pub ephemeral: bool,
    /// Command for ephemeral run; empty means keep-alive / sleep for persistent.
    pub command: Vec<String>,
    /// Extra environment (already-resolved secrets + user env).
    pub env: Vec<(String, String)>,
}

/// Result of creating a sandbox.
#[derive(Debug, Clone, PartialEq, Eq)]
pub struct CreateResult {
    pub name: String,
    pub mechanism: MechanismKind,
    pub runtime_id: String,
    pub proxy_port: Option<u16>,
    pub log_path: Option<String>,
    /// Set for ephemeral runs so the CLI can propagate the child exit code.
    pub exit_code: Option<i32>,
}

impl CreateResult {
    /// Whether this is the result of creating the sandbox `name` with a backend: no log path, and
    /// the port that the text of the proxy port names.
    pub open spec fn describes(
        self,
        name: Seq<char>,
        mechanism: MechanismKind,
        runtime_id: Seq<char>,
        port_text: Option<Seq<char>>,
        exit_code: Option<i32>,
    ) -> bool {
        &&& self.name@ == name
        &&& self.mechanism == mechanism
        &&& self.runtime_id@ == runtime_id
        &&& self.proxy_port == port_value(port_text)
        &&& self.log_path is None
        &&& self.exit_code == exit_code
    }
}

/// Exec request against an existing sandbox.
#[derive(Debug, Clone)]
pub struct ExecRequest {
    pub name: String,
    pub runtime_id: String,
    pub command: Vec<String>,
    pub env: Vec<(String, String)>,
    pub tty: bool,
    /// Working directory inside the sandbox.
    pub cwd: Option<String>,
}

/// How the command of an exec request ended: its exit code, if it was not killed.
#[derive(Debug, PartialEq, Eq)]
pub struct ExecResult {
    pub code: Option<i32>,
}

/// Doctor / health check item.
#[derive(Debug, Clone, PartialEq, Eq)]
pub struct DoctorItem {
    pub name: String,
    pub ok: bool,
    pub detail: String,
}

/// A health check item with its texts as characters.
pub struct DoctorItemView {
    pub name: Seq<char>,
    pub ok: bool,
    pub detail: Seq<char>,
}

impl View for DoctorItem {
    type V = DoctorItemView;

    open spec fn view(&self) -> DoctorItemView {
        DoctorItemView { name: self.name@, ok: self.ok, detail: self.detail@ }
    }
}

/// The items of a report with their texts as characters.
pub open spec fn report(items: Seq<DoctorItem>) -> Seq<DoctorItemView> {
    items.map_values(|i: DoctorItem| i@)
}

/// Appends an item to a report.
pub fn push_item(items: &mut Vec<DoctorItem>, name: &str, ok: bool, detail: &str)
    ensures
        report(final(items)@) == report(old(items)@).push(
            DoctorItemView { name: name@, ok, detail: detail@ },
        ),
{
    items.push(DoctorItem { name: name.to_owned(), ok, detail: detail.to_owned() });
    proof {
        assert(report(items@) =~= report(old(items)@).push(
            DoctorItemView { name: name@, ok, detail: detail@ },
        ));
    }
}

/// The port that a text names, if it names one.
pub open spec fn port_value(port_text: Option<Seq<char>>) -> Option<u16> {
    match port_text {
        None => None,
        Some(t) => match text::unsigned_value(t, u16::MAX as nat) {
            Some(v) => Some(v as u16),
            None => None,
        },
    }
}

/// The port that `port_text` names.
pub fn port_number(port_text: &Option<String>) -> (r: Option<u16>)
    ensures
        r == port_value(text::optional_text(*port_text)),
{
    match port_text {
        None => None,
        Some(t) => match parse_unsigned(t.as_str(), 65535) {
            Some(v) => Some(v as u16),
            None => None,
        },
    }
}

/// Pluggable sandbox backend.
pub trait Mechanism: Send + Sync {
    fn kind(&self) -> MechanismKind;

    fn name(&self) -> &'static str;

    /// Availability / health checks for `ssbx doctor`.
    fn doctor(&self) -> Vec<DoctorItem>;

    /// Create a persistent sandbox (or start ephemeral run).
    fn create(&self, req: &CreateRequest) -> Result<CreateResult, MechanismError>;

    /// Execute a command in an existing sandbox.
    fn exec(&self, req: &ExecRequest) -> Result<ExecResult, MechanismError>;

    /// Remove / stop a sandbox.
    fn remove(&self, runtime_id: &str) -> Result<(), MechanismError>;

    /// Optional: fetch recent logs.
    fn logs(&self, runtime_id: &str, tail: usize) -> (r: Result<String, MechanismError>)
        default_ensures
            r is Ok,
            r->Ok_0@.len() == 0,
    {
        Ok(String::new())
    }
}

/// The operating system of the host.
#[derive(Debug, Clone, Copy, PartialEq, Eq, Structural)]
pub enum HostOs {
    MacOs,
    Linux,
    Other,
}

/// The backend that `Auto` stands for on a host: containers on macOS and Linux.
pub open spec fn resolved_mechanism(kind: MechanismKind, os: HostOs) -> MechanismKind {
    if kind != MechanismKind::Auto {
        kind
    } else if os == HostOs::Other {
        MechanismKind::Mac
    } else {
        MechanismKind::Podman
    }
}

/// Resolves the Auto mechanism based on the OS and the preference order.
pub fn resolve_mechanism(kind: MechanismKind, os: HostOs) -> (r: MechanismKind)
    ensures
        r == resolved_mechanism(kind, os),
{
    match kind {
        MechanismKind::Auto => match os {
            HostOs::MacOs => MechanismKind::Podman,
            HostOs::Linux => MechanismKind::Podman,
            HostOs::Other => MechanismKind::Mac,
        },
        other => other,
    }
}

/// Resolving yields a backend, keeps a backend that is named, and resolving twice changes nothing
/// more.
pub proof fn law_resolving_settles(kind: MechanismKind, os: HostOs)
    ensures
        resolved_mechanism(kind, os) != MechanismKind::Auto,
        kind != MechanismKind::Auto ==> resolved_mechanism(kind, os) == kind,
        resolved_mechanism(resolved_mechanism(kind, os), os) == resolved_mechanism(kind, os),
{
}

/// `dirs::home_dir`: the home directory of the user, if the host knows one. Which directory it is
/// depends on the environment, so nothing is promised of it. A path that is not UTF-8 counts as
/// none.
#[verifier::external_body]
fn user_home_dir() -> (r: Option<String>) {
    dirs::home_dir().and_then(|p| p.into_os_string().into_string().ok())
}

/// The state directory of a user: `.config/simple-sandbox` in the home directory, or
/// `simple-sandbox` in the current directory where there is no home directory.
pub open spec fn state_root(home: Option<Seq<char>>) -> Seq<char> {
    match home {
        Some(dir) => paths::joined(paths::joined(dir, ".config"@), "simple-sandbox"@),
        None => paths::joined("."@, "simple-sandbox"@),
    }
}

/// The state directory of a user with the home directory `home`.
pub fn config_dir_under(home: Option<String>) -> (r: String)
    ensures
        r@ == state_root(text::optional_text(home)),
{
    match home {
        Some(dir) => {
            let config = paths::join(dir.as_str(), ".config");
            paths::join(config.as_str(), "simple-sandbox")
        },
        None => paths::join(".", "simple-sandbox"),
    }
}

/// Whether `r` is the state directory for a home directory that `home` can answer.
pub open spec fn state_root_by<F: Fn() -> Option<String>>(home: F, r: Seq<char>) -> bool {
    exists|h: Option<String>| #[trigger]
        call_ensures(home, (), h) && r == state_root(text::optional_text(h))
}

/// The state directory of the user whose home directory `home` gives.
pub fn config_dir_by<F: Fn() -> Option<String>>(home: F) -> (r: String)
    requires
        call_requires(home, ()),
    ensures
        state_root_by(home, r@),
{
    config_dir_under(home())
}

/// Whether `r` is the state directory for the home directory that the host gives.
pub closed spec fn state_root_on_host(r: Seq<char>) -> bool {
    state_root_by(user_home_dir, r)
}

/// Config / state root directory: `~/.config/simple-sandbox`.
pub fn default_config_dir() -> (r: String)
    ensures
        state_root_on_host(r@),
        exists|home: Option<Seq<char>>| r@ == #[trigger] state_root(home),
{
    let r = config_dir_by(user_home_dir);
    proof {
        let h = choose|h: Option<String>| #[trigger]
            call_ensures(user_home_dir, (), h) && r@ == state_root(text::optional_text(h));
        assert(r@ == state_root(text::optional_text(h)));
    }
    r
}

/// Auto is the container backend on macOS and on Linux and seatbelt elsewhere; a backend that is
/// named stays.
pub proof fn law_what_auto_stands_for(kind: MechanismKind)
    ensures
        resolved_mechanism(MechanismKind::Auto, HostOs::MacOs) == MechanismKind::Podman,
        resolved_mechanism(MechanismKind::Auto, HostOs::Linux) == MechanismKind::Podman,
        resolved_mechanism(MechanismKind::Auto, HostOs::Other) == MechanismKind::Mac,
        forall|os: HostOs|
            kind != MechanismKind::Auto ==> #[trigger] resolved_mechanism(kind, os) == kind,
{
}

/// A text names a port exactly where it is a number of at most 65535, and then it names that port.
pub proof fn law_port_is_the_number(port: u16, s: Seq<char>)
    ensures
        port_value(Some(text::decimal(port as nat))) == Some(port),
        port_value(None) is None,
        text::unsigned_value(s, 65535) is None <==> port_value(Some(s)) is None,
        port_value(Some(s)) matches Some(p) ==> text::unsigned_value(s, 65535) == Some(p as nat),
{
    text::lemma_decimal_reads_back(port as nat);
    let d = text::decimal(port as nat);
    assert(text::is_digit(d[0]));
    assert(text::without_plus(d) == d);
    if let Some(v) = text::unsigned_value(s, 65535) {
        assert(v <= 65535);
    }
}

/// The state of a user is in `.config/simple-sandbox` of the home directory.
pub proof fn law_state_is_in_the_home_directory(home: Seq<char>)
    ensures
        home.len() > 0 && home.last() != '/' ==> state_root(Some(home)) == home
            + "/.config/simple-sandbox"@,
        state_root(None) == "./simple-sandbox"@,
{
    reveal_strlit("/.config/simple-sandbox");
    reveal_strlit(".config");
    reveal_strlit("simple-sandbox");
    reveal_strlit("./simple-sandbox");
    reveal_strlit(".");
    if home.len() > 0 && home.last() != '/' {
        let c = paths::joined(home, ".config"@);
        assert(c =~= home.push('/') + ".config"@);
        assert(c.last() == 'g');
        assert(state_root(Some(home)) =~= home + "/.config/simple-sandbox"@);
    }
    assert(state_root(None) =~= "./simple-sandbox"@);
}

/// The state directory that is found by asking is that of an answer.
pub proof fn law_state_follows_the_answer<F: Fn() -> Option<String>>(home: F, r: Seq<char>)
    ensures
        state_root_by(home, r) <==> exists|h: Option<String>| #[trigger]
            call_ensures(home, (), h) && r == state_root(text::optional_text(h)),
{
}

/// A report has each item with its name, its mark and its detail, in order.
pub proof fn law_report_is_the_items(items: Seq<DoctorItem>, i: int)
    ensures
        report(items).len() == items.len(),
        0 <= i < items.len() ==> {
            &&& report(items)[i].name == items[i].name@
            &&& report(items)[i].ok == items[i].ok
            &&& report(items)[i].detail == items[i].detail@
        },
{
}

/// Each error reads as its own sentence.
pub proof fn law_mechanism_error_sentences(m: Seq<char>)
    ensures
        MechanismErrorView::Message(m).message() == m,
        MechanismErrorView::Other(m).message() == m,
        MechanismErrorView::Unavailable(m).message() == "mechanism not available: "@ + m,
        MechanismErrorView::NotImplemented(m).message() == "not implemented: "@ + m,
{
}

/// An error holds the text that it was made with.
pub proof fn law_mechanism_error_holds_its_text(m: String)
    ensures
        MechanismError::Message(m)@ == MechanismErrorView::Message(m@),
        MechanismError::Other(m)@ == MechanismErrorView::Other(m@),
        MechanismError::Unavailable(m)@ == MechanismErrorView::Unavailable(m@),
        MechanismError::NotImplemented(m)@ == MechanismErrorView::NotImplemented(m@),
{
}

/// A result says which sandbox was created, by which backend, under which id, behind which proxy
/// port, and how its command ended; it names no log.
pub proof fn law_result_describes_the_sandbox(
    r: CreateResult,
    name: Seq<char>,
    kind: MechanismKind,
    id: Seq<char>,
    port: Option<Seq<char>>,
    code: Option<i32>,
)
    ensures
        r.describes(name, kind, id, port, code) <==> {
            &&& r.name@ == name
            &&& r.mechanism == kind
            &&& r.runtime_id@ == id
            &&& r.proxy_port == port_value(port)
            &&& r.log_path is None
            &&& r.exit_code == code
        },
{
}

} // verus!
