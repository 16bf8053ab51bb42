//! What the commands of the tool do with the index and with what backends answer, and what they
//! print.

use vstd::prelude::*;

use crate::digest;
use crate::krun::KrunMechanism;
use crate::launch;
use crate::mac::MacMechanism;
use crate::mechanism::{
    self, push_item, resolve_mechanism, CreateResult, DoctorItem, DoctorItemView, ExecRequest,
    ExecResult, HostOs, Mechanism,
};
use crate::paths;
use crate::podman::PodmanMechanism;
use crate::policy::{
    preflight, HostCapacity, MechanismKind, PolicyError, PoolClaim, SandboxPolicy,
};
use crate::state::{
    self, SandboxRecord, SandboxState, StateError, StateErrorView, Store, Timestamp,
};
use crate::text::{self, push_text};

verus! {

/// The low eight bits of a code.
pub open spec fn low_byte(code: int) -> int {
    code % 256
}

/// The low eight bits of a code.
pub fn exit_byte(code: i32) -> (r: u8)
    ensures
        r == low_byte(code as int),
{
    assert((code as u8) as int == (code as int) % 256) by (bit_vector);
    code as u8
}

/// A code that fits in a byte is the exit status.
pub proof fn law_small_code_is_kept(code: int)
    requires
        0 <= code < 256,
    ensures
        low_byte(code) == code,
{
}

/// The exit status of the tool after a command that ran once: that of the command, or zero where
/// the backend gives none.
pub fn run_status(result: &CreateResult) -> (r: u8)
    ensures
        r == low_byte(
            match result.exit_code {
                Some(code) => code as int,
                None => 0,
            },
        ),
{
    match result.exit_code {
        Some(code) => exit_byte(code),
        None => 0,
    }
}

/// The exit status of the tool after a command in a sandbox: that of the command, or one where it
/// was killed.
pub fn exec_status(result: &ExecResult) -> (r: u8)
    ensures
        r == low_byte(
            match result.code {
                Some(code) => code as int,
                None => 1,
            },
        ),
{
    match result.code {
        Some(code) => exit_byte(code),
        None => 1,
    }
}

/// A backend.
#[derive(Debug)]
pub enum Backend {
    Podman(PodmanMechanism),
    Mac(MacMechanism),
    Krun(KrunMechanism),
}

impl Backend {
    /// Whether this is the backend for a kind, with the state directory `root`.
    pub open spec fn serves(self, kind: MechanismKind, root: Seq<char>) -> bool {
        match self {
            Backend::Podman(m) => {
                &&& kind == MechanismKind::Podman
                &&& m.binary is None
                &&& m.image@ == "docker.io/library/alpine:3.20"@
            },
            Backend::Mac(m) => {
                &&& kind == MechanismKind::Mac
                &&& text::optional_text(m.state_dir) == Some(paths::joined(root, "mac"@))
            },
            Backend::Krun(_) => kind == MechanismKind::Krun,
        }
    }

    /// The name of this backend in full.
    pub open spec fn title(self) -> Seq<char> {
        match self {
            Backend::Podman(_) => "linux_podman"@,
            Backend::Mac(_) => "mac_seatbelt"@,
            Backend::Krun(_) => "linux_libkrun"@,
        }
    }

    /// The name of this backend in full.
    pub fn name(&self) -> (r: &'static str)
        ensures
            r@ == self.title(),
    {
        match self {
            Backend::Podman(m) => m.name(),
            Backend::Mac(m) => m.name(),
            Backend::Krun(m) => m.name(),
        }
    }
}

/// The backend of a kind, with what it keeps under the directory `config_root`.
pub fn mech_box(kind: MechanismKind, os: HostOs, config_root: &str) -> (r: Backend)
    ensures
        r.serves(mechanism::resolved_mechanism(kind, os), config_root@),
{
    match resolve_mechanism(kind, os) {
        MechanismKind::Podman | MechanismKind::Auto => Backend::Podman(PodmanMechanism::new()),
        MechanismKind::Mac => Backend::Mac(
            MacMechanism { state_dir: Some(paths::join(config_root, "mac")) },
        ),
        MechanismKind::Krun => Backend::Krun(KrunMechanism::new()),
    }
}

/// Whether a request runs a command in a sandbox of the index.
pub open spec fn requests(req: ExecRequest, rec: SandboxRecord, command: Seq<Seq<char>>) -> bool {
    &&& req.name@ == rec.name@
    &&& req.runtime_id@ == rec.runtime_id@
    &&& text::texts(req.command@) == command
    &&& req.env@.len() == 0
    &&& req.tty
    &&& text::optional_text(req.cwd) == Some("/workspace"@)
}

/// Looks up the sandbox for a command, makes it the one that was used last, and says what its
/// backend is asked for.
pub fn begin_exec(
    store: &Store,
    state: &mut SandboxState,
    name: Option<&str>,
    command: Vec<String>,
    os: HostOs,
) -> (r: Result<(Backend, ExecRequest), StateError>)
    ensures
        match state::chosen(
            *old(state),
            match name {
                Some(n) => Some(n@),
                None => None,
            },
        ) {
            Some(rec) => {
                &&& r is Ok
                &&& r->Ok_0.0.serves(mechanism::resolved_mechanism(rec.mechanism, os), store@)
                &&& requests(r->Ok_0.1, rec, text::texts(command@))
                &&& final(state).sandboxes == old(state).sandboxes
                &&& text::optional_text(final(state).last_used) == Some(rec.name@)
            },
            None => {
                &&& r is Err
                &&& r->Err_0@ == StateErrorView::NotFound(
                    match name {
                        Some(n) => n@,
                        None => "(no sandboxes)"@,
                    },
                )
                &&& *final(state) == *old(state)
            },
        },
        old(state).names_distinct() ==> final(state).names_distinct(),
        old(state).last_used_known() ==> final(state).last_used_known(),
{
    let rec = match store.get_or_last(state, name) {
        Ok(rec) => rec,
        Err(e) => {
            return Err(e);
        },
    };
    store.touch_last_used(state, rec.name.as_str());
    proof {
        lemma_chosen_is_listed(
            *old(state),
            match name {
                Some(n) => Some(n@),
                None => None,
            },
        );
    }
    let backend = mech_box(rec.mechanism, os, store.root());
    let req = ExecRequest {
        name: rec.name,
        runtime_id: rec.runtime_id,
        command,
        env: Vec::new(),
        tty: true,
        cwd: Some("/workspace".to_owned()),
    };
    Ok((backend, req))
}

/// The sandbox that an optional name stands for is in the index under its name.
proof fn lemma_chosen_is_listed(state: SandboxState, name: Option<Seq<char>>)
    ensures
        state::chosen(state, name) matches Some(rec) ==> state::name_place(
            state.sandboxes@,
            rec.name@,
        ) < state.sandboxes@.len(),
{
    let list = state.sandboxes@;
    if let Some(rec) = state::chosen(state, name) {
        state::lemma_name_place(list, rec.name@);
        assert(exists|i: int| 0 <= i < list.len() && #[trigger] list[i] == rec) by {
            if list.len() > 0 {
                assert(list[list.len() - 1] == list.last());
            }
            match name {
                Some(n) => {
                    state::lemma_place(list, n);
                },
                None => {
                    if let Some(used) = state.last_used {
                        state::lemma_place(list, used@);
                    }
                },
            }
        }
    }
}

/// The interactive shell of a sandbox with a backend.
pub open spec fn shell(kind: MechanismKind, os: HostOs) -> Seq<Seq<char>> {
    if kind == MechanismKind::Podman {
        seq!["sh"@, "-i"@]
    } else if os == HostOs::MacOs {
        seq!["/bin/zsh"@, "-i"@]
    } else {
        seq!["/bin/sh"@, "-i"@]
    }
}

/// The interactive shell of a sandbox with a backend.
pub fn shell_command(kind: MechanismKind, os: HostOs) -> (r: Vec<String>)
    ensures
        text::texts(r@) == shell(kind, os),
{
    let mut out: Vec<String> = Vec::new();
    if kind == MechanismKind::Podman {
        push_text(&mut out, "sh");
    } else if os == HostOs::MacOs {
        push_text(&mut out, "/bin/zsh");
    } else {
        push_text(&mut out, "/bin/sh");
    }
    push_text(&mut out, "-i");
    proof {
        assert(text::texts(out@) =~= shell(kind, os));
    }
    out
}

/// Looks up the sandbox for an interactive shell, makes it the one that was used last, and says
/// what its backend is asked for.
pub fn begin_shell(
    store: &Store,
    state: &mut SandboxState,
    name: Option<&str>,
    os: HostOs,
) -> (r: Result<(Backend, ExecRequest), StateError>)
    ensures
        match state::chosen(
            *old(state),
            match name {
                Some(n) => Some(n@),
                None => None,
            },
        ) {
            Some(rec) => {
                &&& r is Ok
                &&& r->Ok_0.0.serves(mechanism::resolved_mechanism(rec.mechanism, os), store@)
                &&& requests(r->Ok_0.1, rec, shell(rec.mechanism, os))
                &&& final(state).sandboxes == old(state).sandboxes
                &&& text::optional_text(final(state).last_used) == Some(rec.name@)
            },
            None => {
                &&& r is Err
                &&& r->Err_0@ == StateErrorView::NotFound(
                    match name {
                        Some(n) => n@,
                        None => "(no sandboxes)"@,
                    },
                )
                &&& *final(state) == *old(state)
            },
        },
        old(state).names_distinct() ==> final(state).names_distinct(),
        old(state).last_used_known() ==> final(state).last_used_known(),
{
    let rec = match store.get_or_last(state, name) {
        Ok(rec) => rec,
        Err(e) => {
            return Err(e);
        },
    };
    begin_exec(store, state, name, shell_command(rec.mechanism, os), os)
}

/// Takes a sandbox out of the index, and says which backend is to remove it.
pub fn begin_rm(store: &Store, state: &mut SandboxState, name: &str, os: HostOs) -> (r: Result<
    (Backend, SandboxRecord),
    StateError,
>)
    ensures
        match state::selected(old(state).sandboxes@, name@) {
            Some(rec) => {
                &&& r is Ok
                &&& r->Ok_0.0.serves(mechanism::resolved_mechanism(rec.mechanism, os), store@)
                &&& r->Ok_0.1 == rec
                &&& final(state).sandboxes@ == old(state).sandboxes@.remove(
                    state::place(old(state).sandboxes@, name@) as int,
                )
                &&& text::optional_text(final(state).last_used) == state::last_used_after(
                    *old(state),
                    rec.name@,
                    final(state).sandboxes@,
                )
            },
            None => {
                &&& r is Err
                &&& r->Err_0@ == StateErrorView::NotFound(name@)
                &&& *final(state) == *old(state)
            },
        },
        old(state).names_distinct() ==> final(state).names_distinct(),
        old(state).names_distinct() && old(state).last_used_known()
            ==> final(state).last_used_known(),
{
    match store.remove(state, name) {
        Ok(rec) => Ok((mech_box(rec.mechanism, os, store.root()), rec)),
        Err(e) => Err(e),
    }
}

/// Looks up the sandbox whose logs are wanted, and says which backend has them.
pub fn begin_logs(store: &Store, state: &SandboxState, name: Option<&str>, os: HostOs) -> (r:
    Result<(Backend, String), StateError>)
    ensures
        match state::chosen(
            *state,
            match name {
                Some(n) => Some(n@),
                None => None,
            },
        ) {
            Some(rec) => {
                &&& r is Ok
                &&& r->Ok_0.0.serves(mechanism::resolved_mechanism(rec.mechanism, os), store@)
                &&& r->Ok_0.1 == rec.runtime_id
            },
            None => r is Err && r->Err_0@ == StateErrorView::NotFound(
                match name {
                    Some(n) => n@,
                    None => "(no sandboxes)"@,
                },
            ),
        },
{
    match store.get_or_last(state, name) {
        Ok(rec) => Ok((mech_box(rec.mechanism, os, store.root()), rec.runtime_id)),
        Err(e) => Err(e),
    }
}

/// Why the policy of a sandbox is not set.
#[derive(Debug, PartialEq, Eq)]
pub enum SetError {
    /// There is no such sandbox.
    State(StateError),
    /// The policy does not load, is invalid, or does not fit the host.
    Policy(PolicyError),
}

impl SetError {
    /// The sentence that a user reads.
    pub fn message(&self) -> (r: String)
        ensures
            r@ == match *self {
                SetError::State(e) => e@.message(),
                SetError::Policy(e) => e@.message(),
            },
    {
        match self {
            SetError::State(e) => e.message(),
            SetError::Policy(e) => e.message(),
        }
    }
}

/// Looks up the sandbox whose policy is to be set and checks the policy against the host. `loaded`
/// is what became of the policy file. Only a policy that passes is given back to be stored, with
/// the name of the sandbox.
pub fn begin_policy_set<A: Fn(PoolClaim) -> Result<(), String>>(
    store: &Store,
    state: &SandboxState,
    name: Option<&str>,
    loaded: Result<SandboxPolicy, PolicyError>,
    host: &HostCapacity,
    allocate: A,
) -> (r: Result<(String, SandboxPolicy), SetError>)
    requires
        forall|c: PoolClaim| call_requires(allocate, (c,)),
    ensures
        match state::chosen(
            *state,
            match name {
                Some(n) => Some(n@),
                None => None,
            },
        ) {
            None => r is Err && r->Err_0 is State && r->Err_0->State_0@ == StateErrorView::NotFound(
                match name {
                    Some(n) => n@,
                    None => "(no sandboxes)"@,
                },
            ),
            Some(rec) => match loaded {
                Err(e) => r == Err::<(String, SandboxPolicy), SetError>(SetError::Policy(e)),
                Ok(policy) => match r {
                    Ok(set) => {
                        &&& set.0 == rec.name
                        &&& set.1 == policy
                        &&& launch::passes(policy, *host, allocate)
                    },
                    Err(SetError::Policy(e)) => match policy.fault() {
                        Some(fault) => e@ == fault,
                        None => launch::cannot_pass(policy, *host, allocate, e@),
                    },
                    Err(SetError::State(_)) => false,
                },
            },
        },
{
    let rec = match store.get_or_last(state, name) {
        Ok(rec) => rec,
        Err(e) => {
            return Err(SetError::State(e));
        },
    };
    let policy = match loaded {
        Ok(policy) => policy,
        Err(e) => {
            return Err(SetError::Policy(e));
        },
    };
    match preflight(&policy, host, allocate) {
        Ok(()) => Ok((rec.name, policy)),
        Err(e) => Err(SetError::Policy(e)),
    }
}

/// The record of a sandbox that a backend has just created, with the log file of the store.
/// `written` is its policy as it is written to disk.
pub fn created_record(
    store: &Store,
    name: &str,
    kind: MechanismKind,
    result: &CreateResult,
    written: Result<String, PolicyError>,
    workdir: &str,
) -> (r: Result<SandboxRecord, StateError>)
    ensures
        match written {
            Err(e) => r is Err && r->Err_0@ == StateErrorView::Io(e@.message()),
            Ok(yaml) => {
                &&& r is Ok
                &&& state::is_uuid(r->Ok_0.id@)
                &&& r->Ok_0.name@ == name@
                &&& r->Ok_0.mechanism == kind
                &&& r->Ok_0.runtime_id@ == result.runtime_id@
                &&& r->Ok_0.policy_hash@ == digest::text_hash(yaml@)
                &&& r->Ok_0.workdir@ == workdir@
                &&& r->Ok_0.created_at.seconds >= 0
                &&& r->Ok_0.created_at.nanos < 1_000_000_000
                &&& r->Ok_0.proxy_port == result.proxy_port
                &&& text::optional_text(r->Ok_0.log_path) == Some(
                    paths::joined(paths::joined(store@, "logs"@), name@ + ".log"@),
                )
                &&& !r->Ok_0.ephemeral
            },
        },
{
    match Store::new_record(
        name,
        kind,
        result.runtime_id.as_str(),
        written,
        workdir,
        false,
        result.proxy_port,
    ) {
        Ok(rec) => {
            let mut rec = rec;
            rec.log_path = Some(store.log_path_for(name));
            Ok(rec)
        },
        Err(e) => Err(e),
    }
}

/// What `create` prints.
pub fn created_line(name: &str, backend: &Backend, runtime_id: &str) -> (r: String)
    ensures
        r@ == "created sandbox '"@ + name@ + "' via "@ + backend.title() + " ("@ + runtime_id@
            + ")"@,
{
    "created sandbox '".to_owned().concat(name).concat("' via ").concat(backend.name()).concat(
        " (",
    ).concat(runtime_id).concat(")")
}

/// What `policy set` prints.
pub fn updated_line(name: &str) -> (r: String)
    ensures
        r@ == "updated policy for '"@ + name@ + "'"@,
{
    "updated policy for '".to_owned().concat(name).concat("'")
}

/// What `rm` prints.
pub fn removed_line(name: &str) -> (r: String)
    ensures
        r@ == "removed '"@ + name@ + "'"@,
{
    "removed '".to_owned().concat(name).concat("'")
}

/// A moment as text in the form of RFC 3339, where the calendar reaches it.
pub uninterp spec fn rfc3339(seconds: i64, nanos: u32) -> Option<Seq<char>>;

/// `chrono::DateTime::to_rfc3339` of the moment that `chrono::DateTime::from_timestamp` makes: the
/// text depends on the seconds and the nanoseconds alone. There is none for a moment that chrono
/// cannot hold.
#[verifier::external_body]
fn rfc3339_text(at: &Timestamp) -> (r: Option<String>)
    ensures
        text::optional_text(r) == rfc3339(at.seconds, at.nanos),
{
    chrono::DateTime::from_timestamp(at.seconds, at.nanos).map(|t| t.to_rfc3339())
}

/// Whether the runtime id of a sandbox can be cut for the list: it is short, or a character starts
/// at the cut.
pub open spec fn can_cut(runtime_id: Seq<char>) -> bool {
    let bytes = vstd::utf8::encode_utf8(runtime_id);
    bytes.len() > 16 ==> vstd::utf8::is_char_boundary(bytes, 16)
}

/// The first sixteen bytes of a runtime id, or all of a shorter one.
pub open spec fn short_id(runtime_id: Seq<char>) -> Seq<char> {
    let bytes = vstd::utf8::encode_utf8(runtime_id);
    if bytes.len() > 16 {
        vstd::utf8::decode_utf8(bytes.subrange(0, 16))
    } else {
        runtime_id
    }
}

/// The first sixteen bytes of a runtime id.
pub fn cut_id(runtime_id: &str) -> (r: String)
    requires
        can_cut(runtime_id@),
    ensures
        r@ == short_id(runtime_id@),
{
    let n: usize = runtime_id.as_bytes().len();
    if n <= 16 {
        return runtime_id.to_owned();
    }
    let (head, _tail) = runtime_id.split_at(16);
    proof {
        vstd::utf8::encode_utf8_decode_utf8(head@);
    }
    head.to_owned()
}

/// The line of a sandbox in the list: name, backend, runtime id and when it was created.
pub open spec fn row(rec: SandboxRecord, created: Seq<char>) -> Seq<char> {
    rec.name@ + "\t"@ + rec.mechanism.name() + "\t"@ + short_id(rec.runtime_id@) + "\t"@ + created
}

/// The line of a sandbox in the list, which was created at `created`.
pub fn ls_row(rec: &SandboxRecord, created: &str) -> (r: String)
    requires
        can_cut(rec.runtime_id@),
    ensures
        r@ == row(*rec, created@),
{
    rec.name.as_str().to_owned().concat("\t").concat(rec.mechanism.as_str()).concat("\t").concat(
        cut_id(rec.runtime_id.as_str()).as_str(),
    ).concat("\t").concat(created)
}

/// The line of a sandbox in the list, where the calendar reaches the moment it was created.
pub fn ls_line(rec: &SandboxRecord) -> (r: Option<String>)
    requires
        can_cut(rec.runtime_id@),
    ensures
        text::optional_text(r) == match rfc3339(rec.created_at.seconds, rec.created_at.nanos) {
            Some(created) => Some(row(*rec, created)),
            None => None,
        },
{
    match rfc3339_text(&rec.created_at) {
        Some(created) => Some(ls_row(rec, created.as_str())),
        None => None,
    }
}

/// What `ls` prints where there is no sandbox.
pub fn no_sandboxes_line() -> (r: &'static str)
    ensures
        r@ == "(no sandboxes)"@,
{
    "(no sandboxes)"
}

/// The backends that `doctor` looks at: the one that was named, or all of them.
pub open spec fn examined(mechanism: Option<MechanismKind>, os: HostOs) -> Seq<MechanismKind> {
    match mechanism {
        Some(m) => seq![mechanism::resolved_mechanism(m, os)],
        None => seq![MechanismKind::Podman, MechanismKind::Mac, MechanismKind::Krun],
    }
}

/// The backends that `doctor` looks at.
pub fn doctor_kinds(mechanism: Option<MechanismKind>, os: HostOs) -> (r: Vec<MechanismKind>)
    ensures
        r@ == examined(mechanism, os),
{
    let mut kinds: Vec<MechanismKind> = Vec::new();
    match mechanism {
        Some(m) => {
            kinds.push(resolve_mechanism(m, os));
        },
        None => {
            kinds.push(MechanismKind::Podman);
            kinds.push(MechanismKind::Mac);
            kinds.push(MechanismKind::Krun);
        },
    }
    assert(kinds@ =~= examined(mechanism, os));
    kinds
}

/// The items of a backend as they stand in the report of `doctor`.
pub open spec fn titled(title: Seq<char>, items: Seq<DoctorItem>) -> Seq<DoctorItemView> {
    items.map_values(
        |i: DoctorItem|
            DoctorItemView { name: title + "/"@ + i.name@, ok: i.ok, detail: i.detail@ },
    )
}

/// Appends the items of a backend to the report of `doctor`.
pub fn add_items(all: &mut Vec<DoctorItem>, title: &str, items: &Vec<DoctorItem>)
    ensures
        mechanism::report(final(all)@) == mechanism::report(old(all)@) + titled(title@, items@),
{
    let mut i: usize = 0;
    proof {
        assert(titled(title@, items@.take(0)) =~= Seq::<DoctorItemView>::empty());
        assert(mechanism::report(all@) =~= mechanism::report(old(all)@) + titled(
            title@,
            items@.take(0),
        ));
    }
    while i < items.len()
        invariant
            i <= items@.len(),
            mechanism::report(all@) == mechanism::report(old(all)@) + titled(
                title@,
                items@.take(i as int),
            ),
        decreases items@.len() - i,
    {
        let item = &items[i];
        let name = title.to_owned().concat("/").concat(item.name.as_str());
        push_item(all, name.as_str(), item.ok, item.detail.as_str());
        proof {
            let view = DoctorItemView {
                name: title@ + "/"@ + item.name@,
                ok: item.ok,
                detail: item.detail@,
            };
            assert(titled(title@, items@.take(i + 1)) =~= titled(
                title@,
                items@.take(i as int),
            ).push(view));
        }
        i += 1;
    }
    proof {
        assert(items@.take(i as int) =~= items@);
    }
}

/// Ends the report of `doctor` with the backend that is planned.
pub fn add_planned(all: &mut Vec<DoctorItem>)
    ensures
        mechanism::report(final(all)@) == mechanism::report(old(all)@).push(
            DoctorItemView {
                name: "future/linux-bwrap"@,
                ok: true,
                detail:
                    "planned: linux host with rootless podman + bubblewrap (not in mac-first v1)"@,
            },
        ),
{
    push_item(
        all,
        "future/linux-bwrap",
        true,
        "planned: linux host with rootless podman + bubblewrap (not in mac-first v1)",
    );
}

/// The line of an item in the report of `doctor`.
pub fn doctor_line(item: &DoctorItem) -> (r: String)
    ensures
        r@ == "["@ + (if item.ok {
            "ok"@
        } else {
            "FAIL"@
        }) + "] "@ + item.name@ + ": "@ + item.detail@,
{
    let mark: &str = if item.ok {
        "ok"
    } else {
        "FAIL"
    };
    "[".to_owned().concat(mark).concat("] ").concat(item.name.as_str()).concat(": ").concat(
        item.detail.as_str(),
    )
}

/// An exit status is what is left of a code once whole multiples of 256 are taken away.
pub proof fn law_code_is_cut_to_a_byte(code: int, times: int)
    ensures
        0 <= low_byte(code) < 256,
        low_byte(code + 256 * times) == low_byte(code),
        0 <= code < 256 ==> low_byte(code) == code,
        -256 <= code < 0 ==> low_byte(code) == code + 256,
{
    vstd::arithmetic::div_mod::lemma_mod_multiples_vanish(times, code, 256);
    assert(256 * times + code == code + 256 * times);
}

/// What the tool exits with: the code of the command where it has one, zero after a command that
/// ran once without one, and one after a command in a sandbox without one.
pub proof fn law_exit_status(result: &CreateResult, ran: &ExecResult, r: u8)
    ensures
        call_ensures(run_status, (result,), r) ==> {
            &&& result.exit_code is None ==> r == 0
            &&& result.exit_code matches Some(code) ==> (0 <= code < 256 ==> r == code)
        },
        call_ensures(exec_status, (ran,), r) ==> {
            &&& ran.code is None ==> r == 1
            &&& ran.code matches Some(code) ==> (0 <= code < 256 ==> r == code)
        },
{
}

/// Each kind has one backend: a container of the fixed image under whichever program is found,
/// Seatbelt with its files in `mac` below the state directory, or libkrun. None is for `Auto`.
pub proof fn law_backend_of_a_kind(backend: Backend, root: Seq<char>)
    ensures
        !backend.serves(MechanismKind::Auto, root),
        backend.serves(MechanismKind::Podman, root) <==> (backend matches Backend::Podman(m)
            && m.binary is None && m.image@ == "docker.io/library/alpine:3.20"@),
        backend.serves(MechanismKind::Mac, root) <==> (backend matches Backend::Mac(m)
            && m.state_dir is Some && m.state_dir->0@ == paths::joined(root, "mac"@)),
        backend.serves(MechanismKind::Krun, root) <==> backend is Krun,
{
}

/// The names of the backends, letter by letter.
pub proof fn law_names_in_full(p: PodmanMechanism, m: MacMechanism, k: KrunMechanism)
    ensures
        Backend::Podman(p).title() == "linux_podman"@,
        Backend::Mac(m).title() == "mac_seatbelt"@,
        Backend::Krun(k).title() == "linux_libkrun"@,
{
}

/// A command in a sandbox goes to the container of that sandbox, word for word, on a terminal, in
/// `/workspace`, and with no variable of its own.
pub proof fn law_command_goes_to_its_sandbox(
    req: ExecRequest,
    rec: SandboxRecord,
    command: Seq<String>,
)
    requires
        requests(req, rec, text::texts(command)),
    ensures
        req.name@ == rec.name@,
        req.runtime_id@ == rec.runtime_id@,
        req.command@.len() == command.len(),
        forall|i: int| 0 <= i < command.len() ==> (#[trigger] req.command@[i])@ == command[i]@,
        req.env@.len() == 0,
        req.tty,
        req.cwd is Some,
        req.cwd->0@ == "/workspace"@,
{
    let sent = text::texts(req.command@);
    assert(sent.len() == req.command@.len());
    assert forall|i: int| 0 <= i < command.len() implies (#[trigger] req.command@[i])@
        == command[i]@ by {
        assert(sent[i] == req.command@[i]@);
        assert(text::texts(command)[i] == command[i]@);
    }
}

/// The shell is `sh` in a container, on every system; else it is `/bin/zsh` on macOS and `/bin/sh`
/// elsewhere. It is always interactive.
pub proof fn law_shell_of_a_sandbox(kind: MechanismKind, os: HostOs)
    ensures
        shell(kind, os).len() == 2,
        shell(kind, os)[1] == "-i"@,
        kind == MechanismKind::Podman ==> shell(kind, os)[0] == "sh"@,
        kind != MechanismKind::Podman && os == HostOs::MacOs ==> shell(kind, os)[0] == "/bin/zsh"@,
        kind != MechanismKind::Podman && os != HostOs::MacOs ==> shell(kind, os)[0] == "/bin/sh"@,
{
}

/// A runtime id of at most sixteen bytes is shown whole; of a longer one the first sixteen bytes
/// are, and no other.
pub proof fn law_runtime_id_is_cut(runtime_id: Seq<char>)
    requires
        can_cut(runtime_id),
    ensures
        vstd::utf8::encode_utf8(runtime_id).len() <= 16 ==> short_id(runtime_id) == runtime_id,
        vstd::utf8::encode_utf8(runtime_id).len() > 16 ==> vstd::utf8::encode_utf8(
            short_id(runtime_id),
        ) == vstd::utf8::encode_utf8(runtime_id).take(16),
{
    let bytes = vstd::utf8::encode_utf8(runtime_id);
    vstd::utf8::encode_utf8_valid_utf8(runtime_id);
    if bytes.len() > 16 {
        vstd::utf8::valid_utf8_split(bytes, 16);
        vstd::utf8::decode_utf8_encode_utf8(bytes.subrange(0, 16));
        assert(bytes.subrange(0, 16) =~= bytes.take(16));
    }
}

/// A runtime id can be cut where it has at most sixteen bytes, and where a character starts behind
/// the sixteenth.
pub proof fn law_what_can_be_cut(runtime_id: Seq<char>)
    ensures
        ({
            let bytes = vstd::utf8::encode_utf8(runtime_id);
            &&& bytes.len() <= 16 ==> can_cut(runtime_id)
            &&& bytes.len() > 16 ==> (can_cut(runtime_id)
                <==> !vstd::utf8::is_continuation_byte(bytes[16]))
        }),
{
    vstd::utf8::encode_utf8_valid_utf8(runtime_id);
    let bytes = vstd::utf8::encode_utf8(runtime_id);
    if bytes.len() > 16 {
        vstd::utf8::is_char_boundary_iff_not_is_continuation_byte(bytes, 16);
    }
}

/// The line of a sandbox has four columns with a tab between each two: its name, its backend, its
/// runtime id as it is cut, and when it was created.
pub proof fn law_columns_of_the_list(rec: SandboxRecord, created: Seq<char>)
    ensures
        row(rec, created) == rec.name@.push('\t') + rec.mechanism.name().push('\t') + short_id(
            rec.runtime_id@,
        ).push('\t') + created,
{
    reveal_strlit("\t");
    assert(row(rec, created) =~= rec.name@.push('\t') + rec.mechanism.name().push('\t') + short_id(
        rec.runtime_id@,
    ).push('\t') + created);
}

/// `doctor` looks at the backend that was named, and at no other; without a name at all three.
pub proof fn law_examined_backends(kind: MechanismKind, os: HostOs)
    ensures
        examined(Some(kind), os).len() == 1,
        examined(Some(kind), os)[0] == mechanism::resolved_mechanism(kind, os),
        examined(None, os).len() == 3,
        examined(None, os)[0] == MechanismKind::Podman,
        examined(None, os)[1] == MechanismKind::Mac,
        examined(None, os)[2] == MechanismKind::Krun,
{
}

/// Every item of a backend stands in the report, in order, behind the name of the backend and a
/// slash, with its result and its words.
pub proof fn law_every_item_is_reported(title: Seq<char>, items: Seq<DoctorItem>, i: int)
    ensures
        titled(title, items).len() == items.len(),
        0 <= i < items.len() ==> {
            &&& titled(title, items)[i].name == title + "/"@ + items[i].name@
            &&& titled(title, items)[i].ok == items[i].ok
            &&& titled(title, items)[i].detail == items[i].detail@
        },
{
}

/// What the commands print, word for word.
pub proof fn law_printed_lines(name: &str, backend: &Backend, id: &str, item: &DoctorItem, r: String)
    ensures
        call_ensures(created_line, (name, backend, id), r) ==> r@ == "created sandbox '"@ + name@
            + "' via "@ + backend.title() + " ("@ + id@ + ")"@,
        call_ensures(updated_line, (name,), r) ==> r@ == "updated policy for '"@ + name@ + "'"@,
        call_ensures(removed_line, (name,), r) ==> r@ == "removed '"@ + name@ + "'"@,
        call_ensures(doctor_line, (item,), r) && item.ok ==> r@ == "["@ + "ok"@ + "] "@
            + item.name@ + ": "@ + item.detail@,
        call_ensures(doctor_line, (item,), r) && !item.ok ==> r@ == "["@ + "FAIL"@ + "] "@
            + item.name@ + ": "@ + item.detail@,
{
}

/// The logs of a name are those of the first sandbox of the whole index that goes by it, with the
/// backend of that sandbox; a name that none goes by is refused.
pub proof fn law_logs_of_a_named_sandbox(
    store: &Store,
    state: &SandboxState,
    name: &str,
    os: HostOs,
    i: int,
    r: Result<(Backend, String), StateError>,
)
    requires
        call_ensures(begin_logs, (store, state, Some(name), os), r),
        0 <= i <= state.sandboxes@.len(),
        i < state.sandboxes@.len() ==> state.sandboxes@[i].name@ == name@
            || state.sandboxes@[i].id@ == name@,
        forall|k: int|
            0 <= k < i ==> (#[trigger] state.sandboxes@[k]).name@ != name@
                && state.sandboxes@[k].id@ != name@,
    ensures
        i < state.sandboxes@.len() ==> {
            &&& r is Ok
            &&& r->Ok_0.1 == state.sandboxes@[i].runtime_id
            &&& r->Ok_0.0.serves(
                mechanism::resolved_mechanism(state.sandboxes@[i].mechanism, os),
                store@,
            )
        },
        i == state.sandboxes@.len() ==> r is Err && r->Err_0@ == StateErrorView::NotFound(name@),
{
    state::law_named_sandbox_is_found_at_any_place(*state, name@);
    if i < state.sandboxes@.len() {
        state::law_named_sandbox_is_the_first_of_that_name(*state, name@, i);
    }
}

/// A policy is set for the first sandbox of the whole index that goes by a name, and only as it was
/// loaded, where it has no fault and both its claims can be granted.
pub proof fn law_policy_is_set_for_a_named_sandbox<A: Fn(PoolClaim) -> Result<(), String>>(
    store: &Store,
    state: &SandboxState,
    name: &str,
    loaded: Result<SandboxPolicy, PolicyError>,
    host: &HostCapacity,
    allocate: A,
    i: int,
    r: Result<(String, SandboxPolicy), SetError>,
)
    requires
        call_ensures(begin_policy_set::<A>, (store, state, Some(name), loaded, host, allocate), r),
        0 <= i <= state.sandboxes@.len(),
        i < state.sandboxes@.len() ==> state.sandboxes@[i].name@ == name@
            || state.sandboxes@[i].id@ == name@,
        forall|k: int|
            0 <= k < i ==> (#[trigger] state.sandboxes@[k]).name@ != name@
                && state.sandboxes@[k].id@ != name@,
    ensures
        i == state.sandboxes@.len() ==> r is Err && r->Err_0 is State && r->Err_0->State_0@
            == StateErrorView::NotFound(name@),
        i < state.sandboxes@.len() ==> {
            &&& loaded matches Err(e) ==> r == Err::<(String, SandboxPolicy), SetError>(
                SetError::Policy(e),
            )
            &&& r matches Ok(set) ==> {
                &&& set.0 == state.sandboxes@[i].name
                &&& loaded == Ok::<SandboxPolicy, PolicyError>(set.1)
                &&& set.1.fault() is None
                &&& launch::passes(set.1, *host, allocate)
            }
            &&& r is Err ==> r->Err_0 is Policy
        },
{
    state::law_named_sandbox_is_found_at_any_place(*state, name@);
    if i < state.sandboxes@.len() {
        state::law_named_sandbox_is_the_first_of_that_name(*state, name@, i);
    }
}

/// A command by name goes to the first sandbox of the whole index that goes by the name, with its
/// own backend, and makes it the one that was used last; a name that none goes by is refused, and
/// changes nothing.
pub proof fn law_command_by_name(
    store: &Store,
    name: &str,
    command: Vec<String>,
    os: HostOs,
    i: int,
)
    ensures
        forall|state: &mut SandboxState, r: Result<(Backend, ExecRequest), StateError>| #[trigger]
            call_ensures(begin_exec, (store, state, Some(name), command, os), r) ==> {
                let list = state.sandboxes@;
                let first = 0 <= i < list.len() && (list[i].name@ == name@ || list[i].id@ == name@)
                    && forall|k: int|
                    0 <= k < i ==> (#[trigger] list[k]).name@ != name@ && list[k].id@ != name@;
                let none = forall|k: int|
                    0 <= k < list.len() ==> (#[trigger] list[k]).name@ != name@ && list[k].id@
                        != name@;
                &&& first ==> {
                    &&& r is Ok
                    &&& r->Ok_0.0.serves(
                        mechanism::resolved_mechanism(list[i].mechanism, os),
                        store@,
                    )
                    &&& requests(r->Ok_0.1, list[i], text::texts(command@))
                    &&& final(state).sandboxes == state.sandboxes
                    &&& text::optional_text(final(state).last_used) == Some(list[i].name@)
                }
                &&& none ==> r is Err && r->Err_0@ == StateErrorView::NotFound(name@)
                    && *final(state) == *state
            },
{
    assert forall|state: &mut SandboxState, r: Result<(Backend, ExecRequest), StateError>|
        #[trigger] call_ensures(begin_exec, (store, state, Some(name), command, os), r) implies {
        let list = state.sandboxes@;
        let first = 0 <= i < list.len() && (list[i].name@ == name@ || list[i].id@ == name@)
            && forall|k: int|
            0 <= k < i ==> (#[trigger] list[k]).name@ != name@ && list[k].id@ != name@;
        let none = forall|k: int|
            0 <= k < list.len() ==> (#[trigger] list[k]).name@ != name@ && list[k].id@ != name@;
        &&& first ==> {
            &&& r is Ok
            &&& r->Ok_0.0.serves(mechanism::resolved_mechanism(list[i].mechanism, os), store@)
            &&& requests(r->Ok_0.1, list[i], text::texts(command@))
            &&& final(state).sandboxes == state.sandboxes
            &&& text::optional_text(final(state).last_used) == Some(list[i].name@)
        }
        &&& none ==> r is Err && r->Err_0@ == StateErrorView::NotFound(name@)
            && *final(state) == *state
    } by {
        let list = state.sandboxes@;
        state::law_named_sandbox_is_found_at_any_place(*state, name@);
        if 0 <= i < list.len() && (list[i].name@ == name@ || list[i].id@ == name@) && forall|k: int|
            0 <= k < i ==> (#[trigger] list[k]).name@ != name@ && list[k].id@ != name@ {
            state::law_named_sandbox_is_the_first_of_that_name(*state, name@, i);
        }
    }
}

/// A shell by name is a command by name: that of the backend of the sandbox.
pub proof fn law_shell_by_name(store: &Store, name: &str, os: HostOs, i: int)
    ensures
        forall|state: &mut SandboxState, r: Result<(Backend, ExecRequest), StateError>| #[trigger]
            call_ensures(begin_shell, (store, state, Some(name), os), r) ==> {
                let list = state.sandboxes@;
                let first = 0 <= i < list.len() && (list[i].name@ == name@ || list[i].id@ == name@)
                    && forall|k: int|
                    0 <= k < i ==> (#[trigger] list[k]).name@ != name@ && list[k].id@ != name@;
                &&& first ==> {
                    &&& r is Ok
                    &&& r->Ok_0.0.serves(
                        mechanism::resolved_mechanism(list[i].mechanism, os),
                        store@,
                    )
                    &&& requests(r->Ok_0.1, list[i], shell(list[i].mechanism, os))
                    &&& final(state).sandboxes == state.sandboxes
                    &&& text::optional_text(final(state).last_used) == Some(list[i].name@)
                }
            },
{
    assert forall|state: &mut SandboxState, r: Result<(Backend, ExecRequest), StateError>|
        #[trigger] call_ensures(begin_shell, (store, state, Some(name), os), r) implies {
        let list = state.sandboxes@;
        let first = 0 <= i < list.len() && (list[i].name@ == name@ || list[i].id@ == name@)
            && forall|k: int|
            0 <= k < i ==> (#[trigger] list[k]).name@ != name@ && list[k].id@ != name@;
        &&& first ==> {
            &&& r is Ok
            &&& r->Ok_0.0.serves(mechanism::resolved_mechanism(list[i].mechanism, os), store@)
            &&& requests(r->Ok_0.1, list[i], shell(list[i].mechanism, os))
            &&& final(state).sandboxes == state.sandboxes
            &&& text::optional_text(final(state).last_used) == Some(list[i].name@)
        }
    } by {
        let list = state.sandboxes@;
        if 0 <= i < list.len() && (list[i].name@ == name@ || list[i].id@ == name@) && forall|k: int|
            0 <= k < i ==> (#[trigger] list[k]).name@ != name@ && list[k].id@ != name@ {
            state::law_named_sandbox_is_the_first_of_that_name(*state, name@, i);
        }
    }
}

/// A sandbox is removed by the first record of the whole index that goes by the name, with its own
/// backend; all the others stay, in their order.
pub proof fn law_removal_by_name(store: &Store, name: &str, os: HostOs, i: int)
    ensures
        forall|state: &mut SandboxState, r: Result<(Backend, SandboxRecord), StateError>|
            #[trigger]
            call_ensures(begin_rm, (store, state, name, os), r) ==> {
                let list = state.sandboxes@;
                let first = 0 <= i < list.len() && (list[i].name@ == name@ || list[i].id@ == name@)
                    && forall|k: int|
                    0 <= k < i ==> (#[trigger] list[k]).name@ != name@ && list[k].id@ != name@;
                &&& first ==> {
                    &&& r is Ok
                    &&& r->Ok_0.0.serves(
                        mechanism::resolved_mechanism(list[i].mechanism, os),
                        store@,
                    )
                    &&& r->Ok_0.1 == list[i]
                    &&& final(state).sandboxes@ == list.take(i) + list.skip(i + 1)
                }
            },
{
    assert forall|state: &mut SandboxState, r: Result<(Backend, SandboxRecord), StateError>|
        #[trigger] call_ensures(begin_rm, (store, state, name, os), r) implies {
        let list = state.sandboxes@;
        let first = 0 <= i < list.len() && (list[i].name@ == name@ || list[i].id@ == name@)
            && forall|k: int|
            0 <= k < i ==> (#[trigger] list[k]).name@ != name@ && list[k].id@ != name@;
        &&& first ==> {
            &&& r is Ok
            &&& r->Ok_0.0.serves(mechanism::resolved_mechanism(list[i].mechanism, os), store@)
            &&& r->Ok_0.1 == list[i]
            &&& final(state).sandboxes@ == list.take(i) + list.skip(i + 1)
        }
    } by {
        let list = state.sandboxes@;
        if 0 <= i < list.len() && (list[i].name@ == name@ || list[i].id@ == name@) && forall|k: int|
            0 <= k < i ==> (#[trigger] list[k]).name@ != name@ && list[k].id@ != name@ {
            state::law_named_sandbox_is_the_first_of_that_name(*state, name@, i);
            assert(list.remove(i) =~= list.take(i) + list.skip(i + 1));
        }
    }
}

/// The record of a created sandbox says what was created, and goes by the name.
pub proof fn law_record_of_a_created_sandbox(
    store: &Store,
    name: &str,
    kind: MechanismKind,
    result: &CreateResult,
    yaml: String,
    workdir: &str,
    r: Result<SandboxRecord, StateError>,
)
    requires
        call_ensures(created_record, (store, name, kind, result, Ok(yaml), workdir), r),
    ensures
        r is Ok,
        r->Ok_0.answers_to(name@),
        r->Ok_0.name@ == name@,
        r->Ok_0.mechanism == kind,
        r->Ok_0.runtime_id@ == result.runtime_id@,
        r->Ok_0.workdir@ == workdir@,
        r->Ok_0.proxy_port == result.proxy_port,
        r->Ok_0.policy_hash@ == digest::text_hash(yaml@),
        r->Ok_0.log_path is Some,
        r->Ok_0.log_path->0@ == paths::joined(paths::joined(store@, "logs"@), name@ + ".log"@),
        !r->Ok_0.ephemeral,
{
}

} // verus!
