//! The index of the sandboxes of a user, and where their files are.

use vstd::prelude::*;

use crate::digest;
use crate::paths;
use crate::policy::{MechanismKind, PolicyError, SandboxPolicy};
use crate::text::{self, push_string, push_text, same_text};

verus! {

/// Errors of the sandbox store.
#[derive(Debug, PartialEq, Eq)]
pub enum StateError {
    Io(String),
    Json(String),
    Yaml(String),
    NotFound(String),
    AlreadyExists(String),
}

/// A store error with its text as characters.
pub enum StateErrorView {
    Io(Seq<char>),
    Json(Seq<char>),
    Yaml(Seq<char>),
    NotFound(Seq<char>),
    AlreadyExists(Seq<char>),
}

impl View for StateError {
    type V = StateErrorView;

    open spec fn view(&self) -> StateErrorView {
        match *self {
            StateError::Io(m) => StateErrorView::Io(m@),
            StateError::Json(m) => StateErrorView::Json(m@),
            StateError::Yaml(m) => StateErrorView::Yaml(m@),
            StateError::NotFound(m) => StateErrorView::NotFound(m@),
            StateError::AlreadyExists(m) => StateErrorView::AlreadyExists(m@),
        }
    }
}

impl StateErrorView {
    /// The sentence that a user reads.
    pub open spec fn message(self) -> Seq<char> {
        match self {
            StateErrorView::Io(m) => "io error: "@ + m,
            StateErrorView::Json(m) => "json error: "@ + m,
            StateErrorView::Yaml(m) => "yaml error: "@ + m,
            StateErrorView::NotFound(m) => "sandbox not found: "@ + m,
            StateErrorView::AlreadyExists(m) => "sandbox already exists: "@ + m,
        }
    }
}

impl StateError {
    /// The sentence that a user reads.
    pub fn message(&self) -> (r: String)
        ensures
            r@ == self@.message(),
    {
        match self {
            StateError::Io(m) => "io error: ".to_owned().concat(m.as_str()),
            StateError::Json(m) => "json error: ".to_owned().concat(m.as_str()),
            StateError::Yaml(m) => "yaml error: ".to_owned().concat(m.as_str()),
            StateError::NotFound(m) => "sandbox not found: ".to_owned().concat(m.as_str()),
            StateError::AlreadyExists(m) => "sandbox already exists: ".to_owned().concat(
                m.as_str(),
            ),
        }
    }
}

/// A moment: seconds since 1970-01-01 00:00 UTC, and nanoseconds of the second.
#[derive(Debug, Clone, Copy, PartialEq, Eq, Structural)]
pub struct Timestamp {
    pub seconds: i64,
    pub nanos: u32,
}

/// `chrono::Utc::now`: the clock of the machine, which must not stand before 1970. The nanoseconds
/// are those of the second; nothing else is promised of the time.
#[verifier::external_body]
fn utc_now() -> (r: Timestamp)
    ensures
        r.seconds >= 0,
        r.nanos < 1_000_000_000,
{
    let now = chrono::Utc::now();
    Timestamp { seconds: now.timestamp(), nanos: now.timestamp_subsec_nanos() }
}

/// Whether `c` is a lower-case hexadecimal digit.
pub open spec fn is_hex(c: char) -> bool {
    text::is_digit(c) || ('a' <= c && c <= 'f')
}

/// The text of a random UUID: 32 hexadecimal digits in groups of 8, 4, 4, 4 and 12, with the
/// version and the variant in their places.
pub open spec fn is_uuid(s: Seq<char>) -> bool {
    &&& s.len() == 36
    &&& forall|i: int|
        0 <= i < 36 ==> if i == 8 || i == 13 || i == 18 || i == 23 {
            #[trigger] s[i] == '-'
        } else {
            is_hex(s[i])
        }
    &&& s[14] == '4'
    &&& (s[19] == '8' || s[19] == '9' || s[19] == 'a' || s[19] == 'b')
}

/// `uuid::Uuid::new_v4`, as text: a random UUID. Which one it is is left to chance; the random
/// source of the machine must answer.
#[verifier::external_body]
fn random_id() -> (r: String)
    ensures
        is_uuid(r@),
{
    uuid::Uuid::new_v4().to_string()
}

/// Record of a sandbox.
#[derive(Debug, PartialEq, Eq)]
pub struct SandboxRecord {
    pub id: String,
    pub name: String,
    pub mechanism: MechanismKind,
    pub runtime_id: String,
    pub policy_hash: String,
    pub workdir: String,
    pub created_at: Timestamp,
    pub proxy_port: Option<u16>,
    pub log_path: Option<String>,
    pub ephemeral: bool,
}

impl Clone for SandboxRecord {
    fn clone(&self) -> (r: Self)
        ensures
            r == *self,
    {
        SandboxRecord {
            id: self.id.clone(),
            name: self.name.clone(),
            mechanism: self.mechanism,
            runtime_id: self.runtime_id.clone(),
            policy_hash: self.policy_hash.clone(),
            workdir: self.workdir.clone(),
            created_at: self.created_at,
            proxy_port: self.proxy_port,
            log_path: match &self.log_path {
                Some(path) => Some(path.clone()),
                None => None,
            },
            ephemeral: self.ephemeral,
        }
    }
}

impl SandboxRecord {
    /// Whether a sandbox goes by `key`: its name or its id.
    pub open spec fn answers_to(self, key: Seq<char>) -> bool {
        self.name@ == key || self.id@ == key
    }
}

/// Index of the sandboxes, and the one that was used last.
#[derive(Debug, Clone, PartialEq, Eq)]
pub struct SandboxState {
    pub last_used: Option<String>,
    pub sandboxes: Vec<SandboxRecord>,
}

impl Default for SandboxState {
    fn default() -> (r: Self)
        ensures
            r.last_used is None,
            r.sandboxes@.len() == 0,
    {
        SandboxState { last_used: None, sandboxes: Vec::new() }
    }
}

/// The place of the first record that goes by `key`; the length of the list where there is none.
pub open spec fn place(list: Seq<SandboxRecord>, key: Seq<char>) -> nat
    decreases list.len(),
{
    if list.len() == 0 || list[0].answers_to(key) {
        0
    } else {
        1 + place(list.skip(1), key)
    }
}

/// The first record that goes by `key`.
pub open spec fn selected(list: Seq<SandboxRecord>, key: Seq<char>) -> Option<SandboxRecord> {
    if place(list, key) < list.len() {
        Some(list[place(list, key) as int])
    } else {
        None
    }
}

/// The place of the first record with a name; the length of the list where there is none.
pub open spec fn name_place(list: Seq<SandboxRecord>, name: Seq<char>) -> nat
    decreases list.len(),
{
    if list.len() == 0 || list[0].name@ == name {
        0
    } else {
        1 + name_place(list.skip(1), name)
    }
}

/// What `place` is: the first place, and none before it.
pub proof fn lemma_place(list: Seq<SandboxRecord>, key: Seq<char>)
    ensures
        place(list, key) <= list.len(),
        place(list, key) < list.len() ==> list[place(list, key) as int].answers_to(key),
        forall|i: int| 0 <= i < place(list, key) ==> !(#[trigger] list[i]).answers_to(key),
    decreases list.len(),
{
    if list.len() > 0 && !list[0].answers_to(key) {
        lemma_place(list.skip(1), key);
        assert forall|i: int| 0 <= i < place(list, key) implies !(#[trigger] list[i]).answers_to(
            key,
        ) by {
            if i > 0 {
                assert(list[i] == list.skip(1)[i - 1]);
            }
        }
    }
}

/// What `name_place` is: the first place, and none before it.
pub proof fn lemma_name_place(list: Seq<SandboxRecord>, name: Seq<char>)
    ensures
        name_place(list, name) <= list.len(),
        name_place(list, name) < list.len() ==> list[name_place(list, name) as int].name@ == name,
        forall|i: int| 0 <= i < name_place(list, name) ==> (#[trigger] list[i]).name@ != name,
    decreases list.len(),
{
    if list.len() > 0 && list[0].name@ != name {
        lemma_name_place(list.skip(1), name);
        assert forall|i: int| 0 <= i < name_place(list, name) implies (#[trigger] list[i]).name@
            != name by {
            if i > 0 {
                assert(list[i] == list.skip(1)[i - 1]);
            }
        }
    }
}

impl SandboxState {
    /// No two sandboxes have one name.
    pub open spec fn names_distinct(self) -> bool {
        forall|i: int, j: int|
            0 <= i < j < self.sandboxes@.len() ==> (#[trigger] self.sandboxes@[i]).name@ != (
            #[trigger] self.sandboxes@[j]).name@
    }

    /// The sandbox that was used last, if there is one, is in the index.
    pub open spec fn last_used_known(self) -> bool {
        self.last_used matches Some(name) ==> name_place(self.sandboxes@, name@)
            < self.sandboxes@.len()
    }

    /// The place of the first sandbox that goes by `key`.
    fn place_of(&self, key: &str) -> (r: usize)
        ensures
            r == place(self.sandboxes@, key@),
            r <= self.sandboxes@.len(),
    {
        let mut i: usize = 0;
        proof {
            assert(self.sandboxes@.skip(0) =~= self.sandboxes@);
        }
        while i < self.sandboxes.len()
            invariant
                i <= self.sandboxes@.len(),
                place(self.sandboxes@, key@) == i + place(self.sandboxes@.skip(i as int), key@),
            decreases self.sandboxes@.len() - i,
        {
            proof {
                assert(self.sandboxes@.skip(i as int).skip(1) =~= self.sandboxes@.skip(i + 1));
                assert(self.sandboxes@.skip(i as int)[0] == self.sandboxes@[i as int]);
            }
            let s = &self.sandboxes[i];
            if same_text(s.name.as_str(), key) || same_text(s.id.as_str(), key) {
                return i;
            }
            i += 1;
        }
        i
    }

    /// The place of the first sandbox with a name.
    fn name_place_of(&self, name: &str) -> (r: usize)
        ensures
            r == name_place(self.sandboxes@, name@),
            r <= self.sandboxes@.len(),
    {
        let mut i: usize = 0;
        proof {
            assert(self.sandboxes@.skip(0) =~= self.sandboxes@);
        }
        while i < self.sandboxes.len()
            invariant
                i <= self.sandboxes@.len(),
                name_place(self.sandboxes@, name@) == i + name_place(
                    self.sandboxes@.skip(i as int),
                    name@,
                ),
            decreases self.sandboxes@.len() - i,
        {
            proof {
                assert(self.sandboxes@.skip(i as int).skip(1) =~= self.sandboxes@.skip(i + 1));
                assert(self.sandboxes@.skip(i as int)[0] == self.sandboxes@[i as int]);
            }
            if same_text(self.sandboxes[i].name.as_str(), name) {
                return i;
            }
            i += 1;
        }
        i
    }
}

/// The sandbox store under a directory.
#[derive(Debug)]
pub struct Store {
    root: String,
}

impl View for Store {
    type V = Seq<char>;

    /// The directory of the store.
    closed spec fn view(&self) -> Seq<char> {
        self.root@
    }
}

/// The sandbox that an optional name stands for: the one that goes by it; without a name the one
/// that was used last, or the last of the index.
pub open spec fn chosen(state: SandboxState, name: Option<Seq<char>>) -> Option<SandboxRecord> {
    let list = state.sandboxes@;
    let last = if list.len() > 0 {
        Some(list.last())
    } else {
        None
    };
    match name {
        Some(n) => selected(list, n),
        None => match state.last_used {
            Some(used) => match selected(list, used@) {
                Some(rec) => Some(rec),
                None => last,
            },
            None => last,
        },
    }
}

/// The name of the sandbox that was used last, once the one with a name is gone and `rest` is left.
pub open spec fn last_used_after(
    state: SandboxState,
    name: Seq<char>,
    rest: Seq<SandboxRecord>,
) -> Option<Seq<char>> {
    if text::optional_text(state.last_used) != Some(name) {
        text::optional_text(state.last_used)
    } else if rest.len() > 0 {
        Some(rest.last().name@)
    } else {
        None
    }
}

/// The record `record` with the id `fresh` where it has none.
pub open spec fn with_id(record: SandboxRecord, fresh: String) -> SandboxRecord {
    if record.id@.len() == 0 {
        SandboxRecord { id: fresh, ..record }
    } else {
        record
    }
}

impl Store {
    /// The store under a directory.
    pub fn open(root: String) -> (r: Self)
        ensures
            r@ == root@,
    {
        Store { root }
    }

    /// The directories of the store, each after the one it is in.
    pub fn directories(&self) -> (r: Vec<String>)
        ensures
            text::texts(r@) == seq![
                self@,
                paths::joined(self@, "sandboxes"@),
                paths::joined(self@, "logs"@),
                paths::joined(self@, "policies"@),
            ],
    {
        let mut out: Vec<String> = Vec::new();
        push_text(&mut out, self.root.as_str());
        push_string(&mut out, paths::join(self.root.as_str(), "sandboxes"));
        push_string(&mut out, paths::join(self.root.as_str(), "logs"));
        push_string(&mut out, paths::join(self.root.as_str(), "policies"));
        proof {
            assert(text::texts(out@) =~= seq![
                self@,
                paths::joined(self@, "sandboxes"@),
                paths::joined(self@, "logs"@),
                paths::joined(self@, "policies"@),
            ]);
        }
        out
    }

    /// The index to write when the store is opened: an empty one, where there is none yet.
    pub fn initial_index(&self, exists: bool) -> (r: Option<SandboxState>)
        ensures
            r is Some <==> !exists,
            r matches Some(state) ==> state.last_used is None && state.sandboxes@.len() == 0,
    {
        if exists {
            None
        } else {
            Some(SandboxState::default())
        }
    }

    /// The directory of the store.
    pub fn root(&self) -> (r: &str)
        ensures
            r@ == self@,
    {
        self.root.as_str()
    }

    /// The file of the index.
    pub fn index_path(&self) -> (r: String)
        ensures
            r@ == paths::joined(self@, "index.json"@),
    {
        paths::join(self.root.as_str(), "index.json")
    }

    /// The file of the policy of a sandbox.
    pub fn policy_path(&self, name: &str) -> (r: String)
        ensures
            r@ == paths::joined(paths::joined(self@, "policies"@), name@ + ".yaml"@),
    {
        let dir = paths::join(self.root.as_str(), "policies");
        paths::join(dir.as_str(), name.to_owned().concat(".yaml").as_str())
    }

    /// The log file of a sandbox.
    pub fn log_path_for(&self, name: &str) -> (r: String)
        ensures
            r@ == paths::joined(paths::joined(self@, "logs"@), name@ + ".log"@),
    {
        let dir = paths::join(self.root.as_str(), "logs");
        paths::join(dir.as_str(), name.to_owned().concat(".log").as_str())
    }

    /// All sandboxes of an index.
    pub fn list(&self, state: SandboxState) -> (r: Vec<SandboxRecord>)
        ensures
            r == state.sandboxes,
    {
        state.sandboxes
    }

    /// The sandbox that goes by a name or an id.
    pub fn get(&self, state: &SandboxState, name: &str) -> (r: Result<SandboxRecord, StateError>)
        ensures
            match selected(state.sandboxes@, name@) {
                Some(rec) => r == Ok::<SandboxRecord, StateError>(rec),
                None => r is Err && r->Err_0@ == StateErrorView::NotFound(name@),
            },
    {
        let i: usize = state.place_of(name);
        if i < state.sandboxes.len() {
            Ok(state.sandboxes[i].clone())
        } else {
            Err(StateError::NotFound(name.to_owned()))
        }
    }

    /// The sandbox that an optional name stands for.
    pub fn get_or_last(&self, state: &SandboxState, name: Option<&str>) -> (r: Result<
        SandboxRecord,
        StateError,
    >)
        ensures
            match chosen(
                *state,
                match name {
                    Some(n) => Some(n@),
                    None => None,
                },
            ) {
                Some(rec) => r == Ok::<SandboxRecord, StateError>(rec),
                None => r is Err && r->Err_0@ == StateErrorView::NotFound(
                    match name {
                        Some(n) => n@,
                        None => "(no sandboxes)"@,
                    },
                ),
            },
    {
        if let Some(n) = name {
            return self.get(state, n);
        }
        if let Some(last) = &state.last_used {
            let i: usize = state.place_of(last.as_str());
            if i < state.sandboxes.len() {
                return Ok(state.sandboxes[i].clone());
            }
        }
        let n: usize = state.sandboxes.len();
        if n > 0 {
            Ok(state.sandboxes[n - 1].clone())
        } else {
            Err(StateError::NotFound("(no sandboxes)".to_owned()))
        }
    }

    /// Adds a record to an index, with the id `fresh` where it has none. A name that is taken is
    /// refused, and the index stays as it is. The new sandbox is the one that was used last.
    pub fn insert_with_id(
        &self,
        state: &mut SandboxState,
        record: SandboxRecord,
        fresh: String,
    ) -> (r: Result<SandboxRecord, StateError>)
        ensures
            name_place(old(state).sandboxes@, record.name@) < old(state).sandboxes@.len() ==> {
                &&& r is Err
                &&& r->Err_0@ == StateErrorView::AlreadyExists(record.name@)
                &&& *final(state) == *old(state)
            },
            name_place(old(state).sandboxes@, record.name@) == old(state).sandboxes@.len() ==> {
                &&& r == Ok::<SandboxRecord, StateError>(with_id(record, fresh))
                &&& final(state).sandboxes@ == old(state).sandboxes@.push(with_id(record, fresh))
                &&& final(state).last_used == Some(record.name)
            },
            old(state).names_distinct() ==> final(state).names_distinct(),
            old(state).last_used_known() ==> final(state).last_used_known(),
    {
        proof {
            lemma_name_place(state.sandboxes@, record.name@);
        }
        if state.name_place_of(record.name.as_str()) < state.sandboxes.len() {
            return Err(StateError::AlreadyExists(record.name));
        }
        let mut record = record;
        if record.id.as_str().is_empty() {
            record.id = fresh;
        }
        state.last_used = Some(record.name.clone());
        state.sandboxes.push(record.clone());
        proof {
            lemma_name_place(state.sandboxes@, record.name@);
            let n = old(state).sandboxes@.len() as int;
            assert(state.sandboxes@[n].name@ == record.name@);
        }
        Ok(record)
    }

    /// Adds a record to an index, with a random id where it has none.
    pub fn insert(&self, state: &mut SandboxState, record: SandboxRecord) -> (r: Result<
        SandboxRecord,
        StateError,
    >)
        ensures
            name_place(old(state).sandboxes@, record.name@) < old(state).sandboxes@.len() ==> {
                &&& r is Err
                &&& r->Err_0@ == StateErrorView::AlreadyExists(record.name@)
                &&& *final(state) == *old(state)
            },
            name_place(old(state).sandboxes@, record.name@) == old(state).sandboxes@.len() ==> {
                &&& r is Ok
                &&& r->Ok_0 == with_id(record, r->Ok_0.id)
                &&& record.id@.len() == 0 ==> is_uuid(r->Ok_0.id@)
                &&& final(state).sandboxes@ == old(state).sandboxes@.push(r->Ok_0)
                &&& final(state).last_used == Some(record.name)
            },
            old(state).names_distinct() ==> final(state).names_distinct(),
            old(state).last_used_known() ==> final(state).last_used_known(),
    {
        proof {
            lemma_name_place(state.sandboxes@, record.name@);
        }
        let fresh: String = if record.id.as_str().is_empty() {
            random_id()
        } else {
            String::new()
        };
        self.insert_with_id(state, record, fresh)
    }

    /// Sets the policy hash of the sandbox with a name to that of the policy as written, and makes
    /// it the one that was used last.
    pub fn update_policy(
        &self,
        state: &mut SandboxState,
        name: &str,
        written: Result<String, PolicyError>,
    ) -> (r: Result<(), StateError>)
        ensures
            match written {
                Err(e) => {
                    &&& r is Err
                    &&& r->Err_0@ == StateErrorView::Io(e@.message())
                    &&& *final(state) == *old(state)
                },
                Ok(yaml) => {
                    let i = name_place(old(state).sandboxes@, name@);
                    if i < old(state).sandboxes@.len() {
                        &&& r is Ok
                        &&& final(state).last_used is Some
                        &&& final(state).last_used->0@ == name@
                        &&& final(state).sandboxes@.len() == old(state).sandboxes@.len()
                        &&& forall|k: int|
                            0 <= k < old(state).sandboxes@.len() && k != i
                                ==> #[trigger] final(state).sandboxes@[k]
                                == old(state).sandboxes@[k]
                        &&& final(state).sandboxes@[i as int].policy_hash@ == digest::text_hash(
                            yaml@,
                        )
                        &&& final(state).sandboxes@[i as int] == (SandboxRecord {
                            policy_hash: final(state).sandboxes@[i as int].policy_hash,
                            ..old(state).sandboxes@[i as int]
                        })
                    } else {
                        &&& r is Err
                        &&& r->Err_0@ == StateErrorView::NotFound(name@)
                        &&& *final(state) == *old(state)
                    }
                },
            },
            old(state).names_distinct() ==> final(state).names_distinct(),
            old(state).last_used_known() ==> final(state).last_used_known(),
    {
        let hash = match SandboxPolicy::content_hash(written) {
            Ok(hash) => hash,
            Err(e) => {
                return Err(StateError::Io(e.message()));
            },
        };
        let i: usize = state.name_place_of(name);
        if i == state.sandboxes.len() {
            return Err(StateError::NotFound(name.to_owned()));
        }
        let mut rec = state.sandboxes[i].clone();
        rec.policy_hash = hash;
        state.sandboxes.set(i, rec);
        state.last_used = Some(name.to_owned());
        proof {
            lemma_name_place(old(state).sandboxes@, name@);
            lemma_name_place(state.sandboxes@, name@);
            assert(state.sandboxes@[i as int].name@ == name@);
            assert forall|k: int| 0 <= k < state.sandboxes@.len() implies (
            #[trigger] state.sandboxes@[k]).name@ == old(state).sandboxes@[k].name@ by {}
        }
        Ok(())
    }

    /// Takes the sandbox that goes by a name or an id out of an index. Where it was the one that
    /// was used last, the last of the others is.
    pub fn remove(&self, state: &mut SandboxState, name: &str) -> (r: Result<
        SandboxRecord,
        StateError,
    >)
        ensures
            selected(old(state).sandboxes@, name@) is None ==> {
                &&& r is Err
                &&& r->Err_0@ == StateErrorView::NotFound(name@)
                &&& *final(state) == *old(state)
            },
            selected(old(state).sandboxes@, name@) matches Some(rec) ==> {
                let rest = old(state).sandboxes@.remove(place(old(state).sandboxes@, name@) as int);
                &&& r == Ok::<SandboxRecord, StateError>(rec)
                &&& final(state).sandboxes@ == rest
                &&& text::optional_text(final(state).last_used) == last_used_after(
                    *old(state),
                    rec.name@,
                    rest,
                )
            },
            old(state).names_distinct() ==> final(state).names_distinct(),
            old(state).names_distinct() && old(state).last_used_known()
                ==> final(state).last_used_known(),
    {
        let i: usize = state.place_of(name);
        if i == state.sandboxes.len() {
            return Err(StateError::NotFound(name.to_owned()));
        }
        let rec = state.sandboxes.remove(i);
        let was_last = match &state.last_used {
            Some(last) => same_text(last.as_str(), rec.name.as_str()),
            None => false,
        };
        if was_last {
            let n: usize = state.sandboxes.len();
            state.last_used = if n > 0 {
                Some(state.sandboxes[n - 1].name.clone())
            } else {
                None
            };
        }
        proof {
            let before = old(state).sandboxes@;
            let after = state.sandboxes@;
            assert(after == before.remove(i as int));
            if old(state).names_distinct() {
                assert forall|a: int, b: int| 0 <= a < b < after.len() implies (
                #[trigger] after[a]).name@ != (#[trigger] after[b]).name@ by {
                    let x = if a < i {
                        a
                    } else {
                        a + 1
                    };
                    let y = if b < i {
                        b
                    } else {
                        b + 1
                    };
                    assert(after[a] == before[x] && after[b] == before[y]);
                }
            }
            if old(state).last_used_known() && old(state).last_used is Some {
                let last = old(state).last_used->0@;
                lemma_name_place(before, last);
                let k = name_place(before, last) as int;
                if was_last {
                    if after.len() > 0 {
                        lemma_name_place(after, after.last().name@);
                        assert(after[after.len() - 1].name@ == after.last().name@);
                    }
                } else {
                    assert(before[k].name@ == last);
                    assert(k != i);
                    lemma_name_place(after, last);
                    let m = if k < i {
                        k
                    } else {
                        k - 1
                    };
                    assert(after[m] == before[k]);
                }
            }
        }
        Ok(rec)
    }

    /// Makes a sandbox the one that was used last.
    pub fn touch_last_used(&self, state: &mut SandboxState, name: &str)
        ensures
            final(state).sandboxes == old(state).sandboxes,
            final(state).last_used is Some,
            final(state).last_used->0@ == name@,
            old(state).names_distinct() ==> final(state).names_distinct(),
            name_place(old(state).sandboxes@, name@) < old(state).sandboxes@.len()
                ==> final(state).last_used_known(),
    {
        state.last_used = Some(name.to_owned());
    }

    /// What is written to the policy file of a sandbox.
    pub fn policy_text(&self, written: Result<String, PolicyError>) -> (r: Result<
        String,
        StateError,
    >)
        ensures
            match written {
                Ok(yaml) => r == Ok::<String, StateError>(yaml),
                Err(e) => r is Err && r->Err_0@ == StateErrorView::Io(e@.message()),
            },
    {
        match written {
            Ok(yaml) => Ok(yaml),
            Err(e) => Err(StateError::Io(e.message())),
        }
    }

    /// The policy that a parser made of the policy file of a sandbox.
    pub fn loaded_policy(&self, parsed: Result<SandboxPolicy, String>) -> (r: Result<
        SandboxPolicy,
        StateError,
    >)
        ensures
            match parsed {
                Err(m) => r is Err && r->Err_0@ == StateErrorView::Io("yaml parse error: "@ + m@),
                Ok(policy) => match policy.fault() {
                    None => r == Ok::<SandboxPolicy, StateError>(policy),
                    Some(e) => r is Err && r->Err_0@ == StateErrorView::Io(e.message()),
                },
            },
    {
        match SandboxPolicy::check_parsed(parsed) {
            Ok(policy) => Ok(policy),
            Err(e) => Err(StateError::Io(e.message())),
        }
    }

    /// The record of a sandbox that was created at `created_at` and goes by `id`.
    pub fn record(
        id: String,
        created_at: Timestamp,
        name: &str,
        mechanism: MechanismKind,
        runtime_id: &str,
        written: Result<String, PolicyError>,
        workdir: &str,
        ephemeral: bool,
        proxy_port: Option<u16>,
    ) -> (r: Result<SandboxRecord, StateError>)
        ensures
            match written {
                Err(e) => r is Err && r->Err_0@ == StateErrorView::Io(e@.message()),
                Ok(yaml) => {
                    &&& r is Ok
                    &&& r->Ok_0.id == id
                    &&& r->Ok_0.name@ == name@
                    &&& r->Ok_0.mechanism == mechanism
                    &&& r->Ok_0.runtime_id@ == runtime_id@
                    &&& r->Ok_0.policy_hash@ == digest::text_hash(yaml@)
                    &&& r->Ok_0.workdir@ == workdir@
                    &&& r->Ok_0.created_at == created_at
                    &&& r->Ok_0.proxy_port == proxy_port
                    &&& r->Ok_0.log_path is None
                    &&& r->Ok_0.ephemeral == ephemeral
                },
            },
    {
        let policy_hash = match SandboxPolicy::content_hash(written) {
            Ok(hash) => hash,
            Err(e) => {
                return Err(StateError::Io(e.message()));
            },
        };
        Ok(
            SandboxRecord {
                id,
                name: name.to_owned(),
                mechanism,
                runtime_id: runtime_id.to_owned(),
                policy_hash,
                workdir: workdir.to_owned(),
                created_at,
                proxy_port,
                log_path: None,
                ephemeral,
            },
        )
    }

    /// The record of a sandbox that is created now, with a random id.
    pub fn new_record(
        name: &str,
        mechanism: MechanismKind,
        runtime_id: &str,
        written: Result<String, PolicyError>,
        workdir: &str,
        ephemeral: bool,
        proxy_port: Option<u16>,
    ) -> (r: Result<SandboxRecord, StateError>)
        ensures
            match written {
                Err(e) => r is Err && r->Err_0@ == StateErrorView::Io(e@.message()),
                Ok(yaml) => {
                    &&& r is Ok
                    &&& is_uuid(r->Ok_0.id@)
                    &&& r->Ok_0.name@ == name@
                    &&& r->Ok_0.mechanism == mechanism
                    &&& r->Ok_0.runtime_id@ == runtime_id@
                    &&& r->Ok_0.policy_hash@ == digest::text_hash(yaml@)
                    &&& r->Ok_0.workdir@ == workdir@
                    &&& r->Ok_0.created_at.seconds >= 0
                    &&& r->Ok_0.created_at.nanos < 1_000_000_000
                    &&& r->Ok_0.proxy_port == proxy_port
                    &&& r->Ok_0.log_path is None
                    &&& r->Ok_0.ephemeral == ephemeral
                },
            },
    {
        Store::record(
            random_id(),
            utc_now(),
            name,
            mechanism,
            runtime_id,
            written,
            workdir,
            ephemeral,
            proxy_port,
        )
    }
}

/// A sandbox that was added is found by its name and by its id, where no older one goes by that
/// text.
pub proof fn law_added_sandbox_is_found(
    list: Seq<SandboxRecord>,
    record: SandboxRecord,
    key: Seq<char>,
)
    requires
        record.answers_to(key),
        selected(list, key) is None,
    ensures
        selected(list.push(record), key) == Some(record),
{
    let all = list.push(record);
    lemma_place(list, key);
    lemma_place(all, key);
    let i = place(all, key) as int;
    assert(all[list.len() as int].answers_to(key));
    if i < list.len() {
        assert(all[i] == list[i]);
    }
}

/// Removing the sandbox that was just added, by its name or by its id, gives back the list as it
/// was, where no older one goes by that text.
pub proof fn law_removing_undoes_adding(
    list: Seq<SandboxRecord>,
    record: SandboxRecord,
    key: Seq<char>,
)
    requires
        record.answers_to(key),
        selected(list, key) is None,
    ensures
        list.push(record).remove(place(list.push(record), key) as int) == list,
{
    let all = list.push(record);
    lemma_place(list, key);
    lemma_place(all, key);
    let i = place(all, key) as int;
    assert(all[list.len() as int].answers_to(key));
    if i < list.len() {
        assert(all[i] == list[i]);
    }
    assert(all.remove(i) =~= list);
}

/// In an index whose names are distinct, the name of a sandbox that was removed is free again.
pub proof fn law_removed_name_is_free(state: SandboxState, key: Seq<char>)
    requires
        state.names_distinct(),
        selected(state.sandboxes@, key) is Some,
    ensures
        ({
            let rest = state.sandboxes@.remove(place(state.sandboxes@, key) as int);
            name_place(rest, selected(state.sandboxes@, key)->0.name@) == rest.len()
        }),
{
    let list = state.sandboxes@;
    let i = place(list, key) as int;
    let rest = list.remove(i);
    let name = list[i].name@;
    lemma_name_place(rest, name);
    let k = name_place(rest, name) as int;
    if k < rest.len() {
        if k < i {
            assert(rest[k] == list[k]);
        } else {
            assert(rest[k] == list[k + 1]);
        }
    }
}

/// Without a name, the sandbox that was just added is the one that is meant, where no older one
/// has that name for its id.
pub proof fn law_added_sandbox_is_the_default(
    list: Seq<SandboxRecord>,
    record: SandboxRecord,
    after: SandboxState,
)
    requires
        selected(list, record.name@) is None,
        after.sandboxes@ == list.push(record),
        after.last_used == Some(record.name),
    ensures
        chosen(after, None) == Some(record),
{
    law_added_sandbox_is_found(list, record, record.name@);
}

/// Without a name, the sandbox that was used last is the one that is meant, where no other goes by
/// its name.
pub proof fn law_used_sandbox_is_the_default(state: SandboxState, i: int)
    requires
        0 <= i < state.sandboxes@.len(),
        text::optional_text(state.last_used) == Some(state.sandboxes@[i].name@),
        forall|k: int|
            0 <= k < state.sandboxes@.len() && k != i ==> !(
            #[trigger] state.sandboxes@[k]).answers_to(state.sandboxes@[i].name@),
    ensures
        chosen(state, None) == Some(state.sandboxes@[i]),
{
    let list = state.sandboxes@;
    lemma_place(list, list[i].name@);
    assert(list[i].answers_to(list[i].name@));
}

/// A sandbox goes by its name and by its id, and by nothing else.
pub proof fn law_sandbox_goes_by_name_or_id(record: SandboxRecord, key: Seq<char>)
    ensures
        record.name@ == key ==> record.answers_to(key),
        record.id@ == key ==> record.answers_to(key),
        record.name@ != key && record.id@ != key ==> !record.answers_to(key),
{
}

/// With a name, the sandbox that is meant is the first of the whole index whose name or id is that
/// name, at whatever place it stands, the last included.
pub proof fn law_named_sandbox_is_the_first_of_that_name(
    state: SandboxState,
    name: Seq<char>,
    i: int,
)
    requires
        0 <= i < state.sandboxes@.len(),
        state.sandboxes@[i].name@ == name || state.sandboxes@[i].id@ == name,
        forall|k: int|
            0 <= k < i ==> (#[trigger] state.sandboxes@[k]).name@ != name
                && state.sandboxes@[k].id@ != name,
    ensures
        chosen(state, Some(name)) == Some(state.sandboxes@[i]),
        selected(state.sandboxes@, name) == Some(state.sandboxes@[i]),
        place(state.sandboxes@, name) == i,
{
    let list = state.sandboxes@;
    lemma_place(list, name);
    assert(list[i].answers_to(name));
    let p = place(list, name) as int;
    if p < i {
        assert(list[p].answers_to(name));
        assert(list[p].name@ != name && list[p].id@ != name);
    }
}

/// With a name, some sandbox is meant exactly where one at any place of the index has it for its
/// name or its id.
pub proof fn law_named_sandbox_is_found_at_any_place(state: SandboxState, name: Seq<char>)
    ensures
        chosen(state, Some(name)) is Some <==> exists|i: int|
            0 <= i < state.sandboxes@.len() && ((#[trigger] state.sandboxes@[i]).name@ == name
                || state.sandboxes@[i].id@ == name),
        chosen(state, Some(name)) matches Some(found) ==> exists|i: int|
            0 <= i < state.sandboxes@.len() && found == #[trigger] state.sandboxes@[i] && (
            found.name@ == name || found.id@ == name) && forall|k: int|
                0 <= k < i ==> (#[trigger] state.sandboxes@[k]).name@ != name
                    && state.sandboxes@[k].id@ != name,
{
    let list = state.sandboxes@;
    lemma_place(list, name);
    let p = place(list, name) as int;
    if exists|i: int|
        0 <= i < list.len() && ((#[trigger] list[i]).name@ == name || list[i].id@ == name) {
        let i = choose|i: int|
            0 <= i < list.len() && ((#[trigger] list[i]).name@ == name || list[i].id@ == name);
        assert(list[i].answers_to(name));
        assert(p <= i);
    }
    if p < list.len() {
        assert(list[p].answers_to(name));
        assert forall|k: int| 0 <= k < p implies (#[trigger] list[k]).name@ != name && list[k].id@
            != name by {
            assert(!list[k].answers_to(name));
        }
    }
}

/// A sandbox that was just added is found by its name by every command that takes a name, where no
/// older one goes by it; and so it is by its id.
pub proof fn law_added_sandbox_is_found_by_name(
    before: SandboxState,
    record: SandboxRecord,
    after: SandboxState,
    key: Seq<char>,
)
    requires
        after.sandboxes@ == before.sandboxes@.push(record),
        key == record.name@ || key == record.id@,
        forall|k: int|
            0 <= k < before.sandboxes@.len() ==> (#[trigger] before.sandboxes@[k]).name@ != key
                && before.sandboxes@[k].id@ != key,
    ensures
        chosen(after, Some(key)) == Some(record),
{
    let n = before.sandboxes@.len() as int;
    assert(after.sandboxes@[n] == record);
    assert forall|k: int| 0 <= k < n implies (#[trigger] after.sandboxes@[k]).name@ != key
        && after.sandboxes@[k].id@ != key by {
        assert(after.sandboxes@[k] == before.sandboxes@[k]);
    }
    law_named_sandbox_is_the_first_of_that_name(after, key, n);
}

/// Adding a sandbox changes nothing for the names that an older one goes by.
pub proof fn law_older_sandboxes_are_still_found(
    before: SandboxState,
    record: SandboxRecord,
    after: SandboxState,
    key: Seq<char>,
)
    requires
        after.sandboxes@ == before.sandboxes@.push(record),
        chosen(before, Some(key)) is Some,
    ensures
        chosen(after, Some(key)) == chosen(before, Some(key)),
{
    let list = before.sandboxes@;
    lemma_place(list, key);
    let i = place(list, key) as int;
    assert(after.sandboxes@[i] == list[i]);
    assert forall|k: int| 0 <= k < i implies (#[trigger] after.sandboxes@[k]).name@ != key
        && after.sandboxes@[k].id@ != key by {
        assert(after.sandboxes@[k] == list[k]);
        assert(!list[k].answers_to(key));
    }
    law_named_sandbox_is_the_first_of_that_name(after, key, i);
}

/// Without a name, the sandbox that is meant is the one that the name of the last used one stands
/// for; where there is no such name, or no sandbox goes by it, it is the last of the index; and
/// only an empty index has none.
pub proof fn law_without_a_name_the_last_is_meant(state: SandboxState)
    ensures
        state.last_used is None && state.sandboxes@.len() > 0 ==> chosen(state, None) == Some(
            state.sandboxes@[state.sandboxes@.len() - 1],
        ),
        state.last_used matches Some(used) ==> {
            let some = exists|i: int|
                0 <= i < state.sandboxes@.len() && ((#[trigger] state.sandboxes@[i]).name@ == used@
                    || state.sandboxes@[i].id@ == used@);
            &&& some ==> chosen(state, None) is Some && chosen(state, None) == chosen(
                state,
                Some(used@),
            )
            &&& !some && state.sandboxes@.len() > 0 ==> chosen(state, None) == Some(
                state.sandboxes@[state.sandboxes@.len() - 1],
            )
        },
        chosen(state, None) is None <==> state.sandboxes@.len() == 0,
{
    if let Some(used) = state.last_used {
        law_named_sandbox_is_found_at_any_place(state, used@);
    }
    if state.sandboxes@.len() > 0 {
        assert(state.sandboxes@.last() == state.sandboxes@[state.sandboxes@.len() - 1]);
    }
}

/// What a lookup answers: with a name, the first sandbox of the whole index that goes by it, or
/// that there is none of that name.
pub proof fn law_lookup_by_name(
    store: &Store,
    state: &SandboxState,
    name: &str,
    i: int,
    r: Result<SandboxRecord, StateError>,
)
    requires
        call_ensures(Store::get_or_last, (store, state, Some(name)), r) || call_ensures(
            Store::get,
            (store, state, name),
            r,
        ),
        0 <= i <= state.sandboxes@.len(),
        i < state.sandboxes@.len() ==> state.sandboxes@[i].name@ == name@
            || state.sandboxes@[i].id@ == name@,
        forall|k: int|
            0 <= k < i ==> (#[trigger] state.sandboxes@[k]).name@ != name@
                && state.sandboxes@[k].id@ != name@,
    ensures
        i < state.sandboxes@.len() ==> r == Ok::<SandboxRecord, StateError>(state.sandboxes@[i]),
        i == state.sandboxes@.len() ==> r is Err && r->Err_0@ == StateErrorView::NotFound(name@),
{
    law_named_sandbox_is_found_at_any_place(*state, name@);
    if i < state.sandboxes@.len() {
        law_named_sandbox_is_the_first_of_that_name(*state, name@, i);
    }
}

/// What a lookup without a name answers for an empty index, and for one where no sandbox was used.
pub proof fn law_lookup_without_a_name(
    store: &Store,
    state: &SandboxState,
    r: Result<SandboxRecord, StateError>,
)
    requires
        call_ensures(Store::get_or_last, (store, state, None), r),
    ensures
        state.sandboxes@.len() == 0 ==> r is Err && r->Err_0@ == StateErrorView::NotFound(
            "(no sandboxes)"@,
        ),
        state.sandboxes@.len() > 0 ==> r is Ok,
        state.sandboxes@.len() > 0 && state.last_used is None ==> r == Ok::<
            SandboxRecord,
            StateError,
        >(state.sandboxes@[state.sandboxes@.len() - 1]),
{
    law_without_a_name_the_last_is_meant(*state);
}

/// The place of a name is that of the first sandbox that has it; an id is no name.
pub proof fn law_place_of_a_name(list: Seq<SandboxRecord>, name: Seq<char>, i: int)
    requires
        0 <= i <= list.len(),
        i < list.len() ==> list[i].name@ == name,
        forall|k: int| 0 <= k < i ==> (#[trigger] list[k]).name@ != name,
    ensures
        name_place(list, name) == i,
{
    lemma_name_place(list, name);
    let p = name_place(list, name) as int;
    if p < i {
        assert(list[p].name@ == name);
    }
}

/// An index is sound exactly where no two places hold one name, and where the sandbox that was
/// used last, if one was, is one of the index.
pub proof fn law_sound_index(state: SandboxState)
    ensures
        state.names_distinct() <==> forall|i: int, j: int|
            0 <= i < state.sandboxes@.len() && 0 <= j < state.sandboxes@.len() && i != j ==> (
            #[trigger] state.sandboxes@[i]).name@ != (#[trigger] state.sandboxes@[j]).name@,
        state.last_used is None ==> state.last_used_known(),
        state.last_used matches Some(used) ==> (state.last_used_known() <==> exists|i: int|
            0 <= i < state.sandboxes@.len() && (#[trigger] state.sandboxes@[i]).name@ == used@),
{
    let list = state.sandboxes@;
    if let Some(used) = state.last_used {
        lemma_name_place(list, used@);
        if state.last_used_known() {
            assert(list[name_place(list, used@) as int].name@ == used@);
        }
    }
}

/// Once a sandbox is gone, the one that was used last is the same as before, where that is another;
/// else it is the last of those that are left, and none where none is left.
pub proof fn law_last_used_once_one_is_gone(
    state: SandboxState,
    name: Seq<char>,
    rest: Seq<SandboxRecord>,
)
    ensures
        state.last_used is None ==> last_used_after(state, name, rest) is None,
        state.last_used matches Some(used) ==> {
            &&& used@ != name ==> last_used_after(state, name, rest) == Some(used@)
            &&& used@ == name && rest.len() > 0 ==> last_used_after(state, name, rest) == Some(
                rest[rest.len() - 1].name@,
            )
            &&& used@ == name && rest.len() == 0 ==> last_used_after(state, name, rest) is None
        },
{
}

/// A record keeps the id that it has, gets the fresh one where it has none, and keeps all else.
pub proof fn law_record_keeps_its_id(record: SandboxRecord, fresh: String)
    ensures
        record.id@.len() > 0 ==> with_id(record, fresh) == record,
        record.id@.len() == 0 ==> with_id(record, fresh).id == fresh,
        with_id(record, fresh).name == record.name,
        with_id(record, fresh).mechanism == record.mechanism,
        with_id(record, fresh).runtime_id == record.runtime_id,
        with_id(record, fresh).policy_hash == record.policy_hash,
        with_id(record, fresh).workdir == record.workdir,
        with_id(record, fresh).created_at == record.created_at,
        with_id(record, fresh).proxy_port == record.proxy_port,
        with_id(record, fresh).log_path == record.log_path,
        with_id(record, fresh).ephemeral == record.ephemeral,
{
}

/// A random id has thirty-six characters: four hyphens, and lower-case hexadecimal digits.
pub proof fn law_shape_of_an_id(s: Seq<char>, i: int)
    requires
        is_uuid(s),
        0 <= i < s.len(),
    ensures
        s.len() == 36,
        s[8] == '-' && s[13] == '-' && s[18] == '-' && s[23] == '-',
        i != 8 && i != 13 && i != 18 && i != 23 ==> ('0' <= s[i] && s[i] <= '9') || ('a' <= s[i]
            && s[i] <= 'f'),
        s[14] == '4',
{
    assert(s[8] == '-' && s[13] == '-' && s[18] == '-' && s[23] == '-');
}

/// What a user reads of each error, word for word.
pub proof fn law_state_error_sentences(m: Seq<char>)
    ensures
        StateErrorView::Io(m).message() == "io error: "@ + m,
        StateErrorView::Json(m).message() == "json error: "@ + m,
        StateErrorView::Yaml(m).message() == "yaml error: "@ + m,
        StateErrorView::NotFound(m).message() == "sandbox not found: "@ + m,
        StateErrorView::AlreadyExists(m).message() == "sandbox already exists: "@ + m,
{
}

/// An error holds its text as it is.
pub proof fn law_state_error_holds_its_text(m: String)
    ensures
        StateError::Io(m)@ == StateErrorView::Io(m@),
        StateError::Json(m)@ == StateErrorView::Json(m@),
        StateError::Yaml(m)@ == StateErrorView::Yaml(m@),
        StateError::NotFound(m)@ == StateErrorView::NotFound(m@),
        StateError::AlreadyExists(m)@ == StateErrorView::AlreadyExists(m@),
{
}

/// The files of a store are below its directory: the index, and for each sandbox a policy and a log
/// by its name.
pub proof fn law_files_of_a_store(root: String, store: &Store, name: &str, r: String)
    requires
        call_ensures(Store::open, (root,), *store),
        root@.len() > 0,
        root@.last() != '/',
        name@.len() > 0,
        name@[0] != '/',
    ensures
        call_ensures(Store::index_path, (store,), r) ==> r@ == root@ + "/index.json"@,
        call_ensures(Store::policy_path, (store, name), r) ==> r@ == root@ + "/policies/"@ + name@
            + ".yaml"@,
        call_ensures(Store::log_path_for, (store, name), r) ==> r@ == root@ + "/logs/"@ + name@
            + ".log"@,
{
    reveal_strlit("index.json");
    reveal_strlit("/index.json");
    reveal_strlit("policies");
    reveal_strlit("/policies/");
    reveal_strlit("logs");
    reveal_strlit("/logs/");
    reveal_strlit("/");
    let policies = paths::joined(root@, "policies"@);
    let logs = paths::joined(root@, "logs"@);
    assert(root@ + "/"@ + "index.json"@ =~= root@ + "/index.json"@);
    assert(policies + "/"@ + (name@ + ".yaml"@) =~= root@ + "/policies/"@ + name@ + ".yaml"@);
    assert(logs + "/"@ + (name@ + ".log"@) =~= root@ + "/logs/"@ + name@ + ".log"@);
}

/// A record says what it was made from, and nothing of it is exchanged.
pub proof fn law_record_says_what_was_created(
    id: String,
    created_at: Timestamp,
    name: &str,
    mechanism: MechanismKind,
    runtime_id: &str,
    yaml: String,
    workdir: &str,
    ephemeral: bool,
    proxy_port: Option<u16>,
    r: Result<SandboxRecord, StateError>,
)
    requires
        call_ensures(
            Store::record,
            (
                id,
                created_at,
                name,
                mechanism,
                runtime_id,
                Ok(yaml),
                workdir,
                ephemeral,
                proxy_port,
            ),
            r,
        ),
    ensures
        r is Ok,
        r->Ok_0.id == id,
        r->Ok_0.answers_to(name@),
        r->Ok_0.name@ == name@,
        r->Ok_0.mechanism == mechanism,
        r->Ok_0.runtime_id@ == runtime_id@,
        r->Ok_0.policy_hash@ == digest::text_hash(yaml@),
        r->Ok_0.workdir@ == workdir@,
        r->Ok_0.created_at == created_at,
        r->Ok_0.proxy_port == proxy_port,
        r->Ok_0.log_path is None,
        r->Ok_0.ephemeral == ephemeral,
{
}

/// What adding a sandbox does to an index: a name that some sandbox has is refused and nothing
/// changes; any other is put behind those that are there, is the one that was used last, and is
/// then found by its name, where no older sandbox has that name for its id.
pub proof fn law_adding_a_sandbox(store: &Store, record: SandboxRecord, fresh: String)
    ensures
        forall|state: &mut SandboxState, r: Result<SandboxRecord, StateError>| #[trigger]
            call_ensures(Store::insert_with_id, (store, state, record, fresh), r) ==> {
                let list = state.sandboxes@;
                let taken = exists|i: int|
                    0 <= i < list.len() && (#[trigger] list[i]).name@ == record.name@;
                &&& taken ==> r is Err && r->Err_0@ == StateErrorView::AlreadyExists(record.name@)
                    && *final(state) == *state
                &&& !taken ==> {
                    &&& r is Ok
                    &&& r->Ok_0.name == record.name
                    &&& final(state).sandboxes@ == list.push(r->Ok_0)
                    &&& final(state).last_used == Some(record.name)
                }
                &&& r is Ok && (forall|i: int|
                    0 <= i < list.len() ==> (#[trigger] list[i]).id@ != record.name@) ==> chosen(
                    *final(state),
                    Some(record.name@),
                ) == Some(r->Ok_0) && chosen(*final(state), None) == Some(r->Ok_0)
            },
{
    assert forall|state: &mut SandboxState, r: Result<SandboxRecord, StateError>| #[trigger]
        call_ensures(Store::insert_with_id, (store, state, record, fresh), r) implies {
        let list = state.sandboxes@;
        let taken = exists|i: int|
            0 <= i < list.len() && (#[trigger] list[i]).name@ == record.name@;
        &&& taken ==> r is Err && r->Err_0@ == StateErrorView::AlreadyExists(record.name@)
            && *final(state) == *state
        &&& !taken ==> {
            &&& r is Ok
            &&& r->Ok_0.name == record.name
            &&& final(state).sandboxes@ == list.push(r->Ok_0)
            &&& final(state).last_used == Some(record.name)
        }
        &&& r is Ok && (forall|i: int|
            0 <= i < list.len() ==> (#[trigger] list[i]).id@ != record.name@) ==> chosen(
            *final(state),
            Some(record.name@),
        ) == Some(r->Ok_0) && chosen(*final(state), None) == Some(r->Ok_0)
    } by {
        let list = state.sandboxes@;
        lemma_name_place(list, record.name@);
        if name_place(list, record.name@) < list.len() {
            assert(list[name_place(list, record.name@) as int].name@ == record.name@);
        } else if forall|i: int| 0 <= i < list.len() ==> (#[trigger] list[i]).id@ != record.name@ {
            law_added_sandbox_is_found_by_name(*state, r->Ok_0, *final(state), record.name@);
        }
    }
}

/// Adding a sandbox with a random id does the same as adding it with a fresh one; a record that has
/// an id keeps it.
pub proof fn law_adding_a_sandbox_with_a_random_id(store: &Store, record: SandboxRecord)
    ensures
        forall|state: &mut SandboxState, r: Result<SandboxRecord, StateError>| #[trigger]
            call_ensures(Store::insert, (store, state, record), r) ==> {
                let list = state.sandboxes@;
                let taken = exists|i: int|
                    0 <= i < list.len() && (#[trigger] list[i]).name@ == record.name@;
                &&& taken ==> r is Err && r->Err_0@ == StateErrorView::AlreadyExists(record.name@)
                    && *final(state) == *state
                &&& !taken ==> {
                    &&& r is Ok
                    &&& r->Ok_0.name == record.name
                    &&& record.id@.len() > 0 ==> r->Ok_0 == record
                    &&& record.id@.len() == 0 ==> r->Ok_0.id@.len() == 36
                    &&& final(state).sandboxes@ == list.push(r->Ok_0)
                    &&& final(state).last_used == Some(record.name)
                }
            },
{
    assert forall|state: &mut SandboxState, r: Result<SandboxRecord, StateError>| #[trigger]
        call_ensures(Store::insert, (store, state, record), r) implies {
        let list = state.sandboxes@;
        let taken = exists|i: int|
            0 <= i < list.len() && (#[trigger] list[i]).name@ == record.name@;
        &&& taken ==> r is Err && r->Err_0@ == StateErrorView::AlreadyExists(record.name@)
            && *final(state) == *state
        &&& !taken ==> {
            &&& r is Ok
            &&& r->Ok_0.name == record.name
            &&& record.id@.len() > 0 ==> r->Ok_0 == record
            &&& record.id@.len() == 0 ==> r->Ok_0.id@.len() == 36
            &&& final(state).sandboxes@ == list.push(r->Ok_0)
            &&& final(state).last_used == Some(record.name)
        }
    } by {
        let list = state.sandboxes@;
        lemma_name_place(list, record.name@);
        if name_place(list, record.name@) < list.len() {
            assert(list[name_place(list, record.name@) as int].name@ == record.name@);
        }
    }
}

/// What removing a sandbox does to an index: the first that goes by the name, at whatever place,
/// and no other, is taken out, and is what is given back; a name that none goes by changes nothing.
pub proof fn law_removing_a_sandbox(store: &Store, name: &str, i: int)
    ensures
        forall|state: &mut SandboxState, r: Result<SandboxRecord, StateError>| #[trigger]
            call_ensures(Store::remove, (store, state, name), r) ==> {
                let list = state.sandboxes@;
                let first = 0 <= i < list.len() && (list[i].name@ == name@ || list[i].id@ == name@)
                    && forall|k: int|
                    0 <= k < i ==> (#[trigger] list[k]).name@ != name@ && list[k].id@ != name@;
                let none = forall|k: int|
                    0 <= k < list.len() ==> (#[trigger] list[k]).name@ != name@ && list[k].id@
                        != name@;
                &&& first ==> {
                    &&& r == Ok::<SandboxRecord, StateError>(list[i])
                    &&& final(state).sandboxes@ == list.take(i) + list.skip(i + 1)
                    &&& text::optional_text(state.last_used) != Some(list[i].name@)
                        ==> text::optional_text(final(state).last_used) == text::optional_text(
                        state.last_used,
                    )
                }
                &&& none ==> r is Err && r->Err_0@ == StateErrorView::NotFound(name@)
                    && *final(state) == *state
            },
{
    assert forall|state: &mut SandboxState, r: Result<SandboxRecord, StateError>| #[trigger]
        call_ensures(Store::remove, (store, state, name), r) implies {
        let list = state.sandboxes@;
        let first = 0 <= i < list.len() && (list[i].name@ == name@ || list[i].id@ == name@)
            && forall|k: int|
            0 <= k < i ==> (#[trigger] list[k]).name@ != name@ && list[k].id@ != name@;
        let none = forall|k: int|
            0 <= k < list.len() ==> (#[trigger] list[k]).name@ != name@ && list[k].id@ != name@;
        &&& first ==> {
            &&& r == Ok::<SandboxRecord, StateError>(list[i])
            &&& final(state).sandboxes@ == list.take(i) + list.skip(i + 1)
            &&& text::optional_text(state.last_used) != Some(list[i].name@)
                ==> text::optional_text(final(state).last_used) == text::optional_text(
                state.last_used,
            )
        }
        &&& none ==> r is Err && r->Err_0@ == StateErrorView::NotFound(name@)
            && *final(state) == *state
    } by {
        let list = state.sandboxes@;
        law_named_sandbox_is_found_at_any_place(*state, name@);
        if 0 <= i < list.len() && (list[i].name@ == name@ || list[i].id@ == name@) && forall|k: int|
            0 <= k < i ==> (#[trigger] list[k]).name@ != name@ && list[k].id@ != name@ {
            law_named_sandbox_is_the_first_of_that_name(*state, name@, i);
            assert(list.remove(i) =~= list.take(i) + list.skip(i + 1));
        }
    }
}

/// What setting a policy does to an index: the hash of the sandbox with the name is that of the
/// policy as written, it is the one that was used last, and nothing else of any sandbox changes.
pub proof fn law_setting_a_policy(store: &Store, name: &str, yaml: String, i: int)
    ensures
        forall|state: &mut SandboxState, r: Result<(), StateError>| #[trigger]
            call_ensures(Store::update_policy, (store, state, name, Ok(yaml)), r) ==> {
                let list = state.sandboxes@;
                let after = final(state).sandboxes@;
                let first = 0 <= i < list.len() && list[i].name@ == name@ && forall|k: int|
                    0 <= k < i ==> (#[trigger] list[k]).name@ != name@;
                &&& first ==> {
                    &&& r is Ok
                    &&& after.len() == list.len()
                    &&& after[i].policy_hash@ == digest::text_hash(yaml@)
                    &&& after[i].id == list[i].id && after[i].name == list[i].name
                    &&& after[i].runtime_id == list[i].runtime_id
                    &&& after[i].mechanism == list[i].mechanism
                    &&& forall|k: int|
                        0 <= k < list.len() && k != i ==> #[trigger] after[k] == list[k]
                    &&& text::optional_text(final(state).last_used) == Some(name@)
                }
                &&& (forall|k: int| 0 <= k < list.len() ==> (#[trigger] list[k]).name@ != name@)
                    ==> r is Err && r->Err_0@ == StateErrorView::NotFound(name@) && *final(state)
                    == *state
            },
{
    assert forall|state: &mut SandboxState, r: Result<(), StateError>| #[trigger]
        call_ensures(Store::update_policy, (store, state, name, Ok(yaml)), r) implies {
        let list = state.sandboxes@;
        let after = final(state).sandboxes@;
        let first = 0 <= i < list.len() && list[i].name@ == name@ && forall|k: int|
            0 <= k < i ==> (#[trigger] list[k]).name@ != name@;
        &&& first ==> {
            &&& r is Ok
            &&& after.len() == list.len()
            &&& after[i].policy_hash@ == digest::text_hash(yaml@)
            &&& after[i].id == list[i].id && after[i].name == list[i].name
            &&& after[i].runtime_id == list[i].runtime_id
            &&& after[i].mechanism == list[i].mechanism
            &&& forall|k: int| 0 <= k < list.len() && k != i ==> #[trigger] after[k] == list[k]
            &&& text::optional_text(final(state).last_used) == Some(name@)
        }
        &&& (forall|k: int| 0 <= k < list.len() ==> (#[trigger] list[k]).name@ != name@)
            ==> r is Err && r->Err_0@ == StateErrorView::NotFound(name@) && *final(state) == *state
    } by {
        let list = state.sandboxes@;
        lemma_name_place(list, name@);
        if 0 <= i < list.len() && list[i].name@ == name@ && forall|k: int|
            0 <= k < i ==> (#[trigger] list[k]).name@ != name@ {
            law_place_of_a_name(list, name@, i);
        }
    }
}

/// Using a sandbox makes it the one that was used last, and changes no sandbox.
pub proof fn law_using_a_sandbox(store: &Store, name: &str)
    ensures
        forall|state: &mut SandboxState| #[trigger]
            call_ensures(Store::touch_last_used, (store, state, name), ()) ==> {
                &&& final(state).last_used is Some
                &&& final(state).last_used->0@ == name@
                &&& final(state).sandboxes == state.sandboxes
            },
{
}

} // verus!
