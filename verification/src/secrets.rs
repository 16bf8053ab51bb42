//! Secrets of a policy: where they come from, and the variables they become.

use vstd::prelude::*;

use crate::paths;
use crate::policy::SecretRef;
use crate::text::{self, contains_char, same_text, strip_prefix};

verus! {

/// Errors resolving secrets.
#[derive(Debug, PartialEq, Eq)]
pub enum SecretError {
    Unavailable(String),
    SecureMemory(String),
    Unsupported(String),
}

/// A secret error with its text as characters.
pub enum SecretErrorView {
    Unavailable(Seq<char>),
    SecureMemory(Seq<char>),
    Unsupported(Seq<char>),
}

impl View for SecretError {
    type V = SecretErrorView;

    open spec fn view(&self) -> SecretErrorView {
        match *self {
            SecretError::Unavailable(m) => SecretErrorView::Unavailable(m@),
            SecretError::SecureMemory(m) => SecretErrorView::SecureMemory(m@),
            SecretError::Unsupported(m) => SecretErrorView::Unsupported(m@),
        }
    }
}

impl SecretErrorView {
    /// The sentence that a user reads.
    pub open spec fn message(self) -> Seq<char> {
        match self {
            SecretErrorView::Unavailable(m) => "secret source unavailable: "@ + m,
            SecretErrorView::SecureMemory(m) => "secure-memory error: "@ + m,
            SecretErrorView::Unsupported(m) => "unsupported secret from '"@ + m
                + "' (use env:NAME, file:PATH, or value:TEXT)"@,
        }
    }
}

impl SecretError {
    /// The sentence that a user reads.
    pub fn message(&self) -> (r: String)
        ensures
            r@ == self@.message(),
    {
        match self {
            SecretError::Unavailable(m) => "secret source unavailable: ".to_owned().concat(
                m.as_str(),
            ),
            SecretError::SecureMemory(m) => "secure-memory error: ".to_owned().concat(m.as_str()),
            SecretError::Unsupported(m) => "unsupported secret from '".to_owned().concat(
                m.as_str(),
            ).concat("' (use env:NAME, file:PATH, or value:TEXT)"),
        }
    }
}

/// Where a secret comes from.
#[derive(Debug, PartialEq, Eq)]
pub enum SecretSource {
    /// A variable of the host.
    Env(String),
    /// A file of the host.
    File(String),
    /// The text itself.
    Value(String),
    /// None of these.
    Unsupported,
}

/// A source with its text as characters.
pub enum SecretSourceView {
    Env(Seq<char>),
    File(Seq<char>),
    Value(Seq<char>),
    Unsupported,
}

impl View for SecretSource {
    type V = SecretSourceView;

    open spec fn view(&self) -> SecretSourceView {
        match *self {
            SecretSource::Env(m) => SecretSourceView::Env(m@),
            SecretSource::File(m) => SecretSourceView::File(m@),
            SecretSource::Value(m) => SecretSourceView::Value(m@),
            SecretSource::Unsupported => SecretSourceView::Unsupported,
        }
    }
}

/// The source that the text of a reference names: `env:NAME`, `file:PATH` as seen from
/// `search_root`, `value:TEXT`, or a plain variable name.
pub open spec fn source(from: Seq<char>, search_root: Seq<char>) -> SecretSourceView {
    if let Some(name) = text::after_prefix(from, "env:"@) {
        SecretSourceView::Env(name)
    } else if let Some(path) = text::after_prefix(from, "file:"@) {
        SecretSourceView::File(paths::joined(search_root, path))
    } else if let Some(value) = text::after_prefix(from, "value:"@) {
        SecretSourceView::Value(value)
    } else if !from.contains(':') {
        SecretSourceView::Env(from)
    } else {
        SecretSourceView::Unsupported
    }
}

/// The source that `from` names.
pub fn secret_source(from: &str, search_root: &str) -> (r: SecretSource)
    ensures
        r@ == source(from@, search_root@),
{
    if let Some(name) = strip_prefix(from, "env:") {
        return SecretSource::Env(name);
    }
    if let Some(path) = strip_prefix(from, "file:") {
        return SecretSource::File(paths::join(search_root, path.as_str()));
    }
    if let Some(value) = strip_prefix(from, "value:") {
        return SecretSource::Value(value);
    }
    if !contains_char(from, ':') {
        return SecretSource::Env(from.to_owned());
    }
    SecretSource::Unsupported
}

/// Whether `reply` is a possible answer of `fetch` for a source.
pub open spec fn answers<F: Fn(&SecretSource) -> Result<Vec<u8>, String>>(
    fetch: F,
    source: SecretSourceView,
    reply: Result<Vec<u8>, String>,
) -> bool {
    exists|s: &SecretSource| s@ == source && #[trigger] call_ensures(fetch, (s,), reply)
}

/// Whether `bytes` is a possible secret for a reference, with what `fetch` answers.
pub open spec fn loads<F: Fn(&SecretSource) -> Result<Vec<u8>, String>>(
    from: Seq<char>,
    search_root: Seq<char>,
    fetch: F,
    bytes: Vec<u8>,
) -> bool {
    match source(from, search_root) {
        SecretSourceView::Value(value) => bytes@ == vstd::utf8::encode_utf8(value),
        SecretSourceView::Unsupported => false,
        s => answers(fetch, s, Ok(bytes)),
    }
}

/// Whether loading the secret of a reference can fail with an error, with what `fetch` answers.
pub open spec fn fails<F: Fn(&SecretSource) -> Result<Vec<u8>, String>>(
    from: Seq<char>,
    search_root: Seq<char>,
    fetch: F,
    error: SecretErrorView,
) -> bool {
    match source(from, search_root) {
        SecretSourceView::Value(_) => false,
        SecretSourceView::Unsupported => error == SecretErrorView::Unsupported(from),
        SecretSourceView::Env(name) => {
            &&& error == SecretErrorView::Unavailable("host env var '"@ + name + "' not set"@)
            &&& exists|reply: Result<Vec<u8>, String>| #[trigger]
                answers(fetch, SecretSourceView::Env(name), reply) && reply is Err
        },
        SecretSourceView::File(path) => cannot_read(path, fetch, error),
    }
}

/// Whether reading a file can fail with an error, with what `fetch` answers.
pub open spec fn cannot_read<F: Fn(&SecretSource) -> Result<Vec<u8>, String>>(
    path: Seq<char>,
    fetch: F,
    error: SecretErrorView,
) -> bool {
    exists|reply: Result<Vec<u8>, String>| #[trigger]
        answers(fetch, SecretSourceView::File(path), reply) && reply is Err && error
            == SecretErrorView::Unavailable(
            "cannot read secret file "@ + path + ": "@ + reply->Err_0@,
        )
}

/// Loads the secret of a reference. `fetch` is asked for a variable or for a file of the host: it
/// gives the bytes, or says why it cannot.
pub fn load_secret_bytes<F: Fn(&SecretSource) -> Result<Vec<u8>, String>>(
    from: &str,
    search_root: &str,
    fetch: &F,
) -> (r: Result<Vec<u8>, SecretError>)
    requires
        forall|s: &SecretSource| call_requires(*fetch, (s,)),
    ensures
        match r {
            Ok(bytes) => loads(from@, search_root@, *fetch, bytes),
            Err(e) => fails(from@, search_root@, *fetch, e@),
        },
{
    let s = secret_source(from, search_root);
    match &s {
        SecretSource::Value(value) => {
            let bytes = value.as_str().as_bytes_vec();
            assert(source(from@, search_root@) == SecretSourceView::Value(value@));
            assert(bytes@ == vstd::utf8::encode_utf8(value@));
            Ok(bytes)
        },
        SecretSource::Unsupported => Err(SecretError::Unsupported(from.to_owned())),
        SecretSource::Env(name) => {
            let reply = fetch(&s);
            assert(answers(*fetch, SecretSourceView::Env(name@), reply));
            match reply {
                Ok(bytes) => {
                    assert(answers(*fetch, source(from@, search_root@), Ok(bytes)));
                    Ok(bytes)
                },
                Err(m) => {
                    Err(
                        SecretError::Unavailable(
                            "host env var '".to_owned().concat(name.as_str()).concat("' not set"),
                        ),
                    )
                },
            }
        },
        SecretSource::File(path) => {
            let reply = fetch(&s);
            assert(answers(*fetch, SecretSourceView::File(path@), reply));
            match reply {
                Ok(bytes) => {
                    assert(answers(*fetch, source(from@, search_root@), Ok(bytes)));
                    Ok(bytes)
                },
                Err(m) => {
                    let e = SecretError::Unavailable(
                        "cannot read secret file ".to_owned().concat(path.as_str()).concat(
                            ": ",
                        ).concat(m.as_str()),
                    );
                    assert(cannot_read(path@, *fetch, e@));
                    Err(e)
                },
            }
        },
    }
}

/// The sentence that says why bytes are not UTF-8.
pub uninterp spec fn utf8_fault(bytes: Seq<u8>) -> Seq<char>;

/// `std::str::from_utf8`: the text of which the bytes are the UTF-8 encoding. Bytes that are none
/// are refused, with a sentence that depends on the bytes alone.
#[verifier::external_body]
fn utf8_text(bytes: &Vec<u8>) -> (r: Result<String, String>)
    ensures
        match r {
            Ok(s) => vstd::utf8::valid_utf8(bytes@) && s@ == vstd::utf8::decode_utf8(bytes@),
            Err(m) => !vstd::utf8::valid_utf8(bytes@) && m@ == utf8_fault(bytes@),
        },
{
    match std::str::from_utf8(bytes) {
        Ok(s) => Ok(s.to_string()),
        Err(e) => Err(e.to_string()),
    }
}

/// The value of a secret with a name, as text.
pub fn secret_text(name: &str, bytes: &Vec<u8>) -> (r: Result<String, SecretError>)
    ensures
        match r {
            Ok(s) => vstd::utf8::valid_utf8(bytes@) && s@ == vstd::utf8::decode_utf8(bytes@),
            Err(e) => !vstd::utf8::valid_utf8(bytes@) && e@ == SecretErrorView::Unavailable(
                "secret "@ + name@ + " not utf-8: "@ + utf8_fault(bytes@),
            ),
        },
{
    match utf8_text(bytes) {
        Ok(s) => Ok(s),
        Err(m) => Err(
            SecretError::Unavailable(
                "secret ".to_owned().concat(name).concat(" not utf-8: ").concat(m.as_str()),
            ),
        ),
    }
}

/// Variables and their secrets, each held in a buffer of type `B`.
pub struct SecretMap<B> {
    entries: Vec<(String, B)>,
}

/// The variables of a list of secrets.
pub open spec fn names<B>(entries: Seq<(String, B)>) -> Seq<Seq<char>> {
    entries.map_values(|e: (String, B)| e.0@)
}

/// Each variable of a list of secrets with its secret.
pub open spec fn entry_map<B>(entries: Seq<(String, B)>) -> Map<Seq<char>, B> {
    Map::new(
        |k: Seq<char>| names(entries).contains(k),
        |k: Seq<char>| entries[names(entries).index_of(k)].1,
    )
}

impl<B> View for SecretMap<B> {
    type V = Map<Seq<char>, B>;

    closed spec fn view(&self) -> Map<Seq<char>, B> {
        entry_map(self.entries@)
    }
}

/// The secret at a place of a list is the secret of its variable.
proof fn lemma_entry_at<B>(entries: Seq<(String, B)>, i: int)
    requires
        names(entries).no_duplicates(),
        0 <= i < entries.len(),
    ensures
        entry_map(entries).dom().contains(entries[i].0@),
        entry_map(entries)[entries[i].0@] == entries[i].1,
{
    let k = entries[i].0@;
    assert(names(entries)[i] == k);
    assert(names(entries).contains(k));
    let j = names(entries).index_of(k);
    assert(names(entries)[j] == k);
    assert(i == j);
}

/// Writing an entry over the one of its variable, or behind the others, inserts it.
proof fn lemma_inserted<B>(
    before: Seq<(String, B)>,
    after: Seq<(String, B)>,
    i: int,
    env: String,
    buf: B,
)
    requires
        names(before).no_duplicates(),
        0 <= i <= before.len(),
        forall|k: int| 0 <= k < i ==> names(before)[k] != env@,
        i < before.len() ==> names(before)[i] == env@ && after == before.update(i, (env, buf)),
        i == before.len() ==> after == before.push((env, buf)),
    ensures
        names(after).no_duplicates(),
        entry_map(after) == entry_map(before).insert(env@, buf),
{
    if i < before.len() {
        assert(names(after) =~= names(before));
    } else {
        assert(names(after) =~= names(before).push(env@));
    }
    assert(entry_map(after) =~= entry_map(before).insert(env@, buf)) by {
        lemma_entry_at(after, i);
        assert forall|k: Seq<char>| names(after).contains(k) implies entry_map(before).insert(
            env@,
            buf,
        ).dom().contains(k) && entry_map(after)[k] == entry_map(before).insert(env@, buf)[k] by {
            let j = names(after).index_of(k);
            assert(names(after)[j] == k);
            lemma_entry_at(after, j);
            if j != i {
                assert(names(before)[j] == k);
                lemma_entry_at(before, j);
            }
        }
        assert forall|k: Seq<char>|
            entry_map(before).insert(env@, buf).dom().contains(k) implies names(after).contains(
            k,
        ) by {
            if k != env@ {
                let j = names(before).index_of(k);
                assert(names(before)[j] == k);
                assert(names(after)[j] == k);
            }
        }
    }
}

impl<B> SecretMap<B> {
    /// No variable has two secrets.
    #[verifier::type_invariant]
    closed spec fn names_distinct(self) -> bool {
        names(self.entries@).no_duplicates()
    }

    pub fn new() -> (r: Self)
        ensures
            r@ == Map::<Seq<char>, B>::empty(),
    {
        let r = SecretMap { entries: Vec::new() };
        proof {
            assert(names(r.entries@) =~= Seq::<Seq<char>>::empty());
            assert(r@ =~= Map::<Seq<char>, B>::empty());
        }
        r
    }

    /// Gives a variable a secret, in place of the one that it had.
    pub fn insert(&mut self, env: String, buf: B)
        ensures
            final(self)@ == old(self)@.insert(env@, buf),
    {
        proof {
            use_type_invariant(&*self);
        }
        let ghost before = self.entries@;
        let mut entries: Vec<(String, B)> = Vec::new();
        std::mem::swap(&mut self.entries, &mut entries);
        let mut i: usize = 0;
        while i < entries.len()
            invariant
                i <= entries@.len(),
                entries@ == before,
                forall|k: int| 0 <= k < i ==> names(before)[k] != env@,
            ensures
                i < entries@.len() ==> names(before)[i as int] == env@,
            decreases entries@.len() - i,
        {
            if same_text(entries[i].0.as_str(), env.as_str()) {
                break;
            }
            i += 1;
        }
        if i < entries.len() {
            entries.set(i, (env, buf));
        } else {
            entries.push((env, buf));
        }
        proof {
            lemma_inserted(before, entries@, i as int, env, buf);
        }
        self.entries = entries;
        proof {
            assert(entry_map(before) == old(self)@);
            assert(entry_map(entries@) == self@);
        }
    }

    /// The number of variables.
    pub fn len(&self) -> (r: usize)
        ensures
            r == self@.dom().len(),
    {
        proof {
            use_type_invariant(self);
            names(self.entries@).unique_seq_to_set();
            assert(self@.dom() =~= names(self.entries@).to_set());
        }
        self.entries.len()
    }

    /// Whether there is no variable.
    pub fn is_empty(&self) -> (r: bool)
        ensures
            r == (self@ == Map::<Seq<char>, B>::empty()),
    {
        let r = self.entries.len() == 0;
        proof {
            if r {
                assert(names(self.entries@) =~= Seq::<Seq<char>>::empty());
                assert(self@ =~= Map::<Seq<char>, B>::empty());
            } else {
                assert(names(self.entries@)[0] == self.entries@[0].0@);
                assert(self@.dom().contains(self.entries@[0].0@));
            }
        }
        r
    }

    /// The variables with their secrets as text, for a child process. `read` gives the bytes of a
    /// buffer, or says why it cannot.
    pub fn to_env_pairs<R: Fn(&B) -> Result<Vec<u8>, String>>(&self, read: R) -> (r: Result<
        Vec<(String, String)>,
        SecretError,
    >)
        requires
            forall|b: &B| call_requires(read, (b,)),
        ensures
            match r {
                Ok(list) => reveals(read, self@, list@),
                Err(e) => cannot_reveal(read, self@, e@),
            },
    {
        proof {
            use_type_invariant(self);
        }
        let mut out: Vec<(String, String)> = Vec::new();
        let mut i: usize = 0;
        while i < self.entries.len()
            invariant
                i <= self.entries@.len(),
                out@.len() == i,
                names(self.entries@).no_duplicates(),
                forall|b: &B| call_requires(read, (b,)),
                forall|j: int|
                    #![trigger out@[j]]
                    0 <= j < i ==> out@[j].0@ == self.entries@[j].0@ && reads_as(
                        read,
                        self.entries@[j].1,
                        out@[j].1@,
                    ),
            decreases self.entries@.len() - i,
        {
            let ghost name = self.entries@[i as int].0@;
            proof {
                lemma_entry_at(self.entries@, i as int);
            }
            let reply = read(&self.entries[i].1);
            match reply {
                Err(m) => {
                    assert(call_ensures(read, (&self@[name],), Err(m)));
                    assert(self@.dom().contains(name));
                    return Err(SecretError::SecureMemory(m));
                },
                Ok(bytes) => {
                    match secret_text(self.entries[i].0.as_str(), &bytes) {
                        Err(e) => {
                            assert(call_ensures(read, (&self@[name],), Ok(bytes)));
                            assert(self@.dom().contains(name));
                            return Err(e);
                        },
                        Ok(value) => {
                            out.push((self.entries[i].0.as_str().to_owned(), value));
                        },
                    }
                },
            }
            i += 1;
        }
        proof {
            assert(names(out@) =~= names(self.entries@));
            assert(names(out@).to_set() =~= self@.dom());
            assert forall|j: int| #![trigger out@[j]] 0 <= j < out@.len() implies reads_as(
                read,
                self@[out@[j].0@],
                out@[j].1@,
            ) by {
                lemma_entry_at(self.entries@, j);
            }
        }
        Ok(out)
    }
}

impl<B> Default for SecretMap<B> {
    fn default() -> (r: Self)
        ensures
            r@ == Map::<Seq<char>, B>::empty(),
    {
        SecretMap::new()
    }
}

/// Whether `value` is the text of bytes that `read` can give for a buffer.
pub open spec fn reads_as<B, R: Fn(&B) -> Result<Vec<u8>, String>>(
    read: R,
    buf: B,
    value: Seq<char>,
) -> bool {
    exists|bytes: Vec<u8>| #[trigger]
        call_ensures(read, (&buf,), Ok(bytes)) && vstd::utf8::valid_utf8(bytes@) && value
            == vstd::utf8::decode_utf8(bytes@)
}

/// Whether the secret of a variable can turn out to be no text, with an error: its buffer is not
/// read, or its bytes are not UTF-8.
pub open spec fn unreadable<B, R: Fn(&B) -> Result<Vec<u8>, String>>(
    read: R,
    name: Seq<char>,
    buf: B,
    error: SecretErrorView,
) -> bool {
    ||| exists|m: String| #[trigger]
        call_ensures(read, (&buf,), Err(m)) && error == SecretErrorView::SecureMemory(m@)
    ||| exists|bytes: Vec<u8>| #[trigger]
        call_ensures(read, (&buf,), Ok(bytes)) && !vstd::utf8::valid_utf8(bytes@) && error
            == SecretErrorView::Unavailable(
            "secret "@ + name + " not utf-8: "@ + utf8_fault(bytes@),
        )
}

/// Whether a list holds each variable once, with its secret as text.
pub open spec fn reveals<B, R: Fn(&B) -> Result<Vec<u8>, String>>(
    read: R,
    secrets: Map<Seq<char>, B>,
    list: Seq<(String, String)>,
) -> bool {
    &&& names(list).no_duplicates()
    &&& names(list).to_set() == secrets.dom()
    &&& forall|i: int|
        #![trigger list[i]]
        0 <= i < list.len() ==> reads_as(read, secrets[list[i].0@], list[i].1@)
}

/// Whether one of the secrets can turn out to be no text, with an error.
pub open spec fn cannot_reveal<B, R: Fn(&B) -> Result<Vec<u8>, String>>(
    read: R,
    secrets: Map<Seq<char>, B>,
    error: SecretErrorView,
) -> bool {
    exists|k: Seq<char>| #[trigger]
        secrets.dom().contains(k) && unreadable(read, k, secrets[k], error)
}

/// Whether `buf` can be the buffer for the secret of a reference, with what `fetch` and `lock`
/// answer.
pub open spec fn locks<
    B,
    F: Fn(&SecretSource) -> Result<Vec<u8>, String>,
    L: Fn(&Vec<u8>) -> Result<B, String>,
>(from: Seq<char>, search_root: Seq<char>, fetch: F, lock: L, buf: B) -> bool {
    exists|bytes: Vec<u8>| #[trigger]
        loads(from, search_root, fetch, bytes) && call_ensures(lock, (&bytes,), Ok(buf))
}

/// Whether a reference can be resolved, with what `fetch` and `lock` answer.
pub open spec fn can_lock<
    B,
    F: Fn(&SecretSource) -> Result<Vec<u8>, String>,
    L: Fn(&Vec<u8>) -> Result<B, String>,
>(from: Seq<char>, search_root: Seq<char>, fetch: F, lock: L) -> bool {
    exists|buf: B| #[trigger] locks(from, search_root, fetch, lock, buf)
}

/// Whether the bytes of a secret can be refused by `lock`, with an error.
pub open spec fn cannot_lock<
    B,
    F: Fn(&SecretSource) -> Result<Vec<u8>, String>,
    L: Fn(&Vec<u8>) -> Result<B, String>,
>(from: Seq<char>, search_root: Seq<char>, fetch: F, lock: L, error: SecretErrorView) -> bool {
    exists|bytes: Vec<u8>, reply: Result<B, String>|
        #![trigger loads(from, search_root, fetch, bytes), call_ensures(lock, (&bytes,), reply)]
        loads(from, search_root, fetch, bytes) && call_ensures(lock, (&bytes,), reply)
            && reply is Err && error == SecretErrorView::SecureMemory(reply->Err_0@)
}

/// The variables that a list of references gives a secret to.
pub open spec fn ref_names(refs: Seq<SecretRef>) -> Seq<Seq<char>> {
    refs.map_values(|r: SecretRef| r.env@)
}

/// Whether a place of a list holds the last reference for a variable.
pub open spec fn is_last_for(refs: Seq<SecretRef>, name: Seq<char>, i: int) -> bool {
    &&& 0 <= i < refs.len()
    &&& refs[i].env@ == name
    &&& forall|j: int| i < j < refs.len() ==> refs[j].env@ != name
}

/// Whether every reference of a list is resolved, and each of their variables, and no other, has the
/// secret of the last reference for it.
pub open spec fn resolves<
    B,
    F: Fn(&SecretSource) -> Result<Vec<u8>, String>,
    L: Fn(&Vec<u8>) -> Result<B, String>,
>(
    refs: Seq<SecretRef>,
    search_root: Seq<char>,
    fetch: F,
    lock: L,
    secrets: Map<Seq<char>, B>,
) -> bool {
    &&& secrets.dom() == ref_names(refs).to_set()
    &&& forall|i: int|
        #![trigger refs[i]]
        0 <= i < refs.len() ==> can_lock(refs[i].from@, search_root, fetch, lock)
    &&& forall|name: Seq<char>, i: int| #[trigger]
        is_last_for(refs, name, i) ==> locks(
            refs[i].from@,
            search_root,
            fetch,
            lock,
            secrets[name],
        )
}

/// Whether a reference can fail to be resolved, with an error: it is not loaded, or its bytes are
/// not locked.
pub open spec fn cannot_hold<
    B,
    F: Fn(&SecretSource) -> Result<Vec<u8>, String>,
    L: Fn(&Vec<u8>) -> Result<B, String>,
>(from: Seq<char>, search_root: Seq<char>, fetch: F, lock: L, error: SecretErrorView) -> bool {
    fails(from, search_root, fetch, error) || cannot_lock(from, search_root, fetch, lock, error)
}

/// Whether a list of references can be refused with an error: one reference fails with it, and
/// every reference before that one is resolved.
pub open spec fn cannot_resolve<
    B,
    F: Fn(&SecretSource) -> Result<Vec<u8>, String>,
    L: Fn(&Vec<u8>) -> Result<B, String>,
>(
    refs: Seq<SecretRef>,
    search_root: Seq<char>,
    fetch: F,
    lock: L,
    error: SecretErrorView,
) -> bool {
    exists|i: int|
        #![trigger refs[i]]
        0 <= i < refs.len() && cannot_hold(refs[i].from@, search_root, fetch, lock, error) && (
        forall|j: int|
            #![trigger refs[j]]
            0 <= j < i ==> can_lock(refs[j].from@, search_root, fetch, lock))
}

/// Resolves a list of references. `fetch` is asked for what the host holds, and `lock` for a
/// buffer that holds the bytes of a secret.
pub fn resolve_secrets<
    B,
    F: Fn(&SecretSource) -> Result<Vec<u8>, String>,
    L: Fn(&Vec<u8>) -> Result<B, String>,
>(refs: &Vec<SecretRef>, search_root: &str, fetch: F, lock: L) -> (r: Result<
    SecretMap<B>,
    SecretError,
>)
    requires
        forall|s: &SecretSource| call_requires(fetch, (s,)),
        forall|b: &Vec<u8>| call_requires(lock, (b,)),
    ensures
        match r {
            Ok(map) => resolves(refs@, search_root@, fetch, lock, map@),
            Err(e) => cannot_resolve(refs@, search_root@, fetch, lock, e@),
        },
{
    let mut map: SecretMap<B> = SecretMap::new();
    let mut i: usize = 0;
    proof {
        assert(refs@.take(0) =~= Seq::<SecretRef>::empty());
        assert(map@.dom() =~= ref_names(refs@.take(0)).to_set());
    }
    while i < refs.len()
        invariant
            i <= refs@.len(),
            forall|s: &SecretSource| call_requires(fetch, (s,)),
            forall|b: &Vec<u8>| call_requires(lock, (b,)),
            resolves(refs@.take(i as int), search_root@, fetch, lock, map@),
        decreases refs@.len() - i,
    {
        let ghost before = map@;
        let r = &refs[i];
        assert forall|j: int| #![trigger refs@[j]] 0 <= j < i implies can_lock(
            refs@[j].from@,
            search_root@,
            fetch,
            lock,
        ) by {
            assert(refs@.take(i as int)[j] == refs@[j]);
        }
        match load_secret_bytes(r.from.as_str(), search_root, &fetch) {
            Err(e) => {
                assert(cannot_hold(refs@[i as int].from@, search_root@, fetch, lock, e@));
                return Err(e);
            },
            Ok(bytes) => {
                let reply = lock(&bytes);
                match reply {
                    Err(m) => {
                        return Err(SecretError::SecureMemory(m));
                    },
                    Ok(buf) => {
                        assert(locks(r.from@, search_root@, fetch, lock, buf));
                        map.insert(r.env.as_str().to_owned(), buf);
                        proof {
                            lemma_resolved_next(
                                refs@,
                                i as int,
                                search_root@,
                                fetch,
                                lock,
                                before,
                                buf,
                            );
                        }
                    },
                }
            },
        }
        i += 1;
    }
    assert(refs@.take(refs@.len() as int) =~= refs@);
    Ok(map)
}

/// With the secret of the next reference, one more reference is resolved.
proof fn lemma_resolved_next<
    B,
    F: Fn(&SecretSource) -> Result<Vec<u8>, String>,
    L: Fn(&Vec<u8>) -> Result<B, String>,
>(
    refs: Seq<SecretRef>,
    i: int,
    search_root: Seq<char>,
    fetch: F,
    lock: L,
    secrets: Map<Seq<char>, B>,
    buf: B,
)
    requires
        0 <= i < refs.len(),
        resolves(refs.take(i), search_root, fetch, lock, secrets),
        locks(refs[i].from@, search_root, fetch, lock, buf),
    ensures
        resolves(refs.take(i + 1), search_root, fetch, lock, secrets.insert(refs[i].env@, buf)),
{
    let fewer = refs.take(i);
    let more = refs.take(i + 1);
    let after = secrets.insert(refs[i].env@, buf);
    assert(ref_names(more) =~= ref_names(fewer).push(refs[i].env@));
    assert forall|k: Seq<char>| after.dom().contains(k) == ref_names(more).contains(k) by {
        if ref_names(fewer).contains(k) {
            let j = ref_names(fewer).index_of(k);
            assert(ref_names(fewer)[j] == k);
            assert(ref_names(more)[j] == k);
        }
        assert(ref_names(more)[i] == refs[i].env@);
        assert(secrets.dom().contains(k) == ref_names(fewer).to_set().contains(k));
        if ref_names(more).contains(k) && k != refs[i].env@ {
            let j = ref_names(more).index_of(k);
            assert(ref_names(more)[j] == k);
            assert(ref_names(fewer)[j] == k);
        }
    }
    assert(after.dom() =~= ref_names(more).to_set());
    assert forall|j: int| #![trigger more[j]] 0 <= j < more.len() implies can_lock(
        more[j].from@,
        search_root,
        fetch,
        lock,
    ) by {
        if j < i {
            assert(fewer[j] == more[j]);
        }
    }
    assert forall|name: Seq<char>, j: int| #[trigger] is_last_for(more, name, j) implies locks(
        more[j].from@,
        search_root,
        fetch,
        lock,
        after[name],
    ) by {
        if j < i {
            assert(more[i].env@ != name);
            assert(fewer[j] == more[j]);
            assert forall|m: int| j < m < fewer.len() implies fewer[m].env@ != name by {
                assert(more[m] == fewer[m]);
            }
            assert(is_last_for(fewer, name, j));
        }
    }
}

/// Whether a list holds, for each variable of the references, the secret as text.
pub open spec fn injects<
    B,
    F: Fn(&SecretSource) -> Result<Vec<u8>, String>,
    L: Fn(&Vec<u8>) -> Result<B, String>,
    R: Fn(&B) -> Result<Vec<u8>, String>,
>(
    refs: Seq<SecretRef>,
    search_root: Seq<char>,
    fetch: F,
    lock: L,
    read: R,
    list: Seq<(String, String)>,
) -> bool {
    exists|secrets: Map<Seq<char>, B>| #[trigger]
        resolves(refs, search_root, fetch, lock, secrets) && reveals(read, secrets, list)
}

/// Whether the references can fail to become variables, with an error.
pub open spec fn cannot_inject<
    B,
    F: Fn(&SecretSource) -> Result<Vec<u8>, String>,
    L: Fn(&Vec<u8>) -> Result<B, String>,
    R: Fn(&B) -> Result<Vec<u8>, String>,
>(
    refs: Seq<SecretRef>,
    search_root: Seq<char>,
    fetch: F,
    lock: L,
    read: R,
    error: SecretErrorView,
) -> bool {
    ||| cannot_resolve(refs, search_root, fetch, lock, error)
    ||| exists|secrets: Map<Seq<char>, B>| #[trigger]
        resolves(refs, search_root, fetch, lock, secrets) && cannot_reveal(read, secrets, error)
}

/// Resolves a list of references into variables for a child process.
pub fn secret_env<
    B,
    F: Fn(&SecretSource) -> Result<Vec<u8>, String>,
    L: Fn(&Vec<u8>) -> Result<B, String>,
    R: Fn(&B) -> Result<Vec<u8>, String>,
>(refs: &Vec<SecretRef>, search_root: &str, fetch: F, lock: L, read: R) -> (r: Result<
    Vec<(String, String)>,
    SecretError,
>)
    requires
        forall|s: &SecretSource| call_requires(fetch, (s,)),
        forall|b: &Vec<u8>| call_requires(lock, (b,)),
        forall|b: &B| call_requires(read, (b,)),
    ensures
        match r {
            Ok(list) => injects(refs@, search_root@, fetch, lock, read, list@),
            Err(e) => cannot_inject(refs@, search_root@, fetch, lock, read, e@),
        },
{
    match resolve_secrets(refs, search_root, fetch, lock) {
        Ok(map) => {
            assert(resolves(refs@, search_root@, fetch, lock, map@));
            map.to_env_pairs(read)
        },
        Err(e) => Err(e),
    }
}

/// A list of references is refused for the first that fails, and for no other: where that one can
/// only fail, and only with one error, and every one before it can only be resolved, the list is
/// not resolved, and any error is that error.
pub proof fn law_first_failing_reference_decides<
    B,
    F: Fn(&SecretSource) -> Result<Vec<u8>, String>,
    L: Fn(&Vec<u8>) -> Result<B, String>,
>(
    refs: Seq<SecretRef>,
    search_root: Seq<char>,
    fetch: F,
    lock: L,
    first: int,
    error: SecretErrorView,
    secrets: Map<Seq<char>, B>,
    other: SecretErrorView,
)
    requires
        0 <= first < refs.len(),
        !can_lock(refs[first].from@, search_root, fetch, lock),
        forall|e: SecretErrorView| #[trigger]
            cannot_hold(refs[first].from@, search_root, fetch, lock, e) ==> e == error,
        forall|j: int, e: SecretErrorView|
            0 <= j < first ==> !#[trigger] cannot_hold(
                refs[j].from@,
                search_root,
                fetch,
                lock,
                e,
            ),
    ensures
        !resolves(refs, search_root, fetch, lock, secrets),
        cannot_resolve(refs, search_root, fetch, lock, other) ==> other == error,
{
    assert(refs[first] == refs[first]);
    if cannot_resolve(refs, search_root, fetch, lock, other) {
        let i = choose|i: int|
            #![trigger refs[i]]
            0 <= i < refs.len() && cannot_hold(refs[i].from@, search_root, fetch, lock, other) && (
            forall|j: int|
                #![trigger refs[j]]
                0 <= j < i ==> can_lock(refs[j].from@, search_root, fetch, lock));
        if i > first {
            assert(can_lock(refs[first].from@, search_root, fetch, lock));
        }
    }
}

/// A prefix names the kind of a source, whatever stands behind it; a name without a colon is that
/// of a variable.
pub proof fn law_prefix_names_source(rest: Seq<char>, search_root: Seq<char>)
    ensures
        source("env:"@ + rest, search_root) == SecretSourceView::Env(rest),
        source("file:"@ + rest, search_root) == SecretSourceView::File(
            paths::joined(search_root, rest),
        ),
        source("value:"@ + rest, search_root) == SecretSourceView::Value(rest),
        !rest.contains(':') ==> source(rest, search_root) == SecretSourceView::Env(rest),
{
    reveal_strlit("env:");
    reveal_strlit("file:");
    reveal_strlit("value:");
    assert(("env:"@ + rest).take(4) =~= "env:"@);
    assert(("env:"@ + rest).skip(4) =~= rest);
    assert(("file:"@ + rest).take(5) =~= "file:"@);
    assert(("file:"@ + rest).skip(5) =~= rest);
    assert(("file:"@ + rest)[0] == 'f');
    assert(("value:"@ + rest).take(6) =~= "value:"@);
    assert(("value:"@ + rest).skip(6) =~= rest);
    assert(("value:"@ + rest)[0] == 'v');
    if !rest.contains(':') {
        lemma_prefix_is_contained(rest, "env:"@, 3);
        lemma_prefix_is_contained(rest, "file:"@, 4);
        lemma_prefix_is_contained(rest, "value:"@, 5);
    }
}

/// A text holds each character of its prefixes.
proof fn lemma_prefix_is_contained(s: Seq<char>, prefix: Seq<char>, i: int)
    requires
        0 <= i < prefix.len(),
    ensures
        prefix.is_prefix_of(s) ==> s.contains(prefix[i]),
{
    if prefix.is_prefix_of(s) {
        assert(s.subrange(0, prefix.len() as int)[i] == s[i]);
    }
}

/// Whether `read` gives back the bytes that `lock` was given.
pub open spec fn gives_back<
    B,
    L: Fn(&Vec<u8>) -> Result<B, String>,
    R: Fn(&B) -> Result<Vec<u8>, String>,
>(lock: L, read: R) -> bool {
    forall|bytes: Vec<u8>, buf: B, back: Vec<u8>|
        #![trigger call_ensures(lock, (&bytes,), Ok(buf)), call_ensures(read, (&buf,), Ok(back))]
        call_ensures(lock, (&bytes,), Ok(buf)) && call_ensures(read, (&buf,), Ok(back)) ==> back@
            == bytes@
}

/// A secret written as `value:TEXT` always loads, whatever the host answers, and reaches the child
/// process as TEXT.
pub proof fn law_literal_secret_reaches_child<
    B,
    F: Fn(&SecretSource) -> Result<Vec<u8>, String>,
    L: Fn(&Vec<u8>) -> Result<B, String>,
    R: Fn(&B) -> Result<Vec<u8>, String>,
>(
    literal: Seq<char>,
    search_root: Seq<char>,
    fetch: F,
    lock: L,
    read: R,
    buf: B,
    value: Seq<char>,
    error: SecretErrorView,
)
    requires
        gives_back(lock, read),
    ensures
        !fails("value:"@ + literal, search_root, fetch, error),
        locks("value:"@ + literal, search_root, fetch, lock, buf) && reads_as(read, buf, value)
            ==> value == literal,
{
    law_prefix_names_source(literal, search_root);
    vstd::utf8::encode_utf8_decode_utf8(literal);
}

/// What a variable of the host holds reaches the child process byte for byte.
pub proof fn law_host_secret_reaches_child<
    B,
    F: Fn(&SecretSource) -> Result<Vec<u8>, String>,
    L: Fn(&Vec<u8>) -> Result<B, String>,
    R: Fn(&B) -> Result<Vec<u8>, String>,
>(
    name: Seq<char>,
    held: Seq<char>,
    search_root: Seq<char>,
    fetch: F,
    lock: L,
    read: R,
    buf: B,
    value: Seq<char>,
)
    requires
        gives_back(lock, read),
        forall|reply: Result<Vec<u8>, String>| #[trigger]
            answers(fetch, SecretSourceView::Env(name), reply) ==> reply is Ok && reply->Ok_0@
                == vstd::utf8::encode_utf8(held),
        locks("env:"@ + name, search_root, fetch, lock, buf),
        reads_as(read, buf, value),
    ensures
        value == held,
{
    law_prefix_names_source(name, search_root);
    vstd::utf8::encode_utf8_decode_utf8(held);
}

/// An unsupported source is refused with its own text, and loads nothing.
pub proof fn law_unsupported_source_is_refused<F: Fn(&SecretSource) -> Result<Vec<u8>, String>>(
    from: Seq<char>,
    search_root: Seq<char>,
    fetch: F,
    bytes: Vec<u8>,
)
    requires
        from.contains(':'),
        text::after_prefix(from, "env:"@) is None,
        text::after_prefix(from, "file:"@) is None,
        text::after_prefix(from, "value:"@) is None,
    ensures
        !loads(from, search_root, fetch, bytes),
        fails(from, search_root, fetch, SecretErrorView::Unsupported(from)),
{
}

/// What a user reads of each error, word for word.
pub proof fn law_secret_error_sentences(m: Seq<char>)
    ensures
        SecretErrorView::Unavailable(m).message() == "secret source unavailable: "@ + m,
        SecretErrorView::SecureMemory(m).message() == "secure-memory error: "@ + m,
        SecretErrorView::Unsupported(m).message() == "unsupported secret from '"@ + m
            + "' (use env:NAME, file:PATH, or value:TEXT)"@,
{
}

/// An error and a source hold their text as it is.
pub proof fn law_secret_texts_are_held(m: String)
    ensures
        SecretError::Unavailable(m)@ == SecretErrorView::Unavailable(m@),
        SecretError::SecureMemory(m)@ == SecretErrorView::SecureMemory(m@),
        SecretError::Unsupported(m)@ == SecretErrorView::Unsupported(m@),
        SecretSource::Env(m)@ == SecretSourceView::Env(m@),
        SecretSource::File(m)@ == SecretSourceView::File(m@),
        SecretSource::Value(m)@ == SecretSourceView::Value(m@),
        SecretSource::Unsupported@ == SecretSourceView::Unsupported,
{
}

/// A text with a colon that starts with none of the three prefixes names no source.
pub proof fn law_other_prefixes_name_no_source(from: Seq<char>, search_root: Seq<char>)
    requires
        from.contains(':'),
        !"env:"@.is_prefix_of(from),
        !"file:"@.is_prefix_of(from),
        !"value:"@.is_prefix_of(from),
    ensures
        source(from, search_root) == SecretSourceView::Unsupported,
{
}

/// A variable of the host is the secret that the host answers for it: with the prefix `env:` and,
/// for a name without a colon, without it.
pub proof fn law_variable_is_asked_for<F: Fn(&SecretSource) -> Result<Vec<u8>, String>>(
    name: Seq<char>,
    search_root: Seq<char>,
    fetch: F,
    bytes: Vec<u8>,
)
    ensures
        loads("env:"@ + name, search_root, fetch, bytes) <==> exists|s: &SecretSource|
            s@ == SecretSourceView::Env(name) && #[trigger] call_ensures(fetch, (s,), Ok(bytes)),
        !name.contains(':') ==> (loads(name, search_root, fetch, bytes) <==> loads(
            "env:"@ + name,
            search_root,
            fetch,
            bytes,
        )),
{
    law_prefix_names_source(name, search_root);
}

/// A variable that the host does not have is refused with its name.
pub proof fn law_missing_variable_is_named<F: Fn(&SecretSource) -> Result<Vec<u8>, String>>(
    name: Seq<char>,
    search_root: Seq<char>,
    fetch: F,
    error: SecretErrorView,
)
    ensures
        fails("env:"@ + name, search_root, fetch, error) ==> error == SecretErrorView::Unavailable(
            "host env var '"@ + name + "' not set"@,
        ),
        fails("env:"@ + name, search_root, fetch, error) ==> exists|s: &SecretSource, reply: Result<Vec<u8>, String>|
            s@ == SecretSourceView::Env(name) && reply is Err && #[trigger] call_ensures(fetch, (s,), reply),
        !name.contains(':') ==> (fails(name, search_root, fetch, error) <==> fails(
            "env:"@ + name,
            search_root,
            fetch,
            error,
        )),
{
    law_prefix_names_source(name, search_root);
    if fails("env:"@ + name, search_root, fetch, error) {
        let reply = choose|reply: Result<Vec<u8>, String>| #[trigger]
            answers(fetch, SecretSourceView::Env(name), reply) && reply is Err;
        let s = choose|s: &SecretSource|
            s@ == SecretSourceView::Env(name) && #[trigger] call_ensures(fetch, (s,), reply);
        assert(call_ensures(fetch, (s,), reply));
    }
}

/// A file is read as seen from the directory that the references are resolved in.
pub proof fn law_file_is_asked_for<F: Fn(&SecretSource) -> Result<Vec<u8>, String>>(
    path: Seq<char>,
    search_root: Seq<char>,
    fetch: F,
    bytes: Vec<u8>,
)
    ensures
        loads("file:"@ + path, search_root, fetch, bytes) <==> exists|s: &SecretSource|
            s@ == SecretSourceView::File(paths::joined(search_root, path))
                && #[trigger] call_ensures(fetch, (s,), Ok(bytes)),
{
    law_prefix_names_source(path, search_root);
}

/// A file that is not read is refused with its path and with what the host says.
pub proof fn law_unread_file_is_named<F: Fn(&SecretSource) -> Result<Vec<u8>, String>>(
    path: Seq<char>,
    search_root: Seq<char>,
    fetch: F,
    error: SecretErrorView,
)
    requires
        fails("file:"@ + path, search_root, fetch, error),
    ensures
        exists|s: &SecretSource, reply: Result<Vec<u8>, String>|
            s@ == SecretSourceView::File(paths::joined(search_root, path)) && reply is Err
                && #[trigger] call_ensures(fetch, (s,), reply) && error
                == SecretErrorView::Unavailable(
                "cannot read secret file "@ + paths::joined(search_root, path) + ": "@
                    + reply->Err_0@,
            ),
{
    law_prefix_names_source(path, search_root);
    let at = paths::joined(search_root, path);
    let reply = choose|reply: Result<Vec<u8>, String>| #[trigger]
        answers(fetch, SecretSourceView::File(at), reply) && reply is Err && error
            == SecretErrorView::Unavailable(
            "cannot read secret file "@ + at + ": "@ + reply->Err_0@,
        );
    let s = choose|s: &SecretSource|
        s@ == SecretSourceView::File(at) && #[trigger] call_ensures(fetch, (s,), reply);
    assert(call_ensures(fetch, (s,), reply));
}

/// The text behind `value:` is the secret, in UTF-8, and nothing else is.
pub proof fn law_literal_is_the_secret<F: Fn(&SecretSource) -> Result<Vec<u8>, String>>(
    value: Seq<char>,
    search_root: Seq<char>,
    fetch: F,
    bytes: Vec<u8>,
)
    ensures
        loads("value:"@ + value, search_root, fetch, bytes) <==> bytes@ == vstd::utf8::encode_utf8(
            value,
        ),
{
    law_prefix_names_source(value, search_root);
}

/// What is held for a reference is what `lock` made of a secret that loads for it.
pub proof fn law_loaded_secret_is_locked<
    B,
    F: Fn(&SecretSource) -> Result<Vec<u8>, String>,
    L: Fn(&Vec<u8>) -> Result<B, String>,
>(from: Seq<char>, search_root: Seq<char>, fetch: F, lock: L, bytes: Vec<u8>, buf: B)
    ensures
        loads(from, search_root, fetch, bytes) && call_ensures(lock, (&bytes,), Ok(buf)) ==> locks(
            from,
            search_root,
            fetch,
            lock,
            buf,
        ),
        locks(from, search_root, fetch, lock, buf) ==> can_lock(from, search_root, fetch, lock),
        locks(from, search_root, fetch, lock, buf) ==> exists|b: Vec<u8>|
            loads(from, search_root, fetch, b) && #[trigger] call_ensures(lock, (&b,), Ok(buf)),
        (forall|b: Vec<u8>| !loads(from, search_root, fetch, b)) ==> !can_lock(
            from,
            search_root,
            fetch,
            lock,
        ),
{
    if locks(from, search_root, fetch, lock, buf) {
        let b = choose|b: Vec<u8>| #[trigger]
            loads(from, search_root, fetch, b) && call_ensures(lock, (&b,), Ok(buf));
        assert(call_ensures(lock, (&b,), Ok(buf)));
    }
}

/// A secret that is not locked is refused with what `lock` says.
pub proof fn law_refusal_to_lock_is_reported<
    B,
    F: Fn(&SecretSource) -> Result<Vec<u8>, String>,
    L: Fn(&Vec<u8>) -> Result<B, String>,
>(
    from: Seq<char>,
    search_root: Seq<char>,
    fetch: F,
    lock: L,
    bytes: Vec<u8>,
    reply: Result<B, String>,
    error: SecretErrorView,
)
    ensures
        loads(from, search_root, fetch, bytes) && call_ensures(lock, (&bytes,), reply)
            && reply is Err ==> cannot_lock(
            from,
            search_root,
            fetch,
            lock,
            SecretErrorView::SecureMemory(reply->Err_0@),
        ),
        cannot_lock(from, search_root, fetch, lock, error) ==> error is SecureMemory && exists|
            b: Vec<u8>,
            x: Result<B, String>,
        |
            loads(from, search_root, fetch, b) && #[trigger] call_ensures(lock, (&b,), x)
                && x is Err && x->Err_0@ == error->SecureMemory_0,
        cannot_hold(from, search_root, fetch, lock, error) <==> fails(
            from,
            search_root,
            fetch,
            error,
        ) || cannot_lock(from, search_root, fetch, lock, error),
{
    if cannot_lock(from, search_root, fetch, lock, error) {
        let (b, x) = choose|b: Vec<u8>, x: Result<B, String>|
            #![trigger loads(from, search_root, fetch, b), call_ensures(lock, (&b,), x)]
            loads(from, search_root, fetch, b) && call_ensures(lock, (&b,), x) && x is Err && error
                == SecretErrorView::SecureMemory(x->Err_0@);
        assert(call_ensures(lock, (&b,), x));
    }
}

/// Each variable that some reference names has a secret, and no other has one; every reference is
/// resolved; and where several name one variable the last of them gives its secret.
pub proof fn law_last_reference_gives_the_secret<
    B,
    F: Fn(&SecretSource) -> Result<Vec<u8>, String>,
    L: Fn(&Vec<u8>) -> Result<B, String>,
>(
    refs: Seq<SecretRef>,
    search_root: Seq<char>,
    fetch: F,
    lock: L,
    secrets: Map<Seq<char>, B>,
    name: Seq<char>,
    i: int,
)
    requires
        resolves(refs, search_root, fetch, lock, secrets),
    ensures
        secrets.dom().contains(name) <==> exists|k: int|
            0 <= k < refs.len() && (#[trigger] refs[k]).env@ == name,
        0 <= i < refs.len() ==> can_lock(refs[i].from@, search_root, fetch, lock),
        0 <= i < refs.len() && refs[i].env@ == name && (forall|j: int|
            i < j < refs.len() ==> (#[trigger] refs[j]).env@ != name) ==> locks(
            refs[i].from@,
            search_root,
            fetch,
            lock,
            secrets[name],
        ),
{
    let listed = ref_names(refs);
    if exists|k: int| 0 <= k < refs.len() && (#[trigger] refs[k]).env@ == name {
        let k = choose|k: int| 0 <= k < refs.len() && (#[trigger] refs[k]).env@ == name;
        assert(listed[k] == name);
        assert(listed.to_set().contains(name));
    }
    if secrets.dom().contains(name) {
        assert(listed.to_set().contains(name));
        let k = listed.index_of(name);
        assert(refs[k].env@ == name);
    }
    if 0 <= i < refs.len() && refs[i].env@ == name && (forall|j: int|
        i < j < refs.len() ==> (#[trigger] refs[j]).env@ != name) {
        assert(is_last_for(refs, name, i));
    }
}

/// A list of references is refused only for one of them, with its own error, and only where every
/// one before it can be resolved.
pub proof fn law_refused_list_has_a_failing_reference<
    B,
    F: Fn(&SecretSource) -> Result<Vec<u8>, String>,
    L: Fn(&Vec<u8>) -> Result<B, String>,
>(
    refs: Seq<SecretRef>,
    search_root: Seq<char>,
    fetch: F,
    lock: L,
    error: SecretErrorView,
)
    requires
        cannot_resolve(refs, search_root, fetch, lock, error),
    ensures
        exists|i: int|
            #![trigger refs[i]]
            0 <= i < refs.len() && (fails(refs[i].from@, search_root, fetch, error) || cannot_lock(
                refs[i].from@,
                search_root,
                fetch,
                lock,
                error,
            )) && forall|j: int|
                #![trigger refs[j]]
                0 <= j < i ==> can_lock(refs[j].from@, search_root, fetch, lock),
{
}

/// A secret is read as the text of its bytes where they are UTF-8; else it is refused with the name
/// of its variable, and with what `read` says where that refuses.
pub proof fn law_secret_is_read_or_refused<B, R: Fn(&B) -> Result<Vec<u8>, String>>(
    read: R,
    name: Seq<char>,
    buf: B,
    value: Seq<char>,
    error: SecretErrorView,
)
    ensures
        reads_as(read, buf, value) ==> exists|bytes: Vec<u8>| #[trigger]
            call_ensures(read, (&buf,), Ok(bytes)) && vstd::utf8::valid_utf8(bytes@) && value
                == vstd::utf8::decode_utf8(bytes@),
        unreadable(read, name, buf, error) ==> {
            ||| error is SecureMemory && exists|m: String| #[trigger]
                call_ensures(read, (&buf,), Err(m)) && m@ == error->SecureMemory_0
            ||| error is Unavailable && exists|bytes: Vec<u8>| #[trigger]
                call_ensures(read, (&buf,), Ok(bytes)) && !vstd::utf8::valid_utf8(bytes@)
                    && error->Unavailable_0 == "secret "@ + name + " not utf-8: "@ + utf8_fault(
                    bytes@,
                )
        },
{
}

/// The list for a child process holds each variable once, every variable that has a secret, no
/// other, and each with the text of its own secret.
pub proof fn law_every_secret_is_handed_over<B, R: Fn(&B) -> Result<Vec<u8>, String>>(
    read: R,
    secrets: Map<Seq<char>, B>,
    list: Seq<(String, String)>,
    name: Seq<char>,
)
    requires
        reveals(read, secrets, list),
    ensures
        secrets.dom().contains(name) <==> exists|i: int|
            0 <= i < list.len() && (#[trigger] list[i]).0@ == name,
        forall|i: int, j: int|
            0 <= i < list.len() && 0 <= j < list.len() && i != j ==> (#[trigger] list[i]).0@ != (
            #[trigger] list[j]).0@,
        forall|i: int|
            0 <= i < list.len() ==> reads_as(read, secrets[(#[trigger] list[i]).0@], list[i].1@),
{
    let all = names(list);
    if exists|i: int| 0 <= i < list.len() && (#[trigger] list[i]).0@ == name {
        let i = choose|i: int| 0 <= i < list.len() && (#[trigger] list[i]).0@ == name;
        assert(all[i] == name);
        assert(all.to_set().contains(name));
    }
    if secrets.dom().contains(name) {
        assert(all.to_set().contains(name));
        let i = all.index_of(name);
        assert(list[i].0@ == name);
    }
    assert forall|i: int, j: int|
        0 <= i < list.len() && 0 <= j < list.len() && i != j implies (#[trigger] list[i]).0@ != (
    #[trigger] list[j]).0@ by {
        assert(all[i] != all[j]);
    }
}

/// Secrets are refused on their way to a child process only for one of them that is no text.
pub proof fn law_refused_secret_is_one_of_them<B, R: Fn(&B) -> Result<Vec<u8>, String>>(
    read: R,
    secrets: Map<Seq<char>, B>,
    error: SecretErrorView,
)
    requires
        cannot_reveal(read, secrets, error),
    ensures
        exists|k: Seq<char>| #[trigger]
            secrets.dom().contains(k) && unreadable(read, k, secrets[k], error),
{
}

/// Every reference of a list becomes a variable of the child process, and nothing else does.
pub proof fn law_every_reference_becomes_a_variable<
    B,
    F: Fn(&SecretSource) -> Result<Vec<u8>, String>,
    L: Fn(&Vec<u8>) -> Result<B, String>,
    R: Fn(&B) -> Result<Vec<u8>, String>,
>(
    refs: Seq<SecretRef>,
    search_root: Seq<char>,
    fetch: F,
    lock: L,
    read: R,
    list: Seq<(String, String)>,
    i: int,
    k: int,
)
    requires
        injects(refs, search_root, fetch, lock, read, list),
    ensures
        0 <= i < refs.len() ==> exists|j: int|
            0 <= j < list.len() && (#[trigger] list[j]).0@ == refs[i].env@,
        0 <= k < list.len() ==> exists|j: int|
            0 <= j < refs.len() && (#[trigger] refs[j]).env@ == list[k].0@,
        refs.len() == 0 ==> list.len() == 0,
{
    let secrets = choose|secrets: Map<Seq<char>, B>| #[trigger]
        resolves(refs, search_root, fetch, lock, secrets) && reveals(read, secrets, list);
    if 0 <= i < refs.len() {
        law_last_reference_gives_the_secret(
            refs,
            search_root,
            fetch,
            lock,
            secrets,
            refs[i].env@,
            i,
        );
        law_every_secret_is_handed_over(read, secrets, list, refs[i].env@);
    }
    if 0 <= k < list.len() {
        law_last_reference_gives_the_secret(
            refs,
            search_root,
            fetch,
            lock,
            secrets,
            list[k].0@,
            0,
        );
        law_every_secret_is_handed_over(read, secrets, list, list[k].0@);
    }
    if refs.len() == 0 && list.len() > 0 {
        law_last_reference_gives_the_secret(
            refs,
            search_root,
            fetch,
            lock,
            secrets,
            list[0].0@,
            0,
        );
        law_every_secret_is_handed_over(read, secrets, list, list[0].0@);
        assert(list[0].0@ == list[0].0@);
    }
}

/// A reference `value:TEXT` that is the last for its variable reaches the child process as TEXT,
/// at whatever place of the list it stands.
pub proof fn law_listed_literal_reaches_child<
    B,
    F: Fn(&SecretSource) -> Result<Vec<u8>, String>,
    L: Fn(&Vec<u8>) -> Result<B, String>,
    R: Fn(&B) -> Result<Vec<u8>, String>,
>(
    refs: Seq<SecretRef>,
    search_root: Seq<char>,
    fetch: F,
    lock: L,
    read: R,
    list: Seq<(String, String)>,
    i: int,
    literal: Seq<char>,
)
    requires
        injects(refs, search_root, fetch, lock, read, list),
        gives_back(lock, read),
        0 <= i < refs.len(),
        refs[i].from@ == "value:"@ + literal,
        forall|j: int| i < j < refs.len() ==> (#[trigger] refs[j]).env@ != refs[i].env@,
    ensures
        exists|j: int|
            0 <= j < list.len() && (#[trigger] list[j]).0@ == refs[i].env@ && list[j].1@ == literal,
{
    let secrets = choose|secrets: Map<Seq<char>, B>| #[trigger]
        resolves(refs, search_root, fetch, lock, secrets) && reveals(read, secrets, list);
    let name = refs[i].env@;
    law_last_reference_gives_the_secret(refs, search_root, fetch, lock, secrets, name, i);
    law_every_secret_is_handed_over(read, secrets, list, name);
    let j = choose|j: int| 0 <= j < list.len() && (#[trigger] list[j]).0@ == name;
    law_literal_secret_reaches_child(
        literal,
        search_root,
        fetch,
        lock,
        read,
        secrets[name],
        list[j].1@,
        SecretErrorView::Unsupported(name),
    );
}

/// Without references nothing is refused.
pub proof fn law_no_reference_is_never_refused<
    B,
    F: Fn(&SecretSource) -> Result<Vec<u8>, String>,
    L: Fn(&Vec<u8>) -> Result<B, String>,
    R: Fn(&B) -> Result<Vec<u8>, String>,
>(search_root: Seq<char>, fetch: F, lock: L, read: R, error: SecretErrorView)
    ensures
        !cannot_inject(Seq::<SecretRef>::empty(), search_root, fetch, lock, read, error),
{
    let refs = Seq::<SecretRef>::empty();
    if exists|secrets: Map<Seq<char>, B>| #[trigger]
        resolves(refs, search_root, fetch, lock, secrets) && cannot_reveal(read, secrets, error) {
        let secrets = choose|secrets: Map<Seq<char>, B>| #[trigger]
            resolves(refs, search_root, fetch, lock, secrets) && cannot_reveal(
                read,
                secrets,
                error,
            );
        let k = choose|k: Seq<char>| #[trigger]
            secrets.dom().contains(k) && unreadable(read, k, secrets[k], error);
        law_last_reference_gives_the_secret(refs, search_root, fetch, lock, secrets, k, 0);
    }
}

/// A refusal on the way from references to variables is that of a reference, or, where all are
/// resolved, that of a secret which is no text.
pub proof fn law_refusal_has_its_cause<
    B,
    F: Fn(&SecretSource) -> Result<Vec<u8>, String>,
    L: Fn(&Vec<u8>) -> Result<B, String>,
    R: Fn(&B) -> Result<Vec<u8>, String>,
>(
    refs: Seq<SecretRef>,
    search_root: Seq<char>,
    fetch: F,
    lock: L,
    read: R,
    error: SecretErrorView,
)
    requires
        cannot_inject(refs, search_root, fetch, lock, read, error),
    ensures
        cannot_resolve(refs, search_root, fetch, lock, error) || exists|
            secrets: Map<Seq<char>, B>,
            k: Seq<char>,
        |
            #![trigger resolves(refs, search_root, fetch, lock, secrets), secrets.dom().contains(k)]
            resolves(refs, search_root, fetch, lock, secrets) && secrets.dom().contains(k)
                && unreadable(read, k, secrets[k], error),
{
    if !cannot_resolve(refs, search_root, fetch, lock, error) {
        let secrets = choose|secrets: Map<Seq<char>, B>| #[trigger]
            resolves(refs, search_root, fetch, lock, secrets) && cannot_reveal(
                read,
                secrets,
                error,
            );
        let k = choose|k: Seq<char>| #[trigger]
            secrets.dom().contains(k) && unreadable(read, k, secrets[k], error);
        assert(resolves(refs, search_root, fetch, lock, secrets) && secrets.dom().contains(k));
    }
}

/// Each entry of a list of distinct variables is found under its variable, and nothing else is.
pub proof fn law_entries_are_found<B>(entries: Seq<(String, B)>, i: int, name: Seq<char>)
    requires
        forall|a: int, b: int|
            0 <= a < entries.len() && 0 <= b < entries.len() && a != b ==> (
            #[trigger] entries[a]).0@ != (#[trigger] entries[b]).0@,
    ensures
        0 <= i < entries.len() ==> entry_map(entries).dom().contains(entries[i].0@) && entry_map(
            entries,
        )[entries[i].0@] == entries[i].1,
        entry_map(entries).dom().contains(name) ==> exists|k: int|
            0 <= k < entries.len() && (#[trigger] entries[k]).0@ == name,
{
    let all = names(entries);
    assert forall|a: int, b: int|
        0 <= a < all.len() && 0 <= b < all.len() && a != b implies all[a] != all[b] by {
        assert(entries[a].0@ != entries[b].0@);
    }
    if 0 <= i < entries.len() {
        lemma_entry_at(entries, i);
    }
    if entry_map(entries).dom().contains(name) {
        let k = all.index_of(name);
        assert(entries[k].0@ == name);
    }
}

/// What `secret_text` answers: the text of bytes that are UTF-8, and a refusal of any others.
pub proof fn law_text_of_a_secret(
    name: &str,
    bytes: &Vec<u8>,
    value: Seq<char>,
    r: Result<String, SecretError>,
)
    requires
        call_ensures(secret_text, (name, bytes), r),
    ensures
        bytes@ == vstd::utf8::encode_utf8(value) ==> r is Ok && r->Ok_0@ == value,
        !vstd::utf8::valid_utf8(bytes@) ==> r is Err && r->Err_0@ == SecretErrorView::Unavailable(
            "secret "@ + name@ + " not utf-8: "@ + utf8_fault(bytes@),
        ),
{
    vstd::utf8::encode_utf8_decode_utf8(value);
    vstd::utf8::encode_utf8_valid_utf8(value);
}

} // verus!
