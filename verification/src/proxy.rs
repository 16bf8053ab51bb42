//! The CONNECT allowlist proxy: which targets it serves and how it answers.

use vstd::prelude::*;

use crate::policy::{self, key_of};
use crate::text::{
    self, contains_char, lower_text, push_string, same_text, trim_text, words_of,
};

verus! {

/// A set of `host:port` keys.
#[derive(Debug)]
pub struct AllowSet {
    keys: Vec<String>,
}

impl View for AllowSet {
    type V = Set<Seq<char>>;

    closed spec fn view(&self) -> Set<Seq<char>> {
        text::texts(self.keys@).to_set()
    }
}

impl AllowSet {
    /// No key is kept twice.
    #[verifier::type_invariant]
    closed spec fn keys_distinct(self) -> bool {
        text::texts(self.keys@).no_duplicates()
    }

    /// The empty set.
    pub fn new() -> (r: Self)
        ensures
            r@ == Set::<Seq<char>>::empty(),
    {
        let keys: Vec<String> = Vec::new();
        proof {
            assert(text::texts(keys@) =~= Seq::<Seq<char>>::empty());
            assert(text::texts(keys@).to_set() =~= Set::<Seq<char>>::empty());
        }
        AllowSet { keys }
    }

    /// Whether `key` is in the set.
    pub fn contains(&self, key: &str) -> (r: bool)
        ensures
            r == self@.contains(key@),
    {
        let mut i: usize = 0;
        while i < self.keys.len()
            invariant
                i <= self.keys@.len(),
                forall|k: int| 0 <= k < i ==> (#[trigger] self.keys@[k])@ != key@,
            decreases self.keys@.len() - i,
        {
            if same_text(self.keys[i].as_str(), key) {
                proof {
                    assert(text::texts(self.keys@)[i as int] == key@);
                }
                return true;
            }
            i += 1;
        }
        proof {
            assert forall|k: int| 0 <= k < self.keys@.len() implies text::texts(self.keys@)[k]
                != key@ by {
                assert(self.keys@[k]@ != key@);
            }
        }
        false
    }

    /// The set with `key` in it.
    pub fn with(self, key: String) -> (r: Self)
        ensures
            r@ == self@.insert(key@),
    {
        proof {
            use_type_invariant(&self);
        }
        if self.contains(key.as_str()) {
            proof {
                assert(self@.insert(key@) =~= self@);
            }
            return self;
        }
        let ghost before = text::texts(self.keys@);
        let mut keys = self.keys;
        push_string(&mut keys, key);
        proof {
            let after = text::texts(keys@);
            assert forall|i: int, j: int| 0 <= i < j < after.len() implies after[i] != after[j] by {
                if j == before.len() {
                    assert(before[i] == after[i]);
                    assert(before.contains(after[i]));
                } else {
                    assert(after[i] == before[i] && after[j] == before[j]);
                }
            }
            assert forall|k: Seq<char>| after.to_set().contains(k) == before.to_set().insert(
                key@,
            ).contains(k) by {
                if before.contains(k) {
                    let i = choose|i: int| 0 <= i < before.len() && before[i] == k;
                    assert(after[i] == k);
                }
                if k == key@ {
                    assert(after[before.len() as int] == k);
                }
            }
            assert(after.to_set() =~= before.to_set().insert(key@));
        }
        AllowSet { keys }
    }

    /// The number of keys.
    pub fn len(&self) -> (r: usize)
        ensures
            r == self@.len(),
    {
        proof {
            use_type_invariant(self);
            text::texts(self.keys@).unique_seq_to_set();
        }
        self.keys.len()
    }
}

/// The keys of a list of hosts and ports.
pub open spec fn endpoint_keys(endpoints: Seq<(String, u16)>) -> Set<Seq<char>> {
    Set::new(
        |k: Seq<char>|
            exists|i: int|
                0 <= i < endpoints.len() && k == policy::endpoint_key(
                    (#[trigger] endpoints[i]).0@,
                    endpoints[i].1 as nat,
                ),
    )
}

/// Builds the allow set from host/port pairs.
pub fn allow_from_endpoints(endpoints: Vec<(String, u16)>) -> (r: AllowSet)
    ensures
        r@ == endpoint_keys(endpoints@),
{
    let mut out = AllowSet::new();
    let mut i: usize = 0;
    proof {
        assert(endpoint_keys(endpoints@.take(0)) =~= Set::<Seq<char>>::empty());
    }
    while i < endpoints.len()
        invariant
            i <= endpoints@.len(),
            out@ == endpoint_keys(endpoints@.take(i as int)),
        decreases endpoints@.len() - i,
    {
        let pair = &endpoints[i];
        out = out.with(key_of(pair.0.as_str(), pair.1));
        proof {
            let prev = endpoints@.take(i as int);
            let next = endpoints@.take(i + 1);
            let key = policy::endpoint_key(endpoints@[i as int].0@, endpoints@[i as int].1 as nat);
            assert forall|k: Seq<char>| endpoint_keys(next).contains(k) == endpoint_keys(
                prev,
            ).insert(key).contains(k) by {
                if endpoint_keys(prev).contains(k) {
                    let j = choose|j: int|
                        0 <= j < prev.len() && k == policy::endpoint_key(
                            (#[trigger] prev[j]).0@,
                            prev[j].1 as nat,
                        );
                    assert(next[j] == prev[j]);
                }
                if endpoint_keys(next).contains(k) {
                    let j = choose|j: int|
                        0 <= j < next.len() && k == policy::endpoint_key(
                            (#[trigger] next[j]).0@,
                            next[j].1 as nat,
                        );
                    if j < i {
                        assert(prev[j] == next[j]);
                    }
                }
                if k == key {
                    assert(next[i as int] == endpoints@[i as int]);
                }
            }
            assert(endpoint_keys(next) =~= endpoint_keys(prev).insert(key));
        }
        i += 1;
    }
    proof {
        assert(endpoints@.take(i as int) =~= endpoints@);
    }
    out
}

/// Checks whether a host and a port would be allowed.
pub fn is_allowed(allow: &AllowSet, host: &str, port: u16) -> (r: bool)
    ensures
        r == allow@.contains(policy::endpoint_key(host@, port as nat)),
{
    allow.contains(key_of(host, port).as_str())
}

/// A target with the port 443 where it names none.
pub open spec fn with_port(t: Seq<char>) -> Seq<char> {
    if t.contains(':') {
        t
    } else {
        t + ":443"@
    }
}

/// The key that an entry of an allow set stands for.
pub open spec fn entry_key(entry: Seq<char>) -> Seq<char> {
    with_port(text::lower(text::trim(entry)))
}

/// The key of the target of a request.
pub open spec fn target_key(target: Seq<char>) -> Seq<char> {
    with_port(text::lower(target))
}

/// `t` with the port 443 where it names none.
fn add_port(t: String) -> (r: String)
    ensures
        r@ == with_port(t@),
{
    if contains_char(t.as_str(), ':') {
        t
    } else {
        t.concat(":443")
    }
}

/// The keys that the entries of an allow set stand for.
pub open spec fn normalized(allow: Set<Seq<char>>) -> Set<Seq<char>> {
    allow.map(|entry: Seq<char>| entry_key(entry))
}

/// Brings every entry of an allow set to the form in which targets are looked up.
pub fn normalize_allow(allow: &AllowSet) -> (r: AllowSet)
    ensures
        r@ == normalized(allow@),
{
    let mut out = AllowSet::new();
    let mut i: usize = 0;
    let ghost all = text::texts(allow.keys@);
    proof {
        assert(normalized(all.take(0).to_set()) =~= Set::<Seq<char>>::empty());
    }
    while i < allow.keys.len()
        invariant
            i <= allow.keys@.len(),
            all == text::texts(allow.keys@),
            out@ == normalized(all.take(i as int).to_set()),
        decreases allow.keys@.len() - i,
    {
        let entry = trim_text(allow.keys[i].as_str());
        out = out.with(add_port(lower_text(entry.as_str())));
        proof {
            let prev = all.take(i as int);
            let next = all.take(i + 1);
            let x = all[i as int];
            assert(next =~= prev.push(x));
            assert forall|k: Seq<char>| normalized(next.to_set()).contains(k) == normalized(
                prev.to_set(),
            ).insert(entry_key(x)).contains(k) by {
                if normalized(prev.to_set()).contains(k) {
                    let e = choose|e: Seq<char>|
                        prev.to_set().contains(e) && #[trigger] entry_key(e) == k;
                    let j = choose|j: int| 0 <= j < prev.len() && prev[j] == e;
                    assert(next[j] == e);
                    assert(next.to_set().contains(e));
                }
                if normalized(next.to_set()).contains(k) {
                    let e = choose|e: Seq<char>|
                        next.to_set().contains(e) && #[trigger] entry_key(e) == k;
                    let j = choose|j: int| 0 <= j < next.len() && next[j] == e;
                    if j < i {
                        assert(prev[j] == e);
                        assert(prev.to_set().contains(e));
                    }
                }
                if k == entry_key(x) {
                    assert(next[i as int] == x);
                    assert(next.to_set().contains(x));
                }
            }
            assert(normalized(next.to_set()) =~= normalized(prev.to_set()).insert(entry_key(x)));
        }
        i += 1;
    }
    proof {
        assert(all.take(i as int) =~= all);
    }
    out
}

/// An answer of the proxy.
#[derive(Debug, Clone, Copy, PartialEq, Eq, Structural)]
pub enum Reply {
    /// The tunnel is open.
    Established,
    /// The request is not a CONNECT.
    MethodNotAllowed,
    /// The target is not in the allow set.
    Forbidden,
    /// The target cannot be reached.
    BadGateway,
}

impl Reply {
    /// What is sent to the client.
    pub fn as_str(&self) -> (r: &'static str)
        ensures
            r@ == match *self {
                Reply::Established => "HTTP/1.1 200 Connection Established\r\n\r\n"@,
                Reply::MethodNotAllowed =>
                    "HTTP/1.1 405 Method Not Allowed\r\nConnection: close\r\n\r\n"@,
                Reply::Forbidden => "HTTP/1.1 403 Forbidden\r\nConnection: close\r\n\r\n"@,
                Reply::BadGateway => "HTTP/1.1 502 Bad Gateway\r\nConnection: close\r\n\r\n"@,
            },
    {
        match self {
            Reply::Established => "HTTP/1.1 200 Connection Established\r\n\r\n",
            Reply::MethodNotAllowed =>
                "HTTP/1.1 405 Method Not Allowed\r\nConnection: close\r\n\r\n",
            Reply::Forbidden => "HTTP/1.1 403 Forbidden\r\nConnection: close\r\n\r\n",
            Reply::BadGateway => "HTTP/1.1 502 Bad Gateway\r\nConnection: close\r\n\r\n",
        }
    }
}

/// How far a client's request has been read.
#[derive(Debug)]
pub enum RequestState {
    /// Nothing has been read.
    Start,
    /// The request line has been read; header lines follow.
    Headers { request: String },
}

/// What to do after a line of a request.
#[derive(Debug)]
pub enum RequestStep {
    /// Read another line.
    Read(RequestState),
    /// The client sent nothing: close without an answer.
    Hangup,
    /// Send the answer and close.
    Refuse(Reply),
    /// Connect to the target with this key.
    Connect(String),
}

/// What a complete request leads to.
pub enum Verdict {
    Refuse(Reply),
    Connect(Seq<char>),
}

/// What a request line leads to: only CONNECT is served, and only for a target whose key is in
/// `allow`.
pub open spec fn verdict(request: Seq<char>, allow: Set<Seq<char>>) -> Verdict {
    let w = text::words(request);
    if w.len() < 2 || text::lower(w[0]) != "connect"@ {
        Verdict::Refuse(Reply::MethodNotAllowed)
    } else if !allow.contains(target_key(w[1])) {
        Verdict::Refuse(Reply::Forbidden)
    } else {
        Verdict::Connect(target_key(w[1]))
    }
}

/// Whether a line ends the headers; at the end of the input the line is empty.
pub open spec fn ends_headers(line: Seq<char>) -> bool {
    line == "\r\n"@ || line == "\n"@ || line.len() == 0
}

/// Decides what a complete request leads to.
fn decide(request: &str, allow: &AllowSet) -> (r: RequestStep)
    ensures
        match verdict(request@, allow@) {
            Verdict::Refuse(reply) => r == RequestStep::Refuse(reply),
            Verdict::Connect(key) => r is Connect && r->Connect_0@ == key,
        },
{
    let parts = words_of(request);
    proof {
        assert(text::texts(parts@).len() == parts@.len());
    }
    if parts.len() < 2 || !same_text(lower_text(parts[0].as_str()).as_str(), "connect") {
        return RequestStep::Refuse(Reply::MethodNotAllowed);
    }
    let key = add_port(lower_text(parts[1].as_str()));
    if !allow.contains(key.as_str()) {
        return RequestStep::Refuse(Reply::Forbidden);
    }
    RequestStep::Connect(key)
}

/// Takes the next line of a client's request, its line end included; at the end of the input the
/// line is empty.
pub fn on_line(state: RequestState, line: String, allow: &AllowSet) -> (r: RequestStep)
    ensures
        match state {
            RequestState::Start => if line@.len() == 0 {
                r == RequestStep::Hangup
            } else {
                r == RequestStep::Read(RequestState::Headers { request: line })
            },
            RequestState::Headers { request } => if !ends_headers(line@) {
                r == RequestStep::Read(state)
            } else {
                match verdict(request@, allow@) {
                    Verdict::Refuse(reply) => r == RequestStep::Refuse(reply),
                    Verdict::Connect(key) => r is Connect && r->Connect_0@ == key,
                }
            },
        },
{
    match state {
        RequestState::Start => if line.as_str().is_empty() {
            RequestStep::Hangup
        } else {
            RequestStep::Read(RequestState::Headers { request: line })
        },
        RequestState::Headers { request } => if same_text(line.as_str(), "\r\n") || same_text(
            line.as_str(),
            "\n",
        ) || line.as_str().is_empty() {
            decide(request.as_str(), allow)
        } else {
            RequestStep::Read(RequestState::Headers { request })
        },
    }
}

/// The answer once the target has been tried; a tunnel follows `Established` alone.
pub fn on_upstream(connected: bool) -> (r: Reply)
    ensures
        r == if connected {
            Reply::Established
        } else {
            Reply::BadGateway
        },
{
    if connected {
        Reply::Established
    } else {
        Reply::BadGateway
    }
}

/// The proxy connects to nothing that is not in its allow set.
pub proof fn law_connects_only_to_allowed(request: Seq<char>, allow: Set<Seq<char>>)
    ensures
        verdict(request, allow) matches Verdict::Connect(key) ==> allow.contains(key),
{
}

/// An empty allow set denies every request.
pub proof fn law_empty_set_denies_all(request: Seq<char>)
    ensures
        verdict(request, normalized(Set::empty())) is Refuse,
{
}

/// Lower-casing and trimming can be done in either order.
proof fn lemma_trim_start_lower(s: Seq<char>)
    ensures
        text::trim_start(text::lower(s)) == text::lower(text::trim_start(s)),
    decreases s.len(),
{
    if s.len() > 0 {
        assert(text::is_white(text::lower(s)[0]) == text::is_white(s[0]));
        if text::is_white(s[0]) {
            assert(text::lower(s).skip(1) =~= text::lower(s.skip(1)));
            lemma_trim_start_lower(s.skip(1));
        }
    }
}

/// What follows a character that is no white space does not matter to trimming the start.
proof fn lemma_trim_start_append(s: Seq<char>, t: Seq<char>)
    requires
        t.len() > 0,
        !text::is_white(t[0]),
    ensures
        text::trim_start(s + t) == text::trim_start(s) + t,
    decreases s.len(),
{
    if s.len() == 0 {
        assert(s + t =~= t);
    } else if text::is_white(s[0]) {
        assert((s + t).skip(1) =~= s.skip(1) + t);
        lemma_trim_start_append(s.skip(1), t);
    }
}

/// The entry of an endpoint stands for the endpoint, without white space before its host.
pub proof fn law_entry_of_endpoint(host: Seq<char>, port: nat)
    ensures
        entry_key(policy::endpoint_key(host, port)) == policy::endpoint_key(
            text::trim_start(host),
            port,
        ),
{
    let port_part = seq![':'] + text::decimal(port);
    let key = policy::endpoint_key(host, port);
    text::lemma_decimal_reads_back(port);
    assert(key =~= text::lower(host) + port_part);
    lemma_trim_start_append(text::lower(host), port_part);
    lemma_trim_start_lower(host);
    let start = text::lower(text::trim_start(host));
    let t = start + port_part;
    assert(text::trim_start(key) == t);
    assert(t.last() == text::decimal(port).last());
    assert(text::is_digit(text::decimal(port).last()));
    assert(text::trim_end(t) == t);
    assert(text::lower(t) =~= t) by {
        assert forall|i: int| 0 <= i < t.len() implies text::lower_char(t[i]) == t[i] by {
            if i < start.len() {
                text::lemma_lower_idempotent(text::trim_start(host));
                assert(t[i] == start[i]);
                assert(text::lower(start)[i] == start[i]);
            } else if i > start.len() {
                assert(t[i] == text::decimal(port)[i - start.len() - 1]);
                assert(text::is_digit(text::decimal(port)[i - start.len() - 1]));
            }
        }
    }
    assert(t[start.len() as int] == ':');
    assert(t.contains(':'));
    assert(t =~= policy::endpoint_key(text::trim_start(host), port));
}

/// A target `host:port` has the key of that endpoint; a target without a colon has the key of
/// that host at port 443.
pub proof fn law_key_of_target(host: Seq<char>, port: nat)
    ensures
        target_key(host.push(':') + text::decimal(port)) == policy::endpoint_key(host, port),
        !host.contains(':') ==> target_key(host) == policy::endpoint_key(host, 443),
{
    let target = host.push(':') + text::decimal(port);
    text::lemma_decimal_reads_back(port);
    let key = policy::endpoint_key(host, port);
    assert forall|i: int| 0 <= i < target.len() implies text::lower(target)[i] == key[i] by {
        if i > host.len() {
            assert(target[i] == text::decimal(port)[i - host.len() - 1]);
            assert(text::is_digit(text::decimal(port)[i - host.len() - 1]));
        }
    }
    assert(text::lower(target) =~= key);
    assert(key[host.len() as int] == ':');
    if !host.contains(':') {
        let l = text::lower(host);
        if l.contains(':') {
            let i = choose|i: int| 0 <= i < l.len() && l[i] == ':';
            assert(host[i] == ':');
        }
        reveal_strlit(":443");
        reveal_with_fuel(text::decimal, 3);
        assert(":443"@ =~= seq![':'] + text::decimal(443));
        assert(l + ":443"@ =~= policy::endpoint_key(host, 443));
    }
}

/// The proxy that is started for a list of endpoints serves a host and a port exactly where the
/// list has that port with that host, in any case and after white space.
pub proof fn law_serves_exactly_the_endpoints(
    endpoints: Seq<(String, u16)>,
    host: Seq<char>,
    port: nat,
)
    ensures
        normalized(endpoint_keys(endpoints)).contains(policy::endpoint_key(host, port))
            <==> exists|i: int|
            0 <= i < endpoints.len() && (#[trigger] endpoints[i]).1 == port && text::lower(
                text::trim_start(endpoints[i].0@),
            ) == text::lower(host),
{
    let key = policy::endpoint_key(host, port);
    let keys = endpoint_keys(endpoints);
    if normalized(keys).contains(key) {
        let e = choose|e: Seq<char>| keys.contains(e) && #[trigger] entry_key(e) == key;
        let i = choose|i: int|
            0 <= i < endpoints.len() && e == policy::endpoint_key(
                (#[trigger] endpoints[i]).0@,
                endpoints[i].1 as nat,
            );
        law_entry_of_endpoint(endpoints[i].0@, endpoints[i].1 as nat);
        policy::law_key_identifies_endpoint(
            text::trim_start(endpoints[i].0@),
            endpoints[i].1 as nat,
            host,
            port,
        );
    }
    if exists|i: int|
        0 <= i < endpoints.len() && (#[trigger] endpoints[i]).1 == port && text::lower(
            text::trim_start(endpoints[i].0@),
        ) == text::lower(host) {
        let i = choose|i: int|
            0 <= i < endpoints.len() && (#[trigger] endpoints[i]).1 == port && text::lower(
                text::trim_start(endpoints[i].0@),
            ) == text::lower(host);
        let e = policy::endpoint_key(endpoints[i].0@, endpoints[i].1 as nat);
        law_entry_of_endpoint(endpoints[i].0@, endpoints[i].1 as nat);
        policy::law_key_identifies_endpoint(
            text::trim_start(endpoints[i].0@),
            endpoints[i].1 as nat,
            host,
            port,
        );
        assert(keys.contains(e));
        assert(entry_key(e) == key);
        assert(normalized(keys).contains(key));
    }
}

/// A host and a port are allowed by the keys of a list of endpoints exactly where the list has
/// that port with that host, in any case.
pub proof fn law_allowed_exactly_the_endpoints(
    endpoints: Seq<(String, u16)>,
    host: Seq<char>,
    port: nat,
)
    ensures
        endpoint_keys(endpoints).contains(policy::endpoint_key(host, port)) <==> exists|i: int|
            0 <= i < endpoints.len() && (#[trigger] endpoints[i]).1 == port && text::lower(
                endpoints[i].0@,
            ) == text::lower(host),
{
    assert forall|i: int| 0 <= i < endpoints.len() implies (policy::endpoint_key(host, port)
        == policy::endpoint_key((#[trigger] endpoints[i]).0@, endpoints[i].1 as nat)) == (
    endpoints[i].1 == port && text::lower(endpoints[i].0@) == text::lower(host)) by {
        policy::law_key_identifies_endpoint(
            endpoints[i].0@,
            endpoints[i].1 as nat,
            host,
            port,
        );
    }
}

/// An entry stands for its text without the white space around it, in lower case, with the port
/// 443 where it names none.
pub proof fn law_entry_without_a_port(pre: Seq<char>, e: Seq<char>, post: Seq<char>)
    requires
        text::all_white(pre),
        text::all_white(post),
        e.len() > 0 ==> !text::is_white(e[0]) && !text::is_white(e.last()),
    ensures
        e.contains(':') ==> entry_key(pre + e + post) == text::lower(e),
        !e.contains(':') ==> entry_key(pre + e + post) == text::lower(e) + ":443"@,
{
    text::law_trim_takes_white_space_alone(pre, e, post);
    lemma_colons_stay(e);
}

/// Lower case keeps the colons of a text and makes none.
proof fn lemma_colons_stay(s: Seq<char>)
    ensures
        text::lower(s).contains(':') == s.contains(':'),
{
    let l = text::lower(s);
    if s.contains(':') {
        let i = choose|i: int| 0 <= i < s.len() && s[i] == ':';
        assert(l[i] == ':');
    }
    if l.contains(':') {
        let i = choose|i: int| 0 <= i < l.len() && l[i] == ':';
        assert(s[i] == ':');
    }
}

/// Every entry of a set, and nothing else, is looked up under its key.
pub proof fn law_every_entry_is_normalized(allow: Set<Seq<char>>, key: Seq<char>)
    ensures
        normalized(allow).contains(key) <==> exists|e: Seq<char>| #[trigger]
            allow.contains(e) && entry_key(e) == key,
{
    if normalized(allow).contains(key) {
        let e = choose|e: Seq<char>| allow.contains(e) && #[trigger] entry_key(e) == key;
        assert(allow.contains(e));
    }
    if exists|e: Seq<char>| #[trigger] allow.contains(e) && entry_key(e) == key {
        let e = choose|e: Seq<char>| #[trigger] allow.contains(e) && entry_key(e) == key;
        assert(normalized(allow).contains(entry_key(e)));
    }
}

/// What a request comes to, for every request: its first word must be CONNECT in any case and a
/// second word must follow; that word, in lower case and with the port 443 where it has no colon,
/// is the key. The proxy connects to the key exactly where it is allowed, and answers Forbidden
/// exactly where it is not.
pub proof fn law_request_is_served_or_refused(request: Seq<char>, allow: Set<Seq<char>>)
    ensures
        ({
            let w = text::words(request);
            let connect = w.len() >= 2 && text::lower(w[0]) == "connect"@;
            let key = if w[1].contains(':') {
                text::lower(w[1])
            } else {
                text::lower(w[1]) + ":443"@
            };
            &&& !connect ==> verdict(request, allow) == Verdict::Refuse(Reply::MethodNotAllowed)
            &&& connect && allow.contains(key) ==> verdict(request, allow) == Verdict::Connect(key)
            &&& connect && !allow.contains(key) ==> verdict(request, allow) == Verdict::Refuse(
                Reply::Forbidden,
            )
        }),
{
    let w = text::words(request);
    if w.len() >= 2 {
        lemma_colons_stay(w[1]);
    }
}

/// A request for a host and a port is served where the endpoint is allowed, and forbidden where it
/// is not, whatever the method's case, the length of the host and the rest of the line. A host
/// without a colon means port 443.
pub proof fn law_allowed_endpoint_is_served(
    method: Seq<char>,
    host: Seq<char>,
    port: nat,
    rest: Seq<char>,
    allow: Set<Seq<char>>,
)
    requires
        text::lower(method) == "connect"@,
        host.len() > 0,
        forall|i: int| 0 <= i < host.len() ==> !text::is_white(#[trigger] host[i]),
        rest.len() > 0 ==> text::is_white(rest[0]),
    ensures
        ({
            let request = method + " "@ + host + ":"@ + text::decimal(port) + rest;
            let key = policy::endpoint_key(host, port);
            &&& allow.contains(key) ==> verdict(request, allow) == Verdict::Connect(key)
            &&& !allow.contains(key) ==> verdict(request, allow) == Verdict::Refuse(
                Reply::Forbidden,
            )
        }),
        !host.contains(':') ==> {
            let request = method + " "@ + host + rest;
            let key = policy::endpoint_key(host, 443);
            &&& allow.contains(key) ==> verdict(request, allow) == Verdict::Connect(key)
            &&& !allow.contains(key) ==> verdict(request, allow) == Verdict::Refuse(
                Reply::Forbidden,
            )
        },
{
    reveal_strlit("connect");
    reveal_strlit(" ");
    reveal_strlit(":");
    let none = Seq::<char>::empty();
    assert(text::lower(method).len() == method.len());
    assert forall|i: int| 0 <= i < method.len() implies !text::is_white(
        #[trigger] method[i],
    ) by {
        assert(text::lower(method)[i] == "connect"@[i]);
        assert(text::lower_char(method[i]) == "connect"@[i]);
    }
    let target = host.push(':') + text::decimal(port);
    text::lemma_decimal_reads_back(port);
    assert forall|i: int| 0 <= i < target.len() implies !text::is_white(
        #[trigger] target[i],
    ) by {
        if i < host.len() {
            assert(target[i] == host[i]);
        } else if i > host.len() {
            assert(target[i] == text::decimal(port)[i - host.len() - 1]);
            assert(text::is_digit(text::decimal(port)[i - host.len() - 1]));
        }
    }
    law_key_of_target(host, port);
    lemma_two_words(method, target, rest);
    assert(method + " "@ + host + ":"@ + text::decimal(port) + rest =~= none + method + (" "@
        + target + rest));
    lemma_two_words(method, host, rest);
    assert(method + " "@ + host + rest =~= none + method + (" "@ + host + rest));
}

/// The first two words of a line.
proof fn lemma_two_words(a: Seq<char>, b: Seq<char>, rest: Seq<char>)
    requires
        a.len() > 0,
        b.len() > 0,
        forall|i: int| 0 <= i < a.len() ==> !text::is_white(#[trigger] a[i]),
        forall|i: int| 0 <= i < b.len() ==> !text::is_white(#[trigger] b[i]),
        rest.len() > 0 ==> text::is_white(rest[0]),
    ensures
        ({
            let w = text::words(Seq::<char>::empty() + a + (" "@ + b + rest));
            w.len() >= 2 && w[0] == a && w[1] == b
        }),
{
    reveal_strlit(" ");
    let none = Seq::<char>::empty();
    let tail = " "@ + b + rest;
    assert(tail[0] == ' ');
    text::law_words_are_the_runs(none, a, tail);
    assert(text::all_white(" "@));
    text::law_words_are_the_runs(" "@, b, rest);
}

/// An endpoint of a policy is served by the proxy that is started for it, whatever its case and its
/// length; an endpoint that no line of the policy has is forbidden.
pub proof fn law_listed_endpoint_is_served(
    endpoints: Seq<(String, u16)>,
    method: Seq<char>,
    host: Seq<char>,
    port: nat,
    rest: Seq<char>,
)
    requires
        text::lower(method) == "connect"@,
        host.len() > 0,
        forall|i: int| 0 <= i < host.len() ==> !text::is_white(#[trigger] host[i]),
        rest.len() > 0 ==> text::is_white(rest[0]),
    ensures
        ({
            let request = method + " "@ + host + ":"@ + text::decimal(port) + rest;
            let allow = normalized(endpoint_keys(endpoints));
            let listed = exists|i: int|
                0 <= i < endpoints.len() && (#[trigger] endpoints[i]).1 == port && text::lower(
                    text::trim_start(endpoints[i].0@),
                ) == text::lower(host);
            &&& listed ==> verdict(request, allow) == Verdict::Connect(
                text::lower(host) + ":"@ + text::decimal(port),
            )
            &&& !listed ==> verdict(request, allow) == Verdict::Refuse(Reply::Forbidden)
        }),
{
    let allow = normalized(endpoint_keys(endpoints));
    law_serves_exactly_the_endpoints(endpoints, host, port);
    law_allowed_endpoint_is_served(method, host, port, rest, allow);
    policy::law_key_is_host_and_port(host, port);
}

/// The keys of a list of endpoints are those of its members and no other.
pub proof fn law_keys_of_endpoints(endpoints: Seq<(String, u16)>, key: Seq<char>)
    ensures
        endpoint_keys(endpoints).contains(key) <==> exists|i: int|
            0 <= i < endpoints.len() && key == text::lower((#[trigger] endpoints[i]).0@) + ":"@
                + text::decimal(endpoints[i].1 as nat),
{
    assert forall|i: int| 0 <= i < endpoints.len() implies policy::endpoint_key(
        (#[trigger] endpoints[i]).0@,
        endpoints[i].1 as nat,
    ) == text::lower(endpoints[i].0@) + ":"@ + text::decimal(endpoints[i].1 as nat) by {
        policy::law_key_is_host_and_port(endpoints[i].0@, endpoints[i].1 as nat);
    }
}

/// The headers of a request end with an empty line, with or without a carriage return, or with the
/// input; no other line ends them.
pub proof fn law_headers_end_with_an_empty_line(line: Seq<char>)
    ensures
        ends_headers(line) <==> line == seq!['\r', '\n'] || line == seq!['\n'] || line
            == Seq::<char>::empty(),
{
    reveal_strlit("\r\n");
    reveal_strlit("\n");
    assert("\r\n"@ =~= seq!['\r', '\n']);
    assert("\n"@ =~= seq!['\n']);
    if line.len() == 0 {
        assert(line =~= Seq::<char>::empty());
    }
}

/// Every endpoint of a list is allowed, whatever the case of the host that is asked for, at
/// whatever place of the list it stands.
pub proof fn law_listed_endpoint_is_allowed(
    endpoints: Vec<(String, u16)>,
    allow: &AllowSet,
    host: &str,
    port: u16,
    i: int,
    r: bool,
)
    requires
        call_ensures(allow_from_endpoints, (endpoints,), *allow),
        call_ensures(is_allowed, (allow, host, port), r),
        0 <= i < endpoints@.len(),
        text::lower(endpoints@[i].0@) == text::lower(host@),
        endpoints@[i].1 == port,
    ensures
        r,
{
    assert(endpoint_keys(endpoints@).contains(
        policy::endpoint_key(endpoints@[i].0@, endpoints@[i].1 as nat),
    ));
}

/// Without endpoints nothing is allowed.
pub proof fn law_no_endpoint_allows_nothing(
    endpoints: Vec<(String, u16)>,
    allow: &AllowSet,
    host: &str,
    port: u16,
    r: bool,
)
    requires
        endpoints@.len() == 0,
        call_ensures(allow_from_endpoints, (endpoints,), *allow),
        call_ensures(is_allowed, (allow, host, port), r),
    ensures
        !r,
{
}

/// A request is read line by line: a first line that is empty ends it, header lines change nothing,
/// and the first empty line leads to what the request line asks for.
pub proof fn law_request_is_read_to_its_end(
    request: String,
    line: String,
    allow: &AllowSet,
    first: RequestStep,
    next: RequestStep,
)
    requires
        call_ensures(on_line, (RequestState::Start, request, allow), first),
        call_ensures(on_line, (RequestState::Headers { request }, line, allow), next),
    ensures
        request@.len() == 0 ==> first == RequestStep::Hangup,
        request@.len() > 0 ==> first == RequestStep::Read(RequestState::Headers { request }),
        line@.len() > 0 && line@ != "\r\n"@ && line@ != "\n"@ ==> next == RequestStep::Read(
            RequestState::Headers { request },
        ),
        line@.len() == 0 || line@ == "\r\n"@ || line@ == "\n"@ ==> {
            match verdict(request@, allow@) {
                Verdict::Refuse(reply) => next == RequestStep::Refuse(reply),
                Verdict::Connect(key) => next is Connect && next->Connect_0@ == key,
            }
        },
{
}

/// What the proxy sends, byte for byte, and that it opens a tunnel only once the target is reached.
pub proof fn law_answers_of_the_proxy(reply: &Reply, r: &'static str, up: Reply, down: Reply)
    requires
        call_ensures(Reply::as_str, (reply,), r),
        call_ensures(on_upstream, (true,), up),
        call_ensures(on_upstream, (false,), down),
    ensures
        up == Reply::Established,
        down == Reply::BadGateway,
        *reply == Reply::Established ==> r@ == "HTTP/1.1 200 Connection Established\r\n\r\n"@,
        *reply == Reply::MethodNotAllowed ==> r@
            == "HTTP/1.1 405 Method Not Allowed\r\nConnection: close\r\n\r\n"@,
        *reply == Reply::Forbidden ==> r@
            == "HTTP/1.1 403 Forbidden\r\nConnection: close\r\n\r\n"@,
        *reply == Reply::BadGateway ==> r@
            == "HTTP/1.1 502 Bad Gateway\r\nConnection: close\r\n\r\n"@,
{
}

} // verus!
