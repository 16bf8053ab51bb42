//! Seatbelt profiles: what `sandbox-exec` lets a process do under a policy.

use vstd::prelude::*;

use crate::mechanism::MechanismError;
use crate::paths;
use crate::policy::{self, NetworkMode, SandboxPolicy};
use crate::text::{self, join_lines, push_string, push_text};

verus! {

/// The rule that lets a sandbox read a directory and all below it.
pub open spec fn read_rule(p: Seq<char>) -> Seq<char> {
    "(allow file-read* (subpath \""@ + p + "\"))"@
}

/// The rule that lets a sandbox write a directory and all below it.
pub open spec fn write_rule(p: Seq<char>) -> Seq<char> {
    "(allow file-write* (subpath \""@ + p + "\"))"@
}

/// The rules that every profile starts with: everything that no later rule allows is denied.
pub open spec fn base_rules() -> Seq<Seq<char>> {
    seq![
        "(version 1)"@,
        "(deny default)"@,
        "(allow process*)"@,
        "(allow sysctl*)"@,
        "(allow mach*)"@,
        "(allow ipc*)"@,
        "(allow signal)"@,
        "(allow file-read-metadata)"@,
    ]
}

/// The system directories that binaries need in order to run.
pub open spec fn system_dirs() -> Seq<Seq<char>> {
    seq![
        "/usr"@,
        "/bin"@,
        "/sbin"@,
        "/System"@,
        "/Library"@,
        "/private/var/db"@,
        "/dev"@,
        "/private/tmp"@,
        "/tmp"@,
        "/etc"@,
        "/private/etc"@,
        "/Applications"@,
    ]
}

/// The rules for single files.
pub open spec fn file_rules() -> Seq<Seq<char>> {
    seq![
        "(allow file-read* (literal \"/\"))"@,
        "(allow file-ioctl (literal \"/dev/null\"))"@,
        "(allow file-write* (literal \"/dev/null\"))"@,
        "(allow file-write* (literal \"/dev/dtracehelper\"))"@,
    ]
}

/// The read rule of each directory of a list.
pub open spec fn read_rules(dirs: Seq<Seq<char>>) -> Seq<Seq<char>> {
    dirs.map_values(|p: Seq<char>| read_rule(p))
}

/// The read rule and the write rule of each directory of a list.
pub open spec fn read_write_rules(dirs: Seq<Seq<char>>) -> Seq<Seq<char>>
    decreases dirs.len(),
{
    if dirs.len() == 0 {
        Seq::empty()
    } else {
        read_write_rules(dirs.drop_last()) + seq![read_rule(dirs.last()), write_rule(dirs.last())]
    }
}

/// The directories that every sandbox may write.
pub open spec fn scratch_dirs() -> Seq<Seq<char>> {
    seq!["/tmp"@, "/private/tmp"@, "/var/folders"@, "/private/var/folders"@]
}

/// The write rule of each directory of a list.
pub open spec fn write_rules(dirs: Seq<Seq<char>>) -> Seq<Seq<char>> {
    dirs.map_values(|p: Seq<char>| write_rule(p))
}

/// The network rules of a mode. In allowlist mode only localhost can be reached, where the proxy
/// listens.
pub open spec fn network_rules(mode: NetworkMode) -> Seq<Seq<char>> {
    match mode {
        NetworkMode::NoNetwork => seq!["(deny network*)"@],
        NetworkMode::Allowlist => seq![
            "(allow network* (remote ip \"localhost:*\"))"@,
            "(allow network-bind (local ip \"localhost:*\"))"@,
        ],
        NetworkMode::Unrestricted => seq!["(allow network*)"@],
    }
}

/// The directories that a policy opens for reading and writing.
pub open spec fn writable_dirs(policy: SandboxPolicy, workdir: Seq<char>) -> Seq<Seq<char>> {
    policy::resolved(policy.filesystem.read_write@, workdir)
}

/// The rules for files: the system, the working directory where the policy binds it, the listed
/// paths and the scratch directories.
pub open spec fn filesystem_rules(policy: SandboxPolicy, workdir: Seq<char>) -> Seq<Seq<char>> {
    let bound = if policy.filesystem.workdir {
        seq![workdir]
    } else {
        Seq::empty()
    };
    read_rules(system_dirs()) + file_rules() + read_write_rules(bound) + read_rules(
        policy::resolved(policy.filesystem.read_only@, workdir),
    ) + read_write_rules(writable_dirs(policy, workdir)) + write_rules(scratch_dirs())
}

/// The rules of the profile of a policy.
pub open spec fn profile_rules(policy: SandboxPolicy, workdir: Seq<char>) -> Seq<Seq<char>> {
    base_rules() + filesystem_rules(policy, workdir) + network_rules(policy.network.mode)
}

/// Appends the read rule of a directory.
fn push_read(lines: &mut Vec<String>, p: &str)
    ensures
        text::texts(final(lines)@) == text::texts(old(lines)@).push(read_rule(p@)),
{
    push_string(lines, "(allow file-read* (subpath \"".to_owned().concat(p).concat("\"))"));
}

/// Appends the write rule of a directory.
fn push_write(lines: &mut Vec<String>, p: &str)
    ensures
        text::texts(final(lines)@) == text::texts(old(lines)@).push(write_rule(p@)),
{
    push_string(lines, "(allow file-write* (subpath \"".to_owned().concat(p).concat("\"))"));
}

/// Appends the rules that every profile starts with.
fn push_base(lines: &mut Vec<String>)
    ensures
        text::texts(final(lines)@) == text::texts(old(lines)@) + base_rules(),
{
    push_text(lines, "(version 1)");
    push_text(lines, "(deny default)");
    push_text(lines, "(allow process*)");
    push_text(lines, "(allow sysctl*)");
    push_text(lines, "(allow mach*)");
    push_text(lines, "(allow ipc*)");
    push_text(lines, "(allow signal)");
    push_text(lines, "(allow file-read-metadata)");
    proof {
        assert(text::texts(lines@) =~= text::texts(old(lines)@) + base_rules());
    }
}

/// Appends the rules of the system directories and of single files.
fn push_system(lines: &mut Vec<String>)
    ensures
        text::texts(final(lines)@) == text::texts(old(lines)@) + (read_rules(system_dirs())
            + file_rules()),
{
    push_read(lines, "/usr");
    push_read(lines, "/bin");
    push_read(lines, "/sbin");
    push_read(lines, "/System");
    push_read(lines, "/Library");
    push_read(lines, "/private/var/db");
    push_read(lines, "/dev");
    push_read(lines, "/private/tmp");
    push_read(lines, "/tmp");
    push_read(lines, "/etc");
    push_read(lines, "/private/etc");
    push_read(lines, "/Applications");
    push_text(lines, "(allow file-read* (literal \"/\"))");
    push_text(lines, "(allow file-ioctl (literal \"/dev/null\"))");
    push_text(lines, "(allow file-write* (literal \"/dev/null\"))");
    push_text(lines, "(allow file-write* (literal \"/dev/dtracehelper\"))");
    proof {
        assert(text::texts(lines@) =~= text::texts(old(lines)@) + (read_rules(system_dirs())
            + file_rules()));
    }
}

/// Appends the read rule of each path of `list`, as seen from `workdir`.
fn push_read_only(lines: &mut Vec<String>, list: &Vec<String>, workdir: &str)
    ensures
        text::texts(final(lines)@) == text::texts(old(lines)@) + read_rules(
            policy::resolved(list@, workdir@),
        ),
{
    let mut i: usize = 0;
    proof {
        assert(text::texts(old(lines)@) + read_rules(policy::resolved(list@.take(0), workdir@))
            =~= text::texts(old(lines)@));
    }
    while i < list.len()
        invariant
            i <= list@.len(),
            text::texts(lines@) == text::texts(old(lines)@) + read_rules(
                policy::resolved(list@.take(i as int), workdir@),
            ),
        decreases list@.len() - i,
    {
        let path = paths::join(workdir, list[i].as_str());
        push_read(lines, path.as_str());
        proof {
            assert(read_rules(policy::resolved(list@.take(i + 1), workdir@)) =~= read_rules(
                policy::resolved(list@.take(i as int), workdir@),
            ).push(read_rule(path@)));
            assert(text::texts(lines@) =~= text::texts(old(lines)@) + read_rules(
                policy::resolved(list@.take(i + 1), workdir@),
            ));
        }
        i += 1;
    }
    proof {
        assert(list@.take(i as int) =~= list@);
    }
}

/// Appends the read rule and the write rule of each path of `list`, as seen from `workdir`.
fn push_read_write(lines: &mut Vec<String>, list: &Vec<String>, workdir: &str)
    ensures
        text::texts(final(lines)@) == text::texts(old(lines)@) + read_write_rules(
            policy::resolved(list@, workdir@),
        ),
{
    let mut i: usize = 0;
    proof {
        assert(policy::resolved(list@.take(0), workdir@) =~= Seq::<Seq<char>>::empty());
        assert(text::texts(old(lines)@) + read_write_rules(
            policy::resolved(list@.take(0), workdir@),
        ) =~= text::texts(old(lines)@));
    }
    while i < list.len()
        invariant
            i <= list@.len(),
            text::texts(lines@) == text::texts(old(lines)@) + read_write_rules(
                policy::resolved(list@.take(i as int), workdir@),
            ),
        decreases list@.len() - i,
    {
        let path = paths::join(workdir, list[i].as_str());
        push_read(lines, path.as_str());
        push_write(lines, path.as_str());
        proof {
            let prev = policy::resolved(list@.take(i as int), workdir@);
            let next = policy::resolved(list@.take(i + 1), workdir@);
            assert(next.drop_last() =~= prev);
            assert(next.last() == path@);
            assert(text::texts(lines@) =~= text::texts(old(lines)@) + read_write_rules(next));
        }
        i += 1;
    }
    proof {
        assert(list@.take(i as int) =~= list@);
    }
}

/// Appends the network rules of a mode.
fn push_network(lines: &mut Vec<String>, mode: NetworkMode)
    ensures
        text::texts(final(lines)@) == text::texts(old(lines)@) + network_rules(mode),
{
    match mode {
        NetworkMode::NoNetwork => {
            push_text(lines, "(deny network*)");
        },
        NetworkMode::Allowlist => {
            push_text(lines, "(allow network* (remote ip \"localhost:*\"))");
            push_text(lines, "(allow network-bind (local ip \"localhost:*\"))");
        },
        NetworkMode::Unrestricted => {
            push_text(lines, "(allow network*)");
        },
    }
    proof {
        assert(text::texts(lines@) =~= text::texts(old(lines)@) + network_rules(mode));
    }
}

/// Generates a deny-by-default seatbelt profile from a policy; `workdir` is the working directory
/// with its links resolved.
pub fn generate_seatbelt_profile(policy: &SandboxPolicy, workdir: &str) -> (r: Result<
    String,
    MechanismError,
>)
    ensures
        r is Ok,
        r->Ok_0@ == text::lines_text(profile_rules(*policy, workdir@)),
{
    let mut lines: Vec<String> = Vec::new();
    push_base(&mut lines);
    push_system(&mut lines);
    if policy.filesystem.workdir {
        push_read(&mut lines, workdir);
        push_write(&mut lines, workdir);
    }
    proof {
        let bound = seq![workdir@];
        assert(bound.drop_last() =~= Seq::<Seq<char>>::empty());
        assert(read_write_rules(bound.drop_last()) =~= Seq::<Seq<char>>::empty());
        assert(read_write_rules(bound) =~= seq![read_rule(workdir@), write_rule(workdir@)]);
    }
    push_read_only(&mut lines, &policy.filesystem.read_only, workdir);
    push_read_write(&mut lines, &policy.filesystem.read_write, workdir);
    push_write(&mut lines, "/tmp");
    push_write(&mut lines, "/private/tmp");
    push_write(&mut lines, "/var/folders");
    push_write(&mut lines, "/private/var/folders");
    push_network(&mut lines, policy.network.mode);
    proof {
        assert(text::texts(lines@) =~= profile_rules(*policy, workdir@));
    }
    Ok(join_lines(&lines))
}

/// Every profile denies what no rule of it allows.
pub proof fn law_profile_denies_by_default(policy: SandboxPolicy, workdir: Seq<char>)
    ensures
        profile_rules(policy, workdir).len() >= 2,
        profile_rules(policy, workdir)[0] == "(version 1)"@,
        profile_rules(policy, workdir)[1] == "(deny default)"@,
{
}

/// Whether a rule allows something of the network.
pub open spec fn opens_network(rule: Seq<char>) -> bool {
    "(allow network"@.is_prefix_of(rule)
}

/// A rule that has another character than `(allow network` at some place opens no network.
proof fn lemma_opens_no_network(rule: Seq<char>, i: int)
    requires
        0 <= i < "(allow network"@.len(),
        rule.len() <= i || rule[i] != "(allow network"@[i],
    ensures
        !opens_network(rule),
{
    if opens_network(rule) {
        let p = "(allow network"@;
        assert(p[i] == rule.subrange(0, p.len() as int)[i]);
    }
}

/// No rule for a directory opens the network.
proof fn lemma_directory_rules_open_no_network(p: Seq<char>)
    ensures
        !opens_network(read_rule(p)),
        !opens_network(write_rule(p)),
{
    reveal_strlit("(allow network");
    reveal_strlit("(allow file-read* (subpath \"");
    reveal_strlit("(allow file-write* (subpath \"");
    assert(read_rule(p)[7] == 'f');
    assert(write_rule(p)[7] == 'f');
    lemma_opens_no_network(read_rule(p), 7);
    lemma_opens_no_network(write_rule(p), 7);
}

/// No rule of `read_write_rules` opens the network.
proof fn lemma_read_write_rules_open_no_network(dirs: Seq<Seq<char>>)
    ensures
        forall|i: int|
            0 <= i < read_write_rules(dirs).len() ==> !opens_network(
                #[trigger] read_write_rules(dirs)[i],
            ),
    decreases dirs.len(),
{
    if dirs.len() > 0 {
        lemma_read_write_rules_open_no_network(dirs.drop_last());
        lemma_directory_rules_open_no_network(dirs.last());
        let prev = read_write_rules(dirs.drop_last());
        assert forall|i: int| 0 <= i < read_write_rules(dirs).len() implies !opens_network(
            #[trigger] read_write_rules(dirs)[i],
        ) by {
            if i < prev.len() {
                assert(read_write_rules(dirs)[i] == prev[i]);
            }
        }
    }
}

/// No rule but the network rules opens the network.
proof fn lemma_other_rules_open_no_network(policy: SandboxPolicy, workdir: Seq<char>)
    ensures
        forall|i: int|
            0 <= i < base_rules().len() + filesystem_rules(policy, workdir).len()
                ==> !opens_network(#[trigger] profile_rules(policy, workdir)[i]),
{
    reveal_strlit("(allow network");
    reveal_strlit("(version 1)");
    reveal_strlit("(deny default)");
    reveal_strlit("(allow process*)");
    reveal_strlit("(allow sysctl*)");
    reveal_strlit("(allow mach*)");
    reveal_strlit("(allow ipc*)");
    reveal_strlit("(allow signal)");
    reveal_strlit("(allow file-read-metadata)");
    reveal_strlit("(allow file-read* (literal \"/\"))");
    reveal_strlit("(allow file-ioctl (literal \"/dev/null\"))");
    reveal_strlit("(allow file-write* (literal \"/dev/null\"))");
    reveal_strlit("(allow file-write* (literal \"/dev/dtracehelper\"))");
    let bound = if policy.filesystem.workdir {
        seq![workdir]
    } else {
        Seq::empty()
    };
    let a = base_rules();
    let b = read_rules(system_dirs());
    let c = file_rules();
    let d = read_write_rules(bound);
    let read_only = policy::resolved(policy.filesystem.read_only@, workdir);
    let e = read_rules(read_only);
    let f = read_write_rules(writable_dirs(policy, workdir));
    let g = write_rules(scratch_dirs());
    lemma_read_write_rules_open_no_network(bound);
    lemma_read_write_rules_open_no_network(writable_dirs(policy, workdir));
    assert forall|i: int| 0 <= i < a.len() implies !opens_network(#[trigger] a[i]) by {
        if i == 0 || i == 1 {
            lemma_opens_no_network(a[i], 1);
        } else {
            lemma_opens_no_network(a[i], 7);
        }
    }
    assert forall|i: int| 0 <= i < b.len() implies !opens_network(#[trigger] b[i]) by {
        lemma_directory_rules_open_no_network(system_dirs()[i]);
    }
    assert forall|i: int| 0 <= i < c.len() implies !opens_network(#[trigger] c[i]) by {
        lemma_opens_no_network(c[i], 7);
    }
    assert forall|i: int| 0 <= i < e.len() implies !opens_network(#[trigger] e[i]) by {
        lemma_directory_rules_open_no_network(read_only[i]);
    }
    assert forall|i: int| 0 <= i < g.len() implies !opens_network(#[trigger] g[i]) by {
        lemma_directory_rules_open_no_network(scratch_dirs()[i]);
    }
    let rules = profile_rules(policy, workdir);
    assert forall|i: int|
        0 <= i < a.len() + filesystem_rules(policy, workdir).len() implies !opens_network(
        #[trigger] rules[i],
    ) by {
        let n1 = a.len() as int;
        let n2 = n1 + b.len();
        let n3 = n2 + c.len();
        let n4 = n3 + d.len();
        let n5 = n4 + e.len();
        let n6 = n5 + f.len();
        if i < n1 {
            assert(rules[i] == a[i]);
        } else if i < n2 {
            assert(rules[i] == b[i - n1]);
        } else if i < n3 {
            assert(rules[i] == c[i - n2]);
        } else if i < n4 {
            assert(rules[i] == d[i - n3]);
        } else if i < n5 {
            assert(rules[i] == e[i - n4]);
        } else if i < n6 {
            assert(rules[i] == f[i - n5]);
        } else {
            assert(rules[i] == g[i - n6]);
        }
    }
}

/// The network of a profile is what its mode grants and nothing else: no rule opens it in mode
/// `none`; in allowlist mode the two rules that do speak of localhost alone; the rule that opens
/// all of it is there exactly in unrestricted mode.
pub proof fn law_network_by_mode_alone(policy: SandboxPolicy, workdir: Seq<char>)
    ensures
        forall|i: int|
            0 <= i < profile_rules(policy, workdir).len() && opens_network(
                #[trigger] profile_rules(policy, workdir)[i],
            ) ==> network_rules(policy.network.mode).contains(profile_rules(policy, workdir)[i]),
        policy.network.mode == NetworkMode::NoNetwork ==> forall|i: int|
            0 <= i < profile_rules(policy, workdir).len() ==> !opens_network(
                #[trigger] profile_rules(policy, workdir)[i],
            ),
        profile_rules(policy, workdir).contains("(allow network*)"@) <==> policy.network.mode
            == NetworkMode::Unrestricted,
{
    lemma_other_rules_open_no_network(policy, workdir);
    let rules = profile_rules(policy, workdir);
    let n = (base_rules().len() + filesystem_rules(policy, workdir).len()) as int;
    let net = network_rules(policy.network.mode);
    reveal_strlit("(allow network");
    reveal_strlit("(allow network*)");
    reveal_strlit("(deny network*)");
    reveal_strlit("(allow network* (remote ip \"localhost:*\"))");
    reveal_strlit("(allow network-bind (local ip \"localhost:*\"))");
    assert("(allow network"@ =~= "(allow network*)"@.subrange(0, 14));
    lemma_opens_no_network("(deny network*)"@, 1);
    assert forall|i: int| n <= i < rules.len() implies #[trigger] rules[i] == net[i - n] by {}
    assert("(allow network*)"@.len() != "(allow network* (remote ip \"localhost:*\"))"@.len());
    assert("(allow network*)"@.len() != "(allow network-bind (local ip \"localhost:*\"))"@.len());
    if policy.network.mode == NetworkMode::Unrestricted {
        assert(rules[n] == "(allow network*)"@);
    }
    if rules.contains("(allow network*)"@) {
        let i = choose|i: int| 0 <= i < rules.len() && rules[i] == "(allow network*)"@;
        assert(opens_network(rules[i]));
        assert(i >= n);
    }
}

/// A write rule names its directory.
proof fn lemma_write_rule_injective(p: Seq<char>, q: Seq<char>)
    requires
        write_rule(p) == write_rule(q),
    ensures
        p == q,
{
    let a = "(allow file-write* (subpath \""@;
    let z = "\"))"@;
    assert(write_rule(p).len() == a.len() + p.len() + z.len());
    assert(write_rule(q).len() == a.len() + q.len() + z.len());
    assert(p =~= write_rule(p).subrange(a.len() as int, (a.len() + p.len()) as int));
    assert(q =~= write_rule(q).subrange(a.len() as int, (a.len() + q.len()) as int));
}

/// A rule that has another character than a write rule at some place is none.
proof fn lemma_no_write_rule(rule: Seq<char>, p: Seq<char>, i: int)
    requires
        0 <= i < "(allow file-write* (subpath \""@.len(),
        rule.len() <= i || rule[i] != "(allow file-write* (subpath \""@[i],
    ensures
        rule != write_rule(p),
{
    assert(write_rule(p)[i] == "(allow file-write* (subpath \""@[i]);
}

/// Read rules are no write rules.
proof fn lemma_read_rule_no_write_rule(q: Seq<char>, p: Seq<char>)
    ensures
        read_rule(q) != write_rule(p),
{
    reveal_strlit("(allow file-read* (subpath \"");
    reveal_strlit("(allow file-write* (subpath \"");
    lemma_no_write_rule(read_rule(q), p, 12);
}

/// The write rules among the rules of directories that may be read and written are theirs.
proof fn lemma_read_write_rules_writes(dirs: Seq<Seq<char>>, p: Seq<char>)
    ensures
        read_write_rules(dirs).contains(write_rule(p)) <==> dirs.contains(p),
    decreases dirs.len(),
{
    if dirs.len() > 0 {
        let prev = read_write_rules(dirs.drop_last());
        let all = read_write_rules(dirs);
        let last = dirs.last();
        lemma_read_write_rules_writes(dirs.drop_last(), p);
        lemma_read_rule_no_write_rule(last, p);
        assert(all[prev.len() as int] == read_rule(last));
        assert(all[prev.len() as int + 1] == write_rule(last));
        if all.contains(write_rule(p)) {
            let i = choose|i: int| 0 <= i < all.len() && all[i] == write_rule(p);
            if i < prev.len() {
                assert(prev[i] == write_rule(p));
                assert(dirs.drop_last().contains(p));
                let j = choose|j: int| 0 <= j < dirs.drop_last().len() && dirs.drop_last()[j] == p;
                assert(dirs[j] == p);
            } else {
                lemma_write_rule_injective(last, p);
                assert(dirs[dirs.len() - 1] == p);
            }
        }
        if dirs.contains(p) {
            let j = choose|j: int| 0 <= j < dirs.len() && dirs[j] == p;
            if j < dirs.len() - 1 {
                assert(dirs.drop_last()[j] == p);
                assert(prev.contains(write_rule(p)));
                let i = choose|i: int| 0 <= i < prev.len() && prev[i] == write_rule(p);
                assert(all[i] == write_rule(p));
            }
        }
    }
}

/// A sandbox may write a directory exactly where it is a scratch directory, the working directory
/// that the policy binds, or listed as writable. A path that is only listed as readable is not.
pub proof fn law_writes_only_what_is_granted(
    policy: SandboxPolicy,
    workdir: Seq<char>,
    p: Seq<char>,
)
    ensures
        profile_rules(policy, workdir).contains(write_rule(p)) <==> {
            ||| scratch_dirs().contains(p)
            ||| policy.filesystem.workdir && p == workdir
            ||| writable_dirs(policy, workdir).contains(p)
        },
{
    reveal_strlit("(allow file-write* (subpath \"");
    reveal_strlit("(version 1)");
    reveal_strlit("(deny default)");
    reveal_strlit("(allow process*)");
    reveal_strlit("(allow sysctl*)");
    reveal_strlit("(allow mach*)");
    reveal_strlit("(allow ipc*)");
    reveal_strlit("(allow signal)");
    reveal_strlit("(allow file-read-metadata)");
    reveal_strlit("(allow file-read* (literal \"/\"))");
    reveal_strlit("(allow file-ioctl (literal \"/dev/null\"))");
    reveal_strlit("(allow file-write* (literal \"/dev/null\"))");
    reveal_strlit("(allow file-write* (literal \"/dev/dtracehelper\"))");
    reveal_strlit("(allow network*)");
    reveal_strlit("(deny network*)");
    reveal_strlit("(allow network* (remote ip \"localhost:*\"))");
    reveal_strlit("(allow network-bind (local ip \"localhost:*\"))");
    let w = write_rule(p);
    let bound = if policy.filesystem.workdir {
        seq![workdir]
    } else {
        Seq::empty()
    };
    let a = base_rules();
    let b = read_rules(system_dirs());
    let c = file_rules();
    let d = read_write_rules(bound);
    let read_only = policy::resolved(policy.filesystem.read_only@, workdir);
    let e = read_rules(read_only);
    let f = read_write_rules(writable_dirs(policy, workdir));
    let g = write_rules(scratch_dirs());
    let h = network_rules(policy.network.mode);
    lemma_read_write_rules_writes(bound, p);
    lemma_read_write_rules_writes(writable_dirs(policy, workdir), p);
    assert(bound.contains(p) <==> policy.filesystem.workdir && p == workdir) by {
        if policy.filesystem.workdir {
            assert(bound[0] == workdir);
        }
    }
    assert forall|i: int| 0 <= i < a.len() implies #[trigger] a[i] != w by {
        if i == 0 || i == 1 {
            lemma_no_write_rule(a[i], p, 1);
        } else if i == 7 {
            lemma_no_write_rule(a[i], p, 12);
        } else {
            lemma_no_write_rule(a[i], p, 7);
        }
    }
    assert forall|i: int| 0 <= i < b.len() implies #[trigger] b[i] != w by {
        lemma_read_rule_no_write_rule(system_dirs()[i], p);
    }
    assert forall|i: int| 0 <= i < c.len() implies #[trigger] c[i] != w by {
        if i < 2 {
            lemma_no_write_rule(c[i], p, 12);
        } else {
            lemma_no_write_rule(c[i], p, 20);
        }
    }
    assert forall|i: int| 0 <= i < e.len() implies #[trigger] e[i] != w by {
        lemma_read_rule_no_write_rule(read_only[i], p);
    }
    assert forall|i: int| 0 <= i < h.len() implies #[trigger] h[i] != w by {
        if policy.network.mode == NetworkMode::NoNetwork {
            lemma_no_write_rule(h[i], p, 1);
        } else {
            lemma_no_write_rule(h[i], p, 7);
        }
    }
    assert(g.contains(w) <==> scratch_dirs().contains(p)) by {
        if g.contains(w) {
            let i = choose|i: int| 0 <= i < g.len() && g[i] == w;
            lemma_write_rule_injective(scratch_dirs()[i], p);
            assert(scratch_dirs()[i] == p);
        }
        if scratch_dirs().contains(p) {
            let i = choose|i: int| 0 <= i < scratch_dirs().len() && scratch_dirs()[i] == p;
            assert(g[i] == w);
        }
    }
    let rules = profile_rules(policy, workdir);
    let n1 = a.len() as int;
    let n2 = n1 + b.len();
    let n3 = n2 + c.len();
    let n4 = n3 + d.len();
    let n5 = n4 + e.len();
    let n6 = n5 + f.len();
    let n7 = n6 + g.len();
    if rules.contains(w) {
        let i = choose|i: int| 0 <= i < rules.len() && rules[i] == w;
        if i < n1 {
            assert(rules[i] == a[i]);
        } else if i < n2 {
            assert(rules[i] == b[i - n1]);
        } else if i < n3 {
            assert(rules[i] == c[i - n2]);
        } else if i < n4 {
            assert(rules[i] == d[i - n3]);
            assert(d.contains(w));
        } else if i < n5 {
            assert(rules[i] == e[i - n4]);
        } else if i < n6 {
            assert(rules[i] == f[i - n5]);
            assert(f.contains(w));
        } else if i < n7 {
            assert(rules[i] == g[i - n6]);
            assert(g.contains(w));
        } else {
            assert(rules[i] == h[i - n7]);
        }
    }
    if d.contains(w) {
        let i = choose|i: int| 0 <= i < d.len() && d[i] == w;
        assert(rules[n3 + i] == w);
    }
    if f.contains(w) {
        let i = choose|i: int| 0 <= i < f.len() && f[i] == w;
        assert(rules[n5 + i] == w);
    }
    if g.contains(w) {
        let i = choose|i: int| 0 <= i < g.len() && g[i] == w;
        assert(rules[n6 + i] == w);
    }
}

/// A read rule names its directory.
proof fn lemma_read_rule_injective(p: Seq<char>, q: Seq<char>)
    requires
        read_rule(p) == read_rule(q),
    ensures
        p == q,
{
    let a = "(allow file-read* (subpath \""@;
    let z = "\"))"@;
    assert(read_rule(p).len() == a.len() + p.len() + z.len());
    assert(read_rule(q).len() == a.len() + q.len() + z.len());
    assert(p =~= read_rule(p).subrange(a.len() as int, (a.len() + p.len()) as int));
    assert(q =~= read_rule(q).subrange(a.len() as int, (a.len() + q.len()) as int));
}

/// A rule that has another character than a read rule at some place is none.
proof fn lemma_no_read_rule(rule: Seq<char>, p: Seq<char>, i: int)
    requires
        0 <= i < "(allow file-read* (subpath \""@.len(),
        rule.len() <= i || rule[i] != "(allow file-read* (subpath \""@[i],
    ensures
        rule != read_rule(p),
{
    assert(read_rule(p)[i] == "(allow file-read* (subpath \""@[i]);
}

/// The read rules of a list of directories are theirs.
proof fn lemma_read_rules_reads(dirs: Seq<Seq<char>>, p: Seq<char>)
    ensures
        read_rules(dirs).contains(read_rule(p)) <==> dirs.contains(p),
{
    let rules = read_rules(dirs);
    if rules.contains(read_rule(p)) {
        let i = choose|i: int| 0 <= i < rules.len() && rules[i] == read_rule(p);
        lemma_read_rule_injective(dirs[i], p);
        assert(dirs[i] == p);
    }
    if dirs.contains(p) {
        let i = choose|i: int| 0 <= i < dirs.len() && dirs[i] == p;
        assert(rules[i] == read_rule(p));
    }
}

/// The read rules among the rules of directories that may be read and written are theirs.
proof fn lemma_read_write_rules_reads(dirs: Seq<Seq<char>>, p: Seq<char>)
    ensures
        read_write_rules(dirs).contains(read_rule(p)) <==> dirs.contains(p),
    decreases dirs.len(),
{
    if dirs.len() > 0 {
        let prev = read_write_rules(dirs.drop_last());
        let all = read_write_rules(dirs);
        let last = dirs.last();
        lemma_read_write_rules_reads(dirs.drop_last(), p);
        lemma_read_rule_no_write_rule(p, last);
        assert(all[prev.len() as int] == read_rule(last));
        assert(all[prev.len() as int + 1] == write_rule(last));
        if all.contains(read_rule(p)) {
            let i = choose|i: int| 0 <= i < all.len() && all[i] == read_rule(p);
            if i < prev.len() {
                assert(prev[i] == read_rule(p));
                assert(dirs.drop_last().contains(p));
                let j = choose|j: int| 0 <= j < dirs.drop_last().len() && dirs.drop_last()[j] == p;
                assert(dirs[j] == p);
            } else {
                lemma_read_rule_injective(last, p);
                assert(dirs[dirs.len() - 1] == p);
            }
        }
        if dirs.contains(p) {
            let j = choose|j: int| 0 <= j < dirs.len() && dirs[j] == p;
            if j < dirs.len() - 1 {
                assert(dirs.drop_last()[j] == p);
                assert(prev.contains(read_rule(p)));
                let i = choose|i: int| 0 <= i < prev.len() && prev[i] == read_rule(p);
                assert(all[i] == read_rule(p));
            }
        }
    }
}

/// A sandbox may read a directory exactly where it is a system directory, the working directory
/// that the policy binds, or listed as readable or as writable. What lies beside the working
/// directory is not.
pub proof fn law_reads_only_what_is_granted(
    policy: SandboxPolicy,
    workdir: Seq<char>,
    p: Seq<char>,
)
    ensures
        profile_rules(policy, workdir).contains(read_rule(p)) <==> {
            ||| system_dirs().contains(p)
            ||| policy.filesystem.workdir && p == workdir
            ||| policy::resolved(policy.filesystem.read_only@, workdir).contains(p)
            ||| writable_dirs(policy, workdir).contains(p)
        },
{
    reveal_strlit("(allow file-read* (subpath \"");
    reveal_strlit("(version 1)");
    reveal_strlit("(deny default)");
    reveal_strlit("(allow process*)");
    reveal_strlit("(allow sysctl*)");
    reveal_strlit("(allow mach*)");
    reveal_strlit("(allow ipc*)");
    reveal_strlit("(allow signal)");
    reveal_strlit("(allow file-read-metadata)");
    reveal_strlit("(allow file-read* (literal \"/\"))");
    reveal_strlit("(allow file-ioctl (literal \"/dev/null\"))");
    reveal_strlit("(allow file-write* (literal \"/dev/null\"))");
    reveal_strlit("(allow file-write* (literal \"/dev/dtracehelper\"))");
    reveal_strlit("(allow network*)");
    reveal_strlit("(deny network*)");
    reveal_strlit("(allow network* (remote ip \"localhost:*\"))");
    reveal_strlit("(allow network-bind (local ip \"localhost:*\"))");
    let r = read_rule(p);
    let bound = if policy.filesystem.workdir {
        seq![workdir]
    } else {
        Seq::empty()
    };
    let read_only = policy::resolved(policy.filesystem.read_only@, workdir);
    let a = base_rules();
    let b = read_rules(system_dirs());
    let c = file_rules();
    let d = read_write_rules(bound);
    let e = read_rules(read_only);
    let f = read_write_rules(writable_dirs(policy, workdir));
    let g = write_rules(scratch_dirs());
    let h = network_rules(policy.network.mode);
    lemma_read_rules_reads(system_dirs(), p);
    lemma_read_write_rules_reads(bound, p);
    lemma_read_rules_reads(read_only, p);
    lemma_read_write_rules_reads(writable_dirs(policy, workdir), p);
    assert(bound.contains(p) <==> policy.filesystem.workdir && p == workdir) by {
        if policy.filesystem.workdir {
            assert(bound[0] == workdir);
        }
    }
    assert forall|i: int| 0 <= i < a.len() implies #[trigger] a[i] != r by {
        if i == 0 || i == 1 {
            lemma_no_read_rule(a[i], p, 1);
        } else if i == 7 {
            lemma_no_read_rule(a[i], p, 16);
        } else {
            lemma_no_read_rule(a[i], p, 7);
        }
    }
    assert forall|i: int| 0 <= i < c.len() implies #[trigger] c[i] != r by {
        if i == 0 {
            lemma_no_read_rule(c[i], p, 19);
        } else {
            lemma_no_read_rule(c[i], p, 12);
        }
    }
    assert forall|i: int| 0 <= i < g.len() implies #[trigger] g[i] != r by {
        lemma_read_rule_no_write_rule(p, scratch_dirs()[i]);
    }
    assert forall|i: int| 0 <= i < h.len() implies #[trigger] h[i] != r by {
        if policy.network.mode == NetworkMode::NoNetwork {
            lemma_no_read_rule(h[i], p, 1);
        } else {
            lemma_no_read_rule(h[i], p, 7);
        }
    }
    let rules = profile_rules(policy, workdir);
    let n1 = a.len() as int;
    let n2 = n1 + b.len();
    let n3 = n2 + c.len();
    let n4 = n3 + d.len();
    let n5 = n4 + e.len();
    let n6 = n5 + f.len();
    let n7 = n6 + g.len();
    if rules.contains(r) {
        let i = choose|i: int| 0 <= i < rules.len() && rules[i] == r;
        if i < n1 {
            assert(rules[i] == a[i]);
        } else if i < n2 {
            assert(rules[i] == b[i - n1]);
            assert(b.contains(r));
        } else if i < n3 {
            assert(rules[i] == c[i - n2]);
        } else if i < n4 {
            assert(rules[i] == d[i - n3]);
            assert(d.contains(r));
        } else if i < n5 {
            assert(rules[i] == e[i - n4]);
            assert(e.contains(r));
        } else if i < n6 {
            assert(rules[i] == f[i - n5]);
            assert(f.contains(r));
        } else if i < n7 {
            assert(rules[i] == g[i - n6]);
        } else {
            assert(rules[i] == h[i - n7]);
        }
    }
    if b.contains(r) {
        let i = choose|i: int| 0 <= i < b.len() && b[i] == r;
        assert(rules[n1 + i] == r);
    }
    if d.contains(r) {
        let i = choose|i: int| 0 <= i < d.len() && d[i] == r;
        assert(rules[n3 + i] == r);
    }
    if e.contains(r) {
        let i = choose|i: int| 0 <= i < e.len() && e[i] == r;
        assert(rules[n4 + i] == r);
    }
    if f.contains(r) {
        let i = choose|i: int| 0 <= i < f.len() && f[i] == r;
        assert(rules[n5 + i] == r);
    }
}

/// A directory is opened for reading, or for writing, by a rule that names it and all below it.
pub proof fn law_rules_name_the_directory(p: Seq<char>)
    ensures
        read_rule(p) == "(allow file-read* (subpath \""@ + p + "\"))"@,
        write_rule(p) == "(allow file-write* (subpath \""@ + p + "\"))"@,
{
}

/// Each directory that may be read and written has its two rules, in order.
proof fn lemma_read_write_rules_at(dirs: Seq<Seq<char>>, i: int)
    ensures
        read_write_rules(dirs).len() == 2 * dirs.len(),
        0 <= i < dirs.len() ==> {
            &&& read_write_rules(dirs)[2 * i] == read_rule(dirs[i])
            &&& read_write_rules(dirs)[2 * i + 1] == write_rule(dirs[i])
        },
    decreases dirs.len(),
{
    if dirs.len() > 0 {
        lemma_read_write_rules_at(dirs.drop_last(), i);
        if 0 <= i < dirs.len() - 1 {
            assert(dirs.drop_last()[i] == dirs[i]);
        }
    }
}

/// The rules that every profile starts with, word for word.
proof fn lemma_fixed_rules()
    ensures
        base_rules() + read_rules(system_dirs()) + file_rules() == seq![
            "(version 1)"@,
            "(deny default)"@,
            "(allow process*)"@,
            "(allow sysctl*)"@,
            "(allow mach*)"@,
            "(allow ipc*)"@,
            "(allow signal)"@,
            "(allow file-read-metadata)"@,
            "(allow file-read* (subpath \"/usr\"))"@,
            "(allow file-read* (subpath \"/bin\"))"@,
            "(allow file-read* (subpath \"/sbin\"))"@,
            "(allow file-read* (subpath \"/System\"))"@,
            "(allow file-read* (subpath \"/Library\"))"@,
            "(allow file-read* (subpath \"/private/var/db\"))"@,
            "(allow file-read* (subpath \"/dev\"))"@,
            "(allow file-read* (subpath \"/private/tmp\"))"@,
            "(allow file-read* (subpath \"/tmp\"))"@,
            "(allow file-read* (subpath \"/etc\"))"@,
            "(allow file-read* (subpath \"/private/etc\"))"@,
            "(allow file-read* (subpath \"/Applications\"))"@,
            "(allow file-read* (literal \"/\"))"@,
            "(allow file-ioctl (literal \"/dev/null\"))"@,
            "(allow file-write* (literal \"/dev/null\"))"@,
            "(allow file-write* (literal \"/dev/dtracehelper\"))"@,
        ],
{
    reveal_strlit("(allow file-read* (subpath \"");
    reveal_strlit("(allow file-write* (subpath \"");
    reveal_strlit("\"))");
    reveal_strlit("/usr");
    reveal_strlit("(allow file-read* (subpath \"/usr\"))");
    assert(read_rule("/usr"@) =~= "(allow file-read* (subpath \"/usr\"))"@);
    reveal_strlit("/bin");
    reveal_strlit("(allow file-read* (subpath \"/bin\"))");
    assert(read_rule("/bin"@) =~= "(allow file-read* (subpath \"/bin\"))"@);
    reveal_strlit("/sbin");
    reveal_strlit("(allow file-read* (subpath \"/sbin\"))");
    assert(read_rule("/sbin"@) =~= "(allow file-read* (subpath \"/sbin\"))"@);
    reveal_strlit("/System");
    reveal_strlit("(allow file-read* (subpath \"/System\"))");
    assert(read_rule("/System"@) =~= "(allow file-read* (subpath \"/System\"))"@);
    reveal_strlit("/Library");
    reveal_strlit("(allow file-read* (subpath \"/Library\"))");
    assert(read_rule("/Library"@) =~= "(allow file-read* (subpath \"/Library\"))"@);
    reveal_strlit("/private/var/db");
    reveal_strlit("(allow file-read* (subpath \"/private/var/db\"))");
    assert(read_rule("/private/var/db"@) =~= "(allow file-read* (subpath \"/private/var/db\"))"@);
    reveal_strlit("/dev");
    reveal_strlit("(allow file-read* (subpath \"/dev\"))");
    assert(read_rule("/dev"@) =~= "(allow file-read* (subpath \"/dev\"))"@);
    reveal_strlit("/private/tmp");
    reveal_strlit("(allow file-read* (subpath \"/private/tmp\"))");
    assert(read_rule("/private/tmp"@) =~= "(allow file-read* (subpath \"/private/tmp\"))"@);
    reveal_strlit("/tmp");
    reveal_strlit("(allow file-read* (subpath \"/tmp\"))");
    assert(read_rule("/tmp"@) =~= "(allow file-read* (subpath \"/tmp\"))"@);
    reveal_strlit("/etc");
    reveal_strlit("(allow file-read* (subpath \"/etc\"))");
    assert(read_rule("/etc"@) =~= "(allow file-read* (subpath \"/etc\"))"@);
    reveal_strlit("/private/etc");
    reveal_strlit("(allow file-read* (subpath \"/private/etc\"))");
    assert(read_rule("/private/etc"@) =~= "(allow file-read* (subpath \"/private/etc\"))"@);
    reveal_strlit("/Applications");
    reveal_strlit("(allow file-read* (subpath \"/Applications\"))");
    assert(read_rule("/Applications"@) =~= "(allow file-read* (subpath \"/Applications\"))"@);
    assert(base_rules() + read_rules(system_dirs()) + file_rules() =~= seq![
            "(version 1)"@,
            "(deny default)"@,
            "(allow process*)"@,
            "(allow sysctl*)"@,
            "(allow mach*)"@,
            "(allow ipc*)"@,
            "(allow signal)"@,
            "(allow file-read-metadata)"@,
            "(allow file-read* (subpath \"/usr\"))"@,
            "(allow file-read* (subpath \"/bin\"))"@,
            "(allow file-read* (subpath \"/sbin\"))"@,
            "(allow file-read* (subpath \"/System\"))"@,
            "(allow file-read* (subpath \"/Library\"))"@,
            "(allow file-read* (subpath \"/private/var/db\"))"@,
            "(allow file-read* (subpath \"/dev\"))"@,
            "(allow file-read* (subpath \"/private/tmp\"))"@,
            "(allow file-read* (subpath \"/tmp\"))"@,
            "(allow file-read* (subpath \"/etc\"))"@,
            "(allow file-read* (subpath \"/private/etc\"))"@,
            "(allow file-read* (subpath \"/Applications\"))"@,
            "(allow file-read* (literal \"/\"))"@,
            "(allow file-ioctl (literal \"/dev/null\"))"@,
            "(allow file-write* (literal \"/dev/null\"))"@,
            "(allow file-write* (literal \"/dev/dtracehelper\"))"@,
        ]);
}

/// The rules for scratch directories, word for word.
proof fn lemma_scratch_rules()
    ensures
        write_rules(scratch_dirs()) == seq![
            "(allow file-write* (subpath \"/tmp\"))"@,
            "(allow file-write* (subpath \"/private/tmp\"))"@,
            "(allow file-write* (subpath \"/var/folders\"))"@,
            "(allow file-write* (subpath \"/private/var/folders\"))"@,
        ],
{
    reveal_strlit("(allow file-write* (subpath \"");
    reveal_strlit("\"))");
    reveal_strlit("/tmp");
    reveal_strlit("(allow file-write* (subpath \"/tmp\"))");
    assert(write_rule("/tmp"@) =~= "(allow file-write* (subpath \"/tmp\"))"@);
    reveal_strlit("/private/tmp");
    reveal_strlit("(allow file-write* (subpath \"/private/tmp\"))");
    assert(write_rule("/private/tmp"@) =~= "(allow file-write* (subpath \"/private/tmp\"))"@);
    reveal_strlit("/var/folders");
    reveal_strlit("(allow file-write* (subpath \"/var/folders\"))");
    assert(write_rule("/var/folders"@) =~= "(allow file-write* (subpath \"/var/folders\"))"@);
    reveal_strlit("/private/var/folders");
    reveal_strlit("(allow file-write* (subpath \"/private/var/folders\"))");
    assert(write_rule("/private/var/folders"@) =~= "(allow file-write* (subpath \"/private/var/folders\"))"@);
    assert(write_rules(scratch_dirs()) =~= seq![
            "(allow file-write* (subpath \"/tmp\"))"@,
            "(allow file-write* (subpath \"/private/tmp\"))"@,
            "(allow file-write* (subpath \"/var/folders\"))"@,
            "(allow file-write* (subpath \"/private/var/folders\"))"@,
        ]);
}

/// The whole profile of a policy, rule by rule: what every sandbox may do, the working directory
/// where the policy binds it, every path that the policy lists as readable, every path that it
/// lists as writable with both rules, the scratch directories, and the network of the mode. Listed
/// paths are seen from the working directory.
pub proof fn law_profile_rule_by_rule(policy: SandboxPolicy, workdir: Seq<char>, i: int)
    ensures
        ({
            let rules = profile_rules(policy, workdir);
            let ro = policy.filesystem.read_only@;
            let rw = policy.filesystem.read_write@;
            let bound: int = if policy.filesystem.workdir {
                2
            } else {
                0
            };
            let n = 24 + bound;
            let m = n + ro.len();
            let k = m + 2 * rw.len();
            &&& rules.take(24) == seq![
            "(version 1)"@,
            "(deny default)"@,
            "(allow process*)"@,
            "(allow sysctl*)"@,
            "(allow mach*)"@,
            "(allow ipc*)"@,
            "(allow signal)"@,
            "(allow file-read-metadata)"@,
            "(allow file-read* (subpath \"/usr\"))"@,
            "(allow file-read* (subpath \"/bin\"))"@,
            "(allow file-read* (subpath \"/sbin\"))"@,
            "(allow file-read* (subpath \"/System\"))"@,
            "(allow file-read* (subpath \"/Library\"))"@,
            "(allow file-read* (subpath \"/private/var/db\"))"@,
            "(allow file-read* (subpath \"/dev\"))"@,
            "(allow file-read* (subpath \"/private/tmp\"))"@,
            "(allow file-read* (subpath \"/tmp\"))"@,
            "(allow file-read* (subpath \"/etc\"))"@,
            "(allow file-read* (subpath \"/private/etc\"))"@,
            "(allow file-read* (subpath \"/Applications\"))"@,
            "(allow file-read* (literal \"/\"))"@,
            "(allow file-ioctl (literal \"/dev/null\"))"@,
            "(allow file-write* (literal \"/dev/null\"))"@,
            "(allow file-write* (literal \"/dev/dtracehelper\"))"@,
            ]
            &&& policy.filesystem.workdir ==> {
                &&& rules[24] == "(allow file-read* (subpath \""@ + workdir + "\"))"@
                &&& rules[25] == "(allow file-write* (subpath \""@ + workdir + "\"))"@
            }
            &&& 0 <= i < ro.len() ==> rules[n + i] == "(allow file-read* (subpath \""@
                + paths::joined(workdir, ro[i]@) + "\"))"@
            &&& 0 <= i < rw.len() ==> {
                &&& rules[m + 2 * i] == "(allow file-read* (subpath \""@ + paths::joined(
                    workdir,
                    rw[i]@,
                ) + "\"))"@
                &&& rules[m + 2 * i + 1] == "(allow file-write* (subpath \""@ + paths::joined(
                    workdir,
                    rw[i]@,
                ) + "\"))"@
            }
            &&& rules.subrange(k, k + 4) == seq![
            "(allow file-write* (subpath \"/tmp\"))"@,
            "(allow file-write* (subpath \"/private/tmp\"))"@,
            "(allow file-write* (subpath \"/var/folders\"))"@,
            "(allow file-write* (subpath \"/private/var/folders\"))"@,
            ]
            &&& rules.skip(k + 4) == match policy.network.mode {
                NetworkMode::NoNetwork => seq!["(deny network*)"@],
                NetworkMode::Allowlist => seq![
                    "(allow network* (remote ip \"localhost:*\"))"@,
                    "(allow network-bind (local ip \"localhost:*\"))"@,
                ],
                NetworkMode::Unrestricted => seq!["(allow network*)"@],
            }
        }),
{
    let rules = profile_rules(policy, workdir);
    let bound = if policy.filesystem.workdir {
        seq![workdir]
    } else {
        Seq::empty()
    };
    let ro = policy::resolved(policy.filesystem.read_only@, workdir);
    let rw = policy::resolved(policy.filesystem.read_write@, workdir);
    let fixed = base_rules() + read_rules(system_dirs()) + file_rules();
    lemma_fixed_rules();
    lemma_scratch_rules();
    lemma_read_write_rules_at(bound, 0);
    lemma_read_write_rules_at(rw, i);
    let rest = fixed + read_write_rules(bound) + read_rules(ro) + read_write_rules(rw)
        + write_rules(scratch_dirs()) + network_rules(policy.network.mode);
    assert(rules =~= rest);
    let n = 24 + 2 * bound.len();
    let m = n + ro.len();
    let k = (m + 2 * rw.len()) as int;
    assert(fixed.len() == 24);
    assert(rules.take(24) =~= fixed);
    if 0 <= i < ro.len() {
        assert(rules[n + i] == read_rules(ro)[i]);
    }
    if 0 <= i < rw.len() {
        assert(rules[m + 2 * i] == read_write_rules(rw)[2 * i]);
        assert(rules[m + 2 * i + 1] == read_write_rules(rw)[2 * i + 1]);
    }
    assert(rules.subrange(k, k + 4) =~= write_rules(scratch_dirs()));
    assert(rules.skip(k + 4) =~= network_rules(policy.network.mode));
}

/// Every path that a policy lists as writable can be read and written, wherever it stands in the
/// list, and every path that it lists as readable can be read.
pub proof fn law_listed_paths_are_opened(policy: SandboxPolicy, workdir: Seq<char>, i: int)
    ensures
        ({
            let rules = profile_rules(policy, workdir);
            let ro = policy.filesystem.read_only@;
            let rw = policy.filesystem.read_write@;
            &&& 0 <= i < rw.len() ==> {
                let p = paths::joined(workdir, rw[i]@);
                &&& rules.contains("(allow file-read* (subpath \""@ + p + "\"))"@)
                &&& rules.contains("(allow file-write* (subpath \""@ + p + "\"))"@)
            }
            &&& 0 <= i < ro.len() ==> rules.contains(
                "(allow file-read* (subpath \""@ + paths::joined(workdir, ro[i]@) + "\"))"@,
            )
        }),
{
    let ro = policy::resolved(policy.filesystem.read_only@, workdir);
    let rw = policy::resolved(policy.filesystem.read_write@, workdir);
    if 0 <= i < rw.len() {
        assert(rw.contains(rw[i]));
        law_writes_only_what_is_granted(policy, workdir, rw[i]);
        law_reads_only_what_is_granted(policy, workdir, rw[i]);
    }
    if 0 <= i < ro.len() {
        assert(ro.contains(ro[i]));
        law_reads_only_what_is_granted(policy, workdir, ro[i]);
    }
}

/// A directory is written only if it is one of the four scratch directories, the working directory
/// that the policy binds, or one of the paths that the policy itself lists as writable; it is read
/// only if it is one of the twelve system directories, that working directory, or listed.
pub proof fn law_nothing_else_is_opened(policy: SandboxPolicy, workdir: Seq<char>, p: Seq<char>)
    ensures
        profile_rules(policy, workdir).contains(
            "(allow file-write* (subpath \""@ + p + "\"))"@,
        ) ==> {
            ||| p == "/tmp"@ || p == "/private/tmp"@ || p == "/var/folders"@ || p
                == "/private/var/folders"@
            ||| policy.filesystem.workdir && p == workdir
            ||| exists|i: int|
                0 <= i < policy.filesystem.read_write@.len() && p == paths::joined(
                    workdir,
                    (#[trigger] policy.filesystem.read_write@[i])@,
                )
        },
        profile_rules(policy, workdir).contains(
            "(allow file-read* (subpath \""@ + p + "\"))"@,
        ) ==> {
            ||| p == "/usr"@ || p == "/bin"@ || p == "/sbin"@ || p == "/System"@ || p
                == "/Library"@ || p == "/private/var/db"@ || p == "/dev"@ || p
                == "/private/tmp"@ || p == "/tmp"@ || p == "/etc"@ || p == "/private/etc"@ || p
                == "/Applications"@
            ||| policy.filesystem.workdir && p == workdir
            ||| exists|i: int|
                0 <= i < policy.filesystem.read_only@.len() && p == paths::joined(
                    workdir,
                    (#[trigger] policy.filesystem.read_only@[i])@,
                )
            ||| exists|i: int|
                0 <= i < policy.filesystem.read_write@.len() && p == paths::joined(
                    workdir,
                    (#[trigger] policy.filesystem.read_write@[i])@,
                )
        },
{
    law_writes_only_what_is_granted(policy, workdir, p);
    law_reads_only_what_is_granted(policy, workdir, p);
    let ro = policy::resolved(policy.filesystem.read_only@, workdir);
    let rw = policy::resolved(policy.filesystem.read_write@, workdir);
    if ro.contains(p) {
        let i = choose|i: int| 0 <= i < ro.len() && ro[i] == p;
        assert(p == paths::joined(workdir, policy.filesystem.read_only@[i]@));
    }
    if rw.contains(p) {
        let i = choose|i: int| 0 <= i < rw.len() && rw[i] == p;
        assert(p == paths::joined(workdir, policy.filesystem.read_write@[i]@));
    }
}

} // verus!
