//! Unix paths as text.
//!
//! A path is a string of segments separated by `/`. Empty segments and `.` segments name nothing,
//! except a `.` that starts a relative path.

use vstd::prelude::*;

use crate::text::{self, chars_of, same_text, text_of};

verus! {

/// Whether a path starts at the root.
pub open spec fn absolute(p: Seq<char>) -> bool {
    p.len() > 0 && p[0] == '/'
}

/// `p` as seen from the directory `base`: an absolute `p` stays, a relative one is appended.
pub open spec fn joined(base: Seq<char>, p: Seq<char>) -> Seq<char> {
    if absolute(p) {
        p
    } else if base.len() == 0 || base.last() == '/' {
        base + p
    } else {
        base.push('/') + p
    }
}

/// Whether `p` starts at the root.
pub fn is_absolute(p: &str) -> (r: bool)
    ensures
        r == absolute(p@),
{
    let chars = chars_of(p);
    chars.len() > 0 && chars[0] == '/'
}

/// `p` as seen from the directory `base`.
pub fn join(base: &str, p: &str) -> (r: String)
    ensures
        r@ == joined(base@, p@),
{
    if is_absolute(p) {
        return p.to_owned();
    }
    let chars = chars_of(base);
    let mut out = base.to_owned();
    if chars.len() > 0 && chars[chars.len() - 1] != '/' {
        out.push('/');
    }
    out.append(p);
    out
}

/// A relative path joined to an absolute directory is absolute, and so is an absolute path.
pub proof fn law_join_absolute(base: Seq<char>, p: Seq<char>)
    requires
        absolute(base),
    ensures
        absolute(joined(base, p)),
{
}

/// The number of characters before the first `/`.
pub open spec fn segment_len(p: Seq<char>) -> nat
    decreases p.len(),
{
    if p.len() == 0 || p[0] == '/' {
        0
    } else {
        1 + segment_len(p.skip(1))
    }
}

/// Whether a segment names something; `first` is true of the segment that starts the path.
pub open spec fn names_something(segment: Seq<char>, first: bool) -> bool {
    segment.len() > 0 && (segment != seq!['.'] || first)
}

/// The segments of `p` that name something; `first` tells whether `p` is the whole path.
pub open spec fn parts_from(p: Seq<char>, first: bool) -> Seq<Seq<char>>
    decreases p.len(),
{
    let n = segment_len(p) as int;
    let rest = if n < p.len() {
        parts_from(p.skip(n + 1), false)
    } else {
        Seq::empty()
    };
    if names_something(p.take(n), first) {
        seq![p.take(n)] + rest
    } else {
        rest
    }
}

/// The segments of a path that name something, in order.
pub open spec fn parts(p: Seq<char>) -> Seq<Seq<char>> {
    parts_from(p, true)
}

/// Whether two texts write one path: both start at the root or neither does, and their segments
/// that name something are the same.
pub open spec fn same_path(a: Seq<char>, b: Seq<char>) -> bool {
    absolute(a) == absolute(b) && parts(a) == parts(b)
}

/// The name of the file or directory that a path ends in, if it ends in one.
pub open spec fn name_of(p: Seq<char>) -> Option<Seq<char>> {
    if parts(p).len() == 0 {
        None
    } else if parts(p).last() == seq!['.'] || parts(p).last() == seq!['.', '.'] {
        None
    } else {
        Some(parts(p).last())
    }
}

/// The segments of `p` that name something.
pub fn parts_of(p: &str) -> (r: Vec<String>)
    ensures
        text::texts(r@) == parts(p@),
{
    let chars = chars_of(p);
    let mut out: Vec<String> = Vec::new();
    let mut start: usize = 0;
    let mut done = false;
    proof {
        assert(chars@.skip(0) =~= p@);
        assert(text::texts(out@) + parts(p@) =~= parts(p@));
    }
    while !done
        invariant
            chars@ == p@,
            start <= chars@.len(),
            !done ==> text::texts(out@) + parts_from(chars@.skip(start as int), start == 0)
                == parts(p@),
            done ==> text::texts(out@) == parts(p@),
        decreases chars@.len() - start + (if done { 0int } else { 1int }),
    {
        let mut end: usize = start;
        let ghost rest = chars@.skip(start as int);
        proof {
            assert(rest.skip(0) =~= rest);
        }
        while end < chars.len() && chars[end] != '/'
            invariant
                start <= end <= chars@.len(),
                rest == chars@.skip(start as int),
                segment_len(rest) == (end - start) + segment_len(rest.skip(end - start)),
            decreases chars@.len() - end,
        {
            proof {
                assert(rest.skip(end - start)[0] == chars@[end as int]);
                assert(rest.skip(end - start).skip(1) =~= rest.skip(end + 1 - start));
            }
            end += 1;
        }
        let segment = text_of(&chars, start, end);
        let named = start < end && (!(end - start == 1 && chars[start] == '.') || start == 0);
        proof {
            assert(segment_len(rest.skip(end - start)) == 0);
            assert(rest.take(end - start) =~= segment@);
            if segment@.len() == 1 && segment@[0] == '.' {
                assert(segment@ =~= seq!['.']);
            }
            assert(named == names_something(segment@, start == 0));
            if end < chars@.len() {
                assert(rest.skip(end - start + 1) =~= chars@.skip(end + 1));
            }
            let tail = if end < chars@.len() {
                parts_from(chars@.skip(end + 1), false)
            } else {
                Seq::empty()
            };
            assert(parts_from(rest, start == 0) == if named {
                seq![segment@] + tail
            } else {
                tail
            });
            assert(text::texts(out@) + (seq![segment@] + tail) =~= text::texts(
                out@,
            ).push(segment@) + tail);
            assert(text::texts(out@.push(segment)) =~= text::texts(out@).push(
                segment@,
            ));
        }
        if named {
            out.push(segment);
        }
        if end < chars.len() {
            start = end + 1;
        } else {
            proof {
                assert(text::texts(out@) + Seq::<Seq<char>>::empty() =~= text::texts(
                    out@,
                ));
            }
            done = true;
        }
    }
    out
}

/// Whether two lists of strings hold the same texts.
pub fn same_texts(a: &Vec<String>, b: &Vec<String>) -> (r: bool)
    ensures
        r == (text::texts(a@) == text::texts(b@)),
{
    if a.len() != b.len() {
        proof {
            assert(text::texts(a@).len() != text::texts(b@).len());
        }
        return false;
    }
    let mut i: usize = 0;
    while i < a.len()
        invariant
            i <= a@.len() == b@.len(),
            forall|k: int| 0 <= k < i ==> (#[trigger] a@[k])@ == b@[k]@,
        decreases a@.len() - i,
    {
        if !same_text(a[i].as_str(), b[i].as_str()) {
            proof {
                assert(text::texts(a@)[i as int] != text::texts(b@)[i as int]);
            }
            return false;
        }
        i += 1;
    }
    proof {
        assert(text::texts(a@) =~= text::texts(b@));
    }
    true
}

/// Whether `a` and `b` write one path.
pub fn is_same_path(a: &str, b: &str) -> (r: bool)
    ensures
        r == same_path(a@, b@),
{
    is_absolute(a) == is_absolute(b) && same_texts(&parts_of(a), &parts_of(b))
}

/// The name of the file or directory that `p` ends in.
pub fn file_name(p: &str) -> (r: Option<String>)
    ensures
        text::optional_text(r) == name_of(p@),
{
    let parts = parts_of(p);
    if parts.len() == 0 {
        return None;
    }
    let last = &parts[parts.len() - 1];
    proof {
        reveal_strlit(".");
        reveal_strlit("..");
        assert("."@ =~= seq!['.']);
        assert(".."@ =~= seq!['.', '.']);
    }
    if same_text(last.as_str(), ".") || same_text(last.as_str(), "..") {
        None
    } else {
        Some(last.clone())
    }
}

/// A path without the separators and `.` segments that it ends in.
pub open spec fn trimmed(p: Seq<char>) -> Seq<char>
    decreases p.len(),
{
    if p.len() >= 2 && (p.last() == '/' || (p.last() == '.' && p[p.len() - 2] == '/')) {
        trimmed(p.drop_last())
    } else {
        p
    }
}

/// The number of characters up to and with the last `/`.
pub open spec fn directory_len(p: Seq<char>) -> nat
    decreases p.len(),
{
    if p.len() == 0 || p.last() == '/' {
        p.len()
    } else {
        directory_len(p.drop_last())
    }
}

/// The path without its last segment that names something; the root and the empty path have none.
pub open spec fn parent_of(p: Seq<char>) -> Option<Seq<char>> {
    let t = trimmed(p);
    if t.len() == 0 || t == seq!['/'] {
        None
    } else {
        Some(trimmed(t.take(directory_len(t) as int)))
    }
}

/// The length of `chars[..len]` without the separators and `.` segments that it ends in.
fn trimmed_len(chars: &Vec<char>, len: usize) -> (r: usize)
    requires
        len <= chars@.len(),
    ensures
        r <= len,
        chars@.take(r as int) == trimmed(chars@.take(len as int)),
{
    let mut n: usize = len;
    while n >= 2 && (chars[n - 1] == '/' || (chars[n - 1] == '.' && chars[n - 2] == '/'))
        invariant
            n <= len <= chars@.len(),
            trimmed(chars@.take(n as int)) == trimmed(chars@.take(len as int)),
        decreases n,
    {
        proof {
            assert(chars@.take(n as int).drop_last() =~= chars@.take(n - 1));
        }
        n -= 1;
    }
    n
}

/// `p` without its last segment that names something.
pub fn parent(p: &str) -> (r: Option<String>)
    ensures
        text::optional_text(r) == parent_of(p@),
{
    let chars = chars_of(p);
    let n: usize = trimmed_len(&chars, chars.len());
    let ghost t = chars@.take(n as int);
    proof {
        assert(chars@.take(chars@.len() as int) =~= p@);
    }
    if n == 0 {
        return None;
    }
    if n == 1 && chars[0] == '/' {
        proof {
            assert(t =~= seq!['/']);
        }
        return None;
    }
    let mut d: usize = n;
    proof {
        assert(t.take(n as int) =~= t);
    }
    while d > 0 && chars[d - 1] != '/'
        invariant
            d <= n <= chars@.len(),
            t == chars@.take(n as int),
            directory_len(t.take(d as int)) == directory_len(t),
        decreases d,
    {
        proof {
            assert(t.take(d as int).drop_last() =~= t.take(d - 1));
        }
        d -= 1;
    }
    let m: usize = trimmed_len(&chars, d);
    let r = text_of(&chars, 0, m);
    proof {
        assert(t.take(d as int) =~= chars@.take(d as int));
        assert(directory_len(t) == d);
        assert(r@ =~= chars@.take(m as int));
    }
    Some(r)
}

/// The last separator of a path is not in a tail without separators.
proof fn lemma_directory_len_append(d: Seq<char>, f: Seq<char>)
    requires
        d.len() > 0,
        d.last() == '/',
        !f.contains('/'),
    ensures
        directory_len(d + f) == d.len(),
    decreases f.len(),
{
    if f.len() == 0 {
        assert(d + f =~= d);
    } else {
        assert(f[f.len() - 1] != '/');
        assert((d + f).last() == f.last());
        assert((d + f).drop_last() =~= d + f.drop_last());
        assert(!f.drop_last().contains('/')) by {
            if f.drop_last().contains('/') {
                let i = choose|i: int|
                    0 <= i < f.drop_last().len() && f.drop_last()[i] == '/';
                assert(f[i] == '/');
            }
        }
        lemma_directory_len_append(d, f.drop_last());
    }
}

/// The parent of a file in a directory is that directory, without the separators and `.` segments
/// that it ends in.
pub proof fn law_parent_of_file(dir: Seq<char>, file: Seq<char>)
    requires
        dir.len() > 0,
        file.len() > 0,
        file != seq!['.'],
        !file.contains('/'),
    ensures
        parent_of(joined(dir, file)) == Some(trimmed(dir)),
{
    assert(file[0] != '/');
    let d = if dir.last() == '/' {
        dir
    } else {
        dir.push('/')
    };
    let p = joined(dir, file);
    assert(p =~= d + file);
    assert(d.last() == '/');
    assert(p.last() == file.last());
    assert(file[file.len() - 1] != '/');
    if file.last() == '.' {
        if file.len() == 1 {
            assert(file =~= seq!['.']);
        } else {
            assert(p[p.len() - 2] == file[file.len() - 2]);
            assert(file[file.len() - 2] != '/');
        }
    }
    assert(trimmed(p) == p);
    lemma_directory_len_append(d, file);
    assert(p.take(d.len() as int) =~= d);
    if dir.last() != '/' {
        assert(d.drop_last() =~= dir);
    }
}

/// A path starts at the root exactly where its first character is a separator.
pub proof fn law_absolute_starts_with_a_separator(c: char, p: Seq<char>)
    ensures
        absolute(seq![c] + p) <==> c == '/',
        !absolute(Seq::<char>::empty()),
{
}

/// A path that starts at the root stays what it is from anywhere; any other is put behind the
/// directory, with one separator between them where the directory does not end in one.
pub proof fn law_joined_puts_one_separator(base: Seq<char>, c: char, p: Seq<char>)
    ensures
        p.len() > 0 && p[0] == '/' ==> joined(base, p) == p,
        !(p.len() > 0 && p[0] == '/') ==> {
            &&& joined(Seq::<char>::empty(), p) == p
            &&& joined(base + "/"@, p) == base + "/"@ + p
            &&& c != '/' ==> joined(base.push(c), p) == base.push(c) + "/"@ + p
        },
{
    reveal_strlit("/");
    assert(Seq::<char>::empty() + p =~= p);
    assert((base + "/"@).last() == '/');
    assert(base.push(c).push('/') + p =~= base.push(c) + "/"@ + p);
}

/// A segment ends where a separator follows it.
proof fn lemma_segment_len(s: Seq<char>, rest: Seq<char>)
    requires
        !s.contains('/'),
    ensures
        segment_len(s + (seq!['/'] + rest)) == s.len(),
        segment_len(s) == s.len(),
    decreases s.len(),
{
    let t = seq!['/'] + rest;
    if s.len() == 0 {
        assert(s + t =~= t);
    } else {
        assert(s[0] != '/') by {
            assert(s.contains(s[0]));
        }
        assert((s + t)[0] == s[0]);
        assert((s + t).skip(1) =~= s.skip(1) + t);
        assert(!s.skip(1).contains('/')) by {
            if s.skip(1).contains('/') {
                let i = choose|i: int| 0 <= i < s.skip(1).len() && s.skip(1)[i] == '/';
                assert(s[i + 1] == '/');
            }
        }
        lemma_segment_len(s.skip(1), rest);
    }
}

/// The first segment of a path does not depend on what follows its separator.
proof fn lemma_segment_len_append(p: Seq<char>, t: Seq<char>)
    requires
        p.contains('/'),
    ensures
        segment_len(p + t) == segment_len(p),
        segment_len(p) < p.len(),
    decreases p.len(),
{
    assert((p + t)[0] == p[0]);
    if p[0] != '/' {
        assert((p + t).skip(1) =~= p.skip(1) + t);
        let i = choose|i: int| 0 <= i < p.len() && p[i] == '/';
        assert(p.skip(1)[i - 1] == '/');
        lemma_segment_len_append(p.skip(1), t);
    }
}

/// The parts of two paths with a separator between them are the parts of the one, then those of
/// the other.
proof fn lemma_parts_of_two(p: Seq<char>, q: Seq<char>, first: bool)
    ensures
        parts_from(p + (seq!['/'] + q), first) == parts_from(p, first) + parts_from(q, false),
    decreases p.len(),
{
    let t = seq!['/'] + q;
    let all = p + t;
    if !p.contains('/') {
        let n = p.len() as int;
        lemma_segment_len(p, q);
        assert(all.take(n) =~= p);
        assert(p.take(n) =~= p);
        assert(all.skip(n + 1) =~= q);
        assert(parts_from(all, first) =~= parts_from(p, first) + parts_from(q, false));
    } else {
        lemma_segment_len_append(p, t);
        let n = segment_len(p) as int;
        assert(all.take(n) =~= p.take(n));
        assert(all.skip(n + 1) =~= p.skip(n + 1) + t);
        lemma_parts_of_two(p.skip(n + 1), q, false);
        assert(parts_from(all, first) =~= parts_from(p, first) + parts_from(q, false));
    }
}

/// The parts of a text without a separator.
proof fn lemma_parts_of_segment(s: Seq<char>, first: bool)
    requires
        !s.contains('/'),
    ensures
        parts_from(s, first) == if s.len() > 0 && (s != seq!['.'] || first) {
            seq![s]
        } else {
            Seq::empty()
        },
{
    lemma_segment_len(s, Seq::empty());
    assert(s.take(s.len() as int) =~= s);
    assert(parts_from(s, first) =~= if s.len() > 0 && (s != seq!['.'] || first) {
        seq![s]
    } else {
        Seq::empty()
    });
}

/// The parts of a path are its segments in order: a name behind a separator is one more part; a
/// separator, or a separator and a dot, at the end is none.
pub proof fn law_parts_are_the_segments(p: Seq<char>, s: Seq<char>)
    requires
        !s.contains('/'),
    ensures
        parts(Seq::<char>::empty()) == Seq::<Seq<char>>::empty(),
        s.len() > 0 ==> parts(s) == seq![s],
        s.len() > 0 && s != "."@ ==> parts(p + "/"@ + s) == parts(p).push(s),
        parts(p + "/"@) == parts(p),
        parts(p + "/."@) == parts(p),
{
    reveal_strlit("/");
    reveal_strlit("/.");
    reveal_strlit(".");
    let none = Seq::<char>::empty();
    assert("."@ =~= seq!['.']);
    lemma_parts_of_segment(none, true);
    lemma_parts_of_segment(none, false);
    lemma_parts_of_segment(s, true);
    lemma_parts_of_segment(s, false);
    assert(!"."@.contains('/'));
    lemma_parts_of_segment("."@, false);
    lemma_parts_of_two(p, s, true);
    lemma_parts_of_two(p, none, true);
    lemma_parts_of_two(p, "."@, true);
    assert(p + "/"@ + s =~= p + (seq!['/'] + s));
    assert(p + "/"@ =~= p + (seq!['/'] + none));
    assert(p + "/."@ =~= p + (seq!['/'] + "."@));
    assert(parts(p) + Seq::<Seq<char>>::empty() =~= parts(p));
    assert(parts(p) + seq![s] =~= parts(p).push(s));
}

/// Two texts write one path exactly where both or neither start at the root and their parts agree.
/// A separator at the end of a path that has a part makes no other path.
pub proof fn law_same_path(a: Seq<char>, b: Seq<char>)
    ensures
        same_path(a, b) <==> absolute(a) == absolute(b) && parts(a) == parts(b),
        same_path(a, a),
        same_path(a, b) == same_path(b, a),
        a.len() > 0 ==> same_path(a + "/"@, a),
{
    law_parts_are_the_segments(a, Seq::empty());
    if a.len() > 0 {
        assert((a + "/"@)[0] == a[0]);
    }
}

/// A path ends in the name that stands behind its last separator, or in no name where that is `..`;
/// separators and dots behind it do not count.
pub proof fn law_name_is_the_last_part(p: Seq<char>, s: Seq<char>)
    requires
        !s.contains('/'),
        s.len() > 0,
        s != "."@,
    ensures
        s != ".."@ ==> name_of(s) == Some(s) && name_of(p + "/"@ + s) == Some(s),
        s == ".."@ ==> name_of(s) is None && name_of(p + "/"@ + s) is None,
        name_of(p + "/"@) == name_of(p),
        name_of(p + "/."@) == name_of(p),
        name_of(Seq::<char>::empty()) is None,
        name_of("."@) is None,
{
    reveal_strlit(".");
    reveal_strlit("..");
    assert("."@ =~= seq!['.']);
    assert(".."@ =~= seq!['.', '.']);
    assert(!"."@.contains('/'));
    law_parts_are_the_segments(p, s);
    law_parts_are_the_segments(p, "."@);
    assert(parts(p).push(s).last() == s);
    assert(seq![s].last() == s);
}

/// A path is cut back to what names something: separators and dots at its end go, a name at its
/// end stays.
pub proof fn law_trimmed_keeps_names(p: Seq<char>, s: Seq<char>)
    requires
        !s.contains('/'),
        s.len() > 0,
        s != "."@,
    ensures
        p.len() > 0 ==> trimmed(p + "/"@) == trimmed(p),
        p.len() > 0 ==> trimmed(p + "/."@) == trimmed(p),
        trimmed(p + "/"@ + s) == p + "/"@ + s,
        trimmed(s) == s,
        trimmed("."@) == "."@,
        trimmed("/"@) == "/"@,
        trimmed("/."@) == "/"@,
        trimmed(Seq::<char>::empty()) == Seq::<char>::empty(),
{
    reveal_strlit(".");
    reveal_strlit("/");
    reveal_strlit("/.");
    let n = s.len() as int;
    assert(s.contains(s[n - 1]));
    if n >= 2 {
        assert(s.contains(s[n - 2]));
    } else if s[0] == '.' {
        assert(s =~= "."@);
    }
    assert((p + "/"@).drop_last() =~= p);
    assert((p + "/."@).drop_last() =~= p + "/"@);
    assert("/."@.drop_last() =~= "/"@);
    reveal_with_fuel(trimmed, 2);
    let q = p + "/"@ + s;
    assert(q.last() == s[n - 1]);
    if n >= 2 {
        assert(q[q.len() - 2] == s[n - 2]);
    }
}

/// The root and the empty path have no parent; a lone name has the empty path for it, and a name in
/// the root the root.
pub proof fn law_parent_at_the_top(s: Seq<char>)
    requires
        !s.contains('/'),
        s.len() > 0,
    ensures
        parent_of(Seq::<char>::empty()) is None,
        parent_of("/"@) is None,
        parent_of(s) == Some(Seq::<char>::empty()),
        s != "."@ ==> parent_of("/"@ + s) == Some("/"@),
{
    reveal_strlit(".");
    reveal_strlit("/");
    let none = Seq::<char>::empty();
    assert("/"@ =~= seq!['/']);
    let n = s.len() as int;
    assert(s.contains(s[n - 1]));
    assert(s[n - 1] != '/');
    if n >= 2 {
        assert(s.contains(s[n - 2]));
        assert(s[n - 2] != '/');
    }
    assert(trimmed(s) == s);
    if n == 1 && s == seq!['/'] {
        assert(s[0] == '/');
    }
    lemma_no_directory(s);
    assert(s.take(0) =~= none);
    if s != "."@ {
        law_trimmed_keeps_names(none, s);
        assert(none + "/"@ + s =~= "/"@ + s);
        lemma_directory_len_append("/"@, s);
        assert(("/"@ + s).take(1) =~= "/"@);
        assert(("/"@ + s).len() != 1);
    }
}

/// Separators and dots at the end of a path do not change its parent.
pub proof fn law_parent_skips_what_names_nothing(p: Seq<char>)
    requires
        p.len() > 0,
    ensures
        parent_of(p + "/"@) == parent_of(p),
        parent_of(p + "/."@) == parent_of(p),
{
    reveal_strlit(".");
    assert("."@ =~= seq!['.']);
    assert(!seq!['a'].contains('/'));
    assert(seq!['a'] != "."@) by {
        assert(seq!['a'][0] != "."@[0]);
    }
    law_trimmed_keeps_names(p, seq!['a']);
}

/// A path without separators has no directory.
proof fn lemma_no_directory(s: Seq<char>)
    requires
        !s.contains('/'),
    ensures
        directory_len(s) == 0,
    decreases s.len(),
{
    if s.len() > 0 {
        assert(s.contains(s[s.len() - 1]));
        assert(!s.drop_last().contains('/')) by {
            if s.drop_last().contains('/') {
                let i = choose|i: int| 0 <= i < s.drop_last().len() && s.drop_last()[i] == '/';
                assert(s[i] == '/');
            }
        }
        lemma_no_directory(s.drop_last());
    }
}

} // verus!
