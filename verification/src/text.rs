//! Text primitives: every function here works on the characters of a string.

use vstd::prelude::*;

verus! {

/// `String::push` appends one character to the end of the string.
pub assume_specification[ String::push ](s: &mut String, c: char)
    ensures
        final(s)@ == old(s)@.push(c),
;

/// The characters of each string of a list.
pub open spec fn texts(list: Seq<String>) -> Seq<Seq<char>> {
    list.map_values(|s: String| s@)
}

/// The characters of each pair of strings of a list.
pub open spec fn pairs(list: Seq<(String, String)>) -> Seq<(Seq<char>, Seq<char>)> {
    list.map_values(|p: (String, String)| (p.0@, p.1@))
}

/// The characters of `s` as a vector.
pub fn chars_of(s: &str) -> (r: Vec<char>)
    ensures
        r@ == s@,
{
    let mut out: Vec<char> = Vec::new();
    for c in it: s.chars()
        invariant
            out@ == it.seq().take(it.index() as int),
            it.seq() == s@,
    {
        out.push(c);
    }
    out
}

/// The characters `from..to` of `chars` as a string.
pub fn text_of(chars: &Vec<char>, from: usize, to: usize) -> (r: String)
    requires
        from <= to <= chars@.len(),
    ensures
        r@ == chars@.subrange(from as int, to as int),
{
    let mut out = String::new();
    let mut i: usize = from;
    while i < to
        invariant
            from <= i <= to <= chars@.len(),
            out@ == chars@.subrange(from as int, i as int),
        decreases to - i,
    {
        out.push(chars[i]);
        i += 1;
    }
    out
}

/// Whether two strings hold the same characters.
pub fn same_text(a: &str, b: &str) -> (r: bool)
    ensures
        r == (a@ == b@),
{
    a.to_owned() == b.to_owned()
}

/// ASCII lower case of one character; every other character stays.
pub open spec fn lower_char(c: char) -> char {
    if 'A' <= c && c <= 'Z' {
        ((c as u8) + 32) as char
    } else {
        c
    }
}

/// ASCII lower case of a text.
pub open spec fn lower(s: Seq<char>) -> Seq<char> {
    s.map_values(|c: char| lower_char(c))
}

/// ASCII lower case of `s`.
pub fn lower_text(s: &str) -> (r: String)
    ensures
        r@ == lower(s@),
{
    let chars = chars_of(s);
    let mut out = String::new();
    let mut i: usize = 0;
    while i < chars.len()
        invariant
            i <= chars@.len(),
            out@ == lower(chars@.take(i as int)),
        decreases chars@.len() - i,
    {
        let c = chars[i];
        if 'A' <= c && c <= 'Z' {
            out.push(((c as u8) + 32) as char);
        } else {
            out.push(c);
        }
        proof {
            assert(chars@.take(i + 1) =~= chars@.take(i as int).push(c));
            assert(lower(chars@.take(i + 1)) =~= lower(chars@.take(i as int)).push(lower_char(c)));
        }
        i += 1;
    }
    proof {
        assert(chars@.take(i as int) =~= chars@);
    }
    out
}

/// Lower-casing twice is lower-casing once.
pub proof fn lemma_lower_idempotent(s: Seq<char>)
    ensures
        lower(lower(s)) == lower(s),
{
    assert(lower(lower(s)) =~= lower(s));
}

/// The characters with the Unicode property `White_Space`.
pub open spec fn is_white(c: char) -> bool {
    ||| '\u{9}' <= c && c <= '\u{d}'
    ||| c == ' '
    ||| c == '\u{85}'
    ||| c == '\u{a0}'
    ||| c == '\u{1680}'
    ||| '\u{2000}' <= c && c <= '\u{200a}'
    ||| c == '\u{2028}'
    ||| c == '\u{2029}'
    ||| c == '\u{202f}'
    ||| c == '\u{205f}'
    ||| c == '\u{3000}'
}

/// Whether `c` is white space.
pub fn white(c: char) -> (r: bool)
    ensures
        r == is_white(c),
{
    ('\u{9}' <= c && c <= '\u{d}') || c == ' ' || c == '\u{85}' || c == '\u{a0}' || c == '\u{1680}'
        || ('\u{2000}' <= c && c <= '\u{200a}') || c == '\u{2028}' || c == '\u{2029}' || c
        == '\u{202f}' || c == '\u{205f}' || c == '\u{3000}'
}

/// A text without its leading white space.
pub open spec fn trim_start(s: Seq<char>) -> Seq<char>
    decreases s.len(),
{
    if s.len() > 0 && is_white(s[0]) {
        trim_start(s.skip(1))
    } else {
        s
    }
}

/// A text without its trailing white space.
pub open spec fn trim_end(s: Seq<char>) -> Seq<char>
    decreases s.len(),
{
    if s.len() > 0 && is_white(s.last()) {
        trim_end(s.drop_last())
    } else {
        s
    }
}

/// A text without leading and trailing white space.
pub open spec fn trim(s: Seq<char>) -> Seq<char> {
    trim_end(trim_start(s))
}

/// `s` without leading and trailing white space.
pub fn trim_text(s: &str) -> (r: String)
    ensures
        r@ == trim(s@),
{
    let chars = chars_of(s);
    let mut from: usize = 0;
    proof {
        assert(chars@.skip(0) =~= chars@);
    }
    while from < chars.len() && white(chars[from])
        invariant
            from <= chars@.len(),
            trim_start(chars@.skip(from as int)) == trim_start(chars@),
        decreases chars@.len() - from,
    {
        proof {
            assert(chars@.skip(from as int).skip(1) =~= chars@.skip(from + 1));
        }
        from += 1;
    }
    let mut to: usize = chars.len();
    let ghost body = chars@.skip(from as int);
    proof {
        assert(trim_start(chars@) == body);
        assert(chars@.subrange(from as int, to as int) =~= body);
    }
    while to > from && white(chars[to - 1])
        invariant
            from <= to <= chars@.len(),
            trim_end(chars@.subrange(from as int, to as int)) == trim_end(body),
        decreases to,
    {
        proof {
            assert(chars@.subrange(from as int, to as int).drop_last() =~= chars@.subrange(
                from as int,
                to - 1,
            ));
        }
        to -= 1;
    }
    text_of(&chars, from, to)
}

/// Whether `c` is a decimal digit.
pub open spec fn is_digit(c: char) -> bool {
    '0' <= c && c <= '9'
}

/// The number that a run of decimal digits writes.
pub open spec fn digits_value(s: Seq<char>) -> nat
    decreases s.len(),
{
    if s.len() == 0 {
        0
    } else {
        digits_value(s.drop_last()) * 10 + (s.last() as nat - '0' as nat) as nat
    }
}

/// Whether `s` is a non-empty run of decimal digits.
pub open spec fn all_digits(s: Seq<char>) -> bool {
    s.len() > 0 && forall|i: int| 0 <= i < s.len() ==> is_digit(#[trigger] s[i])
}

/// A text without the one plus sign that a number may start with.
pub open spec fn without_plus(s: Seq<char>) -> Seq<char> {
    if s.len() > 0 && s[0] == '+' {
        s.skip(1)
    } else {
        s
    }
}

/// The unsigned number that `s` writes: digits after an optional plus sign, at most `max`.
pub open spec fn unsigned_value(s: Seq<char>, max: nat) -> Option<nat> {
    let body = without_plus(s);
    if all_digits(body) && digits_value(body) <= max {
        Some(digits_value(body))
    } else {
        None
    }
}

/// Reads an unsigned number of at most `max`.
pub fn parse_unsigned(s: &str, max: u64) -> (r: Option<u64>)
    ensures
        match unsigned_value(s@, max as nat) {
            Some(v) => r is Some && r->0 as nat == v,
            None => r is None,
        },
{
    let chars = chars_of(s);
    let start: usize = if chars.len() > 0 && chars[0] == '+' {
        1
    } else {
        0
    };
    let ghost body = without_plus(s@);
    proof {
        assert(body =~= chars@.skip(start as int));
    }
    if start == chars.len() {
        return None;
    }
    let mut value: u64 = 0;
    let mut i: usize = start;
    let mut within = true;
    while i < chars.len()
        invariant
            start <= i <= chars@.len(),
            body == chars@.skip(start as int),
            body == without_plus(s@),
            forall|k: int| 0 <= k < i - start ==> is_digit(#[trigger] body[k]),
            within ==> value as nat == digits_value(body.take(i - start)) && value <= max,
            !within ==> digits_value(body.take(i - start)) > max,
        decreases chars@.len() - i,
    {
        let c = chars[i];
        let ghost k = i - start;
        assert(body[k] == c);
        if c < '0' || c > '9' {
            proof {
                assert(!is_digit(body[k]));
            }
            return None;
        }
        proof {
            assert(body.take(k + 1).drop_last() =~= body.take(k));
        }
        let d: u64 = (c as u64) - ('0' as u64);
        if within {
            if d > max || value > (max - d) / 10 {
                within = false;
            } else {
                value = value * 10 + d;
            }
        }
        i += 1;
    }
    proof {
        assert(body.take(i - start) =~= body);
        assert(all_digits(body));
    }
    if within {
        Some(value)
    } else {
        None
    }
}

/// The decimal digit for `d < 10`.
pub open spec fn digit_char(d: nat) -> char {
    ('0' as u8 + d) as char
}

/// `n` in decimal, without leading zeros.
pub open spec fn decimal(n: nat) -> Seq<char>
    decreases n,
{
    if n < 10 {
        seq![digit_char(n)]
    } else {
        decimal(n / 10).push(digit_char(n % 10))
    }
}

/// `n` in decimal.
pub fn decimal_text(n: u64) -> (r: String)
    ensures
        r@ == decimal(n as nat),
    decreases n,
{
    let d: u8 = (n % 10) as u8;
    let c: char = ('0' as u8 + d) as char;
    if n < 10 {
        let mut out = String::new();
        out.push(c);
        proof {
            assert(out@ =~= decimal(n as nat));
        }
        out
    } else {
        let mut out = decimal_text(n / 10);
        out.push(c);
        out
    }
}

/// A decimal is a run of digits, and it writes the number that it came from.
pub proof fn lemma_decimal_reads_back(n: nat)
    ensures
        all_digits(decimal(n)),
        digits_value(decimal(n)) == n,
    decreases n,
{
    if n >= 10 {
        lemma_decimal_reads_back(n / 10);
        assert(decimal(n).drop_last() =~= decimal(n / 10));
        assert forall|i: int| 0 <= i < decimal(n).len() implies is_digit(
            #[trigger] decimal(n)[i],
        ) by {
            if i < decimal(n / 10).len() {
                assert(decimal(n)[i] == decimal(n / 10)[i]);
            }
        }
    } else {
        assert(decimal(n).drop_last() =~= Seq::<char>::empty());
        assert(digits_value(decimal(n).drop_last()) == 0);
    }
}

/// Two numbers with one decimal are one number.
pub proof fn lemma_decimal_injective(a: nat, b: nat)
    requires
        decimal(a) == decimal(b),
    ensures
        a == b,
{
    lemma_decimal_reads_back(a);
    lemma_decimal_reads_back(b);
}

/// The lower-case hexadecimal digit for `d < 16`.
pub open spec fn hex_char(d: nat) -> char {
    if d < 10 {
        ('0' as u8 + d) as char
    } else {
        ('a' as u8 + (d - 10)) as char
    }
}

/// `n` in lower-case hexadecimal, without leading zeros.
pub open spec fn hexadecimal(n: nat) -> Seq<char>
    decreases n,
{
    if n < 16 {
        seq![hex_char(n)]
    } else {
        hexadecimal(n / 16).push(hex_char(n % 16))
    }
}

/// `n` in lower-case hexadecimal.
pub fn hexadecimal_text(n: u128) -> (r: String)
    ensures
        r@ == hexadecimal(n as nat),
    decreases n,
{
    let d: u8 = (n % 16) as u8;
    let c: char = if d < 10 {
        ('0' as u8 + d) as char
    } else {
        ('a' as u8 + (d - 10)) as char
    };
    if n < 16 {
        let mut out = String::new();
        out.push(c);
        proof {
            assert(out@ =~= hexadecimal(n as nat));
        }
        out
    } else {
        let mut out = hexadecimal_text(n / 16);
        out.push(c);
        out
    }
}

/// Whether `s` starts with `prefix`.
pub fn has_prefix(s: &str, prefix: &str) -> (r: bool)
    ensures
        r == prefix@.is_prefix_of(s@),
{
    let a = chars_of(s);
    let p = chars_of(prefix);
    if p.len() > a.len() {
        return false;
    }
    let mut i: usize = 0;
    while i < p.len()
        invariant
            i <= p@.len() <= a@.len(),
            a@ == s@,
            p@ == prefix@,
            forall|k: int| 0 <= k < i ==> p@[k] == a@[k],
        decreases p@.len() - i,
    {
        if p[i] != a[i] {
            proof {
                assert(prefix@[i as int] != s@.subrange(0, prefix@.len() as int)[i as int]);
            }
            return false;
        }
        i += 1;
    }
    proof {
        assert(prefix@ =~= s@.subrange(0, prefix@.len() as int));
    }
    true
}

/// What follows `prefix` in a text that starts with it.
pub open spec fn after_prefix(s: Seq<char>, prefix: Seq<char>) -> Option<Seq<char>> {
    if prefix.is_prefix_of(s) {
        Some(s.skip(prefix.len() as int))
    } else {
        None
    }
}

/// The characters of an optional string.
pub open spec fn optional_text(s: Option<String>) -> Option<Seq<char>> {
    match s {
        Some(t) => Some(t@),
        None => None,
    }
}

/// What follows `prefix` in `s`, where `s` starts with it.
pub fn strip_prefix(s: &str, prefix: &str) -> (r: Option<String>)
    ensures
        optional_text(r) == after_prefix(s@, prefix@),
{
    if has_prefix(s, prefix) {
        let chars = chars_of(s);
        let n: usize = prefix.unicode_len();
        let rest = text_of(&chars, n, chars.len());
        proof {
            assert(rest@ =~= s@.skip(prefix@.len() as int));
        }
        Some(rest)
    } else {
        None
    }
}

/// Whether `c` occurs in `s`.
pub fn contains_char(s: &str, c: char) -> (r: bool)
    ensures
        r == s@.contains(c),
{
    let chars = chars_of(s);
    let mut i: usize = 0;
    while i < chars.len()
        invariant
            i <= chars@.len(),
            chars@ == s@,
            forall|k: int| 0 <= k < i ==> chars@[k] != c,
        decreases chars@.len() - i,
    {
        if chars[i] == c {
            proof {
                assert(s@[i as int] == c);
            }
            return true;
        }
        i += 1;
    }
    false
}

/// The number of characters before the first white space.
pub open spec fn word_len(s: Seq<char>) -> nat
    decreases s.len(),
{
    if s.len() == 0 || is_white(s[0]) {
        0
    } else {
        1 + word_len(s.skip(1))
    }
}

/// A word is no longer than the text it starts.
pub proof fn lemma_word_len_bound(s: Seq<char>)
    ensures
        word_len(s) <= s.len(),
    decreases s.len(),
{
    if s.len() > 0 && !is_white(s[0]) {
        lemma_word_len_bound(s.skip(1));
    }
}

/// Trimming the start leaves a suffix.
pub proof fn lemma_trim_start_len(s: Seq<char>)
    ensures
        trim_start(s).len() <= s.len(),
        trim_start(s).len() > 0 ==> !is_white(trim_start(s)[0]),
    decreases s.len(),
{
    if s.len() > 0 && is_white(s[0]) {
        lemma_trim_start_len(s.skip(1));
    }
}

/// The words of a text: its longest runs without white space, in order.
pub open spec fn words(s: Seq<char>) -> Seq<Seq<char>>
    decreases s.len(),
{
    let t = trim_start(s);
    let n = word_len(t);
    if t.len() == 0 || n == 0 || n > t.len() || t.len() > s.len() {
        Seq::empty()
    } else {
        seq![t.take(n as int)] + words(t.skip(n as int))
    }
}

/// The words of `s`.
pub fn words_of(s: &str) -> (r: Vec<String>)
    ensures
        texts(r@) == words(s@),
{
    let chars = chars_of(s);
    let mut out: Vec<String> = Vec::new();
    let mut i: usize = 0;
    proof {
        assert(chars@.skip(0) =~= chars@);
        assert(texts(out@) + words(s@) =~= words(s@));
    }
    while i < chars.len()
        invariant
            i <= chars@.len(),
            texts(out@) + words(chars@.skip(i as int)) == words(s@),
        decreases chars@.len() - i,
    {
        if white(chars[i]) {
            proof {
                let u = chars@.skip(i as int);
                assert(u.skip(1) =~= chars@.skip(i + 1));
                lemma_trim_start_len(u.skip(1));
                assert(words(u) == words(u.skip(1)));
            }
            i += 1;
        } else {
            let start: usize = i;
            let ghost t = chars@.skip(start as int);
            proof {
                assert(t.skip(0) =~= t);
            }
            while i < chars.len() && !white(chars[i])
                invariant
                    start <= i <= chars@.len(),
                    t == chars@.skip(start as int),
                    word_len(t) == (i - start) + word_len(t.skip(i - start)),
                decreases chars@.len() - i,
            {
                proof {
                    assert(t.skip(i - start)[0] == chars@[i as int]);
                    assert(t.skip(i - start).skip(1) =~= t.skip(i + 1 - start));
                }
                i += 1;
            }
            let word = text_of(&chars, start, i);
            proof {
                assert(word_len(t.skip(i - start)) == 0);
                assert(!is_white(t[0]));
                lemma_word_len_bound(t);
                assert(word_len(t) == i - start);
                assert(t.take(i - start) =~= word@);
                assert(t.skip(i - start) =~= chars@.skip(i as int));
                assert(words(t) == seq![word@] + words(chars@.skip(i as int)));
                assert(texts(out@.push(word)) =~= texts(out@).push(word@));
                assert(texts(out@) + words(t) =~= texts(out@).push(word@) + words(
                    chars@.skip(i as int),
                ));
            }
            out.push(word);
        }
    }
    proof {
        assert(chars@.skip(i as int) =~= Seq::<char>::empty());
        assert(words(chars@.skip(i as int)) =~= Seq::<Seq<char>>::empty());
        assert(texts(out@) + Seq::<Seq<char>>::empty() =~= texts(out@));
    }
    out
}

/// Appends a text to a list of strings.
pub fn push_text(list: &mut Vec<String>, s: &str)
    ensures
        texts(final(list)@) == texts(old(list)@).push(s@),
{
    list.push(s.to_owned());
    proof {
        assert(texts(list@) =~= texts(old(list)@).push(s@));
    }
}

/// Appends a string to a list of strings.
pub fn push_string(list: &mut Vec<String>, s: String)
    ensures
        texts(final(list)@) == texts(old(list)@).push(s@),
{
    list.push(s);
    proof {
        assert(texts(list@) =~= texts(old(list)@).push(s@));
    }
}

/// Appends copies of all of `tail` to a list of strings.
pub fn extend_texts(list: &mut Vec<String>, tail: &Vec<String>)
    ensures
        texts(final(list)@) == texts(old(list)@) + texts(tail@),
{
    let mut i: usize = 0;
    proof {
        assert(texts(old(list)@) + texts(tail@.take(0)) =~= texts(old(list)@));
    }
    while i < tail.len()
        invariant
            i <= tail@.len(),
            texts(list@) == texts(old(list)@) + texts(tail@.take(i as int)),
        decreases tail@.len() - i,
    {
        push_text(list, tail[i].as_str());
        proof {
            assert(texts(tail@.take(i + 1)) =~= texts(tail@.take(i as int)).push(tail@[i as int]@));
        }
        i += 1;
    }
    proof {
        assert(tail@.take(i as int) =~= tail@);
    }
}

/// A copy of the first `n` strings of `list`.
pub fn head_of(list: &Vec<String>, n: usize) -> (r: Vec<String>)
    requires
        n <= list@.len(),
    ensures
        texts(r@) == texts(list@).take(n as int),
{
    let mut out: Vec<String> = Vec::new();
    let mut i: usize = 0;
    while i < n
        invariant
            i <= n <= list@.len(),
            texts(out@) == texts(list@).take(i as int),
        decreases n - i,
    {
        push_text(&mut out, list[i].as_str());
        proof {
            assert(texts(list@).take(i + 1) =~= texts(list@).take(i as int).push(
                texts(list@)[i as int],
            ));
        }
        i += 1;
    }
    out
}

/// A copy of `list` without its first `n` strings.
pub fn tail_of(list: &Vec<String>, n: usize) -> (r: Vec<String>)
    requires
        n <= list@.len(),
    ensures
        texts(r@) == texts(list@).skip(n as int),
{
    let mut out: Vec<String> = Vec::new();
    let mut i: usize = n;
    while i < list.len()
        invariant
            n <= i <= list@.len(),
            texts(out@) == texts(list@).subrange(n as int, i as int),
        decreases list@.len() - i,
    {
        push_text(&mut out, list[i].as_str());
        proof {
            assert(texts(list@).subrange(n as int, i + 1) =~= texts(list@).subrange(
                n as int,
                i as int,
            ).push(texts(list@)[i as int]));
        }
        i += 1;
    }
    out
}

/// Appends a pair of texts to a list of pairs.
pub fn push_pair(list: &mut Vec<(String, String)>, key: &str, value: &str)
    ensures
        pairs(final(list)@) == pairs(old(list)@).push((key@, value@)),
{
    list.push((key.to_owned(), value.to_owned()));
    proof {
        assert(pairs(list@) =~= pairs(old(list)@).push((key@, value@)));
    }
}

/// A copy of a list of pairs.
pub fn copy_pairs(list: &Vec<(String, String)>) -> (r: Vec<(String, String)>)
    ensures
        pairs(r@) == pairs(list@),
{
    let mut out: Vec<(String, String)> = Vec::new();
    let mut i: usize = 0;
    while i < list.len()
        invariant
            i <= list@.len(),
            pairs(out@) == pairs(list@.take(i as int)),
        decreases list@.len() - i,
    {
        push_pair(&mut out, list[i].0.as_str(), list[i].1.as_str());
        proof {
            assert(pairs(list@.take(i + 1)) =~= pairs(list@.take(i as int)).push(
                pairs(list@)[i as int],
            ));
        }
        i += 1;
    }
    proof {
        assert(list@.take(i as int) =~= list@);
    }
    out
}

/// Whether `s` is one of the strings of `list`.
pub fn lists_text(list: &Vec<String>, s: &str) -> (r: bool)
    ensures
        r == texts(list@).contains(s@),
{
    let mut i: usize = 0;
    while i < list.len()
        invariant
            i <= list@.len(),
            forall|k: int| 0 <= k < i ==> texts(list@)[k] != s@,
        decreases list@.len() - i,
    {
        if same_text(list[i].as_str(), s) {
            proof {
                assert(texts(list@)[i as int] == s@);
            }
            return true;
        }
        i += 1;
    }
    false
}

/// Each text of a list followed by a line feed.
pub open spec fn lines_text(list: Seq<Seq<char>>) -> Seq<char>
    decreases list.len(),
{
    if list.len() == 0 {
        Seq::empty()
    } else {
        lines_text(list.drop_last()) + list.last().push('\n')
    }
}

/// Each string of `list` followed by a line feed.
pub fn join_lines(list: &Vec<String>) -> (r: String)
    ensures
        r@ == lines_text(texts(list@)),
{
    let mut out = String::new();
    let mut i: usize = 0;
    while i < list.len()
        invariant
            i <= list@.len(),
            out@ == lines_text(texts(list@.take(i as int))),
        decreases list@.len() - i,
    {
        out.append(list[i].as_str());
        out.push('\n');
        proof {
            let t = texts(list@.take(i + 1));
            assert(t.drop_last() =~= texts(list@.take(i as int)));
            assert(t.last() == list@[i as int]@);
            assert(lines_text(t) =~= out@);
        }
        i += 1;
    }
    proof {
        assert(list@.take(i as int) =~= list@);
    }
    out
}

/// A list of strings has one text for each string, in order.
pub proof fn law_texts_are_the_strings(list: Seq<String>, i: int)
    ensures
        texts(list).len() == list.len(),
        0 <= i < list.len() ==> texts(list)[i] == list[i]@,
{
}

/// A list of pairs has the two texts of each pair, in order.
pub proof fn law_pairs_are_the_strings(list: Seq<(String, String)>, i: int)
    ensures
        pairs(list).len() == list.len(),
        0 <= i < list.len() ==> pairs(list)[i] == (list[i].0@, list[i].1@),
{
}

/// An optional string has a text exactly where it is there, and that text is its own.
pub proof fn law_optional_text_is_the_string(s: Option<String>)
    ensures
        optional_text(s) is Some <==> s is Some,
        s matches Some(t) ==> optional_text(s) == Some(t@),
{
}

/// Lower case moves the letters `A` to `Z` by thirty-two code points and keeps every other
/// character, at every place.
pub proof fn law_lower_moves_capitals_alone(s: Seq<char>, i: int)
    ensures
        lower(s).len() == s.len(),
        0 <= i < s.len() && 65 <= s[i] as int <= 90 ==> lower(s)[i] as int == s[i] as int + 32,
        0 <= i < s.len() && !(65 <= s[i] as int <= 90) ==> lower(s)[i] == s[i],
{
}

/// White space is these twenty-five code points.
pub proof fn law_white_space(c: char)
    ensures
        is_white(c) <==> {
            let u = c as int;
            ||| 9 <= u <= 13
            ||| u == 32
            ||| u == 133
            ||| u == 160
            ||| u == 5760
            ||| 8192 <= u <= 8202
            ||| u == 8232
            ||| u == 8233
            ||| u == 8239
            ||| u == 8287
            ||| u == 12288
        },
{
}

/// Whether every character of a text is white space.
pub open spec fn all_white(s: Seq<char>) -> bool {
    forall|i: int| 0 <= i < s.len() ==> is_white(#[trigger] s[i])
}

/// White space before a text does not count.
pub proof fn lemma_trim_start_skips(pre: Seq<char>, s: Seq<char>)
    requires
        all_white(pre),
    ensures
        trim_start(pre + s) == trim_start(s),
    decreases pre.len(),
{
    if pre.len() == 0 {
        assert(pre + s =~= s);
    } else {
        assert((pre + s)[0] == pre[0]);
        assert((pre + s).skip(1) =~= pre.skip(1) + s);
        assert(all_white(pre.skip(1)));
        lemma_trim_start_skips(pre.skip(1), s);
    }
}

/// White space after a text does not count.
pub proof fn lemma_trim_end_skips(s: Seq<char>, post: Seq<char>)
    requires
        all_white(post),
    ensures
        trim_end(s + post) == trim_end(s),
    decreases post.len(),
{
    if post.len() == 0 {
        assert(s + post =~= s);
    } else {
        assert((s + post).last() == post.last());
        assert(post[post.len() - 1] == post.last());
        assert((s + post).drop_last() =~= s + post.drop_last());
        assert(all_white(post.drop_last()));
        lemma_trim_end_skips(s, post.drop_last());
    }
}

/// Trimming takes away the white space around a text and nothing else: a text that starts and ends
/// with other characters comes back as it is from between any white space, and white space alone
/// leaves nothing.
pub proof fn law_trim_takes_white_space_alone(pre: Seq<char>, s: Seq<char>, post: Seq<char>)
    requires
        all_white(pre),
        all_white(post),
        s.len() > 0 ==> !is_white(s[0]) && !is_white(s.last()),
    ensures
        trim(pre + s + post) == s,
{
    if s.len() > 0 {
        assert(pre + s + post =~= pre + (s + post));
        lemma_trim_start_skips(pre, s + post);
        assert((s + post)[0] == s[0]);
        assert(trim_start(s + post) == s + post);
        lemma_trim_end_skips(s, post);
    } else {
        let all = pre + s + post;
        assert(all_white(all)) by {
            assert forall|i: int| 0 <= i < all.len() implies is_white(#[trigger] all[i]) by {
                if i < pre.len() {
                    assert(all[i] == pre[i]);
                } else {
                    assert(all[i] == post[i - pre.len()]);
                }
            }
        }
        lemma_trim_start_skips(all, s);
        assert(all + s =~= all);
        assert(trim(all) =~= s);
    }
}

/// Trimming the start of a text takes away the white space that it starts with and nothing else.
pub proof fn law_trim_start_takes_white_space_alone(pre: Seq<char>, s: Seq<char>)
    requires
        all_white(pre),
        s.len() > 0 ==> !is_white(s[0]),
    ensures
        trim_start(pre + s) == s,
{
    lemma_trim_start_skips(pre, s);
}

/// A digit is one of ten code points.
pub proof fn law_digit(c: char)
    ensures
        is_digit(c) <==> 48 <= c as int <= 57,
{
}

/// A run of digits is read from the left, ten times what came before with each digit; no digits
/// read as zero.
pub proof fn law_digits_are_read_from_the_left(s: Seq<char>, c: char)
    requires
        48 <= c as int <= 57,
    ensures
        digits_value(Seq::<char>::empty()) == 0,
        digits_value(s.push(c)) == 10 * digits_value(s) + (c as int - 48),
{
    assert(s.push(c).drop_last() =~= s);
}

/// Digits are a number where they fit, with or without one plus sign before them.
pub proof fn law_digits_are_a_number(d: Seq<char>, max: nat)
    requires
        d.len() > 0,
        forall|i: int| 0 <= i < d.len() ==> 48 <= #[trigger] d[i] as int <= 57,
    ensures
        digits_value(d) <= max ==> unsigned_value(d, max) == Some(digits_value(d)),
        digits_value(d) > max ==> unsigned_value(d, max) is None,
        unsigned_value(seq!['+'] + d, max) == unsigned_value(d, max),
{
    assert(all_digits(d));
    assert(d[0] != '+');
    assert((seq!['+'] + d).skip(1) =~= d);
}

/// Nothing but digits, with or without one plus sign before them, is a number.
pub proof fn law_a_number_is_digits(s: Seq<char>, max: nat)
    requires
        unsigned_value(s, max) is Some,
    ensures
        exists|d: Seq<char>|
            (s == d || s == seq!['+'] + d) && d.len() > 0 && unsigned_value(s, max) == Some(
                digits_value(d),
            ) && (forall|i: int| 0 <= i < d.len() ==> 48 <= #[trigger] d[i] as int <= 57)
            && #[trigger] digits_value(d) <= max,
{
    let d = without_plus(s);
    if s.len() > 0 && s[0] == '+' {
        assert(s =~= seq!['+'] + d);
    }
    assert(digits_value(d) <= max);
}

/// A number in decimal is digits without a leading zero that read back as the number.
pub proof fn law_decimal_is_the_number(n: nat)
    ensures
        decimal(n).len() > 0,
        forall|i: int| 0 <= i < decimal(n).len() ==> 48 <= #[trigger] decimal(n)[i] as int <= 57,
        digits_value(decimal(n)) == n,
        n > 0 ==> decimal(n)[0] != '0',
        n == 0 ==> decimal(n) == seq!['0'],
    decreases n,
{
    lemma_decimal_reads_back(n);
    assert forall|i: int| 0 <= i < decimal(n).len() implies 48 <= #[trigger] decimal(n)[i] as int
        <= 57 by {
        assert(is_digit(decimal(n)[i]));
    }
    if n >= 10 {
        law_decimal_is_the_number(n / 10);
        assert(decimal(n)[0] == decimal(n / 10)[0]);
    }
}

/// A number in hexadecimal is written from the left, with the digits `0` to `9` and `a` to `f`, and
/// without a leading zero.
pub proof fn law_hexadecimal_is_the_number(n: nat, d: nat)
    requires
        d < 16,
    ensures
        n > 0 ==> hexadecimal(16 * n + d) == hexadecimal(n).push("0123456789abcdef"@[d as int]),
        hexadecimal(d) == seq!["0123456789abcdef"@[d as int]],
{
    reveal_strlit("0123456789abcdef");
    assert((16 * n + d) / 16 == n);
    assert((16 * n + d) % 16 == d);
}

/// The hexadecimal digit of a number below sixteen.
pub proof fn law_hex_digit(d: nat)
    requires
        d < 16,
    ensures
        hex_char(d) == "0123456789abcdef"@[d as int],
{
    reveal_strlit("0123456789abcdef");
}

/// What follows a prefix is what stands behind it; a text that does not start with it has nothing
/// that follows.
pub proof fn law_after_prefix(s: Seq<char>, prefix: Seq<char>, rest: Seq<char>)
    ensures
        after_prefix(prefix + rest, prefix) == Some(rest),
        after_prefix(s, prefix) is Some ==> s == prefix + after_prefix(s, prefix)->0,
{
    assert((prefix + rest).subrange(0, prefix.len() as int) =~= prefix);
    assert((prefix + rest).skip(prefix.len() as int) =~= rest);
    if prefix.is_prefix_of(s) {
        assert(s =~= prefix + s.skip(prefix.len() as int));
    }
}

/// A word ends where white space follows it, or the text ends.
proof fn lemma_word_len(w: Seq<char>, rest: Seq<char>)
    requires
        forall|i: int| 0 <= i < w.len() ==> !is_white(#[trigger] w[i]),
        rest.len() > 0 ==> is_white(rest[0]),
    ensures
        word_len(w + rest) == w.len(),
    decreases w.len(),
{
    if w.len() == 0 {
        assert(w + rest =~= rest);
    } else {
        assert((w + rest)[0] == w[0]);
        assert((w + rest).skip(1) =~= w.skip(1) + rest);
        assert forall|i: int| 0 <= i < w.skip(1).len() implies !is_white(
            #[trigger] w.skip(1)[i],
        ) by {
            assert(w.skip(1)[i] == w[i + 1]);
        }
        lemma_word_len(w.skip(1), rest);
    }
}

/// The words of a text are its runs of other characters than white space, in order: white space at
/// the start does not count, a run that ends the text or stands before white space is a word, and
/// the words of what follows come after it.
pub proof fn law_words_are_the_runs(pre: Seq<char>, w: Seq<char>, rest: Seq<char>)
    requires
        all_white(pre),
        forall|i: int| 0 <= i < w.len() ==> !is_white(#[trigger] w[i]),
        rest.len() > 0 ==> is_white(rest[0]),
    ensures
        words(pre) == Seq::<Seq<char>>::empty(),
        w.len() > 0 ==> words(pre + w + rest) == seq![w] + words(rest),
        w.len() == 0 ==> words(pre + w + rest) == words(rest),
{
    let none = Seq::<char>::empty();
    lemma_trim_start_skips(pre, none);
    assert(pre + none =~= pre);
    assert(pre + w + rest =~= pre + (w + rest));
    lemma_trim_start_skips(pre, w + rest);
    let all = pre + w + rest;
    if w.len() > 0 {
        let t = w + rest;
        assert(t[0] == w[0]);
        assert(trim_start(t) == t);
        lemma_word_len(w, rest);
        assert(t.take(w.len() as int) =~= w);
        assert(t.skip(w.len() as int) =~= rest);
        assert(words(all) == seq![w] + words(rest));
    } else {
        assert(w + rest =~= rest);
        assert(trim_start(all) == trim_start(rest));
        lemma_trim_start_len(rest);
    }
}

/// Each line of a list is followed by a line feed, in order; no lines are no text.
pub proof fn law_lines_end_with_a_line_feed(list: Seq<Seq<char>>, line: Seq<char>)
    ensures
        lines_text(Seq::<Seq<char>>::empty()) == Seq::<char>::empty(),
        lines_text(list.push(line)) == lines_text(list) + line + "\n"@,
{
    reveal_strlit("\n");
    assert(list.push(line).drop_last() =~= list);
    assert(lines_text(list.push(line)) =~= lines_text(list) + line + "\n"@);
}

} // verus!
