//! Character-level helpers on strings: reading a string's characters,
//! building strings, splitting, searching, and the order of names.

use vstd::prelude::*;
use crate::outside::push_char;

verus! {

/// A result of strings as a result of character sequences.
pub open spec fn result_view(r: Result<String, String>) -> Result<Seq<char>, Seq<char>> {
    match r {
        Ok(s) => Ok(s@),
        Err(e) => Err(e@),
    }
}

/// The characters of each string of a sequence.
pub open spec fn string_views(v: Seq<String>) -> Seq<Seq<char>> {
    Seq::new(v.len(), |i: int| v[i]@)
}

/// The characters that are dropped from typed-in keys and hex text.
pub open spec fn is_blank(c: char) -> bool {
    c == ' ' || c == '\t' || c == '\n' || c == '\r'
}

/// A string without its blank characters (space, tab, line feed, carriage return).
pub open spec fn strip_blanks(s: Seq<char>) -> Seq<char>
    decreases s.len(),
{
    if s.len() == 0 {
        Seq::empty()
    } else if is_blank(s.last()) {
        strip_blanks(s.drop_last())
    } else {
        strip_blanks(s.drop_last()).push(s.last())
    }
}

/// The pieces of `s` between the occurrences of `sep`, in order; a string
/// with `n` separators has `n + 1` pieces, empty ones included.
pub open spec fn split_on(s: Seq<char>, sep: char) -> Seq<Seq<char>>
    decreases s.len(),
{
    if s.len() == 0 {
        seq![Seq::empty()]
    } else {
        let prev = split_on(s.drop_last(), sep);
        if s.last() == sep {
            prev.push(Seq::empty())
        } else {
            prev.update(prev.len() - 1, prev.last().push(s.last()))
        }
    }
}

/// `needle` occurs in `hay` as a run of consecutive characters.
pub open spec fn contains_seq(hay: Seq<char>, needle: Seq<char>) -> bool {
    exists|i: int| 0 <= i <= hay.len() - needle.len() && #[trigger] hay.subrange(i, i + needle.len()) == needle
}

/// Strict lexicographic order of two names, character by character.
pub open spec fn name_lt(a: Seq<char>, b: Seq<char>) -> bool
    decreases a.len(),
{
    if a.len() == 0 {
        b.len() > 0
    } else if b.len() == 0 {
        false
    } else if a[0] == b[0] {
        name_lt(a.drop_first(), b.drop_first())
    } else {
        a[0] < b[0]
    }
}

/// Splitting gives at least one piece.
pub proof fn lemma_split_on_nonempty(s: Seq<char>, sep: char)
    ensures
        split_on(s, sep).len() >= 1,
    decreases s.len(),
{
    if s.len() > 0 {
        lemma_split_on_nonempty(s.drop_last(), sep);
    }
}

/// No name comes before itself.
pub proof fn lemma_name_lt_irreflexive(a: Seq<char>)
    ensures
        !name_lt(a, a),
    decreases a.len(),
{
    if a.len() > 0 {
        lemma_name_lt_irreflexive(a.drop_first());
    }
}

/// Of two names, one comes first or they are the same.
pub proof fn lemma_name_lt_total(a: Seq<char>, b: Seq<char>)
    ensures
        a == b || name_lt(a, b) || name_lt(b, a),
        !(name_lt(a, b) && name_lt(b, a)),
    decreases a.len(),
{
    if a.len() > 0 && b.len() > 0 && a[0] == b[0] {
        lemma_name_lt_total(a.drop_first(), b.drop_first());
        if a.drop_first() == b.drop_first() {
            assert(a == seq![a[0]] + a.drop_first());
            assert(b == seq![b[0]] + b.drop_first());
        }
    }
    if a.len() == 0 && b.len() == 0 {
        assert(a == b);
    }
}

/// The order of names is transitive.
pub proof fn lemma_name_lt_transitive(a: Seq<char>, b: Seq<char>, c: Seq<char>)
    requires
        name_lt(a, b),
        name_lt(b, c),
    ensures
        name_lt(a, c),
    decreases a.len(),
{
    if a.len() > 0 && b.len() > 0 && c.len() > 0 && a[0] == b[0] && b[0] == c[0] {
        lemma_name_lt_transitive(a.drop_first(), b.drop_first(), c.drop_first());
    }
}

/// The text of an optional string.
pub open spec fn opt_str_view(o: Option<String>) -> Option<Seq<char>> {
    match o {
        Some(s) => Some(s@),
        None => None,
    }
}

/// The bytes of an optional byte vector.
pub open spec fn opt_bytes_view(o: Option<Vec<u8>>) -> Option<Seq<u8>> {
    match o {
        Some(v) => Some(v@),
        None => None,
    }
}

/// Appends the characters of `t` to `s`.
pub fn append_str(s: &mut String, t: &str)
    ensures
        final(s)@ == old(s)@ + t@,
{
    let ghost s0 = s@;
    for c in it: t.chars()
        invariant
            it.seq() == t@,
            s@ == s0 + t@.take(it.index() as int),
    {
        let ghost k = it.index();
        push_char(s, c);
        assert(t@.take(k + 1) == t@.take(k as int).push(c));
    }
    assert(t@.take(t@.len() as int) == t@);
}

/// `a` followed by `b`.
pub fn concat(a: &str, b: &str) -> (r: String)
    ensures
        r@ == a@ + b@,
{
    let mut r = a.to_owned();
    append_str(&mut r, b);
    r
}

/// Whether `i` is where `sep` first occurs in `s`.
pub open spec fn first_at(s: Seq<char>, sep: char, i: int) -> bool {
    &&& 0 <= i < s.len()
    &&& s[i] == sep
    &&& forall|j: int| 0 <= j < i ==> s[j] != sep
}

/// The parts of `s` before and after its first `sep`, if it holds one.
pub open spec fn split_first(s: Seq<char>, sep: char) -> Option<(Seq<char>, Seq<char>)> {
    if s.contains(sep) {
        let i = choose|i: int| first_at(s, sep, i);
        Some((s.take(i), s.skip(i + 1)))
    } else {
        None
    }
}

/// The parts of `s` before and after its first `sep`, if it holds one.
pub fn split_once_char(s: &str, sep: char) -> (r: Option<(String, String)>)
    ensures
        match r {
            Some((a, b)) => split_first(s@, sep) == Some((a@, b@)),
            None => split_first(s@, sep) is None,
        },
{
    let chars = chars_of(s);
    let mut i: usize = 0;
    while i < chars.len()
        invariant
            i <= chars@.len(),
            chars@ == s@,
            forall|j: int| 0 <= j < i ==> chars@[j] != sep,
        decreases chars@.len() - i,
    {
        if chars[i] == sep {
            proof {
                assert(s@[i as int] == sep);
                assert(s@.contains(sep));
                assert(first_at(s@, sep, i as int));
                let k = choose|k: int| first_at(s@, sep, k);
                assert(k == i) by {
                    if k < i {
                        assert(chars@[k] != sep);
                    }
                    if k > i {
                        assert(s@[i as int] == sep);
                    }
                }
            }
            let before = string_of_chars(vstd::slice::slice_subrange(chars.as_slice(), 0, i));
            let after = string_of_chars(vstd::slice::slice_subrange(chars.as_slice(), i + 1, chars.len()));
            proof {
                assert(s@.take(i as int) =~= chars@.subrange(0, i as int));
                assert(s@.skip(i + 1) =~= chars@.subrange(i + 1, chars@.len() as int));
            }
            return Some((before, after));
        }
        i += 1;
    }
    proof {
        assert(!s@.contains(sep)) by {
            if s@.contains(sep) {
                let k = choose|k: int| 0 <= k < s@.len() && s@[k] == sep;
                assert(chars@[k] != sep);
            }
        }
    }
    None
}

/// The characters of `s`, in order.
pub fn chars_of(s: &str) -> (v: Vec<char>)
    ensures
        v@ == s@,
{
    let mut v: Vec<char> = Vec::new();
    for c in it: s.chars()
        invariant
            v@ == it.seq().take(it.index() as int),
            it.seq() == s@,
    {
        v.push(c);
    }
    v
}

/// A string made of the characters of `chars`.
pub fn string_of_chars(chars: &[char]) -> (s: String)
    ensures
        s@ == chars@,
{
    let mut s = String::new();
    let mut i: usize = 0;
    while i < chars.len()
        invariant
            i <= chars.len(),
            s@ == chars@.take(i as int),
        decreases chars.len() - i,
    {
        push_char(&mut s, chars[i]);
        i += 1;
        assert(chars@.take(i as int) == chars@.take(i - 1).push(chars@[i - 1]));
    }
    assert(chars@.take(chars.len() as int) == chars@);
    s
}

/// `s` without its blank characters.
pub fn remove_blanks(s: &str) -> (r: String)
    ensures
        r@ == strip_blanks(s@),
{
    let chars = chars_of(s);
    let mut r = String::new();
    let mut i: usize = 0;
    while i < chars.len()
        invariant
            i <= chars.len(),
            chars@ == s@,
            r@ == strip_blanks(chars@.take(i as int)),
        decreases chars.len() - i,
    {
        let c = chars[i];
        assert(chars@.take(i + 1).drop_last() == chars@.take(i as int));
        if !(c == ' ' || c == '\t' || c == '\n' || c == '\r') {
            push_char(&mut r, c);
        }
        i += 1;
    }
    assert(chars@.take(chars.len() as int) == chars@);
    r
}

/// The pieces of `s` between the `sep` characters.
pub fn split_chars(s: &str, sep: char) -> (parts: Vec<String>)
    ensures
        parts@.len() == split_on(s@, sep).len(),
        forall|i: int| 0 <= i < parts@.len() ==> #[trigger] parts@[i]@ == split_on(s@, sep)[i],
{
    let chars = chars_of(s);
    let mut parts: Vec<String> = Vec::new();
    let mut cur = String::new();
    let mut i: usize = 0;
    while i < chars.len()
        invariant
            i <= chars.len(),
            chars@ == s@,
            parts@.len() + 1 == split_on(chars@.take(i as int), sep).len(),
            forall|j: int| 0 <= j < parts@.len() ==> #[trigger] parts@[j]@ == split_on(chars@.take(i as int), sep)[j],
            cur@ == split_on(chars@.take(i as int), sep).last(),
        decreases chars.len() - i,
    {
        let c = chars[i];
        let ghost prev = split_on(chars@.take(i as int), sep);
        proof {
            lemma_split_on_nonempty(chars@.take(i as int), sep);
            assert(chars@.take(i + 1).drop_last() == chars@.take(i as int));
        }
        if c == sep {
            parts.push(cur);
            cur = String::new();
        } else {
            push_char(&mut cur, c);
        }
        i += 1;
    }
    assert(chars@.take(chars.len() as int) == chars@);
    parts.push(cur);
    parts
}

/// Whether the characters of `needle` start at position `at` of `hay`.
fn occurs_at(hay: &Vec<char>, needle: &Vec<char>, at: usize) -> (b: bool)
    requires
        at + needle.len() <= hay.len(),
    ensures
        b == (hay@.subrange(at as int, at + needle.len()) == needle@),
{
    let mut j: usize = 0;
    while j < needle.len()
        invariant
            j <= needle.len(),
            at + needle.len() <= hay.len(),
            forall|k: int| 0 <= k < j ==> hay@[at + k] == needle@[k],
        decreases needle.len() - j,
    {
        if hay[at + j] != needle[j] {
            assert(hay@.subrange(at as int, at + needle.len())[j as int] != needle@[j as int]);
            return false;
        }
        j += 1;
    }
    assert(hay@.subrange(at as int, at + needle.len()) == needle@);
    true
}

/// Whether `needle` occurs in `hay`; the empty string occurs in every string.
pub fn contains_str(hay: &str, needle: &str) -> (b: bool)
    ensures
        b == contains_seq(hay@, needle@),
{
    let h = chars_of(hay);
    let n = chars_of(needle);
    if n.len() > h.len() {
        return false;
    }
    let last: usize = h.len() - n.len();
    let mut at: usize = 0;
    loop
        invariant
            last == h.len() - n.len(),
            at <= last,
            h@ == hay@,
            n@ == needle@,
            forall|k: int| 0 <= k < at ==> #[trigger] hay@.subrange(k, k + needle@.len()) != needle@,
        decreases last - at,
    {
        if occurs_at(&h, &n, at) {
            return true;
        }
        if at == last {
            return false;
        }
        at += 1;
    }
}

/// Whether `a` comes strictly before `b` in the order of names.
pub fn chars_less(a: &Vec<char>, b: &Vec<char>) -> (lt: bool)
    ensures
        lt == name_lt(a@, b@),
{
    let mut i: usize = 0;
    assert(a@.skip(0) == a@ && b@.skip(0) == b@);
    while i < a.len() && i < b.len() && a[i] == b[i]
        invariant
            i <= a.len(),
            i <= b.len(),
            name_lt(a@, b@) == name_lt(a@.skip(i as int), b@.skip(i as int)),
        decreases a.len() - i,
    {
        assert(a@.skip(i + 1) == a@.skip(i as int).drop_first());
        assert(b@.skip(i + 1) == b@.skip(i as int).drop_first());
        i += 1;
    }
    if i == a.len() {
        i < b.len()
    } else if i == b.len() {
        false
    } else {
        assert(a@.skip(i as int)[0] == a@[i as int]);
        assert(b@.skip(i as int)[0] == b@[i as int]);
        a[i] < b[i]
    }
}

/// The decimal digit `d`, for `d` below ten.
pub open spec fn digit_char(d: int) -> char {
    seq!['0', '1', '2', '3', '4', '5', '6', '7', '8', '9'][d]
}

/// `n` written in decimal, without leading zeros.
pub open spec fn decimal(n: nat) -> Seq<char>
    decreases n,
{
    if n < 10 {
        seq![digit_char(n as int)]
    } else {
        decimal(n / 10).push(digit_char((n % 10) as int))
    }
}

/// The decimal digit `d`.
fn digit(d: u64) -> (c: char)
    requires
        d < 10,
    ensures
        c == digit_char(d as int),
{
    match d {
        0 => '0',
        1 => '1',
        2 => '2',
        3 => '3',
        4 => '4',
        5 => '5',
        6 => '6',
        7 => '7',
        8 => '8',
        _ => '9',
    }
}

/// `n` written in decimal.
pub fn decimal_text(n: u64) -> (s: String)
    ensures
        s@ == decimal(n as nat),
    decreases n,
{
    if n < 10 {
        let mut s = String::new();
        push_char(&mut s, digit(n));
        assert(s@ =~= seq![digit_char(n as int)]);
        s
    } else {
        let mut s = decimal_text(n / 10);
        push_char(&mut s, digit(n % 10));
        s
    }
}

/// The bytes as a list of decimal numbers separated by ", ".
pub open spec fn byte_list(b: Seq<u8>) -> Seq<char>
    decreases b.len(),
{
    if b.len() == 0 {
        Seq::empty()
    } else if b.len() == 1 {
        decimal(b[0] as nat)
    } else {
        byte_list(b.drop_last()) + seq![',', ' '] + decimal(b.last() as nat)
    }
}

/// The bytes written as a list in square brackets, as Rust's debug form of
/// a byte slice writes them: `[104, 105]`.
pub open spec fn bytes_debug(b: Seq<u8>) -> Seq<char> {
    seq!['['] + byte_list(b) + seq![']']
}

/// The debug form of the bytes `b`.
pub fn bytes_debug_text(b: &[u8]) -> (s: String)
    ensures
        s@ == bytes_debug(b@),
{
    let mut s = String::new();
    push_char(&mut s, '[');
    let mut i: usize = 0;
    while i < b.len()
        invariant
            i <= b@.len(),
            s@ == seq!['['] + byte_list(b@.take(i as int)),
        decreases b@.len() - i,
    {
        let ghost s0 = s@;
        assert(b@.take(i + 1).drop_last() == b@.take(i as int));
        assert(b@.take(i + 1).last() == b@[i as int]);
        if i > 0 {
            push_char(&mut s, ',');
            push_char(&mut s, ' ');
        }
        let d = decimal_text(b[i] as u64);
        append_str(&mut s, d.as_str());
        proof {
            if i > 0 {
                assert(s@ =~= seq!['['] + byte_list(b@.take(i + 1)));
            } else {
                assert(s@ =~= seq!['['] + byte_list(b@.take(i + 1)));
            }
        }
        i += 1;
    }
    push_char(&mut s, ']');
    assert(b@.take(b@.len() as int) == b@);
    s
}

} // verus!
