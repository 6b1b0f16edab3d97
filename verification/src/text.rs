//! Characters, strings and the whitespace classes that the readers and the text
//! bindings rely on.
use vstd::prelude::*;

verus! {

/// Whitespace that separates tokens in markup and style sheets.
pub open spec fn is_space(c: char) -> bool {
    c == ' ' || c == '\t' || c == '\n' || c == '\r'
}

/// The Unicode `White_Space` property, the class that `str::trim` removes.
pub open spec fn is_white_space(c: char) -> bool {
    let n = c as u32;
    (0x09 <= n && n <= 0x0d) || n == 0x20 || n == 0x85 || n == 0xa0 || n == 0x1680
        || (0x2000 <= n && n <= 0x200a) || n == 0x2028 || n == 0x2029 || n == 0x202f
        || n == 0x205f || n == 0x3000
}

pub open spec fn is_ascii_digit(c: char) -> bool {
    '0' <= c && c <= '9'
}

pub open spec fn is_ascii_alpha(c: char) -> bool {
    ('a' <= c && c <= 'z') || ('A' <= c && c <= 'Z')
}

pub open spec fn is_hex_digit(c: char) -> bool {
    is_ascii_digit(c) || ('a' <= c && c <= 'f') || ('A' <= c && c <= 'F')
}

pub fn space(c: char) -> (b: bool)
    ensures
        b == is_space(c),
{
    c == ' ' || c == '\t' || c == '\n' || c == '\r'
}

pub fn white_space(c: char) -> (b: bool)
    ensures
        b == is_white_space(c),
{
    let n = c as u32;
    (0x09 <= n && n <= 0x0d) || n == 0x20 || n == 0x85 || n == 0xa0 || n == 0x1680 || (0x2000
        <= n && n <= 0x200a) || n == 0x2028 || n == 0x2029 || n == 0x202f || n == 0x205f || n
        == 0x3000
}

pub fn ascii_digit(c: char) -> (b: bool)
    ensures
        b == is_ascii_digit(c),
{
    '0' <= c && c <= '9'
}

pub fn ascii_alpha(c: char) -> (b: bool)
    ensures
        b == is_ascii_alpha(c),
{
    ('a' <= c && c <= 'z') || ('A' <= c && c <= 'Z')
}

/// Appends one character to a string with `String::push`; the contract claims that the
/// string afterwards is the one before with `c` at its end.
#[verifier::external_body]
pub(crate) fn push_char(s: &mut String, c: char)
    ensures
        final(s)@ == old(s)@.push(c),
{
    s.push(c);
}

/// Removes the last character of a string with `String::pop`; the contract claims that it
/// returns that character and drops it, and leaves an empty string as it is.
#[verifier::external_body]
pub(crate) fn pop_char(s: &mut String) -> (c: Option<char>)
    ensures
        old(s)@.len() == 0 ==> c is None && final(s)@ == old(s)@,
        old(s)@.len() > 0 ==> c == Some(old(s)@.last()) && final(s)@ == old(s)@.drop_last(),
{
    s.pop()
}

/// The characters of a string, one element each.
pub fn chars_of(s: &str) -> (v: Vec<char>)
    ensures
        v@ == s@,
{
    let mut v: Vec<char> = Vec::new();
    for c in iter: s.chars()
        invariant
            v@ == iter.seq().take(iter.index() as int),
    {
        v.push(c);
    }
    v
}

/// The string made of `s[from..to]`.
pub fn string_from(s: &[char], from: usize, to: usize) -> (r: String)
    requires
        from <= to <= s@.len(),
    ensures
        r@ == s@.subrange(from as int, to as int),
{
    let mut r = String::new();
    let mut i = from;
    while i < to
        invariant
            from <= i <= to <= s@.len(),
            r@ == s@.subrange(from as int, i as int),
        decreases to - i,
    {
        push_char(&mut r, s[i]);
        assert(s@.subrange(from as int, i + 1) == s@.subrange(from as int, i as int).push(s@[i as int]));
        i = i + 1;
    }
    r
}

/// The string made of all characters of `s`.
pub fn string_of(s: &[char]) -> (r: String)
    ensures
        r@ == s@,
{
    let r = string_from(s, 0, s.len());
    assert(s@.subrange(0, s@.len() as int) == s@);
    r
}

} // verus!

verus! {

/// The first position at or after `i` that does not hold Unicode whitespace.
pub open spec fn first_non_white(t: Seq<char>, i: int) -> int
    decreases t.len() - i,
{
    if 0 <= i < t.len() && is_white_space(t[i]) {
        first_non_white(t, i + 1)
    } else {
        i
    }
}

/// The position after the last character of `t[..e]` that is not Unicode whitespace
/// (0 where there is none).
pub open spec fn last_non_white_end(t: Seq<char>, e: int) -> int
    decreases e,
{
    if 0 < e <= t.len() && is_white_space(t[e - 1]) {
        last_non_white_end(t, e - 1)
    } else {
        e
    }
}

/// `str::trim_start`: the text without its leading whitespace.
pub open spec fn trim_start(t: Seq<char>) -> Seq<char> {
    t.subrange(first_non_white(t, 0), t.len() as int)
}

/// `str::trim`: the text without its leading and trailing whitespace.
pub open spec fn trim(t: Seq<char>) -> Seq<char> {
    let a = first_non_white(t, 0);
    if a == t.len() {
        Seq::empty()
    } else {
        t.subrange(a, last_non_white_end(t, t.len() as int))
    }
}

pub proof fn lemma_first_non_white(t: Seq<char>, i: int)
    requires
        0 <= i <= t.len(),
    ensures
        i <= first_non_white(t, i) <= t.len(),
        forall|j: int| i <= j < first_non_white(t, i) ==> is_white_space(#[trigger] t[j]),
        first_non_white(t, i) < t.len() ==> !is_white_space(t[first_non_white(t, i)]),
    decreases t.len() - i,
{
    if i < t.len() && is_white_space(t[i]) {
        lemma_first_non_white(t, i + 1);
    }
}

pub proof fn lemma_last_non_white_end(t: Seq<char>, e: int)
    requires
        0 <= e <= t.len(),
    ensures
        0 <= last_non_white_end(t, e) <= e,
        forall|j: int| last_non_white_end(t, e) <= j < e ==> is_white_space(#[trigger] t[j]),
        last_non_white_end(t, e) > 0 ==> !is_white_space(t[last_non_white_end(t, e) - 1]),
    decreases e,
{
    if 0 < e && is_white_space(t[e - 1]) {
        lemma_last_non_white_end(t, e - 1);
    }
}

/// The first position at or after `i` that holds a line break (the length where none).
pub open spec fn line_end(t: Seq<char>, i: int) -> int
    decreases t.len() - i,
{
    if 0 <= i < t.len() && t[i] != '\n' {
        line_end(t, i + 1)
    } else {
        i
    }
}

pub broadcast proof fn lemma_line_end(t: Seq<char>, i: int)
    ensures
        i <= #[trigger] line_end(t, i),
        0 <= i <= t.len() ==> line_end(t, i) <= t.len(),
        forall|j: int| i <= j < line_end(t, i) ==> t[j] != '\n',
        0 <= i && line_end(t, i) < t.len() ==> t[line_end(t, i)] == '\n',
    decreases t.len() - i,
{
    if 0 <= i < t.len() && t[i] != '\n' {
        lemma_line_end(t, i + 1);
    }
}


/// The first position in `i..e` that does not hold Unicode whitespace (`e` where none).
pub open spec fn white_end(t: Seq<char>, i: int, e: int) -> int
    decreases e - i,
{
    if 0 <= i < e && i < t.len() && is_white_space(t[i]) {
        white_end(t, i + 1, e)
    } else {
        i
    }
}

pub broadcast proof fn lemma_white_end(t: Seq<char>, i: int, e: int)
    ensures
        i <= e ==> i <= #[trigger] white_end(t, i, e) <= e,
    decreases e - i,
{
    if 0 <= i < e && i < t.len() && is_white_space(t[i]) {
        lemma_white_end(t, i + 1, e);
    }
}

} // verus!

verus! {

/// Whether two strings hold the same characters.
pub fn str_eq(a: &str, b: &str) -> (r: bool)
    ensures
        r == (a@ == b@),
{
    let x = chars_of(a);
    let y = chars_of(b);
    if x.len() != y.len() {
        return false;
    }
    let mut k: usize = 0;
    while k < x.len()
        invariant
            x@ == a@,
            y@ == b@,
            x@.len() == y@.len(),
            k <= x@.len(),
            forall|j: int| 0 <= j < k ==> #[trigger] x@[j] == y@[j],
        decreases x@.len() - k,
    {
        if x[k] != y[k] {
            return false;
        }
        k = k + 1;
    }
    assert(x@ =~= y@);
    true
}

} // verus!

verus! {

/// The parts written one after another with `sep` between each two (`[String]::join`).
pub open spec fn joined(parts: Seq<Seq<char>>, sep: Seq<char>) -> Seq<char>
    decreases parts.len(),
{
    if parts.len() == 0 {
        Seq::empty()
    } else if parts.len() == 1 {
        parts[0]
    } else {
        joined(parts.drop_last(), sep) + sep + parts.last()
    }
}

/// Appends the characters of `t` to `s`.
pub fn push_all(s: &mut String, t: &str)
    ensures
        final(s)@ == old(s)@ + t@,
{
    let cs = chars_of(t);
    let mut k: usize = 0;
    while k < cs.len()
        invariant
            cs@ == t@,
            k <= cs@.len(),
            s@ == old(s)@ + cs@.subrange(0, k as int),
        decreases cs@.len() - k,
    {
        push_char(s, cs[k]);
        assert(cs@.subrange(0, k + 1) =~= cs@.subrange(0, k as int).push(cs@[k as int]));
        k = k + 1;
    }
    assert(cs@.subrange(0, cs@.len() as int) =~= cs@);
}

/// The strings `parts[from..]` joined with `sep`, see [`joined`].
pub fn join(parts: &[String], from: usize, sep: &str) -> (r: String)
    requires
        from <= parts@.len(),
    ensures
        r@ == joined(parts@.subrange(from as int, parts@.len() as int).map_values(|p: String| p@), sep@),
{
    let ghost all = parts@.map_values(|p: String| p@);
    let mut r = String::new();
    let mut k = from;
    while k < parts.len()
        invariant
            from <= k <= parts@.len(),
            all == parts@.map_values(|p: String| p@),
            r@ == joined(all.subrange(from as int, k as int), sep@),
        decreases parts@.len() - k,
    {
        let ghost before = all.subrange(from as int, k as int);
        if k > from {
            push_all(&mut r, sep);
        }
        push_all(&mut r, parts[k].as_str());
        proof {
            let next = all.subrange(from as int, k + 1);
            assert(next.drop_last() =~= before);
            assert(next.last() == parts@[k as int]@);
            if k == from {
                assert(before.len() == 0);
                assert(Seq::<char>::empty() + parts@[k as int]@ =~= parts@[k as int]@);
            }
        }
        k = k + 1;
    }
    assert(all.subrange(from as int, parts@.len() as int) =~= parts@.subrange(from as int, parts@.len() as int).map_values(|p: String| p@));
    r
}

/// The characters of `s` without their leading and trailing whitespace, see [`trim`].
pub fn trimmed(s: &[char]) -> (r: String)
    ensures
        r@ == trim(s@),
{
    let mut a: usize = 0;
    while a < s.len() && white_space(s[a])
        invariant
            a <= s@.len(),
            first_non_white(s@, 0) == first_non_white(s@, a as int),
        decreases s@.len() - a,
    {
        a = a + 1;
    }
    if a == s.len() {
        return String::new();
    }
    let mut b: usize = s.len();
    while b > 0 && white_space(s[b - 1])
        invariant
            b <= s@.len(),
            last_non_white_end(s@, s@.len() as int) == last_non_white_end(s@, b as int),
        decreases b,
    {
        b = b - 1;
    }
    proof {
        lemma_last_non_white_end(s@, b as int);
        assert(!is_white_space(s@[a as int]));
        assert(a < b) by {
            if b <= a {
                lemma_last_non_white_end(s@, s@.len() as int);
            }
        }
    }
    string_from(s, a, b)
}

} // verus!

verus! {

/// Joining splits at the first part as well as at the last one.
pub proof fn lemma_joined_front(parts: Seq<Seq<char>>, sep: Seq<char>)
    requires
        parts.len() > 1,
    ensures
        joined(parts, sep) == parts[0] + sep + joined(parts.subrange(1, parts.len() as int), sep),
    decreases parts.len(),
{
    let rest = parts.subrange(1, parts.len() as int);
    if parts.len() == 2 {
        assert(rest.len() == 1);
        assert(joined(parts.drop_last(), sep) == parts[0]);
    } else {
        let shorter = parts.drop_last();
        lemma_joined_front(shorter, sep);
        assert(shorter.subrange(1, shorter.len() as int) =~= rest.drop_last());
        assert(rest.last() == parts.last());
        assert(joined(rest, sep) == joined(rest.drop_last(), sep) + sep + rest.last());
    }
}

/// Trimmed text neither starts nor ends with whitespace.
pub proof fn law_trim_leaves_no_whitespace(t: Seq<char>)
    ensures
        trim(t).len() > 0 ==> !is_white_space(trim(t)[0]) && !is_white_space(trim(t).last()),
{
    lemma_first_non_white(t, 0);
    lemma_last_non_white_end(t, t.len() as int);
    let a = first_non_white(t, 0);
    if a < t.len() {
        let b = last_non_white_end(t, t.len() as int);
        assert(a < b) by {
            if b <= a {
                assert(is_white_space(t[a]));
            }
        }
    }
}

} // verus!
