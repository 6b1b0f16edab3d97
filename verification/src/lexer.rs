//! Runs of characters of one class, shared by the markup and style sheet readers.
use vstd::prelude::*;
use crate::text::{is_space, is_ascii_digit, is_ascii_alpha, is_hex_digit, space, ascii_digit, ascii_alpha};

verus! {

/// The classes of characters that tokens are made of.
#[derive(Clone, Copy, PartialEq, Eq, Debug)]
pub enum CharClass {
    /// Spaces, tabs and line breaks.
    Space,
    /// Names of tags and attributes: letters, digits, `-`, `_`, `:`.
    Name,
    /// Keys of binder paths and callback keywords: letters, digits, `-`, `_`.
    Key,
    /// Decimal digits.
    Digit,
    /// Hexadecimal digits.
    Hex,
    /// Text of the markup: anything but `<` and `{`.
    Text,
    /// Text of a double quoted value: anything but `"`.
    Quoted,
    /// Text of a bound attribute: anything but `"` and `{`.
    AttrText,
    /// An unquoted attribute value: anything but spaces, quotes, `=`, `<`, `>`, `` ` `` and `/`.
    Unquoted,
    /// Identifiers of style sheets: letters, digits, `-`, `_`.
    Ident,
    /// Letters.
    Alpha,
}

pub open spec fn in_class(c: char, k: CharClass) -> bool {
    match k {
        CharClass::Space => is_space(c),
        CharClass::Name => is_ascii_alpha(c) || is_ascii_digit(c) || c == '-' || c == '_' || c
            == ':',
        CharClass::Key => is_ascii_alpha(c) || is_ascii_digit(c) || c == '-' || c == '_',
        CharClass::Digit => is_ascii_digit(c),
        CharClass::Hex => is_hex_digit(c),
        CharClass::Text => c != '<' && c != '{',
        CharClass::Quoted => c != '"',
        CharClass::AttrText => c != '"' && c != '{',
        CharClass::Unquoted => !is_space(c) && c != '"' && c != '\'' && c != '=' && c != '<' && c
            != '>' && c != '`' && c != '/',
        CharClass::Ident => is_ascii_alpha(c) || is_ascii_digit(c) || c == '-' || c == '_',
        CharClass::Alpha => is_ascii_alpha(c),
    }
}

pub fn class_has(c: char, k: CharClass) -> (b: bool)
    ensures
        b == in_class(c, k),
{
    match k {
        CharClass::Space => space(c),
        CharClass::Name => ascii_alpha(c) || ascii_digit(c) || c == '-' || c == '_' || c == ':',
        CharClass::Key => ascii_alpha(c) || ascii_digit(c) || c == '-' || c == '_',
        CharClass::Digit => ascii_digit(c),
        CharClass::Hex => ascii_digit(c) || ('a' <= c && c <= 'f') || ('A' <= c && c <= 'F'),
        CharClass::Text => c != '<' && c != '{',
        CharClass::Quoted => c != '"',
        CharClass::AttrText => c != '"' && c != '{',
        CharClass::Unquoted => !space(c) && c != '"' && c != '\'' && c != '=' && c != '<' && c
            != '>' && c != '`' && c != '/',
        CharClass::Ident => ascii_alpha(c) || ascii_digit(c) || c == '-' || c == '_',
        CharClass::Alpha => ascii_alpha(c),
    }
}

/// The end of the longest run of characters of class `k` that starts at `i`.
pub open spec fn run_end(s: Seq<char>, i: int, k: CharClass) -> int
    decreases s.len() - i,
{
    if 0 <= i < s.len() && in_class(s[i], k) {
        run_end(s, i + 1, k)
    } else {
        i
    }
}

/// The first position at or after `i` that is not a space.
pub open spec fn skip_ws(s: Seq<char>, i: int) -> int {
    run_end(s, i, CharClass::Space)
}

pub broadcast proof fn lemma_run_end(s: Seq<char>, i: int, k: CharClass)
    ensures
        i <= #[trigger] run_end(s, i, k),
        0 <= i <= s.len() ==> run_end(s, i, k) <= s.len(),
        run_end(s, i, k) > i ==> 0 <= i < s.len() && run_end(s, i, k) <= s.len(),
        forall|j: int| i <= j < run_end(s, i, k) ==> in_class(s[j], k),
        0 <= i && run_end(s, i, k) < s.len() ==> !in_class(s[run_end(s, i, k)], k),
    decreases s.len() - i,
{
    if 0 <= i < s.len() && in_class(s[i], k) {
        lemma_run_end(s, i + 1, k);
    }
}

/// Whether `s` holds the characters of `word` at position `i`.
pub open spec fn has_at(s: Seq<char>, i: int, word: Seq<char>) -> bool {
    0 <= i && i + word.len() <= s.len() && s.subrange(i, i + word.len()) == word
}

pub fn run(s: &[char], i: usize, k: CharClass) -> (j: usize)
    requires
        i <= s@.len(),
    ensures
        j == run_end(s@, i as int, k),
{
    let mut j = i;
    while j < s.len() && class_has(s[j], k)
        invariant
            i <= j <= s@.len(),
            run_end(s@, i as int, k) == run_end(s@, j as int, k),
        decreases s@.len() - j,
    {
        j = j + 1;
    }
    j
}

pub fn skip_spaces(s: &[char], i: usize) -> (j: usize)
    requires
        i <= s@.len(),
    ensures
        j == skip_ws(s@, i as int),
        i <= j <= s@.len(),
{
    proof {
        lemma_run_end(s@, i as int, CharClass::Space);
    }
    run(s, i, CharClass::Space)
}

/// Whether `s` holds `word` at position `i`.
pub fn matches_at(s: &[char], i: usize, word: &[char]) -> (b: bool)
    requires
        i <= s@.len(),
    ensures
        b == has_at(s@, i as int, word@),
{
    if word.len() > s.len() - i {
        return false;
    }
    let n = s.len();
    let mut k: usize = 0;
    while k < word.len()
        invariant
            n == s@.len(),
            i <= s@.len(),
            i + word@.len() <= s@.len(),
            k <= word@.len(),
            forall|m: int| 0 <= m < k ==> s@[i + m] == word@[m],
        decreases word@.len() - k,
    {
        assert(i + k < s@.len());
        if s[i + k] != word[k] {
            assert(s@.subrange(i as int, i + word@.len())[k as int] != word@[k as int]);
            return false;
        }
        k = k + 1;
    }
    assert(s@.subrange(i as int, i + word@.len()) =~= word@);
    true
}

/// Whether the characters of `s[a..b]` and of `s[c..d]` are the same.
pub fn same_slice(s: &[char], a: usize, b: usize, c: usize, d: usize) -> (r: bool)
    requires
        a <= b <= s@.len(),
        c <= d <= s@.len(),
    ensures
        r == (s@.subrange(a as int, b as int) == s@.subrange(c as int, d as int)),
{
    if b - a != d - c {
        assert(s@.subrange(a as int, b as int).len() != s@.subrange(c as int, d as int).len());
        return false;
    }
    let mut k: usize = 0;
    while k < b - a
        invariant
            a <= b <= s@.len(),
            c <= d <= s@.len(),
            b - a == d - c,
            k <= b - a,
            forall|m: int| 0 <= m < k ==> #[trigger] s@[a + m] == s@[c + m],
        decreases b - a - k,
    {
        if s[a + k] != s[c + k] {
            assert(s@.subrange(a as int, b as int)[k as int] != s@.subrange(c as int, d as int)[k as int]);
            return false;
        }
        k = k + 1;
    }
    assert forall|m: int| 0 <= m < b - a implies s@.subrange(a as int, b as int)[m]
        == s@.subrange(c as int, d as int)[m] by {
        assert(s@[a + m] == s@[c + m]);
    }
    assert(s@.subrange(a as int, b as int) =~= s@.subrange(c as int, d as int));
    true
}

} // verus!

verus! {

/// The views of the items of a sequence.
pub open spec fn views<T: View>(s: Seq<T>) -> Seq<T::V> {
    s.map_values(|x: T| x@)
}

pub proof fn lemma_views_push<T: View>(s: Seq<T>, x: T)
    ensures
        views(s.push(x)) == views(s).push(x@),
{
    assert(views(s.push(x)) =~= views(s).push(x@));
}

pub proof fn lemma_views_empty<T: View>()
    ensures
        views(Seq::<T>::empty()) == Seq::<T::V>::empty(),
{
    assert(views(Seq::<T>::empty()) =~= Seq::<T::V>::empty());
}

/// A parse result with the items `acc` put before the items it found.
pub open spec fn prefixed<A>(acc: Seq<A>, r: Option<(Seq<A>, int)>) -> Option<(Seq<A>, int)> {
    match r {
        Some((xs, e)) => Some((acc + xs, e)),
        None => None,
    }
}

/// The same as [`prefixed`] for a parse that always succeeds.
pub open spec fn prefixed_total<A>(acc: Seq<A>, r: (Seq<A>, int)) -> (Seq<A>, int) {
    (acc + r.0, r.1)
}

pub proof fn lemma_prefixed_step<A>(acc: Seq<A>, x: A, rest: Seq<A>, end: int)
    ensures
        prefixed(acc, Some((seq![x] + rest, end))) == prefixed(acc.push(x), Some((rest, end))),
        prefixed_total(acc, (seq![x] + rest, end)) == prefixed_total(acc.push(x), (rest, end)),
{
    assert(acc + (seq![x] + rest) =~= acc.push(x) + rest);
}

pub proof fn lemma_prefixed_empty<A>(r: Option<(Seq<A>, int)>, t: (Seq<A>, int))
    ensures
        prefixed(Seq::<A>::empty(), r) == r,
        prefixed_total(Seq::<A>::empty(), t) == t,
{
    match r {
        Some((xs, e)) => {
            assert(Seq::<A>::empty() + xs =~= xs);
        },
        None => {},
    }
    assert(Seq::<A>::empty() + t.0 =~= t.0);
}

/// The number that the decimal digits of `t` write.
pub open spec fn digits_value(t: Seq<char>) -> nat
    decreases t.len(),
{
    if t.len() == 0 {
        0
    } else {
        digits_value(t.drop_last()) * 10 + (t.last() as nat - '0' as nat) as nat
    }
}

pub proof fn lemma_digits_step(s: Seq<char>, a: int, b: int)
    requires
        0 <= a <= b < s.len(),
    ensures
        digits_value(s.subrange(a, b + 1)) == digits_value(s.subrange(a, b)) * 10 + (s[b] as nat
            - '0' as nat) as nat,
{
    assert(s.subrange(a, b + 1).drop_last() =~= s.subrange(a, b));
}

/// Whether `s` holds the two characters `x`, `y` at `i`.
pub proof fn lemma_has_at2(s: Seq<char>, i: int, x: char, y: char)
    ensures
        has_at(s, i, seq![x, y]) <==> (0 <= i && i + 2 <= s.len() && s[i] == x && s[i + 1] == y),
{
    if 0 <= i && i + 2 <= s.len() && s[i] == x && s[i + 1] == y {
        assert(s.subrange(i, i + 2) =~= seq![x, y]);
    }
    if has_at(s, i, seq![x, y]) {
        assert(s.subrange(i, i + 2)[0] == x);
        assert(s.subrange(i, i + 2)[1] == y);
    }
}

/// The number that the digits `s[a..b]` write, or `None` where it does not fit `usize`.
pub fn digits_usize(s: &[char], a: usize, b: usize) -> (r: Option<usize>)
    requires
        a <= b <= s@.len(),
        forall|j: int| a <= j < b ==> in_class(#[trigger] s@[j], CharClass::Digit),
    ensures
        r matches Some(v) ==> v == digits_value(s@.subrange(a as int, b as int)),
        r is None ==> digits_value(s@.subrange(a as int, b as int)) > usize::MAX,
{
    let mut acc: usize = 0;
    let mut over = false;
    let ghost mut val: nat = 0;
    let mut k = a;
    assert(s@.subrange(a as int, a as int) =~= Seq::<char>::empty());
    while k < b
        invariant
            a <= k <= b <= s@.len(),
            forall|j: int| a <= j < b ==> in_class(#[trigger] s@[j], CharClass::Digit),
            val == digits_value(s@.subrange(a as int, k as int)),
            over <==> val > usize::MAX,
            !over ==> acc == val,
        decreases b - k,
    {
        let d = (s[k] as u32 - '0' as u32) as usize;
        proof {
            lemma_digits_step(s@, a as int, k as int);
            assert(in_class(s@[k as int], CharClass::Digit));
            val = val * 10 + d as nat;
        }
        if !over {
            match acc.checked_mul(10) {
                Some(m) => match m.checked_add(d) {
                    Some(v) => {
                        acc = v;
                    },
                    None => {
                        over = true;
                    },
                },
                None => {
                    over = true;
                },
            }
        }
        k = k + 1;
    }
    if over {
        None
    } else {
        Some(acc)
    }
}

/// The first position at or after `p` where `word` stands.
pub open spec fn find_word(s: Seq<char>, p: int, word: Seq<char>) -> Option<int>
    decreases s.len() + 1 - p,
{
    if p < 0 || p + word.len() > s.len() {
        None
    } else if has_at(s, p, word) {
        Some(p)
    } else {
        find_word(s, p + 1, word)
    }
}

pub fn find_at(s: &[char], p0: usize, word: &[char]) -> (r: Option<usize>)
    requires
        p0 <= s@.len(),
    ensures
        r matches Some(k) ==> find_word(s@, p0 as int, word@) == Some(k as int) && p0 <= k && k
            + word@.len() <= s@.len(),
        r is None ==> find_word(s@, p0 as int, word@) is None,
{
    let mut p = p0;
    if word.len() > s.len() {
        return None;
    }
    while p <= s.len() - word.len()
        invariant
            p0 <= p <= s@.len(),
            word@.len() <= s@.len(),
            find_word(s@, p0 as int, word@) == find_word(s@, p as int, word@),
        decreases s@.len() - p,
    {
        if matches_at(s, p, word) {
            return Some(p);
        }
        if word.len() == 0 {
            assert(s@.subrange(p as int, p as int) =~= word@);
        }
        p = p + 1;
    }
    None
}


pub broadcast proof fn lemma_find_word(s: Seq<char>, p: int, word: Seq<char>)
    ensures
        #[trigger] find_word(s, p, word) matches Some(k) ==> p <= k && k + word.len() <= s.len()
            && has_at(s, k, word),
    decreases s.len() + 1 - p,
{
    if !(p < 0 || p + word.len() > s.len()) && !has_at(s, p, word) {
        lemma_find_word(s, p + 1, word);
    }
}

/// Whitespace and `/* comments */` of style sheets, from `i`.
pub open spec fn css_ws(s: Seq<char>, i: int) -> int
    decreases s.len() - i,
{
    let j = skip_ws(s, i);
    if has_at(s, j, seq!['/', '*']) && i <= j {
        match find_word(s, j + 2, seq!['*', '/']) {
            Some(k) => if i < k + 2 <= s.len() {
                css_ws(s, k + 2)
            } else {
                j
            },
            None => j,
        }
    } else {
        j
    }
}

pub broadcast proof fn lemma_css_ws(s: Seq<char>, i: int)
    ensures
        i <= #[trigger] css_ws(s, i),
        0 <= i <= s.len() ==> css_ws(s, i) <= s.len(),
    decreases s.len() - i,
{
    let j = skip_ws(s, i);
    lemma_run_end(s, i, CharClass::Space);
    if has_at(s, j, seq!['/', '*']) && i <= j {
        lemma_find_word(s, j + 2, seq!['*', '/']);
        match find_word(s, j + 2, seq!['*', '/']) {
            Some(k) => if i < k + 2 <= s.len() {
                lemma_css_ws(s, k + 2);
            },
            None => {},
        }
    }
}

/// Skips the whitespace and comments of a style sheet from `i`.
pub fn skip_css(s: &[char], i: usize) -> (j: usize)
    requires
        i <= s@.len(),
    ensures
        j == css_ws(s@, i as int),
        i <= j <= s@.len(),
{
    let open = ['/', '*'];
    let close = ['*', '/'];
    assert(open@ =~= seq!['/', '*']);
    assert(close@ =~= seq!['*', '/']);
    let mut p = i;
    loop
        invariant
            i <= p <= s@.len(),
            css_ws(s@, i as int) == css_ws(s@, p as int),
            open@ == seq!['/', '*'],
            close@ == seq!['*', '/'],
        decreases s@.len() - p,
    {
        let j = skip_spaces(s, p);
        if j < s.len() && matches_at(s, j, &open) {
            match find_at(s, j + 2, &close) {
                Some(k) => {
                    p = k + 2;
                },
                None => {
                    return j;
                },
            }
        } else {
            proof {
                if has_at(s@, j as int, seq!['/', '*']) {
                    assert(j < s@.len());
                }
            }
            return j;
        }
    }
}


/// Whether the characters `s[a..b]` are those of `word`.
pub fn slice_is(s: &[char], a: usize, b: usize, word: &[char]) -> (r: bool)
    requires
        a <= b <= s@.len(),
    ensures
        r == (s@.subrange(a as int, b as int) == word@),
{
    if b - a != word.len() {
        assert(s@.subrange(a as int, b as int).len() != word@.len());
        return false;
    }
    let r = matches_at(s, a, word);
    assert(s@.subrange(a as int, a + word@.len()) == s@.subrange(a as int, b as int));
    r
}

} // verus!
