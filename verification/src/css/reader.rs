//! The style sheet reader: from the text of a style sheet to its [`Css`] model.
//!
//! The grammar, stated by the spec functions of this module over the characters of the
//! source, where whitespace and `/* comments */` may stand between tokens:
//! - a style sheet is a sequence of rules: `@keyframes name { step { declarations } ... }`
//!   or `selectors { declarations }`;
//! - selectors are complex selectors separated by `,`; a complex selector is compound
//!   selectors joined by `>`, `+`, `~` or whitespace (a descendant); a compound selector is
//!   simple selectors written together: `*`, `#id`, `.class`, `type`, `[name]`,
//!   `[name op value]`, `:root`, `:pseudo-class`, `::pseudo-element`;
//! - a declaration is `name: values;`; the values are shorthands separated by `,`, a
//!   shorthand is values separated by whitespace; a value is `var(--name)`, a function
//!   call `name(value, ...)`, a color `#hex`, a string `"text"`, a percentage `50%`, a
//!   time `1s` or `250ms`, a dimension `10px`, the zero `0`, a number, or a keyword;
//! - a declaration whose name is neither a custom property `--name` nor a known property is
//!   read and left out.
use vstd::prelude::*;
use crate::lexer::{
    CharClass, run_end, has_at, lemma_run_end, run, matches_at, slice_is, css_ws, lemma_css_ws, skip_css,
    digits_value, lemma_digits_step, lemma_has_at2, views, prefixed, prefixed_total,
    lemma_prefixed_step, lemma_prefixed_empty, lemma_views_push, lemma_views_empty, in_class,
};
use crate::text::{is_ascii_digit, ascii_digit, string_from, chars_of};
use crate::decimal::{Decimal, shift, decimal_or_zero, canon, decimal_of, integer_part, pow10, lemma_pow10_positive, lemma_pow10_monotonic};
use crate::css::{
    ComputedValue, ComputedValueV, Definition, DefinitionV, Function, Declaration, DeclarationV,
    Variable, Property, Simple, SimpleV, Matcher, Complex, Style, StyleV, Keyframe, KeyframeV,
    Animation, AnimationV, Css, CssV, Dim, Units, PropertyKey, lemma_definition_view,
    shorthand_view, shorthands_view,
};
use crate::css::property::property_key;

verus! {

broadcast use lemma_run_end, lemma_css_ws;

// ---------------------------------------------------------------------------------------
// Numbers and explicit values

/// A number `[+-]digits[.digits]` at `i`: its sign, integer digits and fraction digits.
pub open spec fn sp_number(s: Seq<char>, i: int) -> Option<((bool, Seq<char>, Seq<char>), int)> {
    let negative = 0 <= i < s.len() && s[i] == '-';
    let a = if 0 <= i < s.len() && (s[i] == '-' || s[i] == '+') {
        i + 1
    } else {
        i
    };
    let b = run_end(s, a, CharClass::Digit);
    let c = run_end(s, b + 1, CharClass::Digit);
    if 0 <= b < s.len() && s[b] == '.' && c > b + 1 {
        Some(((negative, s.subrange(a, b), s.subrange(b + 1, c)), c))
    } else if b > a {
        Some(((negative, s.subrange(a, b), Seq::empty()), b))
    } else {
        None
    }
}

/// The value of a number: exact where its canonical form fits a [`Decimal`], else zero.
pub open spec fn number_value(lex: (bool, Seq<char>, Seq<char>)) -> Decimal {
    decimal_or_zero(lex.0, digits_value(lex.1 + lex.2), lex.2.len())
}

/// The units that a unit name names; an unknown name is read as `px`.
pub open spec fn units_of(u: Seq<char>) -> Units {
    if u == seq!['e', 'm'] {
        Units::Em
    } else if u == seq!['r', 'e', 'm'] {
        Units::Rem
    } else if u == seq!['v', 'w'] {
        Units::Vw
    } else if u == seq!['v', 'h'] {
        Units::Vh
    } else if u == seq!['v', 'm', 'i', 'n'] {
        Units::Vmin
    } else if u == seq!['v', 'm', 'a', 'x'] {
        Units::Vmax
    } else {
        Units::Px
    }
}

pub open spec fn hex_value(c: char) -> nat {
    if '0' <= c && c <= '9' {
        (c as nat - '0' as nat) as nat
    } else if 'a' <= c && c <= 'f' {
        (c as nat - 'a' as nat + 10) as nat
    } else {
        (c as nat - 'A' as nat + 10) as nat
    }
}

pub open spec fn hex_byte(t: Seq<char>, i: int) -> u8 {
    (hex_value(t[i]) * 16 + hex_value(t[i + 1])) as u8
}

/// The color that `#rrggbb` or `#rrggbbaa` writes; any other length is read as white.
pub open spec fn color_of(t: Seq<char>) -> Seq<u8> {
    if t.len() == 7 {
        seq![hex_byte(t, 1), hex_byte(t, 3), hex_byte(t, 5), 255u8]
    } else if t.len() == 9 {
        seq![hex_byte(t, 1), hex_byte(t, 3), hex_byte(t, 5), hex_byte(t, 7)]
    } else {
        seq![255u8, 255u8, 255u8, 255u8]
    }
}

/// An explicit value at `i`.
pub open spec fn sp_explicit(s: Seq<char>, i: int) -> Option<(ComputedValueV, int)> {
    if 0 <= i < s.len() && s[i] == '#' {
        let e = run_end(s, i + 1, CharClass::Hex);
        if e > i + 1 {
            Some((ComputedValueV::Color(color_of(s.subrange(i, e))), e))
        } else {
            None
        }
    } else if 0 <= i < s.len() && s[i] == '"' {
        let e = run_end(s, i + 1, CharClass::Quoted);
        if e < s.len() {
            Some((ComputedValueV::Str(s.subrange(i + 1, e)), e + 1))
        } else {
            None
        }
    } else {
        match sp_number(s, i) {
            Some((lex, e)) => {
                let d = number_value(lex);
                let u = run_end(s, e, CharClass::Alpha);
                let unit = s.subrange(e, u);
                if 0 <= e < s.len() && s[e] == '%' {
                    Some((ComputedValueV::Percentage(shift(d, 2)), e + 1))
                } else if unit == seq!['s'] {
                    Some((ComputedValueV::Time(d), u))
                } else if unit == seq!['m', 's'] {
                    Some((ComputedValueV::Time(shift(d, 3)), u))
                } else if u > e {
                    Some((ComputedValueV::Dimension(Dim { value: d, unit: units_of(unit) }), u))
                } else if e == i + 1 && s[i] == '0' {
                    Some((ComputedValueV::Zero, e))
                } else {
                    Some((ComputedValueV::Number(d), e))
                }
            },
            None => {
                let e = run_end(s, i, CharClass::Ident);
                if e > i && !is_ascii_digit(s[i]) {
                    Some((ComputedValueV::Keyword(s.subrange(i, e)), e))
                } else {
                    None
                }
            },
        }
    }
}

// ---------------------------------------------------------------------------------------
// Values

pub open spec fn var_name() -> Seq<char> {
    seq!['v', 'a', 'r']
}

/// A value at `i`: `var(--name)`, a function call, or an explicit value.
pub open spec fn sp_value(s: Seq<char>, i: int) -> Option<(DefinitionV, int)>
    decreases s.len() - i, 0int,
{
    let e = run_end(s, i, CharClass::Ident);
    if e > i && !is_ascii_digit(s[i]) && e < s.len() && s[e] == '(' {
        let name = s.subrange(i, e);
        let k = css_ws(s, e + 1);
        if name == var_name() {
            let ve = run_end(s, k, CharClass::Ident);
            let z = css_ws(s, ve);
            if ve > k && 0 <= z < s.len() && s[z] == ')' {
                Some((DefinitionV::Var(s.subrange(k, ve)), z + 1))
            } else {
                None
            }
        } else if i < k <= s.len() {
            match sp_arguments(s, k) {
                Some((args, z)) => if 0 <= z < s.len() && s[z] == ')' {
                    Some((DefinitionV::Function(name, args), z + 1))
                } else {
                    None
                },
                None => None,
            }
        } else {
            None
        }
    } else {
        match sp_explicit(s, i) {
            Some((v, e)) => Some((DefinitionV::Explicit(v), e)),
            None => None,
        }
    }
}

/// The arguments of a function call from `p`: values separated by `,`, and the position
/// after them (where `)` should stand).
pub open spec fn sp_arguments(s: Seq<char>, p: int) -> Option<(Seq<DefinitionV>, int)>
    decreases s.len() - p, 1int,
{
    match sp_value(s, p) {
        Some((v, e)) => if p < e <= s.len() {
            match sp_more_arguments(s, css_ws(s, e)) {
                Some((rest, z)) => Some((seq![v] + rest, z)),
                None => None,
            }
        } else {
            Some((Seq::empty(), p))
        },
        None => Some((Seq::empty(), p)),
    }
}

/// `, value` repeated, from `j`.
pub open spec fn sp_more_arguments(s: Seq<char>, j: int) -> Option<(Seq<DefinitionV>, int)>
    decreases s.len() - j, 2int,
{
    if 0 <= j < s.len() && s[j] == ',' {
        let k = css_ws(s, j + 1);
        match sp_value(s, k) {
            Some((v, e)) => if j < k < e <= s.len() {
                match sp_more_arguments(s, css_ws(s, e)) {
                    Some((rest, z)) => Some((seq![v] + rest, z)),
                    None => None,
                }
            } else {
                None
            },
            None => None,
        }
    } else {
        Some((Seq::empty(), j))
    }
}

/// Values that follow a value, separated by whitespace, from `e`.
pub open spec fn sp_values(s: Seq<char>, e: int) -> (Seq<DefinitionV>, int)
    decreases s.len() - e,
{
    let j = css_ws(s, e);
    match sp_value(s, j) {
        Some((v, f)) => if e <= j < f <= s.len() {
            let (rest, end) = sp_values(s, f);
            (seq![v] + rest, end)
        } else {
            (Seq::empty(), e)
        },
        None => (Seq::empty(), e),
    }
}

/// A shorthand at `p`: one value or more separated by whitespace.
pub open spec fn sp_shorthand(s: Seq<char>, p: int) -> Option<(Seq<DefinitionV>, int)> {
    match sp_value(s, p) {
        Some((v, e)) => if p < e <= s.len() {
            let (rest, end) = sp_values(s, e);
            Some((seq![v] + rest, end))
        } else {
            None
        },
        None => None,
    }
}

/// `, shorthand` repeated, after a shorthand that ends at `e`.
pub open spec fn sp_more_shorthands(s: Seq<char>, e: int) -> Option<(Seq<Seq<DefinitionV>>, int)>
    decreases s.len() - e,
{
    let j = css_ws(s, e);
    if 0 <= j < s.len() && s[j] == ',' {
        match sp_shorthand(s, css_ws(s, j + 1)) {
            Some((v, f)) => if e < f <= s.len() {
                match sp_more_shorthands(s, f) {
                    Some((rest, end)) => Some((seq![v] + rest, end)),
                    None => None,
                }
            } else {
                None
            },
            None => None,
        }
    } else {
        Some((Seq::empty(), e))
    }
}

/// Shorthands separated by `,` at `p`.
pub open spec fn sp_shorthands(s: Seq<char>, p: int) -> Option<(Seq<Seq<DefinitionV>>, int)> {
    match sp_shorthand(s, p) {
        Some((v, e)) => match sp_more_shorthands(s, e) {
            Some((rest, end)) => Some((seq![v] + rest, end)),
            None => None,
        },
        None => None,
    }
}

// ---------------------------------------------------------------------------------------
// Declarations

/// The declaration that a name and its values make: a custom property, a known property,
/// or nothing for an unknown property.
pub open spec fn declaration_of(name: Seq<char>, values: Seq<Seq<DefinitionV>>) -> Option<DeclarationV> {
    if has_at(name, 0, seq!['-', '-']) {
        Some(DeclarationV::Variable(name, values[0]))
    } else {
        match property_key(name) {
            Some(key) => Some(DeclarationV::Property(key, values)),
            None => None,
        }
    }
}

/// A declaration `name: values;` at `j`.
pub open spec fn sp_declaration(s: Seq<char>, j: int) -> Option<(Option<DeclarationV>, int)> {
    let ne = run_end(s, j, CharClass::Ident);
    let k = css_ws(s, ne);
    if ne > j && 0 <= k < s.len() && s[k] == ':' {
        match sp_shorthands(s, css_ws(s, k + 1)) {
            Some((values, e)) => {
                let z = css_ws(s, e);
                if 0 <= z < s.len() && s[z] == ';' {
                    Some((declaration_of(s.subrange(j, ne), values), z + 1))
                } else {
                    None
                }
            },
            None => None,
        }
    } else {
        None
    }
}

pub open spec fn cons_some<A>(x: Option<A>, rest: Seq<A>) -> Seq<A> {
    match x {
        Some(a) => seq![a] + rest,
        None => rest,
    }
}

/// The declarations from `p`, as many as follow one another.
pub open spec fn sp_declarations(s: Seq<char>, p: int) -> (Seq<DeclarationV>, int)
    decreases s.len() - p,
{
    let j = css_ws(s, p);
    match sp_declaration(s, j) {
        Some((d, e)) => if p < e <= s.len() {
            let (rest, end) = sp_declarations(s, e);
            (cons_some(d, rest), end)
        } else {
            (Seq::empty(), p)
        },
        None => (Seq::empty(), p),
    }
}

/// A block `{ declarations }` at `p`.
pub open spec fn sp_block(s: Seq<char>, p: int) -> Option<(Seq<DeclarationV>, int)> {
    if 0 <= p < s.len() && s[p] == '{' {
        let (ds, e) = sp_declarations(s, p + 1);
        let z = css_ws(s, e);
        if 0 <= z < s.len() && s[z] == '}' {
            Some((ds, z + 1))
        } else {
            None
        }
    } else {
        None
    }
}


// ---------------------------------------------------------------------------------------
// Selectors

pub open spec fn root_name() -> Seq<char> {
    seq!['r', 'o', 'o', 't']
}

/// The attribute matcher at `m` and its length.
pub open spec fn sp_matcher(s: Seq<char>, m: int) -> Option<(Matcher, int)> {
    if 0 <= m < s.len() && s[m] == '=' {
        Some((Matcher::Equal, 1))
    } else if 0 <= m && m + 1 < s.len() && s[m + 1] == '=' {
        if s[m] == '~' {
            Some((Matcher::Include, 2))
        } else if s[m] == '|' {
            Some((Matcher::DashMatch, 2))
        } else if s[m] == '^' {
            Some((Matcher::Prefix, 2))
        } else if s[m] == '$' {
            Some((Matcher::Suffix, 2))
        } else if s[m] == '*' {
            Some((Matcher::Substring, 2))
        } else {
            None
        }
    } else {
        None
    }
}

/// The value an attribute selector compares with, at `v`: a string or an identifier.
pub open spec fn sp_attribute_value(s: Seq<char>, v: int) -> Option<(Seq<char>, int)> {
    if 0 <= v < s.len() && s[v] == '"' {
        let e = run_end(s, v + 1, CharClass::Quoted);
        if e < s.len() {
            Some((s.subrange(v + 1, e), e + 1))
        } else {
            None
        }
    } else {
        let e = run_end(s, v, CharClass::Ident);
        if e > v {
            Some((s.subrange(v, e), e))
        } else {
            None
        }
    }
}

/// An attribute selector `[name]` or `[name op value]` at `i`, where `s[i]` is `[`.
pub open spec fn sp_attribute_selector(s: Seq<char>, i: int) -> Option<(SimpleV, int)> {
    let k = css_ws(s, i + 1);
    let ne = run_end(s, k, CharClass::Ident);
    let m = css_ws(s, ne);
    if ne == k {
        None
    } else if 0 <= m < s.len() && s[m] == ']' {
        Some((SimpleV::Attribute(s.subrange(k, ne), Matcher::Exist, Seq::empty()), m + 1))
    } else {
        match sp_matcher(s, m) {
            Some((matcher, n)) => match sp_attribute_value(s, css_ws(s, m + n)) {
                Some((value, e)) => {
                    let z = css_ws(s, e);
                    if 0 <= z < s.len() && s[z] == ']' {
                        Some((SimpleV::Attribute(s.subrange(k, ne), matcher, value), z + 1))
                    } else {
                        None
                    }
                },
                None => None,
            },
            None => None,
        }
    }
}

/// A simple selector at `i`.
pub open spec fn sp_simple(s: Seq<char>, i: int) -> Option<(SimpleV, int)> {
    if !(0 <= i < s.len()) {
        None
    } else if s[i] == '*' {
        Some((SimpleV::All, i + 1))
    } else if s[i] == '#' || s[i] == '.' {
        let e = run_end(s, i + 1, CharClass::Ident);
        if e > i + 1 {
            if s[i] == '#' {
                Some((SimpleV::Id(s.subrange(i + 1, e)), e))
            } else {
                Some((SimpleV::Class(s.subrange(i + 1, e)), e))
            }
        } else {
            None
        }
    } else if s[i] == '[' {
        sp_attribute_selector(s, i)
    } else if s[i] == ':' {
        if i + 1 < s.len() && s[i + 1] == ':' {
            let e = run_end(s, i + 2, CharClass::Ident);
            if e > i + 2 {
                Some((SimpleV::PseudoElement(s.subrange(i + 2, e)), e))
            } else {
                None
            }
        } else {
            let e = run_end(s, i + 1, CharClass::Ident);
            if e > i + 1 {
                if s.subrange(i + 1, e) == root_name() {
                    Some((SimpleV::Root, e))
                } else {
                    Some((SimpleV::PseudoClass(s.subrange(i + 1, e)), e))
                }
            } else {
                None
            }
        }
    } else {
        let e = run_end(s, i, CharClass::Ident);
        if e > i && !is_ascii_digit(s[i]) {
            Some((SimpleV::Type(s.subrange(i, e)), e))
        } else {
            None
        }
    }
}

/// Simple selectors written together from `e`.
pub open spec fn sp_simples(s: Seq<char>, e: int) -> (Seq<SimpleV>, int)
    decreases s.len() - e,
{
    match sp_simple(s, e) {
        Some((x, f)) => if e < f <= s.len() {
            let (rest, end) = sp_simples(s, f);
            (seq![x] + rest, end)
        } else {
            (Seq::empty(), e)
        },
        None => (Seq::empty(), e),
    }
}

/// A compound selector at `i`: one simple selector or more written together.
pub open spec fn sp_compound(s: Seq<char>, i: int) -> Option<(Seq<SimpleV>, int)> {
    match sp_simple(s, i) {
        Some((x, e)) => if i < e <= s.len() {
            let (rest, end) = sp_simples(s, e);
            Some((seq![x] + rest, end))
        } else {
            None
        },
        None => None,
    }
}

pub open spec fn is_combinator(c: char) -> bool {
    c == '>' || c == '+' || c == '~'
}

/// The combinators and compound selectors that follow a compound selector ending at `e`.
pub open spec fn sp_complex_rest(s: Seq<char>, e: int) -> Option<(Seq<SimpleV>, int)>
    decreases s.len() - e,
{
    let j = css_ws(s, e);
    if 0 <= j < s.len() && is_combinator(s[j]) {
        match sp_compound(s, css_ws(s, j + 1)) {
            Some((xs, f)) => if e < f <= s.len() {
                match sp_complex_rest(s, f) {
                    Some((rest, end)) => Some((seq![SimpleV::Combinator(s[j])] + xs + rest, end)),
                    None => None,
                }
            } else {
                None
            },
            None => None,
        }
    } else if j > e {
        match sp_compound(s, j) {
            Some((xs, f)) => if j < f <= s.len() {
                match sp_complex_rest(s, f) {
                    Some((rest, end)) => Some((seq![SimpleV::Combinator(' ')] + xs + rest, end)),
                    None => None,
                }
            } else {
                Some((Seq::empty(), e))
            },
            None => Some((Seq::empty(), e)),
        }
    } else {
        Some((Seq::empty(), e))
    }
}

/// A complex selector at `i`.
pub open spec fn sp_complex(s: Seq<char>, i: int) -> Option<(Seq<SimpleV>, int)> {
    match sp_compound(s, i) {
        Some((xs, e)) => match sp_complex_rest(s, e) {
            Some((rest, end)) => Some((xs + rest, end)),
            None => None,
        },
        None => None,
    }
}

/// `, complex` repeated, after a complex selector that ends at `e`.
pub open spec fn sp_more_complex(s: Seq<char>, e: int) -> Option<(Seq<Seq<SimpleV>>, int)>
    decreases s.len() - e,
{
    let j = css_ws(s, e);
    if 0 <= j < s.len() && s[j] == ',' {
        match sp_complex(s, css_ws(s, j + 1)) {
            Some((x, f)) => if e < f <= s.len() {
                match sp_more_complex(s, f) {
                    Some((rest, end)) => Some((seq![x] + rest, end)),
                    None => None,
                }
            } else {
                None
            },
            None => None,
        }
    } else {
        Some((Seq::empty(), e))
    }
}

/// Complex selectors separated by `,` at `i`.
pub open spec fn sp_selectors(s: Seq<char>, i: int) -> Option<(Seq<Seq<SimpleV>>, int)> {
    match sp_complex(s, i) {
        Some((x, e)) => match sp_more_complex(s, e) {
            Some((rest, end)) => Some((seq![x] + rest, end)),
            None => None,
        },
        None => None,
    }
}

// ---------------------------------------------------------------------------------------
// Rules

/// The step of a keyframe: the integer part of its percentage, saturated to `u32`.
pub open spec fn step_of(d: Decimal) -> u32 {
    if d.negative {
        0
    } else if integer_part(d) > u32::MAX {
        u32::MAX
    } else {
        integer_part(d) as u32
    }
}

pub open spec fn to_word() -> Seq<char> {
    seq!['t', 'o']
}

/// The step of a keyframe at `j`: `n%`, or `from` (0), `to` (100), or another keyword (0).
pub open spec fn sp_step(s: Seq<char>, j: int) -> Option<(u32, int)> {
    match sp_number(s, j) {
        Some((lex, e)) => if 0 <= e < s.len() && s[e] == '%' {
            Some((step_of(number_value(lex)), e + 1))
        } else {
            None
        },
        None => {
            let e = run_end(s, j, CharClass::Ident);
            if e > j && !is_ascii_digit(s[j]) {
                let word = s.subrange(j, e);
                Some((if word == to_word() { 100u32 } else { 0u32 }, e))
            } else {
                None
            }
        },
    }
}

/// A keyframe `step { declarations }` at `j`.
pub open spec fn sp_keyframe(s: Seq<char>, j: int) -> Option<(KeyframeV, int)> {
    match sp_step(s, j) {
        Some((step, e)) => match sp_block(s, css_ws(s, e)) {
            Some((ds, f)) => Some((KeyframeV { step, declaration: ds }, f)),
            None => None,
        },
        None => None,
    }
}

/// The keyframes from `p`.
pub open spec fn sp_keyframes(s: Seq<char>, p: int) -> (Seq<KeyframeV>, int)
    decreases s.len() - p,
{
    let j = css_ws(s, p);
    match sp_keyframe(s, j) {
        Some((k, e)) => if p < e <= s.len() {
            let (rest, end) = sp_keyframes(s, e);
            (seq![k] + rest, end)
        } else {
            (Seq::empty(), p)
        },
        None => (Seq::empty(), p),
    }
}

pub open spec fn keyframes_word() -> Seq<char> {
    seq!['@', 'k', 'e', 'y', 'f', 'r', 'a', 'm', 'e', 's']
}

pub enum RuleV {
    Style(StyleV),
    Animation(AnimationV),
}

/// An animation `@keyframes name { keyframes }` at `i`.
pub open spec fn sp_animation(s: Seq<char>, i: int) -> Option<(AnimationV, int)> {
    let k = css_ws(s, i + 10);
    let ne = run_end(s, k, CharClass::Ident);
    let b = css_ws(s, ne);
    if has_at(s, i, keyframes_word()) && ne > k && 0 <= b < s.len() && s[b] == '{' {
        let (frames, e) = sp_keyframes(s, b + 1);
        let z = css_ws(s, e);
        if 0 <= z < s.len() && s[z] == '}' {
            Some((AnimationV { name: s.subrange(k, ne), keyframes: frames }, z + 1))
        } else {
            None
        }
    } else {
        None
    }
}

/// A style rule `selectors { declarations }` at `i`.
pub open spec fn sp_style(s: Seq<char>, i: int) -> Option<(StyleV, int)> {
    match sp_selectors(s, i) {
        Some((selectors, e)) => match sp_block(s, css_ws(s, e)) {
            Some((ds, f)) => Some((StyleV { selectors, declaration: ds }, f)),
            None => None,
        },
        None => None,
    }
}

/// A rule at `i`.
pub open spec fn sp_rule(s: Seq<char>, i: int) -> Option<(RuleV, int)> {
    if has_at(s, i, keyframes_word()) {
        match sp_animation(s, i) {
            Some((a, e)) => Some((RuleV::Animation(a), e)),
            None => None,
        }
    } else {
        match sp_style(s, i) {
            Some((st, e)) => Some((RuleV::Style(st), e)),
            None => None,
        }
    }
}

/// The rules from `p`.
pub open spec fn sp_rules(s: Seq<char>, p: int) -> (Seq<RuleV>, int)
    decreases s.len() - p,
{
    let j = css_ws(s, p);
    match sp_rule(s, j) {
        Some((r, e)) => if p < e <= s.len() {
            let (rest, end) = sp_rules(s, e);
            (seq![r] + rest, end)
        } else {
            (Seq::empty(), p)
        },
        None => (Seq::empty(), p),
    }
}

/// The first position of an animation named `name` among `anims`.
pub open spec fn animation_index(anims: Seq<AnimationV>, name: Seq<char>) -> Option<int>
    decreases anims.len(),
{
    if anims.len() == 0 {
        None
    } else if anims.last().name == name {
        match animation_index(anims.drop_last(), name) {
            Some(k) => Some(k),
            None => Some(anims.len() - 1),
        }
    } else {
        animation_index(anims.drop_last(), name)
    }
}

/// The animations with `a` put in: in place of the one of the same name, else last.
pub open spec fn put_animation(anims: Seq<AnimationV>, a: AnimationV) -> Seq<AnimationV> {
    match animation_index(anims, a.name) {
        Some(k) => anims.update(k, a),
        None => anims.push(a),
    }
}

/// The style sheet that a sequence of rules makes: the style rules in order, and the
/// animations, a later one replacing an earlier one of the same name.
pub open spec fn css_of(rules: Seq<RuleV>) -> CssV
    decreases rules.len(),
{
    if rules.len() == 0 {
        CssV { styles: Seq::empty(), animations: Seq::empty() }
    } else {
        let c = css_of(rules.drop_last());
        match rules.last() {
            RuleV::Style(st) => CssV { styles: c.styles.push(st), animations: c.animations },
            RuleV::Animation(a) => CssV { styles: c.styles, animations: put_animation(c.animations, a) },
        }
    }
}

/// The style sheet that the characters `s` hold, where they are one.
pub open spec fn sp_stylesheet(s: Seq<char>) -> Option<CssV> {
    let (rules, e) = sp_rules(s, 0);
    if css_ws(s, e) == s.len() {
        Some(css_of(rules))
    } else {
        None
    }
}


// ---------------------------------------------------------------------------------------
// Executable reader: numbers and explicit values

pub open spec fn same_result<T: View>(r: Option<(T, usize)>, sp: Option<(T::V, int)>) -> bool {
    match r {
        Some((x, e)) => sp == Some((x@, e as int)),
        None => sp is None,
    }
}

/// Where the parts of a number stand: its sign, its integer digits `a..b` and its
/// fraction digits `c..d`.
pub struct NumberLex {
    pub negative: bool,
    pub a: usize,
    pub b: usize,
    pub c: usize,
    pub d: usize,
}

pub open spec fn lex_view(s: Seq<char>, n: NumberLex) -> (bool, Seq<char>, Seq<char>) {
    (n.negative, s.subrange(n.a as int, n.b as int), s.subrange(n.c as int, n.d as int))
}

fn parse_number(s: &[char], i: usize) -> (r: Option<(NumberLex, usize)>)
    requires
        i <= s@.len(),
    ensures
        match r {
            Some((n, e)) => sp_number(s@, i as int) == Some((lex_view(s@, n), e as int)) && i < e
                <= s@.len() && n.a <= n.b <= n.c <= n.d <= s@.len()
                && (forall|j: int| n.a <= j < n.b ==> is_ascii_digit(#[trigger] s@[j]))
                && (forall|j: int| n.c <= j < n.d ==> is_ascii_digit(#[trigger] s@[j])),
            None => sp_number(s@, i as int) is None,
        },
{
    let negative = i < s.len() && s[i] == '-';
    let a = if i < s.len() && (s[i] == '-' || s[i] == '+') {
        i + 1
    } else {
        i
    };
    let b = run(s, a, CharClass::Digit);
    if b < s.len() && s[b] == '.' {
        let c = run(s, b + 1, CharClass::Digit);
        if c > b + 1 {
            return Some((NumberLex { negative, a, b, c: b + 1, d: c }, c));
        }
    }
    proof {
        if b < s@.len() && s@[b as int] == '.' {
        } else {
            assert(!(0 <= b < s@.len() && s@[b as int] == '.'));
        }
    }
    if b > a {
        assert(s@.subrange(b as int, b as int) =~= Seq::<char>::empty());
        Some((NumberLex { negative, a, b, c: b, d: b }, b))
    } else {
        None
    }
}

proof fn lemma_digits_push(t: Seq<char>, c: char)
    ensures
        digits_value(t.push(c)) == digits_value(t) * 10 + (c as nat - '0' as nat) as nat,
{
    assert(t.push(c).drop_last() =~= t);
}

proof fn lemma_trailing_zeros(negative: bool, x: Seq<char>, z: Seq<char>, sc: nat)
    requires
        forall|j: int| 0 <= j < z.len() ==> z[j] == '0',
        z.len() <= sc,
    ensures
        canon(negative, digits_value(x + z), sc) == canon(
            negative,
            digits_value(x),
            (sc - z.len()) as nat,
        ),
    decreases z.len(),
{
    if z.len() > 0 {
        let z1 = z.drop_last();
        assert((x + z).drop_last() =~= x + z1);
        assert((x + z).last() == '0');
        let d = digits_value(x + z1);
        assert(digits_value(x + z) == d * 10);
        assert((d * 10) % 10 == 0 && (d * 10) / 10 == d) by (nonlinear_arith);
        lemma_trailing_zeros(negative, x, z1, (sc - 1) as nat);
    }
}

proof fn lemma_last_digit(t: Seq<char>)
    requires
        t.len() > 0,
        is_ascii_digit(t.last()),
        t.last() != '0',
    ensures
        digits_value(t) % 10 != 0,
        digits_value(t) > 0,
{
    let d = digits_value(t.drop_last());
    let g = (t.last() as nat - '0' as nat) as nat;
    assert(1 <= g <= 9);
    assert((d * 10 + g) % 10 == g) by (nonlinear_arith)
        requires
            1 <= g <= 9,
    ;
}

/// The value of the digits `s[a..b]` followed by `s[c..d]`, where it fits `u64`.
fn digits_u64(s: &[char], a: usize, b: usize, c: usize, d: usize) -> (r: Option<u64>)
    requires
        a <= b <= c,
        a <= b <= s@.len(),
        c <= d <= s@.len(),
        forall|j: int| a <= j < b ==> is_ascii_digit(#[trigger] s@[j]),
        forall|j: int| c <= j < d ==> is_ascii_digit(#[trigger] s@[j]),
    ensures
        ({
            let t = s@.subrange(a as int, b as int) + s@.subrange(c as int, d as int);
            &&& r matches Some(v) ==> v == digits_value(t)
            &&& r is None ==> digits_value(t) > u64::MAX
        }),
{
    let ghost t = s@.subrange(a as int, b as int) + s@.subrange(c as int, d as int);
    let n = (b - a) + (d - c);
    let mut acc: u64 = 0;
    let mut over = false;
    let ghost mut val: nat = 0;
    let mut k: usize = 0;
    assert(t.subrange(0, 0) =~= Seq::<char>::empty());
    while k < n
        invariant
            t == s@.subrange(a as int, b as int) + s@.subrange(c as int, d as int),
            n == t.len(),
            a <= b <= s@.len(),
            c <= d <= s@.len(),
            forall|j: int| a <= j < b ==> is_ascii_digit(#[trigger] s@[j]),
            forall|j: int| c <= j < d ==> is_ascii_digit(#[trigger] s@[j]),
            k <= n,
            val == digits_value(t.subrange(0, k as int)),
            over <==> val > u64::MAX,
            !over ==> acc == val,
        decreases n - k,
    {
        let ch = if k < b - a {
            s[a + k]
        } else {
            s[c + (k - (b - a))]
        };
        assert(ch == t[k as int]);
        assert(is_ascii_digit(ch));
        let g = (ch as u32 - '0' as u32) as u64;
        proof {
            assert(t.subrange(0, k + 1) =~= t.subrange(0, k as int).push(ch));
            lemma_digits_push(t.subrange(0, k as int), ch);
            val = val * 10 + g as nat;
        }
        if !over {
            match acc.checked_mul(10) {
                Some(m) => match m.checked_add(g) {
                    Some(v) => {
                        acc = v;
                    },
                    None => {
                        over = true;
                    },
                },
                None => {
                    over = true;
                },
            }
        }
        k = k + 1;
    }
    assert(t.subrange(0, n as int) =~= t);
    if over {
        None
    } else {
        Some(acc)
    }
}

/// The value of a number, see [`number_value`].
fn decimal_from(s: &[char], n: &NumberLex) -> (r: Decimal)
    requires
        n.a <= n.b <= n.c,
        n.a <= n.b <= s@.len(),
        n.c <= n.d <= s@.len(),
        forall|j: int| n.a <= j < n.b ==> is_ascii_digit(#[trigger] s@[j]),
        forall|j: int| n.c <= j < n.d ==> is_ascii_digit(#[trigger] s@[j]),
    ensures
        r == number_value(lex_view(s@, *n)),
{
    let mut e = n.d;
    while e > n.c && s[e - 1] == '0'
        invariant
            n.c <= e <= n.d <= s@.len(),
            forall|j: int| e <= j < n.d ==> s@[j] == '0',
        decreases e,
    {
        e = e - 1;
    }
    let ghost x = s@.subrange(n.a as int, n.b as int) + s@.subrange(n.c as int, e as int);
    let ghost z = s@.subrange(e as int, n.d as int);
    proof {
        assert(s@.subrange(n.a as int, n.b as int) + s@.subrange(n.c as int, n.d as int) =~= x
            + z);
        lemma_trailing_zeros(n.negative, x, z, (n.d - n.c) as nat);
        if e > n.c {
            assert(x.last() == s@[e - 1]);
            lemma_last_digit(x);
        }
    }
    let zero = Decimal { negative: false, mantissa: 0, scale: 0 };
    match digits_u64(s, n.a, n.b, n.c, e) {
        Some(m) => {
            if e - n.c > u32::MAX as usize {
                zero
            } else if m == 0 {
                zero
            } else {
                Decimal { negative: n.negative, mantissa: m, scale: (e - n.c) as u32 }
            }
        },
        None => zero,
    }
}

fn units_from(s: &[char], e: usize, u: usize) -> (r: Units)
    requires
        e <= u <= s@.len(),
    ensures
        r == units_of(s@.subrange(e as int, u as int)),
{
    let em = ['e', 'm'];
    let rem = ['r', 'e', 'm'];
    let vw = ['v', 'w'];
    let vh = ['v', 'h'];
    let vmin = ['v', 'm', 'i', 'n'];
    let vmax = ['v', 'm', 'a', 'x'];
    assert(em@ =~= seq!['e', 'm']);
    assert(rem@ =~= seq!['r', 'e', 'm']);
    assert(vw@ =~= seq!['v', 'w']);
    assert(vh@ =~= seq!['v', 'h']);
    assert(vmin@ =~= seq!['v', 'm', 'i', 'n']);
    assert(vmax@ =~= seq!['v', 'm', 'a', 'x']);
    if slice_is(s, e, u, &em) {
        Units::Em
    } else if slice_is(s, e, u, &rem) {
        Units::Rem
    } else if slice_is(s, e, u, &vw) {
        Units::Vw
    } else if slice_is(s, e, u, &vh) {
        Units::Vh
    } else if slice_is(s, e, u, &vmin) {
        Units::Vmin
    } else if slice_is(s, e, u, &vmax) {
        Units::Vmax
    } else {
        Units::Px
    }
}

fn hex_digit_value(c: char) -> (r: u8)
    requires
        crate::text::is_hex_digit(c),
    ensures
        r as nat == hex_value(c),
        r < 16,
{
    if '0' <= c && c <= '9' {
        (c as u32 - '0' as u32) as u8
    } else if 'a' <= c && c <= 'f' {
        (c as u32 - 'a' as u32 + 10) as u8
    } else {
        (c as u32 - 'A' as u32 + 10) as u8
    }
}

fn color_from(s: &[char], i: usize, e: usize) -> (r: [u8; 4])
    requires
        i < e <= s@.len(),
        s@[i as int] == '#',
        forall|j: int| i < j < e ==> crate::text::is_hex_digit(#[trigger] s@[j]),
    ensures
        r@ == color_of(s@.subrange(i as int, e as int)),
{
    let ghost t = s@.subrange(i as int, e as int);
    if e - i == 7 || e - i == 9 {
        let r = hex_digit_value(s[i + 1]) * 16 + hex_digit_value(s[i + 2]);
        let g = hex_digit_value(s[i + 3]) * 16 + hex_digit_value(s[i + 4]);
        let b = hex_digit_value(s[i + 5]) * 16 + hex_digit_value(s[i + 6]);
        let a = if e - i == 9 {
            hex_digit_value(s[i + 7]) * 16 + hex_digit_value(s[i + 8])
        } else {
            255
        };
        let c = [r, g, b, a];
        assert(t[1] == s@[i + 1] && t[2] == s@[i + 2] && t[3] == s@[i + 3] && t[4] == s@[i + 4]);
        assert(t[5] == s@[i + 5] && t[6] == s@[i + 6]);
        if e - i == 9 {
            assert(t[7] == s@[i + 7] && t[8] == s@[i + 8]);
        }
        assert(c@ =~= color_of(t));
        c
    } else {
        let c = [255u8, 255u8, 255u8, 255u8];
        assert(c@ =~= color_of(t));
        c
    }
}

fn parse_explicit(s: &[char], i: usize) -> (r: Option<(ComputedValue, usize)>)
    requires
        i <= s@.len(),
    ensures
        same_result(r, sp_explicit(s@, i as int)),
        r matches Some((v, e)) ==> i < e <= s@.len(),
{
    if i < s.len() && s[i] == '#' {
        let e = run(s, i + 1, CharClass::Hex);
        if e > i + 1 {
            return Some((ComputedValue::Color(color_from(s, i, e)), e));
        }
        return None;
    }
    if i < s.len() && s[i] == '"' {
        let e = run(s, i + 1, CharClass::Quoted);
        if e < s.len() {
            return Some((ComputedValue::Str(string_from(s, i + 1, e)), e + 1));
        }
        return None;
    }
    match parse_number(s, i) {
        Some((lex, e)) => {
            let d = decimal_from(s, &lex);
            let u = run(s, e, CharClass::Alpha);
            let ms = ['m', 's'];
            let sec = ['s'];
            assert(ms@ =~= seq!['m', 's']);
            assert(sec@ =~= seq!['s']);
            if e < s.len() && s[e] == '%' {
                Some((ComputedValue::Percentage(d.shifted(2)), e + 1))
            } else if slice_is(s, e, u, &sec) {
                Some((ComputedValue::Time(d), u))
            } else if slice_is(s, e, u, &ms) {
                Some((ComputedValue::Time(d.shifted(3)), u))
            } else if u > e {
                Some((ComputedValue::Dimension(Dim { value: d, unit: units_from(s, e, u) }), u))
            } else if e == i + 1 && s[i] == '0' {
                Some((ComputedValue::Zero, e))
            } else {
                Some((ComputedValue::Number(d), e))
            }
        },
        None => {
            let e = run(s, i, CharClass::Ident);
            if e > i && !ascii_digit(s[i]) {
                Some((ComputedValue::Keyword(string_from(s, i, e)), e))
            } else {
                None
            }
        },
    }
}


// ---------------------------------------------------------------------------------------
// Executable reader: values and declarations

fn explicit_definition(v: ComputedValue) -> (d: Definition)
    ensures
        d@ == DefinitionV::Explicit(v@),
{
    let d = Definition::Explicit(v);
    proof {
        lemma_definition_view(d);
    }
    d
}

fn parse_value(s: &[char], i: usize) -> (r: Option<(Definition, usize)>)
    requires
        i <= s@.len(),
    ensures
        same_result(r, sp_value(s@, i as int)),
        r matches Some((v, e)) ==> i < e <= s@.len(),
    decreases s@.len() - i, 0int,
{
    let e = run(s, i, CharClass::Ident);
    if e > i && !ascii_digit(s[i]) && e < s.len() && s[e] == '(' {
        let k = skip_css(s, e + 1);
        let var = ['v', 'a', 'r'];
        assert(var@ =~= var_name());
        if slice_is(s, i, e, &var) {
            let ve = run(s, k, CharClass::Ident);
            let z = skip_css(s, ve);
            if ve > k && z < s.len() && s[z] == ')' {
                let d = Definition::Var(string_from(s, k, ve));
                proof {
                    lemma_definition_view(d);
                }
                Some((d, z + 1))
            } else {
                None
            }
        } else {
            match parse_arguments(s, k) {
                Some((arguments, z)) => if z < s.len() && s[z] == ')' {
                    let d = Definition::Function(Function { name: string_from(s, i, e), arguments });
                    proof {
                        lemma_definition_view(d);
                    }
                    Some((d, z + 1))
                } else {
                    None
                },
                None => None,
            }
        }
    } else {
        match parse_explicit(s, i) {
            Some((v, e)) => Some((explicit_definition(v), e)),
            None => None,
        }
    }
}

fn parse_arguments(s: &[char], p: usize) -> (r: Option<(Vec<Definition>, usize)>)
    requires
        0 < p <= s@.len(),
    ensures
        match r {
            Some((v, e)) => sp_arguments(s@, p as int) == Some((views(v@), e as int)) && p <= e
                <= s@.len(),
            None => sp_arguments(s@, p as int) is None,
        },
    decreases s@.len() - p, 1int,
{
    let mut acc: Vec<Definition> = Vec::new();
    proof {
        lemma_views_empty::<Definition>();
    }
    let (v, e) = match parse_value(s, p) {
        Some(x) => x,
        None => {
            assert(views(acc@) =~= Seq::<DefinitionV>::empty());
            return Some((acc, p));
        },
    };
    proof {
        lemma_views_push(acc@, v);
        lemma_prefixed_empty(sp_more_arguments(s@, css_ws(s@, e as int)), (Seq::empty(), 0));
        if let Some((rest, z)) = sp_more_arguments(s@, css_ws(s@, e as int)) {
            lemma_prefixed_step(Seq::<DefinitionV>::empty(), v@, rest, z);
        }
    }
    acc.push(v);
    let mut j = skip_css(s, e);
    loop
        invariant
            p < j <= s@.len(),
            sp_arguments(s@, p as int) == prefixed(views(acc@), sp_more_arguments(s@, j as int)),
        decreases s@.len() - j,
    {
        if j < s.len() && s[j] == ',' {
            let k = skip_css(s, j + 1);
            match parse_value(s, k) {
                Some((v, e)) => {
                    proof {
                        lemma_views_push(acc@, v);
                        if let Some((rest, z)) = sp_more_arguments(s@, css_ws(s@, e as int)) {
                            lemma_prefixed_step(views(acc@), v@, rest, z);
                        }
                    }
                    acc.push(v);
                    j = skip_css(s, e);
                },
                None => {
                    return None;
                },
            }
        } else {
            assert(views(acc@) + Seq::<DefinitionV>::empty() =~= views(acc@));
            return Some((acc, j));
        }
    }
}

fn parse_values(s: &[char], e0: usize, acc: &mut Vec<Definition>) -> (end: usize)
    requires
        e0 <= s@.len(),
    ensures
        prefixed_total(views(old(acc)@), sp_values(s@, e0 as int)) == (views(final(acc)@), end as int),
        e0 <= end <= s@.len(),
{
    let mut e = e0;
    proof {
        assert(views(acc@) + sp_values(s@, e0 as int).0 == views(acc@) + sp_values(s@, e0 as int).0);
    }
    let ghost start = views(acc@);
    assert(start == views(old(acc)@));
    loop
        invariant
            start == views(old(acc)@),
            e0 <= e <= s@.len(),
            prefixed_total(start, sp_values(s@, e0 as int)) == prefixed_total(views(acc@), sp_values(s@, e as int)),
        decreases s@.len() - e,
    {
        let j = skip_css(s, e);
        match parse_value(s, j) {
            Some((v, f)) => {
                proof {
                    lemma_views_push(acc@, v);
                    let (rest, end) = sp_values(s@, f as int);
                    lemma_prefixed_step(views(acc@), v@, rest, end);
                }
                acc.push(v);
                e = f;
            },
            None => {
                assert(views(acc@) + Seq::<DefinitionV>::empty() =~= views(acc@));
                return e;
            },
        }
    }
}

fn parse_shorthand(s: &[char], p: usize) -> (r: Option<(Vec<Definition>, usize)>)
    requires
        p <= s@.len(),
    ensures
        match r {
            Some((v, e)) => sp_shorthand(s@, p as int) == Some((views(v@), e as int)) && p < e
                <= s@.len(),
            None => sp_shorthand(s@, p as int) is None,
        },
{
    match parse_value(s, p) {
        Some((v, e)) => {
            let mut acc: Vec<Definition> = Vec::new();
            proof {
                lemma_views_empty::<Definition>();
                lemma_views_push(acc@, v);
            }
            acc.push(v);
            let end = parse_values(s, e, &mut acc);
            proof {
                assert(seq![v@] + sp_values(s@, e as int).0 =~= views(acc@));
            }
            Some((acc, end))
        },
        None => None,
    }
}

proof fn lemma_shorthands_push(v: Seq<Vec<Definition>>, x: Vec<Definition>)
    ensures
        shorthands_view(v.push(x)) == shorthands_view(v).push(shorthand_view(x)),
{
    assert(shorthands_view(v.push(x)) =~= shorthands_view(v).push(shorthand_view(x)));
}

fn parse_shorthands(s: &[char], p: usize) -> (r: Option<(Vec<Vec<Definition>>, usize)>)
    requires
        p <= s@.len(),
    ensures
        match r {
            Some((v, e)) => sp_shorthands(s@, p as int) == Some((shorthands_view(v@), e as int))
                && p < e <= s@.len() && v@.len() > 0,
            None => sp_shorthands(s@, p as int) is None,
        },
{
    let (first, e0) = match parse_shorthand(s, p) {
        Some(x) => x,
        None => return None,
    };
    let mut acc: Vec<Vec<Definition>> = Vec::new();
    proof {
        assert(shorthands_view(acc@) =~= Seq::<Seq<DefinitionV>>::empty());
        lemma_shorthands_push(acc@, first);
        if let Some((rest, z)) = sp_more_shorthands(s@, e0 as int) {
            lemma_prefixed_step(Seq::<Seq<DefinitionV>>::empty(), shorthand_view(first), rest, z);
            assert(Seq::<Seq<DefinitionV>>::empty() + (seq![shorthand_view(first)] + rest) =~= seq![shorthand_view(first)] + rest);
        }
    }
    acc.push(first);
    let mut e = e0;
    loop
        invariant
            p < e <= s@.len(),
            acc@.len() > 0,
            sp_shorthands(s@, p as int) == prefixed(shorthands_view(acc@), sp_more_shorthands(s@, e as int)),
        decreases s@.len() - e,
    {
        let j = skip_css(s, e);
        if j < s.len() && s[j] == ',' {
            let k = skip_css(s, j + 1);
            match parse_shorthand(s, k) {
                Some((v, f)) => {
                    proof {
                        lemma_shorthands_push(acc@, v);
                        if let Some((rest, z)) = sp_more_shorthands(s@, f as int) {
                            lemma_prefixed_step(shorthands_view(acc@), shorthand_view(v), rest, z);
                        }
                    }
                    acc.push(v);
                    e = f;
                },
                None => {
                    return None;
                },
            }
        } else {
            assert(shorthands_view(acc@) + Seq::<Seq<DefinitionV>>::empty() =~= shorthands_view(acc@));
            return Some((acc, e));
        }
    }
}

fn declaration_from(name: String, values: Vec<Vec<Definition>>) -> (r: Option<Declaration>)
    requires
        values@.len() > 0,
    ensures
        match r {
            Some(d) => declaration_of(name@, shorthands_view(values@)) == Some(d@),
            None => declaration_of(name@, shorthands_view(values@)) is None,
        },
{
    let chars = chars_of(name.as_str());
    proof {
        lemma_has_at2(name@, 0, '-', '-');
    }
    if chars.len() >= 2 && chars[0] == '-' && chars[1] == '-' {
        let mut values = values;
        let ghost vs = values@;
        let first = values.remove(0);
        assert(shorthands_view(vs)[0] == shorthand_view(first));
        Some(Declaration::Variable(Variable { key: name, shorthand: first }))
    } else {
        match PropertyKey::parse(name.as_str()) {
            Some(key) => Some(Declaration::Property(Property { key, values })),
            None => None,
        }
    }
}

fn parse_declaration(s: &[char], j: usize) -> (r: Option<(Option<Declaration>, usize)>)
    requires
        j <= s@.len(),
    ensures
        match r {
            Some((d, e)) => j < e <= s@.len() && sp_declaration(s@, j as int) == Some(
                (
                    match d {
                        Some(x) => Some(x@),
                        None => None,
                    },
                    e as int,
                ),
            ),
            None => sp_declaration(s@, j as int) is None,
        },
{
    let ne = run(s, j, CharClass::Ident);
    let k = skip_css(s, ne);
    if !(ne > j && k < s.len() && s[k] == ':') {
        return None;
    }
    let v = skip_css(s, k + 1);
    match parse_shorthands(s, v) {
        Some((values, e)) => {
            let z = skip_css(s, e);
            if z < s.len() && s[z] == ';' {
                let d = declaration_from(string_from(s, j, ne), values);
                Some((d, z + 1))
            } else {
                None
            }
        },
        None => None,
    }
}

fn parse_declarations(s: &[char], p0: usize) -> (r: (Vec<Declaration>, usize))
    requires
        p0 <= s@.len(),
    ensures
        sp_declarations(s@, p0 as int) == (views(r.0@), r.1 as int),
        p0 <= r.1 <= s@.len(),
{
    let mut acc: Vec<Declaration> = Vec::new();
    let mut p = p0;
    proof {
        lemma_views_empty::<Declaration>();
        lemma_prefixed_empty(None, sp_declarations(s@, p0 as int));
    }
    loop
        invariant
            p0 <= p <= s@.len(),
            sp_declarations(s@, p0 as int) == prefixed_total(views(acc@), sp_declarations(s@, p as int)),
        decreases s@.len() - p,
    {
        let j = skip_css(s, p);
        match parse_declaration(s, j) {
            Some((d, e)) => {
                match d {
                    Some(x) => {
                        proof {
                            lemma_views_push(acc@, x);
                            let (rest, end) = sp_declarations(s@, e as int);
                            lemma_prefixed_step(views(acc@), x@, rest, end);
                        }
                        acc.push(x);
                    },
                    None => {},
                }
                p = e;
            },
            None => {
                assert(views(acc@) + Seq::<DeclarationV>::empty() =~= views(acc@));
                return (acc, p);
            },
        }
    }
}

fn parse_block(s: &[char], p: usize) -> (r: Option<(Vec<Declaration>, usize)>)
    requires
        p <= s@.len(),
    ensures
        match r {
            Some((v, e)) => sp_block(s@, p as int) == Some((views(v@), e as int)) && p < e <= s@.len(),
            None => sp_block(s@, p as int) is None,
        },
{
    if !(p < s.len() && s[p] == '{') {
        return None;
    }
    let (ds, e) = parse_declarations(s, p + 1);
    let z = skip_css(s, e);
    if z < s.len() && s[z] == '}' {
        Some((ds, z + 1))
    } else {
        None
    }
}


// ---------------------------------------------------------------------------------------
// Executable reader: selectors

fn parse_matcher(s: &[char], m: usize) -> (r: Option<(Matcher, usize)>)
    requires
        m <= s@.len(),
    ensures
        match r {
            Some((x, n)) => sp_matcher(s@, m as int) == Some((x, n as int)) && 1 <= n <= 2 && m + n <= s@.len(),
            None => sp_matcher(s@, m as int) is None,
        },
{
    if m < s.len() && s[m] == '=' {
        return Some((Matcher::Equal, 1));
    }
    if m < s.len() && m + 1 < s.len() && s[m + 1] == '=' {
        let c = s[m];
        if c == '~' {
            Some((Matcher::Include, 2))
        } else if c == '|' {
            Some((Matcher::DashMatch, 2))
        } else if c == '^' {
            Some((Matcher::Prefix, 2))
        } else if c == '$' {
            Some((Matcher::Suffix, 2))
        } else if c == '*' {
            Some((Matcher::Substring, 2))
        } else {
            None
        }
    } else {
        None
    }
}

fn parse_attribute_value(s: &[char], v: usize) -> (r: Option<(String, usize)>)
    requires
        v <= s@.len(),
    ensures
        match r {
            Some((x, e)) => sp_attribute_value(s@, v as int) == Some((x@, e as int)) && v < e <= s@.len(),
            None => sp_attribute_value(s@, v as int) is None,
        },
{
    if v < s.len() && s[v] == '"' {
        let e = run(s, v + 1, CharClass::Quoted);
        if e < s.len() {
            Some((string_from(s, v + 1, e), e + 1))
        } else {
            None
        }
    } else {
        let e = run(s, v, CharClass::Ident);
        if e > v {
            Some((string_from(s, v, e), e))
        } else {
            None
        }
    }
}

fn parse_attribute_selector(s: &[char], i: usize) -> (r: Option<(Simple, usize)>)
    requires
        i < s@.len(),
    ensures
        same_result(r, sp_attribute_selector(s@, i as int)),
        r matches Some((x, e)) ==> i < e <= s@.len(),
{
    let n = s.len();
    assert(i + 1 <= n);
    let k = skip_css(s, i + 1);
    let ne = run(s, k, CharClass::Ident);
    let m = skip_css(s, ne);
    if ne == k {
        return None;
    }
    if m < s.len() && s[m] == ']' {
        return Some((Simple::Attribute(string_from(s, k, ne), Matcher::Exist, String::new()), m + 1));
    }
    match parse_matcher(s, m) {
        Some((matcher, n)) => match parse_attribute_value(s, skip_css(s, m + n)) {
            Some((value, e)) => {
                let z = skip_css(s, e);
                if z < s.len() && s[z] == ']' {
                    Some((Simple::Attribute(string_from(s, k, ne), matcher, value), z + 1))
                } else {
                    None
                }
            },
            None => None,
        },
        None => None,
    }
}

fn parse_simple(s: &[char], i: usize) -> (r: Option<(Simple, usize)>)
    requires
        i <= s@.len(),
    ensures
        same_result(r, sp_simple(s@, i as int)),
        r matches Some((x, e)) ==> i < e <= s@.len(),
{
    if i >= s.len() {
        return None;
    }
    let c = s[i];
    if c == '*' {
        Some((Simple::All, i + 1))
    } else if c == '#' || c == '.' {
        let e = run(s, i + 1, CharClass::Ident);
        if e > i + 1 {
            let name = string_from(s, i + 1, e);
            if c == '#' {
                Some((Simple::Id(name), e))
            } else {
                Some((Simple::Class(name), e))
            }
        } else {
            None
        }
    } else if c == '[' {
        parse_attribute_selector(s, i)
    } else if c == ':' {
        if i + 1 < s.len() && s[i + 1] == ':' {
            let e = run(s, i + 2, CharClass::Ident);
            if e > i + 2 {
                Some((Simple::PseudoElement(string_from(s, i + 2, e)), e))
            } else {
                None
            }
        } else {
            let e = run(s, i + 1, CharClass::Ident);
            if e > i + 1 {
                let root = ['r', 'o', 'o', 't'];
                assert(root@ =~= root_name());
                if slice_is(s, i + 1, e, &root) {
                    Some((Simple::Root, e))
                } else {
                    Some((Simple::PseudoClass(string_from(s, i + 1, e)), e))
                }
            } else {
                None
            }
        }
    } else {
        let e = run(s, i, CharClass::Ident);
        if e > i && !ascii_digit(c) {
            Some((Simple::Type(string_from(s, i, e)), e))
        } else {
            None
        }
    }
}

/// Appends the simple selectors written together from `e0`.
fn parse_simples(s: &[char], e0: usize, acc: &mut Vec<Simple>) -> (end: usize)
    requires
        e0 <= s@.len(),
    ensures
        prefixed_total(views(old(acc)@), sp_simples(s@, e0 as int)) == (views(final(acc)@), end as int),
        e0 <= end <= s@.len(),
{
    let mut e = e0;
    let ghost start = views(acc@);
    loop
        invariant
            start == views(old(acc)@),
            e0 <= e <= s@.len(),
            prefixed_total(start, sp_simples(s@, e0 as int)) == prefixed_total(views(acc@), sp_simples(s@, e as int)),
        decreases s@.len() - e,
    {
        match parse_simple(s, e) {
            Some((x, f)) => {
                proof {
                    lemma_views_push(acc@, x);
                    let (rest, end) = sp_simples(s@, f as int);
                    lemma_prefixed_step(views(acc@), x@, rest, end);
                }
                acc.push(x);
                e = f;
            },
            None => {
                assert(views(acc@) + Seq::<SimpleV>::empty() =~= views(acc@));
                return e;
            },
        }
    }
}

/// Appends a compound selector at `i`.
fn parse_compound(s: &[char], i: usize, acc: &mut Vec<Simple>) -> (r: Option<usize>)
    requires
        i <= s@.len(),
    ensures
        match r {
            Some(e) => sp_compound(s@, i as int) matches Some((xs, f)) && f == e && views(final(acc)@) == views(old(acc)@) + xs && i < e <= s@.len(),
            None => sp_compound(s@, i as int) is None,
        },
{
    match parse_simple(s, i) {
        Some((x, e)) => {
            let ghost before = views(acc@);
            proof {
                lemma_views_push(acc@, x);
            }
            acc.push(x);
            let end = parse_simples(s, e, acc);
            proof {
                assert(before.push(x@) + sp_simples(s@, e as int).0 =~= before + (seq![x@] + sp_simples(s@, e as int).0));
            }
            Some(end)
        },
        None => None,
    }
}

#[verifier::rlimit(100)]
#[verifier::spinoff_prover]
fn parse_complex(s: &[char], i: usize) -> (r: Option<(Complex, usize)>)
    requires
        i <= s@.len(),
    ensures
        same_result(r, sp_complex(s@, i as int)),
        r matches Some((x, e)) ==> i < e <= s@.len(),
{
    let mut acc: Vec<Simple> = Vec::new();
    proof {
        lemma_views_empty::<Simple>();
    }
    let mut e = match parse_compound(s, i, &mut acc) {
        Some(e) => e,
        None => return None,
    };
    let ghost first = views(acc@);
    proof {
        match sp_complex_rest(s@, e as int) {
            Some((rest, end)) => {
                assert(Seq::<SimpleV>::empty() + first =~= first);
            },
            None => {},
        }
    }
    loop
        invariant
            i < e <= s@.len(),
            sp_complex(s@, i as int) == prefixed(views(acc@), sp_complex_rest(s@, e as int)),
        decreases s@.len() - e,
    {
        let j = skip_css(s, e);
        if j < s.len() && (s[j] == '>' || s[j] == '+' || s[j] == '~') {
            let c = s[j];
            let ghost before = views(acc@);
            let comb = Simple::Combinator(c);
            proof {
                lemma_views_push(acc@, comb);
            }
            acc.push(comb);
            match parse_compound(s, skip_css(s, j + 1), &mut acc) {
                Some(f) => {
                    proof {
                        let xs = sp_compound(s@, css_ws(s@, j + 1)).unwrap().0;
                        if let Some((rest, end)) = sp_complex_rest(s@, f as int) {
                            assert(before + (seq![SimpleV::Combinator(c)] + xs + rest) =~= views(acc@) + rest);
                        }
                    }
                    e = f;
                },
                None => return None,
            }
        } else if j > e {
            let ghost before = views(acc@);
            let comb = Simple::Combinator(' ');
            let mut more: Vec<Simple> = Vec::new();
            match parse_compound(s, j, &mut more) {
                Some(f) => {
                    proof {
                        lemma_views_empty::<Simple>();
                        lemma_views_push(acc@, comb);
                    }
                    acc.push(comb);
                    let ghost mid = views(acc@);
                    let ghost xs = views(more@);
                    acc.append(&mut more);
                    proof {
                        assert(views(acc@) =~= mid + xs);
                        assert(Seq::<SimpleV>::empty() + xs =~= xs);
                        if let Some((rest, end)) = sp_complex_rest(s@, f as int) {
                            assert(before + (seq![SimpleV::Combinator(' ')] + xs + rest) =~= views(acc@) + rest);
                        }
                    }
                    e = f;
                },
                None => {
                    assert(views(acc@) + Seq::<SimpleV>::empty() =~= views(acc@));
                    return Some((Complex { selectors: acc }, e));
                },
            }
        } else {
            assert(views(acc@) + Seq::<SimpleV>::empty() =~= views(acc@));
            return Some((Complex { selectors: acc }, e));
        }
    }
}

fn parse_selectors(s: &[char], i: usize) -> (r: Option<(Vec<Complex>, usize)>)
    requires
        i <= s@.len(),
    ensures
        match r {
            Some((v, e)) => sp_selectors(s@, i as int) == Some((views(v@), e as int)) && i < e <= s@.len(),
            None => sp_selectors(s@, i as int) is None,
        },
{
    let (first, e0) = match parse_complex(s, i) {
        Some(x) => x,
        None => return None,
    };
    let mut acc: Vec<Complex> = Vec::new();
    proof {
        lemma_views_empty::<Complex>();
        lemma_views_push(acc@, first);
        if let Some((rest, z)) = sp_more_complex(s@, e0 as int) {
            assert(Seq::<Seq<SimpleV>>::empty().push(first@) + rest =~= seq![first@] + rest);
        }
    }
    acc.push(first);
    let mut e = e0;
    loop
        invariant
            i < e <= s@.len(),
            sp_selectors(s@, i as int) == prefixed(views(acc@), sp_more_complex(s@, e as int)),
        decreases s@.len() - e,
    {
        let j = skip_css(s, e);
        if j < s.len() && s[j] == ',' {
            match parse_complex(s, skip_css(s, j + 1)) {
                Some((x, f)) => {
                    proof {
                        lemma_views_push(acc@, x);
                        if let Some((rest, z)) = sp_more_complex(s@, f as int) {
                            lemma_prefixed_step(views(acc@), x@, rest, z);
                        }
                    }
                    acc.push(x);
                    e = f;
                },
                None => return None,
            }
        } else {
            assert(views(acc@) + Seq::<Seq<SimpleV>>::empty() =~= views(acc@));
            return Some((acc, e));
        }
    }
}


// ---------------------------------------------------------------------------------------
// Executable reader: rules

fn step_from(d: Decimal) -> (r: u32)
    ensures
        r == step_of(d),
{
    if d.negative {
        0
    } else {
        let t = d.trunc();
        if t > u32::MAX as u64 {
            u32::MAX
        } else {
            t as u32
        }
    }
}

fn parse_step(s: &[char], j: usize) -> (r: Option<(u32, usize)>)
    requires
        j <= s@.len(),
    ensures
        match r {
            Some((x, e)) => sp_step(s@, j as int) == Some((x, e as int)) && j < e <= s@.len(),
            None => sp_step(s@, j as int) is None,
        },
{
    match parse_number(s, j) {
        Some((n, e)) => {
            if e < s.len() && s[e] == '%' {
                let d = decimal_from(s, &n);
                Some((step_from(d), e + 1))
            } else {
                None
            }
        },
        None => {
            let e = run(s, j, CharClass::Ident);
            if e > j && !ascii_digit(s[j]) {
                let to = ['t', 'o'];
                assert(to@ =~= to_word());
                if slice_is(s, j, e, &to) {
                    Some((100, e))
                } else {
                    Some((0, e))
                }
            } else {
                None
            }
        },
    }
}

fn parse_keyframe(s: &[char], j: usize) -> (r: Option<(Keyframe, usize)>)
    requires
        j <= s@.len(),
    ensures
        same_result(r, sp_keyframe(s@, j as int)),
        r matches Some((x, e)) ==> j < e <= s@.len(),
{
    match parse_step(s, j) {
        Some((step, e)) => match parse_block(s, skip_css(s, e)) {
            Some((declaration, f)) => Some((Keyframe { step, declaration }, f)),
            None => None,
        },
        None => None,
    }
}

fn parse_keyframes(s: &[char], p0: usize) -> (r: (Vec<Keyframe>, usize))
    requires
        p0 <= s@.len(),
    ensures
        sp_keyframes(s@, p0 as int) == (views(r.0@), r.1 as int),
        p0 <= r.1 <= s@.len(),
{
    let mut acc: Vec<Keyframe> = Vec::new();
    let mut p = p0;
    proof {
        lemma_views_empty::<Keyframe>();
        lemma_prefixed_empty(None, sp_keyframes(s@, p0 as int));
    }
    loop
        invariant
            p0 <= p <= s@.len(),
            sp_keyframes(s@, p0 as int) == prefixed_total(views(acc@), sp_keyframes(s@, p as int)),
        decreases s@.len() - p,
    {
        match parse_keyframe(s, skip_css(s, p)) {
            Some((k, e)) => {
                proof {
                    lemma_views_push(acc@, k);
                    let (rest, end) = sp_keyframes(s@, e as int);
                    lemma_prefixed_step(views(acc@), k@, rest, end);
                }
                acc.push(k);
                p = e;
            },
            None => {
                assert(views(acc@) + Seq::<KeyframeV>::empty() =~= views(acc@));
                return (acc, p);
            },
        }
    }
}

fn parse_animation(s: &[char], i: usize) -> (r: Option<(Animation, usize)>)
    requires
        i <= s@.len(),
        has_at(s@, i as int, keyframes_word()),
    ensures
        same_result(r, sp_animation(s@, i as int)),
        r matches Some((x, e)) ==> i < e <= s@.len(),
{
    let n = s.len();
    assert(keyframes_word().len() == 10);
    assert(i + 10 <= n);
    let k = skip_css(s, i + 10);
    let ne = run(s, k, CharClass::Ident);
    let b = skip_css(s, ne);
    if ne > k && b < s.len() && s[b] == '{' {
        let (keyframes, e) = parse_keyframes(s, b + 1);
        let z = skip_css(s, e);
        if z < s.len() && s[z] == '}' {
            Some((Animation { name: string_from(s, k, ne), keyframes }, z + 1))
        } else {
            None
        }
    } else {
        None
    }
}

fn parse_style(s: &[char], i: usize) -> (r: Option<(Style, usize)>)
    requires
        i <= s@.len(),
    ensures
        same_result(r, sp_style(s@, i as int)),
        r matches Some((x, e)) ==> i < e <= s@.len(),
{
    match parse_selectors(s, i) {
        Some((selectors, e)) => match parse_block(s, skip_css(s, e)) {
            Some((declaration, f)) => Some((Style { selectors, declaration }, f)),
            None => None,
        },
        None => None,
    }
}

enum Rule {
    Style(Style),
    Animation(Animation),
}

impl View for Rule {
    type V = RuleV;

    closed spec fn view(&self) -> RuleV {
        match self {
            Rule::Style(x) => RuleV::Style(x@),
            Rule::Animation(x) => RuleV::Animation(x@),
        }
    }
}

#[verifier::rlimit(100)]
#[verifier::spinoff_prover]
fn parse_rule(s: &[char], i: usize) -> (r: Option<(Rule, usize)>)
    requires
        i <= s@.len(),
    ensures
        same_result(r, sp_rule(s@, i as int)),
        r matches Some((x, e)) ==> i < e <= s@.len(),
{
    let word = ['@', 'k', 'e', 'y', 'f', 'r', 'a', 'm', 'e', 's'];
    assert(word@ =~= keyframes_word());
    if matches_at(s, i, &word) {
        match parse_animation(s, i) {
            Some((a, e)) => Some((Rule::Animation(a), e)),
            None => None,
        }
    } else {
        match parse_style(s, i) {
            Some((st, e)) => Some((Rule::Style(st), e)),
            None => None,
        }
    }
}

proof fn lemma_animation_index(anims: Seq<AnimationV>, name: Seq<char>, k: int)
    requires
        0 <= k <= anims.len(),
        forall|i: int| 0 <= i < k ==> anims[i].name != name,
    ensures
        k < anims.len() && anims[k].name == name ==> animation_index(anims, name) == Some(k),
        k == anims.len() ==> animation_index(anims, name) is None,
    decreases anims.len(),
{
    if anims.len() > 0 {
        let shorter = anims.drop_last();
        if k < anims.len() {
            if k < shorter.len() {
                lemma_animation_index(shorter, name, k);
            } else {
                lemma_animation_index(shorter, name, shorter.len() as int);
            }
        } else {
            lemma_animation_index(shorter, name, shorter.len() as int);
        }
    }
}

fn put_animation_into(anims: &mut Vec<Animation>, a: Animation)
    ensures
        views(final(anims)@) == put_animation(views(old(anims)@), a@),
{
    let ghost before = views(anims@);
    let mut k: usize = 0;
    while k < anims.len()
        invariant
            before == views(anims@),
            before == views(old(anims)@),
            k <= anims@.len(),
            forall|i: int| 0 <= i < k ==> before[i].name != a@.name,
        decreases anims@.len() - k,
    {
        assert(before[k as int] == anims@[k as int]@);
        if crate::text::str_eq(anims[k].name.as_str(), a.name.as_str()) {
            proof {
                assert(before[k as int] == anims@[k as int]@);
                assert(before[k as int].name == a@.name);
                lemma_animation_index(before, a@.name, k as int);
            }
            let ghost av = a@;
            anims.set(k, a);
            assert(views(anims@) =~= before.update(k as int, av));
            return;
        }
        k = k + 1;
    }
    proof {
        lemma_animation_index(before, a@.name, k as int);
        lemma_views_push(anims@, a);
    }
    anims.push(a);
}

/// Adds a rule to a style sheet as [`css_of`] does.
fn put_rule(css: &mut Css, r: Rule)
    ensures
        ({
            let c = old(css)@;
            final(css)@ == match r@ {
                RuleV::Style(st) => CssV { styles: c.styles.push(st), animations: c.animations },
                RuleV::Animation(a) => CssV { styles: c.styles, animations: put_animation(c.animations, a) },
            }
        }),
{
    match r {
        Rule::Style(st) => {
            proof {
                lemma_views_push(css.styles@, st);
            }
            css.styles.push(st);
        },
        Rule::Animation(a) => {
            put_animation_into(&mut css.animations, a);
        },
    }
}

/// Why a style sheet could not be read.
#[derive(Debug)]
pub enum ReaderError {
    /// The text is not a style sheet of the grammar.
    Parsing,
    EmptyStyleSheet,
    Generic(String),
}

/// Reads a style sheet: rules with whitespace and comments around them.
pub fn read_css(css: &str) -> (r: Result<Css, ReaderError>)
    ensures
        r matches Ok(c) ==> sp_stylesheet(css@) == Some(c@),
        r matches Err(e) ==> sp_stylesheet(css@) is None && e is Parsing,
{
    let chars = chars_of(css);
    let s = chars.as_slice();
    let mut sheet = Css { styles: Vec::new(), animations: Vec::new() };
    let mut p: usize = 0;
    let ghost mut done: Seq<RuleV> = Seq::empty();
    proof {
        lemma_views_empty::<Style>();
        lemma_views_empty::<Animation>();
        lemma_prefixed_empty(None, sp_rules(s@, 0));
        assert(sheet@ == css_of(done));
    }
    loop
        invariant
            s@ == css@,
            p <= s@.len(),
            sp_rules(s@, 0) == prefixed_total(done, sp_rules(s@, p as int)),
            sheet@ == css_of(done),
        decreases s@.len() - p,
    {
        match parse_rule(s, skip_css(s, p)) {
            Some((rule, e)) => {
                let ghost rv = rule@;
                proof {
                    let (rest, end) = sp_rules(s@, e as int);
                    lemma_prefixed_step(done, rv, rest, end);
                    assert(done.push(rv).drop_last() =~= done);
                }
                put_rule(&mut sheet, rule);
                proof {
                    done = done.push(rv);
                }
                p = e;
            },
            None => {
                assert(done + Seq::<RuleV>::empty() =~= done);
                if skip_css(s, p) == s.len() {
                    return Ok(sheet);
                } else {
                    return Err(ReaderError::Parsing);
                }
            },
        }
    }
}

/// Reads the declarations of an inline style: `name: values;` repeated. Whatever follows
/// the last declaration that reads is left unread.
pub fn read_inline_css(block: &str) -> (r: Result<Vec<Declaration>, ReaderError>)
    ensures
        r matches Ok(ds) && views(ds@) == sp_declarations(block@, 0).0,
{
    let chars = chars_of(block);
    let (ds, _e) = parse_declarations(chars.as_slice(), 0);
    Ok(ds)
}

} // verus!

verus! {

proof fn lemma_animation_index_found(anims: Seq<AnimationV>, name: Seq<char>)
    ensures
        animation_index(anims, name) matches Some(k) ==> 0 <= k < anims.len() && anims[k].name == name,
        animation_index(anims, name) is None ==> forall|i: int| 0 <= i < anims.len() ==> anims[i].name != name,
    decreases anims.len(),
{
    if anims.len() > 0 {
        let shorter = anims.drop_last();
        lemma_animation_index_found(shorter, name);
        if animation_index(anims, name) is None {
            assert forall|i: int| 0 <= i < anims.len() implies anims[i].name != name by {
                if i < shorter.len() {
                    assert(anims[i] == shorter[i]);
                }
            }
        }
    }
}

pub open spec fn names_unique(anims: Seq<AnimationV>) -> bool {
    forall|i: int, j: int| 0 <= i < j < anims.len() ==> anims[i].name != anims[j].name
}

proof fn lemma_put_keeps_unique(anims: Seq<AnimationV>, a: AnimationV)
    requires
        names_unique(anims),
    ensures
        names_unique(put_animation(anims, a)),
        animation_index(put_animation(anims, a), a.name) matches Some(k) && put_animation(anims, a)[k] == a,
{
    lemma_animation_index_found(anims, a.name);
    let r = put_animation(anims, a);
    match animation_index(anims, a.name) {
        Some(k) => {
            assert forall|i: int| 0 <= i < r.len() implies #[trigger] r[i].name == anims[i].name by {}
            assert(forall|i: int| 0 <= i < k ==> anims[i].name != a.name);
            lemma_animation_index(r, a.name, k);
        },
        None => {
            lemma_animation_index(r, a.name, anims.len() as int);
        },
    }
}

/// One animation for each name: however many `@keyframes` rules a style sheet holds,
/// the names of its animations are pairwise distinct.
pub proof fn law_animation_names_unique(rules: Seq<RuleV>)
    ensures
        names_unique(css_of(rules).animations),
    decreases rules.len(),
{
    if rules.len() > 0 {
        law_animation_names_unique(rules.drop_last());
        if let RuleV::Animation(a) = rules.last() {
            lemma_put_keeps_unique(css_of(rules.drop_last()).animations, a);
        }
    }
}

/// The last `@keyframes` rule of a name wins: after it, the style sheet's animation of
/// that name is the one it defines.
pub proof fn law_last_animation_wins(rules: Seq<RuleV>, a: AnimationV)
    requires
        rules.len() > 0,
        rules.last() == RuleV::Animation(a),
    ensures
        animation_index(css_of(rules).animations, a.name) matches Some(k)
            && css_of(rules).animations[k] == a,
{
    law_animation_names_unique(rules.drop_last());
    lemma_put_keeps_unique(css_of(rules.drop_last()).animations, a);
}

/// Style rules keep their order and never touch the animations: a style rule appended
/// to a style sheet is its last style, and leaves its animations as they were.
pub proof fn law_style_rule_appends(rules: Seq<RuleV>, st: StyleV)
    ensures
        css_of(rules.push(RuleV::Style(st))).styles == css_of(rules).styles.push(st),
        css_of(rules.push(RuleV::Style(st))).animations == css_of(rules).animations,
{
    assert(rules.push(RuleV::Style(st)).drop_last() =~= rules);
}

} // verus!

verus! {

/// A name that is neither a custom property nor a known property declares nothing.
pub proof fn law_unknown_name_declares_nothing(name: Seq<char>, values: Seq<Seq<DefinitionV>>)
    requires
        !has_at(name, 0, seq!['-', '-']),
        property_key(name) is None,
    ensures
        declaration_of(name, values) is None,
{
}

/// A declaration of an unknown property is read and left out: the declarations of the
/// block are those that follow it, in their order, as if it were not there.
pub proof fn law_unknown_property_left_out(s: Seq<char>, p: int)
    requires
        sp_declaration(s, css_ws(s, p)) matches Some((d, e)) && d is None && p < e <= s.len(),
    ensures
        sp_declarations(s, p) == sp_declarations(s, sp_declaration(s, css_ws(s, p)).unwrap().1),
{
}


/// A declaration whose name is neither a custom property nor a known property is read
/// without failing the block and leaves nothing in it: the declarations from where it
/// stands are those after it, in their order.
pub proof fn law_unknown_declaration_read_past(s: Seq<char>, p: int)
    requires
        sp_declaration(s, css_ws(s, p)) matches Some((_, e)) && p < e <= s.len(),
        !has_at(s.subrange(css_ws(s, p), run_end(s, css_ws(s, p), CharClass::Ident)), 0, seq!['-', '-']),
        property_key(s.subrange(css_ws(s, p), run_end(s, css_ws(s, p), CharClass::Ident))) is None,
    ensures
        sp_declaration(s, css_ws(s, p)).unwrap().0 is None,
        sp_declarations(s, p) == sp_declarations(s, sp_declaration(s, css_ws(s, p)).unwrap().1),
{
}


/// Each unit of a dimension comes from its own name and from no other: `em`, `rem`, `vw`
/// (the viewport's width), `vh` (its height), `vmin`, `vmax`; any other name reads as
/// pixels.
pub proof fn law_units_read_from_their_own_name(u: Seq<char>)
    ensures
        (units_of(u) == Units::Em) == (u == seq!['e', 'm']),
        (units_of(u) == Units::Rem) == (u == seq!['r', 'e', 'm']),
        (units_of(u) == Units::Vw) == (u == seq!['v', 'w']),
        (units_of(u) == Units::Vh) == (u == seq!['v', 'h']),
        (units_of(u) == Units::Vmin) == (u == seq!['v', 'm', 'i', 'n']),
        (units_of(u) == Units::Vmax) == (u == seq!['v', 'm', 'a', 'x']),
        (units_of(u) == Units::Px) == (u != seq!['e', 'm'] && u != seq!['r', 'e', 'm'] && u != seq!['v', 'w']
            && u != seq!['v', 'h'] && u != seq!['v', 'm', 'i', 'n'] && u != seq!['v', 'm', 'a', 'x']),
{
    assert(seq!['e', 'm'] != seq!['r', 'e', 'm']);
    assert(seq!['v', 'w'] != seq!['v', 'h']) by {
        assert(seq!['v', 'w'][1] != seq!['v', 'h'][1]);
    }
    assert(seq!['v', 'w'] != seq!['e', 'm']) by {
        assert(seq!['v', 'w'][0] != seq!['e', 'm'][0]);
    }
    assert(seq!['v', 'h'] != seq!['e', 'm']) by {
        assert(seq!['v', 'h'][0] != seq!['e', 'm'][0]);
    }
    assert(seq!['v', 'm', 'i', 'n'] != seq!['v', 'm', 'a', 'x']) by {
        assert(seq!['v', 'm', 'i', 'n'][2] != seq!['v', 'm', 'a', 'x'][2]);
    }
    assert(seq!['v', 'm', 'i', 'n'] != seq!['r', 'e', 'm']) by {
        assert(seq!['v', 'm', 'i', 'n'][0] != seq!['r', 'e', 'm'][0]);
    }
    assert(seq!['v', 'm', 'a', 'x'] != seq!['r', 'e', 'm']) by {
        assert(seq!['v', 'm', 'a', 'x'][0] != seq!['r', 'e', 'm'][0]);
    }
}

} // verus!
