//! The style sheet model that the style sheet reader produces.
use vstd::prelude::*;
use crate::decimal::Decimal;
use crate::lexer::views;

pub mod property;
pub mod reader;
pub mod matching;

pub use property::PropertyKey;

verus! {

/// Units of lengths.
#[derive(Clone, Copy, Debug, PartialEq, Eq)]
pub enum Units {
    Px,
    Em,
    Rem,
    Vw,
    Vh,
    Vmin,
    Vmax,
}

/// A length with its unit.
#[derive(Clone, Copy, Debug, PartialEq, Eq)]
pub struct Dim {
    pub value: Decimal,
    pub unit: Units,
}

impl Dim {
    pub fn new(value: Decimal, unit: Units) -> (d: Dim)
        ensures
            d.value == value,
            d.unit == unit,
    {
        Dim { value, unit }
    }
}

/// A value that needs no further computation.
#[derive(Debug, PartialEq)]
pub enum ComputedValue {
    Keyword(String),
    Color([u8; 4]),
    Zero,
    Time(Decimal),
    Percentage(Decimal),
    Dimension(Dim),
    Number(Decimal),
    Str(String),
    Error,
}

pub enum ComputedValueV {
    Keyword(Seq<char>),
    Color(Seq<u8>),
    Zero,
    Time(Decimal),
    Percentage(Decimal),
    Dimension(Dim),
    Number(Decimal),
    Str(Seq<char>),
    Error,
}

impl View for ComputedValue {
    type V = ComputedValueV;

    open spec fn view(&self) -> ComputedValueV {
        match self {
            ComputedValue::Keyword(k) => ComputedValueV::Keyword(k@),
            ComputedValue::Color(c) => ComputedValueV::Color(c@),
            ComputedValue::Zero => ComputedValueV::Zero,
            ComputedValue::Time(t) => ComputedValueV::Time(*t),
            ComputedValue::Percentage(p) => ComputedValueV::Percentage(*p),
            ComputedValue::Dimension(d) => ComputedValueV::Dimension(*d),
            ComputedValue::Number(n) => ComputedValueV::Number(*n),
            ComputedValue::Str(s) => ComputedValueV::Str(s@),
            ComputedValue::Error => ComputedValueV::Error,
        }
    }
}

impl Clone for ComputedValue {
    fn clone(&self) -> (r: Self)
        ensures
            r@ == self@,
    {
        match self {
            ComputedValue::Keyword(k) => ComputedValue::Keyword(k.clone()),
            ComputedValue::Color(c) => ComputedValue::Color(*c),
            ComputedValue::Zero => ComputedValue::Zero,
            ComputedValue::Time(t) => ComputedValue::Time(*t),
            ComputedValue::Percentage(p) => ComputedValue::Percentage(*p),
            ComputedValue::Dimension(d) => ComputedValue::Dimension(*d),
            ComputedValue::Number(n) => ComputedValue::Number(*n),
            ComputedValue::Str(s) => ComputedValue::Str(s.clone()),
            ComputedValue::Error => ComputedValue::Error,
        }
    }
}

/// A call of a function such as `rgba(0, 0, 0, 0.5)` or `url("image.png")`.
#[derive(Debug, PartialEq)]
pub struct Function {
    pub name: String,
    pub arguments: Vec<Definition>,
}

/// A value as the style sheet writes it: explicit, a variable, or a function call.
#[derive(Debug, PartialEq)]
pub enum Definition {
    Explicit(ComputedValue),
    Var(String),
    Function(Function),
}

pub enum DefinitionV {
    Explicit(ComputedValueV),
    Var(Seq<char>),
    Function(Seq<char>, Seq<DefinitionV>),
}

#[verifier::opaque]
pub open spec fn definition_view(d: Definition) -> DefinitionV
    decreases d,
{
    match d {
        Definition::Explicit(v) => DefinitionV::Explicit(v@),
        Definition::Var(n) => DefinitionV::Var(n@),
        Definition::Function(f) => DefinitionV::Function(
            f.name@,
            Seq::new(
                f.arguments@.len(),
                |i: int|
                    if 0 <= i < f.arguments@.len() {
                        definition_view(f.arguments@[i])
                    } else {
                        arbitrary()
                    },
            ),
        ),
    }
}

impl View for Definition {
    type V = DefinitionV;

    open spec fn view(&self) -> DefinitionV {
        definition_view(*self)
    }
}

pub proof fn lemma_definition_view(d: Definition)
    ensures
        match d {
            Definition::Explicit(v) => d@ == DefinitionV::Explicit(v@),
            Definition::Var(n) => d@ == DefinitionV::Var(n@),
            Definition::Function(f) => d@ == DefinitionV::Function(f.name@, views(f.arguments@)),
        },
{
    reveal(definition_view);
    if let Definition::Function(f) = d {
        assert(definition_view(d)->Function_1 =~= views(f.arguments@));
    }
}

fn clone_definition(d: &Definition) -> (r: Definition)
    ensures
        r@ == d@,
    decreases d,
{
    proof {
        lemma_definition_view(*d);
    }
    let r = match d {
        Definition::Explicit(v) => Definition::Explicit(v.clone()),
        Definition::Var(n) => Definition::Var(n.clone()),
        Definition::Function(f) => {
            let mut arguments: Vec<Definition> = Vec::new();
            let mut k: usize = 0;
            while k < f.arguments.len()
                invariant
                    *d == Definition::Function(*f),
                    k <= f.arguments@.len(),
                    arguments@.len() == k,
                    forall|j: int| 0 <= j < k ==> #[trigger] arguments@[j]@ == f.arguments@[j]@,
                decreases f.arguments@.len() - k,
            {
                proof {
                    assert(decreases_to!(*d => (*d)->Function_0));
                    assert(decreases_to!(*f => f.arguments));
                    assert(decreases_to!(f.arguments => f.arguments@));
                    assert(decreases_to!(f.arguments@ => f.arguments@[k as int]));
                }
                arguments.push(clone_definition(&f.arguments[k]));
                k = k + 1;
            }
            assert(views(arguments@) =~= views(f.arguments@));
            Definition::Function(Function { name: f.name.clone(), arguments })
        },
    };
    proof {
        lemma_definition_view(r);
    }
    r
}

impl Clone for Definition {
    fn clone(&self) -> (r: Self)
        ensures
            r@ == self@,
    {
        clone_definition(self)
    }
}

/// A list of values separated by whitespace, such as `1px solid red`.
pub type Shorthand = Vec<Definition>;

pub open spec fn shorthand_view(v: Shorthand) -> Seq<DefinitionV> {
    views(v@)
}

pub open spec fn shorthands_view(v: Seq<Shorthand>) -> Seq<Seq<DefinitionV>> {
    v.map_values(|x: Shorthand| shorthand_view(x))
}

/// A custom property `--name: value;`.
#[derive(Debug, PartialEq)]
pub struct Variable {
    pub key: String,
    pub shorthand: Shorthand,
}

/// A property `name: value, value;`.
#[derive(Debug, PartialEq)]
pub struct Property {
    pub key: PropertyKey,
    pub values: Vec<Shorthand>,
}

#[derive(Debug, PartialEq)]
pub enum Declaration {
    Variable(Variable),
    Property(Property),
}

pub enum DeclarationV {
    Variable(Seq<char>, Seq<DefinitionV>),
    Property(PropertyKey, Seq<Seq<DefinitionV>>),
}

impl View for Declaration {
    type V = DeclarationV;

    open spec fn view(&self) -> DeclarationV {
        match self {
            Declaration::Variable(v) => DeclarationV::Variable(v.key@, shorthand_view(v.shorthand)),
            Declaration::Property(p) => DeclarationV::Property(p.key, shorthands_view(p.values@)),
        }
    }
}

/// How an attribute selector compares the value of the attribute.
#[derive(Clone, Copy, Debug, PartialEq, Eq)]
pub enum Matcher {
    Exist,
    Equal,
    Include,
    DashMatch,
    Prefix,
    Suffix,
    Substring,
}

/// A simple selector, or a combinator between compound selectors.
#[derive(Debug, PartialEq)]
pub enum Simple {
    All,
    Root,
    Id(String),
    Class(String),
    Type(String),
    Attribute(String, Matcher, String),
    PseudoClass(String),
    PseudoElement(String),
    Combinator(char),
}

pub enum SimpleV {
    All,
    Root,
    Id(Seq<char>),
    Class(Seq<char>),
    Type(Seq<char>),
    Attribute(Seq<char>, Matcher, Seq<char>),
    PseudoClass(Seq<char>),
    PseudoElement(Seq<char>),
    Combinator(char),
}

impl View for Simple {
    type V = SimpleV;

    open spec fn view(&self) -> SimpleV {
        match self {
            Simple::All => SimpleV::All,
            Simple::Root => SimpleV::Root,
            Simple::Id(x) => SimpleV::Id(x@),
            Simple::Class(x) => SimpleV::Class(x@),
            Simple::Type(x) => SimpleV::Type(x@),
            Simple::Attribute(n, m, v) => SimpleV::Attribute(n@, *m, v@),
            Simple::PseudoClass(x) => SimpleV::PseudoClass(x@),
            Simple::PseudoElement(x) => SimpleV::PseudoElement(x@),
            Simple::Combinator(c) => SimpleV::Combinator(*c),
        }
    }
}

impl Simple {
    /// The combinator, where this is one.
    pub fn as_combinator(&self) -> (r: Option<char>)
        ensures
            match self {
                Simple::Combinator(c) => r == Some(*c),
                _ => r is None,
            },
    {
        match self {
            Simple::Combinator(c) => Some(*c),
            _ => None,
        }
    }
}

/// A complex selector: compound selectors joined by combinators, written from left to right.
#[derive(Debug, PartialEq)]
pub struct Complex {
    pub selectors: Vec<Simple>,
}

impl View for Complex {
    type V = Seq<SimpleV>;

    open spec fn view(&self) -> Seq<SimpleV> {
        views(self.selectors@)
    }
}

/// A style rule: selectors and the declarations they apply.
#[derive(Debug, PartialEq)]
pub struct Style {
    pub selectors: Vec<Complex>,
    pub declaration: Vec<Declaration>,
}

pub struct StyleV {
    pub selectors: Seq<Seq<SimpleV>>,
    pub declaration: Seq<DeclarationV>,
}

impl View for Style {
    type V = StyleV;

    open spec fn view(&self) -> StyleV {
        StyleV { selectors: views(self.selectors@), declaration: views(self.declaration@) }
    }
}

/// One step of an animation: the declarations that hold at `step` percent of it.
#[derive(Debug, PartialEq)]
pub struct Keyframe {
    pub step: u32,
    pub declaration: Vec<Declaration>,
}

pub struct KeyframeV {
    pub step: u32,
    pub declaration: Seq<DeclarationV>,
}

impl View for Keyframe {
    type V = KeyframeV;

    open spec fn view(&self) -> KeyframeV {
        KeyframeV { step: self.step, declaration: views(self.declaration@) }
    }
}

/// A named animation, `@keyframes name { ... }`.
#[derive(Debug, PartialEq)]
pub struct Animation {
    pub name: String,
    pub keyframes: Vec<Keyframe>,
}

pub struct AnimationV {
    pub name: Seq<char>,
    pub keyframes: Seq<KeyframeV>,
}

impl View for Animation {
    type V = AnimationV;

    open spec fn view(&self) -> AnimationV {
        AnimationV { name: self.name@, keyframes: views(self.keyframes@) }
    }
}

/// A style sheet: its style rules in order, and its animations, one for each name.
#[derive(Debug, PartialEq)]
pub struct Css {
    pub styles: Vec<Style>,
    pub animations: Vec<Animation>,
}

pub struct CssV {
    pub styles: Seq<StyleV>,
    pub animations: Seq<AnimationV>,
}

impl View for Css {
    type V = CssV;

    open spec fn view(&self) -> CssV {
        CssV { styles: views(self.styles@), animations: views(self.animations@) }
    }
}

impl Css {
    /// The animation named `name` (the first one, should several have that name).
    pub fn animation(&self, name: &str) -> (r: Option<&Animation>)
        ensures
            match r {
                Some(a) => exists|i: int|
                    0 <= i < self.animations@.len() && self.animations@[i] == *a && a@.name == name@
                        && forall|j: int| 0 <= j < i ==> self.animations@[j].name@ != name@,
                None => forall|i: int| 0 <= i < self.animations@.len() ==> self.animations@[i].name@ != name@,
            },
    {
        let mut k: usize = 0;
        while k < self.animations.len()
            invariant
                k <= self.animations@.len(),
                forall|i: int| 0 <= i < k ==> self.animations@[i].name@ != name@,
            decreases self.animations@.len() - k,
        {
            if crate::text::str_eq(self.animations[k].name.as_str(), name) {
                return Some(&self.animations[k]);
            }
            k = k + 1;
        }
        None
    }
}

} // verus!
