//! Intermediate nodes of a parsed math expression.
//!
//! A parsed expression is a tree of `ParseNode`s.  Every node except the two
//! already-resolved layout directives (`Spacing` and `Rule`) carries a math
//! class (`AtomType`), which downstream spacing tables consume; only raw
//! symbols — the one kind whose class can be contextually ambiguous — may be
//! reclassified after construction.

use vstd::prelude::*;

verus! {

/// The closed set of math classes.  Classification is deliberately coarse so
/// that downstream spacing tables stay exhaustive and statically checkable.
#[derive(Clone, Copy, Debug, PartialEq, Eq, Structural)]
pub enum AtomType {
    Punctuation,
    Ordinal,
    Open,
    Close,
    Binary,
    Relation,
    Accent,
    AccentWide,
    BotAccent,
    BotAccentWide,
    Alpha,
    Fence,
    /// The flag records whether the operator takes limits.
    Operator(bool),
    Over,
    Under,
    Inner,
}

/// A glyph resolved by the (external) font-metrics database: a font family
/// id, a Unicode code point, the glyph's design-unit metrics, and its math
/// class.  This crate reads and overwrites only the `atom_type` field.
#[derive(Clone, Copy, Debug, PartialEq, Eq, Structural)]
pub struct Symbol {
    pub family: u8,
    pub code_point: u32,
    pub width: u32,
    pub height: u32,
    pub depth: u32,
    pub atom_type: AtomType,
}

/// An explicit, pre-resolved inter-element space directive, produced by the
/// (external) spacing-rule tables.  It is not a classifiable math object.
#[derive(Clone, Copy, Debug, PartialEq, Eq, Structural)]
pub enum Spacing {
    NoSpace,
    Thin,
    Medium,
    Thick,
}

/// Super-/subscript attachment to an optional base.  Producers are expected
/// to set at least one of the two scripts; this is not type-enforced.
#[derive(Debug, PartialEq)]
pub struct Scripts {
    pub base: Option<Box<ParseNode>>,
    pub superscript: Option<Box<ParseNode>>,
    pub subscript: Option<Box<ParseNode>>,
}

/// A delimiter pair (fence glyphs) enclosing an inner list of nodes.
#[derive(Debug, PartialEq)]
pub struct Delimited {
    pub left: Symbol,
    pub right: Symbol,
    pub inner: Vec<ParseNode>,
}

/// Root-extraction construct enclosing the radicand.  An optional index
/// argument is deliberately deferred.
#[derive(Debug, PartialEq)]
pub struct Radical {
    pub inner: Vec<ParseNode>,
}

/// Numerator-over-denominator construct.  A `bar_thickness` of zero means no
/// visible bar (as in binomial coefficients); its unit is resolved by the
/// external layout phase.
#[derive(Debug, PartialEq)]
pub struct GenFraction {
    pub numerator: Vec<ParseNode>,
    pub denominator: Vec<ParseNode>,
    pub bar_thickness: u8,
    pub left_delimiter: Option<Symbol>,
    pub right_delimiter: Option<Symbol>,
}

/// An already-resolved solid rectangle, in hundredths of the layout's length
/// unit.  Not a classifiable math object.
#[derive(Clone, Copy, Debug, PartialEq, Eq, Structural)]
pub struct Rule {
    pub width: crate::num::Px,
    pub height: crate::num::Px,
}

/// The closed set of node kinds a parsed expression is built from.
#[derive(Debug, PartialEq)]
pub enum ParseNode {
    Symbol(Symbol),
    Delimited(Delimited),
    Group(Vec<ParseNode>),
    Radical(Radical),
    GenFraction(GenFraction),
    Scripts(Scripts),
    Spacing(Spacing),
    Rule(Rule),
}

/// A narrower alternative for contexts where arbitrary node content is not
/// syntactically legal; a forward declaration for collaborating code.
#[derive(Debug, PartialEq)]
pub enum MathField {
    Symbol(Symbol),
    Group(Vec<ParseNode>),
}

/// The fixed classification table: a symbol's own class; groups, radicals
/// and scripts are ordinary; delimited content is a fence; generalized
/// fractions are inner; spacing and rules are not math objects.
pub open spec fn spec_atom_type(node: ParseNode) -> Option<AtomType> {
    match node {
        ParseNode::Symbol(sym) => Some(sym.atom_type),
        ParseNode::Group(_) => Some(AtomType::Ordinal),
        ParseNode::Delimited(_) => Some(AtomType::Fence),
        ParseNode::Radical(_) => Some(AtomType::Ordinal),
        ParseNode::GenFraction(_) => Some(AtomType::Inner),
        ParseNode::Scripts(_) => Some(AtomType::Ordinal),
        ParseNode::Spacing(_) => None,
        ParseNode::Rule(_) => None,
    }
}

impl ParseNode {
    /// The math class of this node, following the fixed table
    /// `spec_atom_type`; `None` exactly for the two layout directives.
    pub fn atom_type(&self) -> (r: Option<AtomType>)
        ensures
            r == spec_atom_type(*self),
    {
        match *self {
            ParseNode::Symbol(ref sym) => Some(sym.atom_type),
            ParseNode::Group(_) => Some(AtomType::Ordinal),
            ParseNode::Delimited(_) => Some(AtomType::Fence),
            ParseNode::Radical(_) => Some(AtomType::Ordinal),
            ParseNode::GenFraction(_) => Some(AtomType::Inner),
            ParseNode::Scripts(_) => Some(AtomType::Ordinal),
            ParseNode::Spacing(_) => None,
            ParseNode::Rule(_) => None,
        }
    }

    /// Reclassify this node: a symbol's class is overwritten; every other
    /// kind is left untouched, so its classification is unchanged.
    pub fn set_atom_type(&mut self, at: AtomType)
        ensures
            *old(self) is Symbol ==> {
                &&& *final(self) == ParseNode::Symbol(
                    Symbol { atom_type: at, ..(*old(self))->Symbol_0 },
                )
                &&& spec_atom_type(*final(self)) == Some(at)
            },
            !(*old(self) is Symbol) ==> {
                &&& *final(self) == *old(self)
                &&& spec_atom_type(*final(self)) == spec_atom_type(*old(self))
            },
    {
        match *self {
            ParseNode::Symbol(ref mut sym) => sym.atom_type = at,
            _ => (),
        }
    }
}

} // verus!
