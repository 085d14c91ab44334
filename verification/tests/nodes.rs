//! Classification behaviour of the node model.

use rex::nodes::{
    AtomType, Delimited, GenFraction, MathField, ParseNode, Radical, Rule, Scripts, Spacing,
    Symbol,
};
use rex::num::Px;

fn sym(cp: u32, at: AtomType) -> Symbol {
    Symbol { family: 0, code_point: cp, width: 0, height: 0, depth: 0, atom_type: at }
}

#[test]
fn atom_type_symbol_is_its_own() {
    let node = ParseNode::Symbol(sym(0x41, AtomType::Alpha));
    assert_eq!(node.atom_type(), Some(AtomType::Alpha));
    let node = ParseNode::Symbol(sym(0x2B, AtomType::Binary));
    assert_eq!(node.atom_type(), Some(AtomType::Binary));
    let node = ParseNode::Symbol(sym(0x2211, AtomType::Operator(true)));
    assert_eq!(node.atom_type(), Some(AtomType::Operator(true)));
}

#[test]
fn atom_type_group_is_ordinal() {
    let node = ParseNode::Group(vec![]);
    assert_eq!(node.atom_type(), Some(AtomType::Ordinal));
}

#[test]
fn atom_type_delimited_is_fence() {
    let node = ParseNode::Delimited(Delimited {
        left: sym(0x28, AtomType::Open),
        right: sym(0x29, AtomType::Close),
        inner: vec![],
    });
    assert_eq!(node.atom_type(), Some(AtomType::Fence));
}

#[test]
fn atom_type_radical_is_ordinal() {
    let node = ParseNode::Radical(Radical { inner: vec![] });
    assert_eq!(node.atom_type(), Some(AtomType::Ordinal));
}

#[test]
fn atom_type_gen_fraction_is_inner() {
    let node = ParseNode::GenFraction(GenFraction {
        numerator: vec![],
        denominator: vec![],
        bar_thickness: 4,
        left_delimiter: None,
        right_delimiter: None,
    });
    assert_eq!(node.atom_type(), Some(AtomType::Inner));
}

#[test]
fn atom_type_scripts_is_ordinal() {
    let node = ParseNode::Scripts(Scripts {
        base: Some(Box::new(ParseNode::Symbol(sym(0x78, AtomType::Alpha)))),
        superscript: Some(Box::new(ParseNode::Symbol(sym(0x32, AtomType::Ordinal)))),
        subscript: None,
    });
    assert_eq!(node.atom_type(), Some(AtomType::Ordinal));
}

#[test]
fn atom_type_spacing_and_rule_are_none() {
    let node = ParseNode::Spacing(Spacing::Thin);
    assert_eq!(node.atom_type(), None);
    let node = ParseNode::Rule(Rule { width: Px::from_units(10), height: Px::from_units(2) });
    assert_eq!(node.atom_type(), None);
}

#[test]
fn set_atom_type_updates_a_symbol() {
    let mut node = ParseNode::Symbol(sym(0x2D, AtomType::Binary));
    node.set_atom_type(AtomType::Ordinal);
    assert_eq!(node.atom_type(), Some(AtomType::Ordinal));
    node.set_atom_type(AtomType::Relation);
    assert_eq!(node.atom_type(), Some(AtomType::Relation));
}

#[test]
fn set_atom_type_leaves_every_other_variant_alone() {
    let mut node = ParseNode::Group(vec![ParseNode::Spacing(Spacing::Thick)]);
    node.set_atom_type(AtomType::Binary);
    assert_eq!(node.atom_type(), Some(AtomType::Ordinal));
    assert_eq!(node, ParseNode::Group(vec![ParseNode::Spacing(Spacing::Thick)]));

    let mut node = ParseNode::Spacing(Spacing::Medium);
    node.set_atom_type(AtomType::Binary);
    assert_eq!(node.atom_type(), None);
    assert_eq!(node, ParseNode::Spacing(Spacing::Medium));

    let mut node = ParseNode::Rule(Rule { width: Px::from_cents(150), height: Px::from_cents(25) });
    node.set_atom_type(AtomType::Binary);
    assert_eq!(node.atom_type(), None);

    let mut node = ParseNode::Radical(Radical { inner: vec![] });
    node.set_atom_type(AtomType::Binary);
    assert_eq!(node.atom_type(), Some(AtomType::Ordinal));
}

#[test]
fn math_field_holds_symbol_or_group() {
    let f = MathField::Symbol(sym(0x61, AtomType::Alpha));
    match f {
        MathField::Symbol(s) => assert_eq!(s.code_point, 0x61),
        MathField::Group(_) => panic!("expected a symbol"),
    }
    let g = MathField::Group(vec![ParseNode::Group(vec![])]);
    match g {
        MathField::Symbol(_) => panic!("expected a group"),
        MathField::Group(inner) => assert_eq!(inner.len(), 1),
    }
}
