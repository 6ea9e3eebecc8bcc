use std::collections::HashMap;

use rlang::types::{formula_eq, term_eq, Formula, Ident, InternalType, Term};

fn base(id: usize) -> InternalType {
    InternalType::Named(Ident::Global(id))
}

fn sym_g(id: usize) -> Term {
    Term::Symbol(Ident::Global(id))
}

fn sym_l(id: usize) -> Term {
    Term::Symbol(Ident::Local(id))
}

/// P(x) as a one-step relation application.
fn apply_rel(rel: usize, arg: Term) -> Formula {
    Formula::Application(Box::new(Formula::Relation(Ident::Global(rel))), arg)
}

#[test]
fn substitute_absent_variable_leaves_term_unchanged() {
    // f(a) where f, a are globals: local 9 does not occur.
    let t = Term::Application(Box::new(sym_g(0)), Box::new(sym_g(1)));
    let before = Term::Application(Box::new(sym_g(0)), Box::new(sym_g(1)));
    let after = t.substitute(9, &sym_g(2));
    assert!(term_eq(&after, &before));
}

#[test]
fn substitute_absent_variable_leaves_formula_unchanged() {
    // forall #4 : o. P(#4), substituting for local 9 which does not occur free.
    let f = Formula::UniversalQ(4, base(0), Box::new(apply_rel(1, sym_l(4))));
    let before = Formula::UniversalQ(4, base(0), Box::new(apply_rel(1, sym_l(4))));
    let after = f.substitute(9, &sym_g(2));
    assert!(formula_eq(&after, &before));
}

#[test]
fn substitute_shadowed_variable_is_untouched() {
    // forall #4. P(#4): substituting for 4 must not reach under the binder.
    let f = Formula::UniversalQ(4, base(0), Box::new(apply_rel(1, sym_l(4))));
    let before = Formula::UniversalQ(4, base(0), Box::new(apply_rel(1, sym_l(4))));
    let after = f.substitute(4, &sym_g(2));
    assert!(formula_eq(&after, &before));
}

#[test]
fn instantiate_replaces_every_free_occurrence() {
    // forall #4 : o. P(#4) -> P(#4), instantiated with the closed term a.
    let body = Formula::Implication(
        Box::new(apply_rel(1, sym_l(4))),
        Box::new(apply_rel(1, sym_l(4))),
    );
    let f = Formula::UniversalQ(4, base(0), Box::new(body));
    let inst = f.instantiate(sym_g(7));
    let expected = Formula::Implication(
        Box::new(apply_rel(1, sym_g(7))),
        Box::new(apply_rel(1, sym_g(7))),
    );
    assert!(formula_eq(&inst, &expected));
}

#[test]
fn instantiate_alters_no_other_local() {
    // forall #4 : o. P(#4) -> P(#6): local 6 is free and must survive.
    let body = Formula::Implication(
        Box::new(apply_rel(1, sym_l(4))),
        Box::new(apply_rel(1, sym_l(6))),
    );
    let f = Formula::UniversalQ(4, base(0), Box::new(body));
    let inst = f.instantiate(sym_g(7));
    let expected = Formula::Implication(
        Box::new(apply_rel(1, sym_g(7))),
        Box::new(apply_rel(1, sym_l(6))),
    );
    assert!(formula_eq(&inst, &expected));
}

#[test]
fn matches_is_reflexive() {
    let f = Formula::UniversalQ(
        10,
        base(0),
        Box::new(Formula::Implication(
            Box::new(apply_rel(1, sym_l(10))),
            Box::new(Formula::False),
        )),
    );
    let mut sto: HashMap<usize, usize> = HashMap::new();
    let mut ots: HashMap<usize, usize> = HashMap::new();
    assert!(f.matches(&f, &mut sto, &mut ots));
}

#[test]
fn matches_alpha_renamed_binders() {
    // Identical formulas up to binder ids 10 vs 77.
    let f1 = Formula::UniversalQ(10, base(0), Box::new(apply_rel(1, sym_l(10))));
    let f2 = Formula::UniversalQ(77, base(0), Box::new(apply_rel(1, sym_l(77))));
    let mut sto = HashMap::new();
    let mut ots = HashMap::new();
    assert!(f1.matches(&f2, &mut sto, &mut ots));
}

#[test]
fn matches_rejects_differing_globals_under_binders() {
    // Same shapes, binder ids 10 vs 77, but the relation global differs.
    let f1 = Formula::UniversalQ(10, base(0), Box::new(apply_rel(1, sym_l(10))));
    let f2 = Formula::UniversalQ(77, base(0), Box::new(apply_rel(2, sym_l(77))));
    let mut sto = HashMap::new();
    let mut ots = HashMap::new();
    assert!(!f1.matches(&f2, &mut sto, &mut ots));
}

#[test]
fn matches_rejects_shape_mismatch() {
    let f1 = Formula::False;
    let f2 = Formula::Relation(Ident::Global(0));
    let mut sto = HashMap::new();
    let mut ots = HashMap::new();
    assert!(!f1.matches(&f2, &mut sto, &mut ots));

    let f3 = Formula::Implication(Box::new(Formula::False), Box::new(Formula::False));
    let mut sto = HashMap::new();
    let mut ots = HashMap::new();
    assert!(!f3.matches(&f1, &mut sto, &mut ots));
}

#[test]
fn matches_rejects_differing_global_symbols() {
    let t1 = sym_g(3);
    let t2 = sym_g(4);
    let mut sto = HashMap::new();
    let mut ots = HashMap::new();
    assert!(!t1.matches(&t2, &mut sto, &mut ots));
}

#[test]
fn matches_demands_consistent_local_association() {
    // Local 1 cannot pair with both 5 and 6: f(#1, #1) vs f(#5, #6).
    let t1 = Term::Application(Box::new(sym_l(1)), Box::new(sym_l(1)));
    let t2 = Term::Application(Box::new(sym_l(5)), Box::new(sym_l(6)));
    let mut sto = HashMap::new();
    let mut ots = HashMap::new();
    assert!(!t1.matches(&t2, &mut sto, &mut ots));

    // And injectivity the other way: f(#1, #2) vs f(#5, #5).
    let t3 = Term::Application(Box::new(sym_l(1)), Box::new(sym_l(2)));
    let t4 = Term::Application(Box::new(sym_l(5)), Box::new(sym_l(5)));
    let mut sto = HashMap::new();
    let mut ots = HashMap::new();
    assert!(!t3.matches(&t4, &mut sto, &mut ots));
}

#[test]
fn matches_binder_association_is_retracted_between_siblings() {
    // (forall #1. P(#1)) -> P(#1) against (forall #2. P(#2)) -> P(#1):
    // the free occurrence outside the quantifier is its own variable.
    let f1 = Formula::Implication(
        Box::new(Formula::UniversalQ(1, base(0), Box::new(apply_rel(1, sym_l(1))))),
        Box::new(apply_rel(1, sym_l(1))),
    );
    let f2 = Formula::Implication(
        Box::new(Formula::UniversalQ(2, base(0), Box::new(apply_rel(1, sym_l(2))))),
        Box::new(apply_rel(1, sym_l(1))),
    );
    let mut sto = HashMap::new();
    let mut ots = HashMap::new();
    assert!(f1.matches(&f2, &mut sto, &mut ots));
}

#[test]
fn matches_rejects_differing_binder_types() {
    let f1 = Formula::UniversalQ(10, base(0), Box::new(Formula::False));
    let f2 = Formula::UniversalQ(11, base(9), Box::new(Formula::False));
    let mut sto = HashMap::new();
    let mut ots = HashMap::new();
    assert!(!f1.matches(&f2, &mut sto, &mut ots));
}

#[test]
fn ident_matches_globals_exactly() {
    let mut sto = HashMap::new();
    let mut ots = HashMap::new();
    assert!(Ident::Global(3).matches(Ident::Global(3), &mut sto, &mut ots));
    assert!(!Ident::Global(3).matches(Ident::Global(4), &mut sto, &mut ots));
    assert!(!Ident::Global(3).matches(Ident::Local(3), &mut sto, &mut ots));
    assert!(!Ident::Local(3).matches(Ident::Global(3), &mut sto, &mut ots));
}

#[test]
fn term_substitute_replaces_at_leaves() {
    // (#2 #2)[#2 := a] == (a a)
    let t = Term::Application(Box::new(sym_l(2)), Box::new(sym_l(2)));
    let r = t.substitute(2, &sym_g(9));
    let expected = Term::Application(Box::new(sym_g(9)), Box::new(sym_g(9)));
    assert!(term_eq(&r, &expected));
}
