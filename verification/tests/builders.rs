use rlang::ast::{FSchemaBuilder, FormulaBuilder, LocalBindings, TermBuilder};
use rlang::error::{ErrorKind, FileLocation};
use rlang::state::{Bindings, RLangRepr};
use rlang::types::{itype_eq, Formula, FormulaSchema, Ident, InternalType, MetaType, Term};

fn loc() -> FileLocation {
    FileLocation::new("test.rl", 0, 0)
}

fn base(id: usize) -> InternalType {
    InternalType::Named(Ident::Global(id))
}

/// Declares base type `o`, relation `P : Formula(o)`, constant `a : Term(o)`,
/// function `f : Term(o -> o)`, and nullary relation `Q : Formula()`.
fn setup() -> (Bindings, usize, usize, usize, usize, usize) {
    let mut globals = Bindings::new();
    let o = globals.get_id("o");
    assert!(globals.insert_object_noval(o, MetaType::Type, &loc()).is_ok());
    let p = globals.get_id("P");
    assert!(globals
        .insert_object_noval(p, MetaType::Formula(vec![base(o)]), &loc())
        .is_ok());
    let a = globals.get_id("a");
    assert!(globals
        .insert_object_noval(a, MetaType::Term(base(o)), &loc())
        .is_ok());
    let f = globals.get_id("f");
    let arrow = InternalType::Func(Box::new(base(o)), Box::new(base(o)));
    assert!(globals
        .insert_object_noval(f, MetaType::Term(arrow), &loc())
        .is_ok());
    let q = globals.get_id("Q");
    assert!(globals
        .insert_object_noval(q, MetaType::Formula(Vec::new()), &loc())
        .is_ok());
    (globals, o, p, a, f, q)
}

#[test]
fn relation_applied_to_constant_is_a_wff() {
    // Scenario: P : Formula(o), a : Term(o). P(a) is a complete wff.
    let (globals, _o, p, a, _f, _q) = setup();
    let locals = LocalBindings::new();
    let rb = FormulaBuilder::relation(p, &locals, &globals, loc()).ok().unwrap();
    assert_eq!(rb.arg_types.len(), 1);
    let tb = TermBuilder::symbol(a, &locals, &globals, loc()).ok().unwrap();
    let fb = FormulaBuilder::application(rb, tb, &globals).ok().unwrap();
    assert_eq!(fb.arg_types.len(), 0);
    match &fb.value {
        Formula::Application(pred, arg) => {
            match &**pred {
                Formula::Relation(Ident::Global(pid)) => assert_eq!(*pid, p),
                other => panic!("unexpected predicate {:?}", other),
            }
            match arg {
                Term::Symbol(Ident::Global(aid)) => assert_eq!(*aid, a),
                other => panic!("unexpected argument {:?}", other),
            }
        },
        other => panic!("unexpected formula {:?}", other),
    }
    let sb = FSchemaBuilder::formula(fb).ok().unwrap();
    assert!(sb.is_wff_schema());
    match sb.value() {
        FormulaSchema::Formula(_) => {},
        other => panic!("unexpected schema {:?}", other),
    }
}

#[test]
fn term_application_of_arrow_yields_result_type() {
    // f : o -> o applied to a : o succeeds with type o.
    let (globals, o, _p, a, f, _q) = setup();
    let locals = LocalBindings::new();
    let fb = TermBuilder::symbol(f, &locals, &globals, loc()).ok().unwrap();
    let ab = TermBuilder::symbol(a, &locals, &globals, loc()).ok().unwrap();
    let app = TermBuilder::application(fb, ab, &globals).ok().unwrap();
    assert!(itype_eq(&app.itype, &base(o)));
}

#[test]
fn term_application_with_wrong_argument_type_fails() {
    // f : o -> o applied to f itself: the argument type is o -> o, not o.
    let (globals, _o, _p, _a, f, _q) = setup();
    let locals = LocalBindings::new();
    let f1 = TermBuilder::symbol(f, &locals, &globals, loc()).ok().unwrap();
    let f2 = TermBuilder::symbol(f, &locals, &globals, loc()).ok().unwrap();
    let err = TermBuilder::application(f1, f2, &globals).err().unwrap();
    match err.error {
        ErrorKind::ITypeMismatch { found, expected } => {
            assert_eq!(found, "(o -> o)");
            assert_eq!(expected, "o");
        },
        other => panic!("unexpected error {:?}", other),
    }
}

#[test]
fn term_application_of_non_function_fails() {
    // a : o is no function.
    let (globals, _o, _p, a, f, _q) = setup();
    let locals = LocalBindings::new();
    let ab = TermBuilder::symbol(a, &locals, &globals, loc()).ok().unwrap();
    let fb = TermBuilder::symbol(f, &locals, &globals, loc()).ok().unwrap();
    let err = TermBuilder::application(ab, fb, &globals).err().unwrap();
    match err.error {
        ErrorKind::ITypeMismatch { found, expected } => {
            assert_eq!(found, "o");
            assert_eq!(expected, "(o -> o) -> _");
        },
        other => panic!("unexpected error {:?}", other),
    }
}

#[test]
fn fully_applied_relation_takes_no_further_term() {
    // Q : Formula() has no remaining argument type.
    let (globals, _o, _p, a, _f, q) = setup();
    let locals = LocalBindings::new();
    let rb = FormulaBuilder::relation(q, &locals, &globals, loc()).ok().unwrap();
    let tb = TermBuilder::symbol(a, &locals, &globals, loc()).ok().unwrap();
    let err = FormulaBuilder::application(rb, tb, &globals).err().unwrap();
    match err.error {
        ErrorKind::MTypeMismatch { found, expected } => {
            assert_eq!(found, "(Formula )");
            assert_eq!(expected, "Formula o _");
        },
        other => panic!("unexpected error {:?}", other),
    }
}

#[test]
fn formula_application_with_wrong_term_type_fails() {
    // P : Formula(o) applied to f : o -> o.
    let (globals, _o, p, _a, f, _q) = setup();
    let locals = LocalBindings::new();
    let rb = FormulaBuilder::relation(p, &locals, &globals, loc()).ok().unwrap();
    let tb = TermBuilder::symbol(f, &locals, &globals, loc()).ok().unwrap();
    let err = FormulaBuilder::application(rb, tb, &globals).err().unwrap();
    match err.error {
        ErrorKind::ITypeMismatch { found, expected } => {
            assert_eq!(found, "(o -> o)");
            assert_eq!(expected, "o");
        },
        other => panic!("unexpected error {:?}", other),
    }
}

#[test]
fn implication_demands_saturated_operands() {
    let (globals, _o, p, a, _f, q) = setup();
    let locals = LocalBindings::new();

    // Saturated on both sides: fine.
    let lhs = FormulaBuilder::false_(loc()).ok().unwrap();
    let rhs = FormulaBuilder::relation(q, &locals, &globals, loc()).ok().unwrap();
    assert!(FormulaBuilder::implication(lhs, rhs).is_ok());

    // An unsaturated left operand is refused.
    let lhs = FormulaBuilder::relation(p, &locals, &globals, loc()).ok().unwrap();
    let rhs = FormulaBuilder::false_(loc()).ok().unwrap();
    let err = FormulaBuilder::implication(lhs, rhs).err().unwrap();
    assert!(matches!(err.error, ErrorKind::UnboundImplication));

    // So is an unsaturated right operand.
    let lhs = FormulaBuilder::false_(loc()).ok().unwrap();
    let rhs = FormulaBuilder::relation(p, &locals, &globals, loc()).ok().unwrap();
    let err = FormulaBuilder::implication(lhs, rhs).err().unwrap();
    assert!(matches!(err.error, ErrorKind::UnboundImplication));

    let _ = a;
}

#[test]
fn symbol_of_non_term_binding_fails() {
    // o names a type, not a term.
    let (globals, o, _p, _a, _f, _q) = setup();
    let locals = LocalBindings::new();
    let err = TermBuilder::symbol(o, &locals, &globals, loc()).err().unwrap();
    match err.error {
        ErrorKind::MTypeMismatch { found, expected } => {
            assert_eq!(found, "Type");
            assert_eq!(expected, "Term _");
        },
        other => panic!("unexpected error {:?}", other),
    }
}

#[test]
fn symbol_of_unbound_identifier_fails() {
    let (mut globals, _o, _p, _a, _f, _q) = setup();
    let z = globals.get_id("z");
    let locals = LocalBindings::new();
    let err = TermBuilder::symbol(z, &locals, &globals, loc()).err().unwrap();
    match err.error {
        ErrorKind::NoBinding { name } => assert_eq!(name, "z"),
        other => panic!("unexpected error {:?}", other),
    }
}

#[test]
fn relation_of_non_formula_binding_fails() {
    // a : Term(o) is no relation.
    let (globals, _o, _p, a, _f, _q) = setup();
    let locals = LocalBindings::new();
    let err = FormulaBuilder::relation(a, &locals, &globals, loc()).err().unwrap();
    match err.error {
        ErrorKind::MTypeMismatch { found, expected } => {
            assert_eq!(found, "(Term o)");
            assert_eq!(expected, "Formula _*");
        },
        other => panic!("unexpected error {:?}", other),
    }
}

#[test]
fn quantifier_prep_and_universal_q_pair_up() {
    let (mut globals, o, p, _a, _f, _q) = setup();
    let x = globals.get_id("x");
    let mut locals = LocalBindings::new();
    assert!(FormulaBuilder::quantifier_prep(x, base(o), &mut locals, &mut globals, loc()).is_ok());
    let local_id = locals.get_local(&x).unwrap();

    // A second prep for the same name is a duplicate binding.
    let err = FormulaBuilder::quantifier_prep(x, base(o), &mut locals, &mut globals, loc())
        .err()
        .unwrap();
    match err.error {
        ErrorKind::BindingExists { name } => assert_eq!(name, "x"),
        other => panic!("unexpected error {:?}", other),
    }

    // The bound variable resolves locally while the binder is open.
    let tb = TermBuilder::symbol(x, &locals, &globals, loc()).ok().unwrap();
    match tb.value {
        Term::Symbol(Ident::Local(l)) => assert_eq!(l, local_id),
        other => panic!("unexpected term {:?}", other),
    }

    let rb = FormulaBuilder::relation(p, &locals, &globals, loc()).ok().unwrap();
    let body = FormulaBuilder::application(rb, tb, &globals).ok().unwrap();
    let closed = FormulaBuilder::universal_q(x, base(o), body, &mut locals, loc())
        .ok()
        .unwrap();
    match &closed.value {
        Formula::UniversalQ(l, _, _) => assert_eq!(*l, local_id),
        other => panic!("unexpected formula {:?}", other),
    }
    assert!(locals.is_empty());
    match closed.value() {
        Formula::UniversalQ(_, _, _) => {},
        other => panic!("unexpected formula {:?}", other),
    }
}

#[test]
fn schema_prep_and_schema_pair_up() {
    let (mut globals, o, _p, a, _f, _q) = setup();
    let s = globals.get_id("S");
    let mut locals = LocalBindings::new();
    let mtype = MetaType::Formula(vec![base(o)]);
    assert!(FSchemaBuilder::schema_prep(s, mtype.clone(), &mut locals, &mut globals, loc()).is_ok());
    let local_id = locals.get_local(&s).unwrap();

    // The schema-bound relation resolves locally.
    let rb = FormulaBuilder::relation(s, &locals, &globals, loc()).ok().unwrap();
    let tb = TermBuilder::symbol(a, &locals, &globals, loc()).ok().unwrap();
    let body = FormulaBuilder::application(rb, tb, &globals).ok().unwrap();
    let sb = FSchemaBuilder::formula(body).ok().unwrap();
    let closed = FSchemaBuilder::schema(s, mtype, sb, &mut locals, loc()).ok().unwrap();
    assert_eq!(closed.marg_types.len(), 1);
    assert!(closed.is_wff_schema());
    match closed.value() {
        FormulaSchema::Schema(l, MetaType::Formula(args), body) => {
            assert_eq!(l, local_id);
            assert_eq!(args.len(), 1);
            match *body {
                FormulaSchema::Formula(_) => {},
                other => panic!("unexpected schema body {:?}", other),
            }
        },
        other => panic!("unexpected schema {:?}", other),
    }
    assert!(locals.is_empty());
}

#[test]
fn local_type_renderings_use_hash_numbers() {
    let (globals, _o, _p, _a, _f, _q) = setup();
    let t = InternalType::Named(Ident::Local(12));
    assert_eq!(t.repr(&globals), "#12");
    let arrow = InternalType::Func(
        Box::new(InternalType::Named(Ident::Local(0))),
        Box::new(InternalType::Named(Ident::Global(0))),
    );
    assert_eq!(arrow.repr(&globals), "(#0 -> o)");
}

#[test]
fn metatype_renderings_list_arguments_reversed() {
    let mut globals = Bindings::new();
    let o = globals.get_id("o");
    assert!(globals.insert_object_noval(o, MetaType::Type, &loc()).is_ok());
    let u = globals.get_id("u");
    assert!(globals.insert_object_noval(u, MetaType::Type, &loc()).is_ok());
    let m = MetaType::Formula(vec![base(o), base(u)]);
    // Remaining argument types are consumed from the end, so they are
    // listed last first.
    assert_eq!(m.repr(&globals), "(Formula  u o)");
    assert_eq!(MetaType::Type.repr(&globals), "Type");
    assert_eq!(MetaType::Term(base(o)).repr(&globals), "(Term o)");
    let schema = MetaType::Schema(vec![MetaType::Type], Box::new(MetaType::Term(base(u))));
    assert_eq!(schema.repr(&globals), "(Schema  Type to (Term u))");
}
