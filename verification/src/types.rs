//! The expression model: identifiers, internal (object-level) types,
//! meta-types, meta-values, terms, formulas and formula schemas, together
//! with capture-safe substitution and structural matching up to a
//! consistent renaming of bound variables.

use std::collections::HashMap;
use vstd::prelude::*;

verus! {

/// An identifier: either a top-level (global) name, minted by the
/// interning table, or a bound (local) variable, minted by the
/// monotonic local counter.
#[derive(Clone, Copy, Debug, PartialEq, Eq, Structural)]
pub enum Ident {
    Global(usize),
    Local(usize),
}

/// An object-level type: a named base type or a function (arrow) type.
#[derive(Debug)]
pub enum InternalType {
    Named(Ident),
    Func(Box<InternalType>, Box<InternalType>),
}

/// What a binding denotes: a base type name, a term of some internal type,
/// an n-ary relation whose remaining argument types are listed (consumed
/// from the end), or a schema over further meta-typed parameters.
#[derive(Debug)]
pub enum MetaType {
    Type,
    Term(InternalType),
    Formula(Vec<InternalType>),
    Schema(Vec<MetaType>, Box<MetaType>),
}

/// The concrete denotation of a binding once defined; mirrors the payload
/// kinds of `MetaType`.
#[derive(Debug)]
pub enum MetaValue {
    Type(InternalType),
    Term(Term),
    Formula(Formula),
    Schema(FormulaSchema),
}

/// A term: a symbol or the application of one term to another.
#[derive(Debug)]
pub enum Term {
    Symbol(Ident),
    Application(Box<Term>, Box<Term>),
}

/// A formula: falsity, a relation, the application of a partially applied
/// relation to one more term, an implication between two saturated
/// formulas, or a universal quantification binding a local variable.
#[derive(Debug)]
pub enum Formula {
    False,
    Relation(Ident),
    Application(Box<Formula>, Term),
    Implication(Box<Formula>, Box<Formula>),
    UniversalQ(usize, InternalType, Box<Formula>),
}

/// A formula optionally preceded by meta-level binders: the meta-level
/// analogue of `UniversalQ`, binding a variable of any meta-type.
#[derive(Debug)]
pub enum FormulaSchema {
    Formula(Formula),
    Schema(usize, MetaType, Box<FormulaSchema>),
}

/// The mathematical value of a `MetaType`: the same tree with its argument
/// vectors abstracted to sequences, so that two meta-types are equal
/// exactly when they describe the same classification.
pub enum MetaTypeV {
    Type,
    Term(InternalType),
    Formula(Seq<InternalType>),
    Schema(Seq<MetaTypeV>, Box<MetaTypeV>),
}

/// The mathematical value of a `FormulaSchema`.
pub enum FormulaSchemaV {
    Formula(Formula),
    Schema(usize, MetaTypeV, Box<FormulaSchemaV>),
}

/// The mathematical value of a `MetaValue`.
pub enum MetaValueV {
    Type(InternalType),
    Term(Term),
    Formula(Formula),
    Schema(FormulaSchemaV),
}

/// The mathematical value of a meta-type.
pub open spec fn mtype_view(m: MetaType) -> MetaTypeV
    decreases m,
{
    match m {
        MetaType::Type => MetaTypeV::Type,
        MetaType::Term(itype) => MetaTypeV::Term(itype),
        MetaType::Formula(args) => MetaTypeV::Formula(args@),
        MetaType::Schema(args, ret) => MetaTypeV::Schema(
            mtype_seq_view(args@),
            Box::new(mtype_view(*ret)),
        ),
    }
}

/// The mathematical values of a sequence of meta-types, elementwise.
pub open spec fn mtype_seq_view(s: Seq<MetaType>) -> Seq<MetaTypeV>
    decreases s,
{
    if s.len() == 0 {
        Seq::empty()
    } else {
        mtype_seq_view(s.drop_last()).push(mtype_view(s.last()))
    }
}

/// `mtype_seq_view` maps `mtype_view` over the sequence, pointwise.
pub proof fn lemma_mtype_seq_view_points(s: Seq<MetaType>)
    ensures
        mtype_seq_view(s).len() == s.len(),
        forall|i: int| 0 <= i < s.len() ==> mtype_seq_view(s)[i] == mtype_view(s[i]),
    decreases s.len(),
{
    if s.len() > 0 {
        lemma_mtype_seq_view_points(s.drop_last());
    }
}

/// The mathematical value of a formula schema.
pub open spec fn fschema_view(s: FormulaSchema) -> FormulaSchemaV
    decreases s,
{
    match s {
        FormulaSchema::Formula(f) => FormulaSchemaV::Formula(f),
        FormulaSchema::Schema(id, mtype, body) => FormulaSchemaV::Schema(
            id,
            mtype_view(mtype),
            Box::new(fschema_view(*body)),
        ),
    }
}

/// The mathematical value of a meta-value.
pub open spec fn mvalue_view(v: MetaValue) -> MetaValueV {
    match v {
        MetaValue::Type(itype) => MetaValueV::Type(itype),
        MetaValue::Term(t) => MetaValueV::Term(t),
        MetaValue::Formula(f) => MetaValueV::Formula(f),
        MetaValue::Schema(s) => MetaValueV::Schema(fschema_view(s)),
    }
}

impl Clone for InternalType {
    fn clone(&self) -> (res: Self)
        ensures
            res == *self,
        decreases self,
    {
        match self {
            InternalType::Named(id) => InternalType::Named(*id),
            InternalType::Func(arg, ret) => InternalType::Func(
                Box::new((**arg).clone()),
                Box::new((**ret).clone()),
            ),
        }
    }
}

impl Clone for MetaType {
    #[verifier::loop_isolation(false)]
    fn clone(&self) -> (res: Self)
        ensures
            mtype_view(res) == mtype_view(*self),
        decreases *self,
    {
        match self {
            MetaType::Type => MetaType::Type,
            MetaType::Term(itype) => MetaType::Term(itype.clone()),
            MetaType::Formula(arg_types) => {
                let copies = arg_types.clone();
                proof {
                    assert(copies@ =~= arg_types@);
                }
                MetaType::Formula(copies)
            },
            MetaType::Schema(arg_types, ret) => {
                let mut copies: Vec<MetaType> = Vec::new();
                let mut i: usize = 0;
                while i < arg_types.len()
                    invariant
                        i <= arg_types.len(),
                        copies@.len() == i as int,
                        forall|j: int|
                            0 <= j < i ==> mtype_view(copies@[j]) == mtype_view(arg_types@[j]),
                    decreases arg_types.len() - i,
                {
                    proof {
                        assert(decreases_to!(*self => *arg_types));
                        assert(decreases_to!(*arg_types => arg_types@));
                        assert(decreases_to!(arg_types@ => arg_types@[i as int]));
                    }
                    copies.push(arg_types[i].clone());
                    i = i + 1;
                }
                proof {
                    lemma_mtype_seq_view_points(copies@);
                    lemma_mtype_seq_view_points(arg_types@);
                    assert(mtype_seq_view(copies@) =~= mtype_seq_view(arg_types@));
                }
                MetaType::Schema(copies, Box::new((**ret).clone()))
            },
        }
    }
}

impl Clone for Term {
    fn clone(&self) -> (res: Self)
        ensures
            res == *self,
        decreases self,
    {
        match self {
            Term::Symbol(id) => Term::Symbol(*id),
            Term::Application(func, arg) => Term::Application(
                Box::new((**func).clone()),
                Box::new((**arg).clone()),
            ),
        }
    }
}

impl Clone for Formula {
    fn clone(&self) -> (res: Self)
        ensures
            res == *self,
        decreases self,
    {
        match self {
            Formula::False => Formula::False,
            Formula::Relation(id) => Formula::Relation(*id),
            Formula::Application(pred, arg) => Formula::Application(
                Box::new((**pred).clone()),
                arg.clone(),
            ),
            Formula::Implication(lhs, rhs) => Formula::Implication(
                Box::new((**lhs).clone()),
                Box::new((**rhs).clone()),
            ),
            Formula::UniversalQ(id, itype, body) => Formula::UniversalQ(
                *id,
                itype.clone(),
                Box::new((**body).clone()),
            ),
        }
    }
}

impl Clone for FormulaSchema {
    fn clone(&self) -> (res: Self)
        ensures
            fschema_view(res) == fschema_view(*self),
        decreases self,
    {
        match self {
            FormulaSchema::Formula(f) => FormulaSchema::Formula(f.clone()),
            FormulaSchema::Schema(id, mtype, body) => FormulaSchema::Schema(
                *id,
                mtype.clone(),
                Box::new((**body).clone()),
            ),
        }
    }
}

impl Clone for MetaValue {
    fn clone(&self) -> (res: Self)
        ensures
            mvalue_view(res) == mvalue_view(*self),
    {
        match self {
            MetaValue::Type(itype) => MetaValue::Type(itype.clone()),
            MetaValue::Term(t) => MetaValue::Term(t.clone()),
            MetaValue::Formula(f) => MetaValue::Formula(f.clone()),
            MetaValue::Schema(s) => MetaValue::Schema(s.clone()),
        }
    }
}

/// Structural equality on internal types, usable from verified code.
pub fn itype_eq(a: &InternalType, b: &InternalType) -> (r: bool)
    ensures
        r == (a == b),
    decreases a,
{
    match (a, b) {
        (InternalType::Named(x), InternalType::Named(y)) => x == y,
        (InternalType::Func(a_arg, a_ret), InternalType::Func(b_arg, b_ret)) => {
            itype_eq(a_arg, b_arg) && itype_eq(a_ret, b_ret)
        },
        _ => false,
    }
}

/// Structural equality on terms, usable from verified code.
pub fn term_eq(a: &Term, b: &Term) -> (r: bool)
    ensures
        r == (a == b),
    decreases a,
{
    match (a, b) {
        (Term::Symbol(x), Term::Symbol(y)) => x == y,
        (Term::Application(a_f, a_a), Term::Application(b_f, b_a)) => {
            term_eq(a_f, b_f) && term_eq(a_a, b_a)
        },
        _ => false,
    }
}

/// Structural equality on formulas, usable from verified code.
pub fn formula_eq(a: &Formula, b: &Formula) -> (r: bool)
    ensures
        r == (a == b),
    decreases a,
{
    match (a, b) {
        (Formula::False, Formula::False) => true,
        (Formula::Relation(x), Formula::Relation(y)) => x == y,
        (Formula::Application(a_p, a_t), Formula::Application(b_p, b_t)) => {
            formula_eq(a_p, b_p) && term_eq(a_t, b_t)
        },
        (Formula::Implication(a_l, a_r), Formula::Implication(b_l, b_r)) => {
            formula_eq(a_l, b_l) && formula_eq(a_r, b_r)
        },
        (Formula::UniversalQ(a_id, a_ty, a_body), Formula::UniversalQ(b_id, b_ty, b_body)) => {
            a_id == b_id && itype_eq(a_ty, b_ty) && formula_eq(a_body, b_body)
        },
        _ => false,
    }
}

/// The term obtained by replacing every occurrence of the local variable
/// `var` in `t` with `r`.
pub open spec fn subst_term(t: Term, var: usize, r: Term) -> Term
    decreases t,
{
    match t {
        Term::Symbol(id) => if id == Ident::Local(var) {
            r
        } else {
            Term::Symbol(id)
        },
        Term::Application(func, arg) => Term::Application(
            Box::new(subst_term(*func, var, r)),
            Box::new(subst_term(*arg, var, r)),
        ),
    }
}

/// The formula obtained by replacing every free occurrence of the local
/// variable `var` in `f` with `r`; a quantifier binding `var` itself
/// shadows it, so its body is left untouched.
pub open spec fn subst_formula(f: Formula, var: usize, r: Term) -> Formula
    decreases f,
{
    match f {
        Formula::False => Formula::False,
        Formula::Relation(id) => Formula::Relation(id),
        Formula::Application(pred, arg) => Formula::Application(
            Box::new(subst_formula(*pred, var, r)),
            subst_term(arg, var, r),
        ),
        Formula::Implication(lhs, rhs) => Formula::Implication(
            Box::new(subst_formula(*lhs, var, r)),
            Box::new(subst_formula(*rhs, var, r)),
        ),
        Formula::UniversalQ(id, itype, body) => if id == var {
            Formula::UniversalQ(id, itype, body)
        } else {
            Formula::UniversalQ(id, itype, Box::new(subst_formula(*body, var, r)))
        },
    }
}

/// Whether the local variable `var` occurs in `t` (all occurrences in a
/// term are free: terms bind nothing).
pub open spec fn term_has_local(t: Term, var: usize) -> bool
    decreases t,
{
    match t {
        Term::Symbol(id) => id == Ident::Local(var),
        Term::Application(func, arg) => term_has_local(*func, var) || term_has_local(*arg, var),
    }
}

/// Whether the local variable `var` occurs free in `f`: occurrences under
/// a quantifier that binds `var` itself are not free.
pub open spec fn formula_has_free(f: Formula, var: usize) -> bool
    decreases f,
{
    match f {
        Formula::False => false,
        Formula::Relation(_) => false,
        Formula::Application(pred, arg) => formula_has_free(*pred, var) || term_has_local(
            arg,
            var,
        ),
        Formula::Implication(lhs, rhs) => formula_has_free(*lhs, var) || formula_has_free(
            *rhs,
            var,
        ),
        Formula::UniversalQ(id, _, body) => id != var && formula_has_free(*body, var),
    }
}

/// Whether `t` is closed: it mentions no local variable at all.
pub open spec fn term_closed(t: Term) -> bool {
    forall|v: usize| !term_has_local(t, v)
}

/// One step of structural matching on identifiers, threading the two
/// association maps (own-to-other and other-to-own). A global matches only
/// the identical global. Two locals match if the maps already agree on
/// their pairing, or are tentatively extended with it where absent.
/// Returns the verdict and the two maps as the step leaves them.
pub open spec fn ident_match_step(
    a: Ident,
    b: Ident,
    sto: Map<usize, usize>,
    ots: Map<usize, usize>,
) -> (bool, Map<usize, usize>, Map<usize, usize>) {
    match (a, b) {
        (Ident::Global(i), Ident::Global(j)) => (i == j, sto, ots),
        (Ident::Local(i), Ident::Local(j)) => {
            let sto1 = if sto.contains_key(i) {
                sto
            } else {
                sto.insert(i, j)
            };
            if sto1[i] != j {
                (false, sto1, ots)
            } else {
                let ots1 = if ots.contains_key(j) {
                    ots
                } else {
                    ots.insert(j, i)
                };
                (ots1[j] == i, sto1, ots1)
            }
        },
        _ => (false, sto, ots),
    }
}

/// One step of structural matching on terms: shapes must agree, and
/// sub-structures are compared left to right, each reading the maps as the
/// previous one left them.
pub open spec fn term_match_step(
    a: Term,
    b: Term,
    sto: Map<usize, usize>,
    ots: Map<usize, usize>,
) -> (bool, Map<usize, usize>, Map<usize, usize>)
    decreases a,
{
    match (a, b) {
        (Term::Symbol(x), Term::Symbol(y)) => ident_match_step(x, y, sto, ots),
        (Term::Application(af, aa), Term::Application(bf, ba)) => {
            let (r1, sto1, ots1) = term_match_step(*af, *bf, sto, ots);
            if !r1 {
                (false, sto1, ots1)
            } else {
                term_match_step(*aa, *ba, sto1, ots1)
            }
        },
        _ => (false, sto, ots),
    }
}

/// One step of structural matching on formulas. On a pair of universal
/// quantifiers the two binder identifiers are tentatively associated
/// before the bodies are compared, and the association is retracted on
/// exit, so sibling subtrees are compared independently of this pairing.
pub open spec fn formula_match_step(
    a: Formula,
    b: Formula,
    sto: Map<usize, usize>,
    ots: Map<usize, usize>,
) -> (bool, Map<usize, usize>, Map<usize, usize>)
    decreases a,
{
    match (a, b) {
        (Formula::False, Formula::False) => (true, sto, ots),
        (Formula::Relation(x), Formula::Relation(y)) => ident_match_step(x, y, sto, ots),
        (Formula::Application(ap, at), Formula::Application(bp, bt)) => {
            let (r1, sto1, ots1) = formula_match_step(*ap, *bp, sto, ots);
            if !r1 {
                (false, sto1, ots1)
            } else {
                term_match_step(at, bt, sto1, ots1)
            }
        },
        (Formula::Implication(al, ar), Formula::Implication(bl, br)) => {
            let (r1, sto1, ots1) = formula_match_step(*al, *bl, sto, ots);
            if !r1 {
                (false, sto1, ots1)
            } else {
                formula_match_step(*ar, *br, sto1, ots1)
            }
        },
        (Formula::UniversalQ(ai, aty, ab), Formula::UniversalQ(bi, bty, bb)) => {
            let sto1 = sto.insert(ai, bi);
            let ots1 = ots.insert(bi, ai);
            let (r2, sto2, ots2) = if aty == bty {
                formula_match_step(*ab, *bb, sto1, ots1)
            } else {
                (false, sto1, ots1)
            };
            (r2, sto2.remove(ai), ots2.remove(bi))
        },
        _ => (false, sto, ots),
    }
}

impl Ident {
    /// Decides one identifier-matching step, mutating the two association
    /// maps exactly as `ident_match_step` describes.
    pub fn matches(
        self,
        other: Ident,
        assoc_sto: &mut HashMap<usize, usize>,
        assoc_ots: &mut HashMap<usize, usize>,
    ) -> (r: bool)
        ensures
            ({
                let (r2, sto2, ots2) = ident_match_step(
                    self,
                    other,
                    old(assoc_sto)@,
                    old(assoc_ots)@,
                );
                r == r2 && final(assoc_sto)@ == sto2 && final(assoc_ots)@ == ots2
            }),
    {
        match self {
            Ident::Global(id) => match other {
                Ident::Global(id2) => id == id2,
                _ => false,
            },
            Ident::Local(local_id) => match other {
                Ident::Local(local_id2) => {
                    if !assoc_sto.contains_key(&local_id) {
                        assoc_sto.insert(local_id, local_id2);
                    }
                    let fwd = *assoc_sto.get(&local_id).unwrap();
                    if fwd != local_id2 {
                        false
                    } else {
                        if !assoc_ots.contains_key(&local_id2) {
                            assoc_ots.insert(local_id2, local_id);
                        }
                        let bwd = *assoc_ots.get(&local_id2).unwrap();
                        bwd == local_id
                    }
                },
                _ => false,
            },
        }
    }
}

impl Term {
    /// Decides whether two terms are equal up to a consistent renaming of
    /// their local variables, under the association the maps carry;
    /// mutates the maps exactly as `term_match_step` describes.
    pub fn matches(
        &self,
        other: &Term,
        assoc_sto: &mut HashMap<usize, usize>,
        assoc_ots: &mut HashMap<usize, usize>,
    ) -> (r: bool)
        ensures
            ({
                let (r2, sto2, ots2) = term_match_step(
                    *self,
                    *other,
                    old(assoc_sto)@,
                    old(assoc_ots)@,
                );
                r == r2 && final(assoc_sto)@ == sto2 && final(assoc_ots)@ == ots2
            }),
        decreases *self,
    {
        match (self, other) {
            (Term::Symbol(id), Term::Symbol(id2)) => Ident::matches(
                *id,
                *id2,
                assoc_sto,
                assoc_ots,
            ),
            (Term::Application(func, arg), Term::Application(func2, arg2)) => {
                Term::matches(func, func2, assoc_sto, assoc_ots) && Term::matches(
                    arg,
                    arg2,
                    assoc_sto,
                    assoc_ots,
                )
            },
            _ => false,
        }
    }

    /// Replaces every occurrence of the local variable `var` with `term`.
    pub fn substitute(self, var: usize, term: &Term) -> (res: Term)
        ensures
            res == subst_term(self, var, *term),
        decreases self,
    {
        match self {
            Term::Symbol(id) => if id == Ident::Local(var) {
                term.clone()
            } else {
                Term::Symbol(id)
            },
            Term::Application(func, arg) => Term::Application(
                Box::new((*func).substitute(var, term)),
                Box::new((*arg).substitute(var, term)),
            ),
        }
    }
}

impl Formula {
    /// Replaces every free occurrence of the local variable `var` with
    /// `term`. The freshness of local identifiers (a minted id is never
    /// reused while its binder is open) is what makes this capture-safe
    /// without any renaming step.
    pub fn substitute(self, var: usize, term: &Term) -> (res: Formula)
        ensures
            res == subst_formula(self, var, *term),
        decreases self,
    {
        match self {
            Formula::False => Formula::False,
            Formula::Relation(id) => Formula::Relation(id),
            Formula::Application(pred, arg) => Formula::Application(
                Box::new((*pred).substitute(var, term)),
                arg.substitute(var, term),
            ),
            Formula::Implication(lhs, rhs) => Formula::Implication(
                Box::new((*lhs).substitute(var, term)),
                Box::new((*rhs).substitute(var, term)),
            ),
            Formula::UniversalQ(id, itype, body) => if id == var {
                Formula::UniversalQ(id, itype, body)
            } else {
                Formula::UniversalQ(id, itype, Box::new((*body).substitute(var, term)))
            },
        }
    }

    /// Decides whether two formulas are alpha-equivalent: equal up to a
    /// consistent renaming of their bound local variables, under the
    /// association the maps carry; mutates the maps exactly as
    /// `formula_match_step` describes.
    pub fn matches(
        &self,
        other: &Formula,
        assoc_sto: &mut HashMap<usize, usize>,
        assoc_ots: &mut HashMap<usize, usize>,
    ) -> (r: bool)
        ensures
            ({
                let (r2, sto2, ots2) = formula_match_step(
                    *self,
                    *other,
                    old(assoc_sto)@,
                    old(assoc_ots)@,
                );
                r == r2 && final(assoc_sto)@ == sto2 && final(assoc_ots)@ == ots2
            }),
        decreases *self,
    {
        match (self, other) {
            (Formula::False, Formula::False) => true,
            (Formula::Relation(id), Formula::Relation(id2)) => Ident::matches(
                *id,
                *id2,
                assoc_sto,
                assoc_ots,
            ),
            (Formula::Application(pred, arg), Formula::Application(pred2, arg2)) => {
                Formula::matches(pred, pred2, assoc_sto, assoc_ots) && Term::matches(
                    arg,
                    arg2,
                    assoc_sto,
                    assoc_ots,
                )
            },
            (Formula::Implication(lhs, rhs), Formula::Implication(lhs2, rhs2)) => {
                Formula::matches(lhs, lhs2, assoc_sto, assoc_ots) && Formula::matches(
                    rhs,
                    rhs2,
                    assoc_sto,
                    assoc_ots,
                )
            },
            (
                Formula::UniversalQ(id, itype, form),
                Formula::UniversalQ(id2, itype2, form2),
            ) => {
                assoc_sto.insert(*id, *id2);
                assoc_ots.insert(*id2, *id);
                let answer = itype_eq(itype, itype2) && Formula::matches(
                    form,
                    form2,
                    assoc_sto,
                    assoc_ots,
                );
                assoc_sto.remove(id);
                assoc_ots.remove(id2);
                answer
            },
            _ => false,
        }
    }

    /// Strips the outermost universal quantifier and substitutes `term`
    /// for its bound variable throughout the body.
    pub fn instantiate(self, term: Term) -> (res: Formula)
        requires
            self matches Formula::UniversalQ(_, _, _),
        ensures
            (match self {
                Formula::UniversalQ(var, _, body) => res == subst_formula(*body, var, term),
                _ => false,
            }),
    {
        match self {
            Formula::UniversalQ(var, _itype, body) => (*body).substitute(var, &term),
            _ => Formula::False,
        }
    }
}

} // verus!
