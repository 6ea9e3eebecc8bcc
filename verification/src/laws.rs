//! Laws of substitution and structural matching: substitution is the
//! identity where the variable does not occur and alters no other local
//! variable, and matching is reflexive, invariant under systematic
//! renaming of bound variables, and refuted by shape or global-identifier
//! disagreement.

use vstd::prelude::*;

use crate::types::{
    formula_has_free, formula_match_step, ident_match_step, subst_formula, subst_term,
    term_closed, term_has_local, term_match_step, Formula, Ident, Term,
};

verus! {

/// Substituting for a local variable that does not occur in a term leaves
/// the term unchanged (structurally equal, not merely equivalent).
pub proof fn lemma_subst_term_absent(t: Term, var: usize, r: Term)
    requires
        !term_has_local(t, var),
    ensures
        subst_term(t, var, r) == t,
    decreases t,
{
    match t {
        Term::Symbol(_) => {},
        Term::Application(func, arg) => {
            lemma_subst_term_absent(*func, var, r);
            lemma_subst_term_absent(*arg, var, r);
        },
    }
}

/// Substituting for a local variable that does not occur free in a
/// formula leaves the formula unchanged (structurally equal).
pub proof fn lemma_subst_formula_absent(f: Formula, var: usize, r: Term)
    requires
        !formula_has_free(f, var),
    ensures
        subst_formula(f, var, r) == f,
    decreases f,
{
    match f {
        Formula::False => {},
        Formula::Relation(_) => {},
        Formula::Application(pred, arg) => {
            lemma_subst_formula_absent(*pred, var, r);
            lemma_subst_term_absent(arg, var, r);
        },
        Formula::Implication(lhs, rhs) => {
            lemma_subst_formula_absent(*lhs, var, r);
            lemma_subst_formula_absent(*rhs, var, r);
        },
        Formula::UniversalQ(id, _, body) => {
            if id != var {
                lemma_subst_formula_absent(*body, var, r);
            }
        },
    }
}

/// Substituting a closed term for `var` in a term removes every
/// occurrence of `var` and neither removes nor introduces any other
/// local variable.
pub proof fn lemma_subst_term_locals(t: Term, var: usize, r: Term, w: usize)
    requires
        term_closed(r),
    ensures
        term_has_local(subst_term(t, var, r), w) <==> (w != var && term_has_local(t, w)),
    decreases t,
{
    match t {
        Term::Symbol(_) => {},
        Term::Application(func, arg) => {
            lemma_subst_term_locals(*func, var, r, w);
            lemma_subst_term_locals(*arg, var, r, w);
        },
    }
}

/// Substituting a closed term for `var` in a formula removes every free
/// occurrence of `var` and neither removes nor introduces any other free
/// local variable. Together with the contract of `Formula::instantiate`
/// this says that instantiating a universal quantifier replaces exactly
/// the quantified variable and alters no other local identifier.
pub proof fn lemma_subst_formula_locals(f: Formula, var: usize, r: Term, w: usize)
    requires
        term_closed(r),
    ensures
        formula_has_free(subst_formula(f, var, r), w) <==> (w != var && formula_has_free(f, w)),
    decreases f,
{
    match f {
        Formula::False => {},
        Formula::Relation(_) => {},
        Formula::Application(pred, arg) => {
            lemma_subst_formula_locals(*pred, var, r, w);
            lemma_subst_term_locals(arg, var, r, w);
        },
        Formula::Implication(lhs, rhs) => {
            lemma_subst_formula_locals(*lhs, var, r, w);
            lemma_subst_formula_locals(*rhs, var, r, w);
        },
        Formula::UniversalQ(id, _, body) => {
            if id != var {
                lemma_subst_formula_locals(*body, var, r, w);
            }
        },
    }
}

/// An association map that pairs every known local with itself.
pub open spec fn identity_assoc(m: Map<usize, usize>) -> bool {
    forall|k: usize| m.contains_key(k) ==> m[k] == k
}

/// An identifier-matching step of an identifier against itself succeeds
/// under identity associations and leaves both maps identity.
pub proof fn lemma_ident_match_refl(a: Ident, sto: Map<usize, usize>, ots: Map<usize, usize>)
    requires
        identity_assoc(sto),
        identity_assoc(ots),
    ensures
        ({
            let (r, sto2, ots2) = ident_match_step(a, a, sto, ots);
            r && identity_assoc(sto2) && identity_assoc(ots2)
        }),
{
}

/// A term-matching step of a term against itself succeeds under identity
/// associations and leaves both maps identity.
pub proof fn lemma_term_match_refl(t: Term, sto: Map<usize, usize>, ots: Map<usize, usize>)
    requires
        identity_assoc(sto),
        identity_assoc(ots),
    ensures
        ({
            let (r, sto2, ots2) = term_match_step(t, t, sto, ots);
            r && identity_assoc(sto2) && identity_assoc(ots2)
        }),
    decreases t,
{
    match t {
        Term::Symbol(id) => {
            lemma_ident_match_refl(id, sto, ots);
        },
        Term::Application(func, arg) => {
            lemma_term_match_refl(*func, sto, ots);
            let (_, sto1, ots1) = term_match_step(*func, *func, sto, ots);
            lemma_term_match_refl(*arg, sto1, ots1);
        },
    }
}

/// A formula-matching step of a formula against itself succeeds under
/// identity associations and leaves both maps identity.
pub proof fn lemma_formula_match_refl(f: Formula, sto: Map<usize, usize>, ots: Map<usize, usize>)
    requires
        identity_assoc(sto),
        identity_assoc(ots),
    ensures
        ({
            let (r, sto2, ots2) = formula_match_step(f, f, sto, ots);
            r && identity_assoc(sto2) && identity_assoc(ots2)
        }),
    decreases f,
{
    match f {
        Formula::False => {},
        Formula::Relation(id) => {
            lemma_ident_match_refl(id, sto, ots);
        },
        Formula::Application(pred, arg) => {
            lemma_formula_match_refl(*pred, sto, ots);
            let (_, sto1, ots1) = formula_match_step(*pred, *pred, sto, ots);
            lemma_term_match_refl(arg, sto1, ots1);
        },
        Formula::Implication(lhs, rhs) => {
            lemma_formula_match_refl(*lhs, sto, ots);
            let (_, sto1, ots1) = formula_match_step(*lhs, *lhs, sto, ots);
            lemma_formula_match_refl(*rhs, sto1, ots1);
        },
        Formula::UniversalQ(id, _, body) => {
            let sto1 = sto.insert(id, id);
            let ots1 = ots.insert(id, id);
            lemma_formula_match_refl(*body, sto1, ots1);
        },
    }
}

/// Matching is reflexive: every formula matches itself, starting from
/// empty associations, binder identifiers included.
pub proof fn lemma_matches_reflexive(f: Formula)
    ensures
        formula_match_step(f, f, Map::empty(), Map::empty()).0,
{
    lemma_formula_match_refl(f, Map::empty(), Map::empty());
}

/// Whether every local identifier occurring in an identifier position is
/// below `k`.
pub open spec fn ident_below(id: Ident, k: usize) -> bool {
    match id {
        Ident::Global(_) => true,
        Ident::Local(l) => l < k,
    }
}

/// Whether every local identifier occurring in a term is below `k`.
pub open spec fn term_ids_below(t: Term, k: usize) -> bool
    decreases t,
{
    match t {
        Term::Symbol(id) => ident_below(id, k),
        Term::Application(func, arg) => term_ids_below(*func, k) && term_ids_below(*arg, k),
    }
}

/// Whether every local identifier occurring in a formula, binder
/// identifiers included, is below `k`.
pub open spec fn formula_ids_below(f: Formula, k: usize) -> bool
    decreases f,
{
    match f {
        Formula::False => true,
        Formula::Relation(id) => ident_below(id, k),
        Formula::Application(pred, arg) => formula_ids_below(*pred, k) && term_ids_below(arg, k),
        Formula::Implication(lhs, rhs) => formula_ids_below(*lhs, k) && formula_ids_below(*rhs, k),
        Formula::UniversalQ(id, _, body) => id < k && formula_ids_below(*body, k),
    }
}

/// The systematic renaming that adds `k` to a local identifier wherever
/// it is bound by an enclosing quantifier (`bound` carries the binder
/// identifiers opened so far); with `k` above every identifier of the
/// expression, the renamed binder identifiers are fresh.
pub open spec fn rename_ident(id: Ident, k: usize, bound: Set<usize>) -> Ident {
    match id {
        Ident::Global(g) => Ident::Global(g),
        Ident::Local(l) => if bound.contains(l) {
            Ident::Local((l + k) as usize)
        } else {
            Ident::Local(l)
        },
    }
}

/// `rename_ident`, applied throughout a term.
pub open spec fn rename_term(t: Term, k: usize, bound: Set<usize>) -> Term
    decreases t,
{
    match t {
        Term::Symbol(id) => Term::Symbol(rename_ident(id, k, bound)),
        Term::Application(func, arg) => Term::Application(
            Box::new(rename_term(*func, k, bound)),
            Box::new(rename_term(*arg, k, bound)),
        ),
    }
}

/// `rename_ident`, applied throughout a formula: every quantifier binder
/// identifier is shifted by `k`, and so is every occurrence it binds;
/// free locals and internal types are left unchanged.
pub open spec fn rename_formula(f: Formula, k: usize, bound: Set<usize>) -> Formula
    decreases f,
{
    match f {
        Formula::False => Formula::False,
        Formula::Relation(id) => Formula::Relation(rename_ident(id, k, bound)),
        Formula::Application(pred, arg) => Formula::Application(
            Box::new(rename_formula(*pred, k, bound)),
            rename_term(arg, k, bound),
        ),
        Formula::Implication(lhs, rhs) => Formula::Implication(
            Box::new(rename_formula(*lhs, k, bound)),
            Box::new(rename_formula(*rhs, k, bound)),
        ),
        Formula::UniversalQ(id, itype, body) => Formula::UniversalQ(
            (id + k) as usize,
            itype,
            Box::new(rename_formula(*body, k, bound.insert(id))),
        ),
    }
}

/// The own-to-other association a partial run of matching against the
/// renamed formula can have produced: a bound local is paired with its
/// shifted form, a free one with itself.
pub open spec fn rename_assoc_sto(sto: Map<usize, usize>, k: usize, bound: Set<usize>) -> bool {
    forall|l: usize|
        sto.contains_key(l) ==> (if bound.contains(l) {
            sto[l] == l + k
        } else {
            sto[l] == l
        })
}

/// The other-to-own association of the same runs: a shifted local (at or
/// above `k`) is paired with its unshifted form, a free one (below `k`)
/// with itself.
pub open spec fn rename_assoc_ots(ots: Map<usize, usize>, k: usize) -> bool {
    forall|m: usize|
        ots.contains_key(m) ==> (if m >= k {
            ots[m] == m - k
        } else {
            ots[m] == m
        })
}

/// An identifier below `k` matches its renaming under associations of
/// the two forms above, and the step preserves both forms.
pub proof fn lemma_ident_match_rename(
    id: Ident,
    k: usize,
    bound: Set<usize>,
    sto: Map<usize, usize>,
    ots: Map<usize, usize>,
)
    requires
        ident_below(id, k),
        k + k <= usize::MAX,
        rename_assoc_sto(sto, k, bound),
        rename_assoc_ots(ots, k),
    ensures
        ({
            let (r, sto2, ots2) = ident_match_step(id, rename_ident(id, k, bound), sto, ots);
            r && rename_assoc_sto(sto2, k, bound) && rename_assoc_ots(ots2, k)
        }),
{
}

/// A term whose locals are below `k` matches its renaming, and the steps
/// preserve both association forms.
pub proof fn lemma_term_match_rename(
    t: Term,
    k: usize,
    bound: Set<usize>,
    sto: Map<usize, usize>,
    ots: Map<usize, usize>,
)
    requires
        term_ids_below(t, k),
        k + k <= usize::MAX,
        rename_assoc_sto(sto, k, bound),
        rename_assoc_ots(ots, k),
    ensures
        ({
            let (r, sto2, ots2) = term_match_step(t, rename_term(t, k, bound), sto, ots);
            r && rename_assoc_sto(sto2, k, bound) && rename_assoc_ots(ots2, k)
        }),
    decreases t,
{
    match t {
        Term::Symbol(id) => {
            lemma_ident_match_rename(id, k, bound, sto, ots);
        },
        Term::Application(func, arg) => {
            lemma_term_match_rename(*func, k, bound, sto, ots);
            let (_, sto1, ots1) = term_match_step(*func, rename_term(*func, k, bound), sto, ots);
            lemma_term_match_rename(*arg, k, bound, sto1, ots1);
        },
    }
}

/// A formula whose locals are below `k` matches its renaming, and the
/// steps preserve both association forms.
pub proof fn lemma_formula_match_rename(
    f: Formula,
    k: usize,
    bound: Set<usize>,
    sto: Map<usize, usize>,
    ots: Map<usize, usize>,
)
    requires
        formula_ids_below(f, k),
        k + k <= usize::MAX,
        rename_assoc_sto(sto, k, bound),
        rename_assoc_ots(ots, k),
    ensures
        ({
            let (r, sto2, ots2) = formula_match_step(f, rename_formula(f, k, bound), sto, ots);
            r && rename_assoc_sto(sto2, k, bound) && rename_assoc_ots(ots2, k)
        }),
    decreases f,
{
    match f {
        Formula::False => {},
        Formula::Relation(id) => {
            lemma_ident_match_rename(id, k, bound, sto, ots);
        },
        Formula::Application(pred, arg) => {
            lemma_formula_match_rename(*pred, k, bound, sto, ots);
            let (_, sto1, ots1) = formula_match_step(
                *pred,
                rename_formula(*pred, k, bound),
                sto,
                ots,
            );
            lemma_term_match_rename(arg, k, bound, sto1, ots1);
        },
        Formula::Implication(lhs, rhs) => {
            lemma_formula_match_rename(*lhs, k, bound, sto, ots);
            let (_, sto1, ots1) = formula_match_step(
                *lhs,
                rename_formula(*lhs, k, bound),
                sto,
                ots,
            );
            lemma_formula_match_rename(*rhs, k, bound, sto1, ots1);
        },
        Formula::UniversalQ(id, _, body) => {
            let bound1 = bound.insert(id);
            let sto1 = sto.insert(id, (id + k) as usize);
            let ots1 = ots.insert((id + k) as usize, id);
            assert(rename_assoc_sto(sto1, k, bound1));
            assert(rename_assoc_ots(ots1, k));
            lemma_formula_match_rename(*body, k, bound1, sto1, ots1);
            let (_, sto2, ots2) = formula_match_step(
                *body,
                rename_formula(*body, k, bound1),
                sto1,
                ots1,
            );
            assert(rename_assoc_sto(sto2.remove(id), k, bound));
            assert(rename_assoc_ots(ots2.remove((id + k) as usize), k));
        },
    }
}

/// Alpha-invariance of matching: a formula matches the copy of itself in
/// which every bound local identifier is systematically shifted by `k`,
/// for any `k` above every identifier of the formula — such shifted
/// identifiers are fresh and collide with nothing else in the formula.
pub proof fn lemma_matches_alpha_rename(f: Formula, k: usize)
    requires
        formula_ids_below(f, k),
        k + k <= usize::MAX,
    ensures
        formula_match_step(
            f,
            rename_formula(f, k, Set::empty()),
            Map::empty(),
            Map::empty(),
        ).0,
{
    lemma_formula_match_rename(f, k, Set::empty(), Map::empty(), Map::empty());
}

/// Whether two formulas have the same top-level shape.
pub open spec fn same_shape(a: Formula, b: Formula) -> bool {
    match (a, b) {
        (Formula::False, Formula::False) => true,
        (Formula::Relation(_), Formula::Relation(_)) => true,
        (Formula::Application(_, _), Formula::Application(_, _)) => true,
        (Formula::Implication(_, _), Formula::Implication(_, _)) => true,
        (Formula::UniversalQ(_, _, _), Formula::UniversalQ(_, _, _)) => true,
        _ => false,
    }
}

/// Matching is refuted immediately by a top-level shape mismatch,
/// whatever the associations carry.
pub proof fn lemma_matches_shape_mismatch(
    a: Formula,
    b: Formula,
    sto: Map<usize, usize>,
    ots: Map<usize, usize>,
)
    requires
        !same_shape(a, b),
    ensures
        !formula_match_step(a, b, sto, ots).0,
{
}

/// Whether two terms have the same top-level shape.
pub open spec fn same_term_shape(a: Term, b: Term) -> bool {
    match (a, b) {
        (Term::Symbol(_), Term::Symbol(_)) => true,
        (Term::Application(_, _), Term::Application(_, _)) => true,
        _ => false,
    }
}

/// Term matching is refuted immediately by a top-level shape mismatch,
/// whatever the associations carry.
pub proof fn lemma_term_matches_shape_mismatch(
    a: Term,
    b: Term,
    sto: Map<usize, usize>,
    ots: Map<usize, usize>,
)
    requires
        !same_term_shape(a, b),
    ensures
        !term_match_step(a, b, sto, ots).0,
{
}

/// Two distinct global identifiers never match: no renaming is permitted
/// for globals, in relation position or in symbol position.
pub proof fn lemma_matches_global_mismatch(
    i: usize,
    j: usize,
    sto: Map<usize, usize>,
    ots: Map<usize, usize>,
)
    requires
        i != j,
    ensures
        !formula_match_step(
            Formula::Relation(Ident::Global(i)),
            Formula::Relation(Ident::Global(j)),
            sto,
            ots,
        ).0,
        !term_match_step(
            Term::Symbol(Ident::Global(i)),
            Term::Symbol(Ident::Global(j)),
            sto,
            ots,
        ).0,
{
}

} // verus!
