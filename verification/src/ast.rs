//! Type-checked construction: the per-context table of locally bound
//! variables, and the builders that assemble well-typed terms, formulas
//! and formula schemas one syntactic construct at a time, consulting the
//! global and local bindings and reporting typed failures.

use std::collections::HashMap;
use vstd::prelude::*;
use vstd::string::StringExecFns;

use crate::error::{Error, ErrorKind, FileLocation};
use crate::state::{
    itype_named, itype_repr, itype_seq_named, mtype_named, mtype_repr, Bindings, RLangRepr,
};
use crate::types::{
    itype_eq, Formula, FormulaSchema, Ident, InternalType, MetaType, Term,
};

verus! {

/// The local binders of one quantifier/schema context: three parallel
/// maps pairing source-level global ids with the locally bound ids and
/// the meta-types they were introduced at.
pub struct LocalBindings {
    pub glob_to_loc: HashMap<usize, usize>,
    pub loc_to_glob: HashMap<usize, usize>,
    pub local_types: HashMap<usize, MetaType>,
}

impl LocalBindings {
    /// The three maps agree: the two id maps are mutually inverse, and
    /// the type map covers exactly the bound local ids.
    pub open spec fn wf(self) -> bool {
        &&& forall|g: usize|
            self.glob_to_loc@.contains_key(g) ==> self.loc_to_glob@.contains_key(
                #[trigger] self.glob_to_loc@[g],
            ) && self.loc_to_glob@[self.glob_to_loc@[g]] == g
        &&& forall|l: usize|
            self.loc_to_glob@.contains_key(l) ==> self.glob_to_loc@.contains_key(
                #[trigger] self.loc_to_glob@[l],
            ) && self.glob_to_loc@[self.loc_to_glob@[l]] == l
        &&& forall|l: usize|
            self.loc_to_glob@.contains_key(l) <==> self.local_types@.contains_key(l)
    }

    /// Whether every meta-type a binder was introduced at can be
    /// rendered against an interning table of `n` names.
    pub open spec fn types_named(self, n: int) -> bool {
        forall|l: usize|
            self.local_types@.contains_key(l) ==> mtype_named(#[trigger] self.local_types@[l], n)
    }

    pub fn new() -> (r: LocalBindings)
        ensures
            r.glob_to_loc@ == Map::<usize, usize>::empty(),
            r.loc_to_glob@ == Map::<usize, usize>::empty(),
            r.local_types@ == Map::<usize, MetaType>::empty(),
            r.wf(),
    {
        LocalBindings {
            glob_to_loc: HashMap::new(),
            loc_to_glob: HashMap::new(),
            local_types: HashMap::new(),
        }
    }

    /// Whether no binder is open in this context.
    pub fn is_empty(&self) -> (r: bool)
        ensures
            r == self.glob_to_loc@.is_empty(),
    {
        self.glob_to_loc.is_empty()
    }

    /// The local id a global id is currently bound to, if any.
    pub fn get_local(&self, id: &usize) -> (r: Option<usize>)
        ensures
            match r {
                Some(l) => self.glob_to_loc@.contains_key(*id) && self.glob_to_loc@[*id] == l,
                None => !self.glob_to_loc@.contains_key(*id),
            },
    {
        match self.glob_to_loc.get(id) {
            Some(local_id) => Some(*local_id),
            None => None,
        }
    }

    /// The global id a local id stands for, if any.
    pub fn get_global(&self, local_id: &usize) -> (r: Option<usize>)
        ensures
            match r {
                Some(g) => self.loc_to_glob@.contains_key(*local_id) && self.loc_to_glob@[*local_id]
                    == g,
                None => !self.loc_to_glob@.contains_key(*local_id),
            },
    {
        match self.loc_to_glob.get(local_id) {
            Some(id) => Some(*id),
            None => None,
        }
    }

    /// The meta-type a bound local id was introduced at.
    pub fn get_type(&self, local_id: &usize) -> (r: &MetaType)
        requires
            self.local_types@.contains_key(*local_id),
        ensures
            *r == self.local_types@[*local_id],
    {
        self.local_types.get(local_id).unwrap()
    }

    /// Records a fresh binder. The global id must not be bound in this
    /// context already, and the local id must be fresh — the caller owns
    /// both obligations.
    pub fn insert(&mut self, id: usize, local_id: usize, mtype: MetaType) -> (r: usize)
        requires
            old(self).wf(),
            !old(self).glob_to_loc@.contains_key(id),
            !old(self).loc_to_glob@.contains_key(local_id),
        ensures
            final(self).wf(),
            final(self).glob_to_loc@ == old(self).glob_to_loc@.insert(id, local_id),
            final(self).loc_to_glob@ == old(self).loc_to_glob@.insert(local_id, id),
            final(self).local_types@ == old(self).local_types@.insert(local_id, mtype),
            r == local_id,
    {
        self.glob_to_loc.insert(id, local_id);
        self.loc_to_glob.insert(local_id, id);
        self.local_types.insert(local_id, mtype);
        local_id
    }

    /// Deletes a binder and returns the meta-type it was introduced at.
    pub fn remove(&mut self, local_id: &usize) -> (r: MetaType)
        requires
            old(self).wf(),
            old(self).loc_to_glob@.contains_key(*local_id),
        ensures
            final(self).wf(),
            final(self).glob_to_loc@ == old(self).glob_to_loc@.remove(
                old(self).loc_to_glob@[*local_id],
            ),
            final(self).loc_to_glob@ == old(self).loc_to_glob@.remove(*local_id),
            final(self).local_types@ == old(self).local_types@.remove(*local_id),
            r == old(self).local_types@[*local_id],
    {
        let id = self.loc_to_glob.remove(local_id).unwrap();
        self.glob_to_loc.remove(&id).unwrap();
        self.local_types.remove(local_id).unwrap()
    }
}

/// Whether the meta-type of every binding reachable in the global value
/// table can be rendered against the interned names.
pub open spec fn globals_types_named(g: Bindings) -> bool {
    forall|i: usize|
        match #[trigger] g.val_table.chain_get(i) {
            Some(pair) => mtype_named(pair.0, g.names_view().len() as int),
            None => true,
        }
}

/// A term under construction, carrying its internal type and the place
/// it came from.
pub struct TermBuilder {
    pub itype: InternalType,
    pub value: Term,
    pub location: FileLocation,
}

impl TermBuilder {
    /// Resolves an identifier, first against the local binders, else
    /// against the global bindings. A resolution that is not of `Term`
    /// meta-type is an `MTypeMismatch`; an identifier bound nowhere is a
    /// `NoBinding`.
    pub fn symbol(id: usize, locals: &LocalBindings, globals: &Bindings, location: FileLocation) -> (
        r: Result<TermBuilder, Error>)
        requires
            locals.wf(),
            locals.types_named(globals.names_view().len() as int),
            globals_types_named(*globals),
            id < globals.id_table.names@.len(),
        ensures
            ({
                let names = globals.names_view();
                if locals.glob_to_loc@.contains_key(id) {
                    let l = locals.glob_to_loc@[id];
                    match locals.local_types@[l] {
                        MetaType::Term(it) => r matches Ok(b) && b.itype == it && b.value
                            == Term::Symbol(Ident::Local(l)) && b.location == location,
                        _ => r matches Err(e) && e.location == location && (e.error matches
                            ErrorKind::MTypeMismatch { found, expected } && found@ == mtype_repr(
                                locals.local_types@[l],
                                names,
                            ) && expected@ == "Term _"@),
                    }
                } else {
                    match globals.val_table.chain_get(id) {
                        Some(pair) => match pair.0 {
                            MetaType::Term(it) => r matches Ok(b) && b.itype == it && b.value
                                == Term::Symbol(Ident::Global(id)) && b.location == location,
                            _ => r matches Err(e) && e.location == location && (e.error matches
                                ErrorKind::MTypeMismatch { found, expected } && found@
                                == mtype_repr(pair.0, names) && expected@ == "Term _"@),
                        },
                        None => r matches Err(e) && e.location == location && (e.error matches
                            ErrorKind::NoBinding { name } && name == globals.id_table.names@[id
                            as int]),
                    }
                }
            }),
    {
        if let Some(local_id) = locals.get_local(&id) {
            let mtype = locals.get_type(&local_id);
            if let MetaType::Term(itype) = mtype {
                Ok(
                    TermBuilder {
                        itype: itype.clone(),
                        value: Term::Symbol(Ident::Local(local_id)),
                        location,
                    },
                )
            } else {
                Err(
                    Error::new(
                        ErrorKind::MTypeMismatch {
                            found: mtype.repr(globals),
                            expected: String::from_str("Term _"),
                        },
                        &location,
                    ),
                )
            }
        } else {
            match globals.val_table.get(&id) {
                Some(pair) => {
                    if let MetaType::Term(itype) = &pair.0 {
                        Ok(
                            TermBuilder {
                                itype: itype.clone(),
                                value: Term::Symbol(Ident::Global(id)),
                                location,
                            },
                        )
                    } else {
                        Err(
                            Error::new(
                                ErrorKind::MTypeMismatch {
                                    found: pair.0.repr(globals),
                                    expected: String::from_str("Term _"),
                                },
                                &location,
                            ),
                        )
                    }
                },
                None => Err(
                    Error::new(
                        ErrorKind::NoBinding { name: globals.get_name(&id).unwrap().clone() },
                        &location,
                    ),
                ),
            }
        }
    }

    /// Applies one term to another: the function's type must be an arrow
    /// whose argument type the argument's type equals structurally, and
    /// the application then has the arrow's result type; anything else is
    /// an `ITypeMismatch`.
    pub fn application(function: TermBuilder, argument: TermBuilder, globals: &Bindings) -> (r:
        Result<TermBuilder, Error>)
        requires
            itype_named(function.itype, globals.names_view().len() as int),
            itype_named(argument.itype, globals.names_view().len() as int),
        ensures
            ({
                let names = globals.names_view();
                match function.itype {
                    InternalType::Func(arg_t, ret_t) => if argument.itype == *arg_t {
                        r matches Ok(b) && b.itype == *ret_t && b.value == Term::Application(
                            Box::new(function.value),
                            Box::new(argument.value),
                        ) && b.location == function.location
                    } else {
                        r matches Err(e) && e.location == argument.location && (e.error matches
                            ErrorKind::ITypeMismatch { found, expected } && found@ == itype_repr(
                                argument.itype,
                                names,
                            ) && expected@ == itype_repr(*arg_t, names))
                    },
                    _ => r matches Err(e) && e.location == function.location && (e.error matches
                        ErrorKind::ITypeMismatch { found, expected } && found@ == itype_repr(
                            function.itype,
                            names,
                        ) && expected@ == itype_repr(argument.itype, names) + " -> _"@),
                }
            }),
    {
        if let InternalType::Func(arg_type, ret_type) = function.itype {
            if itype_eq(&argument.itype, &arg_type) {
                Ok(
                    TermBuilder {
                        itype: *ret_type,
                        value: Term::Application(
                            Box::new(function.value),
                            Box::new(argument.value),
                        ),
                        location: function.location,
                    },
                )
            } else {
                Err(
                    Error::new(
                        ErrorKind::ITypeMismatch {
                            found: argument.itype.repr(globals),
                            expected: arg_type.repr(globals),
                        },
                        &argument.location,
                    ),
                )
            }
        } else {
            let mut expected = argument.itype.repr(globals);
            expected.append(" -> _");
            Err(
                Error::new(
                    ErrorKind::ITypeMismatch { found: function.itype.repr(globals), expected },
                    &function.location,
                ),
            )
        }
    }
}

/// A formula under construction, carrying the remaining argument types
/// of its outermost relation (consumed from the end) and the place it
/// came from. It is a well-formed formula exactly when no argument type
/// remains.
pub struct FormulaBuilder {
    pub arg_types: Vec<InternalType>,
    pub value: Formula,
    pub location: FileLocation,
}

impl FormulaBuilder {
    /// The formula `False`, a complete wff.
    pub fn false_(location: FileLocation) -> (r: Result<FormulaBuilder, Error>)
        ensures
            r matches Ok(b) && b.arg_types@ == Seq::<InternalType>::empty() && b.value
                == Formula::False && b.location == location,
    {
        Ok(FormulaBuilder { arg_types: Vec::new(), value: Formula::False, location })
    }

    /// Resolves a relation identifier, first against the local binders,
    /// else against the global bindings, capturing the declared argument
    /// types. A resolution that is not of `Formula` meta-type is an
    /// `MTypeMismatch`; an identifier bound nowhere is a `NoBinding`.
    pub fn relation(id: usize, locals: &LocalBindings, globals: &Bindings, location: FileLocation) -> (
        r: Result<FormulaBuilder, Error>)
        requires
            locals.wf(),
            locals.types_named(globals.names_view().len() as int),
            globals_types_named(*globals),
            id < globals.id_table.names@.len(),
        ensures
            ({
                let names = globals.names_view();
                if locals.glob_to_loc@.contains_key(id) {
                    let l = locals.glob_to_loc@[id];
                    match locals.local_types@[l] {
                        MetaType::Formula(args) => r matches Ok(b) && b.arg_types@ == args@
                            && b.value == Formula::Relation(Ident::Local(l)) && b.location
                            == location,
                        _ => r matches Err(e) && e.location == location && (e.error matches
                            ErrorKind::MTypeMismatch { found, expected } && found@ == mtype_repr(
                                locals.local_types@[l],
                                names,
                            ) && expected@ == "Formula _*"@),
                    }
                } else {
                    match globals.val_table.chain_get(id) {
                        Some(pair) => match pair.0 {
                            MetaType::Formula(args) => r matches Ok(b) && b.arg_types@ == args@
                                && b.value == Formula::Relation(Ident::Global(id)) && b.location
                                == location,
                            _ => r matches Err(e) && e.location == location && (e.error matches
                                ErrorKind::MTypeMismatch { found, expected } && found@
                                == mtype_repr(pair.0, names) && expected@ == "Formula _*"@),
                        },
                        None => r matches Err(e) && e.location == location && (e.error matches
                            ErrorKind::NoBinding { name } && name == globals.id_table.names@[id
                            as int]),
                    }
                }
            }),
    {
        if let Some(local_id) = locals.get_local(&id) {
            let mtype = locals.get_type(&local_id);
            if let MetaType::Formula(arg_types) = mtype {
                let copies = arg_types.clone();
                proof {
                    assert(copies@ =~= arg_types@);
                }
                Ok(
                    FormulaBuilder {
                        arg_types: copies,
                        value: Formula::Relation(Ident::Local(local_id)),
                        location,
                    },
                )
            } else {
                Err(
                    Error::new(
                        ErrorKind::MTypeMismatch {
                            found: mtype.repr(globals),
                            expected: String::from_str("Formula _*"),
                        },
                        &location,
                    ),
                )
            }
        } else {
            match globals.val_table.get(&id) {
                Some(pair) => {
                    if let MetaType::Formula(arg_types) = &pair.0 {
                        let copies = arg_types.clone();
                        proof {
                            assert(copies@ =~= arg_types@);
                        }
                        Ok(
                            FormulaBuilder {
                                arg_types: copies,
                                value: Formula::Relation(Ident::Global(id)),
                                location,
                            },
                        )
                    } else {
                        Err(
                            Error::new(
                                ErrorKind::MTypeMismatch {
                                    found: pair.0.repr(globals),
                                    expected: String::from_str("Formula _*"),
                                },
                                &location,
                            ),
                        )
                    }
                },
                None => Err(
                    Error::new(
                        ErrorKind::NoBinding { name: globals.get_name(&id).unwrap().clone() },
                        &location,
                    ),
                ),
            }
        }
    }

    /// Applies a partially applied relation to one more term, consuming
    /// the last remaining argument type. A relation with no remaining
    /// argument type cannot be applied (`MTypeMismatch`); a term of the
    /// wrong type is an `ITypeMismatch`.
    pub fn application(predicate: FormulaBuilder, term: TermBuilder, globals: &Bindings) -> (r:
        Result<FormulaBuilder, Error>)
        requires
            itype_seq_named(predicate.arg_types@, globals.names_view().len() as int),
            itype_named(term.itype, globals.names_view().len() as int),
        ensures
            ({
                let names = globals.names_view();
                if predicate.arg_types@.len() == 0 {
                    r matches Err(e) && e.location == predicate.location && (e.error matches
                        ErrorKind::MTypeMismatch { found, expected } && found@ == "(Formula )"@
                        && expected@ == "Formula "@ + itype_repr(term.itype, names) + " _"@)
                } else {
                    let term_type = predicate.arg_types@.last();
                    if term.itype == term_type {
                        r matches Ok(b) && b.arg_types@ == predicate.arg_types@.drop_last()
                            && b.value == Formula::Application(
                            Box::new(predicate.value),
                            term.value,
                        ) && b.location == predicate.location
                    } else {
                        r matches Err(e) && e.location == term.location && (e.error matches
                            ErrorKind::ITypeMismatch { found, expected } && found@ == itype_repr(
                                term.itype,
                                names,
                            ) && expected@ == itype_repr(term_type, names))
                    }
                }
            }),
    {
        let mut predicate = predicate;
        if let Some(term_type) = predicate.arg_types.pop() {
            if itype_eq(&term.itype, &term_type) {
                Ok(
                    FormulaBuilder {
                        arg_types: predicate.arg_types,
                        value: Formula::Application(Box::new(predicate.value), term.value),
                        location: predicate.location,
                    },
                )
            } else {
                Err(
                    Error::new(
                        ErrorKind::ITypeMismatch {
                            found: term.itype.repr(globals),
                            expected: term_type.repr(globals),
                        },
                        &term.location,
                    ),
                )
            }
        } else {
            let empty_formula = MetaType::Formula(Vec::new());
            let found = empty_formula.repr(globals);
            proof {
                reveal_strlit("(Formula ");
                reveal_strlit(")");
                reveal_strlit("(Formula )");
                assert(found@ =~= "(Formula )"@);
            }
            let mut expected = String::from_str("Formula ");
            expected.append(term.itype.repr(globals).as_str());
            expected.append(" _");
            Err(
                Error::new(
                    ErrorKind::MTypeMismatch { found, expected },
                    &predicate.location,
                ),
            )
        }
    }

    /// Connects two formulas by implication. Both operands must already
    /// be well-formed (no remaining argument types); anything else is an
    /// `UnboundImplication`.
    pub fn implication(lhs: FormulaBuilder, rhs: FormulaBuilder) -> (r: Result<
        FormulaBuilder,
        Error,
    >)
        ensures
            (lhs.arg_types@.len() == 0 && rhs.arg_types@.len() == 0) ==> (r matches Ok(b)
                && b.arg_types@ == Seq::<InternalType>::empty() && b.value == Formula::Implication(
                Box::new(lhs.value),
                Box::new(rhs.value),
            ) && b.location == lhs.location),
            !(lhs.arg_types@.len() == 0 && rhs.arg_types@.len() == 0) ==> (r matches Err(e)
                && e.error matches ErrorKind::UnboundImplication && e.location == lhs.location),
    {
        if lhs.arg_types.len() == 0 && rhs.arg_types.len() == 0 {
            proof {
                assert(lhs.arg_types@ =~= Seq::<InternalType>::empty());
            }
            Ok(
                FormulaBuilder {
                    arg_types: lhs.arg_types,
                    value: Formula::Implication(Box::new(lhs.value), Box::new(rhs.value)),
                    location: lhs.location,
                },
            )
        } else {
            Err(Error::new(ErrorKind::UnboundImplication, &lhs.location))
        }
    }

    /// Introduces a fresh local binder for a `Term`-typed variable
    /// before the quantifier body is parsed; a global id already locally
    /// bound is a `BindingExists`.
    pub fn quantifier_prep(
        id: usize,
        itype: InternalType,
        locals: &mut LocalBindings,
        globals: &mut Bindings,
        location: FileLocation,
    ) -> (r: Result<(), Error>)
        requires
            old(locals).wf(),
            old(globals).next_local < usize::MAX,
            id < old(globals).id_table.names@.len(),
            forall|l: usize|
                old(locals).loc_to_glob@.contains_key(l) ==> l < old(globals).next_local,
        ensures
            final(locals).wf(),
            !old(locals).glob_to_loc@.contains_key(id) ==> (r matches Ok(u) && u == ()
                && final(locals).glob_to_loc@ == old(locals).glob_to_loc@.insert(
                id,
                old(globals).next_local,
            ) && final(locals).loc_to_glob@ == old(locals).loc_to_glob@.insert(
                old(globals).next_local,
                id,
            ) && final(locals).local_types@ == old(locals).local_types@.insert(
                old(globals).next_local,
                MetaType::Term(itype),
            ) && final(globals).next_local == old(globals).next_local + 1 && final(globals).id_table == old(globals).id_table && final(globals).val_table == old(globals).val_table && final(globals).proven_wffs == old(globals).proven_wffs),
            old(locals).glob_to_loc@.contains_key(id) ==> (r matches Err(e) && e.location
                == location && (e.error matches ErrorKind::BindingExists { name } && name == old(globals).id_table.names@[id as int]) && *final(locals) == *old(locals) && *final(globals)
                == *old(globals)),
            forall|l: usize|
                final(locals).loc_to_glob@.contains_key(l) ==> l < final(globals).next_local,
    {
        if let None = locals.get_local(&id) {
            let local_id = globals.new_local();
            locals.insert(id, local_id, MetaType::Term(itype));
            Ok(())
        } else {
            Err(
                Error::new(
                    ErrorKind::BindingExists { name: globals.get_name(&id).unwrap().clone() },
                    &location,
                ),
            )
        }
    }

    /// Closes a quantifier: removes the local binder that
    /// `quantifier_prep` introduced for this id and wraps the formula in
    /// a universal quantification over it. The caller must pair this
    /// with exactly the preceding `quantifier_prep` for the same binder,
    /// in strict nested order.
    pub fn universal_q(
        id: usize,
        itype: InternalType,
        formula: FormulaBuilder,
        locals: &mut LocalBindings,
        location: FileLocation,
    ) -> (r: Result<FormulaBuilder, Error>)
        requires
            old(locals).wf(),
            old(locals).glob_to_loc@.contains_key(id),
        ensures
            final(locals).wf(),
            final(locals).glob_to_loc@ == old(locals).glob_to_loc@.remove(id),
            final(locals).loc_to_glob@ == old(locals).loc_to_glob@.remove(
                old(locals).glob_to_loc@[id],
            ),
            final(locals).local_types@ == old(locals).local_types@.remove(
                old(locals).glob_to_loc@[id],
            ),
            r matches Ok(b) && b.arg_types == formula.arg_types && b.value == Formula::UniversalQ(
                old(locals).glob_to_loc@[id],
                itype,
                Box::new(formula.value),
            ) && b.location == location,
    {
        let local_id = locals.get_local(&id).unwrap();
        locals.remove(&local_id);
        Ok(
            FormulaBuilder {
                arg_types: formula.arg_types,
                value: Formula::UniversalQ(local_id, itype, Box::new(formula.value)),
                location,
            },
        )
    }

    /// The assembled formula.
    pub fn value(self) -> (r: Formula)
        ensures
            r == self.value,
    {
        self.value
    }
}

/// A formula schema under construction: the meta-types bound so far, the
/// remaining term-argument types inherited from the underlying formula,
/// and the place it came from.
pub struct FSchemaBuilder {
    pub marg_types: Vec<MetaType>,
    pub iarg_types: Vec<InternalType>,
    pub value: FormulaSchema,
    pub location: FileLocation,
}

impl FSchemaBuilder {
    /// Lifts a formula into the base case of a schema, inheriting its
    /// remaining-argument state.
    pub fn formula(formula: FormulaBuilder) -> (r: Result<FSchemaBuilder, Error>)
        ensures
            r matches Ok(b) && b.marg_types@ == Seq::<MetaType>::empty() && b.iarg_types
                == formula.arg_types && b.value == FormulaSchema::Formula(formula.value)
                && b.location == formula.location,
    {
        Ok(
            FSchemaBuilder {
                marg_types: Vec::new(),
                iarg_types: formula.arg_types,
                value: FormulaSchema::Formula(formula.value),
                location: formula.location,
            },
        )
    }

    /// Introduces a fresh local binder of arbitrary meta-type before the
    /// schema body is parsed; a global id already locally bound is a
    /// `BindingExists`.
    pub fn schema_prep(
        id: usize,
        mtype: MetaType,
        locals: &mut LocalBindings,
        globals: &mut Bindings,
        location: FileLocation,
    ) -> (r: Result<(), Error>)
        requires
            old(locals).wf(),
            old(globals).next_local < usize::MAX,
            id < old(globals).id_table.names@.len(),
            forall|l: usize|
                old(locals).loc_to_glob@.contains_key(l) ==> l < old(globals).next_local,
        ensures
            final(locals).wf(),
            !old(locals).glob_to_loc@.contains_key(id) ==> (r matches Ok(u) && u == ()
                && final(locals).glob_to_loc@ == old(locals).glob_to_loc@.insert(
                id,
                old(globals).next_local,
            ) && final(locals).loc_to_glob@ == old(locals).loc_to_glob@.insert(
                old(globals).next_local,
                id,
            ) && final(locals).local_types@ == old(locals).local_types@.insert(
                old(globals).next_local,
                mtype,
            ) && final(globals).next_local == old(globals).next_local + 1 && final(globals).id_table == old(globals).id_table && final(globals).val_table == old(globals).val_table && final(globals).proven_wffs == old(globals).proven_wffs),
            old(locals).glob_to_loc@.contains_key(id) ==> (r matches Err(e) && e.location
                == location && (e.error matches ErrorKind::BindingExists { name } && name == old(globals).id_table.names@[id as int]) && *final(locals) == *old(locals) && *final(globals)
                == *old(globals)),
            forall|l: usize|
                final(locals).loc_to_glob@.contains_key(l) ==> l < final(globals).next_local,
    {
        if let None = locals.get_local(&id) {
            let local_id = globals.new_local();
            locals.insert(id, local_id, mtype);
            Ok(())
        } else {
            Err(
                Error::new(
                    ErrorKind::BindingExists { name: globals.get_name(&id).unwrap().clone() },
                    &location,
                ),
            )
        }
    }

    /// Closes a schema binder: removes the local binder that
    /// `schema_prep` introduced for this id, appends its meta-type to
    /// the accumulated parameter list (state kept for later consumers),
    /// and wraps the schema body. The caller must pair this with exactly
    /// the preceding `schema_prep` for the same binder, in strict nested
    /// order.
    pub fn schema(
        id: usize,
        mtype: MetaType,
        schema: FSchemaBuilder,
        locals: &mut LocalBindings,
        location: FileLocation,
    ) -> (r: Result<FSchemaBuilder, Error>)
        requires
            old(locals).wf(),
            old(locals).glob_to_loc@.contains_key(id),
        ensures
            final(locals).wf(),
            final(locals).glob_to_loc@ == old(locals).glob_to_loc@.remove(id),
            final(locals).loc_to_glob@ == old(locals).loc_to_glob@.remove(
                old(locals).glob_to_loc@[id],
            ),
            final(locals).local_types@ == old(locals).local_types@.remove(
                old(locals).glob_to_loc@[id],
            ),
            r matches Ok(b) && b.marg_types@.len() == schema.marg_types@.len() + 1 && (forall|
                i: int,
            |
                0 <= i < schema.marg_types@.len() ==> b.marg_types@[i] == schema.marg_types@[i])
                && crate::types::mtype_view(b.marg_types@.last()) == crate::types::mtype_view(
                mtype,
            ) && b.iarg_types == schema.iarg_types && b.value == FormulaSchema::Schema(
                old(locals).glob_to_loc@[id],
                mtype,
                Box::new(schema.value),
            ) && b.location == location,
    {
        let local_id = locals.get_local(&id).unwrap();
        locals.remove(&local_id);
        let mut schema = schema;
        schema.marg_types.push(mtype.clone());
        Ok(
            FSchemaBuilder {
                marg_types: schema.marg_types,
                iarg_types: schema.iarg_types,
                value: FormulaSchema::Schema(local_id, mtype, Box::new(schema.value)),
                location,
            },
        )
    }

    /// Whether the underlying formula is a wff: no term-argument
    /// position remains unresolved, whatever meta-binders stand above
    /// it.
    pub fn is_wff_schema(&self) -> (r: bool)
        ensures
            r == (self.iarg_types@.len() == 0),
    {
        self.iarg_types.len() == 0
    }

    /// The assembled schema.
    pub fn value(self) -> (r: FormulaSchema)
        ensures
            r == self.value,
    {
        self.value
    }
}

} // verus!
