//! The identifier environment: the name-interning table, the chained
//! (scoped) map, the global bindings that combine them with the proved
//! theorems and the local-id counter, and the textual rendering of types
//! against the interned names.

use std::collections::HashMap;
use vstd::prelude::*;
use vstd::string::StringExecFns;

use crate::error::{Error, ErrorKind, FileLocation};
use crate::text::dec_digits;
use crate::text::usize_to_string;
use crate::types::{mtype_view, mvalue_view, FormulaSchema, Ident, InternalType, MetaType, MetaValue};

verus! {

/// Bidirectional mapping between global names and integer ids. Ids are
/// the positions in the insertion-ordered table, so they are minted
/// monotonically from zero; reclamation removes the last-minted id only,
/// which keeps the id space collision-free.
pub struct IDTracker {
    pub names: Vec<String>,
}

impl IDTracker {
    /// The interned names, as character sequences, in id order.
    pub open spec fn names_view(self) -> Seq<Seq<char>> {
        self.names@.map_values(|s: String| s@)
    }

    /// Whether some id is already bound to this name.
    pub open spec fn has_name(self, n: Seq<char>) -> bool {
        exists|i: int| 0 <= i < self.names@.len() && self.names@[i]@ == n
    }

    pub fn new() -> (r: IDTracker)
        ensures
            r.names@.len() == 0,
    {
        IDTracker { names: Vec::new() }
    }

    /// Mints the next id for a name not interned yet.
    fn new_identifier(&mut self, name: String) -> (id: usize)
        ensures
            final(self).names@ == old(self).names@.push(name),
            id == old(self).names@.len(),
    {
        let id = self.names.len();
        self.names.push(name);
        id
    }

    /// The id of a name, if the name is interned.
    pub fn get_id_nomake(&self, name: &str) -> (r: Option<usize>)
        ensures
            match r {
                Some(i) => i < self.names@.len() && self.names@[i as int]@ == name@ && forall|
                    j: int,
                | 0 <= j < i ==> self.names@[j]@ != name@,
                None => !self.has_name(name@),
            },
    {
        let owned = name.to_owned();
        let n = self.names.len();
        let mut i: usize = 0;
        while i < n
            invariant
                i <= n,
                n == self.names@.len(),
                owned@ == name@,
                forall|j: int| 0 <= j < i ==> self.names@[j]@ != name@,
            decreases n - i,
        {
            if self.names[i].eq(&owned) {
                return Some(i);
            }
            i = i + 1;
        }
        None
    }

    /// The id of a name, minting the next id if the name is new.
    pub fn get_id(&mut self, name: &str) -> (id: usize)
        ensures
            old(self).has_name(name@) ==> *final(self) == *old(self) && id < final(self).names@.len()
                && final(self).names@[id as int]@ == name@ && forall|j: int|
                0 <= j < id ==> final(self).names@[j]@ != name@,
            !old(self).has_name(name@) ==> id == old(self).names@.len() && final(self).names@.len() == old(self).names@.len() + 1 && final(self).names@[id as int]@
                == name@ && forall|j: int|
                0 <= j < old(self).names@.len() ==> final(self).names@[j] == old(self).names@[j],
    {
        match self.get_id_nomake(name) {
            Some(id) => id,
            None => self.new_identifier(name.to_owned()),
        }
    }

    /// The name of an id, if the id was minted.
    pub fn get_name(&self, id: &usize) -> (r: Option<&String>)
        ensures
            match r {
                Some(s) => *id < self.names@.len() && *s == self.names@[*id as int],
                None => *id >= self.names@.len(),
            },
    {
        if *id < self.names.len() {
            Some(&self.names[*id])
        } else {
            None
        }
    }

    /// Reclaims an id; only the last-minted id may be reclaimed, which
    /// keeps later minting collision-free.
    pub fn remove(&mut self, id: &usize)
        requires
            *id + 1 == old(self).names@.len(),
        ensures
            final(self).names@ == old(self).names@.drop_last(),
    {
        let _ = self.names.pop();
    }
}

/// A linked stack of maps: a base map, or a child map layered on a
/// parent. Reads search inward-out; writes go to the innermost map only.
pub enum ChainMap<V> {
    Child(HashMap<usize, V>, Box<ChainMap<V>>),
    Base(HashMap<usize, V>),
}

impl<V> ChainMap<V> {
    /// The stack of level contents, innermost first.
    pub open spec fn maps(self) -> Seq<Map<usize, V>>
        decreases self,
    {
        match self {
            ChainMap::Base(m) => seq![m@],
            ChainMap::Child(m, parent) => seq![m@] + parent.maps(),
        }
    }

    /// Innermost-write, outward-read lookup.
    pub open spec fn chain_get(self, key: usize) -> Option<V>
        decreases self,
    {
        match self {
            ChainMap::Base(m) => if m@.contains_key(key) {
                Some(m@[key])
            } else {
                None
            },
            ChainMap::Child(m, parent) => if m@.contains_key(key) {
                Some(m@[key])
            } else {
                parent.chain_get(key)
            },
        }
    }

    /// Whether every level in the chain is empty.
    pub open spec fn all_empty(self) -> bool
        decreases self,
    {
        match self {
            ChainMap::Base(m) => m@.is_empty(),
            ChainMap::Child(m, parent) => m@.is_empty() && parent.all_empty(),
        }
    }

    pub fn new() -> (r: Self)
        ensures
            r.maps() =~= seq![Map::<usize, V>::empty()],
            forall|k: usize| r.chain_get(k) is None,
    {
        ChainMap::Base(HashMap::new())
    }

    /// Pushes one fresh scope level.
    pub fn new_child(self) -> (r: Self)
        ensures
            r.maps() =~= seq![Map::<usize, V>::empty()] + self.maps(),
            forall|k: usize| #[trigger] r.chain_get(k) == self.chain_get(k),
    {
        ChainMap::Child(HashMap::new(), Box::new(self))
    }

    /// Pops the innermost scope level; the base level cannot be popped.
    pub fn parent(self) -> (r: Result<Self, &'static str>)
        ensures
            (self matches ChainMap::Child(_, p) ==> r == Result::<Self, &'static str>::Ok(*p)),
            (self matches ChainMap::Base(_) ==> r matches Err(m) && m@
                == "cannot take parent of base map"@),
    {
        match self {
            ChainMap::Child(_, parent) => Ok(*parent),
            ChainMap::Base(_) => Err("cannot take parent of base map"),
        }
    }

    /// Whether every level in the chain is empty.
    pub fn is_empty(&self) -> (r: bool)
        ensures
            r == self.all_empty(),
        decreases *self,
    {
        match self {
            ChainMap::Child(map, parent) => map.is_empty() && parent.is_empty(),
            ChainMap::Base(map) => map.is_empty(),
        }
    }

    /// Searches the innermost map first, then falls through outward.
    pub fn get(&self, key: &usize) -> (r: Option<&V>)
        ensures
            match r {
                Some(v) => self.chain_get(*key) == Some(*v),
                None => self.chain_get(*key) is None,
            },
        decreases *self,
    {
        match self {
            ChainMap::Child(map, parent) => match map.get(key) {
                Some(val) => Some(val),
                None => parent.get(key),
            },
            ChainMap::Base(map) => map.get(key),
        }
    }

    /// Writes to the innermost map only (shadowing, never mutating an
    /// ancestor), returning what that map held for the key before.
    pub fn insert(&mut self, key: usize, val: V) -> (r: Option<V>)
        ensures
            final(self).maps().len() == old(self).maps().len(),
            final(self).maps()[0] == old(self).maps()[0].insert(key, val),
            forall|i: int|
                1 <= i < old(self).maps().len() ==> final(self).maps()[i] == old(self).maps()[i],
            match r {
                Some(v) => old(self).maps()[0].contains_key(key) && v == old(self).maps()[0][key],
                None => !old(self).maps()[0].contains_key(key),
            },
            final(self).chain_get(key) == Some(val),
            forall|k: usize|
                k != key ==> #[trigger] final(self).chain_get(k) == old(self).chain_get(k),
    {
        match self {
            ChainMap::Child(map, _) => map.insert(key, val),
            ChainMap::Base(map) => map.insert(key, val),
        }
    }
}

/// The global environment of one run: the interning table, the chained
/// table of typed (and possibly valued) bindings, the chained table of
/// proved schemas, and the monotonic counter minting local ids.
pub struct Bindings {
    pub next_local: usize,
    pub id_table: IDTracker,
    pub val_table: ChainMap<(MetaType, Option<MetaValue>)>,
    pub proven_wffs: ChainMap<FormulaSchema>,
}

impl Bindings {
    /// The interned names, in id order.
    pub open spec fn names_view(self) -> Seq<Seq<char>> {
        self.id_table.names_view()
    }

    pub fn new() -> (r: Bindings)
        ensures
            r.next_local == 0,
            r.id_table.names@.len() == 0,
            r.val_table.maps() =~= seq![Map::<usize, (MetaType, Option<MetaValue>)>::empty()],
            r.proven_wffs.maps() =~= seq![Map::<usize, FormulaSchema>::empty()],
            forall|i: usize| r.val_table.chain_get(i) is None,
            forall|i: usize| r.proven_wffs.chain_get(i) is None,
    {
        Bindings {
            next_local: 0,
            id_table: IDTracker::new(),
            val_table: ChainMap::new(),
            proven_wffs: ChainMap::new(),
        }
    }

    /// Mints a fresh local (bound-variable) id, distinct from every id
    /// minted before; the counter is scope-independent.
    pub fn new_local(&mut self) -> (r: usize)
        requires
            old(self).next_local < usize::MAX,
        ensures
            r == old(self).next_local,
            final(self).next_local == old(self).next_local + 1,
            final(self).id_table == old(self).id_table,
            final(self).val_table == old(self).val_table,
            final(self).proven_wffs == old(self).proven_wffs,
    {
        let res = self.next_local;
        self.next_local = self.next_local + 1;
        res
    }

    /// Opens a nested scope on every chained table at once; the interning
    /// table and the local counter are shared across scopes.
    pub fn new_child(self) -> (r: Bindings)
        ensures
            r.next_local == self.next_local,
            r.id_table == self.id_table,
            r.val_table.maps() =~= seq![Map::<usize, (MetaType, Option<MetaValue>)>::empty()]
                + self.val_table.maps(),
            r.proven_wffs.maps() =~= seq![Map::<usize, FormulaSchema>::empty()]
                + self.proven_wffs.maps(),
            forall|i: usize| #[trigger] r.val_table.chain_get(i) == self.val_table.chain_get(i),
            forall|i: usize|
                #[trigger] r.proven_wffs.chain_get(i) == self.proven_wffs.chain_get(i),
    {
        Bindings {
            next_local: self.next_local,
            id_table: self.id_table,
            val_table: self.val_table.new_child(),
            proven_wffs: self.proven_wffs.new_child(),
        }
    }

    /// Closes the innermost scope on every chained table at once,
    /// discarding its bindings.
    pub fn parent(self) -> (r: Bindings)
        requires
            self.val_table matches ChainMap::Child(_, _),
            self.proven_wffs matches ChainMap::Child(_, _),
        ensures
            r.next_local == self.next_local,
            r.id_table == self.id_table,
            r.val_table.maps() == self.val_table.maps().drop_first(),
            r.proven_wffs.maps() == self.proven_wffs.maps().drop_first(),
    {
        let Bindings { next_local, id_table, val_table, proven_wffs } = self;
        let vt = match val_table.parent() {
            Ok(v) => v,
            Err(_) => {
                proof {
                    assert(false);
                }
                ChainMap::new()
            },
        };
        let pw = match proven_wffs.parent() {
            Ok(p) => p,
            Err(_) => {
                proof {
                    assert(false);
                }
                ChainMap::new()
            },
        };
        proof {
            assert(vt.maps() =~= self.val_table.maps().drop_first());
            assert(pw.maps() =~= self.proven_wffs.maps().drop_first());
        }
        Bindings { next_local, id_table, val_table: vt, proven_wffs: pw }
    }

    /// The id of a name, minting the next id if the name is new.
    pub fn get_id(&mut self, name: &str) -> (id: usize)
        ensures
            final(self).next_local == old(self).next_local,
            final(self).val_table == old(self).val_table,
            final(self).proven_wffs == old(self).proven_wffs,
            old(self).id_table.has_name(name@) ==> *final(self) == *old(self) && id
                < final(self).id_table.names@.len() && final(self).id_table.names@[id as int]@
                == name@ && forall|j: int| 0 <= j < id ==> final(self).id_table.names@[j]@ != name@,
            !old(self).id_table.has_name(name@) ==> id == old(self).id_table.names@.len() && final(self).id_table.names@.len() == old(self).id_table.names@.len() + 1 && final(self).id_table.names@[id as int]@ == name@ && forall|j: int|
                0 <= j < old(self).id_table.names@.len() ==> final(self).id_table.names@[j] == old(self).id_table.names@[j],
    {
        self.id_table.get_id(name)
    }

    /// The name of an id, if the id was minted.
    pub fn get_name(&self, id: &usize) -> (r: Option<&String>)
        ensures
            match r {
                Some(s) => *id < self.id_table.names@.len() && *s == self.id_table.names@[*id
                    as int],
                None => *id >= self.id_table.names@.len(),
            },
    {
        self.id_table.get_name(id)
    }

    /// A copy of the meta-type bound to an id, searching scopes
    /// inward-out.
    pub fn get_type(&self, id: &usize) -> (r: Option<MetaType>)
        ensures
            match self.val_table.chain_get(*id) {
                Some(pair) => r matches Some(mt) && mtype_view(mt) == mtype_view(pair.0),
                None => r is None,
            },
    {
        match self.val_table.get(id) {
            Some(pair) => Some(pair.0.clone()),
            None => None,
        }
    }

    /// A copy of the value bound to an id, if the binding is defined.
    pub fn get_value(&self, id: &usize) -> (r: Option<MetaValue>)
        ensures
            match self.val_table.chain_get(*id) {
                Some(pair) => match pair.1 {
                    Some(v) => r matches Some(rv) && mvalue_view(rv) == mvalue_view(v),
                    None => r is None,
                },
                None => r is None,
            },
    {
        match self.val_table.get(id) {
            Some(pair) => match &pair.1 {
                Some(v) => Some(v.clone()),
                None => None,
            },
            None => None,
        }
    }

    /// A copy of the meta-type and optional value bound to an id.
    pub fn get_type_value(&self, id: &usize) -> (r: Option<(MetaType, Option<MetaValue>)>)
        ensures
            match self.val_table.chain_get(*id) {
                Some(pair) => r matches Some(p) && mtype_view(p.0) == mtype_view(pair.0) && (match
                    pair.1 {
                    Some(v) => p.1 matches Some(rv) && mvalue_view(rv) == mvalue_view(v),
                    None => p.1 is None,
                }),
                None => r is None,
            },
    {
        match self.val_table.get(id) {
            Some(pair) => {
                let mval = match &pair.1 {
                    Some(v) => Some(v.clone()),
                    None => None,
                };
                Some((pair.0.clone(), mval))
            },
            None => None,
        }
    }

    /// The proved schema recorded under an id, searching scopes
    /// inward-out.
    pub fn get_theorem(&self, id: &usize) -> (r: Option<&FormulaSchema>)
        ensures
            match r {
                Some(s) => self.proven_wffs.chain_get(*id) == Some(*s),
                None => self.proven_wffs.chain_get(*id) is None,
            },
    {
        self.proven_wffs.get(id)
    }

    /// Adds a declared-but-undefined binding at the current scope;
    /// reports `BindingExists` if the id is already bound there (the
    /// write to the innermost table stands regardless).
    pub fn insert_object_noval(&mut self, id: usize, mtype: MetaType, context: &FileLocation) -> (r:
        Result<usize, Error>)
        requires
            id < old(self).id_table.names@.len(),
        ensures
            final(self).next_local == old(self).next_local,
            final(self).id_table == old(self).id_table,
            final(self).proven_wffs == old(self).proven_wffs,
            final(self).val_table.maps().len() == old(self).val_table.maps().len(),
            final(self).val_table.maps()[0] == old(self).val_table.maps()[0].insert(
                id,
                (mtype, None),
            ),
            forall|i: int|
                1 <= i < old(self).val_table.maps().len() ==> final(self).val_table.maps()[i]
                    == old(self).val_table.maps()[i],
            final(self).val_table.chain_get(id) == Some((mtype, None::<MetaValue>)),
            forall|i: usize|
                i != id ==> #[trigger] final(self).val_table.chain_get(i) == old(
                    self,
                ).val_table.chain_get(i),
            !old(self).val_table.maps()[0].contains_key(id) ==> r == Result::<usize, Error>::Ok(id),
            old(self).val_table.maps()[0].contains_key(id) ==> (r matches Err(e) && e.error matches
                ErrorKind::BindingExists { name } && name == old(self).id_table.names@[id as int]
                && e.location == *context),
    {
        if let None = self.val_table.insert(id, (mtype, None)) {
            Ok(id)
        } else {
            Err(
                Error::new(
                    ErrorKind::BindingExists { name: self.get_name(&id).unwrap().clone() },
                    context,
                ),
            )
        }
    }

    /// Adds a defined binding at the current scope; reports
    /// `BindingExists` if the id is already bound there (the write to the
    /// innermost table stands regardless).
    pub fn insert_object(
        &mut self,
        id: usize,
        mtype: MetaType,
        mval: MetaValue,
        context: &FileLocation,
    ) -> (r: Result<usize, Error>)
        requires
            id < old(self).id_table.names@.len(),
        ensures
            final(self).next_local == old(self).next_local,
            final(self).id_table == old(self).id_table,
            final(self).proven_wffs == old(self).proven_wffs,
            final(self).val_table.maps().len() == old(self).val_table.maps().len(),
            final(self).val_table.maps()[0] == old(self).val_table.maps()[0].insert(
                id,
                (mtype, Some(mval)),
            ),
            forall|i: int|
                1 <= i < old(self).val_table.maps().len() ==> final(self).val_table.maps()[i]
                    == old(self).val_table.maps()[i],
            final(self).val_table.chain_get(id) == Some((mtype, Some(mval))),
            forall|i: usize|
                i != id ==> #[trigger] final(self).val_table.chain_get(i) == old(
                    self,
                ).val_table.chain_get(i),
            !old(self).val_table.maps()[0].contains_key(id) ==> r == Result::<usize, Error>::Ok(id),
            old(self).val_table.maps()[0].contains_key(id) ==> (r matches Err(e) && e.error matches
                ErrorKind::BindingExists { name } && name == old(self).id_table.names@[id as int]
                && e.location == *context),
    {
        if let None = self.val_table.insert(id, (mtype, Some(mval))) {
            Ok(id)
        } else {
            Err(
                Error::new(
                    ErrorKind::BindingExists { name: self.get_name(&id).unwrap().clone() },
                    context,
                ),
            )
        }
    }

    /// Overwrites a declared-but-undefined binding at the current scope
    /// with a defined one — the mechanism for "declare, then later
    /// define"; reports `BindingExists` in every other case (the write to
    /// the innermost table stands regardless).
    pub fn insert_object_anytype(
        &mut self,
        id: usize,
        mtype: MetaType,
        mval: MetaValue,
        context: &FileLocation,
    ) -> (r: Result<usize, Error>)
        requires
            id < old(self).id_table.names@.len(),
        ensures
            final(self).next_local == old(self).next_local,
            final(self).id_table == old(self).id_table,
            final(self).proven_wffs == old(self).proven_wffs,
            final(self).val_table.maps().len() == old(self).val_table.maps().len(),
            final(self).val_table.maps()[0] == old(self).val_table.maps()[0].insert(
                id,
                (mtype, Some(mval)),
            ),
            forall|i: int|
                1 <= i < old(self).val_table.maps().len() ==> final(self).val_table.maps()[i]
                    == old(self).val_table.maps()[i],
            final(self).val_table.chain_get(id) == Some((mtype, Some(mval))),
            forall|i: usize|
                i != id ==> #[trigger] final(self).val_table.chain_get(i) == old(
                    self,
                ).val_table.chain_get(i),
            (old(self).val_table.maps()[0].contains_key(id) && old(self).val_table.maps()[0][id].1
                is None) ==> r == Result::<usize, Error>::Ok(id),
            !(old(self).val_table.maps()[0].contains_key(id) && old(self).val_table.maps()[0][id].1
                is None) ==> (r matches Err(e) && e.error matches ErrorKind::BindingExists { name }
                && name == old(self).id_table.names@[id as int] && e.location == *context),
    {
        if let Some((_, None)) = self.val_table.insert(id, (mtype, Some(mval))) {
            Ok(id)
        } else {
            Err(
                Error::new(
                    ErrorKind::BindingExists { name: self.get_name(&id).unwrap().clone() },
                    context,
                ),
            )
        }
    }

    /// Records a proved schema at the current scope; reports
    /// `BindingExists` on a duplicate (the write to the innermost table
    /// stands regardless).
    pub fn insert_theorem(&mut self, id: usize, stmt: FormulaSchema, context: &FileLocation) -> (r:
        Result<usize, Error>)
        requires
            id < old(self).id_table.names@.len(),
        ensures
            final(self).next_local == old(self).next_local,
            final(self).id_table == old(self).id_table,
            final(self).val_table == old(self).val_table,
            final(self).proven_wffs.maps().len() == old(self).proven_wffs.maps().len(),
            final(self).proven_wffs.maps()[0] == old(self).proven_wffs.maps()[0].insert(id, stmt),
            forall|i: int|
                1 <= i < old(self).proven_wffs.maps().len() ==> final(self).proven_wffs.maps()[i]
                    == old(self).proven_wffs.maps()[i],
            final(self).proven_wffs.chain_get(id) == Some(stmt),
            forall|i: usize|
                i != id ==> #[trigger] final(self).proven_wffs.chain_get(i) == old(
                    self,
                ).proven_wffs.chain_get(i),
            !old(self).proven_wffs.maps()[0].contains_key(id) ==> r == Result::<usize, Error>::Ok(
                id,
            ),
            old(self).proven_wffs.maps()[0].contains_key(id) ==> (r matches Err(e) && e.error
                matches ErrorKind::BindingExists { name } && name == old(self).id_table.names@[id
                as int] && e.location == *context),
    {
        if let Some(_) = self.proven_wffs.insert(id, stmt) {
            Err(
                Error::new(
                    ErrorKind::BindingExists { name: self.get_name(&id).unwrap().clone() },
                    context,
                ),
            )
        } else {
            Ok(id)
        }
    }
}

/// Whether every global id a type mentions was minted by an interning
/// table of `n` names.
pub open spec fn itype_named(t: InternalType, n: int) -> bool
    decreases t,
{
    match t {
        InternalType::Named(id) => match id {
            Ident::Global(g) => g < n,
            Ident::Local(_) => true,
        },
        InternalType::Func(arg, ret) => itype_named(*arg, n) && itype_named(*ret, n),
    }
}

/// `itype_named`, over every element of a sequence.
pub open spec fn itype_seq_named(s: Seq<InternalType>, n: int) -> bool {
    forall|i: int| 0 <= i < s.len() ==> itype_named(s[i], n)
}

/// Whether every global id a meta-type mentions was minted by an
/// interning table of `n` names.
pub open spec fn mtype_named(m: MetaType, n: int) -> bool
    decreases m,
{
    match m {
        MetaType::Type => true,
        MetaType::Term(itype) => itype_named(itype, n),
        MetaType::Formula(args) => itype_seq_named(args@, n),
        MetaType::Schema(args, ret) => mtype_seq_named(args@, n) && mtype_named(*ret, n),
    }
}

/// `mtype_named`, over every element of a sequence.
pub open spec fn mtype_seq_named(s: Seq<MetaType>, n: int) -> bool
    decreases s,
{
    s.len() == 0 || (mtype_named(s.last(), n) && mtype_seq_named(s.drop_last(), n))
}

/// `mtype_seq_named` holds of each element of the sequence.
pub proof fn lemma_mtype_seq_named_points(s: Seq<MetaType>, n: int)
    requires
        mtype_seq_named(s, n),
    ensures
        forall|i: int| 0 <= i < s.len() ==> mtype_named(s[i], n),
    decreases s.len(),
{
    if s.len() > 0 {
        lemma_mtype_seq_named_points(s.drop_last(), n);
        assert forall|i: int| 0 <= i < s.len() implies mtype_named(s[i], n) by {
            if i < s.len() - 1 {
                assert(s.drop_last()[i] == s[i]);
            } else {
                assert(s[i] == s.last());
            }
        }
    }
}

/// The rendering of an internal type: a global base type by its interned
/// name, a local one as `#` and its number, an arrow type in parentheses.
pub open spec fn itype_repr(t: InternalType, names: Seq<Seq<char>>) -> Seq<char>
    decreases t,
{
    match t {
        InternalType::Named(id) => match id {
            Ident::Global(g) => names[g as int],
            Ident::Local(l) => "#"@ + dec_digits(l as int),
        },
        InternalType::Func(arg, ret) => "("@ + itype_repr(*arg, names) + " -> "@ + itype_repr(
            *ret,
            names,
        ) + ")"@,
    }
}

/// The renderings of a sequence of internal types, last first, each
/// preceded by a space — the order in which a relation's remaining
/// argument types are consumed.
pub open spec fn itype_list_repr(ts: Seq<InternalType>, names: Seq<Seq<char>>) -> Seq<char>
    decreases ts,
{
    if ts.len() == 0 {
        Seq::empty()
    } else {
        " "@ + itype_repr(ts.last(), names) + itype_list_repr(ts.drop_last(), names)
    }
}

/// The rendering of a meta-type.
pub open spec fn mtype_repr(m: MetaType, names: Seq<Seq<char>>) -> Seq<char>
    decreases m,
{
    match m {
        MetaType::Type => "Type"@,
        MetaType::Term(itype) => "(Term "@ + itype_repr(itype, names) + ")"@,
        MetaType::Formula(args) => "(Formula "@ + itype_list_repr(args@, names) + ")"@,
        MetaType::Schema(args, ret) => "(Schema "@ + mtype_list_repr(args@, names) + " to "@
            + mtype_repr(*ret, names) + ")"@,
    }
}

/// The renderings of a sequence of meta-types, last first, each preceded
/// by a space.
pub open spec fn mtype_list_repr(ts: Seq<MetaType>, names: Seq<Seq<char>>) -> Seq<char>
    decreases ts,
{
    if ts.len() == 0 {
        Seq::empty()
    } else {
        " "@ + mtype_repr(ts.last(), names) + mtype_list_repr(ts.drop_last(), names)
    }
}

/// Step equation for rendering a type list right to left.
proof fn lemma_itype_list_repr_take(ts: Seq<InternalType>, names: Seq<Seq<char>>, j: int)
    requires
        1 <= j <= ts.len(),
    ensures
        itype_list_repr(ts.take(j), names) == " "@ + itype_repr(ts[j - 1], names)
            + itype_list_repr(ts.take(j - 1), names),
{
    let t = ts.take(j);
    assert(t.drop_last() =~= ts.take(j - 1));
    assert(t.last() == ts[j - 1]);
}

/// Step equation for rendering a meta-type list right to left.
proof fn lemma_mtype_list_repr_take(ts: Seq<MetaType>, names: Seq<Seq<char>>, j: int)
    requires
        1 <= j <= ts.len(),
    ensures
        mtype_list_repr(ts.take(j), names) == " "@ + mtype_repr(ts[j - 1], names)
            + mtype_list_repr(ts.take(j - 1), names),
{
    let t = ts.take(j);
    assert(t.drop_last() =~= ts.take(j - 1));
    assert(t.last() == ts[j - 1]);
}

/// Rendering against the interned global names, for error messages and
/// type display.
pub trait RLangRepr {
    /// Whether every global id the value mentions is interned.
    spec fn named_within(&self, names: Seq<Seq<char>>) -> bool;

    /// The rendered text.
    spec fn spec_repr(&self, names: Seq<Seq<char>>) -> Seq<char>;

    /// Renders the value, resolving global ids through `globals`.
    fn repr(&self, globals: &Bindings) -> (r: String)
        requires
            self.named_within(globals.names_view()),
        ensures
            r@ == self.spec_repr(globals.names_view()),
    ;
}

impl RLangRepr for InternalType {
    open spec fn named_within(&self, names: Seq<Seq<char>>) -> bool {
        itype_named(*self, names.len() as int)
    }

    open spec fn spec_repr(&self, names: Seq<Seq<char>>) -> Seq<char> {
        itype_repr(*self, names)
    }

    fn repr(&self, globals: &Bindings) -> (r: String)
        decreases *self,
    {
        match self {
            InternalType::Named(name) => match name {
                Ident::Global(id) => {
                    let s = globals.get_name(id).unwrap().clone();
                    proof {
                        assert(globals.names_view()[*id as int] == globals.id_table.names@[*id
                            as int]@);
                    }
                    s
                },
                Ident::Local(local_id) => {
                    let mut s = String::from_str("#");
                    s.append(usize_to_string(*local_id).as_str());
                    s
                },
            },
            InternalType::Func(arg_type, ret_type) => {
                let mut s = String::from_str("(");
                s.append(arg_type.repr(globals).as_str());
                s.append(" -> ");
                s.append(ret_type.repr(globals).as_str());
                s.append(")");
                s
            },
        }
    }
}

impl RLangRepr for MetaType {
    open spec fn named_within(&self, names: Seq<Seq<char>>) -> bool {
        mtype_named(*self, names.len() as int)
    }

    open spec fn spec_repr(&self, names: Seq<Seq<char>>) -> Seq<char> {
        mtype_repr(*self, names)
    }

    #[verifier::loop_isolation(false)]
    fn repr(&self, globals: &Bindings) -> (r: String)
        decreases *self,
    {
        let ghost names = globals.names_view();
        match self {
            MetaType::Type => String::from_str("Type"),
            MetaType::Term(itype) => {
                let mut s = String::from_str("(Term ");
                s.append(itype.repr(globals).as_str());
                s.append(")");
                s
            },
            MetaType::Formula(arg_types) => {
                let mut s = String::from_str("(Formula ");
                proof {
                    assert(arg_types@.take(arg_types@.len() as int) =~= arg_types@);
                }
                let mut j: usize = arg_types.len();
                while j > 0
                    invariant
                        j <= arg_types.len(),
                        "(Formula "@ + itype_list_repr(arg_types@, names) == s@ + itype_list_repr(
                            arg_types@.take(j as int),
                            names,
                        ),
                    decreases j,
                {
                    let mut piece = String::from_str(" ");
                    piece.append(arg_types[j - 1].repr(globals).as_str());
                    s.append(piece.as_str());
                    proof {
                        lemma_itype_list_repr_take(arg_types@, names, j as int);
                        assert(s@ + itype_list_repr(arg_types@.take(j - 1), names) =~= "(Formula "@
                            + itype_list_repr(arg_types@, names));
                    }
                    j = j - 1;
                }
                proof {
                    assert(arg_types@.take(0) =~= Seq::<InternalType>::empty());
                    assert(s@ + itype_list_repr(arg_types@.take(0), names) =~= s@);
                }
                s.append(")");
                s
            },
            MetaType::Schema(arg_types, ret_type) => {
                proof {
                    lemma_mtype_seq_named_points(arg_types@, names.len() as int);
                }
                let mut s = String::from_str("(Schema ");
                proof {
                    assert(arg_types@.take(arg_types@.len() as int) =~= arg_types@);
                }
                let mut j: usize = arg_types.len();
                while j > 0
                    invariant
                        j <= arg_types.len(),
                        "(Schema "@ + mtype_list_repr(arg_types@, names) == s@ + mtype_list_repr(
                            arg_types@.take(j as int),
                            names,
                        ),
                    decreases j,
                {
                    proof {
                        assert(decreases_to!(*self => *arg_types));
                        assert(decreases_to!(*arg_types => arg_types@));
                        assert(decreases_to!(arg_types@ => arg_types@[j - 1]));
                    }
                    let mut piece = String::from_str(" ");
                    piece.append(arg_types[j - 1].repr(globals).as_str());
                    s.append(piece.as_str());
                    proof {
                        lemma_mtype_list_repr_take(arg_types@, names, j as int);
                        assert(s@ + mtype_list_repr(arg_types@.take(j - 1), names) =~= "(Schema "@
                            + mtype_list_repr(arg_types@, names));
                    }
                    j = j - 1;
                }
                proof {
                    assert(arg_types@.take(0) =~= Seq::<MetaType>::empty());
                    assert(s@ + mtype_list_repr(arg_types@.take(0), names) =~= s@);
                }
                s.append(" to ");
                s.append(ret_type.repr(globals).as_str());
                s.append(")");
                proof {
                    assert(s@ =~= mtype_repr(*self, names));
                }
                s
            },
        }
    }
}

} // verus!
