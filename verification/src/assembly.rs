//! The compilation-unit builder: it owns the aggregate-type registry
//! and the accumulated method bodies, registers the value-type
//! definitions that lowering discovers, deduplicates them by canonical
//! name, links units, and serializes everything as IL text.

use vstd::prelude::*;
use crate::strutil::{dec_str_s, u64_to_dec};
use crate::ty::{
    VariableType, TyS, il_name_s, il_name, size_of_s, size_of, mono_s, subst_dv, monomorphize,
    clone_ty, fields_dv, lemma_fields_dv, fields_eq, ty_eq,
};
use crate::ir::{InvariantKind, LowerError};
use crate::cil::{CLRMethod, method_text_s};

verus! {

/// A generated value-type definition for the target: a sequential
/// struct, a fixed array with explicit total size, or a slice (a
/// pointer plus a native-width length field).
#[derive(Debug, PartialEq, Eq)]
pub enum CLRType {
    Struct { fields: Vec<(String, VariableType)> },
    Array { element: VariableType, length: u64, total_size: u64 },
    Slice(VariableType),
}

/// The shape of a generated definition.
pub enum DefS {
    Struct { fields: Seq<(Seq<char>, TyS)> },
    Array { element: TyS, length: u64, total_size: u64 },
    Slice(TyS),
}

impl CLRType {
    /// The shape of this definition.
    pub open spec fn dv(self) -> DefS {
        match self {
            CLRType::Struct { fields } => DefS::Struct { fields: fields_dv(fields@) },
            CLRType::Array { element, length, total_size } => DefS::Array {
                element: element.dv(),
                length,
                total_size,
            },
            CLRType::Slice(e) => DefS::Slice(e.dv()),
        }
    }
}

/// One field line of a sequential struct definition.
pub open spec fn def_field_line_s(f: (Seq<char>, TyS)) -> Seq<char> {
    "\t.field public "@ + il_name_s(f.1) + " "@ + f.0 + "\n"@
}

/// The field lines of a struct definition from index `i` on.
pub open spec fn def_fields_text_s(fs: Seq<(Seq<char>, TyS)>, i: int) -> Seq<char>
    decreases fs.len() - i,
{
    if i < 0 || i >= fs.len() {
        Seq::empty()
    } else {
        def_field_line_s(fs[i]) + def_fields_text_s(fs, i + 1)
    }
}

/// The IL text of one generated definition under the given name.
pub open spec fn def_text_s(d: DefS, name: Seq<char>) -> Seq<char> {
    match d {
        DefS::Struct { fields } => ".class public sequential "@ + name
            + " extends [System.Runtime]System.ValueType{\n"@ + def_fields_text_s(fields, 0)
            + "}\n"@,
        DefS::Array { element, length, total_size } => ".class public sequential "@ + name
            + " extends [System.Runtime]System.ValueType{\n\t.pack 0\n\t.size "@ + dec_str_s(
            total_size as nat,
        ) + "\n\t.field public "@ + il_name_s(element) + " arr\n}\n"@,
        DefS::Slice(element) => ".class public sequential "@ + name
            + " extends [System.Runtime]System.ValueType{\n\t.field public "@ + il_name_s(element)
            + "* ptr\n\t.field public native int cap\n}\n"@,
    }
}

impl CLRType {
    /// Renders this definition as IL text under the given name.
    pub fn get_def(&self, name: &str) -> (r: String)
        ensures
            r@ == def_text_s(self.dv(), name@),
    {
        match self {
            CLRType::Struct { fields } => {
                let mut s = String::from_str(".class public sequential ");
                s.append(name);
                s.append(" extends [System.Runtime]System.ValueType{\n");
                let ghost head = s@;
                let ghost fdv = fields_dv(fields@);
                proof {
                    lemma_fields_dv(fields@);
                }
                let mut i: usize = 0;
                while i < fields.len()
                    invariant
                        i <= fields@.len(),
                        fdv == fields_dv(fields@),
                        fdv.len() == fields@.len(),
                        forall|j: int|
                            0 <= j < fields@.len() ==> #[trigger] fdv[j] == (
                                fields@[j].0@,
                                fields@[j].1.dv(),
                            ),
                        s@ + def_fields_text_s(fdv, i as int) == head + def_fields_text_s(fdv, 0),
                    decreases fields@.len() - i,
                {
                    s.append("\t.field public ");
                    let tn = il_name(&fields[i].1);
                    s.append(tn.as_str());
                    s.append(" ");
                    s.append(fields[i].0.as_str());
                    s.append("\n");
                    i = i + 1;
                }
                s.append("}\n");
                s
            },
            CLRType::Array { element, length, total_size } => {
                let mut s = String::from_str(".class public sequential ");
                s.append(name);
                s.append(" extends [System.Runtime]System.ValueType{\n\t.pack 0\n\t.size ");
                let d = u64_to_dec(*total_size);
                s.append(d.as_str());
                s.append("\n\t.field public ");
                let tn = il_name(element);
                s.append(tn.as_str());
                s.append(" arr\n}\n");
                s
            },
            CLRType::Slice(element) => {
                let mut s = String::from_str(".class public sequential ");
                s.append(name);
                s.append(" extends [System.Runtime]System.ValueType{\n\t.field public ");
                let tn = il_name(element);
                s.append(tn.as_str());
                s.append("* ptr\n\t.field public native int cap\n}\n");
                s
            },
        }
    }
}

/// One registry entry: a canonical name and the definition it denotes.
#[derive(Debug, PartialEq, Eq)]
pub struct TypeEntry {
    pub name: String,
    pub def: CLRType,
}

/// The shape of one registry entry.
pub struct EntryS {
    pub name: Seq<char>,
    pub def: DefS,
}

/// Shapes of a registry entry list.
pub open spec fn entries_dv(es: Seq<TypeEntry>) -> Seq<EntryS> {
    Seq::new(es.len(), |i: int| EntryS { name: es[i].name@, def: es[i].def.dv() })
}

/// The index of the entry named `name`, searching from `i` on.
pub open spec fn find_s(tys: Seq<EntryS>, name: Seq<char>, i: int) -> Option<int>
    decreases tys.len() - i,
{
    if i < 0 || i >= tys.len() {
        None
    } else if tys[i].name == name {
        Some(i)
    } else {
        find_s(tys, name, i + 1)
    }
}

/// Registers one definition under a canonical name: a no-op where an
/// identical definition is already present, a fatal collision where a
/// structurally different one is, an appended entry otherwise.
pub open spec fn insert_s(tys: Seq<EntryS>, name: Seq<char>, def: DefS) -> Result<
    Seq<EntryS>,
    LowerError,
> {
    match find_s(tys, name, 0) {
        Some(i) => if tys[i].def == def {
            Ok(tys)
        } else {
            Err(LowerError::NameCollision)
        },
        None => Ok(tys.push(EntryS { name, def })),
    }
}

/// Registers the aggregate types reachable from `t` (which must be
/// concrete), dependencies before owners, and returns the extended
/// registry. Primitives and discriminated unions add no entry of their
/// own; pointers recurse into the pointee.
pub open spec fn reg_s(tys: Seq<EntryS>, t: TyS) -> Result<Seq<EntryS>, LowerError>
    decreases t, 0int,
{
    match t {
        TyS::Primitive(_) => Ok(tys),
        TyS::Enum { .. } => Ok(tys),
        TyS::GenericParam(_) => Err(
            LowerError::InvariantViolation(InvariantKind::MissingSubstitution),
        ),
        TyS::Pointer(e) => reg_s(tys, *e),
        TyS::Slice(e) => match reg_s(tys, *e) {
            Ok(t1) => insert_s(t1, il_name_s(t), DefS::Slice(*e)),
            Err(er) => Err(er),
        },
        TyS::FixedArray { element, length } => match reg_s(tys, *element) {
            Ok(t1) => match size_of_s(t) {
                Ok(total) => insert_s(
                    t1,
                    il_name_s(t),
                    DefS::Array { element: *element, length, total_size: total as u64 },
                ),
                Err(er) => Err(er),
            },
            Err(er) => Err(er),
        },
        TyS::Struct { name, fields } => match reg_fields_s(tys, fields, 0) {
            Ok(t1) => insert_s(t1, name, DefS::Struct { fields }),
            Err(er) => Err(er),
        },
    }
}

/// Registers the aggregate types reachable from the fields of `fs`,
/// from index `i` on, threading the registry through.
pub open spec fn reg_fields_s(tys: Seq<EntryS>, fs: Seq<(Seq<char>, TyS)>, i: int) -> Result<
    Seq<EntryS>,
    LowerError,
>
    decreases fs, fs.len() - i,
{
    if i < 0 || i >= fs.len() {
        Ok(tys)
    } else {
        match reg_s(tys, fs[i].1) {
            Ok(t1) => reg_fields_s(t1, fs, i + 1),
            Err(er) => Err(er),
        }
    }
}

/// A compilation unit: its name, its registry of generated value-type
/// definitions, and its accumulated method bodies. Created once per
/// translation unit and mutated only during lowering; mutate the
/// registry only through the registration methods.
#[derive(Debug, PartialEq, Eq)]
pub struct Assembly {
    pub name: String,
    pub methods: Vec<CLRMethod>,
    pub types: Vec<TypeEntry>,
}


/// The sanitized unit name: everything before the first `.`, with `-`
/// replaced by `_`.
pub open spec fn asm_name_s(s: Seq<char>) -> Seq<char>
    decreases s.len(),
{
    if s.len() == 0 {
        Seq::empty()
    } else if s[0] == '.' {
        Seq::empty()
    } else {
        seq![if s[0] == '-' { '_' } else { s[0] }] + asm_name_s(s.drop_first())
    }
}

/// The definitions section: one rendered definition per entry, from
/// index `i` on, in insertion order.
pub open spec fn types_text_s(tys: Seq<EntryS>, i: int) -> Seq<char>
    decreases tys.len() - i,
{
    if i < 0 || i >= tys.len() {
        Seq::empty()
    } else {
        def_text_s(tys[i].def, tys[i].name) + types_text_s(tys, i + 1)
    }
}

/// The method-bodies section, from index `i` on.
pub open spec fn methods_text_s(ms: Seq<CLRMethod>, i: int) -> Seq<char>
    decreases ms.len() - i,
{
    if i < 0 || i >= ms.len() {
        Seq::empty()
    } else {
        method_text_s(ms[i]) + methods_text_s(ms, i + 1)
    }
}

/// The whole unit's IL text: assembly header, the type-definitions
/// section, then the method bodies.
pub open spec fn asm_text_s(a: Assembly) -> Seq<char> {
    ".assembly "@ + a.name@ + "{}\n"@ + types_text_s(entries_dv(a.types@), 0) + "\n"@
        + methods_text_s(a.methods@, 0)
}

/// Merges the entries of `other` (from index `i` on) into `tys`:
/// identical definitions collapse, differing definitions under one
/// name are a fatal conflict.
pub open spec fn link_s(tys: Seq<EntryS>, other: Seq<EntryS>, i: int) -> Result<
    Seq<EntryS>,
    LowerError,
>
    decreases other.len() - i,
{
    if i < 0 || i >= other.len() {
        Ok(tys)
    } else {
        match insert_s(tys, other[i].name, other[i].def) {
            Ok(t1) => link_s(t1, other, i + 1),
            Err(er) => Err(er),
        }
    }
}

impl Assembly {
    /// The shapes of the registry's entries.
    pub open spec fn tys(self) -> Seq<EntryS> {
        entries_dv(self.types@)
    }

    /// A fresh, empty compilation unit. The unit's name is everything
    /// before the first `.` of the given name, with `-` replaced by `_`.
    pub fn new(name: &str) -> (r: Assembly)
        ensures
            r.name@ == asm_name_s(name@),
            r.methods@ == Seq::<CLRMethod>::empty(),
            r.types@ == Seq::<TypeEntry>::empty(),
    {
        let n = name.unicode_len();
        let mut out = String::new();
        let mut i: usize = 0;
        let mut stopped = false;
        proof {
            assert(name@.skip(0) =~= name@);
        }
        while i < n && !stopped
            invariant
                i <= n,
                n == name@.len(),
                !stopped ==> out@ + asm_name_s(name@.skip(i as int)) == asm_name_s(name@),
                stopped ==> out@ == asm_name_s(name@),
            decreases n - i + (if stopped { 0int } else { 1int }),
        {
            let c = name.get_char(i);
            proof {
                assert(name@.skip(i as int)[0] == name@[i as int]);
                assert(name@.skip(i as int).drop_first() =~= name@.skip(i as int + 1));
            }
            if c == '.' {
                stopped = true;
            } else {
                if c == '-' {
                    out.push('_');
                } else {
                    out.push(c);
                }
                proof {
                    assert(out@ + asm_name_s(name@.skip(i as int + 1)) =~= asm_name_s(name@));
                }
                i = i + 1;
            }
        }
        proof {
            if !stopped {
                assert(name@.skip(n as int) =~= Seq::<char>::empty());
                assert(out@ =~= asm_name_s(name@));
            }
        }
        Assembly { name: out, methods: Vec::new(), types: Vec::new() }
    }

    /// The unit's name.
    pub fn name(&self) -> (r: &str)
        ensures
            r@ == self.name@,
    {
        self.name.as_str()
    }

    /// Appends one lowered method body.
    pub fn add_method(&mut self, m: CLRMethod)
        ensures
            final(self).methods@ == old(self).methods@.push(m),
            final(self).types == old(self).types,
            final(self).name == old(self).name,
    {
        self.methods.push(m);
    }

    /// Registers one definition under `name`. A present identical
    /// definition is a no-op; a present differing one is a fatal name
    /// collision; otherwise the entry is appended.
    fn insert_entry(&mut self, name: String, def: CLRType) -> (r: Result<(), LowerError>)
        ensures
            final(self).methods == old(self).methods,
            final(self).name == old(self).name,
            match r {
                Ok(()) => insert_s(old(self).tys(), name@, def.dv()) == Ok::<_, LowerError>(
                    final(self).tys(),
                ),
                Err(e) => insert_s(old(self).tys(), name@, def.dv()) == Err::<Seq<EntryS>, _>(e)
                    && final(self).types == old(self).types,
            },
            final(self).types@.len() >= old(self).types@.len(),
            forall|j: int|
                0 <= j < old(self).types@.len() ==> final(self).types@[j] == old(self).types@[j],
    {
        let ghost tys0 = self.tys();
        let mut j: usize = 0;
        while j < self.types.len()
            invariant
                j <= self.types@.len(),
                tys0 == self.tys(),
                find_s(tys0, name@, 0) == find_s(tys0, name@, j as int),
            decreases self.types@.len() - j,
        {
            if self.types[j].name == name {
                let same = def_eq(&self.types[j].def, &def);
                if same {
                    return Ok(());
                } else {
                    return Err(LowerError::NameCollision);
                }
            }
            j = j + 1;
        }
        let ghost prev = self.types@;
        self.types.push(TypeEntry { name, def });
        proof {
            assert(self.tys() =~= entries_dv(prev).push(
                EntryS { name: self.types@.last().name@, def: self.types@.last().def.dv() },
            ));
        }
        Ok(())
    }

    /// Registers the aggregate types reachable from the concrete type
    /// `t`, dependencies before owners.
    fn register(&mut self, t: &VariableType) -> (r: Result<(), LowerError>)
        ensures
            final(self).methods == old(self).methods,
            final(self).name == old(self).name,
            match r {
                Ok(()) => reg_s(old(self).tys(), t.dv()) == Ok::<_, LowerError>(final(self).tys()),
                Err(e) => reg_s(old(self).tys(), t.dv()) == Err::<Seq<EntryS>, _>(e),
            },
            final(self).types@.len() >= old(self).types@.len(),
            forall|j: int|
                0 <= j < old(self).types@.len() ==> final(self).types@[j] == old(self).types@[j],
        decreases t, 2int,
    {
        match t {
            VariableType::Primitive(_) => Ok(()),
            VariableType::Enum { .. } => Ok(()),
            VariableType::GenericParam(_) => Err(
                LowerError::InvariantViolation(InvariantKind::MissingSubstitution),
            ),
            VariableType::Pointer(e) => self.register(e),
            VariableType::Slice(e) => {
                match self.register(e) {
                    Ok(()) => {
                        let nm = il_name(t);
                        let ec = clone_ty(e);
                        self.insert_entry(nm, CLRType::Slice(ec))
                    },
                    Err(er) => Err(er),
                }
            },
            VariableType::FixedArray { element, length } => {
                match self.register(element) {
                    Ok(()) => {
                        match size_of(t) {
                            Ok(total) => {
                                let nm = il_name(t);
                                let ec = clone_ty(element);
                                self.insert_entry(
                                    nm,
                                    CLRType::Array {
                                        element: ec,
                                        length: *length,
                                        total_size: total,
                                    },
                                )
                            },
                            Err(er) => Err(er),
                        }
                    },
                    Err(er) => Err(er),
                }
            },
            VariableType::Struct { name, fields } => {
                match self.register_fields(fields) {
                    Ok(()) => {
                        let nm = name.clone();
                        let fc = crate::ty::clone_fields(fields);
                        proof {
                            lemma_fields_dv(fields@);
                            lemma_fields_dv(fc@);
                            assert(fields_dv(fc@) =~= fields_dv(fields@));
                        }
                        self.insert_entry(nm, CLRType::Struct { fields: fc })
                    },
                    Err(er) => Err(er),
                }
            },
        }
    }

    /// Registers the aggregate types reachable from each field type of
    /// `fields`, in declaration order.
    fn register_fields(&mut self, fields: &Vec<(String, VariableType)>) -> (r: Result<
        (),
        LowerError,
    >)
        ensures
            final(self).methods == old(self).methods,
            final(self).name == old(self).name,
            match r {
                Ok(()) => reg_fields_s(old(self).tys(), fields_dv(fields@), 0) == Ok::<
                    _,
                    LowerError,
                >(final(self).tys()),
                Err(e) => reg_fields_s(old(self).tys(), fields_dv(fields@), 0) == Err::<
                    Seq<EntryS>,
                    _,
                >(e),
            },
            final(self).types@.len() >= old(self).types@.len(),
            forall|j: int|
                0 <= j < old(self).types@.len() ==> final(self).types@[j] == old(self).types@[j],
        decreases fields@, 1int,
    {
        let ghost tys0 = self.tys();
        let ghost fdv = fields_dv(fields@);
        proof {
            lemma_fields_dv(fields@);
        }
        let mut i: usize = 0;
        while i < fields.len()
            invariant
                i <= fields@.len(),
                fdv == fields_dv(fields@),
                fdv.len() == fields@.len(),
                forall|j: int|
                    0 <= j < fields@.len() ==> #[trigger] fdv[j] == (
                        fields@[j].0@,
                        fields@[j].1.dv(),
                    ),
                reg_fields_s(tys0, fdv, 0) == reg_fields_s(self.tys(), fdv, i as int),
                self.methods == old(self).methods,
                self.name == old(self).name,
                self.types@.len() >= old(self).types@.len(),
                tys0 == old(self).tys(),
                forall|j: int|
                    0 <= j < old(self).types@.len() ==> self.types@[j] == old(self).types@[j],
            decreases fields@.len() - i,
        {
            proof {
                assert(decreases_to!(fields@ => fields@[i as int]));
            }
            match self.register(&fields[i].1) {
                Ok(()) => {
                    i = i + 1;
                },
                Err(er) => {
                    return Err(er);
                },
            }
        }
        Ok(())
    }

    /// Resolves `ty` under `subst` and registers every aggregate type
    /// reachable from the resolved form, returning its canonical name.
    pub fn add_type(&mut self, ty: &VariableType, subst: &Vec<VariableType>) -> (r: Result<
        String,
        LowerError,
    >)
        ensures
            final(self).methods == old(self).methods,
            final(self).name == old(self).name,
            match r {
                Ok(n) => mono_s(ty.dv(), subst_dv(subst@)) matches Ok(m) && n@ == il_name_s(m)
                    && reg_s(old(self).tys(), m) == Ok::<_, LowerError>(final(self).tys()),
                Err(e) => (mono_s(ty.dv(), subst_dv(subst@)) == Err::<TyS, LowerError>(e) && final(self).types == old(self).types) || (mono_s(ty.dv(), subst_dv(subst@)) matches Ok(m)
                    && reg_s(old(self).tys(), m) == Err::<Seq<EntryS>, _>(e)),
            },
            final(self).types@.len() >= old(self).types@.len(),
            forall|j: int|
                0 <= j < old(self).types@.len() ==> final(self).types@[j] == old(self).types@[j],
    {
        match monomorphize(ty, subst) {
            Ok(m) => {
                let nm = il_name(&m);
                match self.register(&m) {
                    Ok(()) => Ok(nm),
                    Err(er) => Err(er),
                }
            },
            Err(er) => Err(er),
        }
    }

    /// Registers the aggregate types of a function's whole
    /// local-variable type table, in order.
    pub fn add_types_from_locals(&mut self, locals: &Vec<VariableType>, subst: &Vec<
        VariableType,
    >) -> (r: Result<(), LowerError>)
        ensures
            final(self).methods == old(self).methods,
            final(self).name == old(self).name,
            match r {
                Ok(()) => reg_locals_s(
                    old(self).tys(),
                    Seq::new(locals@.len(), |i: int| locals@[i].dv()),
                    subst_dv(subst@),
                    0,
                ) == Ok::<_, LowerError>(final(self).tys()),
                Err(e) => reg_locals_s(
                    old(self).tys(),
                    Seq::new(locals@.len(), |i: int| locals@[i].dv()),
                    subst_dv(subst@),
                    0,
                ) == Err::<Seq<EntryS>, _>(e),
            },
    {
        let ghost ldv = Seq::new(locals@.len(), |i: int| locals@[i].dv());
        let ghost sdv = subst_dv(subst@);
        let ghost tys0 = self.tys();
        let mut i: usize = 0;
        while i < locals.len()
            invariant
                i <= locals@.len(),
                ldv == Seq::new(locals@.len(), |k: int| locals@[k].dv()),
                sdv == subst_dv(subst@),
                reg_locals_s(tys0, ldv, sdv, 0) == reg_locals_s(self.tys(), ldv, sdv, i as int),
                self.methods == old(self).methods,
                self.name == old(self).name,
                tys0 == old(self).tys(),
            decreases locals@.len() - i,
        {
            match self.add_type(&locals[i], subst) {
                Ok(_) => {
                    i = i + 1;
                },
                Err(er) => {
                    return Err(er);
                },
            }
        }
        Ok(())
    }

    /// Merges another unit into this one: method lists concatenate;
    /// registries merge by canonical name, where one name with two
    /// structurally different definitions is a fatal conflict.
    pub fn link(&mut self, other: Assembly) -> (r: Result<(), LowerError>)
        ensures
            final(self).name == old(self).name,
            final(self).methods@ == old(self).methods@ + other.methods@,
            match r {
                Ok(()) => link_s(old(self).tys(), other.tys(), 0) == Ok::<_, LowerError>(
                    final(self).tys(),
                ),
                Err(e) => link_s(old(self).tys(), other.tys(), 0) == Err::<Seq<EntryS>, _>(e),
            },
    {
        let ghost om0 = other.methods@;
        let ghost oseq = other.tys();
        let Assembly { name: _, methods: mut oms, types: mut ots } = other;
        self.methods.append(&mut oms);
        let ghost tys0 = self.tys();
        let ghost total = oseq.len();
        let ghost mut i: int = 0;
        proof {
            assert(oseq.skip(0) =~= oseq);
        }
        while ots.len() > 0
            invariant
                0 <= i,
                total == oseq.len(),
                om0 == other.methods@,
                oseq == other.tys(),
                i + ots@.len() == total,
                entries_dv(ots@) == oseq.skip(i),
                link_s(tys0, oseq, 0) == link_s(self.tys(), oseq, i),
                self.methods@ == old(self).methods@ + om0,
                self.name == old(self).name,
                tys0 == old(self).tys(),
            decreases ots@.len(),
        {
            let ghost prev_ots = ots@;
            let e = ots.remove(0);
            proof {
                assert(entries_dv(prev_ots)[0] == oseq.skip(i)[0]);
                assert(oseq.skip(i) == oseq.subrange(i, oseq.len() as int));
                assert(oseq.subrange(i, oseq.len() as int)[0] == oseq[i]);
                assert forall|j: int| 0 <= j < ots@.len() implies #[trigger] ots@[j]
                    == prev_ots[j + 1] by {
                    assert(ots@ == prev_ots.remove(0));
                }
                assert forall|j: int| 0 <= j < ots@.len() implies #[trigger] entries_dv(ots@)[j]
                    == oseq.skip(i + 1)[j] by {
                    assert(oseq.len() == total);
                    assert(i + prev_ots.len() == total);
                    assert(ots@.len() == prev_ots.len() - 1);
                    assert(j + 1 < oseq.len() - i);
                    assert(entries_dv(prev_ots)[j + 1] == oseq.skip(i)[j + 1]);
                    assert(oseq.skip(i) == oseq.subrange(i, oseq.len() as int));
                    assert(oseq.skip(i + 1) == oseq.subrange(i + 1, oseq.len() as int));
                    assert(oseq.subrange(i, oseq.len() as int)[j + 1] == oseq[i + (j + 1)]);
                    assert(oseq.subrange(i + 1, oseq.len() as int)[j] == oseq[i + 1 + j]);
                    assert(ots@[j] == prev_ots[j + 1]);
                }
                assert(entries_dv(ots@) =~= oseq.skip(i + 1));
            }
            let TypeEntry { name: en, def: ed } = e;
            match self.insert_entry(en, ed) {
                Ok(()) => {
                    proof {
                        i = i + 1;
                    }
                },
                Err(er) => {
                    return Err(er);
                },
            }
        }
        proof {
            assert(i == total);
            assert(oseq.skip(total as int) =~= Seq::<EntryS>::empty());
        }
        Ok(())
    }

    /// Serializes the whole unit: assembly header, type definitions in
    /// insertion order, then method bodies.
    pub fn into_il_ir(&self) -> (r: String)
        ensures
            r@ == asm_text_s(*self),
    {
        let mut s = String::from_str(".assembly ");
        s.append(self.name.as_str());
        s.append("{}\n");
        let ghost head = ".assembly "@ + self.name@ + "{}\n"@;
        let ghost edv = self.tys();
        let mut i: usize = 0;
        while i < self.types.len()
            invariant
                i <= self.types@.len(),
                edv == self.tys(),
                s@ + types_text_s(edv, i as int) == head + types_text_s(edv, 0),
            decreases self.types@.len() - i,
        {
            let d = self.types[i].def.get_def(self.types[i].name.as_str());
            s.append(d.as_str());
            i = i + 1;
        }
        s.append("\n");
        let ghost head2 = s@;
        let mut k: usize = 0;
        while k < self.methods.len()
            invariant
                k <= self.methods@.len(),
                head2 == head + types_text_s(edv, 0) + "\n"@,
                edv == self.tys(),
                s@ + methods_text_s(self.methods@, k as int) == head2 + methods_text_s(
                    self.methods@,
                    0,
                ),
            decreases self.methods@.len() - k,
        {
            let m = self.methods[k].into_il_ir();
            s.append(m.as_str());
            k = k + 1;
        }
        s
    }
}

/// Resolves and registers the locals' types from index `i` on.
pub open spec fn reg_locals_s(tys: Seq<EntryS>, locals: Seq<TyS>, s: Seq<TyS>, i: int) -> Result<
    Seq<EntryS>,
    LowerError,
>
    decreases locals.len() - i,
{
    if i < 0 || i >= locals.len() {
        Ok(tys)
    } else {
        match mono_s(locals[i], s) {
            Ok(m) => match reg_s(tys, m) {
                Ok(t1) => reg_locals_s(t1, locals, s, i + 1),
                Err(er) => Err(er),
            },
            Err(er) => Err(er),
        }
    }
}

/// Decides structural equality of two generated definitions.
fn def_eq(a: &CLRType, b: &CLRType) -> (r: bool)
    ensures
        r == (a.dv() == b.dv()),
{
    match (a, b) {
        (CLRType::Struct { fields: fa }, CLRType::Struct { fields: fb }) => fields_eq(fa, fb),
        (
            CLRType::Array { element: ea, length: la, total_size: sa },
            CLRType::Array { element: eb, length: lb, total_size: sb },
        ) => *la == *lb && *sa == *sb && ty_eq(ea, eb),
        (CLRType::Slice(ea), CLRType::Slice(eb)) => ty_eq(ea, eb),
        _ => false,
    }
}


/// `a` is an unchanged initial segment of `b`: registration only ever
/// appends entries.
pub open spec fn prefix_of(a: Seq<EntryS>, b: Seq<EntryS>) -> bool {
    a.len() <= b.len() && forall|i: int| 0 <= i < a.len() ==> a[i] == b[i]
}

/// The registry holds exactly `def` under `name`.
pub open spec fn has_def_s(tys: Seq<EntryS>, name: Seq<char>, def: DefS) -> bool {
    match find_s(tys, name, 0) {
        Some(i) => tys[i].def == def,
        None => false,
    }
}

/// Every aggregate reachable from `t` stands in the registry with its
/// synthesized definition.
pub open spec fn registered_s(tys: Seq<EntryS>, t: TyS) -> bool
    decreases t, 0int,
{
    match t {
        TyS::Primitive(_) => true,
        TyS::Enum { .. } => true,
        TyS::GenericParam(_) => false,
        TyS::Pointer(e) => registered_s(tys, *e),
        TyS::Slice(e) => registered_s(tys, *e) && has_def_s(tys, il_name_s(t), DefS::Slice(*e)),
        TyS::FixedArray { element, length } => registered_s(tys, *element) && (size_of_s(t)
            matches Ok(total) && has_def_s(
            tys,
            il_name_s(t),
            DefS::Array { element: *element, length, total_size: total as u64 },
        )),
        TyS::Struct { name, fields } => regd_fields_s(tys, fields, 0) && has_def_s(
            tys,
            name,
            DefS::Struct { fields },
        ),
    }
}

/// Every aggregate reachable from the fields of `fs`, from `i` on,
/// stands in the registry.
pub open spec fn regd_fields_s(tys: Seq<EntryS>, fs: Seq<(Seq<char>, TyS)>, i: int) -> bool
    decreases fs, fs.len() - i,
{
    if i < 0 || i >= fs.len() {
        true
    } else {
        registered_s(tys, fs[i].1) && regd_fields_s(tys, fs, i + 1)
    }
}

/// A found index lies in range and carries the name sought.
proof fn lemma_find_some(tys: Seq<EntryS>, name: Seq<char>, i: int)
    requires
        0 <= i,
        find_s(tys, name, i) is Some,
    ensures
        find_s(tys, name, i) matches Some(k) && i <= k < tys.len() && tys[k].name == name,
    decreases tys.len() - i,
{
    if i < tys.len() {
        if tys[i].name == name {
        } else {
            lemma_find_some(tys, name, i + 1);
        }
    }
}

/// A found entry is still found, at the same index, in any extension.
proof fn lemma_find_extend(tys: Seq<EntryS>, tys2: Seq<EntryS>, name: Seq<char>, i: int)
    requires
        prefix_of(tys, tys2),
        0 <= i,
        find_s(tys, name, i) is Some,
    ensures
        find_s(tys2, name, i) == find_s(tys, name, i),
    decreases tys.len() - i,
{
    if i < tys.len() {
        if tys[i].name == name {
        } else {
            lemma_find_extend(tys, tys2, name, i + 1);
        }
    }
}

/// A name absent from the registry is found at the end after a push of
/// an entry carrying it.
proof fn lemma_find_push(tys: Seq<EntryS>, e: EntryS, name: Seq<char>, i: int)
    requires
        0 <= i <= tys.len(),
        find_s(tys, name, i) is None,
        e.name == name,
    ensures
        find_s(tys.push(e), name, i) == Some(tys.len() as int),
    decreases tys.len() - i,
{
    if i < tys.len() {
        lemma_find_push(tys, e, name, i + 1);
    }
}

/// What is registered stays registered, with the same definition, in
/// any extension of the registry.
proof fn lemma_registered_extend(tys: Seq<EntryS>, tys2: Seq<EntryS>, t: TyS)
    requires
        prefix_of(tys, tys2),
        registered_s(tys, t),
    ensures
        registered_s(tys2, t),
    decreases t, 1int,
{
    match t {
        TyS::Pointer(e) => lemma_registered_extend(tys, tys2, *e),
        TyS::Slice(e) => {
            lemma_registered_extend(tys, tys2, *e);
            lemma_find_some(tys, il_name_s(t), 0);
            lemma_find_extend(tys, tys2, il_name_s(t), 0);
        },
        TyS::FixedArray { element, length } => {
            lemma_registered_extend(tys, tys2, *element);
            lemma_find_some(tys, il_name_s(t), 0);
            lemma_find_extend(tys, tys2, il_name_s(t), 0);
        },
        TyS::Struct { name, fields } => {
            lemma_regd_fields_extend(tys, tys2, fields, 0);
            lemma_find_some(tys, name, 0);
            lemma_find_extend(tys, tys2, name, 0);
        },
        _ => (),
    }
}

proof fn lemma_regd_fields_extend(tys: Seq<EntryS>, tys2: Seq<EntryS>, fs: Seq<(Seq<char>, TyS)>,
    i: int)
    requires
        prefix_of(tys, tys2),
        regd_fields_s(tys, fs, i),
    ensures
        regd_fields_s(tys2, fs, i),
    decreases fs, fs.len() - i,
{
    if 0 <= i < fs.len() {
        lemma_registered_extend(tys, tys2, fs[i].1);
        lemma_regd_fields_extend(tys, tys2, fs, i + 1);
    }
}

/// A successful registration only appends entries, and afterwards
/// every aggregate reachable from the registered shape stands in the
/// registry with its synthesized definition.
pub proof fn lemma_reg_registers(tys: Seq<EntryS>, t: TyS, tys2: Seq<EntryS>)
    requires
        reg_s(tys, t) == Ok::<Seq<EntryS>, LowerError>(tys2),
    ensures
        prefix_of(tys, tys2),
        registered_s(tys2, t),
    decreases t, 1int,
{
    match t {
        TyS::Pointer(e) => lemma_reg_registers(tys, *e, tys2),
        TyS::Slice(e) => {
            let t1 = match reg_s(tys, *e) {
                Ok(t1) => t1,
                Err(_) => tys,
            };
            lemma_reg_registers(tys, *e, t1);
            lemma_insert_registers(t1, il_name_s(t), DefS::Slice(*e), tys2);
            lemma_registered_extend(t1, tys2, *e);
        },
        TyS::FixedArray { element, length } => {
            let t1 = match reg_s(tys, *element) {
                Ok(t1) => t1,
                Err(_) => tys,
            };
            lemma_reg_registers(tys, *element, t1);
            let total = match size_of_s(t) {
                Ok(v) => v,
                Err(_) => 0,
            };
            lemma_insert_registers(
                t1,
                il_name_s(t),
                DefS::Array { element: *element, length, total_size: total as u64 },
                tys2,
            );
            lemma_registered_extend(t1, tys2, *element);
        },
        TyS::Struct { name, fields } => {
            let t1 = match reg_fields_s(tys, fields, 0) {
                Ok(t1) => t1,
                Err(_) => tys,
            };
            lemma_reg_fields_registers(tys, fields, 0, t1);
            lemma_insert_registers(t1, name, DefS::Struct { fields }, tys2);
            lemma_regd_fields_extend(t1, tys2, fields, 0);
        },
        _ => (),
    }
}

proof fn lemma_insert_registers(tys: Seq<EntryS>, name: Seq<char>, def: DefS, tys2: Seq<EntryS>)
    requires
        insert_s(tys, name, def) == Ok::<Seq<EntryS>, LowerError>(tys2),
    ensures
        prefix_of(tys, tys2),
        has_def_s(tys2, name, def),
    decreases 0int,
{
    match find_s(tys, name, 0) {
        Some(i) => (),
        None => {
            lemma_find_push(tys, EntryS { name, def }, name, 0);
        },
    }
}

proof fn lemma_reg_fields_registers(tys: Seq<EntryS>, fs: Seq<(Seq<char>, TyS)>, i: int, tys2: Seq<
    EntryS,
>)
    requires
        reg_fields_s(tys, fs, i) == Ok::<Seq<EntryS>, LowerError>(tys2),
    ensures
        prefix_of(tys, tys2),
        regd_fields_s(tys2, fs, i),
    decreases fs, fs.len() - i,
{
    if 0 <= i < fs.len() {
        let t1 = match reg_s(tys, fs[i].1) {
            Ok(t1) => t1,
            Err(_) => tys,
        };
        lemma_reg_registers(tys, fs[i].1, t1);
        lemma_reg_fields_registers(t1, fs, i + 1, tys2);
        lemma_registered_extend(t1, tys2, fs[i].1);
    }
}

/// Registering a shape whose aggregates all stand in the registry
/// already, with their synthesized definitions, changes nothing.
pub proof fn lemma_reg_noop(tys: Seq<EntryS>, t: TyS)
    requires
        registered_s(tys, t),
    ensures
        reg_s(tys, t) == Ok::<Seq<EntryS>, LowerError>(tys),
    decreases t, 1int,
{
    match t {
        TyS::Pointer(e) => lemma_reg_noop(tys, *e),
        TyS::Slice(e) => {
            lemma_reg_noop(tys, *e);
        },
        TyS::FixedArray { element, length } => {
            lemma_reg_noop(tys, *element);
        },
        TyS::Struct { name, fields } => {
            lemma_reg_fields_noop(tys, fields, 0);
        },
        _ => (),
    }
}

proof fn lemma_reg_fields_noop(tys: Seq<EntryS>, fs: Seq<(Seq<char>, TyS)>, i: int)
    requires
        regd_fields_s(tys, fs, i),
    ensures
        reg_fields_s(tys, fs, i) == Ok::<Seq<EntryS>, LowerError>(tys),
    decreases fs, fs.len() - i,
{
    if 0 <= i < fs.len() {
        lemma_reg_noop(tys, fs[i].1);
        lemma_reg_fields_noop(tys, fs, i + 1);
    }
}

/// Idempotence of registration: after a successful registration of a
/// shape, registering the same shape again yields the same registry,
/// entry for entry — one definition per canonical name, no duplicate
/// and no rewritten entry.
pub proof fn lemma_register_idempotent(tys: Seq<EntryS>, t: TyS, tys2: Seq<EntryS>)
    requires
        reg_s(tys, t) == Ok::<Seq<EntryS>, LowerError>(tys2),
    ensures
        reg_s(tys2, t) == Ok::<Seq<EntryS>, LowerError>(tys2),
{
    lemma_reg_registers(tys, t, tys2);
    lemma_reg_noop(tys2, t);
}

} // verus!
