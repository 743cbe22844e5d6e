//! The semantic type model: a closed set of type variants with a
//! deterministic, shape-derived IL name, a size function, structural
//! equality, and the monomorphizer that resolves generic parameters
//! against a concrete instantiation's substitution list.

use vstd::prelude::*;
use crate::strutil::{dec_str_s, u64_to_dec};
use crate::ir::{InvariantKind, LowerError};

verus! {

/// A primitive (scalar) type of the target.
#[derive(Clone, Copy, Debug, PartialEq, Eq, Structural)]
pub enum PrimTy {
    I8,
    I16,
    I32,
    I64,
    ISize,
    U8,
    U16,
    U32,
    U64,
    USize,
    Bool,
    Char,
    Void,
}

/// A semantic type: primitives, aggregates (structs, fixed arrays,
/// slices), discriminated unions, pointers, and unresolved generic
/// parameters.
#[derive(Debug, PartialEq, Eq)]
pub enum VariableType {
    Primitive(PrimTy),
    Struct { name: String, fields: Vec<(String, VariableType)> },
    Enum { name: String, variants: Vec<VariantDef> },
    FixedArray { element: Box<VariableType>, length: u64 },
    Slice(Box<VariableType>),
    Pointer(Box<VariableType>),
    GenericParam(u32),
}

/// One variant of a discriminated union: its name and its ordered fields.
#[derive(Debug, PartialEq, Eq)]
pub struct VariantDef {
    pub name: String,
    pub fields: Vec<(String, VariableType)>,
}

/// The mathematical shape of a [`VariableType`]: the same tree with
/// strings as character sequences. Contracts speak of this model.
pub enum TyS {
    Primitive(PrimTy),
    Struct { name: Seq<char>, fields: Seq<(Seq<char>, TyS)> },
    Enum { name: Seq<char>, variants: Seq<VariantS> },
    FixedArray { element: Box<TyS>, length: u64 },
    Slice(Box<TyS>),
    Pointer(Box<TyS>),
    GenericParam(u32),
}

/// The shape of one union variant.
pub struct VariantS {
    pub name: Seq<char>,
    pub fields: Seq<(Seq<char>, TyS)>,
}

impl VariableType {
    /// The shape of this type.
    pub open spec fn dv(self) -> TyS
        decreases self via Self::dv_decreases
    {
        match self {
            VariableType::Primitive(p) => TyS::Primitive(p),
            VariableType::Struct { name, fields } => TyS::Struct {
                name: name@,
                fields: fields_dv(fields@),
            },
            VariableType::Enum { name, variants } => TyS::Enum {
                name: name@,
                variants: variants_dv(variants@),
            },
            VariableType::FixedArray { element, length } => TyS::FixedArray {
                element: Box::new((*element).dv()),
                length,
            },
            VariableType::Slice(e) => TyS::Slice(Box::new((*e).dv())),
            VariableType::Pointer(e) => TyS::Pointer(Box::new((*e).dv())),
            VariableType::GenericParam(i) => TyS::GenericParam(i),
        }
    }

    #[via_fn]
    proof fn dv_decreases(self) {
        match self {
            VariableType::Struct { name, fields } => {
                assert(decreases_to!(self => fields));
                assert(decreases_to!(fields => fields@));
            },
            VariableType::Enum { name, variants } => {
                assert(decreases_to!(self => variants));
                assert(decreases_to!(variants => variants@));
            },
            _ => (),
        }
    }
}

/// Shapes of an ordered field list.
pub open spec fn fields_dv(fs: Seq<(String, VariableType)>) -> Seq<(Seq<char>, TyS)>
    decreases fs via fields_dv_decreases
{
    if fs.len() == 0 {
        Seq::empty()
    } else {
        seq![(fs[0].0@, fs[0].1.dv())] + fields_dv(fs.drop_first())
    }
}

#[via_fn]
proof fn fields_dv_decreases(fs: Seq<(String, VariableType)>) {
    if fs.len() > 0 {
        assert(decreases_to!(fs => fs[0]));
        assert(decreases_to!(fs[0] => fs[0].1));
        assert(decreases_to!(fs => fs.drop_first()));
    }
}

/// Shapes of an ordered variant list.
pub open spec fn variants_dv(vs: Seq<VariantDef>) -> Seq<VariantS>
    decreases vs via variants_dv_decreases
{
    if vs.len() == 0 {
        Seq::empty()
    } else {
        seq![VariantS { name: vs[0].name@, fields: fields_dv(vs[0].fields@) }]
            + variants_dv(vs.drop_first())
    }
}

#[via_fn]
proof fn variants_dv_decreases(vs: Seq<VariantDef>) {
    if vs.len() > 0 {
        assert(decreases_to!(vs => vs[0]));
        assert(decreases_to!(vs[0] => vs[0].fields));
        assert(decreases_to!(vs[0].fields => vs[0].fields@));
        assert(decreases_to!(vs => vs.drop_first()));
    }
}

/// What [`fields_dv`] holds at each index.
pub proof fn lemma_fields_dv(fs: Seq<(String, VariableType)>)
    ensures
        fields_dv(fs).len() == fs.len(),
        forall|i: int|
            0 <= i < fs.len() ==> #[trigger] fields_dv(fs)[i] == (fs[i].0@, fs[i].1.dv()),
    decreases fs.len(),
{
    if fs.len() > 0 {
        lemma_fields_dv(fs.drop_first());
    }
}

/// What [`variants_dv`] holds at each index.
pub proof fn lemma_variants_dv(vs: Seq<VariantDef>)
    ensures
        variants_dv(vs).len() == vs.len(),
        forall|i: int|
            0 <= i < vs.len() ==> #[trigger] variants_dv(vs)[i] == (VariantS {
                name: vs[i].name@,
                fields: fields_dv(vs[i].fields@),
            }),
    decreases vs.len(),
{
    if vs.len() > 0 {
        lemma_variants_dv(vs.drop_first());
    }
}

/// IL spelling of a primitive type.
pub open spec fn prim_il_name_s(p: PrimTy) -> Seq<char> {
    match p {
        PrimTy::I8 => "int8"@,
        PrimTy::I16 => "int16"@,
        PrimTy::I32 => "int32"@,
        PrimTy::I64 => "int64"@,
        PrimTy::ISize => "native int"@,
        PrimTy::U8 => "uint8"@,
        PrimTy::U16 => "uint16"@,
        PrimTy::U32 => "uint32"@,
        PrimTy::U64 => "uint64"@,
        PrimTy::USize => "native uint"@,
        PrimTy::Bool => "bool"@,
        PrimTy::Char => "char"@,
        PrimTy::Void => "void"@,
    }
}

/// IL spelling of a primitive type.
pub fn prim_il_name(p: PrimTy) -> (r: &'static str)
    ensures
        r@ == prim_il_name_s(p),
{
    match p {
        PrimTy::I8 => "int8",
        PrimTy::I16 => "int16",
        PrimTy::I32 => "int32",
        PrimTy::I64 => "int64",
        PrimTy::ISize => "native int",
        PrimTy::U8 => "uint8",
        PrimTy::U16 => "uint16",
        PrimTy::U32 => "uint32",
        PrimTy::U64 => "uint64",
        PrimTy::USize => "native uint",
        PrimTy::Bool => "bool",
        PrimTy::Char => "char",
        PrimTy::Void => "void",
    }
}

/// The canonical (IL) name of a type: a pure function of its structural
/// content, so two independently discovered occurrences of one shape
/// always produce the same name. Structs and unions carry their own
/// name; arrays and slices derive one from the element's name.
pub open spec fn il_name_s(t: TyS) -> Seq<char>
    decreases t,
{
    match t {
        TyS::Primitive(p) => prim_il_name_s(p),
        TyS::Struct { name, .. } => name,
        TyS::Enum { name, .. } => name,
        TyS::FixedArray { element, length } => "RArray_"@ + il_name_s(*element) + "_"@
            + dec_str_s(length as nat),
        TyS::Slice(e) => "RSlice_"@ + il_name_s(*e),
        TyS::Pointer(e) => il_name_s(*e) + "*"@,
        TyS::GenericParam(i) => "!"@ + dec_str_s(i as nat),
    }
}

/// Computes the canonical (IL) name of a type.
pub fn il_name(t: &VariableType) -> (r: String)
    ensures
        r@ == il_name_s(t.dv()),
    decreases t,
{
    match t {
        VariableType::Primitive(p) => String::from_str(prim_il_name(*p)),
        VariableType::Struct { name, .. } => name.clone(),
        VariableType::Enum { name, .. } => name.clone(),
        VariableType::FixedArray { element, length } => {
            let mut s = String::from_str("RArray_");
            let e = il_name(element);
            s.append(e.as_str());
            s.append("_");
            let l = u64_to_dec(*length);
            s.append(l.as_str());
            s
        },
        VariableType::Slice(e) => {
            let mut s = String::from_str("RSlice_");
            let en = il_name(e);
            s.append(en.as_str());
            s
        },
        VariableType::Pointer(e) => {
            let mut s = il_name(e);
            s.append("*");
            s
        },
        VariableType::GenericParam(i) => {
            let mut s = String::from_str("!");
            let l = u64_to_dec(*i as u64);
            s.append(l.as_str());
            s
        },
    }
}


/// Shapes of a substitution list.
pub open spec fn subst_dv(ss: Seq<VariableType>) -> Seq<TyS> {
    Seq::new(ss.len(), |i: int| ss[i].dv())
}

/// The monomorphizer: resolves a type possibly containing generic
/// parameters to its concrete form under the given instantiation's
/// substitution list. Fails on a parameter with no substitution.
pub open spec fn mono_s(t: TyS, s: Seq<TyS>) -> Result<TyS, LowerError>
    decreases t, 0int,
{
    match t {
        TyS::Primitive(p) => Ok(TyS::Primitive(p)),
        TyS::GenericParam(i) => if i < s.len() {
            Ok(s[i as int])
        } else {
            Err(LowerError::InvariantViolation(InvariantKind::MissingSubstitution))
        },
        TyS::Pointer(e) => match mono_s(*e, s) {
            Ok(x) => Ok(TyS::Pointer(Box::new(x))),
            Err(er) => Err(er),
        },
        TyS::Slice(e) => match mono_s(*e, s) {
            Ok(x) => Ok(TyS::Slice(Box::new(x))),
            Err(er) => Err(er),
        },
        TyS::FixedArray { element, length } => match mono_s(*element, s) {
            Ok(x) => Ok(TyS::FixedArray { element: Box::new(x), length }),
            Err(er) => Err(er),
        },
        TyS::Struct { name, fields } => match mono_fields_s(fields, s, 0, Seq::empty()) {
            Ok(fs) => Ok(TyS::Struct { name, fields: fs }),
            Err(er) => Err(er),
        },
        TyS::Enum { name, variants } => match mono_variants_s(variants, s, 0, Seq::empty()) {
            Ok(vs) => Ok(TyS::Enum { name, variants: vs }),
            Err(er) => Err(er),
        },
    }
}

/// Monomorphizes the field list `fs` from index `i` on, appending the
/// resolved fields to `acc`.
pub open spec fn mono_fields_s(
    fs: Seq<(Seq<char>, TyS)>,
    s: Seq<TyS>,
    i: int,
    acc: Seq<(Seq<char>, TyS)>,
) -> Result<Seq<(Seq<char>, TyS)>, LowerError>
    decreases fs, fs.len() - i,
{
    if i < 0 || i >= fs.len() {
        Ok(acc)
    } else {
        match mono_s(fs[i].1, s) {
            Ok(m) => mono_fields_s(fs, s, i + 1, acc.push((fs[i].0, m))),
            Err(er) => Err(er),
        }
    }
}

/// Monomorphizes the variant list `vs` from index `i` on.
pub open spec fn mono_variants_s(
    vs: Seq<VariantS>,
    s: Seq<TyS>,
    i: int,
    acc: Seq<VariantS>,
) -> Result<Seq<VariantS>, LowerError>
    decreases vs, vs.len() - i,
{
    if i < 0 || i >= vs.len() {
        Ok(acc)
    } else {
        match mono_fields_s(vs[i].fields, s, 0, Seq::empty()) {
            Ok(fs) => mono_variants_s(vs, s, i + 1, acc.push(VariantS { name: vs[i].name, fields: fs })),
            Err(er) => Err(er),
        }
    }
}

/// Deep copy of a type; the copy has the same shape.
pub fn clone_ty(t: &VariableType) -> (r: VariableType)
    ensures
        r.dv() == t.dv(),
    decreases t, 1int,
{
    match t {
        VariableType::Primitive(p) => VariableType::Primitive(*p),
        VariableType::GenericParam(i) => VariableType::GenericParam(*i),
        VariableType::Pointer(e) => VariableType::Pointer(Box::new(clone_ty(e))),
        VariableType::Slice(e) => VariableType::Slice(Box::new(clone_ty(e))),
        VariableType::FixedArray { element, length } => VariableType::FixedArray {
            element: Box::new(clone_ty(element)),
            length: *length,
        },
        VariableType::Struct { name, fields } => {
            let fs = clone_fields(fields);
            proof {
                lemma_fields_dv(fields@);
                lemma_fields_dv(fs@);
                assert(fields_dv(fs@) =~= fields_dv(fields@));
            }
            VariableType::Struct { name: name.clone(), fields: fs }
        },
        VariableType::Enum { name, variants } => {
            let vs = clone_variants(variants);
            proof {
                lemma_variants_dv(variants@);
                lemma_variants_dv(vs@);
                assert(variants_dv(vs@) =~= variants_dv(variants@));
            }
            VariableType::Enum { name: name.clone(), variants: vs }
        },
    }
}

/// Deep copy of a field list; names and shapes are kept pointwise.
pub fn clone_fields(fs: &Vec<(String, VariableType)>) -> (r: Vec<(String, VariableType)>)
    ensures
        r@.len() == fs@.len(),
        forall|j: int|
            0 <= j < fs@.len() ==> #[trigger] r@[j].0@ == fs@[j].0@ && r@[j].1.dv()
                == fs@[j].1.dv(),
    decreases fs@, 0int,
{
    let mut out: Vec<(String, VariableType)> = Vec::new();
    let mut i: usize = 0;
    while i < fs.len()
        invariant
            i <= fs@.len(),
            out@.len() == i,
            forall|j: int|
                0 <= j < i as int ==> #[trigger] out@[j].0@ == fs@[j].0@ && out@[j].1.dv()
                    == fs@[j].1.dv(),
        decreases fs@.len() - i,
    {
        proof {
            assert(decreases_to!(fs@ => fs@[i as int]));
        }
        let c = clone_ty(&fs[i].1);
        out.push((fs[i].0.clone(), c));
        i = i + 1;
    }
    out
}

/// Deep copy of a variant list.
fn clone_variants(vs: &Vec<VariantDef>) -> (r: Vec<VariantDef>)
    ensures
        r@.len() == vs@.len(),
        forall|j: int|
            0 <= j < vs@.len() ==> #[trigger] r@[j].name@ == vs@[j].name@ && fields_dv(
                r@[j].fields@,
            ) == fields_dv(vs@[j].fields@),
    decreases vs@, 0int,
{
    let mut out: Vec<VariantDef> = Vec::new();
    let mut i: usize = 0;
    while i < vs.len()
        invariant
            i <= vs@.len(),
            out@.len() == i,
            forall|j: int|
                0 <= j < i as int ==> #[trigger] out@[j].name@ == vs@[j].name@ && fields_dv(
                    out@[j].fields@,
                ) == fields_dv(vs@[j].fields@),
        decreases vs@.len() - i,
    {
        proof {
            assert(decreases_to!(vs@ => vs@[i as int]));
            assert(decreases_to!(vs@[i as int] => vs@[i as int].fields));
            assert(decreases_to!(vs@[i as int].fields => vs@[i as int].fields@));
        }
        let fsc = clone_fields(&vs[i].fields);
        proof {
            lemma_fields_dv(vs@[i as int].fields@);
            lemma_fields_dv(fsc@);
            assert(fields_dv(fsc@) =~= fields_dv(vs@[i as int].fields@));
        }
        let ghost prev = out@;
        let nm = vs[i].name.clone();
        let ghost fscv = fsc@;
        out.push(VariantDef { name: nm, fields: fsc });
        proof {
            assert forall|j: int| 0 <= j < i as int + 1 implies #[trigger] out@[j].name@
                == vs@[j].name@ && fields_dv(out@[j].fields@) == fields_dv(vs@[j].fields@) by {
                if j < i as int {
                    assert(out@[j] == prev[j]);
                } else {
                    assert(out@[j].fields@ == fscv);
                }
            }
        }
        i = i + 1;
    }
    out
}

/// Resolves `t` to its concrete form under `subst`.
pub fn monomorphize(t: &VariableType, subst: &Vec<VariableType>) -> (r: Result<
    VariableType,
    LowerError,
>)
    ensures
        match r {
            Ok(m) => mono_s(t.dv(), subst_dv(subst@)) == Ok::<TyS, LowerError>(m.dv()),
            Err(e) => mono_s(t.dv(), subst_dv(subst@)) == Err::<TyS, LowerError>(e),
        },
    decreases t, 2int,
{
    match t {
        VariableType::Primitive(p) => Ok(VariableType::Primitive(*p)),
        VariableType::GenericParam(i) => {
            if (*i as usize) < subst.len() {
                let c = clone_ty(&subst[*i as usize]);
                assert(subst_dv(subst@)[*i as int] == subst@[*i as int].dv());
                Ok(c)
            } else {
                Err(LowerError::InvariantViolation(InvariantKind::MissingSubstitution))
            }
        },
        VariableType::Pointer(e) => match monomorphize(e, subst) {
            Ok(x) => Ok(VariableType::Pointer(Box::new(x))),
            Err(er) => Err(er),
        },
        VariableType::Slice(e) => match monomorphize(e, subst) {
            Ok(x) => Ok(VariableType::Slice(Box::new(x))),
            Err(er) => Err(er),
        },
        VariableType::FixedArray { element, length } => match monomorphize(element, subst) {
            Ok(x) => Ok(VariableType::FixedArray { element: Box::new(x), length: *length }),
            Err(er) => Err(er),
        },
        VariableType::Struct { name, fields } => match mono_fields(fields, subst) {
            Ok(fs) => Ok(VariableType::Struct { name: name.clone(), fields: fs }),
            Err(er) => Err(er),
        },
        VariableType::Enum { name, variants } => match mono_variants(variants, subst) {
            Ok(vs) => Ok(VariableType::Enum { name: name.clone(), variants: vs }),
            Err(er) => Err(er),
        },
    }
}

/// Monomorphizes every field of `fs` under `subst`.
fn mono_fields(fs: &Vec<(String, VariableType)>, subst: &Vec<VariableType>) -> (r: Result<
    Vec<(String, VariableType)>,
    LowerError,
>)
    ensures
        match r {
            Ok(out) => mono_fields_s(fields_dv(fs@), subst_dv(subst@), 0, Seq::empty())
                == Ok::<_, LowerError>(fields_dv(out@)),
            Err(e) => mono_fields_s(fields_dv(fs@), subst_dv(subst@), 0, Seq::empty())
                == Err::<Seq<(Seq<char>, TyS)>, LowerError>(e),
        },
    decreases fs@, 1int,
{
    let ghost fdv = fields_dv(fs@);
    let ghost sdv = subst_dv(subst@);
    proof {
        lemma_fields_dv(fs@);
    }
    let mut out: Vec<(String, VariableType)> = Vec::new();
    let mut i: usize = 0;
    while i < fs.len()
        invariant
            i <= fs@.len(),
            out@.len() == i,
            fdv == fields_dv(fs@),
            sdv == subst_dv(subst@),
            fdv.len() == fs@.len(),
            forall|j: int| 0 <= j < fs@.len() ==> #[trigger] fdv[j] == (fs@[j].0@, fs@[j].1.dv()),
            mono_fields_s(fdv, sdv, 0, Seq::empty()) == mono_fields_s(
                fdv,
                sdv,
                i as int,
                fields_dv(out@),
            ),
        decreases fs@.len() - i,
    {
        proof {
            assert(decreases_to!(fs@ => fs@[i as int]));
        }
        let ghost prev = fields_dv(out@);
        match monomorphize(&fs[i].1, subst) {
            Ok(m) => {
                let nm = fs[i].0.clone();
                proof {
                    lemma_fields_dv(out@);
                }
                let ghost mdv = m.dv();
                out.push((nm, m));
                proof {
                    lemma_fields_dv(out@);
                    assert(fields_dv(out@) =~= prev.push((fs@[i as int].0@, mdv)));
                }
                i = i + 1;
            },
            Err(e) => {
                return Err(e);
            },
        }
    }
    proof {
        lemma_fields_dv(out@);
    }
    Ok(out)
}

/// Monomorphizes every variant of `vs` under `subst`.
fn mono_variants(vs: &Vec<VariantDef>, subst: &Vec<VariableType>) -> (r: Result<
    Vec<VariantDef>,
    LowerError,
>)
    ensures
        match r {
            Ok(out) => mono_variants_s(variants_dv(vs@), subst_dv(subst@), 0, Seq::empty())
                == Ok::<_, LowerError>(variants_dv(out@)),
            Err(e) => mono_variants_s(variants_dv(vs@), subst_dv(subst@), 0, Seq::empty())
                == Err::<Seq<VariantS>, LowerError>(e),
        },
    decreases vs@, 1int,
{
    let ghost vdv = variants_dv(vs@);
    let ghost sdv = subst_dv(subst@);
    proof {
        lemma_variants_dv(vs@);
    }
    let mut out: Vec<VariantDef> = Vec::new();
    let mut i: usize = 0;
    while i < vs.len()
        invariant
            i <= vs@.len(),
            out@.len() == i,
            vdv == variants_dv(vs@),
            sdv == subst_dv(subst@),
            vdv.len() == vs@.len(),
            forall|j: int|
                0 <= j < vs@.len() ==> #[trigger] vdv[j] == (VariantS {
                    name: vs@[j].name@,
                    fields: fields_dv(vs@[j].fields@),
                }),
            mono_variants_s(vdv, sdv, 0, Seq::empty()) == mono_variants_s(
                vdv,
                sdv,
                i as int,
                variants_dv(out@),
            ),
        decreases vs@.len() - i,
    {
        proof {
            assert(decreases_to!(vs@ => vs@[i as int]));
            assert(decreases_to!(vs@[i as int] => vs@[i as int].fields));
            assert(decreases_to!(vs@[i as int].fields => vs@[i as int].fields@));
        }
        let ghost prev = variants_dv(out@);
        proof {
            lemma_variants_dv(out@);
        }
        match mono_fields(&vs[i].fields, subst) {
            Ok(fsm) => {
                let nm = vs[i].name.clone();
                let ghost fdv = fields_dv(fsm@);
                out.push(VariantDef { name: nm, fields: fsm });
                proof {
                    lemma_variants_dv(out@);
                    assert(variants_dv(out@) =~= prev.push(
                        VariantS { name: vs@[i as int].name@, fields: fdv },
                    ));
                }
                i = i + 1;
            },
            Err(e) => {
                return Err(e);
            },
        }
    }
    proof {
        lemma_variants_dv(out@);
    }
    Ok(out)
}


/// Static size, in bytes, of a primitive type on the target.
pub open spec fn prim_size_s(p: PrimTy) -> int {
    match p {
        PrimTy::I8 => 1,
        PrimTy::I16 => 2,
        PrimTy::I32 => 4,
        PrimTy::I64 => 8,
        PrimTy::ISize => 8,
        PrimTy::U8 => 1,
        PrimTy::U16 => 2,
        PrimTy::U32 => 4,
        PrimTy::U64 => 8,
        PrimTy::USize => 8,
        PrimTy::Bool => 1,
        PrimTy::Char => 4,
        PrimTy::Void => 0,
    }
}

/// Static size, in bytes, of a type. Fails with an invariant violation
/// on types with no static size (discriminated unions and unresolved
/// generic parameters), and with `ScalarConversionFailure` as soon as a
/// partial sum or product exceeds the expected integer width.
pub open spec fn size_of_s(t: TyS) -> Result<int, LowerError>
    decreases t, 0int,
{
    match t {
        TyS::Primitive(p) => Ok(prim_size_s(p)),
        TyS::Pointer(_) => Ok(8),
        TyS::Slice(_) => Ok(16),
        TyS::FixedArray { element, length } => match size_of_s(*element) {
            Ok(es) => if length * es > u64::MAX {
                Err(LowerError::ScalarConversionFailure)
            } else {
                Ok(length * es)
            },
            Err(e) => Err(e),
        },
        TyS::Struct { name, fields } => size_fields_s(fields, 0, 0),
        TyS::Enum { .. } => Err(LowerError::InvariantViolation(InvariantKind::UnsizedElement)),
        TyS::GenericParam(_) => Err(
            LowerError::InvariantViolation(InvariantKind::UnsizedElement),
        ),
    }
}

/// Sums the sizes of the fields of `fs` from index `i` on, starting
/// from `acc`.
pub open spec fn size_fields_s(fs: Seq<(Seq<char>, TyS)>, i: int, acc: int) -> Result<
    int,
    LowerError,
>
    decreases fs, fs.len() - i,
{
    if i < 0 || i >= fs.len() {
        Ok(acc)
    } else {
        match size_of_s(fs[i].1) {
            Ok(es) => if acc + es > u64::MAX {
                Err(LowerError::ScalarConversionFailure)
            } else {
                size_fields_s(fs, i + 1, acc + es)
            },
            Err(e) => Err(e),
        }
    }
}

/// Computes the static size of `t` in bytes.
pub fn size_of(t: &VariableType) -> (r: Result<u64, LowerError>)
    ensures
        match r {
            Ok(n) => size_of_s(t.dv()) == Ok::<int, LowerError>(n as int),
            Err(e) => size_of_s(t.dv()) == Err::<int, LowerError>(e),
        },
    decreases t, 1int,
{
    match t {
        VariableType::Primitive(p) => Ok(prim_size(*p)),
        VariableType::Pointer(_) => Ok(8),
        VariableType::Slice(_) => Ok(16),
        VariableType::GenericParam(_) => Err(
            LowerError::InvariantViolation(InvariantKind::UnsizedElement),
        ),
        VariableType::Enum { .. } => Err(
            LowerError::InvariantViolation(InvariantKind::UnsizedElement),
        ),
        VariableType::FixedArray { element, length } => match size_of(element) {
            Ok(es) => match length.checked_mul(es) {
                Some(total) => Ok(total),
                None => Err(LowerError::ScalarConversionFailure),
            },
            Err(e) => Err(e),
        },
        VariableType::Struct { name, fields } => size_fields(fields),
    }
}

/// Sums the static sizes of a field list.
fn size_fields(fs: &Vec<(String, VariableType)>) -> (r: Result<u64, LowerError>)
    ensures
        match r {
            Ok(n) => size_fields_s(fields_dv(fs@), 0, 0) == Ok::<int, LowerError>(n as int),
            Err(e) => size_fields_s(fields_dv(fs@), 0, 0) == Err::<int, LowerError>(e),
        },
    decreases fs@, 0int,
{
    let ghost fdv = fields_dv(fs@);
    proof {
        lemma_fields_dv(fs@);
    }
    let mut acc: u64 = 0;
    let mut i: usize = 0;
    while i < fs.len()
        invariant
            i <= fs@.len(),
            fdv == fields_dv(fs@),
            fdv.len() == fs@.len(),
            forall|j: int|
                0 <= j < fs@.len() ==> #[trigger] fdv[j] == (fs@[j].0@, fs@[j].1.dv()),
            size_fields_s(fdv, 0, 0) == size_fields_s(fdv, i as int, acc as int),
        decreases fs@.len() - i,
    {
        proof {
            assert(decreases_to!(fs@ => fs@[i as int]));
        }
        match size_of(&fs[i].1) {
            Ok(es) => {
                match acc.checked_add(es) {
                    Some(a2) => {
                        acc = a2;
                        i = i + 1;
                    },
                    None => {
                        return Err(LowerError::ScalarConversionFailure);
                    },
                }
            },
            Err(e) => {
                return Err(e);
            },
        }
    }
    Ok(acc)
}

/// Static size, in bytes, of a primitive type.
pub fn prim_size(p: PrimTy) -> (r: u64)
    ensures
        r as int == prim_size_s(p),
{
    match p {
        PrimTy::I8 => 1,
        PrimTy::I16 => 2,
        PrimTy::I32 => 4,
        PrimTy::I64 => 8,
        PrimTy::ISize => 8,
        PrimTy::U8 => 1,
        PrimTy::U16 => 2,
        PrimTy::U32 => 4,
        PrimTy::U64 => 8,
        PrimTy::USize => 8,
        PrimTy::Bool => 1,
        PrimTy::Char => 4,
        PrimTy::Void => 0,
    }
}



/// Decides structural (shape) equality of two types.
pub fn ty_eq(a: &VariableType, b: &VariableType) -> (r: bool)
    ensures
        r == (a.dv() == b.dv()),
    decreases a, 1int,
{
    match (a, b) {
        (VariableType::Primitive(p), VariableType::Primitive(q)) => *p == *q,
        (VariableType::GenericParam(i), VariableType::GenericParam(j)) => *i == *j,
        (VariableType::Pointer(x), VariableType::Pointer(y)) => ty_eq(x, y),
        (VariableType::Slice(x), VariableType::Slice(y)) => ty_eq(x, y),
        (
            VariableType::FixedArray { element: ea, length: la },
            VariableType::FixedArray { element: eb, length: lb },
        ) => *la == *lb && ty_eq(ea, eb),
        (
            VariableType::Struct { name: na, fields: fa },
            VariableType::Struct { name: nb, fields: fb },
        ) => {
            let nm = *na == *nb;
            let fe = fields_eq(fa, fb);
            nm && fe
        },
        (
            VariableType::Enum { name: na, variants: va },
            VariableType::Enum { name: nb, variants: vb },
        ) => {
            let nm = *na == *nb;
            let ve = variants_eq(va, vb);
            nm && ve
        },
        _ => false,
    }
}

/// Decides pointwise shape equality of two field lists.
pub fn fields_eq(a: &Vec<(String, VariableType)>, b: &Vec<(String, VariableType)>) -> (r: bool)
    ensures
        r == (fields_dv(a@) == fields_dv(b@)),
    decreases a@, 0int,
{
    let ghost adv = fields_dv(a@);
    let ghost bdv = fields_dv(b@);
    proof {
        lemma_fields_dv(a@);
        lemma_fields_dv(b@);
    }
    if a.len() != b.len() {
        return false;
    }
    let mut i: usize = 0;
    while i < a.len()
        invariant
            a@.len() == b@.len(),
            i <= a@.len(),
            adv == fields_dv(a@),
            bdv == fields_dv(b@),
            adv.len() == a@.len(),
            bdv.len() == b@.len(),
            forall|j: int| 0 <= j < a@.len() ==> #[trigger] adv[j] == (a@[j].0@, a@[j].1.dv()),
            forall|j: int| 0 <= j < b@.len() ==> #[trigger] bdv[j] == (b@[j].0@, b@[j].1.dv()),
            forall|j: int| 0 <= j < i as int ==> #[trigger] adv[j] == bdv[j],
        decreases a@.len() - i,
    {
        proof {
            assert(decreases_to!(a@ => a@[i as int]));
        }
        let nm = a[i].0 == b[i].0;
        let te = ty_eq(&a[i].1, &b[i].1);
        if !(nm && te) {
            proof {
                assert(adv[i as int] != bdv[i as int]);
            }
            return false;
        }
        i = i + 1;
    }
    proof {
        assert(adv =~= bdv);
    }
    true
}

/// Decides pointwise shape equality of two variant lists.
fn variants_eq(a: &Vec<VariantDef>, b: &Vec<VariantDef>) -> (r: bool)
    ensures
        r == (variants_dv(a@) == variants_dv(b@)),
    decreases a@, 1int,
{
    let ghost adv = variants_dv(a@);
    let ghost bdv = variants_dv(b@);
    proof {
        lemma_variants_dv(a@);
        lemma_variants_dv(b@);
    }
    if a.len() != b.len() {
        return false;
    }
    let mut i: usize = 0;
    while i < a.len()
        invariant
            a@.len() == b@.len(),
            i <= a@.len(),
            adv == variants_dv(a@),
            bdv == variants_dv(b@),
            adv.len() == a@.len(),
            bdv.len() == b@.len(),
            forall|j: int|
                0 <= j < a@.len() ==> #[trigger] adv[j] == (VariantS {
                    name: a@[j].name@,
                    fields: fields_dv(a@[j].fields@),
                }),
            forall|j: int|
                0 <= j < b@.len() ==> #[trigger] bdv[j] == (VariantS {
                    name: b@[j].name@,
                    fields: fields_dv(b@[j].fields@),
                }),
            forall|j: int| 0 <= j < i as int ==> #[trigger] adv[j] == bdv[j],
        decreases a@.len() - i,
    {
        proof {
            assert(decreases_to!(a@ => a@[i as int]));
            assert(decreases_to!(a@[i as int] => a@[i as int].fields));
            assert(decreases_to!(a@[i as int].fields => a@[i as int].fields@));
        }
        let nm = a[i].name == b[i].name;
        let fe = fields_eq(&a[i].fields, &b[i].fields);
        if !(nm && fe) {
            proof {
                assert(adv[i as int] != bdv[i as int]);
            }
            return false;
        }
        i = i + 1;
    }
    proof {
        assert(adv =~= bdv);
    }
    true
}

} // verus!
