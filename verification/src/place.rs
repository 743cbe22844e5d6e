//! The place-lowering engine: turns a memory-location expression (a
//! local plus a chain of projections) into the instruction sequence
//! that loads its value, tracking the type of the addressed sub-object
//! as projections are applied.

use vstd::prelude::*;
use crate::ty::{VariableType, TyS, il_name_s, il_name, mono_s, subst_dv, monomorphize, clone_ty};
use crate::ir::{Place, Projection, PlaceTy, InvariantKind, LowerError};
use crate::cil::{CILOp, FieldDescriptor, CallSite};

verus! {

/// The shape of a typing accumulator state.
pub enum PlaceTyS {
    Ty(TyS),
    EnumVariant(TyS, u32),
}

impl PlaceTy {
    /// The shape of this state.
    pub open spec fn dv(self) -> PlaceTyS {
        match self {
            PlaceTy::Ty(t) => PlaceTyS::Ty(t.dv()),
            PlaceTy::EnumVariant(t, v) => PlaceTyS::EnumVariant(t.dv(), v),
        }
    }
}

/// The access instruction for a local, under the convention that local
/// `0` is the return-value slot, locals `1..=arg_count` are argument
/// slots `0..arg_count`, and higher locals are local-variable slots.
/// `addr` selects address-of over value access.
pub open spec fn local_op_s(local: u32, arg_count: u32, addr: bool) -> CILOp {
    if local == 0 {
        if addr {
            CILOp::LDLocA(0)
        } else {
            CILOp::LDLoc(0)
        }
    } else if local > arg_count {
        if addr {
            CILOp::LDLocA((local - arg_count) as u32)
        } else {
            CILOp::LDLoc((local - arg_count) as u32)
        }
    } else {
        if addr {
            CILOp::LDArgA((local - 1) as u32)
        } else {
            CILOp::LDArg((local - 1) as u32)
        }
    }
}

/// Emits the instruction that loads the value of the given local.
pub fn local_get(local: u32, arg_count: u32) -> (r: CILOp)
    ensures
        r == local_op_s(local, arg_count, false),
{
    if local == 0 {
        CILOp::LDLoc(0)
    } else if local > arg_count {
        CILOp::LDLoc(local - arg_count)
    } else {
        CILOp::LDArg(local - 1)
    }
}

/// Emits the instruction that loads the address of the given local.
pub fn local_address(local: u32, arg_count: u32) -> (r: CILOp)
    ensures
        r == local_op_s(local, arg_count, true),
{
    if local == 0 {
        CILOp::LDLocA(0)
    } else if local > arg_count {
        CILOp::LDLocA(local - arg_count)
    } else {
        CILOp::LDArgA(local - 1)
    }
}

/// The element type addressed when indexing into the state `st`:
/// fixed arrays and slices are indexable; indexing a place narrowed to
/// a union variant, or any other type, is a fatal invariant violation.
pub open spec fn index_elem_s(st: PlaceTyS) -> Result<TyS, LowerError> {
    match st {
        PlaceTyS::Ty(TyS::FixedArray { element, .. }) => Ok(*element),
        PlaceTyS::Ty(TyS::Slice(e)) => Ok(*e),
        PlaceTyS::Ty(_) => Err(LowerError::InvariantViolation(InvariantKind::NotIndexable)),
        PlaceTyS::EnumVariant(..) => Err(
            LowerError::InvariantViolation(InvariantKind::IndexIntoEnumVariant),
        ),
    }
}

/// The state after applying one projection to `st`. No instruction
/// model here: this is the typing half of the stepper's contract.
pub open spec fn step_next_s(elem: Projection, st: PlaceTyS) -> Result<PlaceTyS, LowerError> {
    match elem {
        Projection::Deref => match st {
            PlaceTyS::Ty(TyS::Pointer(t)) => Ok(PlaceTyS::Ty(*t)),
            _ => Err(LowerError::InvariantViolation(InvariantKind::DerefOfNonPointer)),
        },
        Projection::Field(i) => match st {
            PlaceTyS::Ty(TyS::Struct { name, fields }) => if i < fields.len() {
                Ok(PlaceTyS::Ty(fields[i as int].1))
            } else {
                Err(LowerError::InvariantViolation(InvariantKind::FieldOutOfRange))
            },
            PlaceTyS::EnumVariant(TyS::Enum { name, variants }, v) => if v < variants.len() {
                if i < variants[v as int].fields.len() {
                    Ok(PlaceTyS::Ty(variants[v as int].fields[i as int].1))
                } else {
                    Err(LowerError::InvariantViolation(InvariantKind::FieldOutOfRange))
                }
            } else {
                Err(LowerError::InvariantViolation(InvariantKind::VariantOutOfRange))
            },
            _ => Err(LowerError::InvariantViolation(InvariantKind::NonAggregateFieldOwner)),
        },
        Projection::Index(_) => match index_elem_s(st) {
            Ok(e) => Ok(PlaceTyS::Ty(e)),
            Err(er) => Err(er),
        },
        Projection::ConstantIndex { offset, min_length: _, from_end: _ } => if offset > (
        i64::MAX as u64) {
            Err(LowerError::ScalarConversionFailure)
        } else {
            match index_elem_s(st) {
                Ok(e) => Ok(PlaceTyS::Ty(e)),
                Err(er) => Err(er),
            }
        },
        Projection::Subslice { .. } => Err(LowerError::UnsupportedProjection(elem)),
        Projection::Downcast(v) => match st {
            PlaceTyS::Ty(TyS::Enum { name, variants }) => if v < variants.len() {
                Ok(PlaceTyS::EnumVariant(TyS::Enum { name, variants }, v))
            } else {
                Err(LowerError::InvariantViolation(InvariantKind::VariantOutOfRange))
            },
            _ => Err(LowerError::InvariantViolation(InvariantKind::DowncastOfNonEnum)),
        },
    }
}

/// How many instructions one successful projection step emits.
pub open spec fn step_len_s(elem: Projection) -> int {
    match elem {
        Projection::Deref => 1,
        Projection::Field(_) => 1,
        Projection::Index(_) => 2,
        Projection::ConstantIndex { from_end, .. } => if from_end {
            4
        } else {
            2
        },
        Projection::Subslice { .. } => 0,
        Projection::Downcast(_) => 0,
    }
}

/// The call instruction of an indexed access against the indexable
/// type of `st`: a call of `get_Item` on the indexable's own type.
pub open spec fn index_call_ok_s(st: PlaceTyS, op: CILOp) -> bool {
    match st {
        PlaceTyS::Ty(t) => op matches CILOp::Call(cs) && cs.owner@ == il_name_s(t) && cs.name@
            == "get_Item"@,
        PlaceTyS::EnumVariant(..) => false,
    }
}

/// What the instructions of one successful projection step are,
/// exactly, given the state the step starts from.
pub open spec fn step_ops_ok_s(elem: Projection, st: PlaceTyS, arg_count: u32, ops: Seq<
    CILOp,
>) -> bool {
    match elem {
        Projection::Deref => ops =~= seq![CILOp::LDIndirect],
        Projection::Field(i) => match st {
            PlaceTyS::Ty(TyS::Struct { name, fields }) => ops.len() == 1 && (ops[0] matches
                CILOp::LDField(d) && d.owner@ == name && i < fields.len() && d.name@ == fields[i as int].0 && d.tpe.dv() == fields[i as int].1),
            PlaceTyS::EnumVariant(TyS::Enum { name, variants }, v) => ops.len() == 1 && (ops[0]
                matches CILOp::LDField(d) && v < variants.len() && i < variants[v as int].fields.len() && d.owner@ == name + "/"@ + variants[v as int].name && d.name@
                == variants[v as int].fields[i as int].0 && d.tpe.dv() == variants[v as int].fields[i as int].1),
            _ => false,
        },
        Projection::Index(local) => ops.len() == 2 && ops[0] == local_op_s(local, arg_count, true)
            && index_call_ok_s(st, ops[1]),
        Projection::ConstantIndex { offset, min_length: _, from_end } => if from_end {
            ops.len() == 4 && ops[0] == CILOp::LDLen && ops[1] == CILOp::LdcI64(offset as i64)
                && ops[2] == CILOp::Sub && index_call_ok_s(st, ops[3])
        } else {
            ops.len() == 2 && ops[0] == CILOp::LdcI64(offset as i64) && index_call_ok_s(st, ops[1])
        },
        Projection::Subslice { .. } => false,
        Projection::Downcast(_) => ops.len() == 0,
    }
}

/// Emits the indexed-access call against the indexable type of `curr`
/// and computes the element type addressed.
pub fn place_elem_get_at(curr: &PlaceTy) -> (r: Result<(CILOp, VariableType), LowerError>)
    ensures
        match r {
            Ok((op, elem)) => index_elem_s(curr.dv()) == Ok::<TyS, LowerError>(elem.dv())
                && index_call_ok_s(curr.dv(), op),
            Err(e) => index_elem_s(curr.dv()) == Err::<TyS, LowerError>(e),
        },
{
    match curr {
        PlaceTy::Ty(t) => {
            match t {
                VariableType::FixedArray { element, length: _ } => {
                    let owner = il_name(t);
                    let ec = clone_ty(element);
                    Ok((CILOp::Call(CallSite { owner, name: String::from_str("get_Item") }), ec))
                },
                VariableType::Slice(e) => {
                    let owner = il_name(t);
                    let ec = clone_ty(e);
                    Ok((CILOp::Call(CallSite { owner, name: String::from_str("get_Item") }), ec))
                },
                _ => Err(LowerError::InvariantViolation(InvariantKind::NotIndexable)),
            }
        },
        PlaceTy::EnumVariant(..) => Err(
            LowerError::InvariantViolation(InvariantKind::IndexIntoEnumVariant),
        ),
    }
}

/// Applies one projection to the current typed state: emits the
/// instructions implementing the projection and computes the next
/// state. A `Downcast` emits nothing (pure type narrowing); indexing a
/// place narrowed to a union variant is fatal; a sub-slice projection
/// is an unsupported shape.
pub fn place_elem_get(elem: &Projection, curr: &PlaceTy, arg_count: u32) -> (r: Result<
    (Vec<CILOp>, PlaceTy),
    LowerError,
>)
    ensures
        match r {
            Ok((ops, st2)) => step_next_s(*elem, curr.dv()) == Ok::<PlaceTyS, LowerError>(st2.dv())
                && step_ops_ok_s(*elem, curr.dv(), arg_count, ops@) && ops@.len() == step_len_s(
                *elem,
            ),
            Err(e) => step_next_s(*elem, curr.dv()) == Err::<PlaceTyS, LowerError>(e),
        },
{
    match elem {
        Projection::Deref => match curr {
            PlaceTy::Ty(VariableType::Pointer(t)) => {
                let mut ops: Vec<CILOp> = Vec::new();
                ops.push(CILOp::LDIndirect);
                let tc = clone_ty(t);
                proof {
                    assert(ops@ =~= seq![CILOp::LDIndirect]);
                }
                Ok((ops, PlaceTy::Ty(tc)))
            },
            _ => Err(LowerError::InvariantViolation(InvariantKind::DerefOfNonPointer)),
        },
        Projection::Field(i) => match curr {
            PlaceTy::Ty(VariableType::Struct { name, fields }) => {
                if (*i as usize) < fields.len() {
                    proof {
                        crate::ty::lemma_fields_dv(fields@);
                    }
                    let owner = name.clone();
                    let fname = fields[*i as usize].0.clone();
                    let ftype = clone_ty(&fields[*i as usize].1);
                    let fc = clone_ty(&fields[*i as usize].1);
                    let mut ops: Vec<CILOp> = Vec::new();
                    ops.push(CILOp::LDField(FieldDescriptor { owner, tpe: ftype, name: fname }));
                    Ok((ops, PlaceTy::Ty(fc)))
                } else {
                    proof {
                        crate::ty::lemma_fields_dv(fields@);
                    }
                    Err(LowerError::InvariantViolation(InvariantKind::FieldOutOfRange))
                }
            },
            PlaceTy::EnumVariant(VariableType::Enum { name, variants }, v) => {
                proof {
                    crate::ty::lemma_variants_dv(variants@);
                }
                if (*v as usize) < variants.len() {
                    proof {
                        crate::ty::lemma_fields_dv(variants@[*v as int].fields@);
                    }
                    if (*i as usize) < variants[*v as usize].fields.len() {
                        let mut owner = name.clone();
                        owner.append("/");
                        owner.append(variants[*v as usize].name.as_str());
                        let fname = variants[*v as usize].fields[*i as usize].0.clone();
                        let ftype = clone_ty(&variants[*v as usize].fields[*i as usize].1);
                        let fc = clone_ty(&variants[*v as usize].fields[*i as usize].1);
                        let mut ops: Vec<CILOp> = Vec::new();
                        ops.push(
                            CILOp::LDField(FieldDescriptor { owner, tpe: ftype, name: fname }),
                        );
                        Ok((ops, PlaceTy::Ty(fc)))
                    } else {
                        Err(LowerError::InvariantViolation(InvariantKind::FieldOutOfRange))
                    }
                } else {
                    Err(LowerError::InvariantViolation(InvariantKind::VariantOutOfRange))
                }
            },
            _ => Err(LowerError::InvariantViolation(InvariantKind::NonAggregateFieldOwner)),
        },
        Projection::Index(local) => {
            match place_elem_get_at(curr) {
                Ok((call, elem_ty)) => {
                    let mut ops: Vec<CILOp> = Vec::new();
                    ops.push(local_address(*local, arg_count));
                    ops.push(call);
                    Ok((ops, PlaceTy::Ty(elem_ty)))
                },
                Err(e) => Err(e),
            }
        },
        Projection::ConstantIndex { offset, min_length: _, from_end } => {
            if *offset > (i64::MAX as u64) {
                Err(LowerError::ScalarConversionFailure)
            } else {
                match place_elem_get_at(curr) {
                    Ok((call, elem_ty)) => {
                        let mut ops: Vec<CILOp> = Vec::new();
                        if !*from_end {
                            ops.push(CILOp::LdcI64(*offset as i64));
                        } else {
                            ops.push(CILOp::LDLen);
                            ops.push(CILOp::LdcI64(*offset as i64));
                            ops.push(CILOp::Sub);
                        }
                        ops.push(call);
                        Ok((ops, PlaceTy::Ty(elem_ty)))
                    },
                    Err(e) => Err(e),
                }
            }
        },
        Projection::Subslice { from, to, from_end } => Err(
            LowerError::UnsupportedProjection(
                Projection::Subslice { from: *from, to: *to, from_end: *from_end },
            ),
        ),
        Projection::Downcast(v) => match curr {
            PlaceTy::Ty(t) => match t {
                VariableType::Enum { name, variants } => {
                    proof {
                        crate::ty::lemma_variants_dv(variants@);
                    }
                    if (*v as usize) < variants.len() {
                        let ec = clone_ty(t);
                        let ops: Vec<CILOp> = Vec::new();
                        Ok((ops, PlaceTy::EnumVariant(ec, *v)))
                    } else {
                        Err(LowerError::InvariantViolation(InvariantKind::VariantOutOfRange))
                    }
                },
                _ => Err(LowerError::InvariantViolation(InvariantKind::DowncastOfNonEnum)),
            },
            PlaceTy::EnumVariant(..) => Err(
                LowerError::InvariantViolation(InvariantKind::DowncastOfNonEnum),
            ),
        },
    }
}

/// The state after applying the first `i` projections of `projs` to
/// `st0`.
pub open spec fn state_at_s(projs: Seq<Projection>, st0: PlaceTyS, i: int) -> Result<
    PlaceTyS,
    LowerError,
>
    decreases i,
{
    if i <= 0 {
        Ok(st0)
    } else {
        match state_at_s(projs, st0, i - 1) {
            Ok(st) => step_next_s(projs[i - 1], st),
            Err(e) => Err(e),
        }
    }
}

/// How many instructions the first `i` projections emit in all.
pub open spec fn offset_at_s(projs: Seq<Projection>, i: int) -> int
    decreases i,
{
    if i <= 0 {
        0
    } else {
        offset_at_s(projs, i - 1) + step_len_s(projs[i - 1])
    }
}

/// The `j`-th projection step of a resolved place is well formed: the
/// state before it is defined and the instructions in its slot of
/// `ops` (after the leading local access) are exactly its own.
pub open spec fn step_at_ok_s(projs: Seq<Projection>, m0: TyS, arg_count: u32, ops: Seq<CILOp>,
    j: int) -> bool {
    state_at_s(projs, PlaceTyS::Ty(m0), j) matches Ok(stj) && step_ops_ok_s(
        projs[j],
        stj,
        arg_count,
        ops.subrange(1 + offset_at_s(projs, j), 1 + offset_at_s(projs, j + 1)),
    )
}

/// The instruction sequence and final type of loading the value of
/// `place`: the access instruction for the base local, then the
/// instructions of each projection in order. The base local's declared
/// type is resolved under `subst` before the fold; a place that ends
/// narrowed to a union variant is no concrete value and is fatal, as
/// is every stepper failure — no instructions are handed out for a
/// place whose lowering fails.
#[verifier::rlimit(80)]
#[verifier::spinoff_prover]
pub fn place_get(place: &Place, local_types: &Vec<VariableType>, subst: &Vec<VariableType>,
    arg_count: u32) -> (r: Result<(Vec<CILOp>, VariableType), LowerError>)
    ensures
        ({
            let projs = place.projection@;
            let nloc = local_types@.len();
            match r {
                Ok((ops, t)) => place.local < nloc && if projs.len() == 0 {
                    ops@ =~= seq![local_op_s(place.local, arg_count, false)] && t.dv()
                        == local_types@[place.local as int].dv()
                } else {
                    mono_s(local_types@[place.local as int].dv(), subst_dv(subst@)) matches Ok(m0)
                        && state_at_s(projs, PlaceTyS::Ty(m0), projs.len() as int) == Ok::<
                        PlaceTyS,
                        LowerError,
                    >(PlaceTyS::Ty(t.dv())) && ops@.len() == 1 + offset_at_s(
                        projs,
                        projs.len() as int,
                    ) && ops@[0] == local_op_s(place.local, arg_count, false) && (forall|i: int|
                        0 <= i < projs.len() ==> #[trigger] step_at_ok_s(
                            projs,
                            m0,
                            arg_count,
                            ops@,
                            i,
                        ))
                },
                Err(e) => (place.local >= nloc && e == LowerError::InvariantViolation(
                    InvariantKind::LocalOutOfRange,
                )) || (place.local < nloc && projs.len() > 0 && ({
                    let md = mono_s(local_types@[place.local as int].dv(), subst_dv(subst@));
                    (md == Err::<TyS, LowerError>(e)) || (md matches Ok(m0) && ({
                        let fin = state_at_s(projs, PlaceTyS::Ty(m0), projs.len() as int);
                        (fin == Err::<PlaceTyS, LowerError>(e)) || (fin matches Ok(stf) && stf
                            matches PlaceTyS::EnumVariant(..) && e == LowerError::InvariantViolation(
                            InvariantKind::UndiscriminatedValue,
                        ))
                    }))
                })),
            }
        }),
{
    let nloc = local_types.len();
    if !((place.local as usize) < nloc) {
        return Err(LowerError::InvariantViolation(InvariantKind::LocalOutOfRange));
    }
    let mut ops: Vec<CILOp> = Vec::new();
    ops.push(local_get(place.local, arg_count));
    if place.projection.len() == 0 {
        let t = clone_ty(&local_types[place.local as usize]);
        proof {
            assert(ops@ =~= seq![local_op_s(place.local, arg_count, false)]);
        }
        return Ok((ops, t));
    }
    let m0 = match monomorphize(&local_types[place.local as usize], subst) {
        Ok(m) => m,
        Err(e) => {
            return Err(e);
        },
    };
    let ghost m0dv = m0.dv();
    let ghost projs = place.projection@;
    let mut st = PlaceTy::Ty(m0);
    let mut i: usize = 0;
    while i < place.projection.len()
        invariant
            i <= projs.len(),
            projs == place.projection@,
            projs.len() > 0,
            place.local < local_types@.len(),
            mono_s(local_types@[place.local as int].dv(), subst_dv(subst@)) == Ok::<
                TyS,
                LowerError,
            >(m0dv),
            state_at_s(projs, PlaceTyS::Ty(m0dv), i as int) == Ok::<PlaceTyS, LowerError>(st.dv()),
            ops@.len() == 1 + offset_at_s(projs, i as int),
            ops@[0] == local_op_s(place.local, arg_count, false),
            forall|j: int|
                0 <= j < i as int ==> #[trigger] step_at_ok_s(projs, m0dv, arg_count, ops@, j),
        decreases projs.len() - i,
    {
        let ghost ops_before = ops@;
        let ghost st_before = st.dv();
        match place_elem_get(&place.projection[i], &st, arg_count) {
            Ok((mut step_ops, st2)) => {
                let ghost sov = step_ops@;
                ops.append(&mut step_ops);
                st = st2;
                proof {
                    assert(ops@ == ops_before + sov);
                    lemma_offset_at_nonneg(projs, i as int);
                    assert(ops@[0] == ops_before[0]);
                    assert forall|j: int| 0 <= j < i as int + 1 implies #[trigger] step_at_ok_s(
                        projs,
                        m0dv,
                        arg_count,
                        ops@,
                        j,
                    ) by {
                        lemma_offset_at_nonneg(projs, j);
                        lemma_offset_at_mono(projs, j + 1, i as int + 1);
                        if j < i as int {
                            lemma_offset_at_mono(projs, j + 1, i as int);
                            assert(step_at_ok_s(projs, m0dv, arg_count, ops_before, j));
                            assert(ops@.subrange(
                                1 + offset_at_s(projs, j),
                                1 + offset_at_s(projs, j + 1),
                            ) =~= ops_before.subrange(
                                1 + offset_at_s(projs, j),
                                1 + offset_at_s(projs, j + 1),
                            ));
                        } else {
                            assert(ops@.subrange(
                                1 + offset_at_s(projs, j),
                                1 + offset_at_s(projs, j + 1),
                            ) =~= sov);
                        }
                    }
                }
                i = i + 1;
            },
            Err(e) => {
                proof {
                    assert(state_at_s(projs, PlaceTyS::Ty(m0dv), i as int) == Ok::<
                        PlaceTyS,
                        LowerError,
                    >(st.dv()));
                    assert(state_at_s(projs, PlaceTyS::Ty(m0dv), i as int + 1) == Err::<
                        PlaceTyS,
                        LowerError,
                    >(e));
                    lemma_state_at_err(projs, PlaceTyS::Ty(m0dv), i as int + 1,
                        projs.len() as int);
                    assert(state_at_s(projs, PlaceTyS::Ty(m0dv), projs.len() as int) == Err::<
                        PlaceTyS,
                        LowerError,
                    >(e));
                }
                return Err(e);
            },
        }
    }
    match st {
        PlaceTy::Ty(t) => Ok((ops, t)),
        PlaceTy::EnumVariant(..) => Err(
            LowerError::InvariantViolation(InvariantKind::UndiscriminatedValue),
        ),
    }
}

/// Instruction offsets are nonnegative and never shrink.
pub proof fn lemma_offset_at_nonneg(projs: Seq<Projection>, i: int)
    ensures
        offset_at_s(projs, i) >= 0,
    decreases i,
{
    if i > 0 {
        lemma_offset_at_nonneg(projs, i - 1);
    }
}

/// Instruction offsets grow with the projection index.
pub proof fn lemma_offset_at_mono(projs: Seq<Projection>, i: int, k: int)
    requires
        i <= k,
    ensures
        offset_at_s(projs, i) <= offset_at_s(projs, k),
    decreases k - i,
{
    if i < k {
        lemma_offset_at_mono(projs, i, k - 1);
    }
}


/// A stepper failure at any prefix is the failure of the whole fold.
pub proof fn lemma_state_at_err(projs: Seq<Projection>, st0: PlaceTyS, i: int, k: int)
    requires
        i <= k,
        state_at_s(projs, st0, i) is Err,
    ensures
        state_at_s(projs, st0, k) == state_at_s(projs, st0, i),
    decreases k - i,
{
    if i < k {
        lemma_state_at_err(projs, st0, i + 1, k);
    }
}


/// The value an index-computation prefix leaves on the target's
/// stack, evaluated over `i64` machine words: `LDLen` pushes the
/// runtime length, `ldc` pushes its constant, `sub` subtracts the top
/// from the value under it. `None` where the sequence is not such a
/// prefix, a value overflows the word, or it leaves no single value.
pub open spec fn eval_index_s(ops: Seq<CILOp>, len_value: u64, i: int, stack: Seq<int>) -> Option<
    int,
>
    decreases ops.len() - i,
{
    if i < 0 || i >= ops.len() {
        if stack.len() == 1 {
            Some(stack[0])
        } else {
            None
        }
    } else {
        match ops[i] {
            CILOp::LDLen => if len_value > i64::MAX {
                None
            } else {
                eval_index_s(ops, len_value, i + 1, stack.push(len_value as int))
            },
            CILOp::LdcI64(v) => eval_index_s(ops, len_value, i + 1, stack.push(v as int)),
            CILOp::Sub => if stack.len() >= 2 {
                if stack[stack.len() - 2] - stack[stack.len() - 1] > i64::MAX || stack[stack.len()
                    - 2] - stack[stack.len() - 1] < i64::MIN {
                    None
                } else {
                    eval_index_s(
                        ops,
                        len_value,
                        i + 1,
                        stack.take(stack.len() - 2).push(
                            stack[stack.len() - 2] - stack[stack.len() - 1],
                        ),
                    )
                }
            } else {
                None
            },
            _ => None,
        }
    }
}

/// Evaluates an index-computation prefix against a given runtime
/// length.
pub fn eval_index_ops(ops: &Vec<CILOp>, len_value: u64) -> (r: Option<i64>)
    ensures
        match r {
            Some(v) => eval_index_s(ops@, len_value, 0, Seq::empty()) == Some(v as int),
            None => eval_index_s(ops@, len_value, 0, Seq::empty()) is None,
        },
{
    let mut stack: Vec<i64> = Vec::new();
    let mut i: usize = 0;
    proof {
        assert(Seq::new(stack@.len(), |k: int| stack@[k] as int) =~= Seq::<int>::empty());
    }
    while i < ops.len()
        invariant
            i <= ops@.len(),
            eval_index_s(ops@, len_value, 0, Seq::empty()) == eval_index_s(
                ops@,
                len_value,
                i as int,
                Seq::new(stack@.len(), |k: int| stack@[k] as int),
            ),
        decreases ops@.len() - i,
    {
        let ghost sdv = Seq::new(stack@.len(), |k: int| stack@[k] as int);
        match &ops[i] {
            CILOp::LDLen => {
                if len_value > (i64::MAX as u64) {
                    return None;
                }
                stack.push(len_value as i64);
                proof {
                    assert(Seq::new(stack@.len(), |k: int| stack@[k] as int) =~= sdv.push(
                        len_value as int,
                    ));
                }
            },
            CILOp::LdcI64(v) => {
                let vv = *v;
                stack.push(vv);
                proof {
                    assert(Seq::new(stack@.len(), |k: int| stack@[k] as int) =~= sdv.push(
                        vv as int,
                    ));
                }
            },
            CILOp::Sub => {
                if stack.len() < 2 {
                    return None;
                }
                let b = stack[stack.len() - 1];
                let a = stack[stack.len() - 2];
                match a.checked_sub(b) {
                    Some(d) => {
                        let _ = stack.pop();
                        let _ = stack.pop();
                        stack.push(d);
                        proof {
                            assert(Seq::new(stack@.len(), |k: int| stack@[k] as int) =~= sdv.take(
                                sdv.len() - 2,
                            ).push(a as int - b as int));
                        }
                    },
                    None => {
                        return None;
                    },
                }
            },
            _ => {
                return None;
            },
        }
        i = i + 1;
    }
    if stack.len() == 1 {
        Some(stack[0])
    } else {
        None
    }
}

/// Constant-index-from-end arithmetic: the three instructions emitted
/// for a `from_end` constant index compute `length - offset`, for
/// every runtime length and offset the instruction words can hold.
pub proof fn lemma_from_end_index(len_value: u64, offset: u64)
    requires
        len_value <= i64::MAX,
        offset <= i64::MAX,
    ensures
        eval_index_s(
            seq![CILOp::LDLen, CILOp::LdcI64(offset as i64), CILOp::Sub],
            len_value,
            0,
            Seq::empty(),
        ) == Some(len_value - offset),
{
    let ops = seq![CILOp::LDLen, CILOp::LdcI64(offset as i64), CILOp::Sub];
    let s0 = Seq::<int>::empty();
    let s1 = s0.push(len_value as int);
    let s2 = s1.push(offset as int);
    let s3 = s2.take(0).push(len_value - offset);
    assert(eval_index_s(ops, len_value, 0, s0) == eval_index_s(ops, len_value, 1, s1));
    assert(eval_index_s(ops, len_value, 1, s1) == eval_index_s(ops, len_value, 2, s2));
    assert(s2[0] == len_value as int && s2[1] == offset as int && s2.len() == 2);
    assert(eval_index_s(ops, len_value, 2, s2) == eval_index_s(ops, len_value, 3, s3));
    assert(s3.len() == 1 && s3[0] == len_value - offset);
}

/// Indexing a place narrowed to a union variant is fatal: both
/// `Index` and `ConstantIndex` (with an offset the instruction word
/// can hold) raise an invariant violation on an `EnumVariant` state,
/// so no instructions are emitted for such a place.
pub proof fn lemma_index_into_variant_fatal(elem: Projection, t: TyS, v: u32)
    requires
        elem matches Projection::Index(_) || (elem matches Projection::ConstantIndex {
            offset,
            ..
        } && offset <= i64::MAX),
    ensures
        step_next_s(elem, PlaceTyS::EnumVariant(t, v)) == Err::<PlaceTyS, LowerError>(
            LowerError::InvariantViolation(InvariantKind::IndexIntoEnumVariant),
        ),
{
}

} // verus!
