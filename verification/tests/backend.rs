use cil_backend::assembly::{Assembly, CLRType};
use cil_backend::cil::{CILOp, CLRMethod, FieldDescriptor, CallSite};
use cil_backend::ir::{InvariantKind, LowerError, Place, PlaceTy, Projection};
use cil_backend::place::{eval_index_ops, local_address, local_get, place_elem_get, place_get};
use cil_backend::ty::{il_name, monomorphize, size_of, ty_eq, PrimTy, VariableType, VariantDef};

fn i32_ty() -> VariableType {
    VariableType::Primitive(PrimTy::I32)
}

fn i64_ty() -> VariableType {
    VariableType::Primitive(PrimTy::I64)
}

fn arr_i32_4() -> VariableType {
    VariableType::FixedArray { element: Box::new(i32_ty()), length: 4 }
}

fn slice_i64() -> VariableType {
    VariableType::Slice(Box::new(i64_ty()))
}

fn point_ty() -> VariableType {
    VariableType::Struct {
        name: String::from("Point"),
        fields: vec![
            (String::from("x"), i32_ty()),
            (String::from("y"), i32_ty()),
        ],
    }
}

fn enum_e() -> VariableType {
    VariableType::Enum {
        name: String::from("E"),
        variants: vec![
            VariantDef { name: String::from("A"), fields: vec![] },
            VariantDef { name: String::from("B"), fields: vec![(String::from("x"), i32_ty())] },
        ],
    }
}

fn no_subst() -> Vec<VariableType> {
    Vec::new()
}

#[test]
fn register_array_idempotent() {
    let mut unit = Assembly::new("unit");
    let n1 = unit.add_type(&arr_i32_4(), &no_subst()).unwrap();
    assert_eq!(unit.types.len(), 1);
    let first_def = unit.types[0].def.get_def(&unit.types[0].name);
    let n2 = unit.add_type(&arr_i32_4(), &no_subst()).unwrap();
    assert_eq!(n1, n2);
    assert_eq!(unit.types.len(), 1);
    let second_def = unit.types[0].def.get_def(&unit.types[0].name);
    assert_eq!(first_def, second_def);
}

#[test]
fn canonical_name_slice() {
    let a = slice_i64();
    let b = VariableType::Slice(Box::new(VariableType::Primitive(PrimTy::I64)));
    assert_eq!(il_name(&a), "RSlice_int64");
    assert_eq!(il_name(&a), il_name(&b));
    let mut unit = Assembly::new("unit");
    unit.add_type(&a, &no_subst()).unwrap();
    unit.add_type(&b, &no_subst()).unwrap();
    assert_eq!(unit.types.len(), 1);
    assert_eq!(unit.types[0].name, "RSlice_int64");
}

#[test]
fn canonical_name_array() {
    assert_eq!(il_name(&arr_i32_4()), "RArray_int32_4");
    assert_eq!(
        il_name(&VariableType::Pointer(Box::new(i32_ty()))),
        "int32*"
    );
}

#[test]
fn local_addressing_bands() {
    // argCount = 2: local 0 is the return slot, locals 1 and 2 the two
    // argument slots, local 3 the first local-variable slot.
    assert_eq!(local_get(0, 2), CILOp::LDLoc(0));
    assert_eq!(local_get(1, 2), CILOp::LDArg(0));
    assert_eq!(local_get(2, 2), CILOp::LDArg(1));
    assert_eq!(local_get(3, 2), CILOp::LDLoc(1));
    assert_eq!(local_address(0, 2), CILOp::LDLocA(0));
    assert_eq!(local_address(3, 2), CILOp::LDLocA(1));
}

#[test]
fn field_round_trip() {
    // place = local 2 (second argument) .Field(1) on Point{x,y}.
    let locals = vec![i32_ty(), i32_ty(), point_ty()];
    let place = Place { local: 2, projection: vec![Projection::Field(1)] };
    let (ops, t) = place_get(&place, &locals, &no_subst(), 2).unwrap();
    assert_eq!(
        ops,
        vec![
            CILOp::LDArg(1),
            CILOp::LDField(FieldDescriptor {
                owner: String::from("Point"),
                tpe: i32_ty(),
                name: String::from("y"),
            }),
        ]
    );
    assert!(ty_eq(&t, &i32_ty()));
}

#[test]
fn constant_index_from_end_arithmetic() {
    let st = PlaceTy::Ty(slice_i64());
    let elem = Projection::ConstantIndex { offset: 2, min_length: 0, from_end: true };
    let (mut ops, _) = place_elem_get(&elem, &st, 0).unwrap();
    assert_eq!(ops.len(), 4);
    let call = ops.pop().unwrap();
    assert_eq!(
        call,
        CILOp::Call(CallSite { owner: String::from("RSlice_int64"), name: String::from("get_Item") })
    );
    // For runtime length 10 and offset 2 counted from the end, the
    // emitted arithmetic computes index 8.
    assert_eq!(eval_index_ops(&ops, 10), Some(8));
}

#[test]
fn constant_index_from_front() {
    let st = PlaceTy::Ty(arr_i32_4());
    let elem = Projection::ConstantIndex { offset: 3, min_length: 0, from_end: false };
    let (ops, _) = place_elem_get(&elem, &st, 0).unwrap();
    assert_eq!(ops.len(), 2);
    assert_eq!(ops[0], CILOp::LdcI64(3));
}

#[test]
fn array_synthesis_total_size() {
    let mut unit = Assembly::new("unit");
    unit.add_type(&arr_i32_4(), &no_subst()).unwrap();
    assert_eq!(unit.types.len(), 1);
    assert_eq!(
        unit.types[0].def,
        CLRType::Array { element: i32_ty(), length: 4, total_size: 16 }
    );
    let text = unit.types[0].def.get_def("RArray_int32_4");
    assert_eq!(
        text,
        ".class public sequential RArray_int32_4 extends [System.Runtime]System.ValueType{\n\t.pack 0\n\t.size 16\n\t.field public int32 arr\n}\n"
    );
}

#[test]
fn slice_synthesis_two_fields() {
    let mut unit = Assembly::new("unit");
    unit.add_type(&slice_i64(), &no_subst()).unwrap();
    assert_eq!(unit.types.len(), 1);
    assert_eq!(unit.types[0].def, CLRType::Slice(i64_ty()));
    let text = unit.types[0].def.get_def("RSlice_int64");
    assert_eq!(
        text,
        ".class public sequential RSlice_int64 extends [System.Runtime]System.ValueType{\n\t.field public int64* ptr\n\t.field public native int cap\n}\n"
    );
}

#[test]
fn struct_synthesis_fields_populated() {
    let mut unit = Assembly::new("unit");
    unit.add_type(&point_ty(), &no_subst()).unwrap();
    assert_eq!(unit.types.len(), 1);
    let text = unit.types[0].def.get_def("Point");
    assert_eq!(
        text,
        ".class public sequential Point extends [System.Runtime]System.ValueType{\n\t.field public int32 x\n\t.field public int32 y\n}\n"
    );
}

#[test]
fn enum_variant_field_access() {
    // place = local .Downcast(1) .Field(0) on enum E: one single
    // load-field, owner path qualified by the variant sub-type name,
    // and nothing emitted for the downcast itself.
    let locals = vec![i32_ty(), enum_e()];
    let place =
        Place { local: 1, projection: vec![Projection::Downcast(1), Projection::Field(0)] };
    let (ops, t) = place_get(&place, &locals, &no_subst(), 1).unwrap();
    assert_eq!(
        ops,
        vec![
            CILOp::LDArg(0),
            CILOp::LDField(FieldDescriptor {
                owner: String::from("E/B"),
                tpe: i32_ty(),
                name: String::from("x"),
            }),
        ]
    );
    assert!(ty_eq(&t, &i32_ty()));
}

#[test]
fn index_into_enum_variant_is_fatal() {
    let locals = vec![enum_e()];
    let place =
        Place { local: 0, projection: vec![Projection::Downcast(0), Projection::Index(1)] };
    let r = place_get(&place, &locals, &no_subst(), 0);
    assert_eq!(
        r,
        Err(LowerError::InvariantViolation(InvariantKind::IndexIntoEnumVariant))
    );
    let place2 = Place {
        local: 0,
        projection: vec![
            Projection::Downcast(0),
            Projection::ConstantIndex { offset: 0, min_length: 0, from_end: false },
        ],
    };
    let r2 = place_get(&place2, &locals, &no_subst(), 0);
    assert_eq!(
        r2,
        Err(LowerError::InvariantViolation(InvariantKind::IndexIntoEnumVariant))
    );
}

#[test]
fn subslice_is_unsupported() {
    let locals = vec![slice_i64()];
    let proj = Projection::Subslice { from: 0, to: 1, from_end: false };
    let place = Place { local: 0, projection: vec![proj] };
    let r = place_get(&place, &locals, &no_subst(), 0);
    assert_eq!(r, Err(LowerError::UnsupportedProjection(proj)));
}

#[test]
fn deref_steps_into_pointee() {
    let locals = vec![VariableType::Pointer(Box::new(point_ty()))];
    let place = Place { local: 0, projection: vec![Projection::Deref] };
    let (ops, t) = place_get(&place, &locals, &no_subst(), 0).unwrap();
    assert_eq!(ops, vec![CILOp::LDLoc(0), CILOp::LDIndirect]);
    assert!(ty_eq(&t, &point_ty()));
}

#[test]
fn empty_projection_loads_local() {
    let locals = vec![i32_ty(), i64_ty()];
    let place = Place { local: 1, projection: vec![] };
    let (ops, t) = place_get(&place, &locals, &no_subst(), 0).unwrap();
    assert_eq!(ops, vec![CILOp::LDLoc(1)]);
    assert!(ty_eq(&t, &i64_ty()));
}

#[test]
fn local_out_of_range_is_fatal() {
    let locals = vec![i32_ty()];
    let place = Place { local: 7, projection: vec![] };
    let r = place_get(&place, &locals, &no_subst(), 0);
    assert_eq!(r, Err(LowerError::InvariantViolation(InvariantKind::LocalOutOfRange)));
}

#[test]
fn monomorphize_substitutes_params() {
    let generic = VariableType::Struct {
        name: String::from("Wrap"),
        fields: vec![(String::from("v"), VariableType::GenericParam(0))],
    };
    let subst = vec![i64_ty()];
    let m = monomorphize(&generic, &subst).unwrap();
    let expected = VariableType::Struct {
        name: String::from("Wrap"),
        fields: vec![(String::from("v"), i64_ty())],
    };
    assert!(ty_eq(&m, &expected));
    let missing = monomorphize(&generic, &no_subst());
    assert_eq!(
        missing,
        Err(LowerError::InvariantViolation(InvariantKind::MissingSubstitution))
    );
}

#[test]
fn size_of_basics() {
    assert_eq!(size_of(&i32_ty()), Ok(4));
    assert_eq!(size_of(&point_ty()), Ok(8));
    assert_eq!(size_of(&slice_i64()), Ok(16));
    assert_eq!(size_of(&arr_i32_4()), Ok(16));
    assert_eq!(
        size_of(&enum_e()),
        Err(LowerError::InvariantViolation(InvariantKind::UnsizedElement))
    );
}

#[test]
fn array_size_overflow_is_fatal() {
    let huge = VariableType::FixedArray { element: Box::new(i64_ty()), length: u64::MAX / 2 };
    let r = size_of(&huge);
    assert_eq!(r, Err(LowerError::ScalarConversionFailure));
    let mut unit = Assembly::new("unit");
    let reg = unit.add_type(&huge, &no_subst());
    assert_eq!(reg, Err(LowerError::ScalarConversionFailure));
}

#[test]
fn assembly_name_is_sanitized() {
    let unit = Assembly::new("my-unit.extra.rs");
    assert_eq!(unit.name(), "my_unit");
    let plain = Assembly::new("plain");
    assert_eq!(plain.name(), "plain");
}

#[test]
fn name_collision_is_fatal() {
    let mut unit = Assembly::new("unit");
    let a = VariableType::Struct {
        name: String::from("S"),
        fields: vec![(String::from("x"), i32_ty())],
    };
    let b = VariableType::Struct {
        name: String::from("S"),
        fields: vec![(String::from("x"), i64_ty())],
    };
    unit.add_type(&a, &no_subst()).unwrap();
    let r = unit.add_type(&b, &no_subst());
    assert_eq!(r, Err(LowerError::NameCollision));
}

#[test]
fn link_merges_and_detects_conflicts() {
    let mut a = Assembly::new("a");
    a.add_type(&arr_i32_4(), &no_subst()).unwrap();
    let mut b = Assembly::new("b");
    b.add_type(&arr_i32_4(), &no_subst()).unwrap();
    b.add_type(&slice_i64(), &no_subst()).unwrap();
    b.add_method(CLRMethod::new("f"));
    a.link(b).unwrap();
    assert_eq!(a.types.len(), 2);
    assert_eq!(a.methods.len(), 1);

    let mut c = Assembly::new("c");
    c.add_type(
        &VariableType::Struct { name: String::from("S"), fields: vec![] },
        &no_subst(),
    )
    .unwrap();
    let mut d = Assembly::new("d");
    d.add_type(
        &VariableType::Struct {
            name: String::from("S"),
            fields: vec![(String::from("x"), i32_ty())],
        },
        &no_subst(),
    )
    .unwrap();
    assert_eq!(c.link(d), Err(LowerError::NameCollision));
}

#[test]
fn register_struct_registers_field_aggregates_first() {
    let outer = VariableType::Struct {
        name: String::from("Outer"),
        fields: vec![(String::from("a"), arr_i32_4())],
    };
    let mut unit = Assembly::new("unit");
    unit.add_type(&outer, &no_subst()).unwrap();
    assert_eq!(unit.types.len(), 2);
    assert_eq!(unit.types[0].name, "RArray_int32_4");
    assert_eq!(unit.types[1].name, "Outer");
}

#[test]
fn add_types_from_locals_walks_table() {
    let locals = vec![i32_ty(), arr_i32_4(), slice_i64()];
    let mut unit = Assembly::new("unit");
    unit.add_types_from_locals(&locals, &no_subst()).unwrap();
    assert_eq!(unit.types.len(), 2);
}

#[test]
fn into_il_ir_serializes_unit() {
    let mut unit = Assembly::new("unit");
    unit.add_type(&slice_i64(), &no_subst()).unwrap();
    let mut m = CLRMethod::new("f");
    m.push_op(CILOp::LDArg(0));
    m.push_op(CILOp::LdcI64(2));
    m.push_op(CILOp::Sub);
    unit.add_method(m);
    let text = unit.into_il_ir();
    let mut expected = String::new();
    expected.push_str(".assembly unit{}\n");
    expected.push_str(
        ".class public sequential RSlice_int64 extends [System.Runtime]System.ValueType{\n",
    );
    expected.push_str("\t.field public int64* ptr\n\t.field public native int cap\n}\n");
    expected.push_str("\n");
    expected.push_str(".method public static ret f{\n");
    expected.push_str("\tldarg 0\n\tldc.i8 2\n\tsub\n}\n");
    assert_eq!(text, expected);
}

#[test]
fn op_text_renders_fields_and_calls() {
    let op = CILOp::LDField(FieldDescriptor {
        owner: String::from("E/B"),
        tpe: i32_ty(),
        name: String::from("x"),
    });
    assert_eq!(cil_backend::cil::op_text(&op), "ldfld int32 E/B::x");
    let neg = CILOp::LdcI64(-5);
    assert_eq!(cil_backend::cil::op_text(&neg), "ldc.i8 -5");
}

#[test]
fn pointer_registration_recurses_into_pointee() {
    let mut unit = Assembly::new("unit");
    unit.add_type(&VariableType::Pointer(Box::new(slice_i64())), &no_subst()).unwrap();
    assert_eq!(unit.types.len(), 1);
    assert_eq!(unit.types[0].name, "RSlice_int64");
}

#[test]
fn deref_of_non_pointer_is_fatal() {
    let st = PlaceTy::Ty(i32_ty());
    let r = place_elem_get(&Projection::Deref, &st, 0);
    assert_eq!(r, Err(LowerError::InvariantViolation(InvariantKind::DerefOfNonPointer)));
}

#[test]
fn field_errors() {
    // A field index past the owner's field list.
    let st = PlaceTy::Ty(point_ty());
    let r = place_elem_get(&Projection::Field(5), &st, 0);
    assert_eq!(r, Err(LowerError::InvariantViolation(InvariantKind::FieldOutOfRange)));
    // A field of a non-aggregate owner.
    let st2 = PlaceTy::Ty(i32_ty());
    let r2 = place_elem_get(&Projection::Field(0), &st2, 0);
    assert_eq!(r2, Err(LowerError::InvariantViolation(InvariantKind::NonAggregateFieldOwner)));
}

#[test]
fn downcast_errors() {
    // A variant the union does not have.
    let st = PlaceTy::Ty(enum_e());
    let r = place_elem_get(&Projection::Downcast(9), &st, 0);
    assert_eq!(r, Err(LowerError::InvariantViolation(InvariantKind::VariantOutOfRange)));
    // A downcast of a non-union type.
    let st2 = PlaceTy::Ty(i32_ty());
    let r2 = place_elem_get(&Projection::Downcast(0), &st2, 0);
    assert_eq!(r2, Err(LowerError::InvariantViolation(InvariantKind::DowncastOfNonEnum)));
}

#[test]
fn indexing_non_indexable_is_fatal() {
    let st = PlaceTy::Ty(i32_ty());
    let r = place_elem_get(&Projection::Index(1), &st, 0);
    assert_eq!(r, Err(LowerError::InvariantViolation(InvariantKind::NotIndexable)));
}

#[test]
fn undiscriminated_union_is_no_value() {
    // A place whose projections end in a bare downcast resolves to a
    // union narrowed to a variant, not a concrete value.
    let locals = vec![enum_e()];
    let place = Place { local: 0, projection: vec![Projection::Downcast(0)] };
    let r = place_get(&place, &locals, &no_subst(), 0);
    assert_eq!(r, Err(LowerError::InvariantViolation(InvariantKind::UndiscriminatedValue)));
}

#[test]
fn index_emits_address_then_accessor_call() {
    let locals = vec![i32_ty(), arr_i32_4(), VariableType::Primitive(PrimTy::USize)];
    let place = Place { local: 1, projection: vec![Projection::Index(2)] };
    let (ops, t) = place_get(&place, &locals, &no_subst(), 0).unwrap();
    assert_eq!(
        ops,
        vec![
            CILOp::LDLoc(1),
            CILOp::LDLocA(2),
            CILOp::Call(CallSite {
                owner: String::from("RArray_int32_4"),
                name: String::from("get_Item"),
            }),
        ]
    );
    assert!(ty_eq(&t, &i32_ty()));
}

#[test]
fn huge_constant_index_offset_is_fatal() {
    let st = PlaceTy::Ty(slice_i64());
    let elem = Projection::ConstantIndex { offset: u64::MAX, min_length: 0, from_end: false };
    let r = place_elem_get(&elem, &st, 0);
    assert_eq!(r, Err(LowerError::ScalarConversionFailure));
}

#[test]
fn chained_projections_fold_left_to_right() {
    // local 1 : *Point ; place = local .Deref .Field(0)
    let locals = vec![i32_ty(), VariableType::Pointer(Box::new(point_ty()))];
    let place = Place { local: 1, projection: vec![Projection::Deref, Projection::Field(0)] };
    let (ops, t) = place_get(&place, &locals, &no_subst(), 0).unwrap();
    assert_eq!(
        ops,
        vec![
            CILOp::LDLoc(1),
            CILOp::LDIndirect,
            CILOp::LDField(FieldDescriptor {
                owner: String::from("Point"),
                tpe: i32_ty(),
                name: String::from("x"),
            }),
        ]
    );
    assert!(ty_eq(&t, &i32_ty()));
}

#[test]
fn assembly_name_stops_at_leading_dot() {
    let unit = Assembly::new(".hidden");
    assert_eq!(unit.name(), "");
}

#[test]
fn link_concatenates_methods_in_order() {
    let mut a = Assembly::new("a");
    a.add_method(CLRMethod::new("first"));
    let mut b = Assembly::new("b");
    b.add_method(CLRMethod::new("second"));
    b.add_method(CLRMethod::new("third"));
    a.link(b).unwrap();
    let names: Vec<&str> = a.methods.iter().map(|m| m.name.as_str()).collect();
    assert_eq!(names, vec!["first", "second", "third"]);
}

#[test]
fn generic_local_resolved_before_fold() {
    // local 1 : Wrap<T0> with T0 := Point; field 0 of the resolved
    // struct is a Point.
    let generic = VariableType::Struct {
        name: String::from("Wrap"),
        fields: vec![(String::from("v"), VariableType::GenericParam(0))],
    };
    let locals = vec![i32_ty(), generic];
    let subst = vec![point_ty()];
    let place = Place { local: 1, projection: vec![Projection::Field(0)] };
    let (ops, t) = place_get(&place, &locals, &subst, 0).unwrap();
    assert_eq!(
        ops,
        vec![
            CILOp::LDLoc(1),
            CILOp::LDField(FieldDescriptor {
                owner: String::from("Wrap"),
                tpe: point_ty(),
                name: String::from("v"),
            }),
        ]
    );
    assert!(ty_eq(&t, &point_ty()));
}
