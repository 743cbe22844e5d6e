//! The instruction sink's vocabulary: the opcodes the place-lowering
//! engine emits, their textual IL rendering, and the method bodies that
//! accumulate them.

use vstd::prelude::*;
use crate::strutil::{dec_str_s, dec_str_signed_s, u64_to_dec, i64_to_dec};
use crate::ty::{VariableType, il_name_s, il_name};

verus! {

/// Names a field of a value type: the owning type's (possibly
/// variant-qualified) path, the field's type, and the field's name.
#[derive(Debug, PartialEq, Eq)]
pub struct FieldDescriptor {
    pub owner: String,
    pub tpe: VariableType,
    pub name: String,
}

/// Names a method to call: the owning type's path and the method name.
#[derive(Debug, PartialEq, Eq)]
pub struct CallSite {
    pub owner: String,
    pub name: String,
}

/// One opcode of the stack-based target, by name and operand.
#[derive(Debug, PartialEq, Eq)]
pub enum CILOp {
    /// Load the value of the given local-variable slot (slot 0 holds
    /// the return value).
    LDLoc(u32),
    /// Load the value of the given argument slot.
    LDArg(u32),
    /// Load the address of the given local-variable slot.
    LDLocA(u32),
    /// Load the address of the given argument slot.
    LDArgA(u32),
    /// Load the named field of the aggregate on the stack.
    LDField(FieldDescriptor),
    /// Load a constant integer.
    LdcI64(i64),
    /// Subtract the two topmost stack values.
    Sub,
    /// Load the runtime length of the indexable value on the stack.
    LDLen,
    /// Load the value behind the address on the stack.
    LDIndirect,
    /// Call the named method (an element accessor).
    Call(CallSite),
}

/// The IL text of one opcode.
pub open spec fn op_text_s(op: CILOp) -> Seq<char> {
    match op {
        CILOp::LDLoc(n) => "ldloc "@ + dec_str_s(n as nat),
        CILOp::LDArg(n) => "ldarg "@ + dec_str_s(n as nat),
        CILOp::LDLocA(n) => "ldloca "@ + dec_str_s(n as nat),
        CILOp::LDArgA(n) => "ldarga "@ + dec_str_s(n as nat),
        CILOp::LDField(d) => "ldfld "@ + il_name_s(d.tpe.dv()) + " "@ + d.owner@ + "::"@
            + d.name@,
        CILOp::LdcI64(v) => "ldc.i8 "@ + dec_str_signed_s(v as int),
        CILOp::Sub => "sub"@,
        CILOp::LDLen => "ldlen"@,
        CILOp::LDIndirect => "ldobj"@,
        CILOp::Call(cs) => "call "@ + cs.owner@ + "::"@ + cs.name@,
    }
}

/// Renders one opcode as IL text.
pub fn op_text(op: &CILOp) -> (r: String)
    ensures
        r@ == op_text_s(*op),
{
    match op {
        CILOp::LDLoc(n) => {
            let mut s = String::from_str("ldloc ");
            let d = u64_to_dec(*n as u64);
            s.append(d.as_str());
            s
        },
        CILOp::LDArg(n) => {
            let mut s = String::from_str("ldarg ");
            let d = u64_to_dec(*n as u64);
            s.append(d.as_str());
            s
        },
        CILOp::LDLocA(n) => {
            let mut s = String::from_str("ldloca ");
            let d = u64_to_dec(*n as u64);
            s.append(d.as_str());
            s
        },
        CILOp::LDArgA(n) => {
            let mut s = String::from_str("ldarga ");
            let d = u64_to_dec(*n as u64);
            s.append(d.as_str());
            s
        },
        CILOp::LDField(d) => {
            let mut s = String::from_str("ldfld ");
            let tn = il_name(&d.tpe);
            s.append(tn.as_str());
            s.append(" ");
            s.append(d.owner.as_str());
            s.append("::");
            s.append(d.name.as_str());
            s
        },
        CILOp::LdcI64(v) => {
            let mut s = String::from_str("ldc.i8 ");
            let d = i64_to_dec(*v);
            s.append(d.as_str());
            s
        },
        CILOp::Sub => String::from_str("sub"),
        CILOp::LDLen => String::from_str("ldlen"),
        CILOp::LDIndirect => String::from_str("ldobj"),
        CILOp::Call(cs) => {
            let mut s = String::from_str("call ");
            s.append(cs.owner.as_str());
            s.append("::");
            s.append(cs.name.as_str());
            s
        },
    }
}

/// A lowered method body: its name and its accumulated instructions.
#[derive(Debug, PartialEq, Eq)]
pub struct CLRMethod {
    pub name: String,
    pub ops: Vec<CILOp>,
}

/// The IL text of a method's instructions from index `i` on: one
/// indented line per opcode.
pub open spec fn ops_text_s(ops: Seq<CILOp>, i: int) -> Seq<char>
    decreases ops.len() - i,
{
    if i < 0 || i >= ops.len() {
        Seq::empty()
    } else {
        "\t"@ + op_text_s(ops[i]) + "\n"@ + ops_text_s(ops, i + 1)
    }
}

/// The IL text of a whole method: a header line, one line per
/// instruction, and a closing brace.
pub open spec fn method_text_s(m: CLRMethod) -> Seq<char> {
    ".method public static ret "@ + m.name@ + "{\n"@ + ops_text_s(m.ops@, 0) + "}\n"@
}

impl CLRMethod {
    /// A method with the given name and no instructions yet.
    pub fn new(name: &str) -> (r: CLRMethod)
        ensures
            r.name@ == name@,
            r.ops@ == Seq::<CILOp>::empty(),
    {
        CLRMethod { name: String::from_str(name), ops: Vec::new() }
    }

    /// Appends one instruction.
    pub fn push_op(&mut self, op: CILOp)
        ensures
            final(self).name == old(self).name,
            final(self).ops@ == old(self).ops@.push(op),
    {
        self.ops.push(op);
    }

    /// Renders the method as IL text.
    pub fn into_il_ir(&self) -> (r: String)
        ensures
            r@ == method_text_s(*self),
    {
        let mut s = String::from_str(".method public static ret ");
        s.append(self.name.as_str());
        s.append("{\n");
        let ghost whole = ".method public static ret "@ + self.name@ + "{\n"@;
        let mut i: usize = 0;
        while i < self.ops.len()
            invariant
                i <= self.ops@.len(),
                whole == ".method public static ret "@ + self.name@ + "{\n"@,
                s@ + ops_text_s(self.ops@, i as int) == whole + ops_text_s(self.ops@, 0),
            decreases self.ops@.len() - i,
        {
            let line = op_text(&self.ops[i]);
            s.append("\t");
            s.append(line.as_str());
            s.append("\n");
            i = i + 1;
        }
        s.append("}\n");
        s
    }
}

} // verus!
