//! The supported bytecode instructions and their encoding.

use vstd::prelude::*;
use crate::constant_pool::{
    lemma_insert_member_extends, lemma_insert_member_wf, pool_wf, spec_insert_field,
    spec_insert_method, ConstantPool, EntryView,
};
use crate::encoding::{push_u16, u16_be};
use crate::{emitted, Error};

verus! {

/// A bytecode instruction of the supported subset. An instruction that
/// refers to a member of a class names it by class, member name and type
/// descriptor; the reference is resolved against a constant pool only when
/// the instruction is emitted.
#[allow(non_camel_case_types)]
#[derive(Debug, Clone, PartialEq, Eq)]
pub enum Instruction {
    aload { index: u8 },
    iconst { value: i32 },
    iload { index: u8 },
    iadd,
    invokespecial { class: String, name: String, descriptor: String },
    invokevirtual { class: String, name: String, descriptor: String },
    invokestatic { class: String, name: String, descriptor: String },
    getstatic { class: String, name: String, descriptor: String },
    ireturn,
    return_,
}

/// An [`Instruction`] as a mathematical value: every text is the sequence
/// of its characters.
#[allow(non_camel_case_types)]
pub enum InstructionView {
    aload { index: u8 },
    iconst { value: i32 },
    iload { index: u8 },
    iadd,
    invokespecial { class: Seq<char>, name: Seq<char>, descriptor: Seq<char> },
    invokevirtual { class: Seq<char>, name: Seq<char>, descriptor: Seq<char> },
    invokestatic { class: Seq<char>, name: Seq<char>, descriptor: Seq<char> },
    getstatic { class: Seq<char>, name: Seq<char>, descriptor: Seq<char> },
    ireturn,
    return_,
}

impl View for Instruction {
    type V = InstructionView;

    open spec fn view(&self) -> InstructionView {
        match *self {
            Instruction::aload { index } => InstructionView::aload { index },
            Instruction::iconst { value } => InstructionView::iconst { value },
            Instruction::iload { index } => InstructionView::iload { index },
            Instruction::iadd => InstructionView::iadd,
            Instruction::invokespecial { class, name, descriptor } => {
                InstructionView::invokespecial {
                    class: class@,
                    name: name@,
                    descriptor: descriptor@,
                }
            },
            Instruction::invokevirtual { class, name, descriptor } => {
                InstructionView::invokevirtual {
                    class: class@,
                    name: name@,
                    descriptor: descriptor@,
                }
            },
            Instruction::invokestatic { class, name, descriptor } => {
                InstructionView::invokestatic {
                    class: class@,
                    name: name@,
                    descriptor: descriptor@,
                }
            },
            Instruction::getstatic { class, name, descriptor } => {
                InstructionView::getstatic {
                    class: class@,
                    name: name@,
                    descriptor: descriptor@,
                }
            },
            Instruction::ireturn => InstructionView::ireturn,
            Instruction::return_ => InstructionView::return_,
        }
    }
}

/// By how much an instruction changes the depth of the operand stack, as the
/// stack depth analysis counts it: a load or a field read pushes one value,
/// everything else, a return without a value included, counts as taking one.
pub open spec fn stack_delta(instruction: InstructionView) -> int {
    match instruction {
        InstructionView::aload { .. } => 1,
        InstructionView::iconst { .. } => 1,
        InstructionView::iload { .. } => 1,
        InstructionView::getstatic { .. } => 1,
        InstructionView::iadd => -1,
        InstructionView::invokespecial { .. } => -1,
        InstructionView::invokevirtual { .. } => -1,
        InstructionView::invokestatic { .. } => -1,
        InstructionView::ireturn => -1,
        InstructionView::return_ => -1,
    }
}

/// The encoding of an instruction whose operand is a constant pool index:
/// `opcode`, then the index that the insertion `inserted` returned. An
/// insertion that failed fails the encoding in the same way.
pub open spec fn spec_encode_reference(
    opcode: u8,
    inserted: (Seq<EntryView>, Result<u16, Error>),
) -> (Seq<EntryView>, Result<Seq<u8>, Error>) {
    match inserted.1 {
        Ok(index) => (inserted.0, Ok(seq![opcode] + u16_be(index))),
        Err(e) => (inserted.0, Err(e)),
    }
}

/// Encoding `instruction` against `pool`: the pool afterwards, and the
/// opcode with its operand bytes. Only an instruction that refers to a
/// member of a class touches the pool.
pub open spec fn spec_encode(pool: Seq<EntryView>, instruction: InstructionView) -> (
    Seq<EntryView>,
    Result<Seq<u8>, Error>,
) {
    match instruction {
        InstructionView::aload { index } => (pool, Ok(seq![0x19u8, index])),
        InstructionView::iload { index } => (pool, Ok(seq![0x15u8, index])),
        InstructionView::iconst { value } => if -1 <= value <= 5 {
            (pool, Ok(seq![(value + 3) as u8]))
        } else {
            (pool, Err(Error::InvalidIconst(value)))
        },
        InstructionView::iadd => (pool, Ok(seq![0x60u8])),
        InstructionView::invokespecial { class, name, descriptor } => spec_encode_reference(
            0xb7,
            spec_insert_method(pool, class, name, descriptor),
        ),
        InstructionView::invokestatic { class, name, descriptor } => spec_encode_reference(
            0xb8,
            spec_insert_method(pool, class, name, descriptor),
        ),
        InstructionView::invokevirtual { class, name, descriptor } => spec_encode_reference(
            0xb6,
            spec_insert_method(pool, class, name, descriptor),
        ),
        InstructionView::getstatic { class, name, descriptor } => spec_encode_reference(
            0xb2,
            spec_insert_field(pool, class, name, descriptor),
        ),
        InstructionView::return_ => (pool, Ok(seq![0xb1u8])),
        InstructionView::ireturn => (pool, Ok(seq![0xacu8])),
    }
}

impl Instruction {
    /// By how much the instruction changes the depth of the operand stack,
    /// as the stack depth analysis counts it.
    pub fn stack_delta(&self) -> (delta: i8)
        ensures
            delta == stack_delta(self@),
    {
        match self {
            Instruction::aload { .. } => 1,
            Instruction::iconst { .. } => 1,
            Instruction::iload { .. } => 1,
            Instruction::getstatic { .. } => 1,
            Instruction::iadd => -1,
            Instruction::invokespecial { .. } => -1,
            Instruction::invokevirtual { .. } => -1,
            Instruction::invokestatic { .. } => -1,
            Instruction::ireturn => -1,
            Instruction::return_ => -1,
        }
    }

    /// Emits the instruction as its opcode and operand bytes. A reference
    /// to a member of a class is inserted into `constant_pool`.
    pub fn emit(self, constant_pool: &mut ConstantPool) -> (result: Result<Vec<u8>, Error>)
        ensures
            (final(constant_pool)@, emitted(result)) == spec_encode(old(constant_pool)@, self@),
    {
        let mut bytes = Vec::new();
        match self {
            Instruction::aload { index } => {
                bytes.push(0x19);
                bytes.push(index);
            },
            Instruction::iload { index } => {
                bytes.push(0x15);
                bytes.push(index);
            },
            Instruction::iconst { value } => {
                if value < -1 || value > 5 {
                    return Err(Error::InvalidIconst(value));
                }
                bytes.push((value + 3) as u8);
            },
            Instruction::iadd => {
                bytes.push(0x60);
            },
            Instruction::invokespecial { class, name, descriptor } => {
                bytes.push(0xb7);
                let index = constant_pool.insert_method(
                    class.as_str(),
                    name.as_str(),
                    descriptor.as_str(),
                )?;
                push_u16(&mut bytes, index);
            },
            Instruction::invokestatic { class, name, descriptor } => {
                bytes.push(0xb8);
                let index = constant_pool.insert_method(
                    class.as_str(),
                    name.as_str(),
                    descriptor.as_str(),
                )?;
                push_u16(&mut bytes, index);
            },
            Instruction::invokevirtual { class, name, descriptor } => {
                bytes.push(0xb6);
                let index = constant_pool.insert_method(
                    class.as_str(),
                    name.as_str(),
                    descriptor.as_str(),
                )?;
                push_u16(&mut bytes, index);
            },
            Instruction::getstatic { class, name, descriptor } => {
                bytes.push(0xb2);
                let index = constant_pool.insert_field(
                    class.as_str(),
                    name.as_str(),
                    descriptor.as_str(),
                )?;
                push_u16(&mut bytes, index);
            },
            Instruction::return_ => {
                bytes.push(0xb1);
            },
            Instruction::ireturn => {
                bytes.push(0xac);
            },
        }
        assert(spec_encode(old(constant_pool)@, self@).1 matches Ok(encoding) && bytes@
            =~= encoding);
        Ok(bytes)
    }
}

/// Loads the reference in local variable `index`.
pub fn aload(index: u8) -> (instruction: Instruction)
    ensures
        instruction@ == (InstructionView::aload { index }),
{
    Instruction::aload { index }
}

/// Loads the integer constant `value`. Only the constants from -1 to 5 have
/// an encoding; with any other the instruction fails when it is emitted.
pub fn iconst(value: i32) -> (instruction: Instruction)
    ensures
        instruction@ == (InstructionView::iconst { value }),
{
    Instruction::iconst { value }
}

/// Loads the integer in local variable `index`.
pub fn iload(index: u8) -> (instruction: Instruction)
    ensures
        instruction@ == (InstructionView::iload { index }),
{
    Instruction::iload { index }
}

/// Adds the two integers on top of the stack.
pub fn iadd() -> (instruction: Instruction)
    ensures
        instruction@ == InstructionView::iadd,
{
    Instruction::iadd
}

/// Calls a constructor, a private method or a method of a superclass.
pub fn invokespecial(class: &str, name: &str, descriptor: &str) -> (instruction: Instruction)
    ensures
        instruction@ == (InstructionView::invokespecial {
            class: class@,
            name: name@,
            descriptor: descriptor@,
        }),
{
    Instruction::invokespecial {
        class: class.to_owned(),
        name: name.to_owned(),
        descriptor: descriptor.to_owned(),
    }
}

/// Calls an instance method.
pub fn invokevirtual(class: &str, name: &str, descriptor: &str) -> (instruction: Instruction)
    ensures
        instruction@ == (InstructionView::invokevirtual {
            class: class@,
            name: name@,
            descriptor: descriptor@,
        }),
{
    Instruction::invokevirtual {
        class: class.to_owned(),
        name: name.to_owned(),
        descriptor: descriptor.to_owned(),
    }
}

/// Calls a static method.
pub fn invokestatic(class: &str, name: &str, descriptor: &str) -> (instruction: Instruction)
    ensures
        instruction@ == (InstructionView::invokestatic {
            class: class@,
            name: name@,
            descriptor: descriptor@,
        }),
{
    Instruction::invokestatic {
        class: class.to_owned(),
        name: name.to_owned(),
        descriptor: descriptor.to_owned(),
    }
}

/// Reads a static field.
pub fn getstatic(class: &str, name: &str, descriptor: &str) -> (instruction: Instruction)
    ensures
        instruction@ == (InstructionView::getstatic {
            class: class@,
            name: name@,
            descriptor: descriptor@,
        }),
{
    Instruction::getstatic {
        class: class.to_owned(),
        name: name.to_owned(),
        descriptor: descriptor.to_owned(),
    }
}

/// Returns the integer on top of the stack.
pub fn ireturn() -> (instruction: Instruction)
    ensures
        instruction@ == InstructionView::ireturn,
{
    Instruction::ireturn
}

/// Returns without a value.
pub fn return_() -> (instruction: Instruction)
    ensures
        instruction@ == InstructionView::return_,
{
    Instruction::return_
}

/// An integer constant from -1 to 5 is encoded as one byte, the opcode that
/// the table below gives it, and leaves the pool alone. A constant outside
/// that range has no encoding: it fails with `InvalidIconst` of the value.
pub proof fn lemma_iconst_encoding(pool: Seq<EntryView>, value: i32)
    ensures
        spec_encode(pool, InstructionView::iconst { value }).0 == pool,
        value == -1 ==> spec_encode(pool, InstructionView::iconst { value }).1 == Ok::<
            Seq<u8>,
            Error,
        >(seq![0x02u8]),
        value == 0 ==> spec_encode(pool, InstructionView::iconst { value }).1 == Ok::<
            Seq<u8>,
            Error,
        >(seq![0x03u8]),
        value == 1 ==> spec_encode(pool, InstructionView::iconst { value }).1 == Ok::<
            Seq<u8>,
            Error,
        >(seq![0x04u8]),
        value == 2 ==> spec_encode(pool, InstructionView::iconst { value }).1 == Ok::<
            Seq<u8>,
            Error,
        >(seq![0x05u8]),
        value == 3 ==> spec_encode(pool, InstructionView::iconst { value }).1 == Ok::<
            Seq<u8>,
            Error,
        >(seq![0x06u8]),
        value == 4 ==> spec_encode(pool, InstructionView::iconst { value }).1 == Ok::<
            Seq<u8>,
            Error,
        >(seq![0x07u8]),
        value == 5 ==> spec_encode(pool, InstructionView::iconst { value }).1 == Ok::<
            Seq<u8>,
            Error,
        >(seq![0x08u8]),
        value < -1 || value > 5 ==> spec_encode(pool, InstructionView::iconst { value }).1 == Err::<
            Seq<u8>,
            Error,
        >(Error::InvalidIconst(value)),
{
}

/// Encoding an instruction keeps the pool well formed and only ever appends
/// to it: the entries that the pool held keep their places.
pub proof fn lemma_encode_grows_pool(pool: Seq<EntryView>, instruction: InstructionView)
    requires
        pool_wf(pool),
    ensures
        pool_wf(spec_encode(pool, instruction).0),
        pool.is_prefix_of(spec_encode(pool, instruction).0),
{
    match instruction {
        InstructionView::invokespecial { class, name, descriptor }
        | InstructionView::invokestatic { class, name, descriptor }
        | InstructionView::invokevirtual { class, name, descriptor } => {
            let entry = |c: u16, nt: u16| EntryView::Method(c, nt);
            lemma_insert_member_wf(pool, class, name, descriptor, entry);
            lemma_insert_member_extends(pool, class, name, descriptor, entry);
        },
        InstructionView::getstatic { class, name, descriptor } => {
            let entry = |c: u16, nt: u16| EntryView::Field(c, nt);
            lemma_insert_member_wf(pool, class, name, descriptor, entry);
            lemma_insert_member_extends(pool, class, name, descriptor, entry);
        },
        _ => {},
    }
}

} // verus!
