//! Attributes: the length-prefixed sections that hang off a method.

use vstd::prelude::*;
use crate::constant_pool::{
    lemma_insert_string_extends, lemma_insert_string_wf, pool_wf, spec_insert_string, ConstantPool,
    EntryView,
};
use crate::encoding::{push_u16, push_u32, u16_be, u32_be};
use crate::{emitted, Error};

pub mod code;

verus! {

/// An attribute of a method. `Code` holds the encoded body of the method
/// with its operand stack bound and its number of local variable slots.
#[derive(Debug, PartialEq, Eq)]
pub enum Attribute {
    Code { max_stack: u16, max_locals: u16, code: Vec<u8>, attributes: Vec<Attribute> },
}

/// An [`Attribute`] as a mathematical value. Nested attributes appear by
/// their number alone, which is all that the class file form reads of them.
pub enum AttributeView {
    Code { max_stack: u16, max_locals: u16, code: Seq<u8>, attributes: nat },
}

impl View for Attribute {
    type V = AttributeView;

    open spec fn view(&self) -> AttributeView {
        match *self {
            Attribute::Code { max_stack, max_locals, code, attributes } => AttributeView::Code {
                max_stack,
                max_locals,
                code: code@,
                attributes: attributes@.len(),
            },
        }
    }
}

/// The number of bytes, behind the length field of a `Code` attribute, that
/// are there whatever the code: stack bound, local slots, code length, and
/// the counts of exception handlers and of nested attributes.
pub const CODE_FIXED_BYTES: usize = 12;

/// Emitting `attribute` against `pool`: the pool afterwards, and the bytes.
///
/// A `Code` attribute is the index of the text `Code`, which is inserted
/// into the pool; the attribute length, which is [`CODE_FIXED_BYTES`] plus
/// the length of the code plus the number of nested attributes; the stack
/// bound; the local slots; the code length; the code; an exception handler
/// count of 0 and a nested attribute count of 0.
pub open spec fn spec_emit_attribute(pool: Seq<EntryView>, attribute: AttributeView) -> (
    Seq<EntryView>,
    Result<Seq<u8>, Error>,
) {
    match attribute {
        AttributeView::Code { max_stack, max_locals, code, attributes } => {
            let (pool, name_index) = spec_insert_string(pool, "Code"@);
            match name_index {
                Ok(name) => if CODE_FIXED_BYTES + code.len() + attributes > u32::MAX {
                    (pool, Err(Error::CodeTooLong))
                } else {
                    (
                        pool,
                        Ok(
                            u16_be(name) + u32_be(
                                (CODE_FIXED_BYTES + code.len() + attributes) as u32,
                            ) + u16_be(max_stack) + u16_be(max_locals) + u32_be(code.len() as u32)
                                + code + seq![0u8, 0u8] + seq![0u8, 0u8],
                        ),
                    )
                },
                Err(e) => (pool, Err(e)),
            }
        },
    }
}

impl Attribute {
    /// Emits the attribute as the bytes it has in a class file. The name of
    /// the attribute is inserted into `constant_pool`.
    pub fn emit(self, constant_pool: &mut ConstantPool) -> (result: Result<Vec<u8>, Error>)
        ensures
            (final(constant_pool)@, emitted(result)) == spec_emit_attribute(
                old(constant_pool)@,
                self@,
            ),
    {
        let mut bytes = Vec::new();
        match self {
            Attribute::Code { max_stack, max_locals, mut code, attributes } => {
                let name_index = constant_pool.insert_string("Code")?;
                let attribute_length = CODE_FIXED_BYTES as u128 + code.len() as u128
                    + attributes.len() as u128;
                if attribute_length > u32::MAX as u128 {
                    return Err(Error::CodeTooLong);
                }
                let ghost body = code@;
                push_u16(&mut bytes, name_index);
                push_u32(&mut bytes, attribute_length as u32);
                push_u16(&mut bytes, max_stack);
                push_u16(&mut bytes, max_locals);
                push_u32(&mut bytes, code.len() as u32);
                bytes.append(&mut code);
                bytes.push(0x00);
                bytes.push(0x00);
                bytes.push(0x00);
                bytes.push(0x00);
                assert(bytes@ == u16_be(name_index) + u32_be(attribute_length as u32) + u16_be(
                    max_stack,
                ) + u16_be(max_locals) + u32_be(body.len() as u32) + body + seq![0u8, 0u8]
                    + seq![0u8, 0u8]);
            },
        }
        Ok(bytes)
    }
}

/// Emitting an attribute keeps the pool well formed and only ever appends to
/// it.
pub proof fn lemma_emit_attribute_grows_pool(pool: Seq<EntryView>, attribute: AttributeView)
    requires
        pool_wf(pool),
    ensures
        pool_wf(spec_emit_attribute(pool, attribute).0),
        pool.is_prefix_of(spec_emit_attribute(pool, attribute).0),
{
    lemma_insert_string_wf(pool, "Code"@);
    lemma_insert_string_extends(pool, "Code"@);
}

} // verus!
