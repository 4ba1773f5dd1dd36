//! The builder of the `Code` attribute, with the inference of its operand
//! stack bound.

use vstd::prelude::*;
use crate::attribute::{Attribute, AttributeView};
use crate::constant_pool::{pool_wf, ConstantPool, EntryView};
use crate::instruction::{
    lemma_encode_grows_pool, spec_encode, stack_delta, Instruction, InstructionView,
};
use crate::Error;

verus! {

/// A builder for the `Code` attribute of a method: its instructions, its
/// number of local variable slots, and its operand stack bound, where 0
/// means that the bound is to be inferred from the instructions.
#[derive(Debug, Clone, PartialEq, Eq)]
pub struct CodeBuilder {
    max_stack: u16,
    max_locals: u16,
    code: Vec<Instruction>,
}

/// A [`CodeBuilder`] as a mathematical value.
pub struct CodeView {
    pub max_stack: u16,
    pub max_locals: u16,
    pub code: Seq<InstructionView>,
}

impl View for CodeBuilder {
    type V = CodeView;

    closed spec fn view(&self) -> CodeView {
        CodeView {
            max_stack: self.max_stack,
            max_locals: self.max_locals,
            code: self.code@.map_values(|i: Instruction| i@),
        }
    }
}

/// The depth of the operand stack after `code`, counted from 0 by the
/// stack delta of each instruction. It may be negative.
pub open spec fn depth_after(code: Seq<InstructionView>) -> int
    decreases code.len(),
{
    if code.len() == 0 {
        0
    } else {
        depth_after(code.drop_last()) + stack_delta(code.last())
    }
}

/// The greatest depth that the operand stack has before `code` or after any
/// of its instructions.
pub open spec fn high_water_mark(code: Seq<InstructionView>) -> int
    decreases code.len(),
{
    if code.len() == 0 {
        0
    } else {
        let before = high_water_mark(code.drop_last());
        let depth = depth_after(code);
        if depth > before {
            depth
        } else {
            before
        }
    }
}

/// The operand stack bound inferred for `code`: its high water mark, or 0
/// where that does not fit 16 bits.
pub open spec fn inferred_max_stack(code: Seq<InstructionView>) -> u16 {
    let mark = high_water_mark(code);
    if mark <= u16::MAX {
        mark as u16
    } else {
        0
    }
}

/// The operand stack bound that `code` is built with: the bound it was
/// given, unless that is 0, which asks for the inferred one.
pub open spec fn effective_max_stack(code: CodeView) -> u16 {
    if code.max_stack != 0 {
        code.max_stack
    } else {
        inferred_max_stack(code.code)
    }
}

/// Encoding `code` in order against `pool`: the pool afterwards, and the
/// encodings one after the other. The first instruction that fails ends the
/// encoding with its error, and the pool stays as that instruction left it.
pub open spec fn spec_encode_all(pool: Seq<EntryView>, code: Seq<InstructionView>) -> (
    Seq<EntryView>,
    Result<Seq<u8>, Error>,
)
    decreases code.len(),
{
    if code.len() == 0 {
        (pool, Ok(Seq::empty()))
    } else {
        let (pool, front) = spec_encode_all(pool, code.drop_last());
        match front {
            Ok(front_bytes) => {
                let (pool, last) = spec_encode(pool, code.last());
                match last {
                    Ok(last_bytes) => (pool, Ok(front_bytes + last_bytes)),
                    Err(e) => (pool, Err(e)),
                }
            },
            Err(e) => (pool, Err(e)),
        }
    }
}

/// Building `code` against `pool`: the pool afterwards, and the `Code`
/// attribute with the effective stack bound, the local slots as given, the
/// encoded instructions, and no nested attribute.
pub open spec fn spec_build(pool: Seq<EntryView>, code: CodeView) -> (
    Seq<EntryView>,
    Result<AttributeView, Error>,
) {
    let (pool, encoded) = spec_encode_all(pool, code.code);
    match encoded {
        Ok(bytes) => (
            pool,
            Ok(
                AttributeView::Code {
                    max_stack: effective_max_stack(code),
                    max_locals: code.max_locals,
                    code: bytes,
                    attributes: 0,
                },
            ),
        ),
        Err(e) => (pool, Err(e)),
    }
}

/// What a building function returned, with the attribute as a mathematical
/// value.
pub open spec fn built(result: Result<Attribute, Error>) -> Result<AttributeView, Error> {
    match result {
        Ok(attribute) => Ok(attribute@),
        Err(e) => Err(e),
    }
}

impl CodeBuilder {
    /// Creates a builder with no instructions, no local variable slots, and
    /// a stack bound that is to be inferred.
    pub fn new() -> (builder: Self)
        ensures
            builder@ == (CodeView { max_stack: 0, max_locals: 0, code: Seq::empty() }),
    {
        let builder = Self { max_stack: 0, max_locals: 0, code: Vec::new() };
        assert(builder@.code == Seq::<InstructionView>::empty());
        builder
    }

    /// Sets the operand stack bound. With 0 the bound is inferred when the
    /// attribute is built.
    pub fn max_stack(self, max_stack: u16) -> (builder: Self)
        ensures
            builder@ == (CodeView { max_stack, ..self@ }),
    {
        let mut builder = self;
        builder.max_stack = max_stack;
        builder
    }

    /// Sets the number of local variable slots. It is never inferred.
    pub fn max_locals(self, max_locals: u16) -> (builder: Self)
        ensures
            builder@ == (CodeView { max_locals, ..self@ }),
    {
        let mut builder = self;
        builder.max_locals = max_locals;
        builder
    }

    /// Appends `instructions` to the instructions of the builder.
    pub fn instructions(self, instructions: Vec<Instruction>) -> (builder: Self)
        ensures
            builder@ == (CodeView {
                code: self@.code + instructions@.map_values(|i: Instruction| i@),
                ..self@
            }),
    {
        let mut builder = self;
        let mut instructions = instructions;
        let ghost added = instructions@;
        builder.code.append(&mut instructions);
        assert(builder.code@.map_values(|i: Instruction| i@) == self.code@.map_values(
            |i: Instruction| i@,
        ) + added.map_values(|i: Instruction| i@));
        builder
    }

    /// Infers the operand stack bound from the instructions: the greatest
    /// depth that the running count of their stack deltas reaches.
    pub fn calculate_max_stack(&self) -> (max_stack: u16)
        ensures
            max_stack == inferred_max_stack(self@.code),
    {
        let mut max_stack: i128 = 0;
        let mut stack: i128 = 0;
        let mut i: usize = 0;
        while i < self.code.len()
            invariant
                i <= self.code.len(),
                self@.code.len() == self.code.len(),
                forall|k: int| 0 <= k < self.code.len() ==> self@.code[k] == self.code@[k]@,
                stack == depth_after(self@.code.take(i as int)),
                max_stack == high_water_mark(self@.code.take(i as int)),
                -i <= stack <= i,
                0 <= max_stack <= i,
            decreases self.code.len() - i,
        {
            assert(self@.code.take(i + 1).drop_last() == self@.code.take(i as int));
            stack = stack + self.code[i].stack_delta() as i128;
            if stack > max_stack {
                max_stack = stack;
            }
            i = i + 1;
        }
        assert(self@.code.take(i as int) == self@.code);
        if max_stack <= u16::MAX as i128 {
            max_stack as u16
        } else {
            0
        }
    }

    /// Builds the `Code` attribute: encodes the instructions in order
    /// against `constant_pool`, and infers the stack bound unless one other
    /// than 0 was set.
    pub fn build(self, constant_pool: &mut ConstantPool) -> (result: Result<Attribute, Error>)
        ensures
            (final(constant_pool)@, built(result)) == spec_build(old(constant_pool)@, self@),
    {
        let max_stack = if self.max_stack == 0 {
            self.calculate_max_stack()
        } else {
            self.max_stack
        };
        let max_locals = self.max_locals;
        let mut code: Vec<u8> = Vec::new();
        for instruction in it: self.code
            invariant
                it.seq() == self.code@,
                self@.code.len() == self.code@.len(),
                forall|k: int| 0 <= k < self.code@.len() ==> self@.code[k] == self.code@[k]@,
                (constant_pool@, Ok::<Seq<u8>, Error>(code@)) == spec_encode_all(
                    old(constant_pool)@,
                    self@.code.take(it.index() as int),
                ),
        {
            assert(self@.code.take(it.index() + 1).drop_last() == self@.code.take(
                it.index() as int,
            ));
            match instruction.emit(constant_pool) {
                Ok(mut bytes) => {
                    code.append(&mut bytes);
                },
                Err(e) => {
                    proof {
                        lemma_encode_all_error(old(constant_pool)@, self@.code, it.index() + 1);
                    }
                    return Err(e);
                },
            }
        }
        assert(self@.code.take(self@.code.len() as int) == self@.code);
        Ok(Attribute::Code { max_stack, max_locals, code, attributes: Vec::new() })
    }
}

impl Default for CodeBuilder {
    fn default() -> (builder: Self)
        ensures
            builder@ == (CodeView { max_stack: 0, max_locals: 0, code: Seq::empty() }),
    {
        Self::new()
    }
}

/// Once the first `n` instructions of `code` have failed to encode, all of
/// `code` fails in the same way.
pub proof fn lemma_encode_all_error(pool: Seq<EntryView>, code: Seq<InstructionView>, n: int)
    requires
        0 <= n <= code.len(),
        spec_encode_all(pool, code.take(n)).1 is Err,
    ensures
        spec_encode_all(pool, code) == spec_encode_all(pool, code.take(n)),
    decreases code.len(),
{
    if n == code.len() {
        assert(code.take(n) == code);
    } else {
        assert(code.drop_last().take(n) == code.take(n));
        lemma_encode_all_error(pool, code.drop_last(), n);
    }
}

/// Encoding instructions in order keeps the pool well formed and only ever
/// appends to it.
pub proof fn lemma_encode_all_grows_pool(pool: Seq<EntryView>, code: Seq<InstructionView>)
    requires
        pool_wf(pool),
    ensures
        pool_wf(spec_encode_all(pool, code).0),
        pool.is_prefix_of(spec_encode_all(pool, code).0),
    decreases code.len(),
{
    if code.len() > 0 {
        lemma_encode_all_grows_pool(pool, code.drop_last());
        let (front_pool, front) = spec_encode_all(pool, code.drop_last());
        if front is Ok {
            lemma_encode_grows_pool(front_pool, code.last());
        }
    }
}

/// Building a `Code` attribute keeps the pool well formed and only ever
/// appends to it.
pub proof fn lemma_build_grows_pool(pool: Seq<EntryView>, code: CodeView)
    requires
        pool_wf(pool),
    ensures
        pool_wf(spec_build(pool, code).0),
        pool.is_prefix_of(spec_build(pool, code).0),
{
    lemma_encode_all_grows_pool(pool, code.code);
}

/// No depth that the stack has before `code` or after one of its
/// instructions lies above the high water mark, which is never negative.
pub proof fn lemma_high_water_mark_bounds(code: Seq<InstructionView>, n: int)
    requires
        0 <= n <= code.len(),
    ensures
        0 <= high_water_mark(code),
        depth_after(code.take(n)) <= high_water_mark(code),
    decreases code.len(),
{
    if n == code.len() {
        assert(code.take(n) == code);
        if code.len() > 0 {
            lemma_high_water_mark_bounds(code.drop_last(), 0);
        }
    } else {
        assert(code.drop_last().take(n) == code.take(n));
        lemma_high_water_mark_bounds(code.drop_last(), n);
    }
}

/// The high water mark is a depth that the stack does have: before `code`
/// or after one of its instructions.
pub proof fn lemma_high_water_mark_reached(code: Seq<InstructionView>) -> (n: int)
    ensures
        0 <= n <= code.len(),
        depth_after(code.take(n)) == high_water_mark(code),
    decreases code.len(),
{
    if code.len() == 0 {
        assert(code.take(0) == code);
        0
    } else if depth_after(code) > high_water_mark(code.drop_last()) {
        assert(code.take(code.len() as int) == code);
        code.len() as int
    } else {
        let n = lemma_high_water_mark_reached(code.drop_last());
        assert(code.drop_last().take(n) == code.take(n));
        n
    }
}

/// Inference is a function of the instructions alone: two builders with the
/// same instructions and no explicit bound are built with the same bound.
pub proof fn lemma_inference_deterministic(a: CodeView, b: CodeView)
    requires
        a.code == b.code,
        a.max_stack == 0,
        b.max_stack == 0,
    ensures
        effective_max_stack(a) == effective_max_stack(b),
        effective_max_stack(a) == inferred_max_stack(a.code),
{
}

/// A stack bound other than 0 overrides inference: the attribute that is
/// built holds the bound exactly as it was given, whatever the instructions.
pub proof fn lemma_explicit_bound_overrides(pool: Seq<EntryView>, code: CodeView)
    requires
        code.max_stack != 0,
    ensures
        spec_build(pool, code).1 matches Ok(AttributeView::Code { max_stack, .. }) ==> max_stack
            == code.max_stack,
{
}

} // verus!
