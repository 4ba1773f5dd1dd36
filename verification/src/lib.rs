//! A builder of class files: a class is described by its name, its flags
//! and its methods, whose bodies are sequences of bytecode instructions, and
//! is emitted as the bytes that a class loader reads.

use vstd::prelude::*;
use crate::access_flag::{combine_flags, flags_word, AccessFlag};
use crate::constant_pool::{pool_wf, spec_emit, spec_insert_class, ConstantPool, EntryView};
use crate::consts::{MAGIC, MAJOR_VERSION, MINOR_VERSION, OBJECT_CLASS_NAME};
use crate::encoding::{push_u16, push_u32, u16_be, u32_be};
use crate::method::{
    lemma_emit_method_grows_pool, spec_emit_method, text_view, MethodBuilder, MethodView,
};

pub mod access_flag;
pub mod attribute;
pub mod constant_pool;
pub mod consts;
pub mod encoding;
pub mod instruction;
pub mod method;

verus! {

/// A required builder field that was still unset when the builder was emitted.
#[derive(Debug, Clone, Copy, PartialEq, Eq, Structural)]
pub enum RequiredField {
    ClassName,
    MethodName,
    MethodCode,
}

/// Every way in which assembling a class file can fail.
#[derive(Debug, Clone, Copy, PartialEq, Eq, Structural)]
pub enum Error {
    /// An `iconst` instruction whose value lies outside `-1..=5`.
    InvalidIconst(i32),
    /// A builder was emitted before one of its required fields was set.
    MissingRequiredField(RequiredField),
    /// The constant pool has no index left for another entry, or holds too
    /// many entries for its count to fit the 16-bit count field.
    SymbolTableOverflow,
    /// A text whose UTF-8 form is longer than the 16-bit length prefix of a
    /// text entry can express.
    TextTooLong,
    /// A method body too long for the 32-bit length fields of its attribute.
    CodeTooLong,
    /// More methods than the 16-bit method count can express.
    TooManyMethods,
}

/// What an emitting function returned, with the bytes as a sequence.
pub open spec fn emitted(result: Result<Vec<u8>, Error>) -> Result<Seq<u8>, Error> {
    match result {
        Ok(bytes) => Ok(bytes@),
        Err(e) => Err(e),
    }
}

/// A builder for one class file: the flags of the class, its name, the name
/// of its superclass, its methods, and the constant pool that the emitted
/// class refers into.
pub struct ClassFileBuilder {
    access_flags: Vec<AccessFlag>,
    constant_pool: ConstantPool,
    class_name: Option<String>,
    super_class: Option<String>,
    methods: Vec<MethodBuilder>,
}

/// A [`ClassFileBuilder`] as a mathematical value.
pub struct ClassView {
    pub access_flags: Seq<AccessFlag>,
    pub constant_pool: Seq<EntryView>,
    pub class_name: Option<Seq<char>>,
    pub super_class: Option<Seq<char>>,
    pub methods: Seq<MethodView>,
}

impl View for ClassFileBuilder {
    type V = ClassView;

    closed spec fn view(&self) -> ClassView {
        ClassView {
            access_flags: self.access_flags@,
            constant_pool: self.constant_pool@,
            class_name: text_view(self.class_name),
            super_class: text_view(self.super_class),
            methods: self.methods@.map_values(|m: MethodBuilder| m@),
        }
    }
}

/// Emitting `methods` in order against `pool`: the pool afterwards, and the
/// bytes of the methods one after the other. The first method that fails
/// ends the emission with its error.
pub open spec fn spec_emit_methods(pool: Seq<EntryView>, methods: Seq<MethodView>) -> (
    Seq<EntryView>,
    Result<Seq<u8>, Error>,
)
    decreases methods.len(),
{
    if methods.len() == 0 {
        (pool, Ok(Seq::empty()))
    } else {
        let (pool, front) = spec_emit_methods(pool, methods.drop_last());
        match front {
            Ok(front_bytes) => {
                let (pool, last) = spec_emit_method(pool, methods.last());
                match last {
                    Ok(last_bytes) => (pool, Ok(front_bytes + last_bytes)),
                    Err(e) => (pool, Err(e)),
                }
            },
            Err(e) => (pool, Err(e)),
        }
    }
}

/// The name of the superclass of `class`: the one it was given, or that of
/// the root class.
pub open spec fn super_class_name(class: ClassView) -> Seq<char> {
    match class.super_class {
        Some(name) => name,
        None => OBJECT_CLASS_NAME@,
    }
}

/// The first eight bytes of every class file: the magic number, the minor
/// and the major version.
pub open spec fn class_file_header() -> Seq<u8> {
    u32_be(MAGIC) + u16_be(MINOR_VERSION) + u16_be(MAJOR_VERSION)
}

/// The layout of a class file: the header, the constant pool, the flags
/// word, the index of the class, the index of the superclass, an interface
/// count of 0, a field count of 0, the method count, the methods, and an
/// attribute count of 0.
pub open spec fn class_file(
    pool_bytes: Seq<u8>,
    flags: u16,
    this_index: u16,
    super_index: u16,
    method_count: u16,
    method_bytes: Seq<u8>,
) -> Seq<u8> {
    class_file_header() + pool_bytes + u16_be(flags) + u16_be(this_index) + u16_be(super_index)
        + u16_be(0) + u16_be(0) + u16_be(method_count) + method_bytes + u16_be(0)
}

/// The class file of `class`.
///
/// A class without a name, or else with more methods than the method count
/// can express, is refused at once. Otherwise the methods are emitted in
/// order against the constant pool; only then are the class itself and its
/// superclass inserted into the pool, as class references, so that these
/// stand behind everything that the methods refer to; and the pool is
/// emitted. The first step that fails ends the emission with its error.
pub open spec fn spec_emit_class(class: ClassView) -> Result<Seq<u8>, Error> {
    match class.class_name {
        None => Err(Error::MissingRequiredField(RequiredField::ClassName)),
        Some(name) => if class.methods.len() > u16::MAX {
            Err(Error::TooManyMethods)
        } else {
            let (pool, methods) = spec_emit_methods(class.constant_pool, class.methods);
            match methods {
                Ok(method_bytes) => {
                    let (pool, this_class) = spec_insert_class(pool, name);
                    match this_class {
                        Ok(this_index) => {
                            let (pool, super_class) = spec_insert_class(
                                pool,
                                super_class_name(class),
                            );
                            match super_class {
                                Ok(super_index) => match spec_emit(pool) {
                                    Ok(pool_bytes) => Ok(
                                        class_file(
                                            pool_bytes,
                                            flags_word(class.access_flags),
                                            this_index,
                                            super_index,
                                            class.methods.len() as u16,
                                            method_bytes,
                                        ),
                                    ),
                                    Err(e) => Err(e),
                                },
                                Err(e) => Err(e),
                            }
                        },
                        Err(e) => Err(e),
                    }
                },
                Err(e) => Err(e),
            }
        },
    }
}

impl ClassFileBuilder {
    /// Creates a builder for a class that has no flags, no methods, an empty
    /// constant pool, and no name yet.
    pub fn new() -> (builder: Self)
        ensures
            builder@ == (ClassView {
                access_flags: Seq::empty(),
                constant_pool: Seq::empty(),
                class_name: None,
                super_class: None,
                methods: Seq::empty(),
            }),
    {
        let builder = Self {
            access_flags: Vec::new(),
            constant_pool: ConstantPool::new(),
            class_name: None,
            super_class: None,
            methods: Vec::new(),
        };
        assert(builder@.methods == Seq::<MethodView>::empty());
        builder
    }

    /// Adds a flag to the class.
    pub fn access_flag(self, flag: AccessFlag) -> (builder: Self)
        ensures
            builder@ == (ClassView { access_flags: self@.access_flags.push(flag), ..self@ }),
    {
        let mut builder = self;
        builder.access_flags.push(flag);
        builder
    }

    /// Sets the name of the class.
    pub fn class_name(self, class_name: &str) -> (builder: Self)
        ensures
            builder@ == (ClassView { class_name: Some(class_name@), ..self@ }),
    {
        let mut builder = self;
        builder.class_name = Some(class_name.to_owned());
        builder
    }

    /// Sets the name of the superclass. A class that is given none extends
    /// the root class.
    pub fn super_class(self, super_class: &str) -> (builder: Self)
        ensures
            builder@ == (ClassView { super_class: Some(super_class@), ..self@ }),
    {
        let mut builder = self;
        builder.super_class = Some(super_class.to_owned());
        builder
    }

    /// Adds a method to the class.
    pub fn method(self, method: MethodBuilder) -> (builder: Self)
        ensures
            builder@ == (ClassView { methods: self@.methods.push(method@), ..self@ }),
    {
        let mut builder = self;
        builder.methods.push(method);
        assert(builder.methods@.map_values(|m: MethodBuilder| m@) == self.methods@.map_values(
            |m: MethodBuilder| m@,
        ).push(method@));
        builder
    }

    /// Emits the class as the bytes of its class file.
    pub fn emit(self) -> (result: Result<Vec<u8>, Error>)
        ensures
            emitted(result) == spec_emit_class(self@),
    {
        let ClassFileBuilder { access_flags, constant_pool, class_name, super_class, methods } =
            self;
        let mut constant_pool = constant_pool;
        let class_name = match class_name {
            Some(class_name) => class_name,
            None => {
                return Err(Error::MissingRequiredField(RequiredField::ClassName));
            },
        };
        if methods.len() > u16::MAX as usize {
            return Err(Error::TooManyMethods);
        }
        let method_count = methods.len() as u16;

        let ghost initial = constant_pool@;
        let ghost views = methods@.map_values(|m: MethodBuilder| m@);
        let mut method_bytes: Vec<u8> = Vec::new();
        for method in it: methods
            invariant
                it.seq() == methods@,
                views == methods@.map_values(|m: MethodBuilder| m@),
                views.len() <= u16::MAX,
                self@.methods == views,
                self@.constant_pool == initial,
                self@.class_name == Some(class_name@),
                (constant_pool@, Ok::<Seq<u8>, Error>(method_bytes@)) == spec_emit_methods(
                    initial,
                    views.take(it.index() as int),
                ),
        {
            assert(views.take(it.index() + 1).drop_last() == views.take(it.index() as int));
            match method.emit(&mut constant_pool) {
                Ok(mut bytes) => {
                    method_bytes.append(&mut bytes);
                },
                Err(e) => {
                    proof {
                        lemma_emit_methods_error(initial, views, it.index() + 1);
                    }
                    return Err(e);
                },
            }
        }
        assert(views.take(views.len() as int) == views);

        let self_class = constant_pool.insert_class(class_name.as_str())?;
        let super_class = match super_class {
            Some(super_class) => constant_pool.insert_class(super_class.as_str())?,
            None => constant_pool.insert_class(OBJECT_CLASS_NAME)?,
        };
        let mut pool_bytes = constant_pool.emit()?;

        let mut bytes = Vec::new();
        push_u32(&mut bytes, MAGIC);
        push_u16(&mut bytes, MINOR_VERSION);
        push_u16(&mut bytes, MAJOR_VERSION);
        bytes.append(&mut pool_bytes);
        push_u16(&mut bytes, combine_flags(&access_flags));
        push_u16(&mut bytes, self_class);
        push_u16(&mut bytes, super_class);
        push_u16(&mut bytes, 0);
        push_u16(&mut bytes, 0);
        push_u16(&mut bytes, method_count);
        bytes.append(&mut method_bytes);
        push_u16(&mut bytes, 0);
        Ok(bytes)
    }
}

impl Default for ClassFileBuilder {
    fn default() -> (builder: Self)
        ensures
            builder@ == (ClassView {
                access_flags: Seq::empty(),
                constant_pool: Seq::empty(),
                class_name: None,
                super_class: None,
                methods: Seq::empty(),
            }),
    {
        Self::new()
    }
}

/// Once the first `n` methods of `methods` have failed to emit, all of
/// `methods` fails in the same way.
pub proof fn lemma_emit_methods_error(pool: Seq<EntryView>, methods: Seq<MethodView>, n: int)
    requires
        0 <= n <= methods.len(),
        spec_emit_methods(pool, methods.take(n)).1 is Err,
    ensures
        spec_emit_methods(pool, methods) == spec_emit_methods(pool, methods.take(n)),
    decreases methods.len(),
{
    if n == methods.len() {
        assert(methods.take(n) == methods);
    } else {
        assert(methods.drop_last().take(n) == methods.take(n));
        lemma_emit_methods_error(pool, methods.drop_last(), n);
    }
}

/// Emitting methods in order keeps the pool well formed and only ever
/// appends to it.
pub proof fn lemma_emit_methods_grows_pool(pool: Seq<EntryView>, methods: Seq<MethodView>)
    requires
        pool_wf(pool),
    ensures
        pool_wf(spec_emit_methods(pool, methods).0),
        pool.is_prefix_of(spec_emit_methods(pool, methods).0),
    decreases methods.len(),
{
    if methods.len() > 0 {
        lemma_emit_methods_grows_pool(pool, methods.drop_last());
        let (front_pool, front) = spec_emit_methods(pool, methods.drop_last());
        if front is Ok {
            lemma_emit_method_grows_pool(front_pool, methods.last());
        }
    }
}

/// Every class file starts with the magic number and the version: the bytes
/// `CA FE BA BE 00 00 00 3D`.
pub proof fn lemma_class_file_header(class: ClassView)
    ensures
        class_file_header() == seq![
            0xCAu8,
            0xFEu8,
            0xBAu8,
            0xBEu8,
            0x00u8,
            0x00u8,
            0x00u8,
            0x3Du8,
        ],
        spec_emit_class(class) matches Ok(bytes) ==> bytes.len() >= 8 && bytes.take(8)
            == class_file_header(),
{
    assert forall|
        pool_bytes: Seq<u8>,
        flags: u16,
        this_index: u16,
        super_index: u16,
        method_count: u16,
        method_bytes: Seq<u8>,
    |
        #![trigger
            class_file(pool_bytes, flags, this_index, super_index, method_count, method_bytes)]
        class_file(pool_bytes, flags, this_index, super_index, method_count, method_bytes).take(8)
            == class_file_header() by {
        let rest = pool_bytes + u16_be(flags) + u16_be(this_index) + u16_be(super_index) + u16_be(
            0,
        ) + u16_be(0) + u16_be(method_count) + method_bytes + u16_be(0);
        assert(class_file(pool_bytes, flags, this_index, super_index, method_count, method_bytes)
            =~= class_file_header() + rest);
        assert((class_file_header() + rest).take(8) =~= class_file_header());
    }
}

} // verus!
