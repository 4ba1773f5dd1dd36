//! The builder of one method of a class.

use vstd::prelude::*;
use vstd::string::StringExecFns;
use crate::access_flag::{combine_flags, flags_word, AccessFlag};
use crate::attribute::code::{lemma_build_grows_pool, spec_build, CodeBuilder, CodeView};
use crate::attribute::{lemma_emit_attribute_grows_pool, spec_emit_attribute};
use crate::constant_pool::{
    lemma_insert_string_extends, lemma_insert_string_wf, pool_wf, spec_insert_string,
    ConstantPool, EntryView,
};
use crate::encoding::{push_u16, u16_be};
use crate::{emitted, Error, RequiredField};

verus! {

/// A builder for one method: its flags, its name, the type descriptors of
/// its parameters and of what it returns, and its code.
#[derive(Debug, Clone, PartialEq, Eq)]
pub struct MethodBuilder {
    access_flags: Vec<AccessFlag>,
    name: Option<String>,
    parameter_descriptors: Vec<String>,
    return_descriptor: Option<String>,
    code: Option<CodeBuilder>,
}

/// A [`MethodBuilder`] as a mathematical value.
pub struct MethodView {
    pub access_flags: Seq<AccessFlag>,
    pub name: Option<Seq<char>>,
    pub parameter_descriptors: Seq<Seq<char>>,
    pub return_descriptor: Option<Seq<char>>,
    pub code: Option<CodeView>,
}

/// The characters of `text`, where there is one.
pub open spec fn text_view(text: Option<String>) -> Option<Seq<char>> {
    match text {
        Some(s) => Some(s@),
        None => None,
    }
}

impl View for MethodBuilder {
    type V = MethodView;

    closed spec fn view(&self) -> MethodView {
        MethodView {
            access_flags: self.access_flags@,
            name: text_view(self.name),
            parameter_descriptors: self.parameter_descriptors@.map_values(|d: String| d@),
            return_descriptor: text_view(self.return_descriptor),
            code: match self.code {
                Some(code) => Some(code@),
                None => None,
            },
        }
    }
}

/// The type descriptor of a method: the descriptors of its parameters one
/// after the other in round brackets, then the descriptor of what it returns,
/// which is `V`, for nothing, where none was given.
pub open spec fn method_descriptor(
    parameter_descriptors: Seq<Seq<char>>,
    return_descriptor: Option<Seq<char>>,
) -> Seq<char> {
    "("@ + parameter_descriptors.flatten() + ")"@ + match return_descriptor {
        Some(descriptor) => descriptor,
        None => "V"@,
    }
}

/// Emitting `method` against `pool`: the pool afterwards, and the bytes.
///
/// A method without a name, or else without code, is refused before the
/// pool is touched. Otherwise the name and the type descriptor are inserted
/// into the pool, the code is built and emitted as the one attribute of the
/// method, and the bytes are the flags word, the index of the name, the index
/// of the descriptor, an attribute count of 1, and the attribute. The first
/// step that fails ends the emission with its error.
pub open spec fn spec_emit_method(pool: Seq<EntryView>, method: MethodView) -> (
    Seq<EntryView>,
    Result<Seq<u8>, Error>,
) {
    match (method.name, method.code) {
        (None, _) => (pool, Err(Error::MissingRequiredField(RequiredField::MethodName))),
        (Some(_), None) => (pool, Err(Error::MissingRequiredField(RequiredField::MethodCode))),
        (Some(name), Some(code)) => {
            let (pool, name_index) = spec_insert_string(pool, name);
            match name_index {
                Ok(n) => {
                    let (pool, descriptor_index) = spec_insert_string(
                        pool,
                        method_descriptor(method.parameter_descriptors, method.return_descriptor),
                    );
                    match descriptor_index {
                        Ok(d) => {
                            let (pool, attribute) = spec_build(pool, code);
                            match attribute {
                                Ok(attribute) => {
                                    let (pool, attribute_bytes) = spec_emit_attribute(
                                        pool,
                                        attribute,
                                    );
                                    match attribute_bytes {
                                        Ok(attribute_bytes) => (
                                            pool,
                                            Ok(
                                                u16_be(flags_word(method.access_flags)) + u16_be(n)
                                                    + u16_be(d) + u16_be(1) + attribute_bytes,
                                            ),
                                        ),
                                        Err(e) => (pool, Err(e)),
                                    }
                                },
                                Err(e) => (pool, Err(e)),
                            }
                        },
                        Err(e) => (pool, Err(e)),
                    }
                },
                Err(e) => (pool, Err(e)),
            }
        },
    }
}

/// Writes out the type descriptor of a method.
fn describe(parameter_descriptors: &Vec<String>, return_descriptor: &Option<String>) -> (descriptor:
    String)
    ensures
        descriptor@ == method_descriptor(
            parameter_descriptors@.map_values(|d: String| d@),
            text_view(*return_descriptor),
        ),
{
    let ghost parameters = parameter_descriptors@.map_values(|d: String| d@);
    let mut descriptor = String::new();
    descriptor.append("(");
    let mut i: usize = 0;
    while i < parameter_descriptors.len()
        invariant
            i <= parameter_descriptors.len(),
            parameters == parameter_descriptors@.map_values(|d: String| d@),
            descriptor@ == "("@ + parameters.take(i as int).flatten(),
        decreases parameter_descriptors.len() - i,
    {
        proof {
            parameters.take(i as int).lemma_flatten_push(parameters[i as int]);
            assert(parameters.take(i + 1) == parameters.take(i as int).push(
                parameters[i as int],
            ));
        }
        descriptor.append(parameter_descriptors[i].as_str());
        i = i + 1;
    }
    assert(parameters.take(i as int) == parameters);
    descriptor.append(")");
    match return_descriptor {
        Some(returned) => {
            descriptor.append(returned.as_str());
        },
        None => {
            descriptor.append("V");
        },
    }
    descriptor
}

impl MethodBuilder {
    /// Creates a builder for a method that has no flags, no parameters, and
    /// neither a name nor code yet.
    pub fn new() -> (builder: Self)
        ensures
            builder@ == (MethodView {
                access_flags: Seq::empty(),
                name: None,
                parameter_descriptors: Seq::empty(),
                return_descriptor: None,
                code: None,
            }),
    {
        let builder = Self {
            access_flags: Vec::new(),
            name: None,
            parameter_descriptors: Vec::new(),
            return_descriptor: None,
            code: None,
        };
        assert(builder@.parameter_descriptors == Seq::<Seq<char>>::empty());
        builder
    }

    /// Adds a flag to the method.
    pub fn access_flag(self, flag: AccessFlag) -> (builder: Self)
        ensures
            builder@ == (MethodView { access_flags: self@.access_flags.push(flag), ..self@ }),
    {
        let mut builder = self;
        builder.access_flags.push(flag);
        builder
    }

    /// Sets the name of the method.
    pub fn name(self, name: &str) -> (builder: Self)
        ensures
            builder@ == (MethodView { name: Some(name@), ..self@ }),
    {
        let mut builder = self;
        builder.name = Some(name.to_owned());
        builder
    }

    /// Adds a parameter to the method, by its type descriptor.
    pub fn parameter(self, descriptor: &str) -> (builder: Self)
        ensures
            builder@ == (MethodView {
                parameter_descriptors: self@.parameter_descriptors.push(descriptor@),
                ..self@
            }),
    {
        let mut builder = self;
        builder.parameter_descriptors.push(descriptor.to_owned());
        assert(builder.parameter_descriptors@.map_values(|d: String| d@)
            == self.parameter_descriptors@.map_values(|d: String| d@).push(descriptor@));
        builder
    }

    /// Sets what the method returns, by its type descriptor.
    pub fn return_(self, descriptor: &str) -> (builder: Self)
        ensures
            builder@ == (MethodView { return_descriptor: Some(descriptor@), ..self@ }),
    {
        let mut builder = self;
        builder.return_descriptor = Some(descriptor.to_owned());
        builder
    }

    /// Sets the code of the method.
    pub fn code(self, code: CodeBuilder) -> (builder: Self)
        ensures
            builder@ == (MethodView { code: Some(code@), ..self@ }),
    {
        let mut builder = self;
        builder.code = Some(code);
        builder
    }

    /// Emits the method as the bytes it has in a class file. Its name, its
    /// type descriptor and what its code refers to are inserted into
    /// `constant_pool`.
    pub fn emit(self, constant_pool: &mut ConstantPool) -> (result: Result<Vec<u8>, Error>)
        ensures
            (final(constant_pool)@, emitted(result)) == spec_emit_method(
                old(constant_pool)@,
                self@,
            ),
    {
        let MethodBuilder { access_flags, name, parameter_descriptors, return_descriptor, code } =
            self;
        let name = match name {
            Some(name) => name,
            None => {
                return Err(Error::MissingRequiredField(RequiredField::MethodName));
            },
        };
        let code = match code {
            Some(code) => code,
            None => {
                return Err(Error::MissingRequiredField(RequiredField::MethodCode));
            },
        };
        let mut bytes = Vec::new();
        push_u16(&mut bytes, combine_flags(&access_flags));

        let name_index = constant_pool.insert_string(name.as_str())?;
        push_u16(&mut bytes, name_index);

        let descriptor = describe(&parameter_descriptors, &return_descriptor);
        let descriptor_index = constant_pool.insert_string(descriptor.as_str())?;
        push_u16(&mut bytes, descriptor_index);

        let attribute = code.build(constant_pool)?;
        let mut attribute_bytes = attribute.emit(constant_pool)?;
        push_u16(&mut bytes, 1);
        bytes.append(&mut attribute_bytes);
        Ok(bytes)
    }
}

impl Default for MethodBuilder {
    fn default() -> (builder: Self)
        ensures
            builder@ == (MethodView {
                access_flags: Seq::empty(),
                name: None,
                parameter_descriptors: Seq::empty(),
                return_descriptor: None,
                code: None,
            }),
    {
        Self::new()
    }
}

/// Emitting a method keeps the pool well formed and only ever appends to it.
pub proof fn lemma_emit_method_grows_pool(pool: Seq<EntryView>, method: MethodView)
    requires
        pool_wf(pool),
    ensures
        pool_wf(spec_emit_method(pool, method).0),
        pool.is_prefix_of(spec_emit_method(pool, method).0),
{
    if let (Some(name), Some(code)) = (method.name, method.code) {
        let descriptor = method_descriptor(method.parameter_descriptors, method.return_descriptor);
        lemma_insert_string_wf(pool, name);
        lemma_insert_string_extends(pool, name);
        let (named, name_index) = spec_insert_string(pool, name);
        if name_index is Ok {
            lemma_insert_string_wf(named, descriptor);
            lemma_insert_string_extends(named, descriptor);
            let (described, descriptor_index) = spec_insert_string(named, descriptor);
            if descriptor_index is Ok {
                lemma_build_grows_pool(described, code);
                let (built, attribute) = spec_build(described, code);
                if let Ok(attribute) = attribute {
                    lemma_emit_attribute_grows_pool(built, attribute);
                }
            }
        }
    }
}

} // verus!
