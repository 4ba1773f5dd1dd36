//! The constant pool: the table of literals and symbolic references that the
//! rest of a class file points into by index.

use vstd::prelude::*;
use vstd::hash_map::StringHashMap;
use vstd::utf8::encode_utf8;
use crate::{emitted, Error};
use crate::encoding::{
    i32_be, i64_be, push_all, push_i32, push_i64, push_u16, push_u32, push_u64, u16_be, u32_be,
    u64_be,
};

verus! {

/// The largest index an entry can have. Indices start at 1.
pub const MAX_INDEX: usize = 65535;

/// The longest UTF-8 form, in bytes, that a text entry can hold.
pub const MAX_TEXT_BYTES: usize = 65535;

/// One entry of the constant pool. Entries that refer to other entries hold
/// their indices. `Float` and `Double` hold the IEEE 754 bit pattern of their
/// value.
#[derive(Debug, Clone, PartialEq, Eq)]
pub enum ConstantPoolEntry {
    String(String),
    Integer(i32),
    Float(u32),
    Long(i64),
    Double(u64),
    Class(u16),
    StringReference(u16),
    Field(u16, u16),
    Method(u16, u16),
    InterfaceMethod(u16, u16),
    NameAndType(u16, u16),
    MethodType(u16),
    Dynamic(u16, u16),
    InvokeDynamic(u16, u16),
    Module(u16),
    Package(u16),
}

/// A [`ConstantPoolEntry`] as a mathematical value: a text entry is the
/// sequence of its characters.
pub enum EntryView {
    String(Seq<char>),
    Integer(i32),
    Float(u32),
    Long(i64),
    Double(u64),
    Class(u16),
    StringReference(u16),
    Field(u16, u16),
    Method(u16, u16),
    InterfaceMethod(u16, u16),
    NameAndType(u16, u16),
    MethodType(u16),
    Dynamic(u16, u16),
    InvokeDynamic(u16, u16),
    Module(u16),
    Package(u16),
}

impl View for ConstantPoolEntry {
    type V = EntryView;

    open spec fn view(&self) -> EntryView {
        match *self {
            ConstantPoolEntry::String(s) => EntryView::String(s@),
            ConstantPoolEntry::Integer(i) => EntryView::Integer(i),
            ConstantPoolEntry::Float(bits) => EntryView::Float(bits),
            ConstantPoolEntry::Long(l) => EntryView::Long(l),
            ConstantPoolEntry::Double(bits) => EntryView::Double(bits),
            ConstantPoolEntry::Class(name) => EntryView::Class(name),
            ConstantPoolEntry::StringReference(text) => EntryView::StringReference(text),
            ConstantPoolEntry::Field(class, name_and_type) => EntryView::Field(
                class,
                name_and_type,
            ),
            ConstantPoolEntry::Method(class, name_and_type) => EntryView::Method(
                class,
                name_and_type,
            ),
            ConstantPoolEntry::InterfaceMethod(class, name_and_type) => EntryView::InterfaceMethod(
                class,
                name_and_type,
            ),
            ConstantPoolEntry::NameAndType(name, descriptor) => EntryView::NameAndType(
                name,
                descriptor,
            ),
            ConstantPoolEntry::MethodType(descriptor) => EntryView::MethodType(descriptor),
            ConstantPoolEntry::Dynamic(bootstrap, name_and_type) => EntryView::Dynamic(
                bootstrap,
                name_and_type,
            ),
            ConstantPoolEntry::InvokeDynamic(bootstrap, name_and_type) => EntryView::InvokeDynamic(
                bootstrap,
                name_and_type,
            ),
            ConstantPoolEntry::Module(name) => EntryView::Module(name),
            ConstantPoolEntry::Package(name) => EntryView::Package(name),
        }
    }
}

/// The position of the first text entry of `pool` that holds `s`.
pub open spec fn find_text(pool: Seq<EntryView>, s: Seq<char>) -> Option<int>
    decreases pool.len(),
{
    if pool.len() == 0 {
        None
    } else {
        match find_text(pool.drop_last(), s) {
            Some(i) => Some(i),
            None => if pool.last() == EntryView::String(s) {
                Some(pool.len() - 1)
            } else {
                None
            },
        }
    }
}

/// Appending `entry` to `pool`: the pool afterwards and the index of the new
/// entry. A pool that already holds [`MAX_INDEX`] entries stays as it is.
pub open spec fn spec_append(pool: Seq<EntryView>, entry: EntryView) -> (
    Seq<EntryView>,
    Result<u16, Error>,
) {
    if pool.len() >= MAX_INDEX {
        (pool, Err(Error::SymbolTableOverflow))
    } else {
        (pool.push(entry), Ok((pool.len() + 1) as u16))
    }
}

/// Inserting the text `s` into `pool`: a text that the pool holds keeps its
/// index and leaves the pool unchanged; any other is appended, unless it is
/// too long for a text entry or the pool is full.
pub open spec fn spec_insert_string(pool: Seq<EntryView>, s: Seq<char>) -> (
    Seq<EntryView>,
    Result<u16, Error>,
) {
    match find_text(pool, s) {
        Some(i) => (pool, Ok((i + 1) as u16)),
        None => if encode_utf8(s).len() > MAX_TEXT_BYTES {
            (pool, Err(Error::TextTooLong))
        } else {
            spec_append(pool, EntryView::String(s))
        },
    }
}

/// Inserting a reference of one index: the text `name`, then `entry` built
/// from the index of that text.
pub open spec fn spec_insert_named(
    pool: Seq<EntryView>,
    name: Seq<char>,
    entry: spec_fn(u16) -> EntryView,
) -> (Seq<EntryView>, Result<u16, Error>) {
    let (pool, name_index) = spec_insert_string(pool, name);
    match name_index {
        Ok(i) => spec_append(pool, entry(i)),
        Err(e) => (pool, Err(e)),
    }
}

/// Inserting a class reference: the text `name`, then a fresh class entry
/// that holds the index of that text.
pub open spec fn spec_insert_class(pool: Seq<EntryView>, name: Seq<char>) -> (
    Seq<EntryView>,
    Result<u16, Error>,
) {
    spec_insert_named(pool, name, |i: u16| EntryView::Class(i))
}

/// Inserting a name-and-type pair: the text `name`, the text `descriptor`,
/// then a fresh entry that holds both indices.
pub open spec fn spec_insert_name_and_type(
    pool: Seq<EntryView>,
    name: Seq<char>,
    descriptor: Seq<char>,
) -> (Seq<EntryView>, Result<u16, Error>) {
    let (pool, name_index) = spec_insert_string(pool, name);
    match name_index {
        Ok(n) => {
            let (pool, descriptor_index) = spec_insert_string(pool, descriptor);
            match descriptor_index {
                Ok(d) => spec_append(pool, EntryView::NameAndType(n, d)),
                Err(e) => (pool, Err(e)),
            }
        },
        Err(e) => (pool, Err(e)),
    }
}

/// Inserting a reference to a member of a class: a class reference to
/// `class`, a name-and-type pair of `name` and `descriptor`, then `entry`
/// built from the indices of those two.
pub open spec fn spec_insert_member(
    pool: Seq<EntryView>,
    class: Seq<char>,
    name: Seq<char>,
    descriptor: Seq<char>,
    entry: spec_fn(u16, u16) -> EntryView,
) -> (Seq<EntryView>, Result<u16, Error>) {
    let (pool, class_index) = spec_insert_class(pool, class);
    match class_index {
        Ok(c) => {
            let (pool, name_and_type_index) = spec_insert_name_and_type(pool, name, descriptor);
            match name_and_type_index {
                Ok(nt) => spec_append(pool, entry(c, nt)),
                Err(e) => (pool, Err(e)),
            }
        },
        Err(e) => (pool, Err(e)),
    }
}

/// Inserting a field reference.
pub open spec fn spec_insert_field(
    pool: Seq<EntryView>,
    class: Seq<char>,
    name: Seq<char>,
    descriptor: Seq<char>,
) -> (Seq<EntryView>, Result<u16, Error>) {
    spec_insert_member(pool, class, name, descriptor, |c: u16, nt: u16| EntryView::Field(c, nt))
}

/// Inserting a method reference.
pub open spec fn spec_insert_method(
    pool: Seq<EntryView>,
    class: Seq<char>,
    name: Seq<char>,
    descriptor: Seq<char>,
) -> (Seq<EntryView>, Result<u16, Error>) {
    spec_insert_member(pool, class, name, descriptor, |c: u16, nt: u16| EntryView::Method(c, nt))
}

/// Inserting an interface method reference.
pub open spec fn spec_insert_interface_method(
    pool: Seq<EntryView>,
    interface: Seq<char>,
    name: Seq<char>,
    descriptor: Seq<char>,
) -> (Seq<EntryView>, Result<u16, Error>) {
    spec_insert_member(
        pool,
        interface,
        name,
        descriptor,
        |c: u16, nt: u16| EntryView::InterfaceMethod(c, nt),
    )
}

/// Whether `entry` fits the byte layout of its kind: a text entry does when
/// its UTF-8 form is at most [`MAX_TEXT_BYTES`] long, every other always.
pub open spec fn encodable(entry: EntryView) -> bool {
    entry matches EntryView::String(s) ==> encode_utf8(s).len() <= MAX_TEXT_BYTES
}

/// The bytes of `entry` in a class file: the tag of its kind, then its
/// payload. A text is its UTF-8 form behind a two-byte length.
pub open spec fn entry_bytes(entry: EntryView) -> Seq<u8>
    recommends
        encodable(entry),
{
    match entry {
        EntryView::String(s) => seq![0x01u8] + u16_be(encode_utf8(s).len() as u16) + encode_utf8(
            s,
        ),
        EntryView::Integer(i) => seq![0x03u8] + i32_be(i),
        EntryView::Float(bits) => seq![0x04u8] + u32_be(bits),
        EntryView::Long(l) => seq![0x05u8] + i64_be(l),
        EntryView::Double(bits) => seq![0x06u8] + u64_be(bits),
        EntryView::Class(name) => seq![0x07u8] + u16_be(name),
        EntryView::StringReference(text) => seq![0x08u8] + u16_be(text),
        EntryView::Field(class, name_and_type) => seq![0x09u8] + u16_be(class) + u16_be(
            name_and_type,
        ),
        EntryView::Method(class, name_and_type) => seq![0x0au8] + u16_be(class) + u16_be(
            name_and_type,
        ),
        EntryView::InterfaceMethod(class, name_and_type) => seq![0x0bu8] + u16_be(class) + u16_be(
            name_and_type,
        ),
        EntryView::NameAndType(name, descriptor) => seq![0x0cu8] + u16_be(name) + u16_be(
            descriptor,
        ),
        EntryView::MethodType(descriptor) => seq![0x10u8] + u16_be(descriptor),
        EntryView::Dynamic(bootstrap, name_and_type) => seq![0x12u8] + u16_be(bootstrap) + u16_be(
            name_and_type,
        ),
        EntryView::InvokeDynamic(bootstrap, name_and_type) => seq![0x13u8] + u16_be(bootstrap)
            + u16_be(name_and_type),
        EntryView::Module(name) => seq![0x16u8] + u16_be(name),
        EntryView::Package(name) => seq![0x17u8] + u16_be(name),
    }
}

/// The bytes of all entries of `pool`, in insertion order.
pub open spec fn entries_bytes(pool: Seq<EntryView>) -> Seq<u8>
    decreases pool.len(),
{
    if pool.len() == 0 {
        Seq::empty()
    } else {
        entries_bytes(pool.drop_last()) + entry_bytes(pool.last())
    }
}

/// The class file form of `pool`: the count field, which is one more than the
/// number of entries because index 0 is reserved, then the entries. A pool of
/// [`MAX_INDEX`] entries has no count that fits the field.
pub open spec fn spec_emit(pool: Seq<EntryView>) -> Result<Seq<u8>, Error> {
    if pool.len() >= MAX_INDEX {
        Err(Error::SymbolTableOverflow)
    } else {
        Ok(u16_be((pool.len() + 1) as u16) + entries_bytes(pool))
    }
}

/// Whether, in `pool`, the indices `class_index` and `name_and_type_index`
/// of a member reference at `index` lead to earlier entries that name the
/// member `name` with type `descriptor` of the class `class`.
pub open spec fn resolves_member(
    pool: Seq<EntryView>,
    index: int,
    class_index: u16,
    name_and_type_index: u16,
    class: Seq<char>,
    name: Seq<char>,
    descriptor: Seq<char>,
) -> bool {
    &&& 1 <= class_index < index <= pool.len()
    &&& 1 <= name_and_type_index < index
    &&& pool[class_index - 1] matches EntryView::Class(c)
    &&& 1 <= c < class_index
    &&& pool[c - 1] == EntryView::String(class)
    &&& pool[name_and_type_index - 1] matches EntryView::NameAndType(n, d)
    &&& 1 <= n < name_and_type_index
    &&& 1 <= d < name_and_type_index
    &&& pool[n - 1] == EntryView::String(name)
    &&& pool[d - 1] == EntryView::String(descriptor)
}

/// What holds of every constant pool: it has at most [`MAX_INDEX`] entries,
/// no text occurs in it twice, and every entry fits its byte layout.
pub open spec fn pool_wf(pool: Seq<EntryView>) -> bool {
    &&& pool.len() <= MAX_INDEX
    &&& forall|i: int, j: int|
        0 <= i < j < pool.len() && pool[i] is String ==> pool[i] != pool[j]
    &&& forall|i: int| 0 <= i < pool.len() ==> encodable(#[trigger] pool[i])
}

impl ConstantPoolEntry {
    /// Appends the bytes of this entry to `bytes`.
    fn write_to(&self, bytes: &mut Vec<u8>)
        requires
            encodable(self@),
        ensures
            final(bytes)@ == old(bytes)@ + entry_bytes(self@),
    {
        match self {
            ConstantPoolEntry::String(s) => {
                let text = s.as_str().as_bytes();
                bytes.push(0x01);
                push_u16(bytes, text.len() as u16);
                push_all(bytes, text);
            },
            ConstantPoolEntry::Integer(i) => {
                bytes.push(0x03);
                push_i32(bytes, *i);
            },
            ConstantPoolEntry::Float(bits) => {
                bytes.push(0x04);
                push_u32(bytes, *bits);
            },
            ConstantPoolEntry::Long(l) => {
                bytes.push(0x05);
                push_i64(bytes, *l);
            },
            ConstantPoolEntry::Double(bits) => {
                bytes.push(0x06);
                push_u64(bytes, *bits);
            },
            ConstantPoolEntry::Class(name) => {
                bytes.push(0x07);
                push_u16(bytes, *name);
            },
            ConstantPoolEntry::StringReference(text) => {
                bytes.push(0x08);
                push_u16(bytes, *text);
            },
            ConstantPoolEntry::Field(class, name_and_type) => {
                bytes.push(0x09);
                push_u16(bytes, *class);
                push_u16(bytes, *name_and_type);
            },
            ConstantPoolEntry::Method(class, name_and_type) => {
                bytes.push(0x0a);
                push_u16(bytes, *class);
                push_u16(bytes, *name_and_type);
            },
            ConstantPoolEntry::InterfaceMethod(interface, name_and_type) => {
                bytes.push(0x0b);
                push_u16(bytes, *interface);
                push_u16(bytes, *name_and_type);
            },
            ConstantPoolEntry::NameAndType(name, descriptor) => {
                bytes.push(0x0c);
                push_u16(bytes, *name);
                push_u16(bytes, *descriptor);
            },
            ConstantPoolEntry::MethodType(descriptor) => {
                bytes.push(0x10);
                push_u16(bytes, *descriptor);
            },
            ConstantPoolEntry::Dynamic(bootstrap_method, name_and_type) => {
                bytes.push(0x12);
                push_u16(bytes, *bootstrap_method);
                push_u16(bytes, *name_and_type);
            },
            ConstantPoolEntry::InvokeDynamic(bootstrap_method, name_and_type) => {
                bytes.push(0x13);
                push_u16(bytes, *bootstrap_method);
                push_u16(bytes, *name_and_type);
            },
            ConstantPoolEntry::Module(name) => {
                bytes.push(0x16);
                push_u16(bytes, *name);
            },
            ConstantPoolEntry::Package(name) => {
                bytes.push(0x17);
                push_u16(bytes, *name);
            },
        }
    }

    /// Emits this entry as the bytes it has in a class file. A text entry
    /// whose UTF-8 form is longer than [`MAX_TEXT_BYTES`] has no such form.
    pub fn emit(&self) -> (result: Result<Vec<u8>, Error>)
        ensures
            match result {
                Ok(bytes) => encodable(self@) && bytes@ == entry_bytes(self@),
                Err(e) => !encodable(self@) && e == Error::TextTooLong,
            },
    {
        if let ConstantPoolEntry::String(s) = self {
            if s.as_str().as_bytes().len() > MAX_TEXT_BYTES {
                return Err(Error::TextTooLong);
            }
        }
        let mut bytes = Vec::new();
        self.write_to(&mut bytes);
        Ok(bytes)
    }
}

/// The constant pool of one class file. Indices are handed out in insertion
/// order, starting at 1; only text entries are shared between insertions.
pub struct ConstantPool {
    entries: Vec<ConstantPoolEntry>,
    cache: StringHashMap<u16>,
}

impl View for ConstantPool {
    type V = Seq<EntryView>;

    closed spec fn view(&self) -> Seq<EntryView> {
        self.entries@.map_values(|e: ConstantPoolEntry| e@)
    }
}

impl ConstantPool {
    /// The cache maps each text of the pool to its index, and nothing else.
    #[verifier::type_invariant]
    spec fn inv(self) -> bool {
        &&& self.entries@.len() <= MAX_INDEX
        &&& forall|s: Seq<char>| #[trigger]
            self.cache@.contains_key(s) ==> 1 <= self.cache@[s] <= self.entries@.len()
                && self.entries@[self.cache@[s] - 1]@ == EntryView::String(s)
        &&& forall|i: int|
            0 <= i < self.entries@.len() ==> self.text_is_cached(#[trigger] self.entries@[i]@, i)
    }

    /// Whether `entry`, the entry at position `i`, if it is a text, is short
    /// enough and in the cache with its index.
    spec fn text_is_cached(self, entry: EntryView, i: int) -> bool {
        entry matches EntryView::String(s) ==> self.cache@.contains_key(s) && self.cache@[s] == i
            + 1 && encode_utf8(s).len() <= MAX_TEXT_BYTES
    }

    /// The invariant makes the view well formed.
    proof fn lemma_inv_wf(self)
        requires
            self.inv(),
        ensures
            pool_wf(self@),
    {
        assert forall|i: int, j: int|
            0 <= i < j < self@.len() && self@[i] is String implies self@[i] != self@[j] by {
            assert(self.entries@[i]@ == self@[i]);
            assert(self.entries@[j]@ == self@[j]);
        }
        assert forall|i: int| 0 <= i < self@.len() implies encodable(#[trigger] self@[i]) by {
            assert(self.entries@[i]@ == self@[i]);
        }
    }

    /// Looking a text up in the cache finds what `find_text` finds.
    proof fn lemma_cache_finds(self, s: Seq<char>)
        requires
            self.inv(),
        ensures
            find_text(self@, s) == if self.cache@.contains_key(s) {
                Some(self.cache@[s] - 1)
            } else {
                None
            },
    {
        lemma_find_text(self@, s);
        if self.cache@.contains_key(s) {
            let i = self.cache@[s] - 1;
            assert(self@[i] == EntryView::String(s));
            let j = find_text(self@, s)->0;
            assert(self.entries@[j]@ == EntryView::String(s));
        } else {
            if find_text(self@, s) is Some {
                let j = find_text(self@, s)->0;
                assert(self.entries@[j]@ == EntryView::String(s));
            }
        }
    }

    /// Creates an empty constant pool.
    pub fn new() -> (pool: Self)
        ensures
            pool@ == Seq::<EntryView>::empty(),
            pool_wf(pool@),
    {
        ConstantPool { entries: Vec::new(), cache: StringHashMap::new() }
    }

    /// Appends an entry that is no text and returns its index.
    fn append(&mut self, entry: ConstantPoolEntry) -> (index: Result<u16, Error>)
        requires
            !(entry@ is String),
        ensures
            (final(self)@, index) == spec_append(old(self)@, entry@),
            pool_wf(final(self)@),
    {
        proof {
            use_type_invariant(&*self);
            self.lemma_inv_wf();
        }
        if self.entries.len() >= MAX_INDEX {
            return Err(Error::SymbolTableOverflow);
        }
        // The invariant ties the fields together, so the pool is taken apart,
        // changed, and put back whole.
        let mut taken = ConstantPool::new();
        std::mem::swap(self, &mut taken);
        let ConstantPool { mut entries, cache } = taken;
        entries.push(entry);
        let index = entries.len() as u16;
        *self = ConstantPool { entries, cache };
        proof {
            self.lemma_inv_wf();
        }
        Ok(index)
    }

    /// Inserts a text and returns its index. A text that the pool holds
    /// already keeps its index, and the pool stays as it is.
    pub fn insert_string(&mut self, s: &str) -> (index: Result<u16, Error>)
        ensures
            (final(self)@, index) == spec_insert_string(old(self)@, s@),
            pool_wf(final(self)@),
    {
        proof {
            use_type_invariant(&*self);
            self.lemma_inv_wf();
            self.lemma_cache_finds(s@);
        }
        match self.cache.get(s) {
            Some(index) => {
                return Ok(*index);
            },
            None => {},
        }
        if s.as_bytes().len() > MAX_TEXT_BYTES {
            return Err(Error::TextTooLong);
        }
        if self.entries.len() >= MAX_INDEX {
            return Err(Error::SymbolTableOverflow);
        }
        // The invariant ties the fields together, so the pool is taken apart,
        // changed, and put back whole.
        let mut taken = ConstantPool::new();
        std::mem::swap(self, &mut taken);
        let ConstantPool { mut entries, mut cache } = taken;
        entries.push(ConstantPoolEntry::String(s.to_owned()));
        let index = entries.len() as u16;
        cache.insert(s.to_owned(), index);
        *self = ConstantPool { entries, cache };
        proof {
            self.lemma_inv_wf();
        }
        Ok(index)
    }

    /// Inserts a 32-bit integer and returns its index.
    pub fn insert_integer(&mut self, i: i32) -> (index: Result<u16, Error>)
        ensures
            (final(self)@, index) == spec_append(old(self)@, EntryView::Integer(i)),
            pool_wf(final(self)@),
    {
        self.append(ConstantPoolEntry::Integer(i))
    }

    /// Inserts a 32-bit float, given as its IEEE 754 bit pattern, and returns
    /// its index.
    pub fn insert_float(&mut self, bits: u32) -> (index: Result<u16, Error>)
        ensures
            (final(self)@, index) == spec_append(old(self)@, EntryView::Float(bits)),
            pool_wf(final(self)@),
    {
        self.append(ConstantPoolEntry::Float(bits))
    }

    /// Inserts a 64-bit integer and returns its index.
    pub fn insert_long(&mut self, l: i64) -> (index: Result<u16, Error>)
        ensures
            (final(self)@, index) == spec_append(old(self)@, EntryView::Long(l)),
            pool_wf(final(self)@),
    {
        self.append(ConstantPoolEntry::Long(l))
    }

    /// Inserts a 64-bit float, given as its IEEE 754 bit pattern, and returns
    /// its index.
    pub fn insert_double(&mut self, bits: u64) -> (index: Result<u16, Error>)
        ensures
            (final(self)@, index) == spec_append(old(self)@, EntryView::Double(bits)),
            pool_wf(final(self)@),
    {
        self.append(ConstantPoolEntry::Double(bits))
    }

    /// Inserts a class reference and returns its index.
    pub fn insert_class(&mut self, s: &str) -> (index: Result<u16, Error>)
        ensures
            (final(self)@, index) == spec_insert_class(old(self)@, s@),
            pool_wf(final(self)@),
    {
        let name = self.insert_string(s)?;
        self.append(ConstantPoolEntry::Class(name))
    }

    /// Inserts a reference to a text constant and returns its index.
    pub fn insert_string_reference(&mut self, s: &str) -> (index: Result<u16, Error>)
        ensures
            (final(self)@, index) == spec_insert_named(
                old(self)@,
                s@,
                |i: u16| EntryView::StringReference(i),
            ),
            pool_wf(final(self)@),
    {
        let text = self.insert_string(s)?;
        self.append(ConstantPoolEntry::StringReference(text))
    }

    /// Inserts a field reference and returns its index.
    pub fn insert_field(&mut self, class: &str, field: &str, descriptor: &str) -> (index: Result<
        u16,
        Error,
    >)
        ensures
            (final(self)@, index) == spec_insert_field(old(self)@, class@, field@, descriptor@),
            pool_wf(final(self)@),
    {
        let class_index = self.insert_class(class)?;
        let name_and_type_index = self.insert_name_and_type(field, descriptor)?;
        self.append(ConstantPoolEntry::Field(class_index, name_and_type_index))
    }

    /// Inserts a method reference and returns its index.
    pub fn insert_method(&mut self, class: &str, method: &str, descriptor: &str) -> (index: Result<
        u16,
        Error,
    >)
        ensures
            (final(self)@, index) == spec_insert_method(old(self)@, class@, method@, descriptor@),
            pool_wf(final(self)@),
    {
        let class_index = self.insert_class(class)?;
        let name_and_type_index = self.insert_name_and_type(method, descriptor)?;
        self.append(ConstantPoolEntry::Method(class_index, name_and_type_index))
    }

    /// Inserts an interface method reference and returns its index.
    pub fn insert_interface_method(
        &mut self,
        interface: &str,
        method: &str,
        descriptor: &str,
    ) -> (index: Result<u16, Error>)
        ensures
            (final(self)@, index) == spec_insert_interface_method(
                old(self)@,
                interface@,
                method@,
                descriptor@,
            ),
            pool_wf(final(self)@),
    {
        let interface_index = self.insert_class(interface)?;
        let name_and_type_index = self.insert_name_and_type(method, descriptor)?;
        self.append(ConstantPoolEntry::InterfaceMethod(interface_index, name_and_type_index))
    }

    /// Inserts a name-and-type pair and returns its index.
    pub fn insert_name_and_type(&mut self, name: &str, descriptor: &str) -> (index: Result<
        u16,
        Error,
    >)
        ensures
            (final(self)@, index) == spec_insert_name_and_type(old(self)@, name@, descriptor@),
            pool_wf(final(self)@),
    {
        let name_index = self.insert_string(name)?;
        let descriptor_index = self.insert_string(descriptor)?;
        self.append(ConstantPoolEntry::NameAndType(name_index, descriptor_index))
    }

    /// Inserts a method type and returns its index.
    pub fn insert_method_type(&mut self, descriptor: &str) -> (index: Result<u16, Error>)
        ensures
            (final(self)@, index) == spec_insert_named(
                old(self)@,
                descriptor@,
                |i: u16| EntryView::MethodType(i),
            ),
            pool_wf(final(self)@),
    {
        let descriptor_index = self.insert_string(descriptor)?;
        self.append(ConstantPoolEntry::MethodType(descriptor_index))
    }

    /// Inserts a dynamically computed constant and returns its index.
    pub fn insert_dynamic(&mut self, bootstrap_method: u16, name_and_type: u16) -> (index: Result<
        u16,
        Error,
    >)
        ensures
            (final(self)@, index) == spec_append(
                old(self)@,
                EntryView::Dynamic(bootstrap_method, name_and_type),
            ),
            pool_wf(final(self)@),
    {
        self.append(ConstantPoolEntry::Dynamic(bootstrap_method, name_and_type))
    }

    /// Inserts a dynamically computed call site and returns its index.
    pub fn insert_invoke_dynamic(&mut self, bootstrap_method: u16, name_and_type: u16) -> (index:
        Result<u16, Error>)
        ensures
            (final(self)@, index) == spec_append(
                old(self)@,
                EntryView::InvokeDynamic(bootstrap_method, name_and_type),
            ),
            pool_wf(final(self)@),
    {
        self.append(ConstantPoolEntry::InvokeDynamic(bootstrap_method, name_and_type))
    }

    /// Inserts a module reference and returns its index.
    pub fn insert_module(&mut self, name: &str) -> (index: Result<u16, Error>)
        ensures
            (final(self)@, index) == spec_insert_named(
                old(self)@,
                name@,
                |i: u16| EntryView::Module(i),
            ),
            pool_wf(final(self)@),
    {
        let name_index = self.insert_string(name)?;
        self.append(ConstantPoolEntry::Module(name_index))
    }

    /// Inserts a package reference and returns its index.
    pub fn insert_package(&mut self, name: &str) -> (index: Result<u16, Error>)
        ensures
            (final(self)@, index) == spec_insert_named(
                old(self)@,
                name@,
                |i: u16| EntryView::Package(i),
            ),
            pool_wf(final(self)@),
    {
        let name_index = self.insert_string(name)?;
        self.append(ConstantPoolEntry::Package(name_index))
    }

    /// Emits the pool as the bytes it has in a class file.
    pub fn emit(self) -> (result: Result<Vec<u8>, Error>)
        ensures
            emitted(result) == spec_emit(self@),
    {
        proof {
            use_type_invariant(&self);
            self.lemma_inv_wf();
        }
        if self.entries.len() >= MAX_INDEX {
            return Err(Error::SymbolTableOverflow);
        }
        let mut bytes = Vec::new();
        push_u16(&mut bytes, (self.entries.len() + 1) as u16);
        let mut i: usize = 0;
        while i < self.entries.len()
            invariant
                i <= self.entries.len(),
                pool_wf(self@),
                self@.len() == self.entries.len() < MAX_INDEX,
                forall|k: int| 0 <= k < self@.len() ==> self@[k] == self.entries@[k]@,
                bytes@ == u16_be((self@.len() + 1) as u16) + entries_bytes(self@.take(i as int)),
            decreases self.entries.len() - i,
        {
            assert(self@.take(i + 1).drop_last() == self@.take(i as int));
            assert(encodable(self@[i as int]));
            self.entries[i].write_to(&mut bytes);
            i = i + 1;
        }
        assert(self@.take(i as int) == self@);
        Ok(bytes)
    }
}

impl Default for ConstantPool {
    fn default() -> (pool: Self)
        ensures
            pool@ == Seq::<EntryView>::empty(),
    {
        Self::new()
    }
}

/// `find_text` returns the first position that holds the text, and `None`
/// only where no position does.
pub proof fn lemma_find_text(pool: Seq<EntryView>, s: Seq<char>)
    ensures
        match find_text(pool, s) {
            Some(i) => 0 <= i < pool.len() && pool[i] == EntryView::String(s) && forall|j: int|
                0 <= j < i ==> pool[j] != EntryView::String(s),
            None => forall|j: int| 0 <= j < pool.len() ==> pool[j] != EntryView::String(s),
        },
    decreases pool.len(),
{
    if pool.len() > 0 {
        let front = pool.drop_last();
        lemma_find_text(front, s);
        assert(forall|j: int| 0 <= j < front.len() ==> front[j] == pool[j]);
    }
}

/// Appending an entry that is no text keeps a pool well formed.
pub proof fn lemma_append_wf(pool: Seq<EntryView>, entry: EntryView)
    requires
        pool_wf(pool),
        !(entry is String),
    ensures
        pool_wf(spec_append(pool, entry).0),
{
}

/// Inserting a text keeps a pool well formed.
pub proof fn lemma_insert_string_wf(pool: Seq<EntryView>, s: Seq<char>)
    requires
        pool_wf(pool),
    ensures
        pool_wf(spec_insert_string(pool, s).0),
{
    lemma_find_text(pool, s);
}

/// Inserting a reference of one index keeps a pool well formed.
pub proof fn lemma_insert_named_wf(
    pool: Seq<EntryView>,
    name: Seq<char>,
    entry: spec_fn(u16) -> EntryView,
)
    requires
        pool_wf(pool),
        forall|i: u16| !(#[trigger] entry(i) is String),
    ensures
        pool_wf(spec_insert_named(pool, name, entry).0),
{
    lemma_insert_string_wf(pool, name);
    let (named, index) = spec_insert_string(pool, name);
    if let Ok(i) = index {
        lemma_append_wf(named, entry(i));
    }
}

/// Inserting a name-and-type pair keeps a pool well formed.
pub proof fn lemma_insert_name_and_type_wf(
    pool: Seq<EntryView>,
    name: Seq<char>,
    descriptor: Seq<char>,
)
    requires
        pool_wf(pool),
    ensures
        pool_wf(spec_insert_name_and_type(pool, name, descriptor).0),
{
    lemma_insert_string_wf(pool, name);
    let (named, name_index) = spec_insert_string(pool, name);
    if let Ok(n) = name_index {
        lemma_insert_string_wf(named, descriptor);
        let (described, descriptor_index) = spec_insert_string(named, descriptor);
        if let Ok(d) = descriptor_index {
            lemma_append_wf(described, EntryView::NameAndType(n, d));
        }
    }
}

/// Inserting a reference to a member of a class keeps a pool well formed.
pub proof fn lemma_insert_member_wf(
    pool: Seq<EntryView>,
    class: Seq<char>,
    name: Seq<char>,
    descriptor: Seq<char>,
    entry: spec_fn(u16, u16) -> EntryView,
)
    requires
        pool_wf(pool),
        forall|c: u16, nt: u16| !(#[trigger] entry(c, nt) is String),
    ensures
        pool_wf(spec_insert_member(pool, class, name, descriptor, entry).0),
{
    lemma_insert_named_wf(pool, class, |i: u16| EntryView::Class(i));
    let (classed, class_index) = spec_insert_class(pool, class);
    if let Ok(c) = class_index {
        lemma_insert_name_and_type_wf(classed, name, descriptor);
        let (typed, name_and_type_index) = spec_insert_name_and_type(classed, name, descriptor);
        if let Ok(nt) = name_and_type_index {
            lemma_append_wf(typed, entry(c, nt));
        }
    }
}

/// An insertion of a text only ever appends: the entries that the pool held
/// keep their places.
pub proof fn lemma_insert_string_extends(pool: Seq<EntryView>, s: Seq<char>)
    ensures
        pool.is_prefix_of(spec_insert_string(pool, s).0),
{
}

/// An insertion of a reference of one index only ever appends.
pub proof fn lemma_insert_named_extends(
    pool: Seq<EntryView>,
    name: Seq<char>,
    entry: spec_fn(u16) -> EntryView,
)
    ensures
        pool.is_prefix_of(spec_insert_named(pool, name, entry).0),
{
}

/// An insertion of a name-and-type pair only ever appends.
pub proof fn lemma_insert_name_and_type_extends(
    pool: Seq<EntryView>,
    name: Seq<char>,
    descriptor: Seq<char>,
)
    ensures
        pool.is_prefix_of(spec_insert_name_and_type(pool, name, descriptor).0),
{
    let named = spec_insert_string(pool, name).0;
    lemma_insert_string_extends(pool, name);
    lemma_insert_string_extends(named, descriptor);
}

/// An insertion of a reference to a member of a class only ever appends.
pub proof fn lemma_insert_member_extends(
    pool: Seq<EntryView>,
    class: Seq<char>,
    name: Seq<char>,
    descriptor: Seq<char>,
    entry: spec_fn(u16, u16) -> EntryView,
)
    ensures
        pool.is_prefix_of(spec_insert_member(pool, class, name, descriptor, entry).0),
{
    let classed = spec_insert_class(pool, class).0;
    lemma_insert_named_extends(pool, class, |i: u16| EntryView::Class(i));
    lemma_insert_name_and_type_extends(classed, name, descriptor);
}

/// A class reference that was inserted is the last entry of the pool, and
/// the index it holds leads to an earlier entry: the text of the class name.
pub proof fn lemma_class_refers_to_its_name(pool: Seq<EntryView>, name: Seq<char>)
    requires
        pool_wf(pool),
    ensures
        ({
            let (after, index) = spec_insert_class(pool, name);
            index matches Ok(i) ==> {
                &&& i == after.len()
                &&& after[i - 1] matches EntryView::Class(n)
                &&& 1 <= n < i
                &&& after[n - 1] == EntryView::String(name)
            }
        }),
{
    lemma_index_in_range(pool, name);
}

/// A name-and-type pair that was inserted is the last entry of the pool, and
/// the indices it holds lead to earlier entries: the texts of the name and of
/// the descriptor.
pub proof fn lemma_name_and_type_refers_to_its_texts(
    pool: Seq<EntryView>,
    name: Seq<char>,
    descriptor: Seq<char>,
)
    requires
        pool_wf(pool),
    ensures
        ({
            let (after, index) = spec_insert_name_and_type(pool, name, descriptor);
            index matches Ok(i) ==> {
                &&& i == after.len()
                &&& after[i - 1] matches EntryView::NameAndType(n, d)
                &&& 1 <= n < i
                &&& 1 <= d < i
                &&& after[n - 1] == EntryView::String(name)
                &&& after[d - 1] == EntryView::String(descriptor)
            }
        }),
{
    let (named, name_index) = spec_insert_string(pool, name);
    lemma_index_in_range(pool, name);
    lemma_insert_string_wf(pool, name);
    lemma_index_in_range(named, descriptor);
    lemma_insert_string_extends(named, descriptor);
}

/// A field reference that was inserted is the last entry of the pool, and
/// its indices lead to earlier entries that name what was asked for: a class
/// reference to `class`, and a pair of `name` and `descriptor`.
pub proof fn lemma_field_refers_to_its_parts(
    pool: Seq<EntryView>,
    class: Seq<char>,
    name: Seq<char>,
    descriptor: Seq<char>,
)
    requires
        pool_wf(pool),
    ensures
        ({
            let (after, index) = spec_insert_field(pool, class, name, descriptor);
            index matches Ok(i) ==> {
                &&& i == after.len()
                &&& after[i - 1] matches EntryView::Field(c, nt)
                &&& resolves_member(after, i as int, c, nt, class, name, descriptor)
            }
        }),
{
    lemma_member_refers_to_its_parts(
        pool,
        class,
        name,
        descriptor,
        |c: u16, nt: u16| EntryView::Field(c, nt),
    );
}

/// A method reference that was inserted is the last entry of the pool, and
/// its indices lead to earlier entries that name what was asked for: a class
/// reference to `class`, and a pair of `name` and `descriptor`.
pub proof fn lemma_method_refers_to_its_parts(
    pool: Seq<EntryView>,
    class: Seq<char>,
    name: Seq<char>,
    descriptor: Seq<char>,
)
    requires
        pool_wf(pool),
    ensures
        ({
            let (after, index) = spec_insert_method(pool, class, name, descriptor);
            index matches Ok(i) ==> {
                &&& i == after.len()
                &&& after[i - 1] matches EntryView::Method(c, nt)
                &&& resolves_member(after, i as int, c, nt, class, name, descriptor)
            }
        }),
{
    lemma_member_refers_to_its_parts(
        pool,
        class,
        name,
        descriptor,
        |c: u16, nt: u16| EntryView::Method(c, nt),
    );
}

/// The same for any kind of reference to a member of a class.
pub proof fn lemma_member_refers_to_its_parts(
    pool: Seq<EntryView>,
    class: Seq<char>,
    name: Seq<char>,
    descriptor: Seq<char>,
    entry: spec_fn(u16, u16) -> EntryView,
)
    requires
        pool_wf(pool),
    ensures
        ({
            let (after, index) = spec_insert_member(pool, class, name, descriptor, entry);
            index matches Ok(i) ==> {
                &&& i == after.len()
                &&& exists|c: u16, nt: u16|
                    after[i - 1] == #[trigger] entry(c, nt) && resolves_member(
                        after,
                        i as int,
                        c,
                        nt,
                        class,
                        name,
                        descriptor,
                    )
            }
        }),
{
    let (classed, class_index) = spec_insert_class(pool, class);
    lemma_class_refers_to_its_name(pool, class);
    lemma_insert_named_wf(pool, class, |i: u16| EntryView::Class(i));
    if let Ok(c) = class_index {
        let (typed, name_and_type_index) = spec_insert_name_and_type(classed, name, descriptor);
        lemma_name_and_type_refers_to_its_texts(classed, name, descriptor);
        lemma_insert_name_and_type_extends(classed, name, descriptor);
        if let Ok(nt) = name_and_type_index {
            let (after, index) = spec_append(typed, entry(c, nt));
            if let Ok(i) = index {
                assert(typed[c - 1] == classed[c - 1]);
                let class_name = classed[c - 1]->Class_0;
                assert(typed[class_name - 1] == classed[class_name - 1]);
                assert(resolves_member(after, i as int, c, nt, class, name, descriptor));
            }
        }
    }
}

/// The emitted entries of a pool hold the bytes of each of its entries, at
/// the place that the entries before it leave.
pub proof fn lemma_entry_in_emitted(pool: Seq<EntryView>, k: int)
    requires
        0 <= k < pool.len(),
    ensures
        entries_bytes(pool) == entries_bytes(pool.take(k)) + entry_bytes(pool[k]) + entries_bytes(
            pool.skip(k + 1),
        ),
    decreases pool.len(),
{
    let front = pool.drop_last();
    if k == pool.len() - 1 {
        assert(pool.take(k) == front);
        assert(pool.skip(k + 1) == Seq::<EntryView>::empty());
    } else {
        lemma_entry_in_emitted(front, k);
        assert(front.take(k) == pool.take(k));
        assert(pool.skip(k + 1).drop_last() == front.skip(k + 1));
        assert(pool.skip(k + 1).last() == pool.last());
    }
}

/// A text that is inserted twice gets the same index both times, and the
/// second insertion leaves the pool as the first left it: the pool, and with
/// it the entry count that it emits, counts the text once. Where the first
/// insertion succeeded, the text stands at the index returned and nowhere
/// else.
pub proof fn lemma_same_text_same_index(pool: Seq<EntryView>, s: Seq<char>)
    requires
        pool_wf(pool),
    ensures
        ({
            let first = spec_insert_string(pool, s);
            let second = spec_insert_string(first.0, s);
            &&& second == first
            &&& spec_emit(second.0) == spec_emit(first.0)
            &&& first.1 matches Ok(index) ==> forall|k: int|
                0 <= k < first.0.len() ==> (first.0[k] == EntryView::String(s) <==> k == index - 1)
        }),
{
    let first = spec_insert_string(pool, s);
    lemma_find_text(pool, s);
    lemma_insert_string_wf(pool, s);
    if find_text(pool, s) is None && first.1 is Ok {
        assert(first.0.drop_last() == pool);
    }
    lemma_find_text(first.0, s);
}

/// Two different texts get different indices, and after both insertions each
/// stands in the pool at its index and in the emitted entries at the place of
/// that index.
pub proof fn lemma_distinct_texts_distinct_indices(
    pool: Seq<EntryView>,
    s1: Seq<char>,
    s2: Seq<char>,
)
    requires
        pool_wf(pool),
        s1 != s2,
    ensures
        ({
            let (first, index1) = spec_insert_string(pool, s1);
            let (second, index2) = spec_insert_string(first, s2);
            index1 matches Ok(i1) ==> index2 matches Ok(i2) ==> {
                &&& i1 != i2
                &&& 1 <= i1 <= second.len()
                &&& 1 <= i2 <= second.len()
                &&& second[i1 - 1] == EntryView::String(s1)
                &&& second[i2 - 1] == EntryView::String(s2)
                &&& entries_bytes(second) == entries_bytes(second.take(i1 - 1)) + entry_bytes(
                    EntryView::String(s1),
                ) + entries_bytes(second.skip(i1 as int))
                &&& entries_bytes(second) == entries_bytes(second.take(i2 - 1)) + entry_bytes(
                    EntryView::String(s2),
                ) + entries_bytes(second.skip(i2 as int))
            }
        }),
{
    let (first, index1) = spec_insert_string(pool, s1);
    let (second, index2) = spec_insert_string(first, s2);
    lemma_find_text(pool, s1);
    lemma_insert_string_wf(pool, s1);
    lemma_find_text(first, s2);
    if let Ok(i1) = index1 {
        if let Ok(i2) = index2 {
            lemma_entry_in_emitted(second, i1 - 1);
            lemma_entry_in_emitted(second, i2 - 1);
        }
    }
}

/// A pool that holds [`MAX_INDEX`] entries takes no text that it does not
/// hold yet: the insertion fails and leaves the pool as it is, so no index
/// ever wraps around.
pub proof fn lemma_full_pool_overflows(pool: Seq<EntryView>, s: Seq<char>)
    requires
        pool.len() >= MAX_INDEX,
        forall|k: int| 0 <= k < pool.len() ==> pool[k] != EntryView::String(s),
    ensures
        spec_insert_string(pool, s) == (
            pool,
            Err::<u16, Error>(
                if encode_utf8(s).len() > MAX_TEXT_BYTES {
                    Error::TextTooLong
                } else {
                    Error::SymbolTableOverflow
                },
            ),
        ),
{
    lemma_find_text(pool, s);
}

/// An insertion that succeeds returns the position of the entry, counted
/// from 1, which is at most [`MAX_INDEX`].
pub proof fn lemma_index_in_range(pool: Seq<EntryView>, s: Seq<char>)
    requires
        pool_wf(pool),
    ensures
        ({
            let (after, index) = spec_insert_string(pool, s);
            index matches Ok(i) ==> 1 <= i <= after.len() <= MAX_INDEX && after[i - 1]
                == EntryView::String(s)
        }),
{
    lemma_find_text(pool, s);
}

} // verus!
