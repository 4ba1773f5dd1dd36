use jaby::access_flag::AccessFlag;
use jaby::attribute::code::CodeBuilder;
use jaby::instruction::{
    aload, getstatic, iadd, iconst, iload, invokespecial, invokestatic, invokevirtual, ireturn,
    return_,
};
use jaby::method::MethodBuilder;
use jaby::ClassFileBuilder;

/// One constant pool entry as read back from a class file: its tag and the
/// bytes behind the tag.
struct RawEntry {
    tag: u8,
    payload: Vec<u8>,
}

fn be16(bytes: &[u8], at: usize) -> usize {
    ((bytes[at] as usize) << 8) | bytes[at + 1] as usize
}

/// Reads the constant pool of a class file back, and returns its entries
/// with the offset of the first byte behind the pool.
fn read_pool(class_file: &[u8]) -> (Vec<RawEntry>, usize) {
    let count = be16(class_file, 8);
    let mut at = 10;
    let mut entries = Vec::new();
    while entries.len() + 1 < count {
        let tag = class_file[at];
        let len = match tag {
            0x01 => 2 + be16(class_file, at + 1),
            0x07 | 0x08 | 0x10 | 0x16 | 0x17 => 2,
            0x03 | 0x04 | 0x09 | 0x0a | 0x0b | 0x0c | 0x12 | 0x13 => 4,
            0x05 | 0x06 => 8,
            other => panic!("unknown tag {}", other),
        };
        entries.push(RawEntry { tag, payload: class_file[at + 1..at + 1 + len].to_vec() });
        at += 1 + len;
    }
    (entries, at)
}

/// The text of the entry at `index`, which must be a text entry.
fn text_at(entries: &[RawEntry], index: usize) -> String {
    let entry = &entries[index - 1];
    assert_eq!(entry.tag, 0x01);
    String::from_utf8(entry.payload[2..].to_vec()).unwrap()
}

/// How many class entries name the class `name`.
fn count_classes(entries: &[RawEntry], name: &str) -> usize {
    entries
        .iter()
        .filter(|e| e.tag == 0x07 && text_at(entries, be16(&e.payload, 0)) == name)
        .count()
}

/// How many method entries refer to a method called `name`.
fn count_methods(entries: &[RawEntry], name: &str) -> usize {
    entries
        .iter()
        .filter(|e| {
            e.tag == 0x0a && {
                let name_and_type = &entries[be16(&e.payload, 2) - 1];
                name_and_type.tag == 0x0c
                    && text_at(entries, be16(&name_and_type.payload, 0)) == name
            }
        })
        .count()
}

/// The stack bounds of the methods of a class file, in order.
fn max_stacks(class_file: &[u8]) -> Vec<usize> {
    let (_, pool_end) = read_pool(class_file);
    let method_count = be16(class_file, pool_end + 10);
    let mut at = pool_end + 12;
    let mut bounds = Vec::new();
    for _ in 0..method_count {
        assert_eq!(be16(class_file, at + 6), 1);
        let attribute = at + 8;
        let length = ((be16(class_file, attribute + 2) << 16) | be16(class_file, attribute + 4))
            as usize;
        bounds.push(be16(class_file, attribute + 6));
        at = attribute + 6 + length;
    }
    assert_eq!(&class_file[at..], &[0x00, 0x00]);
    bounds
}

#[test]
fn add_two_numbers() {
    let bytes = ClassFileBuilder::new()
        .access_flag(AccessFlag::Public)
        .class_name("Test")
        .method(
            MethodBuilder::new()
                .access_flag(AccessFlag::Public)
                .name("<init>")
                .code(CodeBuilder::new().max_locals(1).instructions(vec![
                    aload(0),
                    invokespecial("java/lang/Object", "<init>", "()V"),
                    return_(),
                ])),
        )
        .method(
            MethodBuilder::new()
                .access_flag(AccessFlag::Public)
                .access_flag(AccessFlag::Static)
                .name("main")
                .parameter(&"[Ljava/lang/String;".to_string())
                .return_(&"V".to_string())
                .code(CodeBuilder::new().max_locals(1).instructions(vec![
                    getstatic("java/lang/System", "out", "Ljava/io/PrintStream"),
                    iconst(2),
                    iconst(2),
                    iadd(),
                    invokevirtual("java/io/PrintStream", "println", "(I)V"),
                    return_(),
                ])),
        )
        .emit()
        .unwrap();

    let expected: Vec<u8> = vec![
        0xca, 0xfe, 0xba, 0xbe, 0x00, 0x00, 0x00, 0x3d, 0x00, 0x19, 0x01, 0x00,
        0x06, 0x3c, 0x69, 0x6e, 0x69, 0x74, 0x3e, 0x01, 0x00, 0x03, 0x28, 0x29,
        0x56, 0x01, 0x00, 0x10, 0x6a, 0x61, 0x76, 0x61, 0x2f, 0x6c, 0x61, 0x6e,
        0x67, 0x2f, 0x4f, 0x62, 0x6a, 0x65, 0x63, 0x74, 0x07, 0x00, 0x03, 0x0c,
        0x00, 0x01, 0x00, 0x02, 0x0a, 0x00, 0x04, 0x00, 0x05, 0x01, 0x00, 0x04,
        0x43, 0x6f, 0x64, 0x65, 0x01, 0x00, 0x04, 0x6d, 0x61, 0x69, 0x6e, 0x01,
        0x00, 0x16, 0x28, 0x5b, 0x4c, 0x6a, 0x61, 0x76, 0x61, 0x2f, 0x6c, 0x61,
        0x6e, 0x67, 0x2f, 0x53, 0x74, 0x72, 0x69, 0x6e, 0x67, 0x3b, 0x29, 0x56,
        0x01, 0x00, 0x10, 0x6a, 0x61, 0x76, 0x61, 0x2f, 0x6c, 0x61, 0x6e, 0x67,
        0x2f, 0x53, 0x79, 0x73, 0x74, 0x65, 0x6d, 0x07, 0x00, 0x0a, 0x01, 0x00,
        0x03, 0x6f, 0x75, 0x74, 0x01, 0x00, 0x14, 0x4c, 0x6a, 0x61, 0x76, 0x61,
        0x2f, 0x69, 0x6f, 0x2f, 0x50, 0x72, 0x69, 0x6e, 0x74, 0x53, 0x74, 0x72,
        0x65, 0x61, 0x6d, 0x0c, 0x00, 0x0c, 0x00, 0x0d, 0x09, 0x00, 0x0b, 0x00,
        0x0e, 0x01, 0x00, 0x13, 0x6a, 0x61, 0x76, 0x61, 0x2f, 0x69, 0x6f, 0x2f,
        0x50, 0x72, 0x69, 0x6e, 0x74, 0x53, 0x74, 0x72, 0x65, 0x61, 0x6d, 0x07,
        0x00, 0x10, 0x01, 0x00, 0x07, 0x70, 0x72, 0x69, 0x6e, 0x74, 0x6c, 0x6e,
        0x01, 0x00, 0x04, 0x28, 0x49, 0x29, 0x56, 0x0c, 0x00, 0x12, 0x00, 0x13,
        0x0a, 0x00, 0x11, 0x00, 0x14, 0x01, 0x00, 0x04, 0x54, 0x65, 0x73, 0x74,
        0x07, 0x00, 0x16, 0x07, 0x00, 0x03, 0x00, 0x01, 0x00, 0x17, 0x00, 0x18,
        0x00, 0x00, 0x00, 0x00, 0x00, 0x02, 0x00, 0x01, 0x00, 0x01, 0x00, 0x02,
        0x00, 0x01, 0x00, 0x07, 0x00, 0x00, 0x00, 0x12, 0x00, 0x01, 0x00, 0x01,
        0x00, 0x00, 0x00, 0x06, 0x19, 0x00, 0xb7, 0x00, 0x06, 0xb1, 0x00, 0x00,
        0x00, 0x00, 0x00, 0x09, 0x00, 0x08, 0x00, 0x09, 0x00, 0x01, 0x00, 0x07,
        0x00, 0x00, 0x00, 0x16, 0x00, 0x03, 0x00, 0x01, 0x00, 0x00, 0x00, 0x0a,
        0xb2, 0x00, 0x0f, 0x05, 0x05, 0x60, 0xb6, 0x00, 0x15, 0xb1, 0x00, 0x00,
        0x00, 0x00, 0x00, 0x00,
    ];
    assert_eq!(bytes, expected);

    assert_eq!(&bytes[..8], &[0xCA, 0xFE, 0xBA, 0xBE, 0x00, 0x00, 0x00, 0x3D]);
    let (entries, pool_end) = read_pool(&bytes);
    assert_eq!(entries.len(), 24);
    assert_eq!(count_classes(&entries, "Test"), 1);
    assert_eq!(be16(&bytes, pool_end + 10), 2);
    assert_eq!(max_stacks(&bytes), vec![1, 3]);
}

#[test]
fn add_two_numbers_via_a_method() {
    let bytes = ClassFileBuilder::new()
        .access_flag(AccessFlag::Public)
        .class_name(&"Test".to_string())
        .method(
            MethodBuilder::new()
                .access_flag(AccessFlag::Public)
                .name(&"<init>".to_string())
                .code(CodeBuilder::new().max_locals(1).instructions(vec![
                    aload(0),
                    invokespecial("java/lang/Object", "<init>", "()V"),
                    return_(),
                ])),
        )
        .method(
            MethodBuilder::new()
                .access_flag(AccessFlag::Public)
                .access_flag(AccessFlag::Static)
                .name(&"add".to_string())
                .parameter(&"I".to_string())
                .parameter(&"I".to_string())
                .return_(&"I".to_string())
                .code(CodeBuilder::new().max_locals(2).instructions(vec![
                    iload(0),
                    iload(1),
                    iadd(),
                    ireturn(),
                ])),
        )
        .method(
            MethodBuilder::new()
                .access_flag(AccessFlag::Public)
                .access_flag(AccessFlag::Static)
                .name(&"main".to_string())
                .parameter(&"[Ljava/lang/String;".to_string())
                .return_(&"V".to_string())
                .code(CodeBuilder::new().max_locals(1).instructions(vec![
                    getstatic("java/lang/System", "out", "Ljava/io/PrintStream"),
                    iconst(2),
                    iconst(2),
                    invokestatic("Test", "add", "(II)I"),
                    iconst(2),
                    iconst(2),
                    invokestatic("Test", "add", "(II)I"),
                    iadd(),
                    invokevirtual("java/io/PrintStream", "println", "(I)V"),
                    return_(),
                ])),
        )
        .emit()
        .unwrap();

    let expected: Vec<u8> = vec![
        0xca, 0xfe, 0xba, 0xbe, 0x00, 0x00, 0x00, 0x3d, 0x00, 0x21, 0x01, 0x00,
        0x06, 0x3c, 0x69, 0x6e, 0x69, 0x74, 0x3e, 0x01, 0x00, 0x03, 0x28, 0x29,
        0x56, 0x01, 0x00, 0x10, 0x6a, 0x61, 0x76, 0x61, 0x2f, 0x6c, 0x61, 0x6e,
        0x67, 0x2f, 0x4f, 0x62, 0x6a, 0x65, 0x63, 0x74, 0x07, 0x00, 0x03, 0x0c,
        0x00, 0x01, 0x00, 0x02, 0x0a, 0x00, 0x04, 0x00, 0x05, 0x01, 0x00, 0x04,
        0x43, 0x6f, 0x64, 0x65, 0x01, 0x00, 0x03, 0x61, 0x64, 0x64, 0x01, 0x00,
        0x05, 0x28, 0x49, 0x49, 0x29, 0x49, 0x01, 0x00, 0x04, 0x6d, 0x61, 0x69,
        0x6e, 0x01, 0x00, 0x16, 0x28, 0x5b, 0x4c, 0x6a, 0x61, 0x76, 0x61, 0x2f,
        0x6c, 0x61, 0x6e, 0x67, 0x2f, 0x53, 0x74, 0x72, 0x69, 0x6e, 0x67, 0x3b,
        0x29, 0x56, 0x01, 0x00, 0x10, 0x6a, 0x61, 0x76, 0x61, 0x2f, 0x6c, 0x61,
        0x6e, 0x67, 0x2f, 0x53, 0x79, 0x73, 0x74, 0x65, 0x6d, 0x07, 0x00, 0x0c,
        0x01, 0x00, 0x03, 0x6f, 0x75, 0x74, 0x01, 0x00, 0x14, 0x4c, 0x6a, 0x61,
        0x76, 0x61, 0x2f, 0x69, 0x6f, 0x2f, 0x50, 0x72, 0x69, 0x6e, 0x74, 0x53,
        0x74, 0x72, 0x65, 0x61, 0x6d, 0x0c, 0x00, 0x0e, 0x00, 0x0f, 0x09, 0x00,
        0x0d, 0x00, 0x10, 0x01, 0x00, 0x04, 0x54, 0x65, 0x73, 0x74, 0x07, 0x00,
        0x12, 0x0c, 0x00, 0x08, 0x00, 0x09, 0x0a, 0x00, 0x13, 0x00, 0x14, 0x07,
        0x00, 0x12, 0x0c, 0x00, 0x08, 0x00, 0x09, 0x0a, 0x00, 0x16, 0x00, 0x17,
        0x01, 0x00, 0x13, 0x6a, 0x61, 0x76, 0x61, 0x2f, 0x69, 0x6f, 0x2f, 0x50,
        0x72, 0x69, 0x6e, 0x74, 0x53, 0x74, 0x72, 0x65, 0x61, 0x6d, 0x07, 0x00,
        0x19, 0x01, 0x00, 0x07, 0x70, 0x72, 0x69, 0x6e, 0x74, 0x6c, 0x6e, 0x01,
        0x00, 0x04, 0x28, 0x49, 0x29, 0x56, 0x0c, 0x00, 0x1b, 0x00, 0x1c, 0x0a,
        0x00, 0x1a, 0x00, 0x1d, 0x07, 0x00, 0x12, 0x07, 0x00, 0x03, 0x00, 0x01,
        0x00, 0x1f, 0x00, 0x20, 0x00, 0x00, 0x00, 0x00, 0x00, 0x03, 0x00, 0x01,
        0x00, 0x01, 0x00, 0x02, 0x00, 0x01, 0x00, 0x07, 0x00, 0x00, 0x00, 0x12,
        0x00, 0x01, 0x00, 0x01, 0x00, 0x00, 0x00, 0x06, 0x19, 0x00, 0xb7, 0x00,
        0x06, 0xb1, 0x00, 0x00, 0x00, 0x00, 0x00, 0x09, 0x00, 0x08, 0x00, 0x09,
        0x00, 0x01, 0x00, 0x07, 0x00, 0x00, 0x00, 0x12, 0x00, 0x02, 0x00, 0x02,
        0x00, 0x00, 0x00, 0x06, 0x15, 0x00, 0x15, 0x01, 0x60, 0xac, 0x00, 0x00,
        0x00, 0x00, 0x00, 0x09, 0x00, 0x0a, 0x00, 0x0b, 0x00, 0x01, 0x00, 0x07,
        0x00, 0x00, 0x00, 0x1e, 0x00, 0x04, 0x00, 0x01, 0x00, 0x00, 0x00, 0x12,
        0xb2, 0x00, 0x11, 0x05, 0x05, 0xb8, 0x00, 0x15, 0x05, 0x05, 0xb8, 0x00,
        0x18, 0x60, 0xb6, 0x00, 0x1e, 0xb1, 0x00, 0x00, 0x00, 0x00, 0x00, 0x00,
    ];
    assert_eq!(bytes, expected);

    assert_eq!(&bytes[..8], &[0xCA, 0xFE, 0xBA, 0xBE, 0x00, 0x00, 0x00, 0x3D]);
    let (entries, pool_end) = read_pool(&bytes);
    assert_eq!(entries.len(), 32);
    // Three methods: the constructor, `add` and `main`.
    assert_eq!(be16(&bytes, pool_end + 10), 3);
    // The two calls of `add` share the texts of its name and descriptor, but
    // each has a method entry, a class entry and a name-and-type entry of its
    // own: a composite entry is appended at every insertion.
    assert_eq!(entries.iter().filter(|e| e.tag == 0x01 && &e.payload[2..] == b"add").count(), 1);
    assert_eq!(entries.iter().filter(|e| e.tag == 0x01 && &e.payload[2..] == b"(II)I").count(), 1);
    assert_eq!(count_methods(&entries, "add"), 2);
    assert_eq!(entries.iter().filter(|e| e.tag == 0x0a).count(), 4);
    assert_eq!(count_classes(&entries, "Test"), 3);
    // The first call refers to entry 21, the second to entry 24.
    assert_eq!(&bytes[365..368], &[0xb8, 0x00, 0x15]);
    assert_eq!(&bytes[370..373], &[0xb8, 0x00, 0x18]);
    assert_eq!(max_stacks(&bytes), vec![1, 2, 4]);
}
