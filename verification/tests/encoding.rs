use jaby::access_flag::{combine_flags, AccessFlag};
use jaby::consts::{MAGIC, MAJOR_VERSION, MINOR_VERSION, OBJECT_CLASS_NAME};
use jaby::encoding::{push_all, push_i32, push_i64, push_u16, push_u32, push_u64};

#[test]
fn unsigned_integers_are_big_endian() {
    let mut bytes = vec![0xaa];
    push_u16(&mut bytes, 0x1234);
    push_u32(&mut bytes, 0xCAFEBABE);
    push_u64(&mut bytes, 0x0102030405060708);
    assert_eq!(
        bytes,
        vec![
            0xaa, 0x12, 0x34, 0xca, 0xfe, 0xba, 0xbe, 0x01, 0x02, 0x03, 0x04, 0x05, 0x06, 0x07,
            0x08,
        ]
    );
}

#[test]
fn unsigned_integers_at_their_limits() {
    let mut bytes = Vec::new();
    push_u16(&mut bytes, 0);
    push_u16(&mut bytes, u16::MAX);
    push_u16(&mut bytes, 0x00ff);
    push_u16(&mut bytes, 0x0100);
    push_u32(&mut bytes, 0);
    push_u32(&mut bytes, u32::MAX);
    push_u64(&mut bytes, 0);
    push_u64(&mut bytes, u64::MAX);
    let mut expected = vec![0, 0, 0xff, 0xff, 0, 0xff, 1, 0, 0, 0, 0, 0, 0xff, 0xff, 0xff, 0xff];
    expected.extend([0u8; 8]);
    expected.extend([0xffu8; 8]);
    assert_eq!(bytes, expected);
}

#[test]
fn signed_integers_are_twos_complement() {
    let mut bytes = Vec::new();
    push_i32(&mut bytes, -1);
    push_i32(&mut bytes, i32::MIN);
    push_i32(&mut bytes, i32::MAX);
    push_i32(&mut bytes, -0x01020304);
    assert_eq!(
        bytes,
        vec![
            0xff, 0xff, 0xff, 0xff, 0x80, 0x00, 0x00, 0x00, 0x7f, 0xff, 0xff, 0xff, 0xfe, 0xfd,
            0xfc, 0xfc,
        ]
    );
    let mut bytes = Vec::new();
    push_i64(&mut bytes, -1);
    push_i64(&mut bytes, i64::MIN);
    push_i64(&mut bytes, i64::MAX);
    push_i64(&mut bytes, 0x1122334455667788);
    assert_eq!(
        bytes,
        vec![
            0xff, 0xff, 0xff, 0xff, 0xff, 0xff, 0xff, 0xff, 0x80, 0, 0, 0, 0, 0, 0, 0, 0x7f, 0xff,
            0xff, 0xff, 0xff, 0xff, 0xff, 0xff, 0x11, 0x22, 0x33, 0x44, 0x55, 0x66, 0x77, 0x88,
        ]
    );
}

#[test]
fn signed_integers_agree_with_std() {
    for x in [0i32, 1, -1, 255, -255, 256, -256, 65536, -65536, i32::MIN, i32::MAX] {
        let mut bytes = Vec::new();
        push_i32(&mut bytes, x);
        assert_eq!(bytes, x.to_be_bytes().to_vec());
    }
    for x in [0i64, 1, -1, 1 << 32, -(1 << 32), (1 << 32) - 1, i64::MIN, i64::MAX] {
        let mut bytes = Vec::new();
        push_i64(&mut bytes, x);
        assert_eq!(bytes, x.to_be_bytes().to_vec());
    }
}

#[test]
fn push_all_appends_a_copy() {
    let mut bytes = vec![1, 2];
    let tail = vec![3, 4, 5];
    push_all(&mut bytes, &tail);
    push_all(&mut bytes, &[]);
    assert_eq!(bytes, vec![1, 2, 3, 4, 5]);
    assert_eq!(tail, vec![3, 4, 5]);
}

#[test]
fn every_flag_has_its_bit() {
    assert_eq!(u16::from(AccessFlag::Public), 0x0001);
    assert_eq!(u16::from(AccessFlag::Private), 0x0002);
    assert_eq!(u16::from(AccessFlag::Protected), 0x0004);
    assert_eq!(u16::from(AccessFlag::Static), 0x0008);
    assert_eq!(u16::from(AccessFlag::Final), 0x0010);
    assert_eq!(u16::from(AccessFlag::Synchronized), 0x0020);
    assert_eq!(u16::from(AccessFlag::Bridge), 0x0040);
    assert_eq!(u16::from(AccessFlag::Varargs), 0x0080);
    assert_eq!(u16::from(AccessFlag::Native), 0x0100);
    assert_eq!(u16::from(AccessFlag::Abstract), 0x0400);
    assert_eq!(u16::from(AccessFlag::Strict), 0x0800);
    assert_eq!(u16::from(AccessFlag::Synthetic), 0x1000);
    let bit: u16 = AccessFlag::Final.into();
    assert_eq!(bit, 0x0010);
}

#[test]
fn flags_are_combined_with_or() {
    assert_eq!(combine_flags(&vec![]), 0);
    assert_eq!(combine_flags(&vec![AccessFlag::Public, AccessFlag::Static]), 0x0009);
    assert_eq!(
        combine_flags(&vec![AccessFlag::Synthetic, AccessFlag::Abstract, AccessFlag::Private]),
        0x1402
    );
    // A flag that is given twice still sets one bit.
    assert_eq!(combine_flags(&vec![AccessFlag::Public, AccessFlag::Public]), 0x0001);
    assert_eq!(
        combine_flags(&vec![AccessFlag::Static, AccessFlag::Final, AccessFlag::Static]),
        0x0018
    );
}

#[test]
fn format_constants() {
    assert_eq!(MAGIC, 0xCAFEBABE);
    assert_eq!(MINOR_VERSION, 0);
    assert_eq!(MAJOR_VERSION, 61);
    assert_eq!(OBJECT_CLASS_NAME, "java/lang/Object");
}
