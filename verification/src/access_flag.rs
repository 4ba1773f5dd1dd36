//! Access and modifier flags of classes and methods.

use vstd::prelude::*;
use vstd::std_specs::convert::FromSpecImpl;

verus! {

/// A named bit of the 16-bit flags word of a class or a method. Besides
/// visibility this covers modifiers such as `final` or `abstract`.
#[derive(Debug, Clone, Copy, PartialEq, Eq, Structural)]
pub enum AccessFlag {
    Public,
    Private,
    Protected,
    Static,
    Final,
    Synchronized,
    Bridge,
    Varargs,
    Native,
    Abstract,
    Strict,
    Synthetic,
}

/// The bit that `flag` stands for.
pub open spec fn flag_bit(flag: AccessFlag) -> u16 {
    match flag {
        AccessFlag::Public => 0x0001,
        AccessFlag::Private => 0x0002,
        AccessFlag::Protected => 0x0004,
        AccessFlag::Static => 0x0008,
        AccessFlag::Final => 0x0010,
        AccessFlag::Synchronized => 0x0020,
        AccessFlag::Bridge => 0x0040,
        AccessFlag::Varargs => 0x0080,
        AccessFlag::Native => 0x0100,
        AccessFlag::Abstract => 0x0400,
        AccessFlag::Strict => 0x0800,
        AccessFlag::Synthetic => 0x1000,
    }
}

/// The flags word that holds the bit of every flag in `flags`: their bits
/// combined with bitwise or, so a flag given twice counts once.
pub open spec fn flags_word(flags: Seq<AccessFlag>) -> u16
    decreases flags.len(),
{
    if flags.len() == 0 {
        0
    } else {
        flags_word(flags.drop_last()) | flag_bit(flags.last())
    }
}

impl From<AccessFlag> for u16 {
    fn from(val: AccessFlag) -> (bit: u16)
    {
        match val {
            AccessFlag::Public => 0x0001,
            AccessFlag::Private => 0x0002,
            AccessFlag::Protected => 0x0004,
            AccessFlag::Static => 0x0008,
            AccessFlag::Final => 0x0010,
            AccessFlag::Synchronized => 0x0020,
            AccessFlag::Bridge => 0x0040,
            AccessFlag::Varargs => 0x0080,
            AccessFlag::Native => 0x0100,
            AccessFlag::Abstract => 0x0400,
            AccessFlag::Strict => 0x0800,
            AccessFlag::Synthetic => 0x1000,
        }
    }
}

impl FromSpecImpl<AccessFlag> for u16 {
    open spec fn obeys_from_spec() -> bool {
        true
    }

    open spec fn from_spec(val: AccessFlag) -> u16 {
        flag_bit(val)
    }
}

/// Combines `flags` into one flags word.
pub fn combine_flags(flags: &Vec<AccessFlag>) -> (word: u16)
    ensures
        word == flags_word(flags@),
{
    let mut word: u16 = 0;
    let mut i: usize = 0;
    while i < flags.len()
        invariant
            i <= flags.len(),
            word == flags_word(flags@.take(i as int)),
        decreases flags.len() - i,
    {
        assert(flags@.take(i + 1).drop_last() == flags@.take(i as int));
        word = word | u16::from(flags[i]);
        i = i + 1;
    }
    assert(flags@.take(i as int) == flags@);
    word
}

} // verus!
