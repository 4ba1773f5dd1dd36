//! The constants of the class file format that this library writes.

use vstd::prelude::*;

verus! {

/// The magic number that every class file starts with.
pub const MAGIC: u32 = 0xCAFEBABE;

/// The minor version of the class file format.
pub const MINOR_VERSION: u16 = 0x0000;

/// The major version of the class file format.
pub const MAJOR_VERSION: u16 = 0x003D;

/// The name of the class that every class without another superclass extends.
pub const OBJECT_CLASS_NAME: &'static str = "java/lang/Object";

} // verus!
