use vstd::prelude::*;

use crate::hex::is_upper_hex_char;

verus! {

/// The identity a module's debug record gives it: the base name of the
/// referenced symbol file and the record's signature as a fixed-width
/// uppercase hexadecimal token.
///
/// Derived once per module and read-only afterwards. The two base-name
/// fields are equal under the observed convention, but nothing may assume
/// they coincide: the record's embedded file name could in principle differ
/// from the module's own name.
#[derive(Clone, Debug)]
pub struct ModuleIdentity {
    /// File name of the referenced symbol file, without extension; non-empty.
    pub module_base_name: String,
    /// The 16-byte debug-record signature, rendered as 32 uppercase
    /// hexadecimal characters.
    pub record_signature: String,
    /// The stem of the file name embedded in the debug record.
    pub symbol_file_base_name: String,
}

impl ModuleIdentity {
    /// The invariant every constructed identity satisfies.
    pub open spec fn wf(&self) -> bool {
        &&& self.module_base_name@.len() > 0
        &&& self.symbol_file_base_name@.len() > 0
        &&& self.record_signature@.len() == 32
        &&& forall|i: int| 0 <= i < 32 ==> is_upper_hex_char(#[trigger] self.record_signature@[i])
    }
}

} // verus!
