//! Task names: the NUL-terminated buffer the RTOS takes a name in.
use vstd::prelude::*;
use vstd::string::StringSliceAdditionalSpecFns;

verus! {

pub const MAX_C_STR_LEN: usize = 64;

/// A NUL-terminated byte string in a fixed buffer.
pub type CStr = [u8; 64];

/// `c` holds `bytes` followed by NUL bytes up to its end.
pub open spec fn holds_c_str(c: CStr, bytes: Seq<u8>) -> bool {
    &&& bytes.len() < MAX_C_STR_LEN
    &&& forall|i: int| 0 <= i < bytes.len() ==> c[i] == bytes[i]
    &&& forall|i: int| bytes.len() <= i < MAX_C_STR_LEN ==> c[i] == 0
}

/// Copies `s` into a NUL-terminated buffer; fails when `s` does not fit
/// together with its terminator.
pub fn make_c_str(s: &str) -> (r: Result<CStr, ()>)
    ensures
        r is Err <==> s.spec_bytes().len() > MAX_C_STR_LEN - 1,
        r matches Ok(c) ==> holds_c_str(c, s.spec_bytes()),
{
    let bytes = s.as_bytes();
    let len = bytes.len();
    if len > MAX_C_STR_LEN - 1 {
        // str is too large
        return Err(());
    }
    let mut result: CStr = [0u8; 64];
    let mut i: usize = 0;
    while i < len
        invariant
            len == bytes@.len(),
            bytes@ == s.spec_bytes(),
            len < MAX_C_STR_LEN,
            i <= len,
            forall|j: int| 0 <= j < i ==> result[j] == bytes@[j],
            forall|j: int| i <= j < MAX_C_STR_LEN ==> result[j] == 0,
        decreases len - i,
    {
        result[i] = bytes[i];
        i += 1;
    }
    result[len] = 0;
    Ok(result)
}

/// A string without NUL bytes reads back from its buffer unchanged: the
/// first NUL of the buffer is right after the string's bytes.
pub proof fn lemma_c_str_reads_back(c: CStr, bytes: Seq<u8>)
    requires
        holds_c_str(c, bytes),
        forall|i: int| 0 <= i < bytes.len() ==> bytes[i] != 0,
    ensures
        c[bytes.len() as int] == 0,
        forall|i: int| 0 <= i < bytes.len() ==> c@[i] != 0u8,
        c@.take(bytes.len() as int) == bytes,
{
    assert forall|i: int| 0 <= i < bytes.len() implies c@[i] != 0u8 by {
        assert(c[i] == bytes[i]);
        assert(bytes[i] != 0);
    }
    assert(c@.take(bytes.len() as int) =~= bytes);
}

} // verus!
