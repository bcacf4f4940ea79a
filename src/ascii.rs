//! Byte strings that are known to hold ASCII only.
use vstd::prelude::*;

verus! {

/// Every byte is below 128.
pub open spec fn all_ascii(bytes: Seq<u8>) -> bool {
    forall|k: int| 0 <= k < bytes.len() ==> bytes[k] < 128
}

pub struct Ascii {
    bytes: Vec<u8>,
}

/// The bytes that were refused, handed back whole.
#[derive(Debug, PartialEq, Eq)]
pub struct NotAsciiError {
    pub bytes: Vec<u8>,
}

impl Ascii {
    #[verifier::type_invariant]
    spec fn holds_ascii(&self) -> bool {
        all_ascii(self.bytes@)
    }

    pub closed spec fn spec_bytes(&self) -> Seq<u8> {
        self.bytes@
    }

    /// Accepts `bytes` when each of them is ASCII, else hands them back in
    /// the error.
    pub fn new(bytes: Vec<u8>) -> (r: Result<Ascii, NotAsciiError>)
        ensures
            r is Ok <==> all_ascii(bytes@),
            r matches Ok(a) ==> a.spec_bytes() == bytes@,
            r matches Err(e) ==> e.bytes@ == bytes@,
    {
        let mut k: usize = 0;
        while k < bytes.len()
            invariant
                k <= bytes@.len(),
                forall|j: int| 0 <= j < k ==> bytes@[j] < 128,
            decreases bytes@.len() - k,
        {
            if bytes[k] >= 128 {
                return Err(NotAsciiError { bytes });
            }
            k = k + 1;
        }
        Ok(Ascii { bytes })
    }

    /// The bytes held.
    pub fn as_bytes(&self) -> (r: &Vec<u8>)
        ensures
            r@ == self.spec_bytes(),
            all_ascii(r@),
    {
        proof {
            use_type_invariant(self);
        }
        &self.bytes
    }
}

} // verus!
