//! Byte strings in the form the engine reads them: closed by a zero byte,
//! with no zero byte before the end.

use vstd::prelude::*;
use vstd::string::StringSliceAdditionalSpecFns;

verus! {

/// Why a string cannot cross to the engine: it holds a zero byte, which
/// would end it early. `nul_position` is the offset of its first zero byte.
#[derive(Debug, Clone, Copy, PartialEq, Eq)]
pub struct EncodingError {
    pub nul_position: usize,
}

/// Whether a zero byte occurs in `bytes`.
pub open spec fn has_nul(bytes: Seq<u8>) -> bool {
    exists|i: int| 0 <= i < bytes.len() && bytes[i] == 0
}

/// Whether `i` is the offset of the first zero byte of `bytes`.
pub open spec fn is_first_nul(bytes: Seq<u8>, i: int) -> bool {
    &&& 0 <= i < bytes.len()
    &&& bytes[i] == 0
    &&& forall|j: int| 0 <= j < i ==> bytes[j] != 0
}

/// The offset of the first zero byte of `bytes`, where it has one.
pub open spec fn first_nul(bytes: Seq<u8>) -> int {
    choose|i: int| is_first_nul(bytes, i)
}

/// `bytes` closed by a zero byte.
pub open spec fn c_string(bytes: Seq<u8>) -> Seq<u8> {
    bytes.push(0u8)
}

/// What marshalling makes of `bytes`: the closed string, or the error that
/// names the first zero byte.
pub open spec fn marshalled(bytes: Seq<u8>) -> Result<Seq<u8>, EncodingError> {
    if has_nul(bytes) {
        Err(EncodingError { nul_position: first_nul(bytes) as usize })
    } else {
        Ok(c_string(bytes))
    }
}

/// A string has one first zero byte at most.
pub proof fn lemma_first_nul_unique(bytes: Seq<u8>, i: int)
    requires
        is_first_nul(bytes, i),
    ensures
        has_nul(bytes),
        first_nul(bytes) == i,
{
    let k = first_nul(bytes);
    assert(is_first_nul(bytes, k));
    if k < i {
        assert(bytes[k] != 0);
    } else if i < k {
        assert(bytes[i] != 0);
    }
}

/// A string with a zero byte among its first `n` bytes has a first one.
proof fn lemma_has_first_nul(bytes: Seq<u8>, n: int)
    requires
        0 <= n <= bytes.len(),
        exists|i: int| 0 <= i < n && bytes[i] == 0,
    ensures
        exists|i: int| is_first_nul(bytes, i),
    decreases n,
{
    if exists|i: int| 0 <= i < n - 1 && bytes[i] == 0 {
        lemma_has_first_nul(bytes, n - 1);
    } else {
        assert(is_first_nul(bytes, n - 1));
    }
}

/// Marshalling fails exactly on the strings that hold a zero byte, and the
/// error then names the first one, as long as the string is no longer than
/// a string in memory can be. Any other string comes out closed by a zero.
pub proof fn lemma_marshalled(bytes: Seq<u8>)
    ensures
        marshalled(bytes) is Err <==> has_nul(bytes),
        marshalled(bytes) is Ok ==> marshalled(bytes)->Ok_0 == bytes.push(0u8),
        has_nul(bytes) && bytes.len() <= usize::MAX ==> is_first_nul(
            bytes,
            marshalled(bytes)->Err_0.nul_position as int,
        ),
{
    if has_nul(bytes) {
        lemma_has_first_nul(bytes, bytes.len() as int);
        let i = choose|i: int| is_first_nul(bytes, i);
        lemma_first_nul_unique(bytes, i);
    }
}

/// Turns a string into the bytes handed to the engine: its UTF-8 bytes and a
/// closing zero. A string that holds a zero byte is refused, with the
/// offset of the first one.
pub fn to_c_bytes(s: &str) -> (r: Result<Vec<u8>, EncodingError>)
    ensures
        match r {
            Ok(v) => marshalled(s.spec_bytes()) == Ok::<Seq<u8>, EncodingError>(v@),
            Err(e) => marshalled(s.spec_bytes()) == Err::<Seq<u8>, EncodingError>(e),
        },
        r is Err <==> has_nul(s.spec_bytes()),
        r matches Err(e) ==> is_first_nul(s.spec_bytes(), e.nul_position as int),
{
    let bytes = s.as_bytes();
    let mut out: Vec<u8> = Vec::with_capacity(bytes.len());
    let mut i: usize = 0;
    while i < bytes.len()
        invariant
            i <= bytes.len(),
            bytes@ == s.spec_bytes(),
            out@ == bytes@.take(i as int),
            forall|j: int| 0 <= j < i ==> bytes@[j] != 0,
        decreases bytes.len() - i,
    {
        let b: u8 = bytes[i];
        if b == 0 {
            proof {
                lemma_first_nul_unique(bytes@, i as int);
            }
            return Err(EncodingError { nul_position: i });
        }
        out.push(b);
        assert(out@ =~= bytes@.take(i as int + 1));
        i += 1;
    }
    assert(bytes@.take(i as int) =~= bytes@);
    out.push(0u8);
    Ok(out)
}

} // verus!
