use vstd::prelude::*;

use crate::ansi::{mosaic_text, render};

verus! {

/// The 32 bytes that HKDF-SHA256 derives from the keying material `ikm`,
/// with no salt and an empty info string.
pub uninterp spec fn hkdf_sha256_okm32(ikm: Seq<u8>) -> Seq<u8>;

/// Relies on `hkdf::Hkdf::<sha2::Sha256>::new` (extract, no salt) followed by
/// `Hkdf::expand` (empty info) into a 32-byte buffer. `expand` fails only for
/// more than 255 times 32 output bytes, so it cannot fail here.
#[verifier::external_body]
fn hkdf_sha256_32(ikm: &[u8]) -> (okm: [u8; 32])
    ensures
        okm@ == hkdf_sha256_okm32(ikm@),
{
    let mut okm = [0u8; 32];
    let hk = hkdf::Hkdf::<sha2::Sha256>::new(None, ikm);
    hk.expand(&[], &mut okm).expect("hkdf to provide 32 bytes");
    okm
}

/// A visual fingerprint: the 256-bit key derived from the input bytes, drawn
/// on demand as a mosaic of coloured cells.
pub struct Mozaic {
    data: [u8; 32],
}

impl View for Mozaic {
    type V = Seq<u8>;

    /// The derived key.
    closed spec fn view(&self) -> Seq<u8> {
        self.data@
    }
}

impl Mozaic {
    /// Derives the 32-byte key from any byte string, the empty one included.
    pub fn new(data: &[u8]) -> (r: Self)
        ensures
            r@ == hkdf_sha256_okm32(data@),
            r@.len() == 32,
    {
        Mozaic { data: hkdf_sha256_32(data) }
    }

    /// The derived 32-byte key.
    pub fn key(&self) -> (r: [u8; 32])
        ensures
            r@ == self@,
    {
        self.data
    }

    /// The mosaic drawn with ANSI truecolour control sequences.
    pub fn ansi(&self) -> (r: String)
        ensures
            self@.len() == 32,
            r@ == mosaic_text(self@),
    {
        render(&self.data)
    }
}

} // verus!
