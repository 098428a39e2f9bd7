//! Sixel graphics from DCS sequences.

use vstd::prelude::*;
pub use crate::render::sixel::{SixelColor, SixelDecoder, SixelImage};
use crate::render::sixel::{fresh_decoder, sixel_decoded, same_image, law_sixel_decoding_determined, lemma_fresh_same};

verus! {

/// Decode sixel data (without the DCS introducer and terminator) with a
/// fresh decoder: the image, or none when it is empty.
pub fn decode_sixel(data: &[u8]) -> (img: Option<SixelImage>)
    ensures
        match img {
            Some(i) => i.wf() && i.width > 0 && i.height > 0,
            None => true,
        },
        data@.len() == 0 ==> img.is_none(),
        decoded_image(data@, img),
{
    let mut decoder = SixelDecoder::new();
    let ghost fresh = decoder;
    assert(fresh_decoder(fresh));
    decoder.decode(data);
    let ghost done = decoder;
    let image = decoder.take_image();
    let r = if image.width == 0 || image.height == 0 {
        None
    } else {
        Some(image)
    };
    assert(fresh_decoder(fresh) && sixel_decoded(fresh, data@, done));
    r
}

/// `img` is what a fresh decoder makes of `data`: the decoded image, or
/// none when it is empty.
pub open spec fn decoded_image(data: Seq<u8>, img: Option<SixelImage>) -> bool {
    exists|d: SixelDecoder, e: SixelDecoder| #![trigger fresh_decoder(d), sixel_decoded(d, data, e)] {
        &&& fresh_decoder(d)
        &&& sixel_decoded(d, data, e)
        &&& img == (if e.image.width == 0 || e.image.height == 0 { None } else { Some(e.image) })
    }
}

/// `decode_sixel` gives what a fresh decoder holds after decoding the data:
/// none exactly when that image is empty, else that image (same size, same
/// pixels).
pub proof fn law_decode_sixel(data: Seq<u8>, d0: SixelDecoder, d1: SixelDecoder, img: Option<SixelImage>)
    requires
        fresh_decoder(d0),
        sixel_decoded(d0, data, d1),
        decoded_image(data, img),
    ensures
        img.is_none() <==> (d1.image.width == 0 || d1.image.height == 0),
        img.is_some() ==> same_image(img.unwrap(), d1.image),
{
    let (d, e) = choose|d: SixelDecoder, e: SixelDecoder| #![trigger fresh_decoder(d), sixel_decoded(d, data, e)]
        fresh_decoder(d) && sixel_decoded(d, data, e)
        && img == (if e.image.width == 0 || e.image.height == 0 { None } else { Some(e.image) });
    lemma_fresh_same(d, d0);
    law_sixel_decoding_determined(d, d0, data, e, d1);
}

} // verus!
