//! The scannable code, drawn with characters.

use crate::text::text_view;
use vstd::prelude::*;

verus! {

/// The picture that the `qrcode` crate draws of `data`: a QR code of the
/// smallest version that holds the data at the medium level of error
/// correction, each module `module_width` characters wide and
/// `module_height` lines high, dark modules as full blocks and light ones
/// as spaces, lines parted by line feeds, with or without the quiet zone
/// around it. `None` where the crate cannot encode the data.
pub uninterp spec fn qr_picture(
    data: Seq<char>,
    quiet_zone: bool,
    module_width: u32,
    module_height: u32,
) -> Option<Seq<char>>;

/// Calls `qrcode::QrCode::new` on the text, and on the code `render` for
/// `char` with the renderer's `quiet_zone`, `module_dimensions` and `build`.
/// All of them depend on their arguments alone; `None` stands for the error
/// of `new`. The sizes are kept small: the renderer multiplies them with the
/// code's width in 32 bits.
#[verifier::external_body]
fn draw_code(data: &str, quiet_zone: bool, module_width: u32, module_height: u32) -> (picture:
    Option<String>)
    requires
        module_width <= 16,
        module_height <= 16,
    ensures
        text_view(picture) == qr_picture(data@, quiet_zone, module_width, module_height),
{
    match qrcode::QrCode::new(data) {
        Ok(code) => Some(
            code.render::<char>().quiet_zone(quiet_zone).module_dimensions(
                module_width,
                module_height,
            ).build(),
        ),
        Err(_) => None,
    }
}

/// The code to show for `link`, as lines of text: two characters wide and
/// one line high for each module, so that it comes out square in a
/// terminal. `None` where the link cannot be encoded, as when it is too long.
pub fn share_code(link: &str, quiet_zone: bool) -> (picture: Option<String>)
    ensures
        text_view(picture) == qr_picture(link@, quiet_zone, 2, 1),
{
    draw_code(link, quiet_zone, 2, 1)
}

} // verus!
