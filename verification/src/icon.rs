//! The tray icon: two overlapping sheets, drawn in code so the binary needs
//! no image decoder.
use vstd::prelude::*;

pub use tray_icon::{BadIcon, Icon};

verus! {

/// Width and height of the icon, in pixels.
pub const ICON_SIZE: usize = 32;

/// Whether pixel (x, y) lies in the sheet whose corners are (x0, y0)
/// inclusive and (x1, y1) exclusive.
pub open spec fn in_sheet(x: int, y: int, x0: int, y0: int, x1: int, y1: int) -> bool {
    x0 <= x < x1 && y0 <= y < y1
}

/// Whether pixel (x, y) of that sheet lies on its two-pixel border.
pub open spec fn on_border(x: int, y: int, x0: int, y0: int, x1: int, y1: int) -> bool {
    x < x0 + 2 || x + 2 >= x1 || y < y0 + 2 || y + 2 >= y1
}

/// The opacity of pixel (x, y): the back sheet spans (3, 3) to (21, 25), the
/// front sheet (11, 7) to (29, 29) and is drawn over it; a sheet's border is
/// opaque and its inside clear, and everything else is clear.
pub open spec fn icon_alpha(x: int, y: int) -> u8 {
    if in_sheet(x, y, 11, 7, 29, 29) {
        if on_border(x, y, 11, 7, 29, 29) {
            255
        } else {
            0
        }
    } else if in_sheet(x, y, 3, 3, 21, 25) {
        if on_border(x, y, 3, 3, 21, 25) {
            255
        } else {
            0
        }
    } else {
        0
    }
}

/// The four bytes (red, green, blue, alpha) of pixel (x, y) in an RGBA image
/// `ICON_SIZE` pixels wide, rows top to bottom.
pub open spec fn rgba_at(image: Seq<u8>, x: int, y: int) -> (u8, u8, u8, u8) {
    let i = (y * ICON_SIZE + x) * 4;
    (image[i], image[i + 1], image[i + 2], image[i + 3])
}

/// The opacity of pixel (x, y).
pub fn icon_alpha_at(x: usize, y: usize) -> (a: u8)
    ensures
        a == icon_alpha(x as int, y as int),
{
    let front = 11 <= x && x < 29 && 7 <= y && y < 29;
    let back = 3 <= x && x < 21 && 3 <= y && y < 25;
    if front {
        if x < 13 || x + 2 >= 29 || y < 9 || y + 2 >= 29 {
            255
        } else {
            0
        }
    } else if back {
        if x < 5 || x + 2 >= 21 || y < 5 || y + 2 >= 25 {
            255
        } else {
            0
        }
    } else {
        0
    }
}

/// The icon as RGBA bytes: black everywhere, opaque where `icon_alpha` says so.
pub fn tray_icon_rgba() -> (image: Vec<u8>)
    ensures
        image.len() == ICON_SIZE * ICON_SIZE * 4,
        forall|x: int, y: int|
            0 <= x < ICON_SIZE && 0 <= y < ICON_SIZE ==> #[trigger] rgba_at(image@, x, y) == (
                0u8,
                0u8,
                0u8,
                icon_alpha(x, y),
            ),
{
    let mut image: Vec<u8> = Vec::new();
    let mut y: usize = 0;
    while y < ICON_SIZE
        invariant
            y <= ICON_SIZE,
            image.len() == y * ICON_SIZE * 4,
            forall|px: int, py: int|
                0 <= px < ICON_SIZE && 0 <= py < y ==> #[trigger] rgba_at(image@, px, py) == (
                    0u8,
                    0u8,
                    0u8,
                    icon_alpha(px, py),
                ),
        decreases ICON_SIZE - y,
    {
        let mut x: usize = 0;
        while x < ICON_SIZE
            invariant
                y < ICON_SIZE,
                x <= ICON_SIZE,
                image.len() == (y * ICON_SIZE + x) * 4,
                forall|px: int, py: int|
                    0 <= px < ICON_SIZE && 0 <= py < ICON_SIZE && (py < y || (py == y && px < x))
                        ==> #[trigger] rgba_at(image@, px, py) == (
                        0u8,
                        0u8,
                        0u8,
                        icon_alpha(px, py),
                    ),
            decreases ICON_SIZE - x,
        {
            let ghost before = image@;
            let a = icon_alpha_at(x, y);
            image.push(0);
            image.push(0);
            image.push(0);
            image.push(a);
            assert forall|px: int, py: int|
                0 <= px < ICON_SIZE && 0 <= py < ICON_SIZE && (py < y || (py == y && px < x + 1))
                    implies #[trigger] rgba_at(image@, px, py) == (
                    0u8,
                    0u8,
                    0u8,
                    icon_alpha(px, py),
                ) by {
                if py < y || px < x {
                    assert((py * ICON_SIZE + px) * 4 + 3 < before.len()) by (nonlinear_arith)
                        requires
                            py < y || (py == y && px < x),
                            0 <= px < ICON_SIZE,
                            0 <= py,
                            before.len() == (y * ICON_SIZE + x) * 4,
                            ICON_SIZE == 32,
                    ;
                    assert(rgba_at(before, px, py) == rgba_at(image@, px, py));
                }
            }
            x = x + 1;
        }
        y = y + 1;
    }
    image
}

/// The tray-icon crate's `Icon`, handed to the tray as it is.
#[verifier::external_type_specification]
#[verifier::external_body]
pub struct ExternalIcon(tray_icon::Icon);

/// The tray-icon crate's `BadIcon`, the reason an icon could not be made.
#[verifier::external_type_specification]
#[verifier::external_body]
pub struct ExternalBadIcon(tray_icon::BadIcon);

/// An attempt to make an icon: its outcome, beside the image and size it
/// was asked for.
pub struct IconAttempt {
    /// The icon, or why it could not be made.
    pub result: Result<Icon, BadIcon>,
    /// The RGBA bytes the icon was to be made from, rows top to bottom.
    pub rgba: Ghost<Seq<u8>>,
    /// The width asked for, in pixels.
    pub width: u32,
    /// The height asked for, in pixels.
    pub height: u32,
}

/// Calls `Icon::from_rgba` (tray-icon) and keeps, beside its outcome, the
/// image and size it was given. Claimed: it fails when the bytes are not
/// whole RGBA pixels or their number of pixels is not `width * height`.
/// Not claimed: that it succeeds otherwise, since on Windows the OS may still
/// refuse to make the icon.
#[verifier::external_body]
fn icon_from_rgba(rgba: Vec<u8>, width: u32, height: u32) -> (r: IconAttempt)
    requires
        width * height <= u32::MAX,
    ensures
        r.rgba@ == rgba@,
        r.width == width,
        r.height == height,
        rgba@.len() % 4 != 0 || rgba@.len() / 4 != width * height ==> r.result is Err,
{
    let image = Ghost(rgba@);
    IconAttempt { result: Icon::from_rgba(rgba, width, height), rgba: image, width, height }
}

/// The tray icon, asked for as the `ICON_SIZE` by `ICON_SIZE` image of
/// `tray_icon_rgba`; the platform decides whether it can be made.
pub fn tray_icon_image() -> (r: IconAttempt)
    ensures
        r.width == ICON_SIZE,
        r.height == ICON_SIZE,
        r.rgba@.len() == ICON_SIZE * ICON_SIZE * 4,
        forall|x: int, y: int|
            0 <= x < ICON_SIZE && 0 <= y < ICON_SIZE ==> #[trigger] rgba_at(r.rgba@, x, y) == (
                0u8,
                0u8,
                0u8,
                icon_alpha(x, y),
            ),
{
    icon_from_rgba(tray_icon_rgba(), 32, 32)
}

/// Every pixel is either clear or opaque; pixels outside both sheets are
/// clear; inside the front sheet a pixel is opaque exactly on its border; and
/// the back sheet shows, on its border, only where the front sheet does not
/// cover it.
pub proof fn lemma_icon_pixels(x: int, y: int)
    ensures
        icon_alpha(x, y) == 0 || icon_alpha(x, y) == 255,
        !in_sheet(x, y, 3, 3, 21, 25) && !in_sheet(x, y, 11, 7, 29, 29) ==> icon_alpha(x, y)
            == 0,
        in_sheet(x, y, 11, 7, 29, 29) ==> (icon_alpha(x, y) == 255 <==> on_border(
            x,
            y,
            11,
            7,
            29,
            29,
        )),
        !in_sheet(x, y, 11, 7, 29, 29) && in_sheet(x, y, 3, 3, 21, 25) ==> (icon_alpha(x, y)
            == 255 <==> on_border(x, y, 3, 3, 21, 25)),
{
}

} // verus!
