//! Images in panes: which revisions to fetch, which to keep on the terminal, and
//! where to place them.

use base64::Engine;
use vstd::prelude::*;

use crate::geometry::Rect;
use crate::num;
use crate::paste;
use crate::proto::{ImageData, ImagePlacement, LayoutSnapshot, PaneId, ServerMessage};
use crate::text;

verus! {

/// Images kept on the terminal at most.
pub const MAX_ASSETS: usize = 32;

/// Bytes of image data kept on the terminal at most.
pub const MAX_BYTES: usize = 33554432;

/// Requests on their way at most.
pub const MAX_PENDING: usize = 2;

/// Milliseconds before a failed image is asked for again.
pub const RETRY_MILLIS: u64 = 3000;

/// Identifies one revision of an image in a pane.
#[derive(Debug, PartialEq, Eq)]
pub struct Key {
    pub socket: String,
    pub pane: PaneId,
    pub image: u32,
    pub revision: u64,
}

/// A key as a plain value.
pub struct KeyView {
    pub socket: Seq<char>,
    pub pane: PaneId,
    pub image: u32,
    pub revision: u64,
}

impl View for Key {
    type V = KeyView;

    open spec fn view(&self) -> KeyView {
        KeyView {
            socket: self.socket@,
            pane: self.pane,
            image: self.image,
            revision: self.revision,
        }
    }
}

impl Clone for Key {
    fn clone(&self) -> (r: Self)
        ensures
            r@ == self@,
            r == *self,
    {
        Key {
            socket: self.socket.clone(),
            pane: self.pane,
            image: self.image,
            revision: self.revision,
        }
    }
}

/// An image on the terminal: its id there, and the size of its data.
#[derive(Debug, Clone, Copy, PartialEq, Eq, Structural)]
pub struct Asset {
    pub host: u32,
    pub bytes: usize,
}

/// The answer to a request for an image.
#[derive(Debug, Clone, PartialEq, Eq)]
pub struct Loaded {
    pub key: Key,
    pub image: Option<ImageData>,
}

#[derive(Debug, Clone, PartialEq, Eq)]
pub struct Placement {
    pub key: Key,
    pub source: ImagePlacement,
    pub area: Rect,
}

/// A placement as a plain value.
pub struct PlacementView {
    pub key: KeyView,
    pub source: ImagePlacement,
    pub area: Rect,
}

impl View for Placement {
    type V = PlacementView;

    open spec fn view(&self) -> PlacementView {
        PlacementView { key: self.key@, source: self.source, area: self.area }
    }
}

fn same_key(a: &Key, b: &Key) -> (r: bool)
    ensures
        r == (a@ == b@),
{
    text::same(a.socket.as_str(), b.socket.as_str()) && a.pane == b.pane && a.image == b.image
        && a.revision == b.revision
}

// -------------------------------------------------------------------------- terminals

/// Whether the terminal shows images: as the setting says, else where the
/// terminal is one that does.
pub fn supported(setting: &Option<String>, term: &Option<String>, program: &Option<String>) -> (r:
    bool)
    ensures
        r == (if text::option_text(*setting) == Some("off"@) {
            false
        } else if text::option_text(*setting) == Some("kitty"@) {
            true
        } else {
            text::option_text(*term) == Some("xterm-kitty"@) || text::option_text(*program) == Some(
                "ghostty"@,
            )
        }),
{
    proof {
        reveal_strlit("off");
        reveal_strlit("kitty");
        assert("off"@.len() != "kitty"@.len());
    }
    if let Some(value) = setting {
        if text::same(value.as_str(), "off") {
            return false;
        }
        if text::same(value.as_str(), "kitty") {
            return true;
        }
    }
    let kitty = match term {
        Some(value) => text::same(value.as_str(), "xterm-kitty"),
        None => false,
    };
    let ghostty = match program {
        Some(value) => text::same(value.as_str(), "ghostty"),
        None => false,
    };
    kitty || ghostty
}

// --------------------------------------------------------------------------- clipping

/// The share of `length` pixels that the first `cells` of `total` cells take.
pub open spec fn pixels(length: int, cells: int, total: int) -> int {
    length * cells / total
}

/// Where an image is cropped to a pane, pixels and cells together, so that
/// off-screen rows never spill out of it.
pub open spec fn clipped(source: ImagePlacement, inner: Rect) -> Option<(ImagePlacement, Rect)> {
    let left = source.col as int;
    let top = num::max(source.row as int, 0);
    let right = num::min(source.col + source.cols, inner.width as int);
    let bottom = num::min(
        num::min(source.row + source.rows, i32::MAX as int),
        inner.height as int,
    );
    let width = pixels(source.source_width as int, right - left, source.cols as int);
    let skipped = pixels(source.source_height as int, top - source.row, source.rows as int);
    let height = pixels(source.source_height as int, bottom - source.row, source.rows as int)
        - skipped;
    if left >= right || top >= bottom || source.cols == 0 || source.rows == 0 || width == 0
        || height == 0 || source.source_y + skipped > u32::MAX {
        None
    } else {
        Some(
            (
                ImagePlacement {
                    source_y: (source.source_y + skipped) as u32,
                    source_width: width as u32,
                    source_height: height as u32,
                    ..source
                },
                Rect {
                    x: (inner.x + left) as u16,
                    y: (inner.y + top) as u16,
                    width: (right - left) as u16,
                    height: (bottom - top) as u16,
                },
            ),
        )
    }
}

fn pixel_share(length: u32, cells: u32, total: u16) -> (r: u32)
    requires
        0 < total,
        cells <= total,
    ensures
        r == pixels(length as int, cells as int, total as int),
        r <= length,
{
    assert(length * cells <= 0xffff_ffff * 65535) by (nonlinear_arith)
        requires
            length <= u32::MAX,
            cells <= 65535,
    ;
    let product: u64 = length as u64 * cells as u64;
    let share: u64 = product / total as u64;
    assert(share <= length) by (nonlinear_arith)
        requires
            share == product / total as u64,
            product == length * cells,
            cells <= total,
            total > 0,
    ;
    share as u32
}

proof fn lemma_shares_rise(length: int, a: int, b: int, total: int)
    requires
        0 <= length,
        0 <= a <= b,
        0 < total,
    ensures
        pixels(length, a, total) <= pixels(length, b, total),
        0 <= pixels(length, a, total),
{
    assert(length * a <= length * b) by (nonlinear_arith)
        requires
            0 <= length,
            a <= b,
    ;
    assert(0 <= length * a) by (nonlinear_arith)
        requires
            0 <= length,
            0 <= a,
    ;
    vstd::arithmetic::div_mod::lemma_div_is_ordered(length * a, length * b, total);
    vstd::arithmetic::div_mod::lemma_div_pos_is_pos(length * a, total);
}

/// Crops an image to a pane.
pub fn clip(source: &ImagePlacement, inner: Rect) -> (r: Option<(ImagePlacement, Rect)>)
    requires
        inner.fits(),
    ensures
        r == clipped(*source, inner),
{
    let row: i64 = source.row as i64;
    let left: i64 = source.col as i64;
    let top: i64 = if row > 0 {
        row
    } else {
        0
    };
    let mut right: i64 = source.col as i64 + source.cols as i64;
    if right > inner.width as i64 {
        right = inner.width as i64;
    }
    let mut bottom: i64 = row + source.rows as i64;
    if bottom > inner.height as i64 {
        bottom = inner.height as i64;
    }
    if left >= right || top >= bottom || source.cols == 0 || source.rows == 0 {
        return None;
    }
    proof {
        lemma_shares_rise(
            source.source_height as int,
            top - row,
            bottom - row,
            source.rows as int,
        );
    }
    let width: u32 = pixel_share(source.source_width, (right - left) as u32, source.cols);
    let skipped: u32 = pixel_share(source.source_height, (top - row) as u32, source.rows);
    let height: u32 = pixel_share(source.source_height, (bottom - row) as u32, source.rows)
        - skipped;
    if width == 0 || height == 0 || skipped > u32::MAX - source.source_y {
        return None;
    }
    let cropped = ImagePlacement {
        source_y: source.source_y + skipped,
        source_width: width,
        source_height: height,
        ..*source
    };
    let area = Rect {
        x: inner.x + left as u16,
        y: inner.y + top as u16,
        width: (right - left) as u16,
        height: (bottom - top) as u16,
    };
    Some((cropped, area))
}

/// A cropped image stays inside the pane, and inside the pixels it had.
pub proof fn law_clip_stays_inside(source: ImagePlacement, inner: Rect)
    requires
        inner.fits(),
        clipped(source, inner) is Some,
    ensures
        clipped(source, inner) matches Some((cropped, area)) && inner.x <= area.x && area.x
            + area.width <= inner.x + inner.width && inner.y <= area.y && area.y + area.height
            <= inner.y + inner.height && area.width > 0 && area.height > 0 && cropped.source_x
            >= source.source_x && cropped.source_x + cropped.source_width <= source.source_x
            + source.source_width && cropped.source_y >= source.source_y && cropped.source_y
            + cropped.source_height <= source.source_y + source.source_height,
{
    let left = source.col as int;
    let top = num::max(source.row as int, 0);
    let right = num::min(source.col + source.cols, inner.width as int);
    let bottom = num::min(
        num::min(source.row + source.rows, i32::MAX as int),
        inner.height as int,
    );
    lemma_shares_rise(
        source.source_height as int,
        top - source.row,
        bottom - source.row,
        source.rows as int,
    );
    lemma_shares_rise(
        source.source_height as int,
        bottom - source.row,
        source.rows as int,
        source.rows as int,
    );
    lemma_shares_rise(
        source.source_width as int,
        right - left,
        source.cols as int,
        source.cols as int,
    );
    vstd::arithmetic::div_mod::lemma_div_multiples_vanish(
        source.source_width as int,
        source.cols as int,
    );
    vstd::arithmetic::div_mod::lemma_div_multiples_vanish(
        source.source_height as int,
        source.rows as int,
    );
    assert(source.cols * source.source_width == source.source_width * source.cols)
        by (nonlinear_arith);
    assert(source.rows * source.source_height == source.source_height * source.rows)
        by (nonlinear_arith);
    lemma_shares_rise(source.source_width as int, 0, right - left, source.cols as int);
}

// ------------------------------------------------------------------------- image data

/// The bytes that the `base64` crate decodes from a text in the standard alphabet
/// with padding, if it decodes it.
pub uninterp spec fn base64_bytes(s: Seq<char>) -> Option<Seq<u8>>;

pub open spec fn optional_bytes(v: Option<Vec<u8>>) -> Option<Seq<u8>> {
    match v {
        Some(bytes) => Some(bytes@),
        None => None,
    }
}

/// Calls `decode` of the `base64` crate's standard engine. The result is named by
/// `base64_bytes`; an error is nothing.
#[verifier::external_body]
fn decode_base64(data: &str) -> (r: Option<Vec<u8>>)
    ensures
        optional_bytes(r) == base64_bytes(data@),
{
    base64::engine::general_purpose::STANDARD.decode(data).ok()
}

/// The sizes of an image are plausible; `limit` is for its decoded bytes.
pub open spec fn plausible(image: ImageData, limit: int) -> bool {
    &&& vstd::utf8::encode_utf8(image.data@).len() <= limit * 4 / 3 + 4
    &&& 0 < image.width <= 16384
    &&& 0 < image.height <= 16384
}

/// The bytes of an image that was decoded, unless its sizes are out of bounds.
pub fn bounded_bytes(image: &ImageData, limit: usize, decoded: Option<Vec<u8>>) -> (r: Option<
    Vec<u8>,
>)
    requires
        limit <= usize::MAX / 4,
    ensures
        r == (if plausible(*image, limit as int) {
            match decoded {
                Some(bytes) => if bytes@.len() <= limit {
                    decoded
                } else {
                    None
                },
                None => None,
            }
        } else {
            None
        }),
{
    if image.data.as_str().as_bytes().len() > limit * 4 / 3 + 4 || image.width == 0 || image.height
        == 0 || image.width > 16384 || image.height > 16384 {
        return None;
    }
    match decoded {
        Some(bytes) => if bytes.len() > limit {
            None
        } else {
            Some(bytes)
        },
        None => None,
    }
}

/// Decodes an image; nothing where that fails or its sizes are out of bounds.
pub fn asset_bytes(image: &ImageData, limit: usize) -> (r: Option<Vec<u8>>)
    requires
        limit <= usize::MAX / 4,
    ensures
        optional_bytes(r) == (match base64_bytes(image.data@) {
            Some(bytes) => if plausible(*image, limit as int) && bytes.len() <= limit {
                Some(bytes)
            } else {
                None
            },
            None => None,
        }),
{
    bounded_bytes(image, limit, decode_base64(image.data.as_str()))
}

/// Whether decoded bytes are the image that they are declared to be: pixels of
/// three or four bytes, or a PNG whose own dimensions, where it is one, are `png`.
pub open spec fn as_declared(image: ImageData, bytes: Seq<u8>, png: Option<(u32, u32)>) -> bool {
    if image.format == 24 || image.format == 32 {
        bytes.len() == image.width * image.height * (image.format / 8)
    } else if image.format == 100 {
        png == Some((image.width, image.height))
    } else {
        false
    }
}

pub fn valid_asset(image: &ImageData, bytes: &Vec<u8>, png: Option<(u32, u32)>) -> (r: bool)
    requires
        image.width <= 16384,
        image.height <= 16384,
    ensures
        r == as_declared(*image, bytes@, png),
{
    if image.format == 24 || image.format == 32 {
        let (width, height): (u64, u64) = (image.width as u64, image.height as u64);
        assert(width * height <= 16384 * 16384) by (nonlinear_arith)
            requires
                width <= 16384,
                height <= 16384,
        ;
        let depth: u64 = (image.format / 8) as u64;
        bytes.len() as u64 == width * height * depth
    } else if image.format == 100 {
        match png {
            Some((width, height)) => width == image.width && height == image.height,
            None => false,
        }
    } else {
        false
    }
}

/// Whether a reply brings the image of a key, and the image is what it is declared to
/// be. `limit` is for its decoded bytes, `png` its own dimensions where it is a PNG.
pub open spec fn brings(
    key: Key,
    reply: ServerMessage,
    limit: int,
    png: Option<(u32, u32)>,
) -> bool {
    &&& reply matches ServerMessage::Image { pane, image }
    &&& pane == key.pane
    &&& image.id == key.image
    &&& image.revision == key.revision
    &&& plausible(image, limit)
    &&& base64_bytes(image.data@) matches Some(bytes)
    &&& bytes.len() <= limit
    &&& as_declared(image, bytes, png)
}

/// The image that a reply brings; nothing where it brings another one, or a broken one.
pub fn brought(key: &Key, reply: ServerMessage, limit: usize, png: Option<(u32, u32)>) -> (r:
    Option<ImageData>)
    requires
        limit <= usize::MAX / 4,
    ensures
        brings(*key, reply, limit as int, png) ==> (reply matches ServerMessage::Image { image, .. }
            && r == Some(image)),
        !brings(*key, reply, limit as int, png) ==> r is None,
{
    match reply {
        ServerMessage::Image { pane, image } => {
            if pane.0 != key.pane.0 || image.id != key.image || image.revision != key.revision {
                return None;
            }
            match asset_bytes(&image, limit) {
                Some(bytes) => if valid_asset(&image, &bytes, png) {
                    Some(image)
                } else {
                    None
                },
                None => None,
            }
        },
        _ => None,
    }
}

// ------------------------------------------------------------------- terminal commands

pub open spec fn encoded(s: Seq<char>) -> Seq<u8> {
    vstd::utf8::encode_utf8(s)
}

fn push_bytes(out: &mut Vec<u8>, bytes: &[u8])
    ensures
        final(out)@ == old(out)@ + bytes@,
{
    let mut i: usize = 0;
    assert(out@ =~= old(out)@ + bytes@.take(0));
    while i < bytes.len()
        invariant
            i <= bytes@.len(),
            out@ == old(out)@ + bytes@.take(i as int),
        decreases bytes@.len() - i,
    {
        out.push(bytes[i]);
        assert(bytes@.take(i + 1) =~= bytes@.take(i as int).push(bytes@[i as int]));
        assert(out@ =~= old(out)@ + bytes@.take(i + 1));
        i += 1;
    }
    assert(bytes@.take(i as int) =~= bytes@);
}

fn push_text(out: &mut Vec<u8>, s: &str)
    ensures
        final(out)@ == old(out)@ + encoded(s@),
{
    let bytes = s.as_bytes_vec();
    push_bytes(out, bytes.as_slice());
}

/// Removes an image and its data.
pub open spec fn delete_command(host: u32) -> Seq<u8> {
    encoded("\x1b_Ga=d,d=I,i="@ + text::decimal(host as nat) + ",q=2\x1b\\"@)
}

/// Takes an image off the screen, but keeps its data.
pub open spec fn hide_command(host: u32) -> Seq<u8> {
    encoded("\x1b_Ga=d,d=i,i="@ + text::decimal(host as nat) + ",q=2\x1b\\"@)
}

/// Moves to the area and shows a part of an image there.
pub open spec fn show_command(host: u32, p: PlacementView) -> Seq<u8> {
    encoded(
        "\x1b["@ + text::decimal((p.area.y + 1) as nat) + ";"@ + text::decimal(
            (p.area.x + 1) as nat,
        ) + "H\x1b_Ga=p,i="@ + text::decimal(host as nat) + ",p="@ + text::decimal(
            p.source.placement as nat,
        ) + ",q=2,C=1,c="@ + text::decimal(p.area.width as nat) + ",r="@ + text::decimal(
            p.area.height as nat,
        ) + ",x="@ + text::decimal(p.source.source_x as nat) + ",y="@ + text::decimal(
            p.source.source_y as nat,
        ) + ",w="@ + text::decimal(p.source.source_width as nat) + ",h="@ + text::decimal(
            p.source.source_height as nat,
        ) + ",z="@ + text::signed(p.source.z as int) + "\x1b\\"@,
    )
}

fn push_delete(out: &mut Vec<u8>, host: u32)
    ensures
        final(out)@ == old(out)@ + delete_command(host),
{
    let id = text::decimal_text(host as u64);
    let line = text::cat3("\x1b_Ga=d,d=I,i=", id.as_str(), ",q=2\x1b\\");
    push_text(out, line.as_str());
}

fn push_hide(out: &mut Vec<u8>, host: u32)
    ensures
        final(out)@ == old(out)@ + hide_command(host),
{
    let id = text::decimal_text(host as u64);
    let line = text::cat3("\x1b_Ga=d,d=i,i=", id.as_str(), ",q=2\x1b\\");
    push_text(out, line.as_str());
}

fn push_show(out: &mut Vec<u8>, host: u32, p: &Placement)
    ensures
        final(out)@ == old(out)@ + show_command(host, p@),
{
    let mut line = "\x1b[".to_owned();
    line.append(text::decimal_text(p.area.y as u64 + 1).as_str());
    line.append(";");
    line.append(text::decimal_text(p.area.x as u64 + 1).as_str());
    line.append("H\x1b_Ga=p,i=");
    line.append(text::decimal_text(host as u64).as_str());
    line.append(",p=");
    line.append(text::decimal_text(p.source.placement as u64).as_str());
    line.append(",q=2,C=1,c=");
    line.append(text::decimal_text(p.area.width as u64).as_str());
    line.append(",r=");
    line.append(text::decimal_text(p.area.height as u64).as_str());
    line.append(",x=");
    line.append(text::decimal_text(p.source.source_x as u64).as_str());
    line.append(",y=");
    line.append(text::decimal_text(p.source.source_y as u64).as_str());
    line.append(",w=");
    line.append(text::decimal_text(p.source.source_width as u64).as_str());
    line.append(",h=");
    line.append(text::decimal_text(p.source.source_height as u64).as_str());
    line.append(",z=");
    line.append(text::signed_text(p.source.z).as_str());
    line.append("\x1b\\");
    push_text(out, line.as_str());
}

pub open spec fn more(on: bool) -> Seq<char> {
    if on {
        "1"@
    } else {
        "0"@
    }
}

/// What stands before a piece of image data: the first says what the image is,
/// and each says whether more pieces follow.
pub open spec fn piece_head(host: u32, image: ImageData, index: int, count: int) -> Seq<char> {
    if index == 0 {
        "\x1b_Ga=t,t=d,f="@ + text::decimal(image.format as nat) + ",s="@ + text::decimal(
            image.width as nat,
        ) + ",v="@ + text::decimal(image.height as nat) + ",i="@ + text::decimal(host as nat)
            + ",q=2,m="@ + more(index + 1 < count) + ";"@
    } else {
        "\x1b_Gm="@ + more(index + 1 < count) + ",q=2;"@
    }
}

/// The commands that hand the first `upto` pieces of an image to the terminal.
pub open spec fn upload_commands(
    host: u32,
    image: ImageData,
    pieces: Seq<Seq<u8>>,
    upto: int,
) -> Seq<u8>
    decreases upto,
{
    if upto <= 0 {
        Seq::empty()
    } else {
        upload_commands(host, image, pieces, upto - 1) + encoded(
            piece_head(host, image, upto - 1, pieces.len() as int),
        ) + pieces[upto - 1] + encoded("\x1b\\"@)
    }
}

pub open spec fn uploaded(host: u32, image: ImageData) -> Seq<u8> {
    let pieces = paste::pieces(encoded(image.data@), 4096);
    upload_commands(host, image, pieces, pieces.len() as int)
}

fn head_text(host: u32, image: &ImageData, index: usize, count: usize) -> (r: String)
    requires
        index < count,
    ensures
        r@ == piece_head(host, *image, index as int, count as int),
{
    let flag = if index + 1 < count {
        "1"
    } else {
        "0"
    };
    if index == 0 {
        let mut line = "\x1b_Ga=t,t=d,f=".to_owned();
        line.append(text::decimal_text(image.format as u64).as_str());
        line.append(",s=");
        line.append(text::decimal_text(image.width as u64).as_str());
        line.append(",v=");
        line.append(text::decimal_text(image.height as u64).as_str());
        line.append(",i=");
        line.append(text::decimal_text(host as u64).as_str());
        line.append(",q=2,m=");
        line.append(flag);
        line.append(";");
        line
    } else {
        text::cat3("\x1b_Gm=", flag, ",q=2;")
    }
}

/// Hands an image to the terminal in bounded pieces.
pub fn upload(out: &mut Vec<u8>, host: u32, image: &ImageData)
    ensures
        final(out)@ == old(out)@ + uploaded(host, *image),
{
    let data = image.data.as_str().as_bytes_vec();
    let list = paste::chunks(data.as_slice(), 4096);
    let ghost all = paste::pieces(encoded(image.data@), 4096);
    let mut i: usize = 0;
    assert(paste::byte_lists(list@).len() == list@.len());
    assert(out@ =~= old(out)@ + upload_commands(host, *image, all, 0));
    while i < list.len()
        invariant
            i <= list@.len(),
            paste::byte_lists(list@) == all,
            list@.len() == all.len(),
            out@ == old(out)@ + upload_commands(host, *image, all, i as int),
        decreases list@.len() - i,
    {
        let ghost before = out@;
        let head = head_text(host, image, i, list.len());
        push_text(out, head.as_str());
        push_bytes(out, list[i].as_slice());
        push_text(out, "\x1b\\");
        assert(all[i as int] == list@[i as int]@);
        assert(out@ =~= old(out)@ + upload_commands(host, *image, all, i + 1));
        i += 1;
    }
}

// --------------------------------------------------------------------------- renderer

/// What is on the terminal, what was asked for, and what failed when.
#[derive(Debug, Clone, PartialEq, Eq)]
pub struct Renderer {
    pub enabled: bool,
    pub assets: Vec<(Key, Asset)>,
    pub pending: Vec<Key>,
    pub failed: Vec<(Key, u64)>,
    pub previous: Vec<Placement>,
    pub next_host: u32,
}

/// The state of a renderer as plain values.
#[verifier::ext_equal]
pub struct Stage {
    pub assets: Seq<(KeyView, Asset)>,
    pub pending: Seq<KeyView>,
    pub failed: Seq<(KeyView, u64)>,
    pub previous: Seq<PlacementView>,
    pub next_host: u32,
}

pub open spec fn asset_views(v: Seq<(Key, Asset)>) -> Seq<(KeyView, Asset)> {
    v.map_values(|p: (Key, Asset)| (p.0@, p.1))
}

pub open spec fn key_views(v: Seq<Key>) -> Seq<KeyView> {
    v.map_values(|k: Key| k@)
}

pub open spec fn failed_views(v: Seq<(Key, u64)>) -> Seq<(KeyView, u64)> {
    v.map_values(|p: (Key, u64)| (p.0@, p.1))
}

pub open spec fn placement_views(v: Seq<Placement>) -> Seq<PlacementView> {
    v.map_values(|p: Placement| p@)
}

impl View for Renderer {
    type V = Stage;

    open spec fn view(&self) -> Stage {
        Stage {
            assets: asset_views(self.assets@),
            pending: key_views(self.pending@),
            failed: failed_views(self.failed@),
            previous: placement_views(self.previous@),
            next_host: self.next_host,
        }
    }
}

pub open spec fn total_bytes(assets: Seq<(KeyView, Asset)>) -> nat
    decreases assets.len(),
{
    if assets.len() == 0 {
        0
    } else {
        total_bytes(assets.drop_last()) + assets.last().1.bytes as nat
    }
}

/// One more image of that size may be kept.
pub open spec fn has_room(assets: Seq<(KeyView, Asset)>, bytes: int) -> bool {
    assets.len() < MAX_ASSETS && total_bytes(assets) + bytes <= MAX_BYTES
}

impl Stage {
    /// The limits hold.
    pub open spec fn bounded(self) -> bool {
        &&& self.assets.len() <= MAX_ASSETS
        &&& total_bytes(self.assets) <= MAX_BYTES
        &&& self.pending.len() <= MAX_PENDING
    }
}

/// Whether a placement wants that image.
pub open spec fn wants(desired: Seq<PlacementView>, key: KeyView) -> bool
    decreases desired.len(),
{
    desired.len() > 0 && (desired[0].key == key || wants(desired.skip(1), key))
}

pub open spec fn asset_of(assets: Seq<(KeyView, Asset)>, key: KeyView) -> Option<Asset>
    decreases assets.len(),
{
    if assets.len() == 0 {
        None
    } else if assets[0].0 == key {
        Some(assets[0].1)
    } else {
        asset_of(assets.skip(1), key)
    }
}

/// The first image that no placement wants any more.
pub open spec fn stale(assets: Seq<(KeyView, Asset)>, desired: Seq<PlacementView>) -> Option<int>
    decreases assets.len(),
{
    if assets.len() == 0 {
        None
    } else if !wants(desired, assets[0].0) {
        Some(0)
    } else {
        match stale(assets.skip(1), desired) {
            Some(i) => Some(i + 1),
            None => None,
        }
    }
}

pub proof fn lemma_stale(assets: Seq<(KeyView, Asset)>, desired: Seq<PlacementView>)
    ensures
        match stale(assets, desired) {
            Some(i) => 0 <= i < assets.len() && !wants(desired, assets[i].0),
            None => forall|i: int|
                0 <= i < assets.len() ==> wants(desired, (#[trigger] assets[i]).0),
        },
    decreases assets.len(),
{
    if assets.len() > 0 && wants(desired, assets[0].0) {
        lemma_stale(assets.skip(1), desired);
        if stale(assets.skip(1), desired) is None {
            assert forall|i: int| 0 <= i < assets.len() implies wants(
                desired,
                (#[trigger] assets[i]).0,
            ) by {
                if i > 0 {
                    assert(assets.skip(1)[i - 1] == assets[i]);
                }
            }
        }
    }
}

/// Images removed until there is room: only those that nothing wants, so that
/// visible panes never push each other out.
pub open spec fn evicted(
    assets: Seq<(KeyView, Asset)>,
    desired: Seq<PlacementView>,
    bytes: int,
) -> (Seq<(KeyView, Asset)>, Seq<u8>)
    decreases assets.len(),
{
    if has_room(assets, bytes) {
        (assets, Seq::empty())
    } else {
        match stale(assets, desired) {
            None => (assets, Seq::empty()),
            Some(i) => if 0 <= i < assets.len() {
                let (kept, said) = evicted(assets.remove(i), desired, bytes);
                (kept, delete_command(assets[i].1.host) + said)
            } else {
                (assets, Seq::empty())
            },
        }
    }
}

/// The host id after another; zero is never one.
pub open spec fn next_id(host: u32) -> u32 {
    if host == u32::MAX {
        1
    } else {
        (host + 1) as u32
    }
}

pub open spec fn without(keys: Seq<KeyView>, key: KeyView) -> Seq<KeyView>
    decreases keys.len(),
{
    if keys.len() == 0 {
        Seq::empty()
    } else if keys.last() == key {
        without(keys.drop_last(), key)
    } else {
        without(keys.drop_last(), key).push(keys.last())
    }
}

pub open spec fn failures_without(failed: Seq<(KeyView, u64)>, key: KeyView) -> Seq<(KeyView, u64)>
    decreases failed.len(),
{
    if failed.len() == 0 {
        Seq::empty()
    } else if failed.last().0 == key {
        failures_without(failed.drop_last(), key)
    } else {
        failures_without(failed.drop_last(), key).push(failed.last())
    }
}

/// The failures that still matter: those of images that are wanted.
pub open spec fn failures_wanted(
    failed: Seq<(KeyView, u64)>,
    desired: Seq<PlacementView>,
) -> Seq<(KeyView, u64)>
    decreases failed.len(),
{
    if failed.len() == 0 {
        Seq::empty()
    } else if wants(desired, failed.last().0) {
        failures_wanted(failed.drop_last(), desired).push(failed.last())
    } else {
        failures_wanted(failed.drop_last(), desired)
    }
}

/// What an answer changes, and what is said to the terminal.
pub open spec fn received(
    stage: Stage,
    desired: Seq<PlacementView>,
    key: KeyView,
    image: Option<ImageData>,
    now: u64,
) -> (Stage, Seq<u8>) {
    let settled = Stage { pending: without(stage.pending, key), ..stage };
    let gone_wrong = Stage {
        failed: failures_without(settled.failed, key).push((key, now)),
        ..settled
    };
    if !wants(desired, key) {
        (settled, Seq::empty())
    } else {
        match image {
            None => (gone_wrong, Seq::empty()),
            Some(data) => {
                let bytes = encoded(data.data@).len() as int;
                let (kept, said) = evicted(settled.assets, desired, bytes);
                let host = next_id(stage.next_host);
                if has_room(kept, bytes) {
                    (
                        Stage {
                            assets: replaced(kept, key, Asset { host, bytes: bytes as usize }),
                            next_host: host,
                            ..settled
                        },
                        said + uploaded(host, data),
                    )
                } else {
                    (Stage { assets: kept, ..gone_wrong }, said)
                }
            },
        }
    }
}

/// The images with one more; one of the same key is replaced.
pub open spec fn replaced(assets: Seq<(KeyView, Asset)>, key: KeyView, asset: Asset) -> Seq<
    (KeyView, Asset),
> {
    assets_without(assets, key).push((key, asset))
}

pub open spec fn assets_without(assets: Seq<(KeyView, Asset)>, key: KeyView) -> Seq<
    (KeyView, Asset),
>
    decreases assets.len(),
{
    if assets.len() == 0 {
        Seq::empty()
    } else if assets.last().0 == key {
        assets_without(assets.drop_last(), key)
    } else {
        assets_without(assets.drop_last(), key).push(assets.last())
    }
}

proof fn lemma_without_shrinks(keys: Seq<KeyView>, key: KeyView)
    ensures
        without(keys, key).len() <= keys.len(),
    decreases keys.len(),
{
    if keys.len() > 0 {
        lemma_without_shrinks(keys.drop_last(), key);
    }
}

proof fn lemma_assets_without_shrinks(assets: Seq<(KeyView, Asset)>, key: KeyView)
    ensures
        assets_without(assets, key).len() <= assets.len(),
        total_bytes(assets_without(assets, key)) <= total_bytes(assets),
    decreases assets.len(),
{
    if assets.len() > 0 {
        lemma_assets_without_shrinks(assets.drop_last(), key);
        let front = assets_without(assets.drop_last(), key);
        assert(front.push(assets.last()).drop_last() =~= front);
    }
}

proof fn lemma_total_remove(assets: Seq<(KeyView, Asset)>, i: int)
    requires
        0 <= i < assets.len(),
    ensures
        total_bytes(assets.remove(i)) + assets[i].1.bytes == total_bytes(assets),
    decreases assets.len(),
{
    if i == assets.len() - 1 {
        assert(assets.remove(i) =~= assets.drop_last());
    } else {
        lemma_total_remove(assets.drop_last(), i);
        assert(assets.remove(i).drop_last() =~= assets.drop_last().remove(i));
        assert(assets.remove(i).last() == assets.last());
    }
}

proof fn lemma_evicted_shrinks(
    assets: Seq<(KeyView, Asset)>,
    desired: Seq<PlacementView>,
    bytes: int,
)
    ensures
        evicted(assets, desired, bytes).0.len() <= assets.len(),
        total_bytes(evicted(assets, desired, bytes).0) <= total_bytes(assets),
    decreases assets.len(),
{
    if !has_room(assets, bytes) {
        lemma_stale(assets, desired);
        if let Some(i) = stale(assets, desired) {
            lemma_total_remove(assets, i);
            lemma_evicted_shrinks(assets.remove(i), desired, bytes);
        }
    }
}

/// An answer never breaks the limits on images and requests.
pub proof fn law_answers_keep_the_limits(
    stage: Stage,
    desired: Seq<PlacementView>,
    key: KeyView,
    image: Option<ImageData>,
    now: u64,
)
    requires
        stage.bounded(),
    ensures
        received(stage, desired, key, image, now).0.bounded(),
{
    lemma_without_shrinks(stage.pending, key);
    if let Some(data) = image {
        let bytes = encoded(data.data@).len() as int;
        lemma_evicted_shrinks(stage.assets, desired, bytes);
        let kept = evicted(stage.assets, desired, bytes).0;
        lemma_assets_without_shrinks(kept, key);
        let host = next_id(stage.next_host);
        let asset = Asset { host, bytes: bytes as usize };
        let front = assets_without(kept, key);
        assert(front.push((key, asset)).drop_last() =~= front);
    }
}

/// A wanted image is never pushed out by another one.
pub proof fn law_wanted_images_stay(
    assets: Seq<(KeyView, Asset)>,
    desired: Seq<PlacementView>,
    bytes: int,
    i: int,
)
    requires
        0 <= i < assets.len(),
        wants(desired, assets[i].0),
    ensures
        evicted(assets, desired, bytes).0.contains(assets[i]),
    decreases assets.len(),
{
    if !has_room(assets, bytes) {
        lemma_stale(assets, desired);
        if let Some(k) = stale(assets, desired) {
            let rest = assets.remove(k);
            let j = if i < k {
                i
            } else {
                i - 1
            };
            assert(rest[j] == assets[i]);
            law_wanted_images_stay(rest, desired, bytes, j);
        } else {
            assert(assets.contains(assets[i]));
        }
    } else {
        assert(assets.contains(assets[i]));
    }
}

/// Whether an image failed so recently that it is not asked for again.
pub open spec fn failed_lately(failed: Seq<(KeyView, u64)>, key: KeyView, now: u64) -> bool
    decreases failed.len(),
{
    failed.len() > 0 && ((failed[0].0 == key && now - failed[0].1 < RETRY_MILLIS)
        || failed_lately(failed.skip(1), key, now))
}

pub open spec fn is_pending(pending: Seq<KeyView>, key: KeyView) -> bool
    decreases pending.len(),
{
    pending.len() > 0 && (pending[0] == key || is_pending(pending.skip(1), key))
}

/// The requests on their way after those of the first `count` placements were
/// considered.
pub open spec fn requested(stage: Stage, desired: Seq<PlacementView>, now: u64, count: int) -> Seq<
    KeyView,
>
    decreases count,
{
    if count <= 0 {
        stage.pending
    } else {
        let before = requested(stage, desired, now, count - 1);
        let key = desired[count - 1].key;
        if before.len() >= MAX_PENDING || asset_of(stage.assets, key) is Some || is_pending(
            before,
            key,
        ) || failed_lately(stage.failed, key, now) {
            before
        } else {
            before.push(key)
        }
    }
}

pub proof fn law_requests_keep_the_limit(
    stage: Stage,
    desired: Seq<PlacementView>,
    now: u64,
    count: int,
)
    requires
        stage.pending.len() <= MAX_PENDING,
    ensures
        requested(stage, desired, now, count).len() <= MAX_PENDING,
        stage.pending.is_prefix_of(requested(stage, desired, now, count)),
    decreases count,
{
    if count > 0 {
        law_requests_keep_the_limit(stage, desired, now, count - 1);
        let before = requested(stage, desired, now, count - 1);
        let after = requested(stage, desired, now, count);
        assert(stage.pending =~= after.subrange(0, stage.pending.len() as int)) by {
            assert(stage.pending =~= before.subrange(0, stage.pending.len() as int));
        }
    } else {
        assert(stage.pending =~= stage.pending.subrange(0, stage.pending.len() as int));
    }
}

/// The placements whose image is on the terminal.
pub open spec fn visible(desired: Seq<PlacementView>, assets: Seq<(KeyView, Asset)>) -> Seq<
    PlacementView,
>
    decreases desired.len(),
{
    if desired.len() == 0 {
        Seq::empty()
    } else if asset_of(assets, desired.last().key) is Some {
        visible(desired.drop_last(), assets).push(desired.last())
    } else {
        visible(desired.drop_last(), assets)
    }
}

/// The terminal's ids of placed images, each once.
pub open spec fn placed_hosts(previous: Seq<PlacementView>, assets: Seq<(KeyView, Asset)>) -> Seq<
    u32,
>
    decreases previous.len(),
{
    if previous.len() == 0 {
        Seq::empty()
    } else {
        let before = placed_hosts(previous.drop_last(), assets);
        match asset_of(assets, previous.last().key) {
            Some(asset) => if before.contains(asset.host) {
                before
            } else {
                before.push(asset.host)
            },
            None => before,
        }
    }
}

pub open spec fn hides(hosts: Seq<u32>) -> Seq<u8>
    decreases hosts.len(),
{
    if hosts.len() == 0 {
        Seq::empty()
    } else {
        hides(hosts.drop_last()) + hide_command(hosts.last())
    }
}

pub open spec fn shows(placements: Seq<PlacementView>, assets: Seq<(KeyView, Asset)>) -> Seq<u8>
    decreases placements.len(),
{
    if placements.len() == 0 {
        Seq::empty()
    } else {
        shows(placements.drop_last(), assets) + (match asset_of(assets, placements.last().key) {
            Some(asset) => show_command(asset.host, placements.last()),
            None => Seq::empty(),
        })
    }
}

/// What is said to the terminal when the placements change.
pub open spec fn placed(stage: Stage, desired: Seq<PlacementView>) -> (Stage, Seq<u8>) {
    let now_visible = visible(desired, stage.assets);
    if now_visible == stage.previous {
        (stage, Seq::empty())
    } else {
        (
            Stage { previous: now_visible, ..stage },
            hides(placed_hosts(stage.previous, stage.assets)) + shows(now_visible, stage.assets),
        )
    }
}

/// The answers taken in, one after another.
pub open spec fn all_received(
    stage: Stage,
    desired: Seq<PlacementView>,
    loaded: Seq<Loaded>,
    now: u64,
    count: int,
) -> (Stage, Seq<u8>)
    decreases count,
{
    if count <= 0 {
        (stage, Seq::empty())
    } else {
        let (before, said) = all_received(stage, desired, loaded, now, count - 1);
        let (after, more_said) = received(
            before,
            desired,
            loaded[count - 1].key@,
            loaded[count - 1].image,
            now,
        );
        (after, said + more_said)
    }
}

/// Failures forgotten, and answers taken in.
pub open spec fn after_answers(
    stage: Stage,
    desired: Seq<PlacementView>,
    loaded: Seq<Loaded>,
    now: u64,
) -> (Stage, Seq<u8>) {
    all_received(
        Stage { failed: failures_wanted(stage.failed, desired), ..stage },
        desired,
        loaded,
        now,
        loaded.len() as int,
    )
}

/// One drawing: failures are forgotten, answers taken in, requests decided, and
/// the placements brought up to date.
pub open spec fn drawn(
    stage: Stage,
    desired: Seq<PlacementView>,
    loaded: Seq<Loaded>,
    now: u64,
) -> (Stage, Seq<u8>) {
    let (taken, said) = after_answers(stage, desired, loaded, now);
    let asked = Stage {
        pending: requested(taken, desired, now, desired.len() as int),
        ..taken
    };
    let (shown, more_said) = placed(asked, desired);
    (shown, said + more_said)
}

/// The commands of a drawing with the cursor saved around them; nothing where
/// there is nothing to say.
pub open spec fn framed(commands: Seq<u8>) -> Seq<u8> {
    if commands.len() == 0 {
        commands
    } else {
        encoded("\x1b7"@) + commands + encoded("\x1b8"@)
    }
}

proof fn lemma_all_bounded(
    stage: Stage,
    desired: Seq<PlacementView>,
    loaded: Seq<Loaded>,
    now: u64,
    count: int,
)
    requires
        stage.bounded(),
        count <= loaded.len(),
    ensures
        all_received(stage, desired, loaded, now, count).0.bounded(),
    decreases count,
{
    if count > 0 {
        lemma_all_bounded(stage, desired, loaded, now, count - 1);
        law_answers_keep_the_limits(
            all_received(stage, desired, loaded, now, count - 1).0,
            desired,
            loaded[count - 1].key@,
            loaded[count - 1].image,
            now,
        );
    }
}

/// Drawing never breaks the limits.
pub proof fn law_drawing_keeps_the_limits(
    stage: Stage,
    desired: Seq<PlacementView>,
    loaded: Seq<Loaded>,
    now: u64,
)
    requires
        stage.bounded(),
    ensures
        drawn(stage, desired, loaded, now).0.bounded(),
{
    let start = Stage { failed: failures_wanted(stage.failed, desired), ..stage };
    lemma_all_bounded(start, desired, loaded, now, loaded.len() as int);
    let taken = all_received(start, desired, loaded, now, loaded.len() as int).0;
    law_requests_keep_the_limit(taken, desired, now, desired.len() as int);
}

fn is_wanted(desired: &Vec<Placement>, key: &Key) -> (r: bool)
    ensures
        r == wants(placement_views(desired@), key@),
{
    let ghost all = placement_views(desired@);
    let mut i: usize = 0;
    assert(all.skip(0) =~= all);
    while i < desired.len()
        invariant
            all == placement_views(desired@),
            i <= desired@.len(),
            wants(all, key@) == wants(all.skip(i as int), key@),
        decreases desired@.len() - i,
    {
        assert(all.skip(i as int)[0] == desired@[i as int]@);
        assert(all.skip(i as int).skip(1) =~= all.skip(i + 1));
        if same_key(&desired[i].key, key) {
            return true;
        }
        i += 1;
    }
    false
}

fn find_asset(assets: &Vec<(Key, Asset)>, key: &Key) -> (r: Option<Asset>)
    ensures
        r == asset_of(asset_views(assets@), key@),
{
    let ghost all = asset_views(assets@);
    let mut i: usize = 0;
    assert(all.skip(0) =~= all);
    while i < assets.len()
        invariant
            all == asset_views(assets@),
            i <= assets@.len(),
            asset_of(all, key@) == asset_of(all.skip(i as int), key@),
        decreases assets@.len() - i,
    {
        assert(all.skip(i as int)[0] == all[i as int]);
        assert(all.skip(i as int).skip(1) =~= all.skip(i + 1));
        if same_key(&assets[i].0, key) {
            return Some(assets[i].1);
        }
        i += 1;
    }
    None
}

proof fn lemma_total_take(assets: Seq<(KeyView, Asset)>, i: int)
    requires
        0 <= i <= assets.len(),
    ensures
        total_bytes(assets.take(i)) <= total_bytes(assets),
    decreases assets.len() - i,
{
    if i < assets.len() {
        lemma_total_take(assets, i + 1);
        assert(assets.take(i + 1).drop_last() =~= assets.take(i));
    } else {
        assert(assets.take(i) =~= assets);
    }
}

fn room(assets: &Vec<(Key, Asset)>, bytes: usize) -> (r: bool)
    requires
        total_bytes(asset_views(assets@)) <= MAX_BYTES,
    ensures
        r == has_room(asset_views(assets@), bytes as int),
{
    let ghost all = asset_views(assets@);
    let mut total: usize = 0;
    let mut i: usize = 0;
    assert(all.take(0) =~= Seq::empty());
    while i < assets.len()
        invariant
            all == asset_views(assets@),
            i <= assets@.len(),
            total == total_bytes(all.take(i as int)),
            total_bytes(all) <= MAX_BYTES,
        decreases assets@.len() - i,
    {
        assert(all.take(i + 1).drop_last() =~= all.take(i as int));
        assert(all.take(i + 1).last() == all[i as int]);
        proof {
            lemma_total_take(all, i + 1);
        }
        total = total + assets[i].1.bytes;
        i += 1;
    }
    assert(all.take(i as int) =~= all);
    assets.len() < MAX_ASSETS && bytes <= MAX_BYTES - total
}

fn first_stale(assets: &Vec<(Key, Asset)>, desired: &Vec<Placement>) -> (r: Option<usize>)
    ensures
        match stale(asset_views(assets@), placement_views(desired@)) {
            Some(i) => 0 <= i < assets@.len() && (r matches Some(at) && at == i),
            None => r is None,
        },
{
    let ghost all = asset_views(assets@);
    let ghost want = placement_views(desired@);
    let mut i: usize = 0;
    assert(all.skip(0) =~= all);
    while i < assets.len()
        invariant
            all == asset_views(assets@),
            want == placement_views(desired@),
            i <= assets@.len(),
            stale(all, want) == (match stale(all.skip(i as int), want) {
                Some(k) => Some(k + i),
                None => None::<int>,
            }),
        decreases assets@.len() - i,
    {
        assert(all.skip(i as int)[0] == all[i as int]);
        assert(all.skip(i as int).skip(1) =~= all.skip(i + 1));
        if !is_wanted(desired, &assets[i].0) {
            return Some(i);
        }
        i += 1;
    }
    None
}

// ------------------------------------------------------------------ wanted placements

/// The first rectangle of a pane, without its border.
pub open spec fn canvas(rects: Seq<(PaneId, Rect)>, pane: PaneId) -> Option<Rect>
    decreases rects.len(),
{
    if rects.len() == 0 {
        None
    } else if rects[0].0 == pane {
        Some(rects[0].1.inside())
    } else {
        canvas(rects.skip(1), pane)
    }
}

/// The placements of the first `count` images of a pane.
pub open spec fn pane_placements(
    socket: Seq<char>,
    pane: PaneId,
    images: Seq<ImagePlacement>,
    inner: Rect,
    count: int,
) -> Seq<PlacementView>
    decreases count,
{
    if count <= 0 {
        Seq::empty()
    } else {
        let before = pane_placements(socket, pane, images, inner, count - 1);
        match clipped(images[count - 1], inner) {
            Some((source, area)) => before.push(
                PlacementView {
                    key: KeyView {
                        socket,
                        pane,
                        image: source.image,
                        revision: source.revision,
                    },
                    source,
                    area,
                },
            ),
            None => before,
        }
    }
}

/// The placements of the first `count` panes: the images of panes on screen, as
/// far as they can be seen.
pub open spec fn all_placements(
    socket: Seq<char>,
    panes: Seq<crate::proto::PaneSnapshot>,
    rects: Seq<(PaneId, Rect)>,
    count: int,
) -> Seq<PlacementView>
    decreases count,
{
    if count <= 0 {
        Seq::empty()
    } else {
        let pane = panes[count - 1];
        all_placements(socket, panes, rects, count - 1) + (match canvas(rects, pane.id) {
            Some(inner) => pane_placements(
                socket,
                pane.id,
                pane.screen.graphics@,
                inner,
                pane.screen.graphics@.len() as int,
            ),
            None => Seq::empty(),
        })
    }
}

pub open spec fn desired_placements(
    socket: Seq<char>,
    layout: Option<LayoutSnapshot>,
    rects: Seq<(PaneId, Rect)>,
) -> Seq<PlacementView> {
    match layout {
        Some(snapshot) => all_placements(
            socket,
            snapshot.panes@,
            rects,
            snapshot.panes@.len() as int,
        ),
        None => Seq::empty(),
    }
}

/// Every rectangle ends where a coordinate can say.
pub open spec fn rects_fit(rects: Seq<(PaneId, Rect)>) -> bool {
    forall|i: int| 0 <= i < rects.len() ==> (#[trigger] rects[i]).1.fits()
}

fn find_canvas(rects: &Vec<(PaneId, Rect)>, pane: PaneId) -> (r: Option<Rect>)
    requires
        rects_fit(rects@),
    ensures
        r == canvas(rects@, pane),
        r matches Some(inner) ==> inner.fits(),
{
    let mut i: usize = 0;
    assert(rects@.skip(0) =~= rects@);
    while i < rects.len()
        invariant
            rects_fit(rects@),
            i <= rects@.len(),
            canvas(rects@, pane) == canvas(rects@.skip(i as int), pane),
        decreases rects@.len() - i,
    {
        assert(rects@.skip(i as int)[0] == rects@[i as int]);
        assert(rects@.skip(i as int).skip(1) =~= rects@.skip(i + 1));
        if rects[i].0 == pane {
            return Some(rects[i].1.inner());
        }
        i += 1;
    }
    None
}

fn placements(socket: &str, layout: Option<&LayoutSnapshot>, rects: &Vec<(PaneId, Rect)>) -> (r:
    Vec<Placement>)
    requires
        rects_fit(rects@),
    ensures
        placement_views(r@) == desired_placements(
            socket@,
            crate::layout::target(layout),
            rects@,
        ),
{
    let mut out: Vec<Placement> = Vec::new();
    let snapshot = match layout {
        Some(snapshot) => snapshot,
        None => {
            assert(placement_views(out@) =~= Seq::empty());
            return out;
        },
    };
    let mut i: usize = 0;
    assert(placement_views(out@) =~= Seq::empty());
    while i < snapshot.panes.len()
        invariant
            rects_fit(rects@),
            i <= snapshot.panes@.len(),
            placement_views(out@) == all_placements(
                socket@,
                snapshot.panes@,
                rects@,
                i as int,
            ),
        decreases snapshot.panes@.len() - i,
    {
        let pane = &snapshot.panes[i];
        let ghost base = placement_views(out@);
        match find_canvas(rects, pane.id) {
            Some(inner) => {
                let mut j: usize = 0;
                assert(base + pane_placements(
                    socket@,
                    pane.id,
                    pane.screen.graphics@,
                    inner,
                    0,
                ) =~= base);
                while j < pane.screen.graphics.len()
                    invariant
                        inner.fits(),
                        j <= pane.screen.graphics@.len(),
                        placement_views(out@) == base + pane_placements(
                            socket@,
                            pane.id,
                            pane.screen.graphics@,
                            inner,
                            j as int,
                        ),
                    decreases pane.screen.graphics@.len() - j,
                {
                    let ghost before = placement_views(out@);
                    if let Some((source, area)) = clip(&pane.screen.graphics[j], inner) {
                        let key = Key {
                            socket: socket.to_owned(),
                            pane: pane.id,
                            image: source.image,
                            revision: source.revision,
                        };
                        let placement = Placement { key, source, area };
                        let ghost seen = placement@;
                        out.push(placement);
                        assert(placement_views(out@) =~= before.push(seen));
                    }
                    assert(placement_views(out@) =~= base + pane_placements(
                        socket@,
                        pane.id,
                        pane.screen.graphics@,
                        inner,
                        j + 1,
                    ));
                    j += 1;
                }
            },
            None => {
                assert(base + Seq::<PlacementView>::empty() =~= base);
            },
        }
        i += 1;
    }
    out
}

// ---------------------------------------------------------------------------- drawing

impl Renderer {
    /// A renderer with nothing on the terminal.
    pub fn new(enabled: bool) -> (r: Self)
        ensures
            r.enabled == enabled,
            r.assets@.len() == 0,
            r.pending@.len() == 0,
            r.failed@.len() == 0,
            r.previous@.len() == 0,
            r.next_host == 0x4b00_0000,
            r@.bounded(),
    {
        Renderer {
            enabled,
            assets: Vec::new(),
            pending: Vec::new(),
            failed: Vec::new(),
            previous: Vec::new(),
            next_host: 0x4b00_0000,
        }
    }

    fn forget_failures(&mut self, desired: &Vec<Placement>)
        ensures
            final(self).enabled == old(self).enabled,
            final(self)@ == (Stage {
                failed: failures_wanted(old(self)@.failed, placement_views(desired@)),
                ..old(self)@
            }),
    {
        let ghost before = *self;
        let ghost all = failed_views(self.failed@);
        let ghost want = placement_views(desired@);
        let mut kept: Vec<(Key, u64)> = Vec::new();
        let mut i: usize = 0;
        assert(all.take(0) =~= Seq::empty());
        assert(failed_views(kept@) =~= Seq::empty());
        while i < self.failed.len()
            invariant
                *self == before,
                all == failed_views(self.failed@),
                want == placement_views(desired@),
                i <= self.failed@.len(),
                failed_views(kept@) == failures_wanted(all.take(i as int), want),
            decreases self.failed@.len() - i,
        {
            assert(all.take(i + 1).drop_last() =~= all.take(i as int));
            assert(all.take(i + 1).last() == all[i as int]);
            let ghost seen = failed_views(kept@);
            if is_wanted(desired, &self.failed[i].0) {
                let entry = (self.failed[i].0.clone(), self.failed[i].1);
                kept.push(entry);
                assert(failed_views(kept@) =~= seen.push(all[i as int]));
            }
            i += 1;
        }
        assert(all.take(i as int) =~= all);
        self.failed = kept;
    }

    fn settle(&mut self, key: &Key)
        ensures
            final(self).enabled == old(self).enabled,
            final(self)@ == (Stage {
                pending: without(old(self)@.pending, key@),
                ..old(self)@
            }),
    {
        let ghost before = *self;
        let ghost all = key_views(self.pending@);
        let mut kept: Vec<Key> = Vec::new();
        let mut i: usize = 0;
        assert(all.take(0) =~= Seq::empty());
        assert(key_views(kept@) =~= Seq::empty());
        while i < self.pending.len()
            invariant
                *self == before,
                all == key_views(self.pending@),
                i <= self.pending@.len(),
                key_views(kept@) == without(all.take(i as int), key@),
            decreases self.pending@.len() - i,
        {
            assert(all.take(i + 1).drop_last() =~= all.take(i as int));
            assert(all.take(i + 1).last() == all[i as int]);
            let ghost seen = key_views(kept@);
            if !same_key(&self.pending[i], key) {
                kept.push(self.pending[i].clone());
                assert(key_views(kept@) =~= seen.push(all[i as int]));
            }
            i += 1;
        }
        assert(all.take(i as int) =~= all);
        self.pending = kept;
    }

    fn note_failure(&mut self, key: Key, now: u64)
        ensures
            final(self).enabled == old(self).enabled,
            final(self)@ == (Stage {
                failed: failures_without(old(self)@.failed, key@).push((key@, now)),
                ..old(self)@
            }),
    {
        let ghost before = *self;
        let ghost all = failed_views(self.failed@);
        let mut kept: Vec<(Key, u64)> = Vec::new();
        let mut i: usize = 0;
        assert(all.take(0) =~= Seq::empty());
        assert(failed_views(kept@) =~= Seq::empty());
        while i < self.failed.len()
            invariant
                *self == before,
                all == failed_views(self.failed@),
                i <= self.failed@.len(),
                failed_views(kept@) == failures_without(all.take(i as int), key@),
            decreases self.failed@.len() - i,
        {
            assert(all.take(i + 1).drop_last() =~= all.take(i as int));
            assert(all.take(i + 1).last() == all[i as int]);
            let ghost seen = failed_views(kept@);
            if !same_key(&self.failed[i].0, &key) {
                let entry = (self.failed[i].0.clone(), self.failed[i].1);
                kept.push(entry);
                assert(failed_views(kept@) =~= seen.push(all[i as int]));
            }
            i += 1;
        }
        assert(all.take(i as int) =~= all);
        let ghost seen = failed_views(kept@);
        let ghost entry = (key@, now);
        kept.push((key, now));
        assert(failed_views(kept@) =~= seen.push(entry));
        self.failed = kept;
    }

    fn store(&mut self, key: Key, asset: Asset)
        ensures
            final(self).enabled == old(self).enabled,
            final(self)@ == (Stage {
                assets: replaced(old(self)@.assets, key@, asset),
                ..old(self)@
            }),
    {
        let ghost before = *self;
        let ghost all = asset_views(self.assets@);
        let mut kept: Vec<(Key, Asset)> = Vec::new();
        let mut i: usize = 0;
        assert(all.take(0) =~= Seq::empty());
        assert(asset_views(kept@) =~= Seq::empty());
        while i < self.assets.len()
            invariant
                *self == before,
                all == asset_views(self.assets@),
                i <= self.assets@.len(),
                asset_views(kept@) == assets_without(all.take(i as int), key@),
            decreases self.assets@.len() - i,
        {
            assert(all.take(i + 1).drop_last() =~= all.take(i as int));
            assert(all.take(i + 1).last() == all[i as int]);
            let ghost seen = asset_views(kept@);
            if !same_key(&self.assets[i].0, &key) {
                let entry = (self.assets[i].0.clone(), self.assets[i].1);
                kept.push(entry);
                assert(asset_views(kept@) =~= seen.push(all[i as int]));
            }
            i += 1;
        }
        assert(all.take(i as int) =~= all);
        let ghost seen = asset_views(kept@);
        let ghost entry = (key@, asset);
        kept.push((key, asset));
        assert(asset_views(kept@) =~= seen.push(entry));
        self.assets = kept;
    }

    fn evict(&mut self, desired: &Vec<Placement>, bytes: usize, out: &mut Vec<u8>)
        requires
            total_bytes(old(self)@.assets) <= MAX_BYTES,
        ensures
            final(self).enabled == old(self).enabled,
            total_bytes(final(self)@.assets) <= MAX_BYTES,
            ({
                let (kept, said) = evicted(
                    old(self)@.assets,
                    placement_views(desired@),
                    bytes as int,
                );
                &&& final(self)@ == (Stage { assets: kept, ..old(self)@ })
                &&& final(out)@ == old(out)@ + said
            }),
    {
        let ghost want = placement_views(desired@);
        let ghost whole = evicted(self@.assets, want, bytes as int);
        let ghost before = self@;
        let ghost enabled = self.enabled;
        let mut going = true;
        assert(out@ + evicted(self@.assets, want, bytes as int).1 =~= old(out)@ + whole.1);
        while going
            invariant
                self.enabled == enabled,
                want == placement_views(desired@),
                total_bytes(self@.assets) <= MAX_BYTES,
                self@ == (Stage { assets: self@.assets, ..before }),
                out@ + evicted(self@.assets, want, bytes as int).1 == old(out)@ + whole.1,
                evicted(self@.assets, want, bytes as int).0 == whole.0,
                !going ==> evicted(self@.assets, want, bytes as int) == (
                    self@.assets,
                    Seq::<u8>::empty(),
                ),
            decreases self.assets@.len() + (if going {
                1int
            } else {
                0int
            }),
        {
            if room(&self.assets, bytes) {
                going = false;
            } else {
                match first_stale(&self.assets, desired) {
                    None => {
                        going = false;
                    },
                    Some(i) => {
                        let ghost assets = self@.assets;
                        let host: u32 = self.assets[i].1.host;
                        push_delete(out, host);
                        self.assets.remove(i);
                        assert(self@.assets =~= assets.remove(i as int));
                        proof {
                            lemma_total_remove(assets, i as int);
                        }
                        assert(out@ + evicted(self@.assets, want, bytes as int).1 =~= old(out)@
                            + whole.1);
                    },
                }
            }
        }
        assert(out@ + Seq::<u8>::empty() =~= out@);
    }

    fn receive(&mut self, desired: &Vec<Placement>, loaded: Loaded, now: u64, out: &mut Vec<u8>)
        requires
            total_bytes(old(self)@.assets) <= MAX_BYTES,
        ensures
            final(self).enabled == old(self).enabled,
            ({
                let (after, said) = received(
                    old(self)@,
                    placement_views(desired@),
                    loaded.key@,
                    loaded.image,
                    now,
                );
                &&& final(self)@ == after
                &&& final(out)@ == old(out)@ + said
            }),
    {
        self.settle(&loaded.key);
        if !is_wanted(desired, &loaded.key) {
            assert(out@ + Seq::<u8>::empty() =~= out@);
            return ;
        }
        let image = match loaded.image {
            Some(image) => image,
            None => {
                self.note_failure(loaded.key, now);
                assert(out@ + Seq::<u8>::empty() =~= out@);
                return ;
            },
        };
        let ghost start = out@;
        let bytes: usize = image.data.as_str().as_bytes().len();
        self.evict(desired, bytes, out);
        let ghost said = out@;
        if !room(&self.assets, bytes) {
            self.note_failure(loaded.key, now);
            return ;
        }
        let host: u32 = if self.next_host == u32::MAX {
            1
        } else {
            self.next_host + 1
        };
        self.next_host = host;
        upload(out, host, &image);
        self.store(loaded.key, Asset { host, bytes });
        assert(out@ =~= start + (said.skip(start.len() as int) + uploaded(host, image)));
        assert(said =~= start + said.skip(start.len() as int));
        proof {
            let want = placement_views(desired@);
            let gone = evicted(old(self)@.assets, want, bytes as int).1;
            assert(said == start + gone);
            assert(said.skip(start.len() as int) =~= gone);
        }
    }

    fn lately(&self, key: &Key, now: u64) -> (r: bool)
        ensures
            r == failed_lately(self@.failed, key@, now),
    {
        let ghost all = failed_views(self.failed@);
        let mut i: usize = 0;
        assert(all.skip(0) =~= all);
        while i < self.failed.len()
            invariant
                all == failed_views(self.failed@),
                i <= self.failed@.len(),
                failed_lately(all, key@, now) == failed_lately(all.skip(i as int), key@, now),
            decreases self.failed@.len() - i,
        {
            assert(all.skip(i as int)[0] == all[i as int]);
            assert(all.skip(i as int).skip(1) =~= all.skip(i + 1));
            let at: u64 = self.failed[i].1;
            if same_key(&self.failed[i].0, key) && (now < at || now - at < RETRY_MILLIS) {
                return true;
            }
            i += 1;
        }
        false
    }

    fn waiting(&self, key: &Key) -> (r: bool)
        ensures
            r == is_pending(self@.pending, key@),
    {
        let ghost all = key_views(self.pending@);
        let mut i: usize = 0;
        assert(all.skip(0) =~= all);
        while i < self.pending.len()
            invariant
                all == key_views(self.pending@),
                i <= self.pending@.len(),
                is_pending(all, key@) == is_pending(all.skip(i as int), key@),
            decreases self.pending@.len() - i,
        {
            assert(all.skip(i as int)[0] == all[i as int]);
            assert(all.skip(i as int).skip(1) =~= all.skip(i + 1));
            if same_key(&self.pending[i], key) {
                return true;
            }
            i += 1;
        }
        false
    }

    /// Notes which images to ask for now, and returns them.
    fn request(&mut self, desired: &Vec<Placement>, now: u64) -> (r: Vec<Key>)
        requires
            old(self).pending@.len() <= MAX_PENDING,
        ensures
            final(self).enabled == old(self).enabled,
            final(self)@ == (Stage {
                pending: requested(
                    old(self)@,
                    placement_views(desired@),
                    now,
                    desired@.len() as int,
                ),
                ..old(self)@
            }),
            old(self)@.pending + key_views(r@) == final(self)@.pending,
    {
        let ghost start = self@;
        let ghost enabled = self.enabled;
        let ghost want = placement_views(desired@);
        let mut fresh: Vec<Key> = Vec::new();
        let mut i: usize = 0;
        assert(start.pending + key_views(fresh@) =~= start.pending);
        while i < desired.len()
            invariant
                self.enabled == enabled,
                want == placement_views(desired@),
                i <= desired@.len(),
                self.pending@.len() <= MAX_PENDING,
                self@ == (Stage { pending: self@.pending, ..start }),
                self@.pending == requested(start, want, now, i as int),
                start.pending + key_views(fresh@) == self@.pending,
            decreases desired@.len() - i,
        {
            let key = &desired[i].key;
            assert(want[i as int].key == key@);
            if self.pending.len() < MAX_PENDING && find_asset(&self.assets, key).is_none()
                && !self.waiting(key) && !self.lately(key, now) {
                let ghost before = self@.pending;
                let ghost new = key_views(fresh@);
                self.pending.push(key.clone());
                fresh.push(key.clone());
                assert(self@.pending =~= before.push(key@));
                assert(key_views(fresh@) =~= new.push(key@));
                assert(start.pending + key_views(fresh@) =~= self@.pending);
            }
            i += 1;
        }
        fresh
    }


    fn place(&mut self, desired: Vec<Placement>, out: &mut Vec<u8>)
        ensures
            final(self).enabled == old(self).enabled,
            ({
                let (after, said) = placed(old(self)@, placement_views(desired@));
                &&& final(self)@ == after
                &&& final(out)@ == old(out)@ + said
            }),
    {
        let ghost start = out@;
        let ghost stage = self@;
        let shown = self.shown(&desired);
        if same_placements(&shown, &self.previous) {
            assert(out@ + Seq::<u8>::empty() =~= out@);
            return ;
        }
        let hosts = self.hosts();
        let mut i: usize = 0;
        assert(hosts@.take(0) =~= Seq::empty());
        assert(out@ =~= start + hides(hosts@.take(0)));
        while i < hosts.len()
            invariant
                i <= hosts@.len(),
                out@ == start + hides(hosts@.take(i as int)),
            decreases hosts@.len() - i,
        {
            assert(hosts@.take(i + 1).drop_last() =~= hosts@.take(i as int));
            push_hide(out, hosts[i]);
            assert(out@ =~= start + hides(hosts@.take(i + 1)));
            i += 1;
        }
        assert(hosts@.take(i as int) =~= hosts@);
        let ghost hidden = out@;
        let ghost all = placement_views(shown@);
        let mut k: usize = 0;
        assert(all.take(0) =~= Seq::empty());
        assert(out@ =~= hidden + shows(all.take(0), stage.assets));
        while k < shown.len()
            invariant
                all == placement_views(shown@),
                self@ == stage,
                k <= shown@.len(),
                out@ == hidden + shows(all.take(k as int), stage.assets),
            decreases shown@.len() - k,
        {
            assert(all.take(k + 1).drop_last() =~= all.take(k as int));
            assert(all.take(k + 1).last() == shown@[k as int]@);
            if let Some(asset) = find_asset(&self.assets, &shown[k].key) {
                push_show(out, asset.host, &shown[k]);
            }
            assert(out@ =~= hidden + shows(all.take(k + 1), stage.assets));
            k += 1;
        }
        assert(all.take(k as int) =~= all);
        self.previous = shown;
        assert(out@ =~= start + (hides(placed_hosts(stage.previous, stage.assets)) + shows(
            all,
            stage.assets,
        )));
    }

    fn shown(&self, desired: &Vec<Placement>) -> (r: Vec<Placement>)
        ensures
            placement_views(r@) == visible(placement_views(desired@), self@.assets),
    {
        let ghost all = placement_views(desired@);
        let mut out: Vec<Placement> = Vec::new();
        let mut i: usize = 0;
        assert(all.take(0) =~= Seq::empty());
        assert(placement_views(out@) =~= Seq::empty());
        while i < desired.len()
            invariant
                all == placement_views(desired@),
                i <= desired@.len(),
                placement_views(out@) == visible(all.take(i as int), self@.assets),
            decreases desired@.len() - i,
        {
            assert(all.take(i + 1).drop_last() =~= all.take(i as int));
            assert(all.take(i + 1).last() == desired@[i as int]@);
            let ghost seen = placement_views(out@);
            if find_asset(&self.assets, &desired[i].key).is_some() {
                let copy = Placement {
                    key: desired[i].key.clone(),
                    source: desired[i].source,
                    area: desired[i].area,
                };
                out.push(copy);
                assert(placement_views(out@) =~= seen.push(all[i as int]));
            }
            i += 1;
        }
        assert(all.take(i as int) =~= all);
        out
    }

    fn hosts(&self) -> (r: Vec<u32>)
        ensures
            r@ == placed_hosts(self@.previous, self@.assets),
    {
        let ghost all = placement_views(self.previous@);
        let mut out: Vec<u32> = Vec::new();
        let mut i: usize = 0;
        assert(all.take(0) =~= Seq::empty());
        assert(out@ =~= Seq::empty());
        while i < self.previous.len()
            invariant
                all == placement_views(self.previous@),
                i <= self.previous@.len(),
                out@ == placed_hosts(all.take(i as int), self@.assets),
            decreases self.previous@.len() - i,
        {
            assert(all.take(i + 1).drop_last() =~= all.take(i as int));
            assert(all.take(i + 1).last() == self.previous@[i as int]@);
            if let Some(asset) = find_asset(&self.assets, &self.previous[i].key) {
                if !has_host(&out, asset.host) {
                    out.push(asset.host);
                }
            }
            i += 1;
        }
        assert(all.take(i as int) =~= all);
        out
    }

    /// Brings the terminal up to date after a frame of cells. `loaded` are the
    /// answers that came in, `now` is a clock in milliseconds; without a layout
    /// the images are hidden. Returned are the commands for the terminal and the
    /// images to ask the daemon for.
    pub fn draw(
        &mut self,
        socket: &str,
        layout: Option<&LayoutSnapshot>,
        rects: &Vec<(PaneId, Rect)>,
        loaded: Vec<Loaded>,
        now: u64,
    ) -> (r: (Vec<u8>, Vec<Key>))
        requires
            rects_fit(rects@),
            old(self)@.bounded(),
        ensures
            final(self).enabled == old(self).enabled,
            final(self)@.bounded(),
            !old(self).enabled ==> *final(self) == *old(self) && r.0@.len() == 0 && r.1@.len() == 0,
            old(self).enabled ==> ({
                let desired = desired_placements(
                    socket@,
                    crate::layout::target(layout),
                    rects@,
                );
                let (after, said) = drawn(old(self)@, desired, loaded@, now);
                &&& final(self)@ == after
                &&& r.0@ == framed(said)
                &&& after_answers(old(self)@, desired, loaded@, now).0.pending + key_views(r.1@)
                    == final(self)@.pending
            }),
    {
        if !self.enabled {
            return (Vec::new(), Vec::new());
        }
        let ghost begin = self@;
        let desired = placements(socket, layout, rects);
        let ghost want = placement_views(desired@);
        self.forget_failures(&desired);
        let ghost start = self@;
        let ghost all = loaded@;
        let mut rest = loaded;
        let mut said: Vec<u8> = Vec::new();
        let ghost mut count: int = 0;
        assert(all.skip(0) =~= all);
        assert(said@ =~= Seq::empty());
        while rest.len() > 0
            invariant
                self.enabled,
                want == placement_views(desired@),
                start.bounded(),
                0 <= count <= all.len(),
                rest@ == all.skip(count),
                self@ == all_received(start, want, all, now, count).0,
                said@ == all_received(start, want, all, now, count).1,
                self@.bounded(),
            decreases rest@.len(),
        {
            let ghost left = rest@;
            let answer = rest.remove(0);
            assert(answer == left[0]);
            assert(left[0] == all[count]);
            assert(rest@ =~= all.skip(count + 1));
            proof {
                lemma_all_bounded(start, want, all, now, count + 1);
            }
            self.receive(&desired, answer, now, &mut said);
            proof {
                count = count + 1;
            }
        }
        assert(count == all.len());
        proof {
            law_drawing_keeps_the_limits(begin, want, all, now);
            law_requests_keep_the_limit(self@, want, now, want.len() as int);
        }
        let ghost taken = self@;
        assert((taken, said@) == after_answers(begin, want, all, now));
        let fresh = self.request(&desired, now);
        self.place(desired, &mut said);
        assert((self@, said@) == drawn(begin, want, all, now));
        let mut out: Vec<u8> = Vec::new();
        if said.len() > 0 {
            push_text(&mut out, "\x1b7");
            push_bytes(&mut out, said.as_slice());
            push_text(&mut out, "\x1b8");
            assert(out@ =~= framed(said@));
        } else {
            assert(out@ =~= framed(said@));
        }
        (out, fresh)
    }

    /// Removes every image from the terminal.
    pub fn clear(&mut self) -> (r: Vec<u8>)
        ensures
            r@ == deletes(old(self)@.assets),
            final(self).enabled == old(self).enabled,
            final(self)@ == (Stage {
                assets: Seq::empty(),
                previous: Seq::empty(),
                ..old(self)@
            }),
    {
        let ghost all = self@.assets;
        let mut out: Vec<u8> = Vec::new();
        let mut i: usize = 0;
        assert(all.take(0) =~= Seq::empty());
        assert(out@ =~= Seq::empty());
        while i < self.assets.len()
            invariant
                *self == *old(self),
                all == asset_views(self.assets@),
                i <= self.assets@.len(),
                out@ == deletes(all.take(i as int)),
            decreases self.assets@.len() - i,
        {
            assert(all.take(i + 1).drop_last() =~= all.take(i as int));
            assert(all.take(i + 1).last() == all[i as int]);
            push_delete(&mut out, self.assets[i].1.host);
            i += 1;
        }
        assert(all.take(i as int) =~= all);
        self.assets = Vec::new();
        self.previous = Vec::new();
        assert(self@.assets =~= Seq::empty());
        assert(self@.previous =~= Seq::empty());
        out
    }
}

pub open spec fn deletes(assets: Seq<(KeyView, Asset)>) -> Seq<u8>
    decreases assets.len(),
{
    if assets.len() == 0 {
        Seq::empty()
    } else {
        deletes(assets.drop_last()) + delete_command(assets.last().1.host)
    }
}

fn has_host(hosts: &Vec<u32>, host: u32) -> (r: bool)
    ensures
        r == hosts@.contains(host),
{
    let mut i: usize = 0;
    while i < hosts.len()
        invariant
            i <= hosts@.len(),
            forall|k: int| 0 <= k < i ==> hosts@[k] != host,
        decreases hosts@.len() - i,
    {
        if hosts[i] == host {
            assert(hosts@[i as int] == host);
            return true;
        }
        i += 1;
    }
    false
}

fn same_placements(a: &Vec<Placement>, b: &Vec<Placement>) -> (r: bool)
    ensures
        r == (placement_views(a@) == placement_views(b@)),
{
    let ghost x = placement_views(a@);
    let ghost y = placement_views(b@);
    if a.len() != b.len() {
        assert(x.len() != y.len());
        return false;
    }
    let mut i: usize = 0;
    while i < a.len()
        invariant
            x == placement_views(a@),
            y == placement_views(b@),
            a@.len() == b@.len(),
            i <= a@.len(),
            forall|k: int| 0 <= k < i ==> x[k] == y[k],
        decreases a@.len() - i,
    {
        if !same_key(&a[i].key, &b[i].key) || a[i].source != b[i].source || a[i].area
            != b[i].area {
            assert(x[i as int] != y[i as int]);
            return false;
        }
        i += 1;
    }
    assert(x =~= y);
    true
}

} // verus!
