use vstd::prelude::*;
use crate::text::{ascii_lower, decimal, is_ascii_text, lowercase, owned, push_decimal, push_str, str_eq, to_lowercase};

verus! {

/// A mouse button.
#[derive(Clone, Copy, Debug, PartialEq, Eq, Structural)]
pub enum MouseButton {
    Left,
    Right,
    Middle,
}

/// The button that a lower-case name stands for; any other name means the left one.
pub open spec fn button_named(name: Seq<char>) -> MouseButton {
    if name == "right"@ {
        MouseButton::Right
    } else if name == "middle"@ {
        MouseButton::Middle
    } else {
        MouseButton::Left
    }
}

impl MouseButton {
    /// The button named `s`, letter case aside; an unknown name means the left button.
    pub fn from_str(s: &str) -> (r: MouseButton)
        ensures
            r == button_named(lowercase(s@)),
            is_ascii_text(s@) ==> r == button_named(s@.map_values(|c: char| ascii_lower(c))),
    {
        let lower = to_lowercase(s);
        if str_eq(lower.as_str(), "right") {
            MouseButton::Right
        } else if str_eq(lower.as_str(), "middle") {
            MouseButton::Middle
        } else {
            MouseButton::Left
        }
    }
}

/// The little-endian bytes of a 32-bit number.
pub open spec fn le32(v: nat) -> Seq<u8> {
    seq![
        (v % 256) as u8,
        ((v / 256) % 256) as u8,
        ((v / 65536) % 256) as u8,
        ((v / 16777216) % 256) as u8,
    ]
}

/// The number that four little-endian bytes hold.
pub open spec fn le32_value(b: Seq<u8>) -> nat {
    (b[0] + 256 * b[1] + 65536 * b[2] + 16777216 * b[3]) as nat
}

/// Reading back the bytes of a 32-bit number gives the number.
pub proof fn lemma_le32_round_trip(v: nat)
    requires
        v < 0x1_0000_0000,
    ensures
        le32(v).len() == 4,
        le32_value(le32(v)) == v,
{
    let b0 = v % 256;
    let b1 = (v / 256) % 256;
    let b2 = (v / 65536) % 256;
    let b3 = (v / 16777216) % 256;
    assert(v == b0 + 256 * b1 + 65536 * b2 + 16777216 * b3) by (nonlinear_arith)
        requires
            v < 0x1_0000_0000,
            b0 == v % 256,
            b1 == (v / 256) % 256,
            b2 == (v / 65536) % 256,
            b3 == (v / 16777216) % 256,
    ;
}

/// The bytes of one pixel row of a 24-bit bitmap: three per pixel, padded to
/// a multiple of four.
pub open spec fn bmp_row_size(width: nat) -> nat {
    ((width * 3 + 3) / 4) * 4
}

/// The 54-byte header of a 24-bit uncompressed bitmap file.
pub open spec fn bmp_header(width: nat, height: nat) -> Seq<u8> {
    seq![0x42u8, 0x4Du8] + le32(bmp_row_size(width) * height + 54) + seq![
        0u8,
        0u8,
        0u8,
        0u8,
        54u8,
        0u8,
        0u8,
        0u8,
        40u8,
        0u8,
        0u8,
        0u8,
    ] + le32(width) + le32(height) + seq![1u8, 0u8, 24u8, 0u8] + Seq::new(24, |i: int| 0u8)
}

/// A bitmap file: the header, then the pixel rows as the device gives them,
/// the bottom row first, which is the order that a positive height in the
/// header announces.
pub open spec fn bmp_file(width: nat, height: nat, pixels: Seq<u8>) -> Seq<u8> {
    bmp_header(width, height) + pixels
}

/// The sizes of a capture fit the 32-bit fields of the file.
pub open spec fn bmp_fits(width: nat, height: nat) -> bool {
    &&& height <= u32::MAX
    &&& width * 3 + 3 <= u32::MAX
    &&& bmp_row_size(width) * height + 54 <= u32::MAX
}

/// The bytes of one row of a capture of the given width.
pub fn bmp_row_bytes(width: u32) -> (r: u32)
    requires
        width * 3 + 3 <= u32::MAX,
    ensures
        r == bmp_row_size(width as nat),
        r % 4 == 0,
        r >= width * 3,
        r < width * 3 + 4,
{
    let r = ((width * 3 + 3) / 4) * 4;
    r
}

/// Appends the little-endian bytes of `v`.
fn push_le32(out: &mut Vec<u8>, v: u32)
    ensures
        final(out)@ == old(out)@ + le32(v as nat),
{
    let b0 = (v & 0xFF) as u8;
    let b1 = ((v >> 8) & 0xFF) as u8;
    let b2 = ((v >> 16) & 0xFF) as u8;
    let b3 = ((v >> 24) & 0xFF) as u8;
    assert(b0 == v % 256 && b1 == (v / 256) % 256 && b2 == (v / 65536) % 256 && b3 == (v / 16777216)
        % 256) by (bit_vector)
        requires
            b0 == (v & 0xFF) as u8,
            b1 == ((v >> 8) & 0xFF) as u8,
            b2 == ((v >> 16) & 0xFF) as u8,
            b3 == ((v >> 24) & 0xFF) as u8,
    ;
    out.push(b0);
    out.push(b1);
    out.push(b2);
    out.push(b3);
    assert(out@ =~= old(out)@ + le32(v as nat));
}

/// Appends `n` zero bytes.
fn push_zeros(out: &mut Vec<u8>, n: usize)
    ensures
        final(out)@ == old(out)@ + Seq::new(n as nat, |i: int| 0u8),
{
    let mut i: usize = 0;
    while i < n
        invariant
            i <= n,
            out@ == old(out)@ + Seq::new(i as nat, |k: int| 0u8),
        decreases n - i,
    {
        out.push(0u8);
        i = i + 1;
        assert(out@ =~= old(out)@ + Seq::new(i as nat, |k: int| 0u8));
    }
}

/// The header of a bitmap file for a capture of `width` by `height` pixels.
pub fn bmp_header_bytes(width: u32, height: u32) -> (r: Vec<u8>)
    requires
        bmp_fits(width as nat, height as nat),
    ensures
        r@ == bmp_header(width as nat, height as nat),
        r@.len() == 54,
{
    let row = bmp_row_bytes(width);
    assert(row * height + 54 <= u32::MAX);
    let size: u32 = row * height;
    let file_size: u32 = size + 54;
    let mut h: Vec<u8> = Vec::new();
    h.push(0x42u8);
    h.push(0x4Du8);
    push_le32(&mut h, file_size);
    h.push(0u8);
    h.push(0u8);
    h.push(0u8);
    h.push(0u8);
    h.push(54u8);
    h.push(0u8);
    h.push(0u8);
    h.push(0u8);
    h.push(40u8);
    h.push(0u8);
    h.push(0u8);
    h.push(0u8);
    push_le32(&mut h, width);
    push_le32(&mut h, height);
    h.push(1u8);
    h.push(0u8);
    h.push(24u8);
    h.push(0u8);
    push_zeros(&mut h, 24);
    assert(h@ =~= bmp_header(width as nat, height as nat));
    h
}

/// The bytes of a bitmap file holding a capture: `pixels` are its rows of
/// `bmp_row_size(width)` bytes each, the bottom row first, and are written
/// after the header in that order, so the image reads upright.
pub fn encode_bmp(width: u32, height: u32, pixels: &Vec<u8>) -> (r: Vec<u8>)
    requires
        bmp_fits(width as nat, height as nat),
        pixels@.len() == bmp_row_size(width as nat) * height,
    ensures
        r@ == bmp_file(width as nat, height as nat, pixels@),
        r@.len() == bmp_row_size(width as nat) * height + 54,
{
    let mut out = bmp_header_bytes(width, height);
    let ghost header = out@;
    let n = pixels.len();
    let mut k: usize = 0;
    while k < n
        invariant
            n == pixels@.len(),
            k <= n,
            out@ == header + pixels@.subrange(0, k as int),
        decreases n - k,
    {
        out.push(pixels[k]);
        k = k + 1;
        assert(out@ =~= header + pixels@.subrange(0, k as int));
    }
    assert(pixels@.subrange(0, n as int) =~= pixels@);
    out
}

/// A bitmap file states its own size, width and height in its header.
pub proof fn lemma_bmp_header_fields(width: nat, height: nat)
    requires
        bmp_fits(width, height),
    ensures
        bmp_header(width, height).len() == 54,
        bmp_header(width, height)[0] == 0x42u8,
        bmp_header(width, height)[1] == 0x4Du8,
        le32_value(bmp_header(width, height).subrange(2, 6)) == bmp_row_size(width) * height + 54,
        le32_value(bmp_header(width, height).subrange(18, 22)) == width,
        le32_value(bmp_header(width, height).subrange(22, 26)) == height,
        bmp_row_size(width) % 4 == 0,
        bmp_row_size(width) >= 3 * width,
{
    let h = bmp_header(width, height);
    let fs = bmp_row_size(width) * height + 54;
    lemma_le32_round_trip(fs);
    lemma_le32_round_trip(width);
    lemma_le32_round_trip(height);
    assert(h.subrange(2, 6) =~= le32(fs));
    assert(h.subrange(18, 22) =~= le32(width));
    assert(h.subrange(22, 26) =~= le32(height));
}

/// The name of the file that a capture taken at `millis` is saved under.
pub fn screenshot_file_name(millis: u128) -> (r: String)
    ensures
        r@ == "juno_screenshot_"@ + decimal(millis as nat) + ".bmp"@,
{
    let mut r = owned("juno_screenshot_");
    push_decimal(&mut r, millis);
    push_str(&mut r, ".bmp");
    r
}

/// One keyboard event: a virtual key or a UTF-16 unit, pressed or released.
#[derive(Clone, Copy, Debug, PartialEq, Eq, Structural)]
pub struct KeyStroke {
    pub vk: u16,
    pub scan: u16,
    pub unicode: bool,
    pub release: bool,
}

/// The virtual key of the Shift key.
pub const VK_SHIFT: u16 = 0x10;

/// The virtual key of the Enter key.
pub const VK_RETURN: u16 = 0x0D;

/// The virtual key of the Tab key.
pub const VK_TAB: u16 = 0x09;

/// The key that types `c` by itself, and whether Shift is held for it: a
/// letter's key is its upper-case code, with Shift for an upper-case letter;
/// a digit's and the space bar's key is the character's code; a line break is
/// Enter and a tab is Tab.  Other characters have no key here and are typed
/// as Unicode text.
pub open spec fn virtual_key(c: char) -> Option<(u16, bool)> {
    if 'a' <= c && c <= 'z' {
        Some(((c as u32 - 32) as u16, false))
    } else if 'A' <= c && c <= 'Z' {
        Some((c as u16, true))
    } else if ('0' <= c && c <= '9') || c == ' ' {
        Some((c as u16, false))
    } else if c == '\n' {
        Some((VK_RETURN, false))
    } else if c == '\t' {
        Some((VK_TAB, false))
    } else {
        None
    }
}

/// The UTF-16 encoding of `c`: one unit below U+10000, else a surrogate pair.
pub open spec fn utf16_units(c: char) -> Seq<u16> {
    let v = c as u32;
    if v < 0x10000 {
        seq![v as u16]
    } else {
        seq![(0xD800 + (v - 0x10000) / 1024) as u16, (0xDC00 + (v - 0x10000) % 1024) as u16]
    }
}

/// A key event with the given key, unit and flags.
pub open spec fn stroke(vk: u16, scan: u16, unicode: bool, release: bool) -> KeyStroke {
    KeyStroke { vk, scan, unicode, release }
}

/// The batches that type `units` as Unicode text: for each unit in turn, a
/// batch that presses it and then one that releases it.
pub open spec fn unicode_strokes(units: Seq<u16>) -> Seq<Seq<KeyStroke>> {
    Seq::new(2 * units.len(), |i: int| seq![stroke(0, units[i / 2], true, i % 2 == 1)])
}

/// The batches of key events that type one character: for a character with a
/// key, one batch that presses and releases it (inside Shift when needed);
/// for any other, its UTF-16 units as Unicode text.
pub open spec fn char_strokes(c: char) -> Seq<Seq<KeyStroke>> {
    match virtual_key(c) {
        Some((key, shift)) => {
            let core = seq![stroke(key, 0, false, false), stroke(key, 0, false, true)];
            if shift {
                seq![
                    seq![stroke(VK_SHIFT, 0, false, false)] + core + seq![
                        stroke(VK_SHIFT, 0, false, true),
                    ],
                ]
            } else {
                seq![core]
            }
        },
        None => unicode_strokes(utf16_units(c)),
    }
}

/// Appends a batch that presses `unit` and one that releases it.
fn push_unit(r: &mut Vec<Vec<KeyStroke>>, unit: u16)
    ensures
        final(r)@.len() == old(r)@.len() + 2,
        forall|i: int| 0 <= i < old(r)@.len() ==> #[trigger] final(r)@[i] == old(r)@[i],
        final(r)@[old(r)@.len() as int]@ == seq![stroke(0, unit, true, false)],
        final(r)@[old(r)@.len() + 1int]@ == seq![stroke(0, unit, true, true)],
{
    let mut down: Vec<KeyStroke> = Vec::new();
    down.push(KeyStroke { vk: 0, scan: unit, unicode: true, release: false });
    let mut up: Vec<KeyStroke> = Vec::new();
    up.push(KeyStroke { vk: 0, scan: unit, unicode: true, release: true });
    assert(down@ =~= seq![stroke(0, unit, true, false)]);
    assert(up@ =~= seq![stroke(0, unit, true, true)]);
    r.push(down);
    r.push(up);
}

/// The key event batches that type `c`, each to be sent as one input.
pub fn key_batches(c: char) -> (r: Vec<Vec<KeyStroke>>)
    ensures
        r@.len() == char_strokes(c).len(),
        forall|i: int| 0 <= i < r@.len() ==> #[trigger] r@[i]@ == char_strokes(c)[i],
{
    let code: u32 = c as u32;
    let mut r: Vec<Vec<KeyStroke>> = Vec::new();
    let key: Option<(u16, bool)> = if 'a' <= c && c <= 'z' {
        Some(((code - 32) as u16, false))
    } else if 'A' <= c && c <= 'Z' {
        Some((code as u16, true))
    } else if ('0' <= c && c <= '9') || c == ' ' {
        Some((code as u16, false))
    } else if c == '\n' {
        Some((VK_RETURN, false))
    } else if c == '\t' {
        Some((VK_TAB, false))
    } else {
        None
    };
    assert(key == virtual_key(c));
    match key {
        Some((vk, shift)) => {
            let mut batch: Vec<KeyStroke> = Vec::new();
            if shift {
                batch.push(KeyStroke { vk: VK_SHIFT, scan: 0, unicode: false, release: false });
            }
            batch.push(KeyStroke { vk, scan: 0, unicode: false, release: false });
            batch.push(KeyStroke { vk, scan: 0, unicode: false, release: true });
            if shift {
                batch.push(KeyStroke { vk: VK_SHIFT, scan: 0, unicode: false, release: true });
            }
            assert(batch@ =~= char_strokes(c)[0]);
            r.push(batch);
        },
        None => {
            if code < 0x10000 {
                let unit: u16 = code as u16;
                push_unit(&mut r, unit);
                assert(utf16_units(c) =~= seq![unit]);
            } else {
                let w: u32 = code - 0x10000;
                assert(w < 0x100000);
                let hi: u16 = (0xD800 + w / 1024) as u16;
                let lo: u16 = (0xDC00 + w % 1024) as u16;
                push_unit(&mut r, hi);
                push_unit(&mut r, lo);
                assert(utf16_units(c) =~= seq![hi, lo]);
            }
            assert(r@.len() == char_strokes(c).len());
        },
    }
    r
}

} // verus!
