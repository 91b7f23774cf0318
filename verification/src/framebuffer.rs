//! The framebuffer: colour, depth and emissive planes behind one
//! depth-tested write.

use vstd::prelude::*;
use crate::fixed::{lemma_mul_bounded, Fixed};

verus! {

/// The depth of an untouched pixel: farther than anything that can be drawn.
pub const FAR: Fixed = 2147483647;

/// The mathematical content of a framebuffer. The three planes are indexed
/// by `y * width + x`.
pub struct FrameView {
    pub width: nat,
    pub height: nat,
    pub color: Seq<u32>,
    pub depth: Seq<Fixed>,
    pub emissive: Seq<u32>,
    pub background: u32,
    pub current: u32,
}

impl FrameView {
    /// The three planes have one entry per pixel.
    pub open spec fn wf(self) -> bool {
        &&& self.color.len() == self.width * self.height
        &&& self.depth.len() == self.width * self.height
        &&& self.emissive.len() == self.width * self.height
    }

    pub open spec fn in_bounds(self, x: int, y: int) -> bool {
        0 <= x < self.width && 0 <= y < self.height
    }

    pub open spec fn index(self, x: int, y: int) -> int {
        y * self.width + x
    }

    /// Whether a write at `(x, y)` with this depth passes the depth test:
    /// the pixel exists and the new depth is strictly nearer.
    pub open spec fn accepts(self, x: int, y: int, depth: Fixed) -> bool {
        self.in_bounds(x, y) && depth < self.depth[self.index(x, y)]
    }

    /// The depth-tested write of the current colour.
    pub open spec fn write(self, x: int, y: int, depth: Fixed, emit: u32) -> FrameView {
        if self.accepts(x, y, depth) {
            FrameView {
                color: self.color.update(self.index(x, y), self.current),
                depth: self.depth.update(self.index(x, y), depth),
                emissive: self.emissive.update(self.index(x, y), emit),
                ..self
            }
        } else {
            self
        }
    }

    /// Every pixel reset to background colour, farthest depth, no emission.
    pub open spec fn cleared(self) -> FrameView {
        FrameView {
            color: Seq::new(self.width * self.height, |i: int| self.background),
            depth: Seq::new(self.width * self.height, |i: int| FAR),
            emissive: Seq::new(self.width * self.height, |i: int| 0u32),
            ..self
        }
    }

    /// The emissive plane overwritten at one pixel, if it exists.
    pub open spec fn with_emission_at(self, x: int, y: int, emit: u32) -> FrameView {
        if self.in_bounds(x, y) {
            FrameView { emissive: self.emissive.update(self.index(x, y), emit), ..self }
        } else {
            self
        }
    }

    pub open spec fn with_current(self, color: u32) -> FrameView {
        FrameView { current: color, ..self }
    }

    /// The framebuffer after the first `n` writes of a sequence, in order.
    pub open spec fn written(self, writes: Seq<PixelWrite>, n: int) -> FrameView
        decreases n,
    {
        if n <= 0 {
            self
        } else {
            self.written(writes, n - 1).with_current(writes[n - 1].color).write(
                writes[n - 1].x,
                writes[n - 1].y,
                writes[n - 1].depth,
                writes[n - 1].emit,
            )
        }
    }
}

/// A pixel inside the image has its index inside the planes.
pub proof fn lemma_index_in_range(width: int, height: int, x: int, y: int)
    by (nonlinear_arith)
    requires
        0 <= x < width,
        0 <= y < height,
    ensures
        0 <= y * width,
        0 <= y * width + x < width * height,
{
}

/// Distinct pixels have distinct indices.
pub proof fn lemma_index_injective(width: int, x1: int, y1: int, x2: int, y2: int)
    by (nonlinear_arith)
    requires
        0 <= x1 < width,
        0 <= x2 < width,
        0 <= y1,
        0 <= y2,
        y1 * width + x1 == y2 * width + x2,
    ensures
        x1 == x2,
        y1 == y2,
{
    if y1 < y2 {
        assert((y2 - y1) * width >= width);
    } else if y2 < y1 {
        assert((y1 - y2) * width >= width);
    }
}

/// A write leaves the stored depth at the smaller of the old and the new depth.
pub proof fn lemma_write_keeps_minimum(v: FrameView, x: int, y: int, depth: Fixed, emit: u32)
    requires
        v.wf(),
        v.in_bounds(x, y),
    ensures
        v.write(x, y, depth, emit).wf(),
        v.write(x, y, depth, emit).depth[v.index(x, y)] == (if depth < v.depth[v.index(x, y)] {
            depth
        } else {
            v.depth[v.index(x, y)]
        }),
        forall|i: int|
            0 <= i < v.depth.len() && i != v.index(x, y) ==> {
                &&& v.write(x, y, depth, emit).depth[i] == v.depth[i]
                &&& v.write(x, y, depth, emit).color[i] == v.color[i]
                &&& v.write(x, y, depth, emit).emissive[i] == v.emissive[i]
            },
{
    lemma_index_in_range(v.width as int, v.height as int, x, y);
}

/// Two depth-tested writes to one pixel leave the colour, depth and emission
/// of whichever was nearer; a write that is not strictly nearer than the
/// stored depth changes nothing.
pub proof fn lemma_nearer_write_wins(
    v: FrameView,
    x: int,
    y: int,
    d1: Fixed,
    c1: u32,
    e1: u32,
    d2: Fixed,
    c2: u32,
    e2: u32,
)
    requires
        v.wf(),
        v.in_bounds(x, y),
    ensures
        ({
            let i = v.index(x, y);
            let first = v.with_current(c1).write(x, y, d1, e1);
            let both = first.with_current(c2).write(x, y, d2, e2);
            &&& d2 >= first.depth[i] ==> both == first.with_current(c2)
            &&& d1 < v.depth[i] && d2 < d1 ==> both.depth[i] == d2 && both.color[i] == c2
                && both.emissive[i] == e2
            &&& d1 < v.depth[i] && d2 >= d1 ==> both.depth[i] == d1 && both.color[i] == c1
                && both.emissive[i] == e1
            &&& d1 >= v.depth[i] && d2 >= v.depth[i] ==> both.depth[i] == v.depth[i]
                && both.color[i] == v.color[i] && both.emissive[i] == v.emissive[i]
            &&& both.depth[i] <= v.depth[i] && both.depth[i] <= first.depth[i]
        }),
{
    lemma_index_in_range(v.width as int, v.height as int, x, y);
}

/// One depth-tested write: the pixel, the depth, and the colour and
/// emission that are stored if the write is accepted.
pub struct PixelWrite {
    pub x: int,
    pub y: int,
    pub depth: Fixed,
    pub color: u32,
    pub emit: u32,
}

/// The nearest of a starting depth and the depths of the first `n` writes
/// that go to pixel `(x, y)`.
pub open spec fn nearest(start: Fixed, writes: Seq<PixelWrite>, x: int, y: int, n: int) -> Fixed
    decreases n,
{
    if n <= 0 {
        start
    } else {
        let before = nearest(start, writes, x, y, n - 1);
        let w = writes[n - 1];
        if w.x == x && w.y == y && w.depth < before {
            w.depth
        } else {
            before
        }
    }
}

/// Whatever is written, the stored depth of a pixel is the nearest depth
/// ever written to it, or its starting depth if that is nearer still.
pub proof fn lemma_depth_is_nearest(v: FrameView, writes: Seq<PixelWrite>, n: int, x: int, y: int)
    requires
        v.wf(),
        v.in_bounds(x, y),
        0 <= n <= writes.len(),
    ensures
        v.written(writes, n).wf(),
        v.written(writes, n).width == v.width,
        v.written(writes, n).height == v.height,
        v.written(writes, n).depth[v.index(x, y)] == nearest(
            v.depth[v.index(x, y)],
            writes,
            x,
            y,
            n,
        ),
    decreases n,
{
    if n > 0 {
        lemma_depth_is_nearest(v, writes, n - 1, x, y);
        let before = v.written(writes, n - 1);
        let w = writes[n - 1];
        let brushed = before.with_current(w.color);
        lemma_index_in_range(v.width as int, v.height as int, x, y);
        if brushed.in_bounds(w.x, w.y) {
            lemma_write_keeps_minimum(brushed, w.x, w.y, w.depth, w.emit);
            if brushed.index(w.x, w.y) == v.index(x, y) {
                lemma_index_injective(v.width as int, w.x, w.y, x, y);
            }
        }
    }
}

/// The image being drawn. The three planes are row-major and have one
/// entry per pixel: packed 24-bit colours, fixed-point depths and emitted
/// brightness.
pub struct Framebuffer {
    pub width: usize,
    pub height: usize,
    pub buffer: Vec<u32>,
    pub zbuffer: Vec<Fixed>,
    pub emissive_buffer: Vec<u32>,
    /// The colour that `clear` fills the colour plane with.
    pub background_color: u32,
    /// The colour that `point` writes.
    pub current_color: u32,
}

impl View for Framebuffer {
    type V = FrameView;

    open spec fn view(&self) -> FrameView {
        FrameView {
            width: self.width as nat,
            height: self.height as nat,
            color: self.buffer@,
            depth: self.zbuffer@,
            emissive: self.emissive_buffer@,
            background: self.background_color,
            current: self.current_color,
        }
    }
}

fn filled_u32(n: usize, value: u32) -> (v: Vec<u32>)
    ensures
        v@ == Seq::new(n as nat, |i: int| value),
{
    let mut v: Vec<u32> = Vec::new();
    let mut i: usize = 0;
    while i < n
        invariant
            i <= n,
            v@ == Seq::new(i as nat, |k: int| value),
        decreases n - i,
    {
        v.push(value);
        i = i + 1;
    }
    v
}

fn filled_fixed(n: usize, value: Fixed) -> (v: Vec<Fixed>)
    ensures
        v@ == Seq::new(n as nat, |i: int| value),
{
    let mut v: Vec<Fixed> = Vec::new();
    let mut i: usize = 0;
    while i < n
        invariant
            i <= n,
            v@ == Seq::new(i as nat, |k: int| value),
        decreases n - i,
    {
        v.push(value);
        i = i + 1;
    }
    v
}

impl Framebuffer {
    /// The planes have one entry per pixel.
    pub open spec fn wf(&self) -> bool {
        self@.wf()
    }

    /// A black image of the given size with the drawing colour set to white.
    pub fn new(width: usize, height: usize) -> (fb: Framebuffer)
        requires
            width * height <= usize::MAX,
        ensures
            fb.wf(),
            fb@ == (FrameView {
                width: width as nat,
                height: height as nat,
                color: Seq::new((width * height) as nat, |i: int| 0u32),
                depth: Seq::new((width * height) as nat, |i: int| FAR),
                emissive: Seq::new((width * height) as nat, |i: int| 0u32),
                background: 0,
                current: 0xFFFFFF,
            }),
    {
        let n: usize = width * height;
        Framebuffer {
            width,
            height,
            buffer: filled_u32(n, 0),
            zbuffer: filled_fixed(n, FAR),
            emissive_buffer: filled_u32(n, 0),
            background_color: 0x000000,
            current_color: 0xFFFFFF,
        }
    }

    /// Resets every pixel to the background colour, the farthest depth and
    /// no emission.
    pub fn clear(&mut self)
        requires
            old(self).wf(),
        ensures
            final(self).wf(),
            final(self)@ == old(self)@.cleared(),
    {
        let n: usize = self.buffer.len();
        self.buffer = filled_u32(n, self.background_color);
        self.zbuffer = filled_fixed(n, FAR);
        self.emissive_buffer = filled_u32(n, 0);
    }

    /// The depth-tested write. Outside the image it does nothing; inside, the
    /// current colour, the depth and the emission are stored exactly when
    /// `depth` is strictly nearer than the stored depth.
    pub fn point(&mut self, x: usize, y: usize, depth: Fixed, emit: u32)
        requires
            old(self).wf(),
        ensures
            final(self).wf(),
            final(self)@ == old(self)@.write(x as int, y as int, depth, emit),
    {
        if x < self.width && y < self.height {
            proof {
                lemma_index_in_range(self.width as int, self.height as int, x as int, y as int);
                assert(self.buffer.len() == self.width * self.height);
            }
            let index: usize = y * self.width + x;
            if self.zbuffer[index] > depth {
                self.buffer.set(index, self.current_color);
                self.zbuffer.set(index, depth);
                self.emissive_buffer.set(index, emit);
            }
        }
    }

    pub fn set_background_color(&mut self, color: u32)
        ensures
            *final(self) == (Framebuffer { background_color: color, ..*old(self) }),
    {
        self.background_color = color;
    }

    pub fn set_current_color(&mut self, color: u32)
        ensures
            *final(self) == (Framebuffer { current_color: color, ..*old(self) }),
            final(self)@ == old(self)@.with_current(color),
    {
        self.current_color = color;
    }

    /// Sets the emission of every pixel.
    pub fn set_emission(&mut self, emit: u32)
        requires
            old(self).wf(),
        ensures
            final(self).wf(),
            final(self)@ == (FrameView {
                emissive: Seq::new(old(self)@.emissive.len(), |i: int| emit),
                ..old(self)@
            }),
    {
        let n: usize = self.emissive_buffer.len();
        self.emissive_buffer = filled_u32(n, emit);
    }

    /// Sets the emission of one pixel, without a depth test. Outside the
    /// image it does nothing.
    pub fn set_emission_point(&mut self, x: usize, y: usize, emit: u32)
        requires
            old(self).wf(),
        ensures
            final(self).wf(),
            final(self)@ == old(self)@.with_emission_at(x as int, y as int, emit),
    {
        if x < self.width && y < self.height {
            proof {
                lemma_index_in_range(self.width as int, self.height as int, x as int, y as int);
                assert(self.buffer.len() == self.width * self.height);
            }
            let index: usize = y * self.width + x;
            self.emissive_buffer.set(index, emit);
        }
    }
}

/// Two bytes, least significant first.
pub open spec fn le16(v: int) -> Seq<u8> {
    seq![(v % 256) as u8, ((v / 256) % 256) as u8]
}

/// Four bytes, least significant first.
pub open spec fn le32(v: int) -> Seq<u8> {
    seq![
        (v % 256) as u8,
        ((v / 256) % 256) as u8,
        ((v / 65536) % 256) as u8,
        ((v / 16777216) % 256) as u8,
    ]
}

/// The 14-byte file header followed by the 40-byte image header of an
/// uncompressed bitmap with 32 bits per pixel.
pub open spec fn bmp_header(width: int, height: int) -> Seq<u8> {
    seq![0x42u8, 0x4Du8] + le32(54 + width * height * 4) + le32(0) + le32(54) + le32(40) + le32(
        width,
    ) + le32(height) + le16(1) + le16(32) + le32(0) + le32(width * height * 4) + le32(0) + le32(0)
        + le32(0) + le32(0)
}

/// One pixel on disk: blue, green, red, then an opaque alpha.
pub open spec fn bmp_pixel(color: u32) -> Seq<u8> {
    seq![
        (color % 256) as u8,
        ((color / 256) % 256) as u8,
        ((color / 65536) % 256) as u8,
        255u8,
    ]
}

/// The pixels on disk, in buffer order.
pub open spec fn bmp_pixels(colors: Seq<u32>) -> Seq<u8>
    decreases colors.len(),
{
    if colors.len() == 0 {
        Seq::empty()
    } else {
        bmp_pixels(colors.drop_last()) + bmp_pixel(colors.last())
    }
}

/// Whether the image can be written as a bitmap file: the colour plane has
/// one entry per pixel and every header field fits in 32 bits.
pub open spec fn bmp_fits(v: FrameView) -> bool {
    &&& v.color.len() == v.width * v.height
    &&& v.width <= 0xFFFF_FFFF
    &&& v.height <= 0xFFFF_FFFF
    &&& 54 + v.width * v.height * 4 <= 0xFFFF_FFFF
}

/// The whole bitmap file.
pub open spec fn bmp_file(v: FrameView) -> Seq<u8> {
    bmp_header(v.width as int, v.height as int) + bmp_pixels(v.color)
}

fn push_le16(out: &mut Vec<u8>, v: u16)
    ensures
        final(out)@ == old(out)@ + le16(v as int),
{
    out.push((v % 256) as u8);
    out.push(((v / 256) % 256) as u8);
    assert(out@ =~= old(out)@ + le16(v as int));
}

fn push_le32(out: &mut Vec<u8>, v: u32)
    ensures
        final(out)@ == old(out)@ + le32(v as int),
{
    out.push((v % 256) as u8);
    out.push(((v / 256) % 256) as u8);
    out.push(((v / 65536) % 256) as u8);
    out.push(((v / 16777216) % 256) as u8);
    assert(out@ =~= old(out)@ + le32(v as int));
}

/// An image that can be serialised as the bytes of an image file.
pub trait RenderableToFile {
    /// Whether the image can be represented in the file format.
    spec fn fits_file(&self) -> bool;

    /// The bytes of the file.
    spec fn file_bytes(&self) -> Seq<u8>;

    /// The bytes of the file, or `None` exactly when the image does not fit
    /// the format.
    fn render_buffer(&self) -> (bytes: Option<Vec<u8>>)
        ensures
            bytes.is_some() <==> self.fits_file(),
            bytes matches Some(b) ==> b@ == self.file_bytes(),
    ;
}

impl RenderableToFile for Framebuffer {
    open spec fn fits_file(&self) -> bool {
        bmp_fits(self@)
    }

    open spec fn file_bytes(&self) -> Seq<u8> {
        bmp_file(self@)
    }

    /// Encodes the colour plane as a bitmap file: the two headers, then the
    /// rows in buffer order, four bytes per pixel.
    fn render_buffer(&self) -> (bytes: Option<Vec<u8>>) {
        if self.width > 0xFFFF_FFFF || self.height > 0xFFFF_FFFF {
            return None;
        }
        proof {
            lemma_mul_bounded(self.width as int, self.height as int, 0xFFFF_FFFF, 0xFFFF_FFFF);
        }
        let count: u128 = (self.width as u128) * (self.height as u128);
        if count > 1073741810 || self.buffer.len() as u128 != count {
            return None;
        }
        let image_size: u32 = (count * 4) as u32;
        let mut out: Vec<u8> = Vec::new();
        out.push(0x42);
        out.push(0x4D);
        assert(out@ =~= seq![0x42u8, 0x4Du8]);
        push_le32(&mut out, 54 + image_size);
        push_le32(&mut out, 0);
        push_le32(&mut out, 54);
        push_le32(&mut out, 40);
        push_le32(&mut out, self.width as u32);
        push_le32(&mut out, self.height as u32);
        push_le16(&mut out, 1);
        push_le16(&mut out, 32);
        push_le32(&mut out, 0);
        push_le32(&mut out, image_size);
        push_le32(&mut out, 0);
        push_le32(&mut out, 0);
        push_le32(&mut out, 0);
        push_le32(&mut out, 0);
        let ghost header = bmp_header(self.width as int, self.height as int);
        assert(out@ == header);
        let mut i: usize = 0;
        while i < self.buffer.len()
            invariant
                i <= self.buffer.len(),
                out@ == header + bmp_pixels(self.buffer@.take(i as int)),
            decreases self.buffer.len() - i,
        {
            let color: u32 = self.buffer[i];
            let ghost before = out@;
            out.push((color % 256) as u8);
            out.push(((color / 256) % 256) as u8);
            out.push(((color / 65536) % 256) as u8);
            out.push(255);
            proof {
                let next = self.buffer@.take(i as int + 1);
                assert(next.drop_last() =~= self.buffer@.take(i as int));
                assert(next.last() == color);
                assert(out@ =~= before + bmp_pixel(color));
                assert(out@ =~= header + bmp_pixels(next));
            }
            i = i + 1;
        }
        assert(self.buffer@.take(i as int) =~= self.buffer@);
        Some(out)
    }
}

} // verus!
