//! The unified surface model: a flat channel buffer addressed through a
//! stateless `Format` that maps logical `(x, y)` coordinates to element
//! offsets.

use core::marker::PhantomData;
use vstd::prelude::*;

use crate::colorspace::{Channel, Colorspace, ColorL};

pub mod luma;
pub mod rgba;
pub mod topology;
pub mod yuv420;
pub mod yuv422;
pub mod yuv444;

pub use self::luma::Luma;
pub use self::rgba::{Rgb, RgbPlanar, Rgba, RgbaPlanar};
pub use self::yuv420::Yuv420p;
pub use self::yuv422::{Yuv422, Yuv422p};
pub use self::yuv444::{Yuv444, Yuv444p};

verus! {

/// A stateless physical memory layout for one pixel model over channel type
/// `C`. A format owns no data: it is a pure mapping from logical coordinates
/// to element offsets, with the element count and black-fill rule for a
/// `width x height` image.
pub trait Format<C: Channel> {
    type Pixel: Colorspace<Channel = C>;

    /// Which image dimensions this layout accepts, including that the
    /// element count fits in `usize` and, for layouts whose black fill needs
    /// the depth-rescaling conversions, that `C` provides them.
    spec fn spec_valid_dims(width: u32, height: u32) -> bool;

    /// Total element count of the backing buffer.
    spec fn spec_size(width: u32, height: u32) -> nat;

    /// The buffer contents standing for an all-black image.
    spec fn spec_black(width: u32, height: u32) -> Seq<C>;

    /// The pixel read from the buffer at `(x, y)`.
    spec fn spec_get(s: Seq<C>, width: u32, height: u32, x: u32, y: u32) -> Self::Pixel;

    /// The buffer after writing `p` at `(x, y)`.
    spec fn spec_put(s: Seq<C>, width: u32, height: u32, x: u32, y: u32, p: Self::Pixel) -> Seq<C>;

    /// Whether a write at one coordinate leaves every other coordinate's
    /// pixel unchanged. False for chroma-subsampled layouts, where
    /// neighbouring pixels share samples.
    spec fn pixel_independent() -> bool;

    fn channel_data_size(width: u32, height: u32) -> (r: usize)
        requires
            Self::spec_valid_dims(width, height),
        ensures
            r == Self::spec_size(width, height),
    ;

    fn init_black(width: u32, height: u32, storage: &mut Vec<C>)
        requires
            Self::spec_valid_dims(width, height),
            old(storage)@.len() == Self::spec_size(width, height),
        ensures
            final(storage)@ == Self::spec_black(width, height),
    ;

    fn get_pixel(storage: &Vec<C>, width: u32, height: u32, x: u32, y: u32) -> (r: Self::Pixel)
        requires
            Self::spec_valid_dims(width, height),
            storage@.len() == Self::spec_size(width, height),
            x < width,
            y < height,
        ensures
            r == Self::spec_get(storage@, width, height, x, y),
    ;

    fn put_pixel(holder: &mut Vec<C>, width: u32, height: u32, x: u32, y: u32, pixel: Self::Pixel)
        requires
            Self::spec_valid_dims(width, height),
            old(holder)@.len() == Self::spec_size(width, height),
            x < width,
            y < height,
        ensures
            final(holder)@ == Self::spec_put(old(holder)@, width, height, x, y, pixel),
    ;

    /// The black fill covers exactly the computed element count.
    proof fn lemma_black_size(width: u32, height: u32)
        requires
            Self::spec_valid_dims(width, height),
        ensures
            Self::spec_black(width, height).len() == Self::spec_size(width, height),
    ;

    /// Writing never changes the buffer's length.
    proof fn lemma_put_len(s: Seq<C>, width: u32, height: u32, x: u32, y: u32, p: Self::Pixel)
        requires
            Self::spec_valid_dims(width, height),
            s.len() == Self::spec_size(width, height),
            x < width,
            y < height,
        ensures
            Self::spec_put(s, width, height, x, y, p).len() == s.len(),
    ;

    /// Reading back a written pixel returns exactly that pixel.
    proof fn lemma_get_put(s: Seq<C>, width: u32, height: u32, x: u32, y: u32, p: Self::Pixel)
        requires
            Self::spec_valid_dims(width, height),
            s.len() == Self::spec_size(width, height),
            x < width,
            y < height,
        ensures
            Self::spec_get(Self::spec_put(s, width, height, x, y, p), width, height, x, y) == p,
    ;

    /// For layouts without shared samples, a write at one coordinate leaves
    /// the pixel at every other coordinate unchanged.
    proof fn lemma_put_preserves_other(
        s: Seq<C>,
        width: u32,
        height: u32,
        x: u32,
        y: u32,
        p: Self::Pixel,
        x2: u32,
        y2: u32,
    )
        requires
            Self::pixel_independent(),
            Self::spec_valid_dims(width, height),
            s.len() == Self::spec_size(width, height),
            x < width,
            y < height,
            x2 < width,
            y2 < height,
            x != x2 || y != y2,
        ensures
            Self::spec_get(Self::spec_put(s, width, height, x, y, p), width, height, x2, y2)
                == Self::spec_get(s, width, height, x2, y2),
    ;
}

/// A three-plane layout can hand out its contiguous planes without copying.
pub trait PlanarFormat<C: Channel>: Format<C> {
    /// The three planes a buffer splits into.
    spec fn spec_planes(s: Seq<C>, width: u32, height: u32) -> (Seq<C>, Seq<C>, Seq<C>);

    fn get_planes(data: &Vec<C>, wh: (u32, u32)) -> (r: (&[C], &[C], &[C]))
        requires
            Self::spec_valid_dims(wh.0, wh.1),
            data@.len() == Self::spec_size(wh.0, wh.1),
        ensures
            (r.0@, r.1@, r.2@) == Self::spec_planes(data@, wh.0, wh.1),
    ;
}

/// The size in bytes of the backing buffer a `width x height` image needs in
/// layout `M`.
pub fn surface_byte_size<M: Format<C>, C: Channel>(width: u32, height: u32) -> (r: usize)
    requires
        M::spec_valid_dims(width, height),
        vstd::layout::size_of::<C>() * M::spec_size(width, height) <= usize::MAX,
    ensures
        r == vstd::layout::size_of::<C>() * M::spec_size(width, height),
{
    let length = M::channel_data_size(width, height);
    core::mem::size_of::<C>() * length
}

/// A `width x height` image: a flat channel buffer whose layout is the
/// format `M`. The buffer's length always equals the format's computed
/// element count.
pub struct Surface<M: Format<C>, C: Channel> {
    width: u32,
    height: u32,
    storage: Vec<C>,
    mode_marker: PhantomData<M>,
}

impl<M: Format<C>, C: Channel> Surface<M, C> {
    pub closed spec fn spec_width(&self) -> u32 {
        self.width
    }

    pub closed spec fn spec_height(&self) -> u32 {
        self.height
    }

    /// The backing buffer's contents.
    pub closed spec fn contents(&self) -> Seq<C> {
        self.storage@
    }

    /// The surface's invariant: dimensions the format accepts, and a buffer
    /// of exactly the format's element count.
    pub open spec fn wf(&self) -> bool {
        &&& M::spec_valid_dims(self.spec_width(), self.spec_height())
        &&& self.contents().len() == M::spec_size(self.spec_width(), self.spec_height())
    }

    /// Wrap caller-provided storage. The storage length must match the
    /// format's element count exactly.
    pub fn new(width: u32, height: u32, storage: Vec<C>) -> (r: Surface<M, C>)
        requires
            M::spec_valid_dims(width, height),
            storage@.len() == M::spec_size(width, height),
        ensures
            r.wf(),
            r.spec_width() == width,
            r.spec_height() == height,
            r.contents() == storage@,
    {
        Surface { width, height, storage, mode_marker: PhantomData }
    }

    /// Allocate a buffer and fill it with the format's all-black image.
    pub fn new_black(width: u32, height: u32) -> (r: Surface<M, C>)
        requires
            M::spec_valid_dims(width, height),
        ensures
            r.wf(),
            r.spec_width() == width,
            r.spec_height() == height,
            r.contents() == M::spec_black(width, height),
    {
        let length = M::channel_data_size(width, height);
        let min = C::min_value();
        let mut storage: Vec<C> = Vec::new();
        let mut i: usize = 0;
        while i < length
            invariant
                storage@.len() == i,
                i <= length,
            decreases length - i,
        {
            storage.push(min);
            i += 1;
        }
        M::init_black(width, height, &mut storage);
        proof {
            M::lemma_black_size(width, height);
        }
        Surface { width, height, storage, mode_marker: PhantomData }
    }

    pub fn width(&self) -> (r: u32)
        ensures
            r == self.spec_width(),
    {
        self.width
    }

    pub fn height(&self) -> (r: u32)
        ensures
            r == self.spec_height(),
    {
        self.height
    }

    pub fn get_pixel(&self, x: u32, y: u32) -> (r: M::Pixel)
        requires
            self.wf(),
            x < self.spec_width(),
            y < self.spec_height(),
        ensures
            r == M::spec_get(self.contents(), self.spec_width(), self.spec_height(), x, y),
    {
        M::get_pixel(&self.storage, self.width, self.height, x, y)
    }

    pub fn put_pixel(&mut self, x: u32, y: u32, val: M::Pixel)
        requires
            old(self).wf(),
            x < old(self).spec_width(),
            y < old(self).spec_height(),
        ensures
            final(self).wf(),
            final(self).spec_width() == old(self).spec_width(),
            final(self).spec_height() == old(self).spec_height(),
            final(self).contents() == M::spec_put(
                old(self).contents(),
                old(self).spec_width(),
                old(self).spec_height(),
                x,
                y,
                val,
            ),
    {
        proof {
            M::lemma_put_len(self.storage@, self.width, self.height, x, y, val);
        }
        M::put_pixel(&mut self.storage, self.width, self.height, x, y, val);
    }

    /// A deep copy with freshly allocated storage.
    pub fn to_owned(&self) -> (r: Surface<M, C>)
        requires
            self.wf(),
        ensures
            r.wf(),
            r.spec_width() == self.spec_width(),
            r.spec_height() == self.spec_height(),
            r.contents() == self.contents(),
    {
        let mut copy: Vec<C> = Vec::new();
        let mut i: usize = 0;
        while i < self.storage.len()
            invariant
                i <= self.storage@.len(),
                copy@ =~= self.storage@.take(i as int),
            decreases self.storage@.len() - i,
        {
            copy.push(self.storage[i]);
            i += 1;
        }
        proof {
            assert(copy@ =~= self.storage@);
        }
        Surface { width: self.width, height: self.height, storage: copy, mode_marker: PhantomData }
    }

    /// Give up the surface and hand back its backing buffer.
    pub fn into_storage(self) -> (r: Vec<C>)
        ensures
            r@ == self.contents(),
    {
        self.storage
    }

    pub fn as_storage(&self) -> (r: &Vec<C>)
        ensures
            r@ == self.contents(),
    {
        &self.storage
    }

    /// A lazy row-major walk over the surface's pixels.
    pub fn iter_pixels(&self) -> (r: Pixels<M, C>)
        requires
            self.wf(),
        ensures
            r.spec_surface() == self,
            r.spec_x() == 0,
            r.spec_y() == 0,
    {
        Pixels { surface: self, x_pos: 0, y_pos: 0 }
    }
}

impl<M: Format<u8>> Surface<M, u8> {
    /// Byte-exact access to the backing buffer of an 8-bit surface.
    pub fn raw_bytes(&self) -> (r: &[u8])
        ensures
            r@ == self.contents(),
    {
        self.storage.as_slice()
    }
}

/// A Luma-format copy of a surface's luma projection: pixel `(x, y)` of the
/// result is `luma()` of pixel `(x, y)` of the input.
pub fn extract_luma<M: Format<C>, C: Channel>(input: &Surface<M, C>) -> (out: Surface<Luma, C>)
    requires
        input.wf(),
        <M::Pixel as Colorspace>::luma_defined(),
        <Luma as Format<C>>::spec_valid_dims(input.spec_width(), input.spec_height()),
    ensures
        out.wf(),
        out.spec_width() == input.spec_width(),
        out.spec_height() == input.spec_height(),
        forall|x: u32, y: u32|
            x < input.spec_width() && y < input.spec_height()
                ==> <Luma as Format<C>>::spec_get(
                out.contents(),
                input.spec_width(),
                input.spec_height(),
                x,
                y,
            ) == (#[trigger] M::spec_get(
                input.contents(),
                input.spec_width(),
                input.spec_height(),
                x,
                y,
            )).spec_luma(),
{
    let width = input.width();
    let height = input.height();
    let mut data: Vec<C> = Vec::new();
    let mut y: u32 = 0;
    while y < height
        invariant
            input.wf(),
            <M::Pixel as Colorspace>::luma_defined(),
            width == input.spec_width(),
            height == input.spec_height(),
            width * height <= usize::MAX,
            y <= height,
            data@.len() == y * width,
            forall|xx: u32, yy: u32|
                xx < width && yy < y ==> data@[yy * width + xx] == (#[trigger] M::spec_get(
                    input.contents(),
                    width,
                    height,
                    xx,
                    yy,
                )).spec_luma().l,
        decreases height - y,
    {
        let mut x: u32 = 0;
        while x < width
            invariant
                input.wf(),
                <M::Pixel as Colorspace>::luma_defined(),
                width == input.spec_width(),
                height == input.spec_height(),
                width * height <= usize::MAX,
                y < height,
                x <= width,
                data@.len() == y * width + x,
                forall|xx: u32, yy: u32|
                    xx < width && yy < y ==> data@[yy * width + xx] == (#[trigger] M::spec_get(
                        input.contents(),
                        width,
                        height,
                        xx,
                        yy,
                    )).spec_luma().l,
                forall|xx: u32|
                    xx < x ==> data@[y * width + xx] == (#[trigger] M::spec_get(
                        input.contents(),
                        width,
                        height,
                        xx,
                        y,
                    )).spec_luma().l,
            decreases width - x,
        {
            proof {
                crate::arith::lemma_rowmajor_in_grid(
                    x as int,
                    y as int,
                    width as int,
                    height as int,
                );
                assert forall|xx: u32, yy: u32| xx < width && yy < y implies #[trigger] (
                yy * width + xx) < y * width + x by {
                    crate::arith::lemma_rowmajor_in_grid(
                        xx as int,
                        yy as int,
                        width as int,
                        y as int,
                    );
                    assert(width as int * y == y as int * width) by (nonlinear_arith);
                }
            }
            let px = input.get_pixel(x, y);
            let px_luma = px.luma();
            data.push(px_luma.l);
            x += 1;
        }
        y += 1;
        proof {
            assert(y * width == (y - 1) * width + width) by (nonlinear_arith);
        }
    }
    proof {
        assert(width as int * height == height as int * width) by (nonlinear_arith);
        assert(data@.len() == (width * height) as nat);
    }
    let out: Surface<Luma, C> = Surface::new(width, height, data);
    proof {
        assert forall|x: u32, y: u32| x < width && y < height implies <Luma as Format<
            C,
        >>::spec_get(out.contents(), width, height, x, y) == (#[trigger] M::spec_get(
            input.contents(),
            width,
            height,
            x,
            y,
        )).spec_luma() by {
            crate::arith::lemma_rowmajor_in_grid(x as int, y as int, width as int, height as int);
        }
    }
    out
}

/// Fill a prefix with one value and the remainder with another; formats use
/// this for their black fills.
pub(crate) fn fill_split<C: Channel>(storage: &mut Vec<C>, split: usize, first: C, rest: C)
    requires
        split <= old(storage)@.len(),
    ensures
        final(storage)@ == Seq::new(
            old(storage)@.len(),
            |i: int|
                if i < split {
                    first
                } else {
                    rest
                },
        ),
{
    let n = storage.len();
    let mut i: usize = 0;
    while i < n
        invariant
            i <= n,
            storage@.len() == n,
            split <= n,
            forall|j: int|
                0 <= j < i ==> storage@[j] == (if j < split {
                    first
                } else {
                    rest
                }),
        decreases n - i,
    {
        if i < split {
            storage.set(i, first);
        } else {
            storage.set(i, rest);
        }
        i += 1;
    }
    proof {
        assert(storage@ =~= Seq::new(
            old(storage)@.len(),
            |i: int|
                if i < split {
                    first
                } else {
                    rest
                },
        ));
    }
}

/// Fill with a repeating pattern: one value at offsets that are multiples of
/// `stride`, another everywhere else.
pub(crate) fn fill_pattern<C: Channel>(storage: &mut Vec<C>, stride: usize, first: C, rest: C)
    requires
        0 < stride,
    ensures
        final(storage)@ == Seq::new(
            old(storage)@.len(),
            |i: int|
                if i % (stride as int) == 0 {
                    first
                } else {
                    rest
                },
        ),
{
    let n = storage.len();
    let mut i: usize = 0;
    while i < n
        invariant
            i <= n,
            storage@.len() == n,
            0 < stride,
            forall|j: int|
                0 <= j < i ==> storage@[j] == (if j % (stride as int) == 0 {
                    first
                } else {
                    rest
                }),
        decreases n - i,
    {
        if i % stride == 0 {
            storage.set(i, first);
        } else {
            storage.set(i, rest);
        }
        i += 1;
    }
    proof {
        assert(storage@ =~= Seq::new(
            old(storage)@.len(),
            |i: int|
                if i % (stride as int) == 0 {
                    first
                } else {
                    rest
                },
        ));
    }
}

/// Row-major pixel iteration state over a borrowed surface: `x` varies
/// fastest, then `y`.
pub struct Pixels<'a, M: Format<C>, C: Channel> {
    surface: &'a Surface<M, C>,
    x_pos: u32,
    y_pos: u32,
}

impl<'a, M: Format<C>, C: Channel> Pixels<'a, M, C> {
    pub closed spec fn spec_surface(&self) -> &'a Surface<M, C> {
        self.surface
    }

    pub closed spec fn spec_x(&self) -> u32 {
        self.x_pos
    }

    pub closed spec fn spec_y(&self) -> u32 {
        self.y_pos
    }

    pub open spec fn wf(&self) -> bool {
        &&& self.spec_surface().wf()
        &&& self.spec_x() < self.spec_surface().spec_width() || self.spec_x() == 0
    }

    /// The next pixel in row-major order, or `None` past the last row.
    pub fn next(&mut self) -> (r: Option<M::Pixel>)
        requires
            old(self).wf(),
        ensures
            final(self).wf(),
            final(self).spec_surface() == old(self).spec_surface(),
            old(self).spec_y() < old(self).spec_surface().spec_height() && old(self).spec_x()
                < old(self).spec_surface().spec_width() ==> r == Some(
                M::spec_get(
                    old(self).spec_surface().contents(),
                    old(self).spec_surface().spec_width(),
                    old(self).spec_surface().spec_height(),
                    old(self).spec_x(),
                    old(self).spec_y(),
                ),
            ) && (if old(self).spec_x() + 1 == old(self).spec_surface().spec_width() {
                final(self).spec_x() == 0 && final(self).spec_y() == old(self).spec_y() + 1
            } else {
                final(self).spec_x() == old(self).spec_x() + 1 && final(self).spec_y() == old(
                    self,
                ).spec_y()
            }),
            old(self).spec_y() >= old(self).spec_surface().spec_height() || old(self).spec_x()
                >= old(self).spec_surface().spec_width() ==> r is None && *final(self) == *old(
                self,
            ),
    {
        if self.surface.height <= self.y_pos || self.surface.width <= self.x_pos {
            return None;
        }
        let px = self.surface.get_pixel(self.x_pos, self.y_pos);
        self.x_pos = self.x_pos + 1;
        if self.surface.width <= self.x_pos {
            self.x_pos = 0;
            self.y_pos = self.y_pos + 1;
        }
        Some(px)
    }
}

} // verus!
