use vstd::prelude::*;

use crate::error::BuildError;

verus! {

/// Number of pixels of a `width` × `height` image.
pub open spec fn pixel_count(width: u32, height: u32) -> nat {
    width as nat * height as nat
}

/// An image of `width` × `height` pixels stored row by row, four samples per pixel
/// (red, green, blue, alpha).
#[derive(Clone, Debug, PartialEq, Eq)]
pub struct RgbaImage {
    pub width: u32,
    pub height: u32,
    pub data: Vec<u8>,
}

/// A single-channel image of `width` × `height` samples stored row by row.
#[derive(Clone, Debug, PartialEq, Eq)]
pub struct GrayImage {
    pub width: u32,
    pub height: u32,
    pub data: Vec<u8>,
}

/// The four channel planes of an RGBA image.
#[derive(Clone, Debug, PartialEq, Eq)]
pub struct Channels {
    pub red: GrayImage,
    pub green: GrayImage,
    pub blue: GrayImage,
    pub alpha: GrayImage,
}

/// Channel `c` (0 = red, 1 = green, 2 = blue, 3 = alpha) of interleaved RGBA samples.
pub open spec fn plane(data: Seq<u8>, c: int) -> Seq<u8> {
    Seq::new(data.len() / 4, |i: int| data[4 * i + c])
}

/// The interleaved RGBA samples whose pixel `i` is `(r[i], g[i], b[i], a[i])`.
pub open spec fn interleave(r: Seq<u8>, g: Seq<u8>, b: Seq<u8>, a: Seq<u8>) -> Seq<u8> {
    Seq::new(
        4 * r.len(),
        |k: int|
            if k % 4 == 0 {
                r[k / 4]
            } else if k % 4 == 1 {
                g[k / 4]
            } else if k % 4 == 2 {
                b[k / 4]
            } else {
                a[k / 4]
            },
    )
}

/// The samples of `data` with every alpha sample replaced by `alpha`'s.
pub open spec fn with_alpha(data: Seq<u8>, alpha: Seq<u8>) -> Seq<u8> {
    interleave(plane(data, 0), plane(data, 1), plane(data, 2), alpha)
}

/// The samples of `data` with every alpha sample set to fully opaque.
pub open spec fn opaque(data: Seq<u8>) -> Seq<u8> {
    Seq::new(data.len(), |k: int| if k % 4 == 3 { 255u8 } else { data[k] })
}

impl RgbaImage {
    /// The sample buffer holds exactly four samples per pixel.
    pub open spec fn wf(&self) -> bool {
        self.data@.len() == 4 * pixel_count(self.width, self.height)
    }

    /// The image of the given size over `data`, or `None` when `data` does not hold
    /// exactly four samples per pixel.
    pub fn from_raw(width: u32, height: u32, data: Vec<u8>) -> (r: Option<RgbaImage>)
        ensures
            r is Some <==> data@.len() == 4 * pixel_count(width, height),
            r matches Some(img) ==> img.width == width && img.height == height && img.data
                == data,
    {
        if buffer_fits(width, height, 4, data.len()) {
            Some(RgbaImage { width, height, data })
        } else {
            None
        }
    }

    /// The red, green, blue and alpha samples of the pixel at column `x`, row `y`.
    pub fn pixel(&self, x: u32, y: u32) -> (p: (u8, u8, u8, u8))
        requires
            self.wf(),
            x < self.width,
            y < self.height,
        ensures
            p == (
                self.data@[4 * (y * self.width + x)],
                self.data@[4 * (y * self.width + x) + 1],
                self.data@[4 * (y * self.width + x) + 2],
                self.data@[4 * (y * self.width + x) + 3],
            ),
    {
        let _ = self.data.len();
        let i = pixel_index(x, y, self.width, self.height);
        (self.data[4 * i], self.data[4 * i + 1], self.data[4 * i + 2], self.data[4 * i + 3])
    }
}

impl GrayImage {
    /// The sample buffer holds exactly one sample per pixel.
    pub open spec fn wf(&self) -> bool {
        self.data@.len() == pixel_count(self.width, self.height)
    }

    /// The image of the given size over `data`, or `None` when `data` does not hold
    /// exactly one sample per pixel.
    pub fn from_raw(width: u32, height: u32, data: Vec<u8>) -> (r: Option<GrayImage>)
        ensures
            r is Some <==> data@.len() == pixel_count(width, height),
            r matches Some(img) ==> img.width == width && img.height == height && img.data
                == data,
    {
        if buffer_fits(width, height, 1, data.len()) {
            Some(GrayImage { width, height, data })
        } else {
            None
        }
    }

    /// The sample at column `x`, row `y`.
    pub fn pixel(&self, x: u32, y: u32) -> (p: u8)
        requires
            self.wf(),
            x < self.width,
            y < self.height,
        ensures
            p == self.data@[y * self.width + x],
    {
        let _ = self.data.len();
        let i = pixel_index(x, y, self.width, self.height);
        self.data[i]
    }
}

impl Channels {
    /// Every plane is well formed and all four share one size.
    pub open spec fn wf(&self) -> bool {
        &&& self.red.wf()
        &&& self.green.wf()
        &&& self.blue.wf()
        &&& self.alpha.wf()
        &&& self.same_size(self.red.width, self.red.height)
    }

    /// All four planes are `width` × `height`.
    pub open spec fn same_size(&self, width: u32, height: u32) -> bool {
        &&& self.red.width == width && self.red.height == height
        &&& self.green.width == width && self.green.height == height
        &&& self.blue.width == width && self.blue.height == height
        &&& self.alpha.width == width && self.alpha.height == height
    }
}

/// Splits `img` into its red, green, blue and alpha planes.
pub fn decompose(img: &RgbaImage) -> (ch: Channels)
    requires
        img.wf(),
    ensures
        ch.wf(),
        ch.same_size(img.width, img.height),
        ch.red.data@ == plane(img.data@, 0),
        ch.green.data@ == plane(img.data@, 1),
        ch.blue.data@ == plane(img.data@, 2),
        ch.alpha.data@ == plane(img.data@, 3),
{
    let ghost d = img.data@;
    let n: usize = img.data.len() / 4;
    assert(n == pixel_count(img.width, img.height));
    let mut red: Vec<u8> = Vec::new();
    let mut green: Vec<u8> = Vec::new();
    let mut blue: Vec<u8> = Vec::new();
    let mut alpha: Vec<u8> = Vec::new();
    let mut i: usize = 0;
    let _ = img.data.len();
    while i < n
        invariant
            d == img.data@,
            d.len() == 4 * n,
            i <= n,
            red@.len() == i && green@.len() == i && blue@.len() == i && alpha@.len() == i,
            4 * n <= usize::MAX,
            forall|j: int| 0 <= j < i ==> #[trigger] red@[j] == d[4 * j],
            forall|j: int| 0 <= j < i ==> #[trigger] green@[j] == d[4 * j + 1],
            forall|j: int| 0 <= j < i ==> #[trigger] blue@[j] == d[4 * j + 2],
            forall|j: int| 0 <= j < i ==> #[trigger] alpha@[j] == d[4 * j + 3],
        decreases n - i,
    {
        let k: usize = 4 * i;
        red.push(img.data[k]);
        green.push(img.data[k + 1]);
        blue.push(img.data[k + 2]);
        alpha.push(img.data[k + 3]);
        i = i + 1;
    }
    assert(red@ =~= plane(d, 0));
    assert(green@ =~= plane(d, 1));
    assert(blue@ =~= plane(d, 2));
    assert(alpha@ =~= plane(d, 3));
    let (w, h) = (img.width, img.height);
    Channels {
        red: GrayImage { width: w, height: h, data: red },
        green: GrayImage { width: w, height: h, data: green },
        blue: GrayImage { width: w, height: h, data: blue },
        alpha: GrayImage { width: w, height: h, data: alpha },
    }
}

/// Sets every sample of `target` from the sample at the same place in each plane of
/// `channels`; fails with `DimensionMismatch`, leaving `target` as it was, unless all
/// four planes have `target`'s size.
pub fn compose(target: &mut RgbaImage, channels: Channels) -> (r: Result<(), BuildError>)
    requires
        old(target).wf(),
        channels.red.wf(),
        channels.green.wf(),
        channels.blue.wf(),
        channels.alpha.wf(),
    ensures
        r is Ok <==> channels.same_size(old(target).width, old(target).height),
        r is Ok ==> {
            &&& final(target).width == old(target).width
            &&& final(target).height == old(target).height
            &&& final(target).data@ == interleave(
                channels.red.data@,
                channels.green.data@,
                channels.blue.data@,
                channels.alpha.data@,
            )
        },
        r is Err ==> r == Err::<(), BuildError>(BuildError::DimensionMismatch) && *final(target)
            == *old(target),
        final(target).wf(),
{
    if !(channels.red.width == target.width && channels.red.height == target.height
        && channels.green.width == target.width && channels.green.height == target.height
        && channels.blue.width == target.width && channels.blue.height == target.height
        && channels.alpha.width == target.width && channels.alpha.height == target.height) {
        return Err(BuildError::DimensionMismatch);
    }
    let ghost r = channels.red.data@;
    let ghost g = channels.green.data@;
    let ghost b = channels.blue.data@;
    let ghost a = channels.alpha.data@;
    let n: usize = channels.red.data.len();
    let _ = target.data.len();
    let mut out: Vec<u8> = Vec::new();
    let mut i: usize = 0;
    while i < n
        invariant
            r == channels.red.data@,
            g == channels.green.data@,
            b == channels.blue.data@,
            a == channels.alpha.data@,
            n == r.len() && n == g.len() && n == b.len() && n == a.len(),
            4 * n <= usize::MAX,
            i <= n,
            out@.len() == 4 * i,
            forall|j: int| 0 <= j < i ==> #[trigger] out@[4 * j] == r[j],
            forall|j: int| 0 <= j < i ==> #[trigger] out@[4 * j + 1] == g[j],
            forall|j: int| 0 <= j < i ==> #[trigger] out@[4 * j + 2] == b[j],
            forall|j: int| 0 <= j < i ==> #[trigger] out@[4 * j + 3] == a[j],
        decreases n - i,
    {
        out.push(channels.red.data[i]);
        out.push(channels.green.data[i]);
        out.push(channels.blue.data[i]);
        out.push(channels.alpha.data[i]);
        assert(out@[4 * i as int] == r[i as int]);
        assert(out@[4 * i as int + 1] == g[i as int]);
        assert(out@[4 * i as int + 2] == b[i as int]);
        assert(out@[4 * i as int + 3] == a[i as int]);
        i = i + 1;
    }
    assert forall|k: int| 0 <= k < 4 * n implies out@[k] == interleave(r, g, b, a)[k] by {
        lemma_sample_index(k);
        let j = k / 4;
        assert(out@[4 * j] == r[j]);
        assert(out@[4 * j + 1] == g[j]);
        assert(out@[4 * j + 2] == b[j]);
        assert(out@[4 * j + 3] == a[j]);
    }
    assert(out@ =~= interleave(r, g, b, a));
    target.data = out;
    Ok(())
}

/// Splitting samples into their four planes and interleaving the planes again gives the
/// samples back: composing the channels of a decomposed image restores the image.
pub proof fn lemma_compose_decompose(data: Seq<u8>)
    requires
        data.len() % 4 == 0,
    ensures
        interleave(plane(data, 0), plane(data, 1), plane(data, 2), plane(data, 3)) == data,
{
    let s = interleave(plane(data, 0), plane(data, 1), plane(data, 2), plane(data, 3));
    assert forall|k: int| 0 <= k < data.len() implies s[k] == data[k] by {
        lemma_sample_index(k);
    }
    assert(s =~= data);
}

/// Sample `k` of interleaved data belongs to pixel `k / 4`, channel `k % 4`.
proof fn lemma_sample_index(k: int)
    requires
        0 <= k,
    ensures
        k == 4 * (k / 4) + k % 4,
        0 <= k % 4 < 4,
        0 <= k / 4,
{
}

/// Sets every sample of `plane` to fully opaque.
pub fn fill_opaque(plane: &mut GrayImage)
    ensures
        final(plane).width == old(plane).width,
        final(plane).height == old(plane).height,
        final(plane).data@ == Seq::new(old(plane).data@.len(), |i: int| 255u8),
{
    let n = plane.data.len();
    let mut i: usize = 0;
    while i < n
        invariant
            n == plane.data@.len(),
            plane.width == old(plane).width,
            plane.height == old(plane).height,
            n == old(plane).data@.len(),
            i <= n,
            forall|j: int| 0 <= j < i ==> plane.data@[j] == 255u8,
        decreases n - i,
    {
        plane.data.set(i, 255);
        i = i + 1;
    }
    assert(plane.data@ =~= Seq::new(old(plane).data@.len(), |i: int| 255u8));
}

/// `img` with its alpha channel forced to fully opaque; red, green and blue are kept.
pub fn make_opaque(img: RgbaImage) -> (r: RgbaImage)
    requires
        img.wf(),
    ensures
        r.wf(),
        r.width == img.width,
        r.height == img.height,
        r.data@ == opaque(img.data@),
{
    let ghost d = img.data@;
    let mut ch = decompose(&img);
    fill_opaque(&mut ch.alpha);
    let ghost a = ch.alpha.data@;
    let mut out = img;
    let res = compose(&mut out, ch);
    assert forall|k: int| 0 <= k < d.len() implies out.data@[k] == opaque(d)[k] by {
        lemma_sample_index(k);
    }
    assert(out.data@ =~= opaque(d));
    out
}

/// `flat` with its alpha channel replaced by `alpha`; fails with `DimensionMismatch`
/// unless the two images have the same size.
pub fn replace_alpha(flat: RgbaImage, alpha: GrayImage) -> (r: Result<RgbaImage, BuildError>)
    requires
        flat.wf(),
        alpha.wf(),
    ensures
        r is Ok <==> (flat.width == alpha.width && flat.height == alpha.height),
        r matches Ok(img) ==> {
            &&& img.wf()
            &&& img.width == flat.width
            &&& img.height == flat.height
            &&& img.data@ == with_alpha(flat.data@, alpha.data@)
        },
        r is Err ==> r == Err::<RgbaImage, BuildError>(BuildError::DimensionMismatch),
{
    let mut ch = decompose(&flat);
    ch.alpha = alpha;
    let mut out = flat;
    match compose(&mut out, ch) {
        Ok(()) => Ok(out),
        Err(e) => Err(e),
    }
}

/// Whether `len` equals `per_pixel` samples for each of `width` × `height` pixels.
fn buffer_fits(width: u32, height: u32, per_pixel: u8, len: usize) -> (r: bool)
    ensures
        r == (len as nat == per_pixel as nat * pixel_count(width, height)),
{
    assert(width as nat * height as nat * per_pixel as nat <= 0xffff_ffff * 0xffff_ffff * 0xff)
        by (nonlinear_arith)
        requires
            width <= 0xffff_ffff,
            height <= 0xffff_ffff,
            per_pixel <= 0xff,
    ;
    assert(width as nat * height as nat <= 0xffff_ffff * 0xffff_ffff) by (nonlinear_arith)
        requires
            width <= 0xffff_ffff,
            height <= 0xffff_ffff,
    ;
    let n: u128 = width as u128 * height as u128;
    assert(n * per_pixel == per_pixel as nat * pixel_count(width, height)) by (nonlinear_arith)
        requires
            n == width as nat * height as nat,
    ;
    n * (per_pixel as u128) == len as u128
}

/// Row-major index of the pixel at column `x`, row `y`.
fn pixel_index(x: u32, y: u32, width: u32, height: u32) -> (i: usize)
    requires
        x < width,
        y < height,
        pixel_count(width, height) <= usize::MAX,
    ensures
        i == y * width + x,
        i < pixel_count(width, height),
{
    assert(y * width + x < width as nat * height as nat) by (nonlinear_arith)
        requires
            x < width,
            y < height,
    ;
    (y as usize) * (width as usize) + (x as usize)
}

} // verus!
