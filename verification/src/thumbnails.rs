//! Thumbnails of image entries: handing jobs to the workers, their cache file
//! names, which cached files are stale, and the thumbnail pixels themselves.
use vstd::prelude::*;
use crate::config::ImageConfig;
use crate::model::{ClipboardItem, ClipboardKind, ItemView, items_view};
use crate::text::{chars_of, ends_with, extend_chars, string_of};

verus! {

broadcast use vstd::string::group_string_axioms;

// ---------------------------------------------------------------------------
// Jobs
// ---------------------------------------------------------------------------

/// A thumbnail to make: the entry's id and its listed line.
pub struct ThumbnailJob {
    pub id: String,
    pub raw_line: String,
}

impl ThumbnailJob {
    /// The job that makes the thumbnail of `item`.
    pub fn for_item(item: &ClipboardItem) -> (j: ThumbnailJob)
        ensures
            j.id@ == item.id@,
            j.raw_line@ == item.raw_line@,
    {
        ThumbnailJob { id: item.id.clone(), raw_line: item.raw_line.clone() }
    }
}

/// `async_channel::Sender`, carried through opaquely.
#[verifier::external_type_specification]
#[verifier::external_body]
#[verifier::reject_recursive_types(T)]
pub struct ExSender<T>(async_channel::Sender<T>);

/// `Sender::try_send`: queues the job unless the queue is full or closed.
/// Whether it was queued depends on how busy the workers are, so nothing is
/// stated of the result.
#[verifier::external_body]
fn try_send_job(sender: &async_channel::Sender<ThumbnailJob>, job: ThumbnailJob) -> bool {
    sender.try_send(job).is_ok()
}

/// Hands thumbnail jobs to the workers that read the other end of its queue.
pub struct Thumbnailer {
    sender: async_channel::Sender<ThumbnailJob>,
    /// The `(id, raw_line)` of every job offered to the queue so far, in order.
    offered: Ghost<Seq<(Seq<char>, Seq<char>)>>,
}

impl Thumbnailer {
    /// The queue that the jobs go to.
    pub closed spec fn queue(&self) -> async_channel::Sender<ThumbnailJob> {
        self.sender
    }

    /// The `(id, raw_line)` of every job offered to the queue so far, in order,
    /// whether the queue took it or not.
    pub closed spec fn offered(&self) -> Seq<(Seq<char>, Seq<char>)> {
        self.offered@
    }

    /// A thumbnailer that queues its jobs on `sender`; nothing offered yet.
    pub fn with_sender(sender: async_channel::Sender<ThumbnailJob>) -> (r: Thumbnailer)
        ensures
            r.queue() == sender,
            r.offered() == Seq::<(Seq<char>, Seq<char>)>::empty(),
    {
        Thumbnailer { sender, offered: Ghost(Seq::empty()) }
    }

    /// Offers the queue the job for `item` without waiting; returns whether the
    /// queue took it (a full or closed queue refuses it).
    pub fn request(&mut self, item: &ClipboardItem) -> (taken: bool)
        ensures
            final(self).queue() == old(self).queue(),
            final(self).offered() == old(self).offered().push((item.id@, item.raw_line@)),
    {
        let job = ThumbnailJob::for_item(item);
        self.offered = Ghost(self.offered@.push((job.id@, job.raw_line@)));
        try_send_job(&self.sender, job)
    }
}

// ---------------------------------------------------------------------------
// Cache file names
// ---------------------------------------------------------------------------

/// A character that may stand in a cache file name as it is.
pub open spec fn is_file_safe(c: char) -> bool {
    let u = c as u32;
    ||| (97 <= u && u <= 122)
    ||| (65 <= u && u <= 90)
    ||| (48 <= u && u <= 57)
    ||| c == '-'
    ||| c == '_'
}

/// An entry id made safe for a file name: every other character becomes `_`.
pub open spec fn sanitized(id: Seq<char>) -> Seq<char> {
    id.map_values(|c: char| if is_file_safe(c) { c } else { '_' })
}

/// `id` with every character other than ASCII letters, digits, `-` and `_`
/// replaced by `_`.
pub fn sanitize_id(id: &str) -> (r: String)
    ensures
        r@ == sanitized(id@),
{
    let s = chars_of(id);
    let mut out: Vec<char> = Vec::new();
    let mut i: usize = 0;
    while i < s.len()
        invariant
            i <= s.len(),
            s@ == id@,
            out@ == sanitized(s@.take(i as int)),
        decreases s.len() - i,
    {
        let c = s[i];
        let u = c as u32;
        let safe = (97 <= u && u <= 122) || (65 <= u && u <= 90) || (48 <= u && u <= 57) || c
            == '-' || c == '_';
        if safe {
            out.push(c);
        } else {
            out.push('_');
        }
        i = i + 1;
        assert(out@ =~= sanitized(s@.take(i as int)));
    }
    assert(s@.take(i as int) =~= s@);
    string_of(&out)
}

/// The decimal digit for `d < 10`.
pub open spec fn digit_char(d: nat) -> char {
    ((48 + d) as u32) as char
}

/// The decimal notation of `n`, without leading zeros.
pub open spec fn decimal(n: nat) -> Seq<char>
    decreases n,
{
    if n < 10 {
        seq![digit_char(n)]
    } else {
        decimal(n / 10).push(digit_char(n % 10))
    }
}

/// The decimal notation of `n`.
pub fn decimal_chars(n: u32) -> (r: Vec<char>)
    ensures
        r@ == decimal(n as nat),
    decreases n,
{
    if n < 10 {
        let d: u8 = (n as u8) + 48;
        let mut v: Vec<char> = Vec::new();
        v.push(d as char);
        proof {
            assert(v@ =~= seq![digit_char(n as nat)]);
        }
        v
    } else {
        let mut v = decimal_chars(n / 10);
        let d: u8 = ((n % 10) as u8) + 48;
        v.push(d as char);
        v
    }
}

/// A thumbnail side: the configured size, at least 1.
pub open spec fn at_least_one(n: u32) -> u32 {
    if n == 0 {
        1
    } else {
        n
    }
}

/// `0` or `1`.
pub open spec fn flag(b: bool) -> nat {
    if b {
        1
    } else {
        0
    }
}

/// The cache file name of the thumbnail of entry `id` made with `config`:
/// `<id>-<width>x<height>-aspect<0|1>-round<0|1>.png`.
pub open spec fn cache_file_name(id: Seq<char>, config: ImageConfig) -> Seq<char> {
    sanitized(id) + "-"@ + decimal(at_least_one(config.width) as nat) + "x"@ + decimal(
        at_least_one(config.height) as nat,
    ) + "-aspect"@ + decimal(flag(config.preserve_aspect_ratio)) + "-round"@ + decimal(
        flag(config.rounded_corners),
    ) + ".png"@
}

/// The size a thumbnail is made to fit: the configured size, each side at least 1.
pub fn thumbnail_bounds(config: &ImageConfig) -> (r: (u32, u32))
    ensures
        r == (at_least_one(config.width), at_least_one(config.height)),
{
    let w = if config.width == 0 {
        1
    } else {
        config.width
    };
    let h = if config.height == 0 {
        1
    } else {
        config.height
    };
    (w, h)
}

/// The cache file name of the thumbnail of entry `id` made with `config`.
pub fn cache_filename(id: &str, config: &ImageConfig) -> (r: String)
    ensures
        r@ == cache_file_name(id@, *config),
{
    let (w, h) = thumbnail_bounds(config);
    let mut out = chars_of(sanitize_id(id).as_str());
    extend_chars(&mut out, &chars_of("-"));
    extend_chars(&mut out, &decimal_chars(w));
    extend_chars(&mut out, &chars_of("x"));
    extend_chars(&mut out, &decimal_chars(h));
    extend_chars(&mut out, &chars_of("-aspect"));
    extend_chars(&mut out, &decimal_chars(if config.preserve_aspect_ratio { 1 } else { 0 }));
    extend_chars(&mut out, &chars_of("-round"));
    extend_chars(&mut out, &decimal_chars(if config.rounded_corners { 1 } else { 0 }));
    extend_chars(&mut out, &chars_of(".png"));
    string_of(&out)
}

/// A file name whose extension (the part after its last dot, with something
/// before that dot) is `png`.
pub open spec fn has_png_extension(file_name: Seq<char>) -> bool {
    file_name.len() > 4 && ends_with(file_name, ".png"@)
}

/// The cache file names of the thumbnails of the image entries among `items`.
pub open spec fn expected_names(items: Seq<ItemView>, config: ImageConfig) -> Seq<Seq<char>>
    decreases items.len(),
{
    if items.len() == 0 {
        Seq::empty()
    } else {
        let prev = expected_names(items.drop_last(), config);
        if items.last().kind == ClipboardKind::Image {
            prev.push(cache_file_name(items.last().id, config))
        } else {
            prev
        }
    }
}

/// The cache file names that the image entries among `items` use with `config`.
pub fn expected_thumbnail_names(items: &Vec<ClipboardItem>, config: &ImageConfig) -> (r: Vec<String>)
    ensures
        r@.map_values(|s: String| s@) == expected_names(items_view(items@), *config),
{
    let mut out: Vec<String> = Vec::new();
    let mut i: usize = 0;
    while i < items.len()
        invariant
            i <= items.len(),
            out@.map_values(|s: String| s@) == expected_names(
                items_view(items@.take(i as int)),
                *config,
            ),
        decreases items.len() - i,
    {
        proof {
            assert(items_view(items@.take(i + 1)).drop_last() =~= items_view(items@.take(i as int)));
        }
        if items[i].kind == ClipboardKind::Image {
            let name = cache_filename(items[i].id.as_str(), config);
            out.push(name);
        }
        i = i + 1;
        assert(out@.map_values(|s: String| s@) =~= expected_names(
            items_view(items@.take(i as int)),
            *config,
        ));
    }
    assert(items@.take(i as int) =~= items@);
    out
}

/// Whether a file found in the thumbnail cache is stale: a PNG file whose name
/// no current image entry uses.
pub fn is_stale_thumbnail(file_name: &str, expected: &Vec<String>) -> (r: bool)
    ensures
        r == (has_png_extension(file_name@) && !expected@.map_values(|s: String| s@).contains(
            file_name@,
        )),
{
    let name = chars_of(file_name);
    let is_png = name.len() > 4 && crate::text::ends_with_str(&name, ".png");
    if !is_png {
        return false;
    }
    let ghost names = expected@.map_values(|s: String| s@);
    let mut i: usize = 0;
    while i < expected.len()
        invariant
            i <= expected.len(),
            names == expected@.map_values(|s: String| s@),
            forall|k: int| 0 <= k < i ==> names[k] != file_name@,
            name@ == file_name@,
        decreases expected.len() - i,
    {
        let entry: &String = &expected[i];
        let other = chars_of(entry.as_str());
        assert(other@ == entry@);
        assert(names[i as int] == entry@);
        let same = crate::text::chars_equal(&other, &name);
        assert(same == (other@ == name@));
        assert(name@ == file_name@);
        if same {
            assert(names[i as int] == file_name@);
            return false;
        }
        i = i + 1;
    }
    true
}

/// The names among `names` of stale thumbnails (see `is_stale_thumbnail`),
/// in order.
pub open spec fn stale_names(names: Seq<Seq<char>>, expected: Seq<Seq<char>>) -> Seq<Seq<char>>
    decreases names.len(),
{
    if names.len() == 0 {
        Seq::empty()
    } else {
        let prev = stale_names(names.drop_last(), expected);
        if has_png_extension(names.last()) && !expected.contains(names.last()) {
            prev.push(names.last())
        } else {
            prev
        }
    }
}

/// The views of a list of file names.
pub open spec fn names_view(names: Seq<String>) -> Seq<Seq<char>> {
    names.map_values(|s: String| s@)
}

/// The files to remove from the thumbnail cache: those among `file_names`
/// (the names found there) that no image entry of `items` uses.
pub fn stale_thumbnail_names(
    file_names: &Vec<String>,
    items: &Vec<ClipboardItem>,
    config: &ImageConfig,
) -> (r: Vec<String>)
    ensures
        names_view(r@) == stale_names(
            names_view(file_names@),
            expected_names(items_view(items@), *config),
        ),
{
    let expected = expected_thumbnail_names(items, config);
    let ghost exp = expected_names(items_view(items@), *config);
    let ghost nv = names_view(file_names@);
    let mut out: Vec<String> = Vec::new();
    let mut i: usize = 0;
    while i < file_names.len()
        invariant
            i <= file_names.len(),
            nv == names_view(file_names@),
            exp == expected@.map_values(|s: String| s@),
            names_view(out@) == stale_names(nv.take(i as int), exp),
        decreases file_names.len() - i,
    {
        let name: &String = &file_names[i];
        proof {
            assert(nv.take(i + 1).drop_last() =~= nv.take(i as int));
            assert(nv.take(i + 1).last() == name@);
        }
        if is_stale_thumbnail(name.as_str(), &expected) {
            let ghost before = names_view(out@);
            out.push(name.clone());
            assert(names_view(out@) =~= before.push(name@));
        }
        i = i + 1;
    }
    assert(nv.take(i as int) =~= nv);
    out
}

/// Exactly the stale names are picked: each picked name is a listed PNG file
/// name that no current entry uses, and each such listed name is picked.
pub proof fn lemma_stale_names_exact(names: Seq<Seq<char>>, expected: Seq<Seq<char>>)
    ensures
        forall|k: int|
            0 <= k < stale_names(names, expected).len() ==> names.contains(
                #[trigger] stale_names(names, expected)[k],
            ) && has_png_extension(stale_names(names, expected)[k]) && !expected.contains(
                stale_names(names, expected)[k],
            ),
        forall|j: int|
            0 <= j < names.len() && has_png_extension(#[trigger] names[j]) && !expected.contains(
                names[j],
            ) ==> stale_names(names, expected).contains(names[j]),
    decreases names.len(),
{
    if names.len() > 0 {
        let init = names.drop_last();
        lemma_stale_names_exact(init, expected);
        let prev = stale_names(init, expected);
        let r = stale_names(names, expected);
        assert forall|k: int| 0 <= k < r.len() implies names.contains(#[trigger] r[k])
            && has_png_extension(r[k]) && !expected.contains(r[k]) by {
            if k < prev.len() {
                assert(r[k] == prev[k]);
                let j = choose|j: int| 0 <= j < init.len() && init[j] == prev[k];
                assert(names[j] == init[j]);
            } else {
                assert(r[k] == names.last());
                assert(names[names.len() - 1] == names.last());
            }
        }
        assert forall|j: int|
            0 <= j < names.len() && has_png_extension(#[trigger] names[j]) && !expected.contains(
                names[j],
            ) implies r.contains(names[j]) by {
            if j < names.len() - 1 {
                assert(init[j] == names[j]);
                assert(prev.contains(names[j]));
                let k = choose|k: int| 0 <= k < prev.len() && prev[k] == names[j];
                assert(r[k] == prev[k]);
            } else {
                assert(r[r.len() - 1] == names[j]);
            }
        }
    }
}

/// How many thumbnail workers run: the configured number, clamped to 1..=8.
pub fn worker_count(config: &ImageConfig) -> (r: usize)
    ensures
        1 <= r <= 8,
        config.concurrent_jobs < 1 ==> r == 1,
        config.concurrent_jobs > 8 ==> r == 8,
        1 <= config.concurrent_jobs <= 8 ==> r == config.concurrent_jobs,
{
    if config.concurrent_jobs < 1 {
        1
    } else if config.concurrent_jobs > 8 {
        8
    } else {
        config.concurrent_jobs
    }
}

// ---------------------------------------------------------------------------
// Rounded corners
// ---------------------------------------------------------------------------

/// The corner radius of a `width` by `height` thumbnail: 8, or less for small
/// thumbnails.
pub open spec fn corner_radius(width: u32, height: u32) -> u32 {
    let a = if width / 2 < 8 {
        width / 2
    } else {
        8
    };
    if height / 2 < a {
        height / 2
    } else {
        a
    }
}

/// The centre coordinate of the corner arc that covers `pos` along a side of
/// length `len`, if `pos` is in a corner band.
pub open spec fn corner_center(pos: u32, len: u32, radius: u32) -> Option<int> {
    if pos < radius {
        Some(radius - 1)
    } else if pos >= len - radius {
        Some(len - radius)
    } else {
        None
    }
}

/// Pixel `(x, y)` of a `width` by `height` thumbnail lies outside its rounded
/// corners and is made transparent.
pub open spec fn outside_rounded_corner(x: u32, y: u32, width: u32, height: u32) -> bool {
    let r = corner_radius(width, height);
    r > 0 && match (corner_center(x, width, r), corner_center(y, height, r)) {
        (Some(cx), Some(cy)) => (x - cx) * (x - cx) + (y - cy) * (y - cy) > r * r,
        _ => false,
    }
}

/// RGBA bytes, row by row, with the alpha byte of each pixel outside the
/// rounded corners set to 0.
pub open spec fn rounded_rgba(width: u32, height: u32, pixels: Seq<u8>) -> Seq<u8> {
    Seq::new(
        pixels.len(),
        |i: int|
            if i % 4 == 3 && outside_rounded_corner(
                ((i / 4) % (width as int)) as u32,
                ((i / 4) / (width as int)) as u32,
                width,
                height,
            ) {
                0u8
            } else {
                pixels[i]
            },
    )
}

fn outside_corner(x: u32, y: u32, width: u32, height: u32, radius: u32) -> (r: bool)
    requires
        radius == corner_radius(width, height),
        x < width,
        y < height,
    ensures
        r == outside_rounded_corner(x, y, width, height),
{
    if radius == 0 {
        return false;
    }
    let cx: u32 = if x < radius {
        radius - 1
    } else if x >= width - radius {
        width - radius
    } else {
        return false;
    };
    let cy: u32 = if y < radius {
        radius - 1
    } else if y >= height - radius {
        height - radius
    } else {
        return false;
    };
    assert(radius <= 8);
    assert(radius * radius <= 64) by (nonlinear_arith)
        requires
            radius <= 8,
    ;
    let dx: i64 = x as i64 - cx as i64;
    let dy: i64 = y as i64 - cy as i64;
    assert(-8 <= dx <= 8);
    assert(-8 <= dy <= 8);
    assert(dx * dx <= 64) by (nonlinear_arith)
        requires
            -8 <= dx <= 8,
    ;
    assert(dy * dy <= 64) by (nonlinear_arith)
        requires
            -8 <= dy <= 8,
    ;
    assert(dx * dx >= 0 && dy * dy >= 0) by (nonlinear_arith);
    let dx2: i64 = dx * dx;
    let dy2: i64 = dy * dy;
    let rr: i64 = radius as i64 * radius as i64;
    dx2 + dy2 > rr
}

proof fn lemma_pixel_coords(p: int, width: int, x: int, y: int)
    requires
        width > 0,
        0 <= x < width,
        0 <= y,
        p == y * width + x,
    ensures
        p % width == x,
        p / width == y,
{
    vstd::arithmetic::div_mod::lemma_fundamental_div_mod_converse(p, width, y, x);
}

/// Makes the pixels outside the rounded corners of a `width` by `height`
/// RGBA thumbnail transparent.
pub fn rounded_corners(width: u32, height: u32, pixels: &mut Vec<u8>)
    requires
        old(pixels)@.len() == width as int * height as int * 4,
    ensures
        final(pixels)@ == rounded_rgba(width, height, old(pixels)@),
{
    let a: u32 = if width / 2 < 8 {
        width / 2
    } else {
        8
    };
    let radius: u32 = if height / 2 < a {
        height / 2
    } else {
        a
    };
    let ghost orig = pixels@;
    let ghost w = width as int;
    let ghost target = rounded_rgba(width, height, orig);
    if radius == 0 {
        assert(pixels@ =~= target);
        return;
    }
    assert(w > 0);
    let mut y: u32 = 0;
    while y < height
        invariant
            radius == corner_radius(width, height),
            w == width as int,
            w > 0,
            y <= height,
            pixels@.len() == orig.len(),
            orig.len() == w * height as int * 4,
            target == rounded_rgba(width, height, orig),
            forall|i: int|
                0 <= i < pixels@.len() ==> #[trigger] pixels@[i] == if i / 4 < y as int * w {
                    target[i]
                } else {
                    orig[i]
                },
        decreases height - y,
    {
        let mut x: u32 = 0;
        while x < width
            invariant
                radius == corner_radius(width, height),
                w == width as int,
                w > 0,
                y < height,
                x <= width,
                pixels@.len() == orig.len(),
                orig.len() == w * height as int * 4,
                target == rounded_rgba(width, height, orig),
                forall|i: int|
                    0 <= i < pixels@.len() ==> #[trigger] pixels@[i] == if i / 4 < y as int * w
                        + x as int {
                        target[i]
                    } else {
                        orig[i]
                    },
            decreases width - x,
        {
            let ghost p = y as int * w + x as int;
            assert(0 <= p < w * height as int) by (nonlinear_arith)
                requires
                    p == y as int * w + x as int,
                    0 <= x < w,
                    0 <= y < height,
            ;
            assert(p * 4 + 3 < pixels@.len()) by (nonlinear_arith)
                requires
                    p < w * height as int,
                    pixels@.len() == w * height as int * 4,
            ;
            assert(y as int * w <= p);
            let len = pixels.len();
            assert(y as int * w < len as int);
            let row: usize = (y as usize) * (width as usize);
            let pix: usize = row + (x as usize);
            let idx: usize = pix * 4 + 3;
            assert(idx == p * 4 + 3);
            proof {
                lemma_pixel_coords(p, w, x as int, y as int);
            }
            if outside_corner(x, y, width, height, radius) {
                pixels.set(idx, 0);
            }
            proof {
                assert forall|i: int| 0 <= i < pixels@.len() implies #[trigger] pixels@[i]
                    == if i / 4 < p + 1 {
                    target[i]
                } else {
                    orig[i]
                } by {
                    if i / 4 == p {
                        if i == idx {
                            assert(i % 4 == 3);
                        } else {
                            assert(i % 4 != 3);
                        }
                    }
                }
            }
            x = x + 1;
        }
        y = y + 1;
        proof {
            assert((y - 1) as int * w + w == y as int * w) by (nonlinear_arith);
        }
    }
    proof {
        assert forall|i: int| 0 <= i < pixels@.len() implies #[trigger] pixels@[i] == target[i] by {
            assert(i / 4 < height as int * w) by (nonlinear_arith)
                requires
                    0 <= i < w * height as int * 4,
                    w > 0,
            ;
        }
        assert(pixels@ =~= target);
    }
}

// ---------------------------------------------------------------------------
// Making a thumbnail
// ---------------------------------------------------------------------------

/// Names whether `image::load_from_memory` decodes a byte string.
pub uninterp spec fn decodes_as_image(bytes: Seq<u8>) -> bool;

/// Names the RGBA pixels (width, height, row-major bytes) of the image that
/// `image::load_from_memory` decodes from `bytes`, scaled down or up by
/// `DynamicImage::thumbnail(width, height)` and converted by `to_rgba8`.
pub uninterp spec fn fitted_pixels(bytes: Seq<u8>, width: u32, height: u32) -> (u32, u32, Seq<u8>);

/// Names the RGBA pixels of the image decoded from `bytes`, stretched by
/// `DynamicImage::resize_exact(width, height, Lanczos3)` and converted by
/// `to_rgba8`.
pub uninterp spec fn stretched_pixels(bytes: Seq<u8>, width: u32, height: u32) -> (u32, u32, Seq<u8>);

/// Names the PNG file that `DynamicImage::write_to` writes for the image
/// decoded from `bytes` and scaled by `thumbnail(width, height)`, in the
/// image's own colour type; `None` when writing fails.
pub uninterp spec fn fitted_png(bytes: Seq<u8>, width: u32, height: u32) -> Option<Seq<u8>>;

/// Names the PNG file that `DynamicImage::write_to` writes for the image
/// decoded from `bytes` and stretched by `resize_exact(width, height,
/// Lanczos3)`; `None` when writing fails.
pub uninterp spec fn stretched_png(bytes: Seq<u8>, width: u32, height: u32) -> Option<Seq<u8>>;

/// Names the PNG file that `image`'s `PngEncoder` writes for a `width` by
/// `height` RGBA image with the given bytes, or `None` when it fails.
pub uninterp spec fn png_of_rgba(width: u32, height: u32, pixels: Seq<u8>) -> Option<Seq<u8>>;

/// `image::load_from_memory`, then `DynamicImage::thumbnail` and `to_rgba8`:
/// the image decoded from `bytes`, scaled to the largest size that fits
/// `width` by `height` keeping its aspect ratio, as RGBA pixels (exactly
/// `4 * w * h` bytes). `None` exactly when the bytes do not decode.
#[verifier::external_body]
fn fitted_rgba(bytes: &[u8], width: u32, height: u32) -> (r: Option<(u32, u32, Vec<u8>)>)
    requires
        width >= 1,
        height >= 1,
    ensures
        r is Some == decodes_as_image(bytes@),
        r matches Some((w, h, p)) ==> fitted_pixels(bytes@, width, height) == (w, h, p@)
            && w <= width && h <= height && p@.len() == w as int * h as int * 4,
{
    match image::load_from_memory(bytes) {
        Ok(image) => {
            let rgba = image.thumbnail(width, height).to_rgba8();
            let (w, h) = rgba.dimensions();
            Some((w, h, rgba.into_raw()))
        },
        Err(_) => None,
    }
}

/// `image::load_from_memory`, then `DynamicImage::resize_exact` (Lanczos3) and
/// `to_rgba8`: the image decoded from `bytes`, stretched to exactly `width` by
/// `height`, as RGBA pixels. `None` exactly when the bytes do not decode.
#[verifier::external_body]
fn stretched_rgba(bytes: &[u8], width: u32, height: u32) -> (r: Option<(u32, u32, Vec<u8>)>)
    ensures
        r is Some == decodes_as_image(bytes@),
        r matches Some((w, h, p)) ==> stretched_pixels(bytes@, width, height) == (w, h, p@)
            && w == width && h == height && p@.len() == w as int * h as int * 4,
{
    match image::load_from_memory(bytes) {
        Ok(image) => {
            let rgba = image.resize_exact(width, height, image::imageops::FilterType::Lanczos3).to_rgba8();
            let (w, h) = rgba.dimensions();
            Some((w, h, rgba.into_raw()))
        },
        Err(_) => None,
    }
}

/// `image::load_from_memory`, then `DynamicImage::thumbnail` and `write_to`
/// with `ImageFormat::Png` into memory: `None` when the bytes do not decode,
/// otherwise the scaled image's width and height (those of `fitted_pixels`,
/// within `width` by `height`) and its PNG file, `None` when it cannot be
/// written.
#[verifier::external_body]
fn fitted_png_file(bytes: &[u8], width: u32, height: u32) -> (r: Option<(u32, u32, Option<Vec<u8>>)>)
    requires
        width >= 1,
        height >= 1,
    ensures
        r is Some == decodes_as_image(bytes@),
        r matches Some((w, h, written)) ==> {
            &&& fitted_pixels(bytes@, width, height).0 == w
            &&& fitted_pixels(bytes@, width, height).1 == h
            &&& w <= width && h <= height
            &&& match written {
                Some(png) => fitted_png(bytes@, width, height) == Some(png@),
                None => fitted_png(bytes@, width, height) is None,
            }
        },
{
    let image = image::load_from_memory(bytes).ok()?;
    let scaled = image.thumbnail(width, height);
    let mut out = std::io::Cursor::new(Vec::new());
    let written = scaled.write_to(&mut out, image::ImageFormat::Png).ok().map(|_| out.into_inner());
    Some((scaled.width(), scaled.height(), written))
}

/// `image::load_from_memory`, then `DynamicImage::resize_exact` (Lanczos3) and
/// `write_to` with `ImageFormat::Png` into memory: `None` when the bytes do not
/// decode, otherwise the scaled image's width and height (exactly `width` by
/// `height`, those of `stretched_pixels`) and its PNG file, `None` when it
/// cannot be written.
#[verifier::external_body]
fn stretched_png_file(bytes: &[u8], width: u32, height: u32) -> (r: Option<(u32, u32, Option<Vec<u8>>)>)
    ensures
        r is Some == decodes_as_image(bytes@),
        r matches Some((w, h, written)) ==> {
            &&& stretched_pixels(bytes@, width, height).0 == w
            &&& stretched_pixels(bytes@, width, height).1 == h
            &&& w == width && h == height
            &&& match written {
                Some(png) => stretched_png(bytes@, width, height) == Some(png@),
                None => stretched_png(bytes@, width, height) is None,
            }
        },
{
    let image = image::load_from_memory(bytes).ok()?;
    let scaled = image.resize_exact(width, height, image::imageops::FilterType::Lanczos3);
    let mut out = std::io::Cursor::new(Vec::new());
    let written = scaled.write_to(&mut out, image::ImageFormat::Png).ok().map(|_| out.into_inner());
    Some((scaled.width(), scaled.height(), written))
}

/// `PngEncoder::write_image` with `Rgba8` into memory: the PNG file of a
/// `width` by `height` RGBA image, the same for the same input.
#[verifier::external_body]
fn encode_png_rgba(width: u32, height: u32, pixels: &Vec<u8>) -> (r: Option<Vec<u8>>)
    requires
        pixels@.len() == width as int * height as int * 4,
    ensures
        match r {
            Some(png) => png_of_rgba(width, height, pixels@) == Some(png@),
            None => png_of_rgba(width, height, pixels@) is None,
        },
{
    let mut out: Vec<u8> = Vec::new();
    let encoder = image::codecs::png::PngEncoder::new(&mut out);
    image::ImageEncoder::write_image(encoder, pixels, width, height, image::ExtendedColorType::Rgba8).ok().map(|_| out)
}

/// Why a thumbnail could not be made.
#[derive(Clone, Copy, Debug, PartialEq, Eq, Structural)]
pub enum ThumbnailError {
    /// The entry's data is not an image.
    Decode,
    /// The scaled image could not be written as PNG.
    Encode,
}

/// The scaled image's pixels for `config`: fitted into the configured size
/// keeping the aspect ratio, or stretched to it.
pub open spec fn scaled_pixels(bytes: Seq<u8>, config: ImageConfig) -> (u32, u32, Seq<u8>) {
    let width = at_least_one(config.width);
    let height = at_least_one(config.height);
    if config.preserve_aspect_ratio {
        fitted_pixels(bytes, width, height)
    } else {
        stretched_pixels(bytes, width, height)
    }
}

/// The size rule of a scaled image: within the configured size when the
/// aspect ratio is kept, exactly that size otherwise.
pub open spec fn fits_configured_size(width: u32, height: u32, config: ImageConfig) -> bool {
    if config.preserve_aspect_ratio {
        width <= at_least_one(config.width) && height <= at_least_one(config.height)
    } else {
        width == at_least_one(config.width) && height == at_least_one(config.height)
    }
}

/// The thumbnail PNG of an entry's decoded data for `config`, or `None` when
/// it cannot be written: the scaled RGBA image with transparent rounded
/// corners when those are configured, otherwise the scaled image as it is.
pub open spec fn thumbnail_png(bytes: Seq<u8>, config: ImageConfig) -> Option<Seq<u8>> {
    let width = at_least_one(config.width);
    let height = at_least_one(config.height);
    if config.rounded_corners {
        let (w, h, p) = scaled_pixels(bytes, config);
        png_of_rgba(w, h, rounded_rgba(w, h, p))
    } else if config.preserve_aspect_ratio {
        fitted_png(bytes, width, height)
    } else {
        stretched_png(bytes, width, height)
    }
}

/// The PNG thumbnail of an entry's decoded data, made to fit the configured
/// size (keeping the aspect ratio, or stretched to it), with transparent
/// rounded corners when configured. Data that is not an image gives
/// `Decode`; an image whose thumbnail cannot be written gives `Encode`.
pub fn render_thumbnail(decoded: &[u8], config: &ImageConfig) -> (r: Result<Vec<u8>, ThumbnailError>)
    ensures
        !decodes_as_image(decoded@) ==> r == Err::<Vec<u8>, ThumbnailError>(ThumbnailError::Decode),
        decodes_as_image(decoded@) ==> match r {
            Ok(png) => thumbnail_png(decoded@, *config) == Some(png@),
            Err(e) => e == ThumbnailError::Encode && thumbnail_png(decoded@, *config) is None,
        },
        decodes_as_image(decoded@) ==> ({
            let (w, h, p) = scaled_pixels(decoded@, *config);
            fits_configured_size(w, h, *config)
        }),
        decodes_as_image(decoded@) && config.rounded_corners ==> ({
            let (w, h, p) = scaled_pixels(decoded@, *config);
            p.len() == w as int * h as int * 4
        }),
        decodes_as_image(decoded@) && config.rounded_corners && config.preserve_aspect_ratio ==> ({
            let (w, h, p) = fitted_pixels(
                decoded@,
                at_least_one(config.width),
                at_least_one(config.height),
            );
            &&& w <= at_least_one(config.width) && h <= at_least_one(config.height)
            &&& match r {
                Ok(png) => png_of_rgba(w, h, rounded_rgba(w, h, p)) == Some(png@),
                Err(_) => png_of_rgba(w, h, rounded_rgba(w, h, p)) is None,
            }
        }),
        decodes_as_image(decoded@) && config.rounded_corners && !config.preserve_aspect_ratio
            ==> ({
            let width = at_least_one(config.width);
            let height = at_least_one(config.height);
            let (w, h, p) = stretched_pixels(decoded@, width, height);
            &&& w == width && h == height
            &&& match r {
                Ok(png) => png_of_rgba(width, height, rounded_rgba(width, height, p)) == Some(png@),
                Err(_) => png_of_rgba(width, height, rounded_rgba(width, height, p)) is None,
            }
        }),
        decodes_as_image(decoded@) && !config.rounded_corners ==> ({
            let width = at_least_one(config.width);
            let height = at_least_one(config.height);
            let named = if config.preserve_aspect_ratio {
                fitted_png(decoded@, width, height)
            } else {
                stretched_png(decoded@, width, height)
            };
            match r {
                Ok(png) => named == Some(png@),
                Err(_) => named is None,
            }
        }),
{
    let (width, height) = thumbnail_bounds(config);
    if config.rounded_corners {
        let scaled = if config.preserve_aspect_ratio {
            fitted_rgba(decoded, width, height)
        } else {
            stretched_rgba(decoded, width, height)
        };
        let (w, h, mut pixels) = match scaled {
            Some(found) => found,
            None => return Err(ThumbnailError::Decode),
        };
        let ghost before = pixels@;
        rounded_corners(w, h, &mut pixels);
        match encode_png_rgba(w, h, &pixels) {
            Some(png) => {
                assert(png_of_rgba(w, h, rounded_rgba(w, h, before)) == Some(png@));
                Ok(png)
            },
            None => Err(ThumbnailError::Encode),
        }
    } else {
        let png = if config.preserve_aspect_ratio {
            fitted_png_file(decoded, width, height)
        } else {
            stretched_png_file(decoded, width, height)
        };
        match png {
            Some((_, _, Some(png))) => Ok(png),
            Some((_, _, None)) => Err(ThumbnailError::Encode),
            None => Err(ThumbnailError::Decode),
        }
    }
}

// ---------------------------------------------------------------------------
// Properties
// ---------------------------------------------------------------------------

proof fn lemma_decimal_digits(n: nat)
    ensures
        decimal(n).len() >= 1,
        forall|i: int| 0 <= i < decimal(n).len() ==> is_file_safe(#[trigger] decimal(n)[i]),
    decreases n,
{
    if n >= 10 {
        lemma_decimal_digits(n / 10);
        let d = decimal(n / 10);
        assert forall|i: int| 0 <= i < decimal(n).len() implies is_file_safe(#[trigger] decimal(n)[i]) by {
            if i < d.len() {
                assert(decimal(n)[i] == d[i]);
            }
        }
    }
}

/// A cache file name stays inside the cache directory and is taken for a PNG
/// file: it holds no `/`, is neither `.` nor `..`, and has the `png` extension.
pub proof fn lemma_cache_file_name_shape(id: Seq<char>, config: ImageConfig)
    ensures
        forall|i: int|
            0 <= i < cache_file_name(id, config).len() ==> #[trigger] cache_file_name(id, config)[i]
                != '/',
        cache_file_name(id, config) != "."@,
        cache_file_name(id, config) != ".."@,
        has_png_extension(cache_file_name(id, config)),
{
    reveal_strlit("-");
    reveal_strlit("x");
    reveal_strlit("-aspect");
    reveal_strlit("-round");
    reveal_strlit(".png");
    reveal_strlit(".");
    reveal_strlit("..");
    let a = sanitized(id);
    let wd = decimal(at_least_one(config.width) as nat);
    let hd = decimal(at_least_one(config.height) as nat);
    let ad = decimal(flag(config.preserve_aspect_ratio));
    let rd = decimal(flag(config.rounded_corners));
    lemma_decimal_digits(at_least_one(config.width) as nat);
    lemma_decimal_digits(at_least_one(config.height) as nat);
    lemma_decimal_digits(flag(config.preserve_aspect_ratio));
    lemma_decimal_digits(flag(config.rounded_corners));
    let name = cache_file_name(id, config);
    let parts = a + "-"@ + wd + "x"@ + hd + "-aspect"@ + ad + "-round"@ + rd;
    assert(name == parts + ".png"@);
    assert forall|i: int| 0 <= i < name.len() implies #[trigger] name[i] != '/' by {
        if i < a.len() {
            assert(name[i] == a[i]);
        } else if i < parts.len() {
            assert(name[i] == parts[i]);
            let o1 = a.len() + 1;
            let o2 = o1 + wd.len();
            let o3 = o2 + 1;
            let o4 = o3 + hd.len();
            let o5 = o4 + 7;
            let o6 = o5 + ad.len();
            let o7 = o6 + 6;
            if i < o1 {
            } else if i < o2 {
                assert(parts[i] == wd[i - o1]);
            } else if i < o3 {
            } else if i < o4 {
                assert(parts[i] == hd[i - o3]);
            } else if i < o5 {
            } else if i < o6 {
                assert(parts[i] == ad[i - o5]);
            } else if i < o7 {
            } else {
                assert(parts[i] == rd[i - o7]);
            }
        }
    }
    assert(name.subrange(name.len() - 4, name.len() as int) =~= ".png"@);
    assert(name.len() > 4);
}

proof fn lemma_expected_names_cover(items: Seq<ItemView>, config: ImageConfig, k: int)
    requires
        0 <= k < items.len(),
        items[k].kind == ClipboardKind::Image,
    ensures
        expected_names(items, config).contains(cache_file_name(items[k].id, config)),
    decreases items.len(),
{
    let prev = expected_names(items.drop_last(), config);
    if k == items.len() - 1 {
        assert(expected_names(items, config).last() == cache_file_name(items[k].id, config));
    } else {
        lemma_expected_names_cover(items.drop_last(), config, k);
        let j = choose|j: int| 0 <= j < prev.len() && prev[j] == cache_file_name(items[k].id, config);
        if items.last().kind == ClipboardKind::Image {
            assert(expected_names(items, config)[j] == prev[j]);
        }
    }
}

/// Pruning never removes the thumbnail of a current image entry: its cache
/// file name is among the expected names, so it is never picked as stale,
/// whatever files the cache holds.
pub proof fn lemma_current_thumbnails_kept(
    items: Seq<ItemView>,
    config: ImageConfig,
    file_names: Seq<Seq<char>>,
    k: int,
)
    requires
        0 <= k < items.len(),
        items[k].kind == ClipboardKind::Image,
    ensures
        !stale_names(file_names, expected_names(items, config)).contains(
            cache_file_name(items[k].id, config),
        ),
{
    let expected = expected_names(items, config);
    let name = cache_file_name(items[k].id, config);
    lemma_expected_names_cover(items, config, k);
    lemma_stale_names_exact(file_names, expected);
    if stale_names(file_names, expected).contains(name) {
        let j = choose|j: int|
            0 <= j < stale_names(file_names, expected).len() && stale_names(file_names, expected)[j]
                == name;
        assert(!expected.contains(stale_names(file_names, expected)[j]));
    }
}

/// Rounding the corners changes nothing but alpha bytes, and those only to 0.
pub proof fn lemma_rounding_only_clears_alpha(width: u32, height: u32, pixels: Seq<u8>)
    ensures
        rounded_rgba(width, height, pixels).len() == pixels.len(),
        forall|i: int|
            0 <= i < pixels.len() && i % 4 != 3 ==> #[trigger] rounded_rgba(width, height, pixels)[i]
                == pixels[i],
        forall|i: int|
            0 <= i < pixels.len() ==> #[trigger] rounded_rgba(width, height, pixels)[i] == pixels[i]
                || rounded_rgba(width, height, pixels)[i] == 0,
{
}

/// Rounding changes nothing in the middle bands: a pixel at least the corner
/// radius away from the left and right sides, or from the top and bottom,
/// keeps its alpha; an image less than 2 pixels wide or high is not rounded.
pub proof fn lemma_middle_bands_untouched(x: u32, y: u32, width: u32, height: u32)
    requires
        x < width,
        y < height,
    ensures
        ({
            let r = corner_radius(width, height);
            (r <= x < width - r || r <= y < height - r) ==> !outside_rounded_corner(x, y, width, height)
        }),
        (width < 2 || height < 2) ==> !outside_rounded_corner(x, y, width, height),
{
}

proof fn lemma_corner_offset_mirrors(pos: u32, len: u32, r: u32)
    requires
        pos < len,
        2 * r <= len,
        r > 0,
    ensures
        ({
            let m = (len - 1 - pos) as u32;
            &&& corner_center(pos, len, r) is Some == corner_center(m, len, r) is Some
            &&& corner_center(pos, len, r) matches Some(c) ==> ({
                let d = pos - c;
                let e = m - corner_center(m, len, r)->0;
                d * d == e * e
            })
        }),
{
    let m = (len - 1 - pos) as u32;
    if pos < r {
        let d = pos - (r - 1);
        let e = m - (len - r);
        assert(e == -d);
        assert(d * d == e * e) by (nonlinear_arith)
            requires
                e == -d,
        ;
    } else if pos >= len - r {
        let d = pos - (len - r);
        let e = m - (r - 1);
        assert(e == -d);
        assert(d * d == e * e) by (nonlinear_arith)
            requires
                e == -d,
        ;
    }
}

/// The rounded corners are mirror images of each other: flipping a pixel
/// left to right, or top to bottom, does not change whether it is cleared.
pub proof fn lemma_corners_mirror(x: u32, y: u32, width: u32, height: u32)
    requires
        x < width,
        y < height,
    ensures
        outside_rounded_corner(x, y, width, height) == outside_rounded_corner(
            (width - 1 - x) as u32,
            y,
            width,
            height,
        ),
        outside_rounded_corner(x, y, width, height) == outside_rounded_corner(
            x,
            (height - 1 - y) as u32,
            width,
            height,
        ),
{
    let r = corner_radius(width, height);
    if r > 0 {
        assert(2 * r <= width);
        assert(2 * r <= height);
        lemma_corner_offset_mirrors(x, width, r);
        lemma_corner_offset_mirrors(y, height, r);
    }
}

/// The names that pruning keeps: those of `names` that are not stale.
pub open spec fn kept_names(names: Seq<Seq<char>>, expected: Seq<Seq<char>>) -> Seq<Seq<char>>
    decreases names.len(),
{
    if names.len() == 0 {
        Seq::empty()
    } else {
        let prev = kept_names(names.drop_last(), expected);
        if has_png_extension(names.last()) && !expected.contains(names.last()) {
            prev
        } else {
            prev.push(names.last())
        }
    }
}

/// Pruning twice removes nothing the second time: of the names that pruning
/// keeps, none is stale.
pub proof fn lemma_pruning_twice_removes_nothing(names: Seq<Seq<char>>, expected: Seq<Seq<char>>)
    ensures
        stale_names(kept_names(names, expected), expected).len() == 0,
    decreases names.len(),
{
    if names.len() > 0 {
        lemma_pruning_twice_removes_nothing(names.drop_last(), expected);
        let prev = kept_names(names.drop_last(), expected);
        if !(has_png_extension(names.last()) && !expected.contains(names.last())) {
            assert(prev.push(names.last()).drop_last() =~= prev);
        }
    }
}

proof fn lemma_small_corner_clears_nothing(x: u32, y: u32, width: u32, height: u32)
    requires
        x < width,
        y < height,
        width < 8 || height < 8,
    ensures
        !outside_rounded_corner(x, y, width, height),
{
    let r = corner_radius(width, height);
    if r > 0 {
        assert(r <= 3);
        match (corner_center(x, width, r), corner_center(y, height, r)) {
            (Some(cx), Some(cy)) => {
                let dx = x - cx;
                let dy = y - cy;
                assert(-(r - 1) <= dx <= r - 1);
                assert(-(r - 1) <= dy <= r - 1);
                assert(dx * dx <= (r - 1) * (r - 1)) by (nonlinear_arith)
                    requires
                        -(r - 1) <= dx <= r - 1,
                        r >= 1,
                ;
                assert(dy * dy <= (r - 1) * (r - 1)) by (nonlinear_arith)
                    requires
                        -(r - 1) <= dy <= r - 1,
                        r >= 1,
                ;
                assert(2 * ((r - 1) * (r - 1)) <= r * r) by (nonlinear_arith)
                    requires
                        1 <= r <= 3,
                ;
            },
            _ => {},
        }
    }
}

/// Pixel `q` (counted row by row) of a `width` by `height` image lies in it.
proof fn lemma_pixel_in_image(q: int, width: int, height: int)
    requires
        width > 0,
        0 <= q < width * height,
    ensures
        0 <= q % width < width,
        0 <= q / width < height,
        q == (q / width) * width + q % width,
{
    assert(q / width < height) by (nonlinear_arith)
        requires
            width > 0,
            0 <= q < width * height,
    ;
    assert(q == (q / width) * width + q % width) by (nonlinear_arith)
        requires
            width > 0,
    ;
}

/// An image less than 8 pixels wide or high keeps every pixel: its corner
/// arcs are too small to leave any pixel outside them.
pub proof fn lemma_small_images_unchanged(width: u32, height: u32, pixels: Seq<u8>)
    requires
        pixels.len() == width as int * height as int * 4,
        width < 8 || height < 8,
    ensures
        rounded_rgba(width, height, pixels) == pixels,
{
    let w = width as int;
    let h = height as int;
    assert forall|i: int| 0 <= i < pixels.len() implies #[trigger] rounded_rgba(
        width,
        height,
        pixels,
    )[i] == pixels[i] by {
        let q = i / 4;
        assert(w > 0 && q < w * h) by (nonlinear_arith)
            requires
                0 <= i < w * h * 4,
                q == i / 4,
                w >= 0,
                h >= 0,
        ;
        lemma_pixel_in_image(q, w, h);
        lemma_small_corner_clears_nothing((q % w) as u32, (q / w) as u32, width, height);
    }
    assert(rounded_rgba(width, height, pixels) =~= pixels);
}

/// An image mirrored left to right.
pub open spec fn mirrored_across(width: u32, height: u32, pixels: Seq<u8>) -> Seq<u8> {
    Seq::new(
        pixels.len(),
        |i: int|
            {
                let q = i / 4;
                let x = q % (width as int);
                let y = q / (width as int);
                pixels[(y * width + (width - 1 - x)) * 4 + i % 4]
            },
    )
}

/// An image mirrored top to bottom.
pub open spec fn mirrored_down(width: u32, height: u32, pixels: Seq<u8>) -> Seq<u8> {
    Seq::new(
        pixels.len(),
        |i: int|
            {
                let q = i / 4;
                let x = q % (width as int);
                let y = q / (width as int);
                pixels[((height - 1 - y) * width + x) * 4 + i % 4]
            },
    )
}

/// Byte `i` of an RGBA image: its pixel and channel.
proof fn lemma_byte_parts(i: int, q: int, c: int)
    requires
        0 <= c < 4,
        0 <= q,
        i == q * 4 + c,
    ensures
        i / 4 == q,
        i % 4 == c,
{
}

/// Rounding the corners and mirroring the image, left to right or top to
/// bottom, can be done in either order.
pub proof fn lemma_rounding_commutes_with_mirroring(width: u32, height: u32, pixels: Seq<u8>)
    requires
        pixels.len() == width as int * height as int * 4,
    ensures
        rounded_rgba(width, height, mirrored_across(width, height, pixels)) == mirrored_across(
            width,
            height,
            rounded_rgba(width, height, pixels),
        ),
        rounded_rgba(width, height, mirrored_down(width, height, pixels)) == mirrored_down(
            width,
            height,
            rounded_rgba(width, height, pixels),
        ),
{
    let w = width as int;
    let h = height as int;
    let rp = rounded_rgba(width, height, pixels);
    let a = mirrored_across(width, height, pixels);
    let d = mirrored_down(width, height, pixels);
    assert forall|i: int|
        #![trigger rounded_rgba(width, height, a)[i]]
        #![trigger rounded_rgba(width, height, d)[i]]
        0 <= i < pixels.len() implies rounded_rgba(width, height, a)[i] == mirrored_across(
            width,
            height,
            rp,
        )[i] && rounded_rgba(width, height, d)[i] == mirrored_down(width, height, rp)[i] by {
        let q = i / 4;
        let c = i % 4;
        assert(w > 0 && q < w * h) by (nonlinear_arith)
            requires
                0 <= i < w * h * 4,
                q == i / 4,
                w >= 0,
                h >= 0,
        ;
        lemma_pixel_in_image(q, w, h);
        let x = q % w;
        let y = q / w;
        lemma_corners_mirror(x as u32, y as u32, width, height);
        // left to right
        let qa = y * w + (w - 1 - x);
        assert(0 <= qa < w * h) by (nonlinear_arith)
            requires
                qa == y * w + (w - 1 - x),
                0 <= x < w,
                0 <= y < h,
        ;
        lemma_pixel_coords(qa, w, w - 1 - x, y);
        let ja = qa * 4 + c;
        lemma_byte_parts(ja, qa, c);
        assert(0 <= ja < pixels.len());
        assert(a[i] == pixels[ja]);
        assert(mirrored_across(width, height, rp)[i] == rp[ja]);
        // top to bottom
        let qd = (h - 1 - y) * w + x;
        assert(0 <= qd < w * h) by (nonlinear_arith)
            requires
                qd == (h - 1 - y) * w + x,
                0 <= x < w,
                0 <= y < h,
        ;
        lemma_pixel_coords(qd, w, x, h - 1 - y);
        let jd = qd * 4 + c;
        lemma_byte_parts(jd, qd, c);
        assert(0 <= jd < pixels.len());
        assert(d[i] == pixels[jd]);
        assert(mirrored_down(width, height, rp)[i] == rp[jd]);
    }
    assert(rounded_rgba(width, height, a) =~= mirrored_across(width, height, rp));
    assert(rounded_rgba(width, height, d) =~= mirrored_down(width, height, rp));
}

/// Which scaling and encoding a thumbnail comes from, for each setting: a kept
/// aspect ratio fits the image into the configured size, otherwise it is
/// stretched to it; rounded corners are cut into the scaled RGBA pixels before
/// they are written.
pub proof fn lemma_thumbnail_follows_the_settings(bytes: Seq<u8>, config: ImageConfig)
    ensures
        ({
            let width = at_least_one(config.width);
            let height = at_least_one(config.height);
            let fit = fitted_pixels(bytes, width, height);
            let stretch = stretched_pixels(bytes, width, height);
            &&& config.rounded_corners && config.preserve_aspect_ratio ==> thumbnail_png(bytes, config)
                == png_of_rgba(fit.0, fit.1, rounded_rgba(fit.0, fit.1, fit.2))
            &&& config.rounded_corners && !config.preserve_aspect_ratio ==> thumbnail_png(
                bytes,
                config,
            ) == png_of_rgba(stretch.0, stretch.1, rounded_rgba(stretch.0, stretch.1, stretch.2))
            &&& !config.rounded_corners && config.preserve_aspect_ratio ==> thumbnail_png(bytes, config)
                == fitted_png(bytes, width, height)
            &&& !config.rounded_corners && !config.preserve_aspect_ratio ==> thumbnail_png(
                bytes,
                config,
            ) == stretched_png(bytes, width, height)
        }),
{
}

} // verus!
