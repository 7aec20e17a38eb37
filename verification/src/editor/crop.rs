//! Crop rectangles and the aspect ratios offered for them.

use vstd::prelude::*;

verus! {

/// A rectangle in an image, in pixels.
#[derive(Clone, Copy, Debug, PartialEq, Eq, Structural)]
pub struct CropRect {
    pub x: u32,
    pub y: u32,
    pub width: u32,
    pub height: u32,
}

impl CropRect {
    /// Does the rectangle hold a pixel, and lie inside a `width` by `height`
    /// image?
    pub open spec fn lies_in(self, width: u32, height: u32) -> bool {
        &&& self.width >= 1
        &&& self.height >= 1
        &&& self.x + self.width <= width
        &&& self.y + self.height <= height
    }
}

/// The aspect ratios that the editor offers, in the order in which it offers
/// them.
#[derive(Clone, Copy, Debug, PartialEq, Eq, Structural)]
pub enum CropRatio {
    Source,
    Square,
    FourThree,
    ThreeTwo,
    SixteenNine,
    Free,
}

/// The number of aspect ratios.
pub const CROP_RATIO_COUNT: usize = 6;

/// The ratio at a place of the list; behind the end, the last one.
pub open spec fn ratio_at(index: int) -> CropRatio {
    if index <= 0 {
        CropRatio::Source
    } else if index == 1 {
        CropRatio::Square
    } else if index == 2 {
        CropRatio::FourThree
    } else if index == 3 {
        CropRatio::ThreeTwo
    } else if index == 4 {
        CropRatio::SixteenNine
    } else {
        CropRatio::Free
    }
}

/// The ratio at a place of the list; behind the end, the last one.
pub fn crop_ratio_at(index: usize) -> (ratio: CropRatio)
    ensures
        ratio == ratio_at(index as int),
{
    match index {
        0 => CropRatio::Source,
        1 => CropRatio::Square,
        2 => CropRatio::FourThree,
        3 => CropRatio::ThreeTwo,
        4 => CropRatio::SixteenNine,
        _ => CropRatio::Free,
    }
}

/// The key of the text that names a ratio.
pub open spec fn label_key(ratio: CropRatio) -> Seq<char> {
    match ratio {
        CropRatio::Source => "editor.crop.ratio.source"@,
        CropRatio::Square => "editor.crop.ratio.square"@,
        CropRatio::FourThree => "editor.crop.ratio.4_3"@,
        CropRatio::ThreeTwo => "editor.crop.ratio.3_2"@,
        CropRatio::SixteenNine => "editor.crop.ratio.16_9"@,
        CropRatio::Free => "editor.crop.ratio.free"@,
    }
}

/// A ratio of width to height.
#[derive(Clone, Copy, Debug, PartialEq, Eq, Structural)]
pub struct Aspect {
    pub width: u32,
    pub height: u32,
}

/// The fixed aspect of a ratio; the source ratio depends on the image, and the
/// free one has none.
pub open spec fn fixed_aspect(ratio: CropRatio) -> Option<Aspect> {
    match ratio {
        CropRatio::Source => None,
        CropRatio::Square => Some(Aspect { width: 1, height: 1 }),
        CropRatio::FourThree => Some(Aspect { width: 4, height: 3 }),
        CropRatio::ThreeTwo => Some(Aspect { width: 3, height: 2 }),
        CropRatio::SixteenNine => Some(Aspect { width: 16, height: 9 }),
        CropRatio::Free => None,
    }
}

/// The aspect that a ratio asks for in an image.
pub open spec fn aspect_in(ratio: CropRatio, width: u32, height: u32) -> Option<Aspect> {
    if ratio == CropRatio::Source {
        Some(Aspect { width, height })
    } else {
        fixed_aspect(ratio)
    }
}

impl CropRatio {
    /// The key of the text that names the ratio.
    pub fn label_key(self) -> (key: &'static str)
        ensures
            key@ == label_key(self),
    {
        match self {
            CropRatio::Source => "editor.crop.ratio.source",
            CropRatio::Square => "editor.crop.ratio.square",
            CropRatio::FourThree => "editor.crop.ratio.4_3",
            CropRatio::ThreeTwo => "editor.crop.ratio.3_2",
            CropRatio::SixteenNine => "editor.crop.ratio.16_9",
            CropRatio::Free => "editor.crop.ratio.free",
        }
    }

    /// The fixed aspect of the ratio.
    pub fn aspect(self) -> (aspect: Option<Aspect>)
        ensures
            aspect == fixed_aspect(self),
    {
        match self {
            CropRatio::Source => None,
            CropRatio::Square => Some(Aspect { width: 1, height: 1 }),
            CropRatio::FourThree => Some(Aspect { width: 4, height: 3 }),
            CropRatio::ThreeTwo => Some(Aspect { width: 3, height: 2 }),
            CropRatio::SixteenNine => Some(Aspect { width: 16, height: 9 }),
            CropRatio::Free => None,
        }
    }
}

/// The aspect that a ratio asks for in an image.
pub fn ratio_pair(ratio: CropRatio, image_width: u32, image_height: u32) -> (aspect: Option<Aspect>)
    ensures
        aspect == aspect_in(ratio, image_width, image_height),
{
    if ratio == CropRatio::Source {
        Some(Aspect { width: image_width, height: image_height })
    } else {
        ratio.aspect()
    }
}

/// `n / d`, rounded to the nearest whole number; halves are rounded up.
pub open spec fn rounded(n: int, d: int) -> int {
    (2 * n + d) / (2 * d)
}

/// `value`, moved into the range from 1 to `most`.
pub open spec fn clamped(value: int, most: int) -> int {
    if value < 1 {
        1
    } else if value > most {
        most
    } else {
        value
    }
}

/// Nine tenths of an image, in its middle.
pub open spec fn nine_tenths(width: u32, height: u32) -> CropRect {
    let w = rounded(9 * width, 10);
    let h = rounded(9 * height, 10);
    CropRect {
        x: ((width - w) / 2) as u32,
        y: ((height - h) / 2) as u32,
        width: (if w < 1 { 1 } else { w }) as u32,
        height: (if h < 1 { 1 } else { h }) as u32,
    }
}

fn nine_tenths_of(length: u32) -> (part: u32)
    ensures
        part == rounded(9 * length, 10),
        part <= length,
{
    ((length as u64 * 18 + 10) / 20) as u32
}

/// The rectangle that a crop starts with where no ratio gives one: nine tenths
/// of the image, in its middle.
pub fn default_free_crop_rect(width: u32, height: u32) -> (rect: CropRect)
    ensures
        rect == nine_tenths(width, height),
{
    let w: u32 = nine_tenths_of(width);
    let h: u32 = nine_tenths_of(height);
    CropRect {
        x: (width - w) / 2,
        y: (height - h) / 2,
        width: if w < 1 {
            1
        } else {
            w
        },
        height: if h < 1 {
            1
        } else {
            h
        },
    }
}

/// The rectangle that a ratio gives: the whole image for the source ratio, and
/// `centered` for a fixed aspect, which is the middle of the image with that
/// aspect where there is one. The free ratio gives none.
pub open spec fn ratio_rect(
    ratio: CropRatio,
    width: u32,
    height: u32,
    centered: Option<CropRect>,
) -> Option<CropRect> {
    match ratio {
        CropRatio::Source => Some(CropRect { x: 0, y: 0, width, height }),
        CropRatio::Free => None,
        _ => centered,
    }
}

/// The rectangle that a ratio gives.
pub fn crop_rect_for_ratio_id(
    ratio: CropRatio,
    width: u32,
    height: u32,
    centered: Option<CropRect>,
) -> (rect: Option<CropRect>)
    ensures
        rect == ratio_rect(ratio, width, height, centered),
{
    match ratio {
        CropRatio::Source => Some(CropRect { x: 0, y: 0, width, height }),
        CropRatio::Free => None,
        _ => centered,
    }
}

/// The rectangle that stands for a drawn one: moved into the image, cut to it,
/// and given the aspect that the ratio asks for, as far as the image allows.
pub open spec fn normalized(
    drawn: CropRect,
    image_width: u32,
    image_height: u32,
    ratio: CropRatio,
) -> CropRect {
    let x = if drawn.x < image_width { drawn.x as int } else { image_width - 1 };
    let y = if drawn.y < image_height { drawn.y as int } else { image_height - 1 };
    let most_width = image_width - x;
    let most_height = image_height - y;
    let width = clamped(drawn.width as int, most_width);
    let height = clamped(drawn.height as int, most_height);
    match aspect_in(ratio, image_width, image_height) {
        None => CropRect {
            x: x as u32,
            y: y as u32,
            width: width as u32,
            height: height as u32,
        },
        Some(aspect) => {
            let high = clamped(rounded(width * aspect.height, aspect.width as int), most_height);
            let wide = clamped(rounded(high * aspect.width, aspect.height as int), most_width);
            CropRect { x: x as u32, y: y as u32, width: wide as u32, height: high as u32 }
        },
    }
}

fn clamp_to(value: u32, most: u32) -> (result: u32)
    requires
        most >= 1,
    ensures
        result == clamped(value as int, most as int),
        1 <= result <= most,
{
    if value < 1 {
        1
    } else if value > most {
        most
    } else {
        value
    }
}

/// `length * by / per`, rounded and moved into the range from 1 to `most`.
fn scaled_to(length: u32, by: u32, per: u32, most: u32) -> (result: u32)
    requires
        per >= 1,
        most >= 1,
    ensures
        result == clamped(rounded(length * by, per as int), most as int),
        1 <= result <= most,
{
    proof {
        assert(length as u128 * by as u128 <= 0xffff_ffffu128 * 0xffff_ffffu128)
            by (nonlinear_arith)
            requires
                length <= 0xffff_ffff,
                by <= 0xffff_ffff,
        ;
    }
    let value: u128 = (2 * (length as u128 * by as u128) + per as u128) / (2 * per as u128);
    if value < 1 {
        1
    } else if value > most as u128 {
        most
    } else {
        value as u32
    }
}

/// The rectangle that stands for a drawn one.
pub fn normalized_crop_rect(
    drawn: CropRect,
    image_width: u32,
    image_height: u32,
    ratio: CropRatio,
) -> (rect: CropRect)
    requires
        image_width >= 1,
        image_height >= 1,
    ensures
        rect == normalized(drawn, image_width, image_height, ratio),
        rect.lies_in(image_width, image_height),
{
    let x: u32 = if drawn.x < image_width {
        drawn.x
    } else {
        image_width - 1
    };
    let y: u32 = if drawn.y < image_height {
        drawn.y
    } else {
        image_height - 1
    };
    let most_width: u32 = image_width - x;
    let most_height: u32 = image_height - y;
    let width: u32 = clamp_to(drawn.width, most_width);
    let height: u32 = clamp_to(drawn.height, most_height);
    match ratio_pair(ratio, image_width, image_height) {
        None => CropRect { x, y, width, height },
        Some(aspect) => {
            let high: u32 = scaled_to(width, aspect.height, aspect.width, most_height);
            let wide: u32 = scaled_to(high, aspect.width, aspect.height, most_width);
            CropRect { x, y, width: wide, height: high }
        },
    }
}

/// A crop starts inside its image, where the image holds a pixel at all.
pub proof fn first_crops_lie_in_their_image(width: u32, height: u32)
    requires
        width >= 1,
        height >= 1,
    ensures
        nine_tenths(width, height).lies_in(width, height),
{
    assert(rounded(9 * width, 10) == (18 * width + 10) / 20);
    assert(rounded(9 * height, 10) == (18 * height + 10) / 20);
}

/// A drawn rectangle that lies in the image is kept as it is when no aspect is
/// asked for.
pub proof fn free_crops_are_kept(drawn: CropRect, width: u32, height: u32)
    requires
        drawn.lies_in(width, height),
    ensures
        normalized(drawn, width, height, CropRatio::Free) == drawn,
{
}

/// A square that lies in the image is kept as it is when a square is asked for.
pub proof fn square_crops_are_kept(drawn: CropRect, width: u32, height: u32)
    requires
        drawn.lies_in(width, height),
        drawn.width == drawn.height,
    ensures
        normalized(drawn, width, height, CropRatio::Square) == drawn,
{
    assert(rounded(drawn.width * 1, 1) == (2 * drawn.width + 1) / 2);
    assert(rounded(drawn.height * 1, 1) == (2 * drawn.height + 1) / 2);
}

proof fn lemma_whole_rounds(k: int, d: int)
    requires
        d > 0,
    ensures
        rounded(k * d, d) == k,
{
    assert((2 * (k * d) + d) / (2 * d) == k) by (nonlinear_arith)
        requires
            d > 0,
    ;
}

/// A drawn rectangle whose sides are in the proportion that the name of the
/// chosen ratio gives is kept as it is, wherever it lies in the image.
pub proof fn proportioned_crops_are_kept(
    drawn: CropRect,
    width: u32,
    height: u32,
    ratio: CropRatio,
    k: int,
)
    requires
        drawn.lies_in(width, height),
        ({
            ||| ratio == CropRatio::Square && drawn.width == k && drawn.height == k
            ||| ratio == CropRatio::FourThree && drawn.width == 4 * k && drawn.height == 3 * k
            ||| ratio == CropRatio::ThreeTwo && drawn.width == 3 * k && drawn.height == 2 * k
            ||| ratio == CropRatio::SixteenNine && drawn.width == 16 * k && drawn.height == 9 * k
        }),
    ensures
        normalized(drawn, width, height, ratio) == drawn,
{
    let (across, down): (int, int) = match ratio {
        CropRatio::FourThree => (4, 3),
        CropRatio::ThreeTwo => (3, 2),
        CropRatio::SixteenNine => (16, 9),
        _ => (1, 1),
    };
    lemma_whole_rounds(drawn.height as int, across);
    lemma_whole_rounds(drawn.width as int, down);
}

/// With the ratio of the photo itself, a drawn rectangle of the photo's
/// proportion is kept as it is.
pub proof fn photo_shaped_crops_are_kept(drawn: CropRect, width: u32, height: u32)
    requires
        drawn.lies_in(width, height),
        drawn.width * height == drawn.height * width,
    ensures
        normalized(drawn, width, height, CropRatio::Source) == drawn,
{
    lemma_whole_rounds(drawn.height as int, width as int);
    lemma_whole_rounds(drawn.width as int, height as int);
}

/// A crop begins where it was drawn, or at the edge where that lies outside the
/// image, and never reaches out of it.
pub proof fn crops_begin_where_they_are_drawn(
    drawn: CropRect,
    width: u32,
    height: u32,
    ratio: CropRatio,
)
    requires
        width >= 1,
        height >= 1,
    ensures
        ({
            let crop = normalized(drawn, width, height, ratio);
            &&& crop.x == if drawn.x < width { drawn.x as int } else { width - 1 }
            &&& crop.y == if drawn.y < height { drawn.y as int } else { height - 1 }
            &&& crop.lies_in(width, height)
        }),
{
}

/// A free crop is as large as it was drawn, cut off where the image ends, and
/// holds a pixel even where nothing was drawn.
pub proof fn free_crops_are_cut_to_the_image(drawn: CropRect, width: u32, height: u32)
    requires
        width >= 1,
        height >= 1,
        drawn.width >= 1,
        drawn.height >= 1,
    ensures
        ({
            let crop = normalized(drawn, width, height, CropRatio::Free);
            &&& crop.width <= drawn.width
            &&& crop.height <= drawn.height
            &&& crop.width == drawn.width || crop.x + crop.width == width
            &&& crop.height == drawn.height || crop.y + crop.height == height
        }),
{
}

/// With a fixed ratio a crop is as wide as it was drawn, whatever its height,
/// wherever the image has room for the height that goes with it.
pub proof fn crops_keep_the_width_drawn(
    drawn: CropRect,
    width: u32,
    height: u32,
    ratio: CropRatio,
    k: int,
)
    requires
        k >= 1,
        drawn.x + drawn.width <= width,
        ({
            ||| ratio == CropRatio::Square && drawn.width == k && drawn.y + k <= height
            ||| ratio == CropRatio::FourThree && drawn.width == 4 * k && drawn.y + 3 * k <= height
            ||| ratio == CropRatio::ThreeTwo && drawn.width == 3 * k && drawn.y + 2 * k <= height
            ||| ratio == CropRatio::SixteenNine && drawn.width == 16 * k && drawn.y + 9 * k
                <= height
        }),
    ensures
        normalized(drawn, width, height, ratio).width == drawn.width,
{
    let (across, down): (int, int) = match ratio {
        CropRatio::FourThree => (4, 3),
        CropRatio::ThreeTwo => (3, 2),
        CropRatio::SixteenNine => (16, 9),
        _ => (1, 1),
    };
    lemma_whole_rounds(down * k, across);
    lemma_whole_rounds(across * k, down);
}

proof fn lemma_rounded_near(n: int, d: int)
    requires
        d > 0,
    ensures
        2 * (d * rounded(n, d)) <= 2 * n + d < 2 * (d * rounded(n, d)) + 2 * d,
{
    let (top, bottom) = (2 * n + d, 2 * d);
    assert(bottom * (top / bottom) <= top < bottom * (top / bottom) + bottom) by (nonlinear_arith)
        requires
            bottom > 0,
    ;
    let r = rounded(n, d);
    assert(bottom * r == 2 * (d * r)) by (nonlinear_arith)
        requires
            bottom == 2 * d,
    ;
}

/// With a fixed ratio a crop has the proportion that its name gives, up to the
/// rounding to whole pixels.
pub proof fn crops_have_the_proportion_asked_for(
    drawn: CropRect,
    width: u32,
    height: u32,
    ratio: CropRatio,
)
    requires
        width >= 1,
        height >= 1,
    ensures
        ({
            let crop = normalized(drawn, width, height, ratio);
            &&& ratio == CropRatio::Square ==> crop.width == crop.height
            &&& ratio == CropRatio::FourThree ==> -4 <= 3 * crop.width - 4 * crop.height <= 3
            &&& ratio == CropRatio::ThreeTwo ==> -3 <= 2 * crop.width - 3 * crop.height <= 2
            &&& ratio == CropRatio::SixteenNine ==> -16 <= 9 * crop.width - 16 * crop.height <= 9
        }),
{
    let x = if drawn.x < width { drawn.x as int } else { width - 1 };
    let y = if drawn.y < height { drawn.y as int } else { height - 1 };
    let across = clamped(drawn.width as int, width - x);
    assert(1 <= across <= width - x);
    let most = height - y;
    if ratio == CropRatio::Square {
        lemma_rounded_near(across * 1, 1);
        let high = clamped(rounded(across * 1, 1), most);
        lemma_rounded_near(high * 1, 1);
    } else if ratio == CropRatio::FourThree {
        lemma_rounded_near(across * 3, 4);
        let high = clamped(rounded(across * 3, 4), most);
        lemma_rounded_near(high * 4, 3);
    } else if ratio == CropRatio::ThreeTwo {
        lemma_rounded_near(across * 2, 3);
        let high = clamped(rounded(across * 2, 3), most);
        lemma_rounded_near(high * 3, 2);
    } else if ratio == CropRatio::SixteenNine {
        lemma_rounded_near(across * 9, 16);
        let high = clamped(rounded(across * 9, 16), most);
        lemma_rounded_near(high * 16, 9);
    }
}

/// A first crop without a ratio is nine tenths of the image in each direction, up
/// to the rounding to whole pixels, and stands in its middle: what is left on its
/// two sides differs by no more than a pixel.
pub proof fn first_crops_stand_in_the_middle(width: u32, height: u32)
    requires
        width >= 1,
        height >= 1,
    ensures
        ({
            let crop = nine_tenths(width, height);
            &&& -5 <= 10 * crop.width - 9 * width <= 5
            &&& -5 <= 10 * crop.height - 9 * height <= 5
            &&& 0 <= width - 2 * crop.x - crop.width <= 1
            &&& 0 <= height - 2 * crop.y - crop.height <= 1
        }),
{
    assert(rounded(9 * width, 10) == (18 * width + 10) / 20);
    assert(rounded(9 * height, 10) == (18 * height + 10) / 20);
}

/// All ratios are offered, each once: the photo's own first, then the fixed ones
/// from the narrowest to the widest, and last the free one.
pub proof fn all_ratios_are_offered(ratio: CropRatio)
    ensures
        exists|i: int| 0 <= i < CROP_RATIO_COUNT && #[trigger] ratio_at(i) == ratio,
        forall|i: int, j: int|
            0 <= i < j < CROP_RATIO_COUNT ==> #[trigger] ratio_at(i) != #[trigger] ratio_at(j),
        ratio_at(0) == CropRatio::Source,
        ratio_at(CROP_RATIO_COUNT - 1) == CropRatio::Free,
        forall|i: int, j: int|
            0 < i < j < CROP_RATIO_COUNT - 1 ==> {
                let (a, b) = (fixed_aspect(#[trigger] ratio_at(i)), fixed_aspect(
                    #[trigger] ratio_at(j),
                ));
                a is Some && b is Some && a->0.width * b->0.height < b->0.width * a->0.height
            },
{
    assert(ratio_at(0) == CropRatio::Source && ratio_at(1) == CropRatio::Square && ratio_at(2)
        == CropRatio::FourThree && ratio_at(3) == CropRatio::ThreeTwo && ratio_at(4)
        == CropRatio::SixteenNine && ratio_at(5) == CropRatio::Free);
    assert forall|i: int, j: int| 0 < i < j < CROP_RATIO_COUNT - 1 implies {
        let (a, b) = (fixed_aspect(#[trigger] ratio_at(i)), fixed_aspect(#[trigger] ratio_at(j)));
        a is Some && b is Some && a->0.width * b->0.height < b->0.width * a->0.height
    } by {
        let (a, b) = (fixed_aspect(ratio_at(i))->0, fixed_aspect(ratio_at(j))->0);
        let (w, h, v, u) = (a.width as int, a.height as int, b.width as int, b.height as int);
        assert(w * u < v * h) by (nonlinear_arith)
            requires
                w == 1 && h == 1 && (v == 4 && u == 3 || v == 3 && u == 2 || v == 16 && u == 9)
                    || w == 4 && h == 3 && (v == 3 && u == 2 || v == 16 && u == 9) || w == 3 && h
                    == 2 && v == 16 && u == 9,
        ;
    }
}

/// A ratio gives the whole photo where it is the photo's own, and the middle of
/// the photo where it is fixed; the free one gives nothing.
pub proof fn ratios_give_their_part(
    ratio: CropRatio,
    width: u32,
    height: u32,
    centered: Option<CropRect>,
)
    ensures
        ratio == CropRatio::Source ==> (ratio_rect(ratio, width, height, centered) matches Some(
            rect,
        ) && rect.x == 0 && rect.y == 0 && rect.width == width && rect.height == height),
        ratio == CropRatio::Free ==> ratio_rect(ratio, width, height, centered) is None,
        fixed_aspect(ratio) is Some ==> ratio_rect(ratio, width, height, centered) == centered,
        fixed_aspect(ratio) is Some <==> ratio != CropRatio::Source && ratio != CropRatio::Free,
{
}

} // verus!
