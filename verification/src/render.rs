//! Picture formats, colors, transforms and layout of the preview windows.
use vstd::prelude::*;

verus! {

/// Height of the title strip of a preview.
pub const TITLE_STRIP_HEIGHT: u16 = 24;

/// Width of the border around a preview's thumbnail.
pub const BORDER_WIDTH: u16 = 3;

/// Left padding of the title text.
pub const TITLE_TEXT_LEFT_PAD: i16 = 10;

pub const LIST_WIDTH: u16 = 220;

pub const LIST_BORDER: u16 = 2;

pub const LIST_TITLE_STRIP_HEIGHT: u16 = 44;

pub const LIST_ROW_HEIGHT: u16 = 22;

pub const LIST_ROW_LEFT_PAD: i16 = 16;

pub const LIST_ROW_RIGHT_PAD: i16 = 16;

pub const LIST_ROW_TOP_PAD: i16 = 14;

pub const LIST_BOTTOM_PAD: u16 = 12;

/// One in signed 16.16 fixed-point numbers.
pub const XFIXED_ONE: i32 = 0x10000;

/// A color with 16 bits per channel.
#[derive(Debug, Clone, Copy, PartialEq, Eq, Structural)]
pub struct RenderColor {
    pub red: u16,
    pub green: u16,
    pub blue: u16,
    pub alpha: u16,
}

/// Widens a color of 8 bits per channel, so that each channel's largest value
/// becomes the largest again.
pub fn xcolor(rgb: (u8, u8, u8), alpha: u16) -> (r: RenderColor)
    ensures
        r.red == rgb.0 * 257,
        r.green == rgb.1 * 257,
        r.blue == rgb.2 * 257,
        r.alpha == alpha,
{
    RenderColor {
        red: rgb.0 as u16 * 257,
        green: rgb.1 as u16 * 257,
        blue: rgb.2 as u16 * 257,
        alpha,
    }
}

/// A length without `chrome` pixels, at least 1.
pub open spec fn inner(length: int, chrome: int) -> int {
    if length - chrome >= 1 {
        length - chrome
    } else {
        1
    }
}

/// Width and height of the thumbnail area within a preview window: without
/// the title strip at the top and the border on the other sides, and never
/// empty.
pub fn thumbnail_size(window_w: u16, window_h: u16) -> (r: (u16, u16))
    ensures
        r.0 == inner(window_w as int, BORDER_WIDTH * 2),
        r.1 == inner(window_h as int, TITLE_STRIP_HEIGHT + BORDER_WIDTH),
{
    let w: u16 = if window_w > BORDER_WIDTH * 2 {
        window_w - BORDER_WIDTH * 2
    } else {
        1
    };
    let h: u16 = if window_h > TITLE_STRIP_HEIGHT + BORDER_WIDTH {
        window_h - (TITLE_STRIP_HEIGHT + BORDER_WIDTH)
    } else {
        1
    };
    (w, h)
}

/// The number of source pixels per thumbnail pixel, as a 16.16 fixed-point
/// number, rounded down and no larger than such a number can be.
pub fn scale_factor(source: u16, thumb: u16) -> (r: i32)
    requires
        thumb > 0,
    ensures
        r == (if source * 65536 / thumb as int <= i32::MAX {
            source * 65536 / thumb as int
        } else {
            i32::MAX as int
        }),
{
    let q: u64 = source as u64 * 65536 / thumb as u64;
    if q <= i32::MAX as u64 {
        q as i32
    } else {
        i32::MAX
    }
}

/// The transform that samples the whole source for the thumbnail: the factors
/// of the two axes.
pub fn scale_transform(source_w: u16, source_h: u16, window_w: u16, window_h: u16) -> (r: (
    i32,
    i32,
))
    ensures
        ({
            let tw = inner(window_w as int, BORDER_WIDTH * 2);
            let th = inner(window_h as int, TITLE_STRIP_HEIGHT + BORDER_WIDTH);
            &&& r.0 == (if source_w * 65536 / tw <= i32::MAX {
                source_w * 65536 / tw
            } else {
                i32::MAX as int
            })
            &&& r.1 == (if source_h * 65536 / th <= i32::MAX {
                source_h * 65536 / th
            } else {
                i32::MAX as int
            })
        }),
{
    let (tw, th): (u16, u16) = thumbnail_size(window_w, window_h);
    (scale_factor(source_w, tw), scale_factor(source_h, th))
}

/// The value of `percent` percent of full opacity.
pub open spec fn opacity_cardinal(percent: u32) -> int {
    (if percent <= 100 {
        percent as int
    } else {
        100
    }) * u32::MAX / 100
}

/// Maps an opacity percentage to the cardinal that compositors take: 0 is
/// fully transparent, the largest value fully opaque.
pub fn opacity_to_cardinal(percent: u32) -> (r: u32)
    ensures
        r == opacity_cardinal(percent),
{
    let p: u64 = if percent <= 100 {
        percent as u64
    } else {
        100
    };
    (p * u32::MAX as u64 / 100) as u32
}

/// A higher percentage is never less opaque, 100 and more is fully opaque and
/// 0 fully transparent.
pub proof fn law_opacity_is_monotone(a: u32, b: u32)
    requires
        a <= b,
    ensures
        0 <= opacity_cardinal(a) <= opacity_cardinal(b) <= u32::MAX,
        b >= 100 ==> opacity_cardinal(b) == u32::MAX,
        a == 0 ==> opacity_cardinal(a) == 0,
        a < b && b <= 100 ==> opacity_cardinal(a) < opacity_cardinal(b),
{
}

/// The kind of a picture format.
#[derive(Debug, Clone, Copy, PartialEq, Eq, Structural)]
pub enum PictType {
    Indexed,
    Direct,
}

/// Where the channels of a direct format are, and how wide.
#[derive(Debug, Clone, Copy, PartialEq, Eq, Structural)]
pub struct Directformat {
    pub red_shift: u16,
    pub red_mask: u16,
    pub green_shift: u16,
    pub green_mask: u16,
    pub blue_shift: u16,
    pub blue_mask: u16,
    pub alpha_shift: u16,
    pub alpha_mask: u16,
}

/// A picture format.
#[derive(Debug, Clone, Copy, PartialEq, Eq, Structural)]
pub struct Pictforminfo {
    pub id: u32,
    pub type_: PictType,
    pub depth: u8,
    pub direct: Directformat,
    pub colormap: u32,
}

/// The format of a visual.
#[derive(Debug, Clone, Copy, PartialEq, Eq, Structural)]
pub struct Pictvisual {
    pub visual: u32,
    pub format: u32,
}

/// The visuals of a depth.
#[derive(Debug)]
pub struct Pictdepth {
    pub depth: u8,
    pub visuals: Vec<Pictvisual>,
}

/// The depths of a screen.
#[derive(Debug)]
pub struct Pictscreen {
    pub depths: Vec<Pictdepth>,
    pub fallback: u32,
}

/// What a display server says of its picture formats.
#[derive(Debug)]
pub struct QueryPictFormatsReply {
    pub formats: Vec<Pictforminfo>,
    pub screens: Vec<Pictscreen>,
}

/// The format of the first of the visuals with this identifier.
pub open spec fn visual_format(vs: Seq<Pictvisual>, visual_id: u32) -> Option<u32>
    decreases vs.len(),
{
    if vs.len() == 0 {
        None
    } else if vs[0].visual == visual_id {
        Some(vs[0].format)
    } else {
        visual_format(vs.skip(1), visual_id)
    }
}

/// The first format that a depth of the right number gives.
pub open spec fn depth_format(ds: Seq<Pictdepth>, visual_id: u32, depth: u8) -> Option<u32>
    decreases ds.len(),
{
    if ds.len() == 0 {
        None
    } else if ds[0].depth == depth && visual_format(ds[0].visuals@, visual_id) is Some {
        visual_format(ds[0].visuals@, visual_id)
    } else {
        depth_format(ds.skip(1), visual_id, depth)
    }
}

/// The first format that a screen gives.
pub open spec fn screen_format(ss: Seq<Pictscreen>, visual_id: u32, depth: u8) -> Option<u32>
    decreases ss.len(),
{
    if ss.len() == 0 {
        None
    } else if depth_format(ss[0].depths@, visual_id, depth) is Some {
        depth_format(ss[0].depths@, visual_id, depth)
    } else {
        screen_format(ss.skip(1), visual_id, depth)
    }
}

fn find_visual(vs: &Vec<Pictvisual>, visual_id: u32) -> (r: Option<u32>)
    ensures
        r == visual_format(vs@, visual_id),
{
    let mut i: usize = 0;
    assert(vs@.skip(0) == vs@);
    while i < vs.len()
        invariant
            i <= vs.len(),
            visual_format(vs@, visual_id) == visual_format(vs@.skip(i as int), visual_id),
        decreases vs.len() - i,
    {
        assert(vs@.skip(i as int).skip(1) == vs@.skip(i + 1));
        if vs[i].visual == visual_id {
            return Some(vs[i].format);
        }
        i = i + 1;
    }
    None
}

fn find_depth(ds: &Vec<Pictdepth>, visual_id: u32, depth: u8) -> (r: Option<u32>)
    ensures
        r == depth_format(ds@, visual_id, depth),
{
    let mut i: usize = 0;
    assert(ds@.skip(0) == ds@);
    while i < ds.len()
        invariant
            i <= ds.len(),
            depth_format(ds@, visual_id, depth) == depth_format(
                ds@.skip(i as int),
                visual_id,
                depth,
            ),
        decreases ds.len() - i,
    {
        assert(ds@.skip(i as int).skip(1) == ds@.skip(i + 1));
        if ds[i].depth == depth {
            if let Some(f) = find_visual(&ds[i].visuals, visual_id) {
                return Some(f);
            }
        }
        i = i + 1;
    }
    None
}

/// Finds the picture format of a visual at a depth.
pub fn pick_visual_format(reply: &QueryPictFormatsReply, visual_id: u32, depth: u8) -> (r: Option<
    u32,
>)
    ensures
        r == screen_format(reply.screens@, visual_id, depth),
{
    let ss: &Vec<Pictscreen> = &reply.screens;
    let mut i: usize = 0;
    assert(ss@.skip(0) == ss@);
    while i < ss.len()
        invariant
            i <= ss.len(),
            *ss == reply.screens,
            screen_format(ss@, visual_id, depth) == screen_format(
                ss@.skip(i as int),
                visual_id,
                depth,
            ),
        decreases ss.len() - i,
    {
        assert(ss@.skip(i as int).skip(1) == ss@.skip(i + 1));
        if let Some(f) = find_depth(&ss[i].depths, visual_id, depth) {
            return Some(f);
        }
        i = i + 1;
    }
    None
}

/// Whether a format is the standard one with 8 bits each of alpha, red, green
/// and blue, from the top.
pub open spec fn is_argb32(f: Pictforminfo) -> bool {
    &&& f.type_ == PictType::Direct
    &&& f.depth == 32
    &&& f.direct.alpha_mask == 0xff
    &&& f.direct.red_mask == 0xff
    &&& f.direct.green_mask == 0xff
    &&& f.direct.blue_mask == 0xff
    &&& f.direct.alpha_shift == 24
    &&& f.direct.red_shift == 16
    &&& f.direct.green_shift == 8
    &&& f.direct.blue_shift == 0
}

/// The first standard format.
pub open spec fn argb32_format(fs: Seq<Pictforminfo>) -> Option<u32>
    decreases fs.len(),
{
    if fs.len() == 0 {
        None
    } else if is_argb32(fs[0]) {
        Some(fs[0].id)
    } else {
        argb32_format(fs.skip(1))
    }
}

/// Finds the standard format with alpha.
pub fn pick_argb32_format(reply: &QueryPictFormatsReply) -> (r: Option<u32>)
    ensures
        r == argb32_format(reply.formats@),
{
    let fs: &Vec<Pictforminfo> = &reply.formats;
    let mut i: usize = 0;
    assert(fs@.skip(0) == fs@);
    while i < fs.len()
        invariant
            i <= fs.len(),
            *fs == reply.formats,
            argb32_format(fs@) == argb32_format(fs@.skip(i as int)),
        decreases fs.len() - i,
    {
        assert(fs@.skip(i as int).skip(1) == fs@.skip(i + 1));
        let f: Pictforminfo = fs[i];
        if f.type_ == PictType::Direct && f.depth == 32 && f.direct.alpha_mask == 0xff
            && f.direct.red_mask == 0xff && f.direct.green_mask == 0xff && f.direct.blue_mask
            == 0xff && f.direct.alpha_shift == 24 && f.direct.red_shift == 16
            && f.direct.green_shift == 8 && f.direct.blue_shift == 0 {
            return Some(f.id);
        }
        i = i + 1;
    }
    None
}

/// Adds a glyph's coverage of one pixel to a text image of `width` by
/// `height` pixels, row by row. Where glyphs overlap the larger coverage
/// counts; pixels outside the image are left out.
pub fn blend_coverage(buf: &mut Vec<u8>, width: u16, height: u16, x: i32, y: i32, coverage: u8)
    requires
        old(buf)@.len() == width * height,
    ensures
        final(buf)@ == (if 0 <= x < width && 0 <= y < height && coverage > old(buf)@[y * width + x] {
            old(buf)@.update(y * width + x, coverage)
        } else {
            old(buf)@
        }),
{
    if x < 0 || y < 0 || x >= width as i32 || y >= height as i32 {
        return;
    }
    proof {
        assert(0 <= y * width + x < width * height) by (nonlinear_arith)
            requires
                0 <= x < width,
                0 <= y < height,
        ;
        assert(width * height <= 65535 * 65535) by (nonlinear_arith)
            requires
                0 <= width <= 65535,
                0 <= height <= 65535,
        ;
        assert(0 <= y * width) by (nonlinear_arith)
            requires
                0 <= y,
                0 <= width,
        ;
    }
    let at: u64 = y as u64 * width as u64 + x as u64;
    let i: usize = at as usize;
    if coverage > buf[i] {
        buf.set(i, coverage);
    }
}

/// A color channel under a coverage: multiplied, then shifted by 8 bits.
pub open spec fn premultiplied(channel: u8, coverage: u8) -> u8 {
    (channel * coverage / 256) as u8
}

fn premultiply(channel: u8, coverage: u8) -> (r: u8)
    ensures
        r == premultiplied(channel, coverage),
{
    assert(channel * coverage <= 255 * 255) by (nonlinear_arith)
        requires
            0 <= channel <= 255,
            0 <= coverage <= 255,
    ;
    (channel as u16 * coverage as u16 / 256) as u8
}

/// The bytes of a colored text image, blue, green, red and alpha for each
/// pixel, with the color multiplied by the coverage.
pub fn text_pixels(coverage: &Vec<u8>, color: (u8, u8, u8)) -> (r: Vec<u8>)
    requires
        coverage@.len() * 4 <= usize::MAX,
    ensures
        r@.len() == coverage@.len() * 4,
        forall|i: int|
            0 <= i < coverage@.len() ==> {
                &&& r@[4 * i] == premultiplied(color.2, #[trigger] coverage@[i])
                &&& r@[4 * i + 1] == premultiplied(color.1, coverage@[i])
                &&& r@[4 * i + 2] == premultiplied(color.0, coverage@[i])
                &&& r@[4 * i + 3] == coverage@[i]
            },
{
    let mut out: Vec<u8> = Vec::new();
    let mut i: usize = 0;
    while i < coverage.len()
        invariant
            i <= coverage.len(),
            out@.len() == i * 4,
            forall|k: int|
                0 <= k < i ==> {
                    &&& out@[4 * k] == premultiplied(color.2, #[trigger] coverage@[k])
                    &&& out@[4 * k + 1] == premultiplied(color.1, coverage@[k])
                    &&& out@[4 * k + 2] == premultiplied(color.0, coverage@[k])
                    &&& out@[4 * k + 3] == coverage@[k]
                },
        decreases coverage.len() - i,
    {
        let a: u8 = coverage[i];
        out.push(premultiply(color.2, a));
        out.push(premultiply(color.1, a));
        out.push(premultiply(color.0, a));
        out.push(a);
        i = i + 1;
    }
    out
}

/// A rectangle within a window.
#[derive(Debug, Clone, Copy, PartialEq, Eq, Structural)]
pub struct XRect {
    pub x: i16,
    pub y: i16,
    pub width: u16,
    pub height: u16,
}

/// The chrome of a preview: the title strip over the whole width, and the
/// left, right and bottom borders around the thumbnail.
pub fn chrome_rects(width: u16, height: u16) -> (r: Vec<XRect>)
    requires
        BORDER_WIDTH <= width,
        TITLE_STRIP_HEIGHT <= height,
    ensures
        r@ == seq![
            XRect { x: 0, y: 0, width, height: TITLE_STRIP_HEIGHT },
            XRect {
                x: 0,
                y: 24,
                width: BORDER_WIDTH,
                height: (height - TITLE_STRIP_HEIGHT) as u16,
            },
            XRect {
                x: ((width - BORDER_WIDTH) as u16) as i16,
                y: 24,
                width: BORDER_WIDTH,
                height: (height - TITLE_STRIP_HEIGHT) as u16,
            },
            XRect {
                x: 0,
                y: ((height - BORDER_WIDTH) as u16) as i16,
                width,
                height: BORDER_WIDTH,
            },
        ],
{
    let mut out: Vec<XRect> = Vec::new();
    out.push(XRect { x: 0, y: 0, width, height: TITLE_STRIP_HEIGHT });
    out.push(XRect { x: 0, y: 24, width: BORDER_WIDTH, height: height - TITLE_STRIP_HEIGHT });
    out.push(
        XRect {
            x: #[verifier::truncate]
            ((width - BORDER_WIDTH) as i16),
            y: 24,
            width: BORDER_WIDTH,
            height: height - TITLE_STRIP_HEIGHT,
        },
    );
    out.push(
        XRect {
            x: 0,
            y: #[verifier::truncate]
            ((height - BORDER_WIDTH) as i16),
            width,
            height: BORDER_WIDTH,
        },
    );
    out
}

/// Half of a number, rounded toward zero.
pub open spec fn half(n: int) -> int {
    if n >= 0 {
        n / 2
    } else {
        -((-n) / 2)
    }
}

pub open spec fn at_least_zero(n: int) -> int {
    if n >= 0 {
        n
    } else {
        0
    }
}

/// The top of the title text in its strip: centered, but not above the
/// window.
pub fn title_text_top(text_h: u16) -> (r: i16)
    ensures
        r == at_least_zero(half(TITLE_STRIP_HEIGHT - text_h)),
{
    if text_h <= TITLE_STRIP_HEIGHT {
        ((TITLE_STRIP_HEIGHT - text_h) / 2) as i16
    } else {
        0
    }
}

/// The number of rows of the list: one where there are no clients. Only its
/// lower 16 bits count.
pub open spec fn list_rows(num_clients: usize) -> int {
    (if num_clients == 0 {
        1
    } else {
        num_clients as int
    }) % 65536
}

/// The height of the list window: borders, title strip, gap, rows and bottom
/// padding.
pub open spec fn list_height(num_clients: usize) -> int {
    LIST_BORDER * 2 + LIST_TITLE_STRIP_HEIGHT + LIST_ROW_TOP_PAD + list_rows(num_clients)
        * LIST_ROW_HEIGHT + LIST_BOTTOM_PAD
}

pub fn list_window_height(num_clients: usize) -> (r: u16)
    requires
        list_height(num_clients) <= u16::MAX,
    ensures
        r == list_height(num_clients),
{
    let n: usize = if num_clients == 0 {
        1
    } else {
        num_clients
    };
    let rows: u32 = (n % 65536) as u32;
    let height: u32 = 74 + rows * 22;
    height as u16
}

/// Where things go in the list window.
#[derive(Debug, Clone, Copy, PartialEq, Eq, Structural)]
pub struct ListLayout {
    pub outer: XRect,
    pub body: XRect,
    pub strip: XRect,
    pub title_x: i16,
    pub title_y: i16,
    pub row_x: i16,
    pub first_row_y: i16,
    pub max_text_w: u16,
}

/// Lays out the list window: a border, the title strip inside it with the
/// title a little below its middle, and the rows under it.
pub fn list_layout(width: u16, height: u16, title_w: u16, title_h: u16) -> (r: ListLayout)
    requires
        LIST_BORDER * 2 <= width <= i16::MAX,
        LIST_BORDER * 2 <= height,
        title_w <= i16::MAX,
        title_h <= i16::MAX,
    ensures
        r.outer == (XRect { x: 0, y: 0, width, height }),
        r.body == (XRect {
            x: 2,
            y: 2,
            width: (width - LIST_BORDER * 2) as u16,
            height: (height - LIST_BORDER * 2) as u16,
        }),
        r.strip == (XRect {
            x: 2,
            y: 2,
            width: (width - LIST_BORDER * 2) as u16,
            height: LIST_TITLE_STRIP_HEIGHT,
        }),
        r.title_x == at_least_zero(half(width - title_w)),
        r.title_y == at_least_zero(LIST_BORDER + half(LIST_TITLE_STRIP_HEIGHT - title_h) + 3),
        r.row_x == LIST_BORDER + LIST_ROW_LEFT_PAD,
        r.first_row_y == LIST_BORDER + LIST_TITLE_STRIP_HEIGHT + LIST_ROW_TOP_PAD,
        r.max_text_w == at_least_zero(
            width - LIST_BORDER * 2 - LIST_ROW_LEFT_PAD - LIST_ROW_RIGHT_PAD,
        ),
{
    let title_x: i16 = if title_w <= width {
        ((width - title_w) / 2) as i16
    } else {
        0
    };
    let title_y: i16 = if title_h <= LIST_TITLE_STRIP_HEIGHT {
        ((LIST_TITLE_STRIP_HEIGHT - title_h) / 2) as i16 + 5
    } else {
        let above: u16 = (title_h - LIST_TITLE_STRIP_HEIGHT) / 2;
        if above <= 5 {
            (5 - above) as i16
        } else {
            0
        }
    };
    ListLayout {
        outer: XRect { x: 0, y: 0, width, height },
        body: XRect { x: 2, y: 2, width: width - LIST_BORDER * 2, height: height - LIST_BORDER * 2 },
        strip: XRect {
            x: 2,
            y: 2,
            width: width - LIST_BORDER * 2,
            height: LIST_TITLE_STRIP_HEIGHT,
        },
        title_x,
        title_y,
        row_x: 18,
        first_row_y: 60,
        max_text_w: if width >= 36 {
            width - 36
        } else {
            0
        },
    }
}

/// The top of row `k` of the list.
pub fn row_top(k: usize) -> (r: i16)
    requires
        60 + k * LIST_ROW_HEIGHT <= i16::MAX,
    ensures
        r == LIST_BORDER + LIST_TITLE_STRIP_HEIGHT + LIST_ROW_TOP_PAD + k * LIST_ROW_HEIGHT,
{
    (60 + k * 22) as i16
}

/// How much of a row's text is drawn.
pub fn row_text_width(text_w: u16, max_text_w: u16) -> (r: u16)
    ensures
        r == (if text_w <= max_text_w {
            text_w
        } else {
            max_text_w
        }),
{
    if text_w <= max_text_w {
        text_w
    } else {
        max_text_w
    }
}

/// The picture keeps at least one pixel; where there is room it is as large as
/// what the chrome leaves.
pub proof fn law_chrome_leaves_the_rest(length: int, chrome: int)
    ensures
        inner(length, chrome) >= 1,
        length > chrome ==> inner(length, chrome) + chrome == length,
        length <= chrome ==> inner(length, chrome) == 1,
{
}

/// The format of a visual is that of the first entry for it.
pub proof fn law_first_entry_of_the_visual_counts(vs: Seq<Pictvisual>, visual_id: u32, i: int)
    requires
        forall|k: int| 0 <= k < vs.len() && k < i ==> (#[trigger] vs[k]).visual != visual_id,
        i < vs.len() ==> 0 <= i && vs[i].visual == visual_id,
    ensures
        visual_format(vs, visual_id) == (if i < vs.len() {
            Some(vs[i].format)
        } else {
            None
        }),
    decreases vs.len(),
{
    if vs.len() > 0 && i != 0 {
        assert(vs[0].visual != visual_id);
        let rest = vs.skip(1);
        assert forall|k: int| 0 <= k < rest.len() && k < i - 1 implies (#[trigger] rest[k]).visual
            != visual_id by {
            assert(rest[k] == vs[k + 1]);
        }
        law_first_entry_of_the_visual_counts(rest, visual_id, i - 1);
    }
}

/// A format that is picked stands under the visual, in a depth of the wanted
/// number, on one of the screens.
pub proof fn law_picked_format_is_the_visuals(
    ss: Seq<Pictscreen>,
    visual_id: u32,
    depth: u8,
) -> (at: (int, int, int))
    ensures
        match screen_format(ss, visual_id, depth) {
            Some(f) => {
                &&& 0 <= at.0 < ss.len()
                &&& 0 <= at.1 < ss[at.0].depths@.len()
                &&& ss[at.0].depths@[at.1].depth == depth
                &&& 0 <= at.2 < ss[at.0].depths@[at.1].visuals@.len()
                &&& ss[at.0].depths@[at.1].visuals@[at.2].visual == visual_id
                &&& ss[at.0].depths@[at.1].visuals@[at.2].format == f
            },
            None => forall|i: int, j: int, k: int|
                0 <= i < ss.len() && 0 <= j < ss[i].depths@.len() && ss[i].depths@[j].depth == depth
                    && 0 <= k < ss[i].depths@[j].visuals@.len() ==> (
                #[trigger] ss[i].depths@[j].visuals@[k]).visual != visual_id,
        },
    decreases ss.len(),
{
    if ss.len() == 0 {
        (0, 0, 0)
    } else {
        let inner = lemma_depth_format(ss[0].depths@, visual_id, depth);
        if depth_format(ss[0].depths@, visual_id, depth) is Some {
            (0, inner.0, inner.1)
        } else {
            let rest = ss.skip(1);
            let at = law_picked_format_is_the_visuals(rest, visual_id, depth);
            if screen_format(rest, visual_id, depth) is Some {
                assert(rest[at.0] == ss[at.0 + 1]);
            } else {
                assert forall|i: int, j: int, k: int|
                    0 <= i < ss.len() && 0 <= j < ss[i].depths@.len() && ss[i].depths@[j].depth
                        == depth && 0 <= k < ss[i].depths@[j].visuals@.len() implies (
                #[trigger] ss[i].depths@[j].visuals@[k]).visual != visual_id by {
                    if i > 0 {
                        assert(rest[i - 1] == ss[i]);
                        assert(rest[i - 1].depths@[j].visuals@[k].visual != visual_id);
                    }
                }
            }
            (at.0 + 1, at.1, at.2)
        }
    }
}

proof fn lemma_visual_format(vs: Seq<Pictvisual>, visual_id: u32) -> (k: int)
    ensures
        match visual_format(vs, visual_id) {
            Some(f) => 0 <= k < vs.len() && vs[k].visual == visual_id && vs[k].format == f,
            None => forall|k: int| 0 <= k < vs.len() ==> (#[trigger] vs[k]).visual != visual_id,
        },
    decreases vs.len(),
{
    if vs.len() == 0 || vs[0].visual == visual_id {
        0
    } else {
        let rest = vs.skip(1);
        let k = lemma_visual_format(rest, visual_id);
        if visual_format(rest, visual_id) is None {
            assert forall|k: int| 0 <= k < vs.len() implies (#[trigger] vs[k]).visual
                != visual_id by {
                if k > 0 {
                    assert(rest[k - 1] == vs[k]);
                }
            }
        }
        k + 1
    }
}

proof fn lemma_depth_format(ds: Seq<Pictdepth>, visual_id: u32, depth: u8) -> (at: (int, int))
    ensures
        match depth_format(ds, visual_id, depth) {
            Some(f) => {
                &&& 0 <= at.0 < ds.len()
                &&& ds[at.0].depth == depth
                &&& 0 <= at.1 < ds[at.0].visuals@.len()
                &&& ds[at.0].visuals@[at.1].visual == visual_id
                &&& ds[at.0].visuals@[at.1].format == f
            },
            None => forall|j: int, k: int|
                0 <= j < ds.len() && ds[j].depth == depth && 0 <= k < ds[j].visuals@.len() ==> (
                #[trigger] ds[j].visuals@[k]).visual != visual_id,
        },
    decreases ds.len(),
{
    if ds.len() == 0 {
        (0, 0)
    } else {
        let k = lemma_visual_format(ds[0].visuals@, visual_id);
        if ds[0].depth == depth && visual_format(ds[0].visuals@, visual_id) is Some {
            (0, k)
        } else {
            let rest = ds.skip(1);
            let at = lemma_depth_format(rest, visual_id, depth);
            if depth_format(rest, visual_id, depth) is Some {
                assert(rest[at.0] == ds[at.0 + 1]);
            } else {
                assert forall|j: int, k: int|
                    0 <= j < ds.len() && ds[j].depth == depth && 0 <= k
                        < ds[j].visuals@.len() implies (#[trigger] ds[j].visuals@[k]).visual
                    != visual_id by {
                    if j > 0 {
                        assert(rest[j - 1] == ds[j]);
                        assert(rest[j - 1].visuals@[k].visual != visual_id);
                    }
                }
            }
            (at.0 + 1, at.1)
        }
    }
}

/// The format with an alpha channel is the first direct one of 32 bits that
/// has eight for alpha, red, green and blue each, from the highest down.
pub proof fn law_first_argb32_format_is_picked(fs: Seq<Pictforminfo>) -> (i: int)
    ensures
        match argb32_format(fs) {
            Some(id) => {
                &&& 0 <= i < fs.len() && fs[i].id == id
                &&& fs[i].type_ == PictType::Direct && fs[i].depth == 32
                &&& fs[i].direct == (Directformat {
                    alpha_shift: 24,
                    alpha_mask: 255,
                    red_shift: 16,
                    red_mask: 255,
                    green_shift: 8,
                    green_mask: 255,
                    blue_shift: 0,
                    blue_mask: 255,
                })
                &&& forall|k: int| 0 <= k < i ==> !is_argb32(#[trigger] fs[k])
            },
            None => forall|k: int| 0 <= k < fs.len() ==> !is_argb32(#[trigger] fs[k]),
        },
        forall|k: int|
            0 <= k < fs.len() && (#[trigger] fs[k]).type_ == PictType::Direct && fs[k].depth == 32
                && fs[k].direct == (Directformat {
                alpha_shift: 24,
                alpha_mask: 255,
                red_shift: 16,
                red_mask: 255,
                green_shift: 8,
                green_mask: 255,
                blue_shift: 0,
                blue_mask: 255,
            }) ==> is_argb32(fs[k]),
    decreases fs.len(),
{
    if fs.len() == 0 || is_argb32(fs[0]) {
        0
    } else {
        let rest = fs.skip(1);
        let i = law_first_argb32_format_is_picked(rest);
        assert forall|k: int| 1 <= k < fs.len() implies #[trigger] fs[k] == rest[k - 1] by {}
        i + 1
    }
}

/// A channel is weakened in proportion to the coverage, rounded down, and is
/// never stronger than it was.
pub proof fn law_coverage_weakens_the_channel(channel: u8, coverage: u8)
    ensures
        premultiplied(channel, coverage) * 256 <= channel * coverage,
        channel * coverage < (premultiplied(channel, coverage) + 1) * 256,
        coverage == 0 ==> premultiplied(channel, coverage) == 0,
{
    assert(channel * coverage <= 255 * 255) by (nonlinear_arith)
        requires
            channel <= 255,
            coverage <= 255,
    ;
    assert(channel * coverage >= 0) by (nonlinear_arith)
        requires
            channel >= 0,
            coverage >= 0,
    ;
}

/// Half a number is rounded toward zero.
pub proof fn law_half_is_rounded_toward_zero(n: int)
    ensures
        half(-n) == -half(n),
        n >= 0 ==> 2 * half(n) == n || 2 * half(n) + 1 == n,
        at_least_zero(n) >= 0,
        n >= 0 ==> at_least_zero(n) == n,
        n < 0 ==> at_least_zero(n) == 0,
{
}

/// The list is 74 pixels high and 22 more for each client, and never has room
/// for fewer than one.
pub proof fn law_list_grows_by_a_row(num_clients: usize)
    requires
        num_clients < 65535,
    ensures
        list_height(0) == 96,
        list_height(1) == 96,
        num_clients >= 1 ==> list_height((num_clients + 1) as usize) == list_height(num_clients)
            + 22,
{
}

} // verus!
