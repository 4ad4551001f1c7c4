//! The scrollable list of paragraphs of the article view, and how much of it
//! fits on screen.

use vstd::prelude::*;
use vstd::utf8::encode_utf8;
use crate::paragraph::{
    Frame, LineModel, ParagraphData, ParagraphModel, StyledSpan, frame_view, lines_view,
    paragraphs_view, spans_view,
};
use vstd::string::StringSliceAdditionalSpecFns;

verus! {

/// The number of bytes of the text of line `l`.
pub open spec fn line_bytes(l: LineModel) -> nat
    decreases l.len(),
{
    if l.len() == 0 {
        0
    } else {
        encode_utf8(l[0].content).len() + line_bytes(l.skip(1))
    }
}

/// The rows a line takes when wrapped at `width` columns: its bytes divided by
/// the width, rounded up, and at least one.
pub open spec fn line_rows(l: LineModel, width: int) -> int {
    let r = (line_bytes(l) + width - 1) / width;
    if r < 1 {
        1
    } else {
        r
    }
}

/// `a + b`, or `usize::MAX` where that is larger.
pub open spec fn sat_add(a: int, b: int) -> int {
    if a + b > usize::MAX {
        usize::MAX as int
    } else {
        a + b
    }
}

/// The rows of the lines `ls` at `width` columns, counted on from `acc`.
pub open spec fn rows_from(ls: Seq<LineModel>, width: int, acc: int) -> int
    decreases ls.len(),
{
    if ls.len() == 0 {
        acc
    } else {
        rows_from(ls.skip(1), width, sat_add(acc, line_rows(ls[0], width)))
    }
}

/// The rows that the lines `ls` take at `width` columns (none at width 0),
/// kept to sixteen bits as the screen counts them.
pub open spec fn text_rows(ls: Seq<LineModel>, width: u16) -> u16 {
    if width == 0 {
        0
    } else {
        (rows_from(ls, width as int, 0) % 0x10000) as u16
    }
}

/// The rows of the frame of a paragraph: its top and bottom borders.
pub open spec fn frame_rows(p: ParagraphModel) -> u32 {
    if p.block is Some {
        2
    } else {
        0
    }
}

/// The rows that paragraph `p` takes at `width` columns, frame included.
pub open spec fn paragraph_rows(p: ParagraphModel, width: u16) -> u32 {
    let t = text_rows(p.lines, width) as u32;
    if t + frame_rows(p) > u32::MAX {
        u32::MAX
    } else {
        (t + frame_rows(p)) as u32
    }
}

/// Every line of `ls` has a byte count that the machine can hold, with room
/// for rounding up at any width.
pub open spec fn lines_measurable(ls: Seq<LineModel>) -> bool {
    forall|i: int| 0 <= i < ls.len() ==> line_bytes(#[trigger] ls[i]) + 0x10000 <= usize::MAX
}

/// Every paragraph of `ps` is measurable.
pub open spec fn paragraphs_measurable(ps: Seq<ParagraphModel>) -> bool {
    forall|i: int| 0 <= i < ps.len() ==> lines_measurable(#[trigger] ps[i].lines)
}

/// The part of one paragraph that is drawn: from which of its rows, how many,
/// and at which row of the area.
#[derive(Clone, Copy, Debug, PartialEq, Eq, Structural)]
pub struct DrawSlice {
    pub index: usize,
    pub skip: u16,
    pub rows: u16,
    pub y: u16,
}

/// The slices drawn of the paragraphs `ps[i..]`, at `width` columns in an area
/// of `height` rows, with `skip` rows still to scroll past and row `y` next.
pub open spec fn plan_from(
    ps: Seq<ParagraphModel>,
    i: int,
    width: u16,
    height: u16,
    skip: u32,
    y: u16,
) -> Seq<DrawSlice>
    decreases ps.len() - i,
{
    if i < 0 || i >= ps.len() {
        seq![]
    } else {
        let rows = paragraph_rows(ps[i], width);
        if skip >= rows {
            plan_from(ps, i + 1, width, height, (skip - rows) as u32, y)
        } else {
            let left = (rows - skip) as u32;
            let room = if y >= height {
                0u32
            } else {
                (height - y) as u32
            };
            if room == 0 {
                seq![]
            } else {
                let draw = (if left < room {
                    left
                } else {
                    room
                }) as u16;
                let slice = DrawSlice { index: i as usize, skip: (skip % 0x10000) as u16, rows: draw, y };
                let ny = if y + draw > u16::MAX {
                    u16::MAX
                } else {
                    (y + draw) as u16
                };
                if ny >= height {
                    seq![slice]
                } else {
                    seq![slice] + plan_from(ps, i + 1, width, height, 0, ny)
                }
            }
        }
    }
}

/// What is drawn of the paragraphs `ps` in an area of `area_width` by
/// `area_height`, scrolled by `scroll` rows: nothing at all where the area
/// leaves no column inside its two side borders or has no row.
pub open spec fn render_plan(
    ps: Seq<ParagraphModel>,
    scroll: usize,
    area_width: u16,
    area_height: u16,
) -> Option<Seq<DrawSlice>> {
    let width = if area_width >= 2 {
        (area_width - 2) as u16
    } else {
        0u16
    };
    if width == 0 || area_height == 0 {
        None
    } else {
        Some(plan_from(ps, 0, width, area_height, scroll as u32, 0))
    }
}

/// The number of bytes of the text of a line.
pub fn line_byte_len(l: &Vec<StyledSpan>) -> (n: usize)
    requires
        line_bytes(spans_view(l@)) <= usize::MAX,
    ensures
        n == line_bytes(spans_view(l@)),
{
    let ghost lv = spans_view(l@);
    let mut acc: usize = 0;
    let mut i: usize = 0;
    assert(lv.skip(0) =~= lv);
    while i < l.len()
        invariant
            i <= l.len(),
            lv == spans_view(l@),
            line_bytes(lv) <= usize::MAX,
            acc + line_bytes(lv.skip(i as int)) == line_bytes(lv),
        decreases l.len() - i,
    {
        assert(lv.skip(i as int)[0] == l@[i as int]@);
        assert(lv.skip(i as int).skip(1) =~= lv.skip(i + 1));
        let b = l[i].content.as_str().len();
        assert(b == encode_utf8(l@[i as int].content@).len());
        acc = acc + b;
        i = i + 1;
    }
    assert(lv.skip(l.len() as int) =~= Seq::<crate::paragraph::SpanModel>::empty());
    acc
}

/// The rows that the lines `text` take at `width` columns, as the article
/// view counts them.
pub fn measure_text_lines(text: &Vec<Vec<StyledSpan>>, width: u16) -> (n: u16)
    requires
        lines_measurable(lines_view(text@)),
    ensures
        n == text_rows(lines_view(text@), width),
{
    if width == 0 {
        return 0;
    }
    let ghost lv = lines_view(text@);
    let w = width as usize;
    let mut rows: usize = 0;
    let mut i: usize = 0;
    assert(lv.skip(0) =~= lv);
    while i < text.len()
        invariant
            i <= text.len(),
            w == width,
            w > 0,
            lv == lines_view(text@),
            lines_measurable(lv),
            rows_from(lv.skip(i as int), w as int, rows as int) == rows_from(lv, w as int, 0),
        decreases text.len() - i,
    {
        assert(lv.skip(i as int)[0] == spans_view(text@[i as int]@));
        assert(lv.skip(i as int).skip(1) =~= lv.skip(i + 1));
        assert(lines_measurable(lv) ==> line_bytes(lv[i as int]) + 0x10000 <= usize::MAX);
        assert(lv[i as int] == spans_view(text@[i as int]@));
        let len = line_byte_len(&text[i]);
        let wraps = (len + (w - 1)) / w;
        let r = if wraps < 1 {
            1
        } else {
            wraps
        };
        assert(r == line_rows(lv[i as int], w as int));
        rows = rows.saturating_add(r);
        i = i + 1;
    }
    assert(lv.skip(text.len() as int) =~= Seq::<LineModel>::empty());
    (rows % 0x10000) as u16
}

/// The rows of the frame of a paragraph: two with a frame, none without.
pub fn block_vertical_extra(block: &Option<Frame>) -> (n: u16)
    ensures
        n == (if block.is_some() {
            2u16
        } else {
            0u16
        }),
{
    if block.is_some() {
        2
    } else {
        0
    }
}

/// The slices drawn from row `y` on fill the area without gaps or overlap:
/// the first starts at `y`, each starts where the one before ended, each
/// draws at least one row of a later paragraph than the one before, and none
/// reaches past the bottom of the area.
#[verifier::rlimit(60)]
pub proof fn lemma_plan_fits(
    ps: Seq<ParagraphModel>,
    i: int,
    width: u16,
    height: u16,
    skip: u32,
    y: u16,
)
    requires
        ps.len() <= usize::MAX,
    ensures
        ({
            let plan = plan_from(ps, i, width, height, skip, y);
            &&& plan.len() > 0 ==> plan[0].y == y
            &&& forall|k: int|
                0 <= k < plan.len() ==> #[trigger] plan[k].rows >= 1 && plan[k].y + plan[k].rows
                    <= height && plan[k].index >= i && plan[k].index < ps.len()
            &&& forall|k: int|
                0 <= k < plan.len() - 1 ==> #[trigger] plan[k].y + plan[k].rows == plan[k + 1].y
                    && plan[k].index < plan[k + 1].index
        }),
    decreases ps.len() - i,
{
    if i < 0 || i >= ps.len() {
    } else {
        let rows = paragraph_rows(ps[i], width);
        if skip >= rows {
            lemma_plan_fits(ps, i + 1, width, height, (skip - rows) as u32, y);
        } else {
            let room = if y >= height {
                0u32
            } else {
                (height - y) as u32
            };
            if room != 0 {
                let left = (rows - skip) as u32;
                let draw = (if left < room {
                    left
                } else {
                    room
                }) as u16;
                let ny = if y + draw > u16::MAX {
                    u16::MAX
                } else {
                    (y + draw) as u16
                };
                assert(draw >= 1 && y + draw <= height);
                assert(ny == y + draw);
                if ny < height {
                    lemma_plan_fits(ps, i + 1, width, height, 0, ny);
                    let rest = plan_from(ps, i + 1, width, height, 0, ny);
                    let slice = DrawSlice { index: i as usize, skip: (skip % 0x10000) as u16, rows: draw, y };
                    let plan = plan_from(ps, i, width, height, skip, y);
                    assert(plan == seq![slice] + rest);
                    assert forall|k: int| 0 <= k < plan.len() - 1 implies #[trigger] plan[k].y
                        + plan[k].rows == plan[k + 1].y && plan[k].index < plan[k + 1].index by {
                        if k == 0 {
                            assert(plan[0] == slice);
                            assert(plan[1] == rest[0]);
                            assert(rest.len() > 0);
                            assert(rest[0].y == ny);
                            assert(rest[0].rows >= 1 && rest[0].index >= i + 1);
                        } else {
                            assert(plan[k] == rest[k - 1]);
                            assert(plan[k + 1] == rest[k]);
                            assert(rest[k - 1].y + rest[k - 1].rows == rest[k].y && rest[k - 1].index
                                < rest[k].index);
                        }
                    }
                    assert forall|k: int| 0 <= k < plan.len() implies #[trigger] plan[k].rows >= 1
                        && plan[k].y + plan[k].rows <= height && plan[k].index >= i
                        && plan[k].index < ps.len() by {
                        if k > 0 {
                            assert(plan[k] == rest[k - 1]);
                            assert(rest[k - 1].rows >= 1);
                        }
                    }
                }
            }
        }
    }
}

/// A scrollable list of paragraphs.
pub struct ParagraphList {
    pub paragraphs: Vec<ParagraphData>,
    heights: Vec<u16>,
    scroll: usize,
}

/// The recorded height of a paragraph of `n` lines: the count kept to
/// sixteen bits, and at least one.
pub open spec fn recorded_height(n: nat) -> u16 {
    let h = (n % 0x10000) as u16;
    if h < 1 {
        1
    } else {
        h
    }
}

impl ParagraphList {
    /// The paragraphs as mathematical values.
    pub closed spec fn paragraphs_model(&self) -> Seq<ParagraphModel> {
        paragraphs_view(self.paragraphs@)
    }

    /// The paragraphs in the list.
    pub closed spec fn paragraphs_spec(&self) -> Seq<ParagraphData> {
        self.paragraphs@
    }

    /// How far the list is scrolled, in rows.
    pub closed spec fn scroll_spec(&self) -> usize {
        self.scroll
    }

    /// The heights recorded for the paragraphs.
    pub closed spec fn heights_spec(&self) -> Seq<u16> {
        self.heights@
    }

    /// The paragraphs as mathematical values are the views of the paragraphs.
    pub proof fn lemma_model(&self)
        ensures
            self.paragraphs_model() == paragraphs_view(self.paragraphs_spec()),
    {
    }

    /// A list of `paragraphs`, not scrolled, with no heights recorded.
    pub fn new(paragraphs: Vec<ParagraphData>) -> (l: ParagraphList)
        ensures
            l.paragraphs_spec() == paragraphs@,
            l.scroll_spec() == 0,
            l.heights_spec() == Seq::<u16>::empty(),
    {
        ParagraphList { paragraphs, heights: Vec::new(), scroll: 0 }
    }

    /// How far the list is scrolled, in rows.
    pub fn scroll(&self) -> (s: usize)
        ensures
            s == self.scroll_spec(),
    {
        self.scroll
    }

    /// The heights recorded for the paragraphs.
    pub fn heights(&self) -> (h: Vec<u16>)
        ensures
            h@ == self.heights_spec(),
    {
        self.heights.clone()
    }

    /// Puts `paragraphs` in the list, records the height of each (its line
    /// count) and scrolls back to the top.
    pub fn set_paragraphs(&mut self, paragraphs: Vec<ParagraphData>)
        ensures
            final(self).paragraphs_spec() == paragraphs@,
            final(self).scroll_spec() == 0,
            final(self).heights_spec().len() == paragraphs@.len(),
            forall|i: int|
                0 <= i < paragraphs@.len() ==> #[trigger] final(self).heights_spec()[i]
                    == recorded_height(paragraphs@[i]@.lines.len()),
    {
        let mut heights: Vec<u16> = Vec::new();
        let mut i: usize = 0;
        while i < paragraphs.len()
            invariant
                i <= paragraphs.len(),
                heights@.len() == i,
                forall|k: int|
                    0 <= k < i ==> #[trigger] heights@[k] == recorded_height(
                        paragraphs@[k]@.lines.len(),
                    ),
            decreases paragraphs.len() - i,
        {
            let n = paragraphs[i].line_count();
            let h = (n % 0x10000) as u16;
            heights.push(if h < 1 {
                1
            } else {
                h
            });
            i = i + 1;
        }
        self.heights = heights;
        self.paragraphs = paragraphs;
        self.scroll = 0;
    }

    /// Scrolls one row down, staying at `usize::MAX` there.
    pub fn scroll_down(&mut self)
        ensures
            final(self).paragraphs_spec() == old(self).paragraphs_spec(),
            final(self).heights_spec() == old(self).heights_spec(),
            final(self).scroll_spec() == if old(self).scroll_spec() == usize::MAX {
                usize::MAX
            } else {
                (old(self).scroll_spec() + 1) as usize
            },
    {
        self.scroll = self.scroll.saturating_add(1);
    }

    /// Scrolls one row up, staying at the top there.
    pub fn scroll_up(&mut self)
        ensures
            final(self).paragraphs_spec() == old(self).paragraphs_spec(),
            final(self).heights_spec() == old(self).heights_spec(),
            final(self).scroll_spec() == if old(self).scroll_spec() == 0 {
                0
            } else {
                (old(self).scroll_spec() - 1) as usize
            },
    {
        self.scroll = self.scroll.saturating_sub(1);
    }

    /// Scrolling to the bottom is not offered yet: the list stays as it is.
    pub fn scroll_bottom(&mut self)
        ensures
            final(self).paragraphs_spec() == old(self).paragraphs_spec(),
            final(self).heights_spec() == old(self).heights_spec(),
            final(self).scroll_spec() == old(self).scroll_spec(),
    {
    }

    /// Scrolls back to the top.
    pub fn reset_scroll(&mut self)
        ensures
            final(self).paragraphs_spec() == old(self).paragraphs_spec(),
            final(self).heights_spec() == old(self).heights_spec(),
            final(self).scroll_spec() == 0,
    {
        self.scroll = 0;
    }

    /// What is drawn of the list in an area of `area_width` by `area_height`:
    /// `None` where nothing is drawn, else the slices of paragraphs, top to
    /// bottom.
    pub fn render_plan(&self, area_width: u16, area_height: u16) -> (r: Option<Vec<DrawSlice>>)
        requires
            paragraphs_measurable(self.paragraphs_model()),
        ensures
            match r {
                Some(v) => render_plan(self.paragraphs_model(), self.scroll_spec(), area_width, area_height)
                    == Some(v@),
                None => render_plan(self.paragraphs_model(), self.scroll_spec(), area_width, area_height)
                    is None,
            },
    {
        let width = area_width.saturating_sub(2);
        if width == 0 || area_height == 0 {
            return None;
        }
        let ghost ps = self.paragraphs_model();
        let mut out: Vec<DrawSlice> = Vec::new();
        let mut skip: u32 = self.scroll as u32;
        let mut y: u16 = 0;
        let mut i: usize = 0;
        while i < self.paragraphs.len()
            invariant
                ps == paragraphs_view(self.paragraphs@),
                ps == self.paragraphs_model(),
                paragraphs_measurable(ps),
                width == (if area_width >= 2 {
                    (area_width - 2) as u16
                } else {
                    0u16
                }),
                i <= self.paragraphs.len(),
                width > 0,
                area_height > 0,
                out@ + plan_from(ps, i as int, width, area_height, skip, y) == plan_from(
                    ps,
                    0,
                    width,
                    area_height,
                    self.scroll as u32,
                    0,
                ),
            decreases self.paragraphs.len() - i,
        {
            let p = &self.paragraphs[i];
            assert(ps[i as int] == p@);
            assert(lines_measurable(ps[i as int].lines));
            let t = measure_text_lines(&p.text, width) as u32;
            let extra = block_vertical_extra(&p.block) as u32;
            assert(frame_rows(p@) == extra) by {
                assert(p@.block is Some <==> p.block.is_some());
            }
            let rows = t.saturating_add(extra);
            assert(rows == paragraph_rows(ps[i as int], width));
            if skip >= rows {
                skip = skip - rows;
                i = i + 1;
            } else {
                let left = rows - skip;
                let room: u32 = if y >= area_height {
                    0
                } else {
                    (area_height - y) as u32
                };
                if room == 0 {
                    assert(plan_from(ps, i as int, width, area_height, skip, y) == Seq::<DrawSlice>::empty());
                    assert(out@ + Seq::<DrawSlice>::empty() =~= out@);
                    return Some(out);
                }
                let draw: u16 = (if left < room {
                    left
                } else {
                    room
                }) as u16;
                let slice = DrawSlice { index: i, skip: (skip % 0x10000) as u16, rows: draw, y };
                let ny = y.saturating_add(draw);
                let ghost before = out@;
                out.push(slice);
                if ny >= area_height {
                    assert(plan_from(ps, i as int, width, area_height, skip, y) == seq![slice]);
                    assert(before + seq![slice] =~= out@);
                    return Some(out);
                }
                assert(before + (seq![slice] + plan_from(ps, i + 1, width, area_height, 0, ny))
                    =~= out@ + plan_from(ps, i + 1, width, area_height, 0, ny));
                skip = 0;
                y = ny;
                i = i + 1;
            }
        }
        assert(out@ + Seq::<DrawSlice>::empty() =~= out@);
        Some(out)
    }

    /// Empties the list and scrolls back to the top.
    pub fn clear(&mut self)
        ensures
            final(self).paragraphs_spec() == Seq::<ParagraphData>::empty(),
            final(self).heights_spec() == old(self).heights_spec(),
            final(self).scroll_spec() == 0,
    {
        self.paragraphs = Vec::new();
        self.scroll = 0;
    }
}

} // verus!
