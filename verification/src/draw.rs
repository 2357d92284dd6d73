//! The ratatui types that the widgets draw on, and the calls they make into ratatui.
//!
//! Frames, buffers, blocks and colours are ratatui's own; the widgets of this crate carry them
//! through and hand them back to ratatui. Areas and positions cross over as the plain values of
//! `crate::layout`.
//!
//! A buffer is described by the area it covers, the length of its cell storage, and a view of
//! each cell (`buffer_area`, `buffer_len`, `buffer_cells`); a frame by the same of its buffer and
//! by the cell where the terminal will show its cursor.
use vstd::prelude::*;

use ratatui_core::buffer::Buffer;
use ratatui_core::style::Color;
use ratatui_core::terminal::Frame;
use ratatui_core::widgets::Widget;
use ratatui_widgets::block::Block;
use ratatui_widgets::paragraph::Paragraph;

use crate::layout::{Position, Rect};

verus! {

/// A ratatui colour, carried through unchanged.
#[verifier::external_type_specification]
#[verifier::external_body]
pub struct ExColor(Color);

/// The frame that a terminal draws: a buffer and a cursor position.
#[verifier::external_type_specification]
#[verifier::external_body]
pub struct ExFrame<'a>(Frame<'a>);

/// A ratatui buffer: a grid of cells over an area of the terminal.
#[verifier::external_type_specification]
#[verifier::external_body]
pub struct ExBuffer(Buffer);

/// A ratatui block: borders, titles and padding around an area.
#[verifier::external_type_specification]
#[verifier::external_body]
pub struct ExBlock<'a>(Block<'a>);

/// What a cell of a buffer shows: its symbol, its foreground, background and underline colours,
/// its modifier bits (bold, italic, ...) and whether the terminal skips it.
pub struct CellView {
    pub symbol: Seq<char>,
    pub fg: Color,
    pub bg: Color,
    pub underline: Color,
    pub modifier: u16,
    pub skip: bool,
}

/// The area that a buffer covers (`x`, `y`, `width`, `height`), as it was made.
pub uninterp spec fn buffer_area(buf: Buffer) -> (u16, u16, u16, u16);

/// The number of cells that a buffer stores.
pub uninterp spec fn buffer_len(buf: Buffer) -> nat;

/// What each cell of a buffer shows, by column and row.
pub uninterp spec fn buffer_cells(buf: Buffer) -> Map<(u16, u16), CellView>;

/// The area that the buffer of a frame covers.
pub uninterp spec fn frame_area(frame: Frame) -> (u16, u16, u16, u16);

/// The number of cells that the buffer of a frame stores.
pub uninterp spec fn frame_len(frame: Frame) -> nat;

/// What each cell of the buffer of a frame shows, by column and row.
pub uninterp spec fn frame_cells(frame: Frame) -> Map<(u16, u16), CellView>;

/// The cell at which the terminal shows its cursor after the frame, if it shows it.
pub uninterp spec fn frame_cursor(frame: Frame) -> Option<(u16, u16)>;

/// Whether drawing `block` runs code of the application's own: a shadow made with
/// `Shadow::custom` or `Shadow::new` carries a cell effect that may do anything to the buffer.
pub uninterp spec fn block_runs_own_code(block: Block) -> bool;

/// The cells of a buffer covering `buffer_area` and showing `before`, after `block`, which runs
/// no code of the application's own, was drawn in `area`: its style, borders, titles and
/// built-in shadow.
pub uninterp spec fn block_cells(
    block: Block,
    area: Rect,
    buffer_area: (u16, u16, u16, u16),
    before: Map<(u16, u16), CellView>,
) -> Map<(u16, u16), CellView>;

/// The area that `block` leaves inside its borders, titles and padding when drawn in `area`.
pub uninterp spec fn block_inner_area(block: Block, area: Rect) -> Rect;

/// The cells of a buffer covering `buffer_area` and showing `before`, after an unstyled paragraph
/// of `text` was drawn in `area`.
pub uninterp spec fn paragraph_cells(
    text: Seq<char>,
    area: Rect,
    buffer_area: (u16, u16, u16, u16),
    before: Map<(u16, u16), CellView>,
) -> Map<(u16, u16), CellView>;

/// The rectangle of an area given as (`x`, `y`, `width`, `height`).
pub open spec fn rect_of(a: (u16, u16, u16, u16)) -> Rect {
    Rect { x: a.0, y: a.1, width: a.2, height: a.3 }
}

/// The area that a buffer covers.
pub open spec fn buffer_rect(buf: Buffer) -> Rect {
    rect_of(buffer_area(buf))
}

/// Whether a buffer stores a cell for every position of its area (it may store more), so that
/// reading any position of the area finds its cell.
pub open spec fn buffer_sound(buf: Buffer) -> bool {
    buffer_len(buf) >= buffer_area(buf).2 * buffer_area(buf).3
}

/// Whether the buffer of a frame stores a cell for every position of its area.
pub open spec fn frame_sound(frame: Frame) -> bool {
    frame_len(frame) >= frame_area(frame).2 * frame_area(frame).3
}

/// Whether every cell of `inner` is a cell of `outer`.
pub open spec fn within(inner: Rect, outer: Rect) -> bool {
    forall|x: int, y: int| #[trigger] inner.holds(x, y) ==> outer.holds(x, y)
}

/// `c` with the symbol `s`.
pub open spec fn with_symbol(c: CellView, s: Seq<char>) -> CellView {
    CellView {
        symbol: s,
        fg: c.fg,
        bg: c.bg,
        underline: c.underline,
        modifier: c.modifier,
        skip: c.skip,
    }
}

/// `c` with the foreground colour `color`.
pub open spec fn with_fg(c: CellView, color: Color) -> CellView {
    CellView {
        symbol: c.symbol,
        fg: color,
        bg: c.bg,
        underline: c.underline,
        modifier: c.modifier,
        skip: c.skip,
    }
}

/// `c` with the background colour `color`.
pub open spec fn with_bg(c: CellView, color: Color) -> CellView {
    CellView {
        symbol: c.symbol,
        fg: c.fg,
        bg: color,
        underline: c.underline,
        modifier: c.modifier,
        skip: c.skip,
    }
}

/// The field `Buffer::area`.
#[verifier::external_body]
pub(crate) fn buffer_area_of(buf: &Buffer) -> (r: Rect)
    ensures
        r == buffer_rect(*buf),
{
    let a = buf.area;
    Rect { x: a.x, y: a.y, width: a.width, height: a.height }
}

/// The length of the field `Buffer::content`.
#[verifier::external_body]
pub(crate) fn buffer_content_len(buf: &Buffer) -> (n: usize)
    ensures
        n == buffer_len(*buf),
{
    buf.content.len()
}

/// `Cell::set_char` on the cell at `at` (`buf[at]`, which panics outside the buffer's area or
/// where the buffer stores too few cells): the cell shows `c`; nothing else changes.
#[verifier::external_body]
pub(crate) fn cell_set_char(buf: &mut Buffer, at: Position, c: char)
    requires
        buffer_sound(*old(buf)),
        buffer_rect(*old(buf)).holds(at.x as int, at.y as int),
    ensures
        buffer_area(*final(buf)) == buffer_area(*old(buf)),
        buffer_len(*final(buf)) == buffer_len(*old(buf)),
        buffer_cells(*final(buf)) == buffer_cells(*old(buf)).insert(
            (at.x, at.y),
            with_symbol(buffer_cells(*old(buf))[(at.x, at.y)], seq![c]),
        ),
{
    buf[(at.x, at.y)].set_char(c);
}

/// `Cell::set_fg` on the cell at `at` (`buf[at]`, which panics outside the buffer's area or
/// where the buffer stores too few cells): the cell's foreground colour is `color`; nothing else
/// changes.
#[verifier::external_body]
pub(crate) fn cell_set_fg(buf: &mut Buffer, at: Position, color: Color)
    requires
        buffer_sound(*old(buf)),
        buffer_rect(*old(buf)).holds(at.x as int, at.y as int),
    ensures
        buffer_area(*final(buf)) == buffer_area(*old(buf)),
        buffer_len(*final(buf)) == buffer_len(*old(buf)),
        buffer_cells(*final(buf)) == buffer_cells(*old(buf)).insert(
            (at.x, at.y),
            with_fg(buffer_cells(*old(buf))[(at.x, at.y)], color),
        ),
{
    buf[(at.x, at.y)].set_fg(color);
}

/// `Cell::set_bg` on the cell at `at` (`buf[at]`, which panics outside the buffer's area or
/// where the buffer stores too few cells): the cell's background colour is `color`; nothing else
/// changes.
#[verifier::external_body]
pub(crate) fn cell_set_bg(buf: &mut Buffer, at: Position, color: Color)
    requires
        buffer_sound(*old(buf)),
        buffer_rect(*old(buf)).holds(at.x as int, at.y as int),
    ensures
        buffer_area(*final(buf)) == buffer_area(*old(buf)),
        buffer_len(*final(buf)) == buffer_len(*old(buf)),
        buffer_cells(*final(buf)) == buffer_cells(*old(buf)).insert(
            (at.x, at.y),
            with_bg(buffer_cells(*old(buf))[(at.x, at.y)], color),
        ),
{
    buf[(at.x, at.y)].set_bg(color);
}

/// `Widget::render` for `&Block`: draws the block's style, borders, titles and shadow within the
/// part of `area` (and of its shadow) that lies in the buffer. It indexes every cell of that part,
/// so the buffer must store a cell for each position of its area.
///
/// Where the block runs no code of the application's own, the buffer keeps its area and its
/// storage and its cells become `block_cells`. Where its shadow carries a cell effect of the
/// application's own, that effect gets the buffer and may do anything to it (replace it, draw
/// by its own state, or panic): nothing is stated of the buffer afterwards.
#[verifier::external_body]
pub(crate) fn render_block(block: &Block, area: Rect, buf: &mut Buffer)
    requires
        buffer_sound(*old(buf)),
    ensures
        !block_runs_own_code(*block) ==> {
            &&& buffer_area(*final(buf)) == buffer_area(*old(buf))
            &&& buffer_len(*final(buf)) == buffer_len(*old(buf))
            &&& buffer_cells(*final(buf)) == block_cells(
                *block,
                area,
                buffer_area(*old(buf)),
                buffer_cells(*old(buf)),
            )
        },
{
    let area = ratatui_core::layout::Rect {
        x: area.x,
        y: area.y,
        width: area.width,
        height: area.height,
    };
    block.render(area, buf);
}

/// `Block::inner`: the area left inside the block's borders, titles and padding. Every cell of
/// it is a cell of `area`.
#[verifier::external_body]
pub(crate) fn block_inner(block: &Block, area: Rect) -> (inner: Rect)
    ensures
        inner == block_inner_area(*block, area),
        within(inner, area),
{
    let area = ratatui_core::layout::Rect {
        x: area.x,
        y: area.y,
        width: area.width,
        height: area.height,
    };
    let inner = block.inner(area);
    Rect { x: inner.x, y: inner.y, width: inner.width, height: inner.height }
}

/// `Frame::render_widget` with `Paragraph::new(text)`: draws the text, unstyled and unwrapped,
/// into the part of `area` that lies in the frame's buffer; it indexes every cell of that part, so
/// the buffer must store a cell for each position of its area.
///
/// The frame keeps its buffer's area and storage and its cursor; its cells become
/// `paragraph_cells`, and cells outside `area` keep what they showed. Drawing the same paragraph
/// again changes no cell: it writes the same symbols with the empty style.
#[verifier::external_body]
pub(crate) fn render_paragraph(frame: &mut Frame, text: &str, area: Rect)
    requires
        frame_sound(*old(frame)),
    ensures
        frame_area(*final(frame)) == frame_area(*old(frame)),
        frame_len(*final(frame)) == frame_len(*old(frame)),
        frame_cursor(*final(frame)) == frame_cursor(*old(frame)),
        frame_cells(*final(frame)) == paragraph_cells(
            text@,
            area,
            frame_area(*old(frame)),
            frame_cells(*old(frame)),
        ),
        paragraph_cells(text@, area, frame_area(*old(frame)), frame_cells(*final(frame)))
            == frame_cells(*final(frame)),
        forall|k: (u16, u16)|
            !area.holds(k.0 as int, k.1 as int) ==> {
                &&& #[trigger] frame_cells(*final(frame)).contains_key(k) == frame_cells(
                    *old(frame),
                ).contains_key(k)
                &&& frame_cells(*final(frame))[k] == frame_cells(*old(frame))[k]
            },
{
    let area = ratatui_core::layout::Rect {
        x: area.x,
        y: area.y,
        width: area.width,
        height: area.height,
    };
    frame.render_widget(Paragraph::new(text), area);
}

/// `Frame::set_cursor_position`: the terminal shows its cursor at `at` after this frame. The
/// frame's buffer does not change.
#[verifier::external_body]
pub(crate) fn set_cursor_position(frame: &mut Frame, at: Position)
    ensures
        frame_cursor(*final(frame)) == Some((at.x, at.y)),
        frame_area(*final(frame)) == frame_area(*old(frame)),
        frame_len(*final(frame)) == frame_len(*old(frame)),
        frame_cells(*final(frame)) == frame_cells(*old(frame)),
{
    frame.set_cursor_position(ratatui_core::layout::Position { x: at.x, y: at.y });
}

} // verus!
