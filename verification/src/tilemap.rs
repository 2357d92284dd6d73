//! A widget that draws a map of character tiles.
//!
//! The map is drawn inside an optional block. Every cell of the inner area can first be cleared
//! to one character; then the paint closure places tiles, at positions relative to the inner
//! area's top-left corner. Tiles that fall outside the inner area are not drawn; where two tiles
//! share a cell, the later one is seen.
use vstd::prelude::*;

use ratatui_core::buffer::Buffer;
use ratatui_core::style::Color;
use ratatui_widgets::block::Block;

use crate::draw::{
    block_cells,
    block_runs_own_code,
    block_inner,
    block_inner_area,
    buffer_area,
    buffer_area_of,
    buffer_cells,
    buffer_content_len,
    buffer_len,
    buffer_rect,
    buffer_sound,
    cell_set_bg,
    cell_set_char,
    cell_set_fg,
    render_block,
    within,
    CellView,
};
use crate::layout::{lemma_cell_in_area, lemma_cell_index, Position, Rect};

verus! {

/// A tile: a character with its foreground colour and, optionally, a background colour.
#[derive(Clone, Copy, Debug)]
pub struct Char {
    c: char,
    fg: Color,
    bg: Option<Color>,
}

impl Char {
    /// The character of the tile.
    pub closed spec fn symbol(self) -> char {
        self.c
    }

    /// The foreground colour of the tile.
    pub closed spec fn fg_color(self) -> Color {
        self.fg
    }

    /// The background colour of the tile, if it sets one.
    pub closed spec fn bg_color(self) -> Option<Color> {
        self.bg
    }

    /// A tile showing `c` in the colour `fg`, over whatever background the cell has.
    pub fn new(c: char, fg: Color) -> (t: Char)
        ensures
            t.symbol() == c,
            t.fg_color() == fg,
            t.bg_color() is None,
    {
        Char { c, fg, bg: None }
    }

    /// The same tile with the background colour `bg`.
    pub fn bg(self, bg: Color) -> (t: Char)
        ensures
            t.symbol() == self.symbol(),
            t.fg_color() == self.fg_color(),
            t.bg_color() == Some(bg),
    {
        Char { c: self.c, fg: self.fg, bg: Some(bg) }
    }

    /// Draws the tile on the cell at `at`: its character and foreground colour, and its background
    /// colour where it has one (see `drawn_view`).
    pub fn draw_on_cell(&self, buf: &mut Buffer, at: Position)
        requires
            buffer_sound(*old(buf)),
            buffer_rect(*old(buf)).holds(at.x as int, at.y as int),
        ensures
            drawn_on(*self, *old(buf), at, *final(buf)),
    {
        let ghost start = buffer_cells(*buf);
        let ghost k = (at.x, at.y);
        cell_set_char(buf, at, self.c);
        cell_set_fg(buf, at, self.fg);
        if let Some(bg) = self.bg {
            cell_set_bg(buf, at, bg);
        }
        assert(buffer_cells(*buf) =~= start.insert(k, drawn_view(*self, start[k])));
    }
}

/// Whether `next` is `buf` after the tile `t` was drawn on the cell at `at`: the buffer keeps its
/// area and storage; that cell shows `drawn_view`, and every other cell keeps what it showed.
pub open spec fn drawn_on(t: Char, buf: Buffer, at: Position, next: Buffer) -> bool {
    &&& buffer_area(next) == buffer_area(buf)
    &&& buffer_len(next) == buffer_len(buf)
    &&& buffer_cells(next) == buffer_cells(buf).insert(
        (at.x, at.y),
        drawn_view(t, buffer_cells(buf)[(at.x, at.y)]),
    )
}

/// What a cell that showed `c` shows after the tile `t` was drawn on it: the tile's character and
/// foreground colour, the tile's background colour where it has one (else the cell's), and the
/// cell's underline colour, modifiers and skip flag.
pub open spec fn drawn_view(t: Char, c: CellView) -> CellView {
    CellView {
        symbol: seq![t.symbol()],
        fg: t.fg_color(),
        bg: match t.bg_color() {
            Some(b) => b,
            None => c.bg,
        },
        underline: c.underline,
        modifier: c.modifier,
        skip: c.skip,
    }
}

/// The tiles that a paint closure placed, in the order it placed them.
pub struct Tiles(Vec<(Position, Char)>);

impl View for Tiles {
    type V = Seq<(Position, Char)>;

    closed spec fn view(&self) -> Seq<(Position, Char)> {
        self.0@
    }
}

impl Default for Tiles {
    /// No tiles.
    fn default() -> (t: Tiles)
        ensures
            t@ == Seq::<(Position, Char)>::empty(),
    {
        Tiles(Vec::new())
    }
}

impl Tiles {
    /// Places `char` at column `x` and row `y` of the map, after the tiles placed so far.
    pub fn set_tile(&mut self, x: u16, y: u16, char: Char)
        ensures
            final(self)@ == old(self)@.push((Position { x, y }, char)),
    {
        self.0.push((Position::new(x, y), char));
    }

    /// The tiles placed so far, in order.
    pub fn tiles(&self) -> (v: &Vec<(Position, Char)>)
        ensures
            v@ == self@,
    {
        &self.0
    }
}

/// The tiles placed, none where there is no paint closure.
pub open spec fn placed(tiles: Option<Tiles>) -> Seq<(Position, Char)> {
    match tiles {
        Some(t) => t@,
        None => Seq::empty(),
    }
}

/// The cell of the terminal where a tile placed at `p` of a map drawn in `inner` goes, if it
/// lies inside `inner`.
pub open spec fn tile_cell(inner: Rect, p: Position) -> Option<Position> {
    let x = inner.x + p.x;
    let y = inner.y + p.y;
    if inner.holds(x, y) {
        Some(Position { x: x as u16, y: y as u16 })
    } else {
        None
    }
}

/// The cells that clearing `inner` to `clear` draws, in order.
pub open spec fn clear_draws(inner: Rect, clear: Option<Char>) -> Seq<(Position, Char)> {
    match clear {
        Some(ch) => inner.cells().map_values(|q: Position| (q, ch)),
        None => Seq::empty(),
    }
}

/// The cells that `tiles` draw in a map drawn in `inner`, in order: those of the tiles that fall
/// inside `inner`.
pub open spec fn tile_draws(inner: Rect, tiles: Seq<(Position, Char)>) -> Seq<(Position, Char)>
    decreases tiles.len(),
{
    if tiles.len() == 0 {
        Seq::empty()
    } else {
        let rest = tile_draws(inner, tiles.drop_last());
        match tile_cell(inner, tiles.last().0) {
            Some(q) => rest.push((q, tiles.last().1)),
            None => rest,
        }
    }
}

/// The cells after drawing `draws` in order over `cells`.
pub open spec fn paint_cells(
    cells: Map<(u16, u16), CellView>,
    draws: Seq<(Position, Char)>,
) -> Map<(u16, u16), CellView>
    decreases draws.len(),
{
    if draws.len() == 0 {
        cells
    } else {
        let before = paint_cells(cells, draws.drop_last());
        let k = (draws.last().0.x, draws.last().0.y);
        before.insert(k, drawn_view(draws.last().1, before[k]))
    }
}

/// Whether an area has no cell.
pub open spec fn empty_area(r: Rect) -> bool {
    r.cols() == 0 || r.rows() == 0
}

/// A widget that draws a tile map; build it with `default` and the setters.
pub struct TileMap<'a, F> where F: Fn(&mut Tiles) {
    clear_character: Option<Char>,
    block: Option<Block<'a>>,
    paint: Option<F>,
}

impl<'a, F> Default for TileMap<'a, F> where F: Fn(&mut Tiles) {
    /// A map with no block, no clearing and no paint closure.
    fn default() -> (m: Self)
        ensures
            m.clear() is None,
            m.frame() is None,
            m.painter() is None,
    {
        TileMap { clear_character: None, block: None, paint: None }
    }
}

impl<'a, F> TileMap<'a, F> where F: Fn(&mut Tiles) {
    /// The tile that every cell of the inner area is first cleared to, if any.
    pub closed spec fn clear(self) -> Option<Char> {
        self.clear_character
    }

    /// The block drawn around the map, if any.
    pub closed spec fn frame(self) -> Option<Block<'a>> {
        self.block
    }

    /// The closure that places the tiles, if any.
    pub closed spec fn painter(self) -> Option<F> {
        self.paint
    }

    /// The same map, clearing every cell of its inner area to `character` before the tiles.
    pub fn clear_character(self, character: Char) -> (m: Self)
        ensures
            m.clear() == Some(character),
            m.frame() == self.frame(),
            m.painter() == self.painter(),
    {
        let mut m = self;
        m.clear_character = Some(character);
        m
    }

    /// The same map, drawn inside `block`.
    pub fn block(self, block: Block<'a>) -> (m: Self)
        ensures
            m.clear() == self.clear(),
            m.frame() == Some(block),
            m.painter() == self.painter(),
    {
        let mut m = self;
        m.block = Some(block);
        m
    }

    /// The same map, with `paint` placing its tiles.
    pub fn paint(self, paint: F) -> (m: Self)
        ensures
            m.clear() == self.clear(),
            m.frame() == self.frame(),
            m.painter() == Some(paint),
    {
        let mut m = self;
        m.paint = Some(paint);
        m
    }

    /// Whether the paint closure, if any, may be called on any tiles.
    pub open spec fn paint_callable(self) -> bool {
        match self.painter() {
            Some(p) => forall|t: &mut Tiles| #[trigger] call_requires(p, (t,)),
            None => true,
        }
    }

    /// Calls the paint closure, if any, on no tiles, and gives back the tiles it placed.
    pub fn paint_tiles(&self) -> (tiles: Option<Tiles>)
        requires
            self.paint_callable(),
        ensures
            tiles is Some == self.painter() is Some,
            tiles is Some ==> exists|m: &mut Tiles|
                #[trigger] call_ensures(self.painter()->0, (m,), ()) && (*m)@ == Seq::<
                    (Position, Char),
                >::empty() && (*final(m))@ == tiles->0@,
    {
        match &self.paint {
            Some(p) => {
                let mut tiles = Tiles::default();
                p(&mut tiles);
                Some(tiles)
            },
            None => None,
        }
    }

    /// The area inside the block when the map is drawn in `area` (all of `area` without one).
    pub open spec fn inner_area(self, area: Rect) -> Rect {
        match self.frame() {
            Some(b) => block_inner_area(b, area),
            None => area,
        }
    }

    /// The cells of `buf` after the block, if any, was drawn in `area`.
    pub open spec fn after_block(self, area: Rect, buf: Buffer) -> Map<(u16, u16), CellView> {
        match self.frame() {
            Some(b) => block_cells(b, area, buffer_area(buf), buffer_cells(buf)),
            None => buffer_cells(buf),
        }
    }

    /// The tiles drawn, in order, when the map is drawn in `area` with `tiles` placed: every cell
    /// of the inner area cleared, if the map clears, then the tiles that fall inside it.
    pub open spec fn draws(self, area: Rect, tiles: Seq<(Position, Char)>) -> Seq<(Position, Char)> {
        clear_draws(self.inner_area(area), self.clear()) + tile_draws(
            self.inner_area(area),
            tiles,
        )
    }

    /// Whether the block, if any, runs code of the application's own when drawn (see
    /// `block_runs_own_code`).
    pub open spec fn runs_own_code(self) -> bool {
        match self.frame() {
            Some(b) => block_runs_own_code(b),
            None => false,
        }
    }

    /// Whether drawing the map in `area` of `buf` with `tiles` placed cannot panic: with a block,
    /// the buffer stores a cell for each position of its area; the clearing and the tiles fit
    /// the buffer (`draws_fit`).
    pub open spec fn fits(self, area: Rect, tiles: Seq<(Position, Char)>, buf: Buffer) -> bool {
        &&& self.frame() is Some ==> buffer_sound(buf)
        &&& draws_fit(self.inner_area(area), self.clear(), tiles, buf)
    }

    /// Whether `next` is `buf` after this map was drawn in `area` with `tiles` the tiles that the
    /// paint closure placed (none without a closure). The block, if any, is drawn first; then the
    /// draws of `draws`, inside the block's inner area. Where the block runs no code of the
    /// application's own, the buffer keeps its area and storage and its cells are those draws
    /// over the cells that the block left; a map with no block that draws nothing leaves the
    /// buffer as it was. Where the block runs code of the application's own, whatever buffer that
    /// code left gets the draws, where they fit it (see `drawn_over`).
    pub open spec fn drawn(
        self,
        area: Rect,
        tiles: Seq<(Position, Char)>,
        buf: Buffer,
        next: Buffer,
    ) -> bool {
        if self.runs_own_code() {
            exists|mid: Buffer| #[trigger]
                drawn_over(self.inner_area(area), self.clear(), tiles, mid, next)
        } else {
            &&& buffer_area(next) == buffer_area(buf)
            &&& buffer_len(next) == buffer_len(buf)
            &&& buffer_cells(next) == paint_cells(
                self.after_block(area, buf),
                self.draws(area, tiles),
            )
            &&& self.frame() is None && self.draws(area, tiles).len() == 0 ==> next == buf
        }
    }

    /// Draws the map in `area` of `buf`, with `tiles` the tiles that the paint closure placed
    /// (`None` without a closure); see `drawn`. Drawing a cell outside the buffer, or touching a
    /// buffer that stores too few cells, panics; `fits` rules that out. After a block whose
    /// shadow runs the application's own code, the draws are checked again against the buffer
    /// that code left, and left out where they do not fit it.
    pub fn render_tiles(self, area: Rect, buf: &mut Buffer, tiles: Option<Tiles>)
        requires
            self.fits(area, placed(tiles), *old(buf)),
        ensures
            self.drawn(area, placed(tiles), *old(buf), *final(buf)),
    {
        let ghost tile_seq = placed(tiles);
        let mut inner = area;
        if let Some(block) = &self.block {
            render_block(block, area, buf);
            inner = block_inner(block, area);
        }
        assert(inner == self.inner_area(area));
        let ghost mid = *buf;
        let clear = self.clear_character;
        if check_draws(inner, clear, &tiles, buf) {
            paint_over(inner, clear, buf, tiles);
        }
        proof {
            if self.runs_own_code() {
                assert(drawn_over(inner, clear, tile_seq, mid, *buf));
            } else {
                assert(draws_fit(inner, clear, tile_seq, mid));
            }
        }
    }

    /// Draws the map in `area` of `buf`: the paint closure, if any, places its tiles, starting
    /// from none; then, where drawing cannot panic (`fits`), the map is drawn with them as
    /// `render_tiles` does and `true` comes back; where it could, nothing is drawn and `false`
    /// comes back.
    pub fn render(self, area: Rect, buf: &mut Buffer) -> (done: bool)
        requires
            self.paint_callable(),
        ensures
            exists|tiles: Option<Tiles>|
                {
                    &&& tiles is Some == self.painter() is Some
                    &&& tiles is Some ==> exists|m: &mut Tiles|
                        #[trigger] call_ensures(self.painter()->0, (m,), ()) && (*m)@ == Seq::<
                            (Position, Char),
                        >::empty() && (*final(m))@ == tiles->0@
                    &&& done == self.fits(area, #[trigger] placed(tiles), *old(buf))
                    &&& done ==> self.drawn(area, placed(tiles), *old(buf), *final(buf))
                    &&& !done ==> *final(buf) == *old(buf)
                },
    {
        let tiles = self.paint_tiles();
        let done = self.render_checked(area, buf, tiles);
        done
    }

    /// Draws the map in `area` of `buf` as `render_tiles` does, where that cannot panic (`fits`);
    /// where it could, nothing is drawn and `false` comes back.
    pub fn render_checked(self, area: Rect, buf: &mut Buffer, tiles: Option<Tiles>) -> (done: bool)
        ensures
            done == self.fits(area, placed(tiles), *old(buf)),
            done ==> self.drawn(area, placed(tiles), *old(buf), *final(buf)),
            !done ==> *final(buf) == *old(buf),
    {
        let inner = match &self.block {
            Some(block) => block_inner(block, area),
            None => area,
        };
        let mut ok = check_draws(inner, self.clear_character, &tiles, buf);
        if self.block.is_some() && !stores_whole_area(buf) {
            ok = false;
        }
        if !ok {
            return false;
        }
        self.render_tiles(area, buf, tiles);
        true
    }
}

/// Whether clearing `inner` to `clear` and drawing there the tiles `tiles` touches any cell: it
/// clears a non-empty area, or a tile falls inside `inner`.
pub open spec fn draws_touch(inner: Rect, clear: Option<Char>, tiles: Seq<(Position, Char)>) -> bool {
    ||| clear is Some && !empty_area(inner)
    ||| exists|i: int| 0 <= i < tiles.len() && #[trigger] tile_cell(inner, tiles[i].0) is Some
}

/// Whether clearing `inner` to `clear` and drawing there the tiles `tiles` on `buf` cannot panic:
/// where it touches a cell, the buffer stores a cell for each position of its area; every cell it
/// clears and every cell a tile goes to lies in the buffer's area.
pub open spec fn draws_fit(
    inner: Rect,
    clear: Option<Char>,
    tiles: Seq<(Position, Char)>,
    buf: Buffer,
) -> bool {
    &&& draws_touch(inner, clear, tiles) ==> buffer_sound(buf)
    &&& clear is Some ==> within(inner, buffer_rect(buf))
    &&& forall|i: int|
        0 <= i < tiles.len() ==> match #[trigger] tile_cell(inner, tiles[i].0) {
            Some(q) => buffer_rect(buf).holds(q.x as int, q.y as int),
            None => true,
        }
}

/// Whether `next` is `mid` after clearing `inner` to `clear` and drawing there the tiles `tiles`,
/// where that fits `mid` (`draws_fit`): the buffer keeps its area and storage, and its cells are
/// the draws over those of `mid`. Where it does not fit, `next` is `mid`.
pub open spec fn drawn_over(
    inner: Rect,
    clear: Option<Char>,
    tiles: Seq<(Position, Char)>,
    mid: Buffer,
    next: Buffer,
) -> bool {
    if draws_fit(inner, clear, tiles, mid) {
        &&& buffer_area(next) == buffer_area(mid)
        &&& buffer_len(next) == buffer_len(mid)
        &&& buffer_cells(next) == paint_cells(
            buffer_cells(mid),
            clear_draws(inner, clear) + tile_draws(inner, tiles),
        )
    } else {
        next == mid
    }
}

/// Whether `buf` stores a cell for each position of its area.
fn stores_whole_area(buf: &Buffer) -> (r: bool)
    ensures
        r == buffer_sound(*buf),
{
    let outer = buffer_area_of(buf);
    let n = buffer_content_len(buf);
    let w = outer.width as u64;
    let h = outer.height as u64;
    assert(w * h <= 0xffff * 0xffff) by (nonlinear_arith)
        requires
            w <= 0xffff,
            h <= 0xffff,
    ;
    (n as u64) >= w * h
}

/// Whether clearing `inner` to `clear` and drawing there the tiles placed in `tiles` fits `buf`
/// (`draws_fit`).
fn check_draws(inner: Rect, clear: Option<Char>, tiles: &Option<Tiles>, buf: &Buffer) -> (r: bool)
    ensures
        r == draws_fit(inner, clear, placed(*tiles), *buf),
{
    let ghost tile_seq = placed(*tiles);
    let outer = buffer_area_of(buf);
    let mut touches = false;
    let mut fits = true;
    if clear.is_some() {
        if inner.right() > inner.x && inner.bottom() > inner.y {
            touches = true;
        }
        if !rect_within(inner, outer) {
            fits = false;
        }
    }
    let ghost head = touches;
    let ghost clear_fits = fits;
    proof {
        assert(head == (clear is Some && !empty_area(inner)));
    }
    if let Some(t) = tiles {
        let v = t.tiles();
        let mut i: usize = 0;
        while i < v.len()
            invariant
                v@ == tile_seq,
                0 <= i <= v.len(),
                touches == (head || exists|j: int|
                    0 <= j < i && #[trigger] tile_cell(inner, tile_seq[j].0) is Some),
                fits == (clear_fits && forall|j: int|
                    0 <= j < i ==> match #[trigger] tile_cell(inner, tile_seq[j].0) {
                        Some(q) => outer.holds(q.x as int, q.y as int),
                        None => true,
                    }),
            decreases v.len() - i,
        {
            let (p, _) = v[i];
            proof {
                assert(tile_seq[i as int].0 == p);
            }
            match tile_target(inner, p) {
                Some(q) => {
                    touches = true;
                    if !outer.contains(q) {
                        fits = false;
                    }
                },
                None => {},
            }
            i = i + 1;
        }
    }
    if touches && !stores_whole_area(buf) {
        fits = false;
    }
    fits
}

/// Clears `inner` of `buf` to `clear`, then draws there the tiles placed in `tiles`, where that
/// fits the buffer (`draws_fit`): the buffer keeps its area and storage and its cells get the
/// draws; where there is nothing to draw it is left as it was.
fn paint_over(inner: Rect, clear: Option<Char>, buf: &mut Buffer, tiles: Option<Tiles>)
    requires
        draws_fit(inner, clear, placed(tiles), *old(buf)),
    ensures
        buffer_area(*final(buf)) == buffer_area(*old(buf)),
        buffer_len(*final(buf)) == buffer_len(*old(buf)),
        buffer_cells(*final(buf)) == paint_cells(
            buffer_cells(*old(buf)),
            clear_draws(inner, clear) + tile_draws(inner, placed(tiles)),
        ),
        (clear_draws(inner, clear) + tile_draws(inner, placed(tiles))).len() == 0 ==> *final(buf)
            == *old(buf),
{
    let ghost tile_seq = placed(tiles);
    let ghost start = buffer_cells(*buf);
    let ghost cl = clear_draws(inner, clear);
    if let Some(ch) = clear {
        let cells = inner.positions();
        let mut i: usize = 0;
        while i < cells.len()
            invariant
                cells@ == inner.cells(),
                cl == clear_draws(inner, Some(ch)),
                0 <= i <= cells.len(),
                cells.len() > 0 ==> buffer_sound(*buf),
                within(inner, buffer_rect(*old(buf))),
                buffer_area(*buf) == buffer_area(*old(buf)),
                buffer_len(*buf) == buffer_len(*old(buf)),
                buffer_cells(*buf) == paint_cells(start, cl.take(i as int)),
                i == 0 ==> *buf == *old(buf),
            decreases cells.len() - i,
        {
            let q = cells[i];
            proof {
                lemma_cell_in_area(inner, i as int);
                assert(cl.take(i + 1).drop_last() =~= cl.take(i as int));
            }
            ch.draw_on_cell(buf, q);
            i = i + 1;
        }
        proof {
            assert(cl.take(cells.len() as int) =~= cl);
        }
    }
    assert(buffer_cells(*buf) == paint_cells(start, cl)) by {
        if clear is None {
            assert(cl =~= Seq::<(Position, Char)>::empty());
        }
    }
    assert(cl.len() == 0 ==> *buf == *old(buf));
    if let Some(tiles) = tiles {
        let v = tiles.tiles();
        let mut i: usize = 0;
        while i < v.len()
            invariant
                v@ == tile_seq,
                0 <= i <= v.len(),
                draws_fit(inner, clear, tile_seq, *old(buf)),
                buffer_area(*buf) == buffer_area(*old(buf)),
                buffer_len(*buf) == buffer_len(*old(buf)),
                buffer_cells(*buf) == paint_cells(
                    start,
                    cl + tile_draws(inner, tile_seq.take(i as int)),
                ),
                (cl + tile_draws(inner, tile_seq.take(i as int))).len() == 0 ==> *buf == *old(buf),
            decreases v.len() - i,
        {
            let (p, ch) = v[i];
            proof {
                assert(tile_seq.take(i + 1).drop_last() =~= tile_seq.take(i as int));
                assert(tile_seq[i as int] == (p, ch));
            }
            match tile_target(inner, p) {
                Some(q) => {
                    proof {
                        let d = tile_draws(inner, tile_seq.take(i as int));
                        assert((cl + d.push((q, ch))).drop_last() =~= cl + d);
                        assert(tile_cell(inner, tile_seq[i as int].0) is Some);
                        assert(draws_touch(inner, clear, tile_seq));
                    }
                    ch.draw_on_cell(buf, q);
                },
                None => {},
            }
            i = i + 1;
        }
        proof {
            assert(tile_seq.take(v.len() as int) =~= tile_seq);
        }
    } else {
        assert(tile_draws(inner, tile_seq) =~= Seq::<(Position, Char)>::empty());
        assert(cl + tile_draws(inner, tile_seq) =~= cl);
    }
}

/// Where a tile placed at `p` of a map drawn in `inner` goes, if inside `inner`.
pub fn tile_target(inner: Rect, p: Position) -> (q: Option<Position>)
    ensures
        q == tile_cell(inner, p),
{
    let x: u32 = inner.x as u32 + p.x as u32;
    let y: u32 = inner.y as u32 + p.y as u32;
    if x >= inner.right() as u32 || y >= inner.bottom() as u32 {
        return None;
    }
    Some(Position { x: x as u16, y: y as u16 })
}

/// Whether every cell of `inner` is a cell of `outer`.
pub fn rect_within(inner: Rect, outer: Rect) -> (r: bool)
    ensures
        r == within(inner, outer),
{
    let empty = inner.right() == inner.x || inner.bottom() == inner.y;
    if empty {
        return true;
    }
    let r = inner.x >= outer.x && inner.right() <= outer.right() && inner.y >= outer.y
        && inner.bottom() <= outer.bottom();
    proof {
        if !r {
            if inner.x < outer.x {
                assert(inner.holds(inner.x as int, inner.y as int));
            } else if inner.right_spec() > outer.right_spec() {
                assert(inner.holds(inner.right_spec() - 1, inner.y as int));
            } else if inner.y < outer.y {
                assert(inner.holds(inner.x as int, inner.y as int));
            } else {
                assert(inner.holds(inner.x as int, inner.bottom_spec() - 1));
            }
        }
    }
    r
}

/// The tile drawn last at the cell `k` by `draws`, if any.
pub open spec fn last_draw_at(draws: Seq<(Position, Char)>, k: (u16, u16)) -> Option<Char>
    decreases draws.len(),
{
    if draws.len() == 0 {
        None
    } else if (draws.last().0.x, draws.last().0.y) == k {
        Some(draws.last().1)
    } else {
        last_draw_at(draws.drop_last(), k)
    }
}

/// The tile placed last at position `p` of the map, if any.
pub open spec fn last_tile_at(tiles: Seq<(Position, Char)>, p: Position) -> Option<Char>
    decreases tiles.len(),
{
    if tiles.len() == 0 {
        None
    } else if tiles.last().0 == p {
        Some(tiles.last().1)
    } else {
        last_tile_at(tiles.drop_last(), p)
    }
}

/// The background colour of the cell `k` after `draws` over a cell whose background was `base`:
/// that of the last tile drawn at `k` that sets a background, else `base`.
pub open spec fn draw_bg(draws: Seq<(Position, Char)>, k: (u16, u16), base: Color) -> Color
    decreases draws.len(),
{
    if draws.len() == 0 {
        base
    } else if (draws.last().0.x, draws.last().0.y) == k && draws.last().1.bg_color() is Some {
        draws.last().1.bg_color()->0
    } else {
        draw_bg(draws.drop_last(), k, base)
    }
}

/// The background colour that the tiles placed at `p` leave over `base`: that of the last one
/// that sets a background, else `base`.
pub open spec fn tile_bg_at(tiles: Seq<(Position, Char)>, p: Position, base: Color) -> Color
    decreases tiles.len(),
{
    if tiles.len() == 0 {
        base
    } else if tiles.last().0 == p && tiles.last().1.bg_color() is Some {
        tiles.last().1.bg_color()->0
    } else {
        tile_bg_at(tiles.drop_last(), p, base)
    }
}

/// Drawing a tile twice on a cell leaves it as drawing it once does.
pub proof fn lemma_draw_twice(t: Char, c: CellView)
    ensures
        drawn_view(t, drawn_view(t, c)) == drawn_view(t, c),
{
}

/// A tile that sets a background hides the tile drawn before it on the same cell.
pub proof fn lemma_draw_over(t1: Char, t2: Char, c: CellView)
    requires
        t2.bg_color() is Some,
    ensures
        drawn_view(t2, drawn_view(t1, c)) == drawn_view(t2, c),
{
}

/// Drawing a tile on a cell a second time changes nothing.
pub proof fn lemma_draw_on_cell_twice(t: Char, b0: Buffer, b1: Buffer, b2: Buffer, at: Position)
    requires
        drawn_on(t, b0, at, b1),
        drawn_on(t, b1, at, b2),
    ensures
        buffer_area(b2) == buffer_area(b1),
        buffer_len(b2) == buffer_len(b1),
        buffer_cells(b2) == buffer_cells(b1),
{
    let k = (at.x, at.y);
    lemma_draw_twice(t, buffer_cells(b0)[k]);
    assert(buffer_cells(b2) =~= buffer_cells(b1));
}

/// Drawing on a cell a tile that sets a background, after another tile, leaves the buffer as
/// drawing it alone does.
pub proof fn lemma_draw_on_cell_over(
    t1: Char,
    t2: Char,
    b0: Buffer,
    b1: Buffer,
    b2: Buffer,
    alone: Buffer,
    at: Position,
)
    requires
        t2.bg_color() is Some,
        drawn_on(t1, b0, at, b1),
        drawn_on(t2, b1, at, b2),
        drawn_on(t2, b0, at, alone),
    ensures
        buffer_area(b2) == buffer_area(alone),
        buffer_len(b2) == buffer_len(alone),
        buffer_cells(b2) == buffer_cells(alone),
{
    let k = (at.x, at.y);
    lemma_draw_over(t1, t2, buffer_cells(b0)[k]);
    assert(buffer_cells(b2) =~= buffer_cells(alone));
}

/// After drawing, a cell that some tile was drawn on shows the character and foreground colour
/// of the last such tile, the background colour of `draw_bg`, and its own underline colour,
/// modifiers and skip flag; a cell that nothing drew keeps what it showed.
pub proof fn lemma_paint_cells_at(
    m: Map<(u16, u16), CellView>,
    draws: Seq<(Position, Char)>,
    k: (u16, u16),
)
    ensures
        match last_draw_at(draws, k) {
            Some(c) => paint_cells(m, draws).contains_key(k) && paint_cells(m, draws)[k]
                == (CellView {
                symbol: seq![c.symbol()],
                fg: c.fg_color(),
                bg: draw_bg(draws, k, m[k].bg),
                underline: m[k].underline,
                modifier: m[k].modifier,
                skip: m[k].skip,
            }),
            None => paint_cells(m, draws).contains_key(k) == m.contains_key(k) && paint_cells(
                m,
                draws,
            )[k] == m[k] && draw_bg(draws, k, m[k].bg) == m[k].bg,
        },
    decreases draws.len(),
{
    if draws.len() > 0 {
        lemma_paint_cells_at(m, draws.drop_last(), k);
    }
}

/// The tile drawn last at a cell, and the background colour left there, by two runs of draws:
/// the second run's where it draws the cell, else the first run's.
pub proof fn lemma_last_draw_concat(
    a: Seq<(Position, Char)>,
    b: Seq<(Position, Char)>,
    k: (u16, u16),
    base: Color,
)
    ensures
        last_draw_at(a + b, k) == match last_draw_at(b, k) {
            Some(c) => Some(c),
            None => last_draw_at(a, k),
        },
        draw_bg(a + b, k, base) == draw_bg(b, k, draw_bg(a, k, base)),
    decreases b.len(),
{
    if b.len() == 0 {
        assert(a + b =~= a);
    } else {
        assert((a + b).drop_last() =~= a + b.drop_last());
        lemma_last_draw_concat(a, b.drop_last(), k, base);
    }
}

/// The tiles of a map drawn in `inner` draw the cell `inner`'s corner plus `p` as the tiles placed
/// at `p` say, where that cell lies inside `inner`; they draw no cell outside `inner`.
pub proof fn lemma_tile_draws_at(
    inner: Rect,
    tiles: Seq<(Position, Char)>,
    k: (u16, u16),
    base: Color,
)
    ensures
        inner.holds(k.0 as int, k.1 as int) ==> {
            let p = Position { x: (k.0 - inner.x) as u16, y: (k.1 - inner.y) as u16 };
            &&& last_draw_at(tile_draws(inner, tiles), k) == last_tile_at(tiles, p)
            &&& draw_bg(tile_draws(inner, tiles), k, base) == tile_bg_at(tiles, p, base)
        },
        !inner.holds(k.0 as int, k.1 as int) ==> last_draw_at(tile_draws(inner, tiles), k) is None
            && draw_bg(tile_draws(inner, tiles), k, base) == base,
    decreases tiles.len(),
{
    if tiles.len() > 0 {
        lemma_tile_draws_at(inner, tiles.drop_last(), k, base);
        let rest = tile_draws(inner, tiles.drop_last());
        let t = tiles.last();
        match tile_cell(inner, t.0) {
            Some(q) => {
                assert(rest.push((q, t.1)).drop_last() =~= rest);
            },
            None => {},
        }
    }
}

/// Clearing `inner` draws the clearing tile at exactly the cells of `inner`.
pub proof fn lemma_clear_draws_at(inner: Rect, clear: Option<Char>, k: (u16, u16), base: Color)
    ensures
        last_draw_at(clear_draws(inner, clear), k) == if clear is Some && inner.holds(
            k.0 as int,
            k.1 as int,
        ) {
            clear
        } else {
            None
        },
        draw_bg(clear_draws(inner, clear), k, base) == match clear {
            Some(ch) => if inner.holds(k.0 as int, k.1 as int) && ch.bg_color() is Some {
                ch.bg_color()->0
            } else {
                base
            },
            None => base,
        },
{
    if let Some(ch) = clear {
        let cells = inner.cells();
        lemma_mapped_last_draw(cells, ch, k, base);
        assert(clear_draws(inner, clear) =~= cells.map_values(|q: Position| (q, ch)));
        if inner.holds(k.0 as int, k.1 as int) {
            let r = k.1 - inner.y;
            let c = k.0 - inner.x;
            lemma_cell_index(inner, r, c);
            let i = r * inner.cols() + c;
            assert(cells[i] == Position { x: k.0, y: k.1 });
            assert(0 <= i < cells.len() && (cells[i].x, cells[i].y) == k);
        } else {
            assert forall|i: int| 0 <= i < cells.len() implies (cells[i].x, cells[i].y) != k by {
                lemma_cell_in_area(inner, i);
            }
        }
    } else {
        assert(clear_draws(inner, clear) =~= Seq::<(Position, Char)>::empty());
    }
}

/// Drawing one tile at each of `cells` draws it at a cell exactly where the cell is among them.
proof fn lemma_mapped_last_draw(cells: Seq<Position>, ch: Char, k: (u16, u16), base: Color)
    ensures
        last_draw_at(cells.map_values(|q: Position| (q, ch)), k) == if exists|i: int|
            0 <= i < cells.len() && (#[trigger] cells[i].x, cells[i].y) == k {
            Some(ch)
        } else {
            None
        },
        draw_bg(cells.map_values(|q: Position| (q, ch)), k, base) == if (exists|i: int|
            0 <= i < cells.len() && (#[trigger] cells[i].x, cells[i].y) == k)
            && ch.bg_color() is Some {
            ch.bg_color()->0
        } else {
            base
        },
    decreases cells.len(),
{
    let d = cells.map_values(|q: Position| (q, ch));
    if cells.len() > 0 {
        assert(d.drop_last() =~= cells.drop_last().map_values(|q: Position| (q, ch)));
        lemma_mapped_last_draw(cells.drop_last(), ch, k, base);
        if exists|i: int| 0 <= i < cells.len() && (#[trigger] cells[i].x, cells[i].y) == k {
            let i = choose|i: int| 0 <= i < cells.len() && (#[trigger] cells[i].x, cells[i].y) == k;
            if i < cells.len() - 1 {
                assert(cells.drop_last()[i] == cells[i]);
            }
        } else {
            assert forall|i: int| 0 <= i < cells.drop_last().len() implies (
            #[trigger] cells.drop_last()[i].x, cells.drop_last()[i].y) != k by {
                assert(cells.drop_last()[i] == cells[i]);
            }
        }
    }
}

/// What a drawn map shows, where its block runs no code of the application's own. The block,
/// if any, is drawn first, and the map goes inside the
/// block's inner area. In the cell of the inner area at map position `p`: where a tile was placed
/// at `p`, the last such tile's character and foreground colour over the background of the last
/// one that sets a background (else the cleared cell's); where none was, the clearing tile drawn
/// on the cell; where the map does not clear either, what the cell showed after the block. The
/// cell keeps its underline colour, modifiers and skip flag. Every cell outside the inner area
/// shows what it showed after the block.
pub proof fn lemma_map_shows<'a, F>(
    map: TileMap<'a, F>,
    area: Rect,
    tiles: Seq<(Position, Char)>,
    buf: Buffer,
    next: Buffer,
    k: (u16, u16),
) where F: Fn(&mut Tiles)
    requires
        !map.runs_own_code(),
        map.drawn(area, tiles, buf, next),
    ensures
        ({
            let inner = map.inner_area(area);
            let mid = map.after_block(area, buf);
            let shown = buffer_cells(next);
            let p = Position { x: (k.0 - inner.x) as u16, y: (k.1 - inner.y) as u16 };
            let cleared = match map.clear() {
                Some(ch) => drawn_view(ch, mid[k]),
                None => mid[k],
            };
            if inner.holds(k.0 as int, k.1 as int) {
                match last_tile_at(tiles, p) {
                    Some(c) => shown.contains_key(k) && shown[k] == (CellView {
                        symbol: seq![c.symbol()],
                        fg: c.fg_color(),
                        bg: tile_bg_at(tiles, p, cleared.bg),
                        underline: mid[k].underline,
                        modifier: mid[k].modifier,
                        skip: mid[k].skip,
                    }),
                    None => shown.contains_key(k) == (mid.contains_key(k) || map.clear() is Some)
                        && shown[k] == cleared,
                }
            } else {
                shown.contains_key(k) == mid.contains_key(k) && shown[k] == mid[k]
            }
        }),
{
    let inner = map.inner_area(area);
    let mid = map.after_block(area, buf);
    let c = clear_draws(inner, map.clear());
    let t = tile_draws(inner, tiles);
    lemma_paint_cells_at(mid, c + t, k);
    lemma_last_draw_concat(c, t, k, mid[k].bg);
    lemma_tile_draws_at(inner, tiles, k, draw_bg(c, k, mid[k].bg));
    lemma_clear_draws_at(inner, map.clear(), k, mid[k].bg);
    let p = Position { x: (k.0 - inner.x) as u16, y: (k.1 - inner.y) as u16 };
    lemma_tile_bg_unset(tiles, p, draw_bg(c, k, mid[k].bg));
}

/// Where no tile was placed at `p`, the tiles leave the background there as it was.
pub proof fn lemma_tile_bg_unset(tiles: Seq<(Position, Char)>, p: Position, base: Color)
    ensures
        last_tile_at(tiles, p) is None ==> tile_bg_at(tiles, p, base) == base,
    decreases tiles.len(),
{
    if tiles.len() > 0 {
        lemma_tile_bg_unset(tiles.drop_last(), p, base);
    }
}

/// A map with no block, no clearing and no tiles leaves the buffer exactly as it was.
pub proof fn lemma_bare_map_draws_nothing<'a, F>(
    map: TileMap<'a, F>,
    area: Rect,
    buf: Buffer,
    next: Buffer,
) where F: Fn(&mut Tiles)
    requires
        map.frame() is None,
        map.clear() is None,
        map.drawn(area, Seq::empty(), buf, next),
    ensures
        next == buf,
{
    assert(map.draws(area, Seq::empty()) =~= Seq::<(Position, Char)>::empty());
}

/// A tile placed where it falls outside the inner area is left out: the other tiles are drawn as
/// if it had not been placed.
pub proof fn lemma_tile_draws_skip_outside(
    inner: Rect,
    a: Seq<(Position, Char)>,
    t: (Position, Char),
    b: Seq<(Position, Char)>,
)
    requires
        tile_cell(inner, t.0) is None,
    ensures
        tile_draws(inner, a + seq![t] + b) == tile_draws(inner, a + b),
    decreases b.len(),
{
    if b.len() == 0 {
        assert(a + seq![t] + b =~= a.push(t));
        assert(a.push(t).drop_last() =~= a);
        assert(a + b =~= a);
    } else {
        let s1 = a + seq![t] + b;
        let s2 = a + b;
        assert(s1.drop_last() =~= a + seq![t] + b.drop_last());
        assert(s2.drop_last() =~= a + b.drop_last());
        assert(s1.last() == b.last());
        assert(s2.last() == b.last());
        lemma_tile_draws_skip_outside(inner, a, t, b.drop_last());
    }
}

/// Tiles that fall outside the inner area never stop the map from being drawn and draw
/// nothing: whether the map fits, and what it draws, are as if they had not been placed.
pub proof fn lemma_outside_tiles_never_refuse<'a, F>(
    map: TileMap<'a, F>,
    area: Rect,
    a: Seq<(Position, Char)>,
    t: (Position, Char),
    b: Seq<(Position, Char)>,
    buf: Buffer,
) where F: Fn(&mut Tiles)
    requires
        tile_cell(map.inner_area(area), t.0) is None,
    ensures
        map.fits(area, a + seq![t] + b, buf) == map.fits(area, a + b, buf),
        map.draws(area, a + seq![t] + b) == map.draws(area, a + b),
{
    let inner = map.inner_area(area);
    let s1 = a + seq![t] + b;
    let s2 = a + b;
    let n = a.len() as int;
    lemma_tile_draws_skip_outside(inner, a, t, b);
    assert(s1[n] == t);
    assert forall|i: int| 0 <= i < s2.len() implies #[trigger] s2[i] == s1[if i < n {
        i
    } else {
        i + 1
    }] by {}
    assert forall|i: int| 0 <= i < s1.len() && i != n implies #[trigger] s1[i] == s2[if i < n {
        i
    } else {
        i - 1
    }] by {}
    let touch1 = exists|i: int| 0 <= i < s1.len() && #[trigger] tile_cell(inner, s1[i].0) is Some;
    let touch2 = exists|i: int| 0 <= i < s2.len() && #[trigger] tile_cell(inner, s2[i].0) is Some;
    if touch1 {
        let i = choose|i: int| 0 <= i < s1.len() && #[trigger] tile_cell(inner, s1[i].0) is Some;
        let j = if i < n {
            i
        } else {
            i - 1
        };
        assert(s1[i] == s2[j]);
        assert(tile_cell(inner, s2[j].0) is Some);
    }
    if touch2 {
        let j = choose|j: int| 0 <= j < s2.len() && #[trigger] tile_cell(inner, s2[j].0) is Some;
        let i = if j < n {
            j
        } else {
            j + 1
        };
        assert(s2[j] == s1[i]);
        assert(tile_cell(inner, s1[i].0) is Some);
    }
    assert(touch1 == touch2);
    let r = buffer_rect(buf);
    let in1 = forall|i: int|
        0 <= i < s1.len() ==> match #[trigger] tile_cell(inner, s1[i].0) {
            Some(q) => r.holds(q.x as int, q.y as int),
            None => true,
        };
    let in2 = forall|i: int|
        0 <= i < s2.len() ==> match #[trigger] tile_cell(inner, s2[i].0) {
            Some(q) => r.holds(q.x as int, q.y as int),
            None => true,
        };
    if in1 {
        assert forall|j: int| 0 <= j < s2.len() implies match #[trigger] tile_cell(
            inner,
            s2[j].0,
        ) {
            Some(q) => r.holds(q.x as int, q.y as int),
            None => true,
        } by {
            let i = if j < n {
                j
            } else {
                j + 1
            };
            assert(s2[j] == s1[i]);
            assert(tile_cell(inner, s1[i].0) == tile_cell(inner, s2[j].0));
        }
    }
    if in2 {
        assert forall|i: int| 0 <= i < s1.len() implies match #[trigger] tile_cell(
            inner,
            s1[i].0,
        ) {
            Some(q) => r.holds(q.x as int, q.y as int),
            None => true,
        } by {
            if i != n {
                let j = if i < n {
                    i
                } else {
                    i - 1
                };
                assert(s1[i] == s2[j]);
                assert(tile_cell(inner, s2[j].0) == tile_cell(inner, s1[i].0));
            }
        }
    }
    assert(in1 == in2);
}

} // verus!
