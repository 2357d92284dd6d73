use ratatui_core::style::Modifier;
use ratatui_tools::layout::Position;
use ratatui_tools::tilemap::tile_target;
use ratatui_tools::tilemap::rect_within;
use ratatui_core::buffer::Buffer;
use ratatui_core::style::Color;
use ratatui_tools::layout::Rect;
use ratatui_tools::tilemap::{Char, TileMap, Tiles};
use ratatui_widgets::block::Block;

fn rect(x: u16, y: u16, width: u16, height: u16) -> Rect {
    Rect { x, y, width, height }
}

fn buffer(x: u16, y: u16, w: u16, h: u16) -> Buffer {
    Buffer::empty(ratatui_core::layout::Rect::new(x, y, w, h))
}

fn painted<F: Fn(&mut Tiles)>(map: &TileMap<'_, F>) -> Option<Tiles> {
    map.paint_tiles()
}

fn row(buf: &Buffer, y: u16) -> String {
    let a = buf.area;
    (a.x..a.x + a.width).map(|x| buf[(x, y)].symbol().to_string()).collect()
}

#[test]
fn set_tile_keeps_order() {
    let mut t = Tiles::default();
    t.set_tile(1, 2, Char::new('a', Color::Red));
    t.set_tile(0, 0, Char::new('b', Color::Blue));
    let v = t.tiles();
    assert_eq!(v.len(), 2);
    assert_eq!((v[0].0.x, v[0].0.y), (1, 2));
    assert_eq!((v[1].0.x, v[1].0.y), (0, 0));
}

#[test]
fn clear_then_tiles_relative_to_area() {
    let map = TileMap::default()
        .clear_character(Char::new('#', Color::White).bg(Color::Gray))
        .paint(|tiles: &mut Tiles| {
            tiles.set_tile(1, 0, Char::new('@', Color::Black));
            tiles.set_tile(0, 1, Char::new('x', Color::Black));
        });
    let mut buf = buffer(0, 0, 5, 3);
    let tiles = painted(&map);
    map.render_tiles(rect(1, 1, 3, 2), &mut buf, tiles);
    assert_eq!(row(&buf, 0), "     ");
    assert_eq!(row(&buf, 1), " #@# ");
    assert_eq!(row(&buf, 2), " x## ");
    assert_eq!(buf[(2, 1)].fg, Color::Black);
    assert_eq!(buf[(1, 1)].bg, Color::Gray);
    assert_eq!(buf[(2, 1)].bg, Color::Gray);
}

#[test]
fn tiles_outside_area_are_dropped_and_last_wins() {
    let map = TileMap::default().paint(|tiles: &mut Tiles| {
        tiles.set_tile(0, 0, Char::new('a', Color::Red));
        tiles.set_tile(0, 0, Char::new('b', Color::Red));
        tiles.set_tile(2, 0, Char::new('c', Color::Red));
        tiles.set_tile(u16::MAX, 0, Char::new('d', Color::Red));
    });
    let mut buf = buffer(0, 0, 4, 1);
    let tiles = painted(&map);
    map.render_tiles(rect(1, 0, 2, 1), &mut buf, tiles);
    assert_eq!(row(&buf, 0), " b  ");
}

#[test]
fn without_clear_other_cells_stay() {
    let map = TileMap::default().paint(|tiles: &mut Tiles| {
        tiles.set_tile(1, 1, Char::new('o', Color::Green));
    });
    let mut buf = Buffer::with_lines(["abc", "def", "ghi"]);
    let tiles = painted(&map);
    map.render_tiles(rect(0, 0, 3, 3), &mut buf, tiles);
    assert_eq!(row(&buf, 0), "abc");
    assert_eq!(row(&buf, 1), "dof");
    assert_eq!(row(&buf, 2), "ghi");
}

#[test]
fn block_draws_border_and_shrinks_area() {
    let map = TileMap::default()
        .block(Block::bordered())
        .clear_character(Char::new('.', Color::White))
        .paint(|tiles: &mut Tiles| tiles.set_tile(0, 0, Char::new('@', Color::Red)));
    let mut buf = buffer(0, 0, 4, 3);
    let tiles = painted(&map);
    map.render_tiles(rect(0, 0, 4, 3), &mut buf, tiles);
    assert_eq!(row(&buf, 0), "┌──┐");
    assert_eq!(row(&buf, 1), "│@.│");
    assert_eq!(row(&buf, 2), "└──┘");
}

#[test]
fn no_closure_no_clear_draws_nothing() {
    let map: TileMap<'_, fn(&mut Tiles)> = TileMap::default();
    let mut buf = Buffer::with_lines(["ab"]);
    let tiles = painted(&map);
    assert!(tiles.is_none());
    map.render_tiles(rect(0, 0, 2, 1), &mut buf, tiles);
    assert_eq!(row(&buf, 0), "ab");
}

#[test]
fn render_checked_refuses_area_outside_buffer() {
    let map: TileMap<'_, fn(&mut Tiles)> = TileMap::default().clear_character(Char::new('#', Color::White));
    let mut buf = Buffer::with_lines(["ab"]);
    assert!(!map.render_checked(rect(1, 0, 5, 1), &mut buf, None));
    assert_eq!(row(&buf, 0), "ab");
    let map: TileMap<'_, fn(&mut Tiles)> = TileMap::default().clear_character(Char::new('#', Color::White));
    assert!(map.render_checked(rect(1, 0, 1, 1), &mut buf, None));
    assert_eq!(row(&buf, 0), "a#");
}

#[test]
fn tile_target_formula() {
    let q = tile_target(rect(2, 3, 4, 4), Position { x: 1, y: 2 }).unwrap();
    assert_eq!((q.x, q.y), (3, 5));
    assert!(tile_target(rect(2, 3, 4, 4), Position { x: 4, y: 0 }).is_none());
    assert!(tile_target(rect(2, 3, 4, 4), Position { x: u16::MAX, y: 0 }).is_none());
}

#[test]
fn rect_within_cases() {
    assert!(rect_within(rect(1, 1, 2, 2), rect(0, 0, 3, 3)));
    assert!(!rect_within(rect(1, 1, 3, 2), rect(0, 0, 3, 3)));
    assert!(rect_within(rect(10, 10, 0, 5), rect(0, 0, 3, 3)));
}

#[test]
fn example_map_with_border_and_colours() {
    let map = TileMap::default()
        .block(Block::bordered())
        .clear_character(Char::new('#', Color::White).bg(Color::Gray))
        .paint(|t: &mut Tiles| {
            t.set_tile(10, 10, Char::new('@', Color::Black));
            t.set_tile(30, 0, Char::new('!', Color::Red));
        });
    let mut buf = buffer(0, 0, 20, 20);
    let tiles = painted(&map);
    assert!(map.render_checked(rect(0, 0, 20, 20), &mut buf, tiles));
    assert_eq!(buf[(11, 11)].symbol(), "@");
    assert_eq!(buf[(11, 11)].fg, Color::Black);
    assert_eq!(buf[(11, 11)].bg, Color::Gray);
    assert_eq!(buf[(1, 1)].symbol(), "#");
    assert_eq!(buf[(1, 1)].fg, Color::White);
    assert_eq!(buf[(0, 0)].symbol(), "┌");
    assert!(buf.content.iter().all(|c| c.symbol() != "!"));
}

#[test]
fn render_checked_refuses_short_buffer() {
    let map: TileMap<'_, fn(&mut Tiles)> = TileMap::default().clear_character(Char::new('#', Color::White));
    let mut buf = Buffer { area: ratatui_core::layout::Rect::new(0, 0, 2, 1), content: vec![] };
    assert!(!map.render_checked(rect(0, 0, 2, 1), &mut buf, None));
    assert!(buf.content.is_empty());
}

#[test]
fn render_checked_allows_area_past_buffer_when_nothing_lands_there() {
    let map = TileMap::default().paint(|t: &mut Tiles| t.set_tile(0, 0, Char::new('z', Color::Red)));
    let mut buf = Buffer::with_lines(["ab"]);
    let tiles = painted(&map);
    assert!(map.render_checked(rect(1, 0, 10, 1), &mut buf, tiles));
    assert_eq!(row(&buf, 0), "az");
}

#[test]
fn tile_keeps_modifiers_and_background_without_one() {
    let map = TileMap::default().paint(|t: &mut Tiles| t.set_tile(0, 0, Char::new('q', Color::Red)));
    let mut buf = Buffer::with_lines(["a"]);
    buf[(0, 0)].modifier = Modifier::BOLD;
    buf[(0, 0)].bg = Color::Blue;
    let tiles = painted(&map);
    map.render_tiles(rect(0, 0, 1, 1), &mut buf, tiles);
    assert_eq!(buf[(0, 0)].symbol(), "q");
    assert_eq!(buf[(0, 0)].fg, Color::Red);
    assert_eq!(buf[(0, 0)].bg, Color::Blue);
    assert_eq!(buf[(0, 0)].modifier, Modifier::BOLD);
}

#[test]
fn later_tile_with_background_hides_earlier() {
    let map = TileMap::default().paint(|t: &mut Tiles| {
        t.set_tile(0, 0, Char::new('a', Color::Red).bg(Color::Green));
        t.set_tile(0, 0, Char::new('b', Color::Yellow));
    });
    let mut buf = Buffer::with_lines(["x"]);
    let tiles = painted(&map);
    map.render_tiles(rect(0, 0, 1, 1), &mut buf, tiles);
    assert_eq!(buf[(0, 0)].symbol(), "b");
    assert_eq!(buf[(0, 0)].fg, Color::Yellow);
    assert_eq!(buf[(0, 0)].bg, Color::Green);
}

#[test]
fn draw_on_cell_twice_is_once() {
    let t = Char::new('k', Color::Cyan).bg(Color::Magenta);
    let mut once = Buffer::with_lines(["ab"]);
    once[(1, 0)].modifier = Modifier::ITALIC;
    let mut twice = once.clone();
    t.draw_on_cell(&mut once, Position { x: 1, y: 0 });
    t.draw_on_cell(&mut twice, Position { x: 1, y: 0 });
    t.draw_on_cell(&mut twice, Position { x: 1, y: 0 });
    assert_eq!(once, twice);
    assert_eq!(once[(1, 0)].symbol(), "k");
    assert_eq!(once[(1, 0)].modifier, Modifier::ITALIC);
    assert_eq!(once[(0, 0)].symbol(), "a");
}

#[test]
fn draw_on_cell_with_background_hides_earlier() {
    let first = Char::new('a', Color::Red).bg(Color::Green);
    let second = Char::new('b', Color::Yellow).bg(Color::Blue);
    let mut over = Buffer::with_lines(["x"]);
    let mut alone = over.clone();
    first.draw_on_cell(&mut over, Position { x: 0, y: 0 });
    second.draw_on_cell(&mut over, Position { x: 0, y: 0 });
    second.draw_on_cell(&mut alone, Position { x: 0, y: 0 });
    assert_eq!(over, alone);
    assert_eq!(alone[(0, 0)].bg, Color::Blue);
}

#[test]
fn bare_map_leaves_buffer_exactly() {
    let mut buf = Buffer::with_lines(["abc", "def"]);
    buf[(1, 1)].modifier = Modifier::UNDERLINED;
    buf[(2, 0)].bg = Color::Red;
    let before = buf.clone();
    let map = TileMap::<fn(&mut Tiles)>::default();
    map.render_tiles(rect(0, 0, 3, 2), &mut buf, None);
    assert_eq!(buf, before);
    let outside = TileMap::default().paint(|t: &mut Tiles| t.set_tile(5, 5, Char::new('q', Color::Red)));
    let tiles = painted(&outside);
    outside.render_tiles(rect(0, 0, 3, 2), &mut buf, tiles);
    assert_eq!(buf, before);
}

#[derive(Debug)]
struct Shrink;

impl ratatui_widgets::block::CellEffect for Shrink {
    fn apply(
        &self,
        _shadow_area: ratatui_core::layout::Rect,
        _base_area: ratatui_core::layout::Rect,
        buf: &mut Buffer,
    ) {
        *buf = Buffer::empty(ratatui_core::layout::Rect::new(0, 0, 1, 1));
    }
}

#[test]
fn own_shadow_effect_that_shrinks_buffer_leaves_tiles_out() {
    let block = Block::bordered().shadow(ratatui_widgets::block::Shadow::custom(Shrink));
    let map = TileMap::default()
        .block(block)
        .paint(|t: &mut Tiles| t.set_tile(1, 1, Char::new('@', Color::Red)));
    let mut buf = buffer(0, 0, 6, 5);
    let tiles = painted(&map);
    map.render_tiles(rect(0, 0, 5, 4), &mut buf, tiles);
    assert_eq!(buf.area, ratatui_core::layout::Rect::new(0, 0, 1, 1));
    assert_eq!(buf[(0, 0)].symbol(), " ");
}

#[test]
fn built_in_shadow_then_tiles() {
    let block = Block::bordered().shadow(ratatui_widgets::block::Shadow::block());
    let map = TileMap::default()
        .block(block)
        .paint(|t: &mut Tiles| t.set_tile(0, 0, Char::new('@', Color::Red)));
    let mut buf = buffer(0, 0, 5, 4);
    let tiles = painted(&map);
    assert!(map.render_checked(rect(0, 0, 4, 3), &mut buf, tiles));
    assert_eq!(row(&buf, 0), "┌──┐ ");
    assert_eq!(row(&buf, 1), "│@ │█");
    assert_eq!(row(&buf, 3), " ████");
}

#[test]
fn render_paints_then_draws() {
    let map = TileMap::default()
        .clear_character(Char::new('.', Color::White))
        .paint(|t: &mut Tiles| {
            t.set_tile(0, 0, Char::new('a', Color::Red));
            t.set_tile(2, 0, Char::new('b', Color::Red));
        });
    let mut buf = buffer(0, 0, 4, 1);
    assert!(map.render(rect(1, 0, 3, 1), &mut buf));
    assert_eq!(row(&buf, 0), " a.b");
    let outside = TileMap::<fn(&mut Tiles)>::default().clear_character(Char::new('.', Color::White));
    let mut small = buffer(0, 0, 2, 1);
    assert!(!outside.render(rect(0, 0, 3, 1), &mut small));
    assert_eq!(row(&small, 0), "  ");
}

#[test]
fn paint_tiles_without_closure_is_none() {
    let map = TileMap::<fn(&mut Tiles)>::default();
    assert!(map.paint_tiles().is_none());
    let map = TileMap::default().paint(|t: &mut Tiles| t.set_tile(3, 4, Char::new('z', Color::Red)));
    let tiles = map.paint_tiles().unwrap();
    assert_eq!(tiles.tiles().len(), 1);
    assert_eq!((tiles.tiles()[0].0.x, tiles.tiles()[0].0.y), (3, 4));
}
