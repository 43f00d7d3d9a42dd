use terminal::render::canvas::{Canvas, DrawOp};
use terminal::render::colors;
use terminal::render::font::{BitFont, CHAR_HEIGHT, CHAR_WIDTH};
use terminal::render::text::TextRenderer;
use terminal::ui::decorations::WindowDecorations;

fn ops(canvas: &Canvas) -> Vec<DrawOp> {
    (0..canvas.len()).map(|i| canvas.op(i)).collect()
}

fn test_font() -> BitFont {
    // 'A' and 'B'
    let mut a = [0u8; 16];
    a[0] = 0b1000_0001;
    a[15] = 0b0101_0101;
    let b = [0xffu8; 16];
    BitFont::with_glyphs('A', vec![a, b])
}

#[test]
fn font_falls_back_to_the_blank_glyph() {
    let font = test_font();
    assert_eq!(font.get_glyph('A')[0], 0b1000_0001);
    assert_eq!(font.get_glyph('B'), [0xff; 16]);
    assert_eq!(font.get_glyph('C'), [0; 16]);
    assert_eq!(font.get_glyph('@'), [0; 16]);
    assert_eq!(font.get_glyph('\u{10ffff}'), [0; 16]);
    assert_eq!(BitFont::new().get_glyph('A'), [0; 16]);
}

#[test]
fn draw_char_paints_every_pixel_of_the_cell() {
    let r = TextRenderer::with_font(test_font());
    let mut canvas = Canvas::new();
    r.draw_char(&mut canvas, 10, 20, 'A');
    let drawn = ops(&canvas);
    assert_eq!(drawn.len(), (CHAR_WIDTH * CHAR_HEIGHT) as usize);
    assert_eq!(drawn[0], DrawOp::Pixel { x: 10, y: 20, color: colors::TEXT });
    assert_eq!(drawn[1], DrawOp::Pixel { x: 11, y: 20, color: colors::BACKGROUND });
    assert_eq!(drawn[7], DrawOp::Pixel { x: 17, y: 20, color: colors::TEXT });
    assert_eq!(drawn[8], DrawOp::Pixel { x: 10, y: 21, color: colors::BACKGROUND });
    assert_eq!(drawn[120], DrawOp::Pixel { x: 10, y: 35, color: colors::BACKGROUND });
    assert_eq!(drawn[121], DrawOp::Pixel { x: 11, y: 35, color: colors::TEXT });
    assert_eq!(drawn[127], DrawOp::Pixel { x: 17, y: 35, color: colors::TEXT });
}

#[test]
fn unknown_characters_paint_a_blank_cell() {
    let r = TextRenderer::new();
    let mut canvas = Canvas::new();
    r.draw_char(&mut canvas, 0, 0, 'é');
    let drawn = ops(&canvas);
    assert_eq!(drawn.len(), 128);
    for (k, op) in drawn.iter().enumerate() {
        assert_eq!(
            *op,
            DrawOp::Pixel { x: (k % 8) as u32, y: (k / 8) as u32, color: colors::BACKGROUND }
        );
    }
}

#[test]
fn draw_string_advances_by_cells_and_skips_line_feeds() {
    let r = TextRenderer::with_font(test_font());
    let mut canvas = Canvas::new();
    r.draw_string(&mut canvas, 100, 50, "B\nA\n");
    let drawn = ops(&canvas);
    assert_eq!(drawn.len(), 256);
    assert_eq!(drawn[0], DrawOp::Pixel { x: 100, y: 50, color: colors::TEXT });
    assert_eq!(drawn[127], DrawOp::Pixel { x: 107, y: 65, color: colors::TEXT });
    assert_eq!(drawn[128], DrawOp::Pixel { x: 108, y: 50, color: colors::TEXT });
    assert_eq!(drawn[129], DrawOp::Pixel { x: 109, y: 50, color: colors::BACKGROUND });
    let mut empty = Canvas::new();
    r.draw_string(&mut empty, 0, 0, "\n\n");
    assert_eq!(empty.len(), 0);
}

#[test]
fn draw_string_colored_uses_the_given_colors() {
    let r = TextRenderer::with_font(test_font());
    let mut canvas = Canvas::new();
    r.draw_string_colored(&mut canvas, 0, 0, "A", 1, 2);
    let drawn = ops(&canvas);
    assert_eq!(drawn[0], DrawOp::Pixel { x: 0, y: 0, color: 1 });
    assert_eq!(drawn[1], DrawOp::Pixel { x: 1, y: 0, color: 2 });
    assert_eq!(r.char_width(), 8);
    assert_eq!(r.char_height(), 16);
    let d = TextRenderer::default();
    assert_eq!(d.fg_color, colors::TEXT);
    assert_eq!(d.bg_color, colors::BACKGROUND);
}

#[test]
fn canvas_records_operations_in_order() {
    let mut canvas = Canvas::new();
    canvas.put_pixel(1, 2, 3);
    canvas.fill_rect(-1, 4, 5, 6, 7);
    assert_eq!(
        ops(&canvas),
        vec![
            DrawOp::Pixel { x: 1, y: 2, color: 3 },
            DrawOp::Fill { left: -1, top: 4, width: 5, height: 6, color: 7 }
        ]
    );
    canvas.clear();
    assert_eq!(canvas.len(), 0);
}

#[test]
fn content_area_lies_inside_border_and_padding() {
    let d = WindowDecorations::new("Terminal", 720, 480);
    assert_eq!(d.content_area(), (5, 32, 710, 443));
    assert!(d.is_active);
    assert_eq!(d.title, "Terminal");
}

#[test]
fn decorations_draw_title_bar_buttons_and_border() {
    let d = WindowDecorations::new("AB", 200, 100);
    let r = TextRenderer::with_font(test_font());
    let mut canvas = Canvas::new();
    d.draw(&mut canvas, &r);
    let drawn = ops(&canvas);
    // bar, two glyphs, button + glyph, button + glyph, three border fills
    assert_eq!(drawn.len(), 1 + 256 + 129 + 129 + 3);
    assert_eq!(
        drawn[0],
        DrawOp::Fill { left: 0, top: 0, width: 200, height: 28, color: colors::TITLE_BAR_BG_ACTIVE }
    );
    // title centered: (200 - 16) / 2 = 92, (28 - 16) / 2 = 6
    assert_eq!(drawn[1], DrawOp::Pixel { x: 92, y: 6, color: colors::TITLE_TEXT });
    assert_eq!(drawn[2], DrawOp::Pixel { x: 93, y: 6, color: colors::TITLE_BAR_BG_ACTIVE });
    assert_eq!(
        drawn[257],
        DrawOp::Fill { left: 154, top: 0, width: 46, height: 28, color: colors::CLOSE_BUTTON_HOVER }
    );
    assert_eq!(drawn[258], DrawOp::Pixel { x: 173, y: 6, color: colors::CLOSE_BUTTON_HOVER });
    assert_eq!(
        drawn[386],
        DrawOp::Fill { left: 108, top: 0, width: 46, height: 28, color: colors::MINIMIZE_BUTTON_HOVER }
    );
    assert_eq!(
        drawn[515],
        DrawOp::Fill { left: 0, top: 28, width: 1, height: 72, color: colors::WINDOW_BORDER }
    );
    assert_eq!(
        drawn[516],
        DrawOp::Fill { left: 199, top: 28, width: 1, height: 72, color: colors::WINDOW_BORDER }
    );
    assert_eq!(
        drawn[517],
        DrawOp::Fill { left: 0, top: 99, width: 200, height: 1, color: colors::WINDOW_BORDER }
    );
    let mut inactive = WindowDecorations::new("", 200, 100);
    inactive.is_active = false;
    let mut canvas = Canvas::new();
    inactive.draw(&mut canvas, &r);
    assert_eq!(
        canvas.op(0),
        DrawOp::Fill { left: 0, top: 0, width: 200, height: 28, color: colors::TITLE_BAR_BG }
    );
}
