use ascii_graphics::border;
use ascii_graphics::screen;
use ascii_graphics::screen::Screen;

fn rows(s: &Screen) -> Vec<String> {
    s.render()
}

#[test]
fn new() {
    let screen = Screen::new(10, 10, ' ');

    assert_eq!(screen.width, 10);
    assert_eq!(screen.height, 10);
    assert_eq!(screen.cells().capacity(), 100);
}

#[test]
fn indexing() {
    let mut screen = Screen::new(5, 5, '*');
    screen.set(0, 0, 'a');
    screen.set(1, 4, 'b');
    assert_eq!(screen.get(0, 0), 'a');
    assert_eq!(screen.get(1, 4), 'b');
}

#[test]
fn create_is_blank_and_renders_full_rows() {
    let s = screen::create(7, 3);
    assert_eq!(s.width, 7);
    assert_eq!(s.height, 3);
    assert!(s.cells().iter().all(|c| *c == ' '));
    let r = rows(&s);
    assert_eq!(r.len(), 3);
    for row in &r {
        assert_eq!(row.chars().count(), 7);
        assert_eq!(row, "       ");
    }
}

#[test]
fn set_changes_only_its_cell() {
    let mut s = Screen::new(4, 3, '.');
    s.set(3, 0, 'x');
    assert_eq!(s.get(3, 0), 'x');
    assert_eq!(rows(&s), vec!["...x", "....", "...."]);
    s.set(0, 1, 'y');
    assert_eq!(s.get(0, 1), 'y');
    assert_eq!(s.get(3, 0), 'x');
    assert_eq!(rows(&s), vec!["...x", "y...", "...."]);
}

#[test]
fn border_outline_edges_and_corners() {
    let mut s = screen::create(5, 4);
    s.border(border::full_settings('+', 't', 'b', 'l', 'r'));
    assert_eq!(rows(&s), vec!["+ttt+", "l   r", "l   r", "+bbb+"]);
}

#[test]
fn border_with_symmetric_settings() {
    let mut s = screen::create(5, 5);
    s.border(border::settings('+', '-', '|'));
    assert_eq!(rows(&s), vec!["+---+", "|   |", "|   |", "|   |", "+---+"]);
}

#[test]
fn solid_border_matches_border_of_one_character() {
    let mut a = screen::create(6, 4);
    a.soild_border('*');
    let mut b = screen::create(6, 4);
    b.border(border::full_settings('*', '*', '*', '*', '*'));
    assert_eq!(rows(&a), rows(&b));
    assert_eq!(rows(&a), vec!["******", "*    *", "*    *", "******"]);
}

#[test]
fn text_fits_exactly() {
    let mut s = screen::create(5, 5);
    s.background('-').text("hello", 0, 3);
    assert_eq!(rows(&s), vec!["-----", "-----", "-----", "hello", "-----"]);
}

#[test]
fn text_is_truncated_at_the_edge() {
    let mut s = screen::create(5, 5);
    s.background('-').text("hello world", 0, 3);
    assert_eq!(rows(&s), vec!["-----", "-----", "-----", "hello", "-----"]);
    s.text("xyz", 3, 0);
    assert_eq!(rows(&s)[0], "---xy");
}

#[test]
fn rect_fill_then_stroke() {
    let mut s = screen::create(5, 5);
    s.background('-').fill('#').stroke('*').rect(2, 2, 2, 2);
    assert_eq!(rows(&s), vec!["-----", "-***-", "-*#*-", "-***-", "-----"]);
}

#[test]
fn rect_fill_only_and_nothing() {
    let mut s = screen::create(5, 5);
    s.background('-').fill('#').rect(2, 2, 3, 1);
    assert_eq!(rows(&s), vec!["-----", "-----", "-###-", "-----", "-----"]);
    s.no_fill().rect(2, 2, 4, 4);
    assert_eq!(rows(&s), vec!["-----", "-----", "-###-", "-----", "-----"]);
}

#[test]
fn line_one_cell_per_column() {
    let mut s = screen::create(5, 5);
    s.stroke('*').line(0, 1, 3, 4);
    assert_eq!(rows(&s), vec!["     ", "*    ", " *   ", "  *  ", "   * "]);
    let mut last = 0;
    for x in 0..4u32 {
        let ys: Vec<u32> = (0..5u32).filter(|y| s.get(x, *y) == '*').collect();
        assert_eq!(ys.len(), 1);
        assert!(ys[0] >= last);
        last = ys[0];
    }
}

#[test]
fn line_shallow_rounds_halves_up() {
    let mut s = screen::create(5, 2);
    s.stroke('*').line(0, 0, 4, 1);
    assert_eq!(rows(&s), vec!["**   ", "  ***"]);
    let mut t = screen::create(5, 2);
    t.stroke('*').line(4, 1, 0, 0);
    assert_eq!(rows(&t), rows(&s));
}

#[test]
fn line_falling_and_vertical() {
    let mut s = screen::create(3, 3);
    s.stroke('o').line(0, 2, 2, 0);
    assert_eq!(rows(&s), vec!["  o", " o ", "o  "]);
    let mut v = screen::create(3, 3);
    v.stroke('|').line(1, 2, 1, 0);
    assert_eq!(rows(&v), vec!["   ", "   ", " | "]);
}

#[test]
fn line_needs_stroke_and_stroke_character_is_kept() {
    let mut s = screen::create(3, 3);
    s.stroke('x').no_stroke().line(0, 0, 2, 2);
    assert_eq!(rows(&s), vec!["   ", "   ", "   "]);
    s.stroke('y').line(0, 0, 2, 2);
    assert_eq!(rows(&s), vec!["y  ", " y ", "  y"]);
}

#[test]
fn circle_by_squared_distance() {
    let mut s = screen::create(11, 11);
    s.background('.').fill('o').stroke('#').circle(5, 5, 3);
    for i in 0..11u32 {
        for j in 0..11u32 {
            let dx = i as i64 - 5;
            let dy = j as i64 - 5;
            let d = dx * dx + dy * dy;
            let inside = dx.abs() <= 3 && dy.abs() <= 3;
            let want = if inside && d < 9 {
                'o'
            } else if inside && (d == 9 || d == 10) {
                '#'
            } else {
                '.'
            };
            assert_eq!(s.get(i, j), want);
        }
    }
    assert_eq!(rows(&s)[2], "....###....");
    assert_eq!(rows(&s)[5], "..#ooooo#..");
}

#[test]
fn circle_stroke_only_keeps_inside() {
    let mut s = screen::create(5, 5);
    s.background('.').stroke('#').circle(2, 2, 1);
    assert_eq!(rows(&s), vec![".....", ".###.", ".#.#.", ".###.", "....."]);
}

#[test]
fn background_twice_is_background_once() {
    let mut a = screen::create(4, 3);
    a.set(1, 1, 'q');
    a.background('z');
    let once = rows(&a);
    a.background('z');
    assert_eq!(rows(&a), once);
    assert_eq!(once, vec!["zzzz", "zzzz", "zzzz"]);
}

#[test]
fn shift_left_keeps_trailing_columns() {
    let mut s = screen::create(5, 3);
    s.soild_border('*');
    s.shift_left(1);
    assert_eq!(rows(&s), vec!["*****", "   **", "*****"]);
}

#[test]
fn shift_left_by_two_and_by_zero() {
    let mut s = screen::create(5, 1);
    s.text("abcde", 0, 0).shift_left(2);
    assert_eq!(rows(&s), vec!["cdede"]);
    s.shift_left(0);
    assert_eq!(rows(&s), vec!["cdede"]);
    s.shift_left(5);
    assert_eq!(rows(&s), vec!["cdede"]);
}
