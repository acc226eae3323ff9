use life::display::Display;
use life::universe::{Point, Universe};

const BLUE: &str = "\x1b[0;;44m \x1b[0m";
const GREEN: &str = "\x1b[0;;42m \x1b[0m";
const RED: &str = "\x1b[0;;41m \x1b[0m";

#[test]
fn basic_frame_marks_alive_cells() {
    let u = Universe::new(2, 2, vec![Point(0, 0), Point(1, 1)]);
    let d = Display::basic(2, 2);
    let expected = format!("{} \n {}\n", BLUE, BLUE);
    assert_eq!(d.frame(&u), expected);
}

#[test]
fn fancy_frame_distinguishes_born_alive_died() {
    let u = Universe {
        xsize: 3,
        ysize: 1,
        gen: 1,
        alive: vec![Point(0, 0), Point(1, 0)],
        born: vec![Point(0, 0)],
        died: vec![Point(2, 0)],
    };
    let d = Display::fancy(3, 1);
    let expected = format!("{}{}{}\n", GREEN, BLUE, RED);
    assert_eq!(d.frame(&u), expected);
}

#[test]
fn fancy_frame_after_tick_colors_changes() {
    let u = Universe::new(5, 5, vec![Point(1, 2), Point(2, 2), Point(3, 2)]);
    let next = u.tick();
    let d = Display::fancy(5, 5);
    let frame = d.frame(&next);
    let born_rows: Vec<&str> = frame.lines().collect();
    assert_eq!(born_rows.len(), 5);
    // Row 1 holds the newly born (2, 1), row 2 the survivor flanked by deaths.
    assert_eq!(born_rows[1], format!("  {}  ", GREEN));
    assert_eq!(born_rows[2], format!(" {}{}{} ", RED, BLUE, RED));
    assert_eq!(born_rows[3], format!("  {}  ", GREEN));
}

#[test]
fn basic_frame_of_empty_grid_is_blank() {
    let u = Universe::new(3, 2, Vec::new());
    let d = Display::basic(3, 2);
    assert_eq!(d.frame(&u), "   \n   \n");
}
