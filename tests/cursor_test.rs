use rustvim::buffer::Buffer;
use rustvim::cursor::Cursor;

const WIDTH: u16 = 80;

/// A buffer holding exactly the given lines.
fn buffer_of(lines: &[&str]) -> Buffer {
    let mut buffer = Buffer::new();
    for (i, line) in lines.iter().enumerate() {
        if i + 1 < lines.len() {
            buffer.insert_line(i, String::from(*line));
        } else {
            *buffer.get_line_mut(i).unwrap() = String::from(*line);
        }
    }
    buffer
}

#[test]
fn test_new_cursor() {
    let cursor = Cursor::new(4);
    assert_eq!(cursor.row, 0);
    assert_eq!(cursor.col, 0);
    assert_eq!(cursor.screen_row, 4);
    assert_eq!(cursor.screen_col, 5);
}

#[test]
fn test_move_right() {
    let mut buffer = Buffer::new();
    buffer.insert_line(0, String::from("first line"));
    let mut cursor = Cursor::new(4);

    for _ in 0..10 {
        cursor.move_right(&buffer, WIDTH);
    }
    assert_eq!(cursor.col, 10);

    cursor.move_right(&buffer, WIDTH);
    assert_eq!(cursor.col, 10, "the cursor does not move past the end of the line");
}

#[test]
fn test_move_left() {
    let mut buffer = Buffer::new();
    buffer.insert_line(0, String::from("first line"));
    let mut cursor = Cursor::new(4);

    for _ in 0..5 {
        cursor.move_right(&buffer, WIDTH);
    }
    assert_eq!(cursor.col, 5);

    cursor.move_left(&buffer, WIDTH);
    assert_eq!(cursor.col, 4);

    for _ in 0..4 {
        cursor.move_left(&buffer, WIDTH);
    }
    assert_eq!(cursor.col, 0);

    cursor.move_left(&buffer, WIDTH);
    assert_eq!(cursor.col, 0, "the cursor does not move past the start of the line");
}

#[test]
fn test_move_down() {
    let buffer = buffer_of(&["first line", "second line", "third line"]);
    let mut cursor = Cursor::new(4);

    assert_eq!(cursor.row, 0, "the cursor starts on line 0");

    cursor.move_down(&buffer, WIDTH);
    assert_eq!(cursor.row, 1, "the cursor moves to line 1");

    cursor.move_down(&buffer, WIDTH);
    assert_eq!(cursor.row, 2, "the cursor moves to line 2");

    let row_before = cursor.row;
    cursor.move_down(&buffer, WIDTH);
    assert_eq!(cursor.row, row_before, "the cursor does not move past the last line");
}

#[test]
fn test_move_up() {
    let buffer = buffer_of(&["first line", "second line", "third line"]);
    let mut cursor = Cursor::new(4);

    cursor.move_down(&buffer, WIDTH);
    cursor.move_down(&buffer, WIDTH);
    assert_eq!(cursor.row, 2, "the cursor is on the last line");

    cursor.move_up(&buffer, WIDTH);
    assert_eq!(cursor.row, 1, "the cursor moves to line 1");

    cursor.move_up(&buffer, WIDTH);
    assert_eq!(cursor.row, 0, "the cursor moves to line 0");

    cursor.move_up(&buffer, WIDTH);
    assert_eq!(cursor.row, 0, "the cursor does not move past the first line");
}

#[test]
fn test_move_to_start_end() {
    let mut buffer = Buffer::new();
    buffer.insert_line(0, String::from("first line"));
    let mut cursor = Cursor::new(4);

    for _ in 0..5 {
        cursor.move_right(&buffer, WIDTH);
    }
    assert_eq!(cursor.col, 5, "the cursor is on column 5");

    cursor.move_to_start(&buffer, WIDTH);
    assert_eq!(cursor.col, 0, "the cursor is at the start of the line");

    cursor.move_to_end(&buffer, WIDTH);
    assert_eq!(cursor.col, 10, "the cursor is at the end of the line");
}

#[test]
fn test_cursor_column_adjustment() {
    let buffer = buffer_of(&["first line", "second line", "short"]);
    let mut cursor = Cursor::new(4);

    cursor.move_to_end(&buffer, WIDTH);
    assert_eq!(cursor.col, 10, "the cursor is at the end of the first line");

    cursor.move_down(&buffer, WIDTH);
    assert_eq!(cursor.col, 10, "the second line is long enough: the column stays");

    cursor.move_down(&buffer, WIDTH);
    assert_eq!(cursor.col, 5, "the column comes back to the end of the short line");
}

#[test]
fn moves_at_the_edges_change_nothing() {
    let buffer = buffer_of(&["ab", "cd"]);
    let mut cursor = Cursor::new(4);
    cursor.move_left(&buffer, WIDTH);
    assert_eq!((cursor.row, cursor.col), (0, 0));
    cursor.move_up(&buffer, WIDTH);
    assert_eq!((cursor.row, cursor.col), (0, 0));
    cursor.move_down(&buffer, WIDTH);
    cursor.move_to_end(&buffer, WIDTH);
    assert_eq!((cursor.row, cursor.col), (1, 2));
    cursor.move_right(&buffer, WIDTH);
    assert_eq!((cursor.row, cursor.col), (1, 2));
    cursor.move_down(&buffer, WIDTH);
    assert_eq!((cursor.row, cursor.col), (1, 2));
}

#[test]
fn column_is_clamped_moving_up_and_down() {
    let buffer = buffer_of(&["a", "a long line", "ab"]);
    let mut cursor = Cursor::new(4);
    cursor.move_down(&buffer, WIDTH);
    cursor.move_to_end(&buffer, WIDTH);
    assert_eq!(cursor.col, 11);
    cursor.move_up(&buffer, WIDTH);
    assert_eq!((cursor.row, cursor.col), (0, 1));
    cursor.move_down(&buffer, WIDTH);
    cursor.move_to_end(&buffer, WIDTH);
    cursor.move_down(&buffer, WIDTH);
    assert_eq!((cursor.row, cursor.col), (2, 2));
}

#[test]
fn screen_position_follows_wrapping() {
    // width 20: 15 characters to a row
    let long = "this is a long line that needs to be wrapped"; // 44 characters, 3 rows
    let buffer = buffer_of(&[long, "next"]);
    let mut cursor = Cursor::new(4);
    cursor.update_screen_position(&buffer, 20);
    assert_eq!((cursor.screen_row, cursor.screen_col), (4, 5));

    for _ in 0..16 {
        cursor.move_right(&buffer, 20);
    }
    // column 16 is on the second wrap row, one cell in
    assert_eq!((cursor.screen_row, cursor.screen_col), (5, 6));

    cursor.move_down(&buffer, 20);
    // below the three rows of the long line; column clamped to 4
    assert_eq!((cursor.row, cursor.col), (1, 4));
    assert_eq!((cursor.screen_row, cursor.screen_col), (7, 9));
}

#[test]
fn screen_row_uses_the_start_row() {
    let buffer = buffer_of(&["one", "two"]);
    let mut cursor = Cursor::new(10);
    cursor.move_down(&buffer, 20);
    assert_eq!((cursor.screen_row, cursor.screen_col), (11, 5));
}

#[test]
fn vertical_moves_clamp_the_column_at_the_edges() {
    let buffer = Buffer::new();
    let mut cursor = Cursor::new(4);
    cursor.col = 3;
    cursor.move_up(&buffer, WIDTH);
    assert_eq!((cursor.row, cursor.col), (0, 0));
    cursor.col = 3;
    cursor.move_down(&buffer, WIDTH);
    assert_eq!((cursor.row, cursor.col), (0, 0));
    assert_eq!((cursor.screen_row, cursor.screen_col), (4, 5));
}
