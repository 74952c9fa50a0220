use big::text::{Addr, Buffer, Dot};
use big::TextError;

const TEXT: &str = "Hello there !\nHow are you ?\nI test a text editor.";

#[test]
fn test_buffer_from_file() {
    let buf = Buffer::from_bytes(TEXT.as_bytes()).unwrap();
    let mut dot = Dot::new(&buf);
    dot.left_right(&buf, Addr::BufferStart, Addr::BufferEnd).unwrap();
    assert_eq!(
        buf.get(&dot).unwrap(),
        String::from("Hello there !\nHow are you ?\nI test a text editor.")
    );
}

#[test]
fn test_dot_anchor_left() {
    let buf = Buffer::from_bytes(TEXT.as_bytes()).unwrap();
    let mut dot = Dot::new(&buf);
    dot.anchor_left(&buf, Addr::BufferStart, Addr::Index(5)).unwrap();
    assert_eq!(buf.get(&dot).unwrap(), "Hello");
}

#[test]
fn test_dot_anchor_right() {
    let buf = Buffer::from_bytes(TEXT.as_bytes()).unwrap();
    let mut dot = Dot::new(&buf);
    dot.anchor_right(&buf, Addr::Index(5), Addr::Index(5)).unwrap();
    assert_eq!(buf.get(&dot).unwrap(), "Hello");
}

#[test]
fn test_dot_left_right() {
    let buf = Buffer::from_bytes(TEXT.as_bytes()).unwrap();
    let mut dot = Dot::new(&buf);
    dot.left_right(&buf, Addr::Index(5), Addr::Index(10)).unwrap();
    assert_eq!(buf.get(&dot).unwrap(), " ther");
}

#[test]
fn test_dot_move_left() {
    let buf = Buffer::from_bytes(TEXT.as_bytes()).unwrap();
    let mut dot = Dot::new(&buf);

    // out of buffer case
    dot.anchor_left(&buf, Addr::BufferStart, Addr::Index(2)).unwrap();
    let ret = dot.move_left(1);
    println!("{:?}", ret);
    assert!(ret.is_err());
    assert_eq!(ret, Err(TextError::BoundsError));
    // regular case
    dot.anchor_right(&buf, Addr::Index(7), Addr::BufferEnd).unwrap();
    dot.move_left(1).unwrap();
    assert_eq!(buf.get(&dot).unwrap(), " editor");
}

#[test]
fn test_dot_move_right() {
    let buf = Buffer::from_bytes(TEXT.as_bytes()).unwrap();
    let mut dot = Dot::new(&buf);

    // out of buffer case
    dot.anchor_right(&buf, Addr::Index(1), Addr::BufferEnd).unwrap();
    let ret = dot.move_right(&buf, 1);
    assert!(ret.is_err());
    // regular case
    dot.anchor_left(&buf, Addr::BufferStart, Addr::Index(5)).unwrap();
    dot.move_right(&buf, 2).unwrap();
    assert_eq!(buf.get(&dot).unwrap(), "llo t");
}

#[test]
fn test_coordinates_round_trip() {
    let buf = Buffer::from_bytes(TEXT.as_bytes()).unwrap();
    // line 1 starts at index 14, so (1, 4) names index 18 ...
    let i = Addr::Coordinates(1, 4).as_index(&buf).unwrap();
    assert_eq!(i, 18);
    // ... and index 18 names (1, 4) again.
    assert_eq!(Addr::Index(i).as_coordinates(&buf).unwrap(), (1, 4));
    // The first column of the first line round-trips too.
    let j = Addr::Coordinates(0, 0).as_index(&buf).unwrap();
    assert_eq!(j, 0);
    assert_eq!(Addr::Index(j).as_coordinates(&buf).unwrap(), (0, 0));
}

#[test]
fn test_move_round_trip() {
    let buf = Buffer::from_bytes(TEXT.as_bytes()).unwrap();
    let mut dot = Dot::new(&buf);
    dot.left_right(&buf, Addr::Index(5), Addr::Index(10)).unwrap();
    dot.move_left(3).unwrap();
    assert_eq!(dot, Dot { from: 2, to: 7 });
    dot.move_right(&buf, 3).unwrap();
    assert_eq!(dot, Dot { from: 5, to: 10 });
}

#[test]
fn test_trim_left_swaps_crossed_endpoints() {
    let buf = Buffer::from_bytes(TEXT.as_bytes()).unwrap();
    let mut dot = Dot::new(&buf);
    // left_right stores the pair as given, so the dot starts out inverted.
    dot.left_right(&buf, Addr::Index(10), Addr::Index(5)).unwrap();
    dot.trim_left(&buf, 1).unwrap();
    assert_eq!(dot, Dot { from: 6, to: 10 });
    assert!(dot.from <= dot.to);
}

#[test]
fn test_trim_right_swaps_crossed_endpoints() {
    let buf = Buffer::from_bytes(TEXT.as_bytes()).unwrap();
    let mut dot = Dot::new(&buf);
    dot.left_right(&buf, Addr::Index(10), Addr::Index(5)).unwrap();
    dot.trim_right(2).unwrap();
    assert_eq!(dot, Dot { from: 5, to: 8 });
    assert!(dot.from <= dot.to);
}

#[test]
fn test_trim_grows_the_span() {
    let buf = Buffer::from_bytes(TEXT.as_bytes()).unwrap();
    let mut dot = Dot::new(&buf);
    dot.left_right(&buf, Addr::Index(5), Addr::Index(10)).unwrap();
    dot.trim_left(&buf, 1).unwrap();
    assert_eq!(dot, Dot { from: 5, to: 11 });
    dot.trim_right(2).unwrap();
    assert_eq!(dot, Dot { from: 3, to: 11 });
    assert_eq!(buf.get(&dot).unwrap(), "lo there");
}

#[test]
fn test_move_left_bounds_error_leaves_dot_unchanged() {
    let buf = Buffer::from_bytes(TEXT.as_bytes()).unwrap();
    let mut dot = Dot::new(&buf);
    dot.left_right(&buf, Addr::Index(3), Addr::Index(7)).unwrap();
    assert_eq!(dot.move_left(4), Err(TextError::BoundsError));
    assert_eq!(dot, Dot { from: 3, to: 7 });
}

#[test]
fn test_move_right_bounds_error_leaves_dot_unchanged() {
    let buf = Buffer::from_bytes(TEXT.as_bytes()).unwrap();
    let mut dot = Dot::new(&buf);
    // The buffer holds 49 characters, so 48 + 2 reaches past its end.
    dot.left_right(&buf, Addr::Index(3), Addr::Index(48)).unwrap();
    assert_eq!(dot.move_right(&buf, 2), Err(TextError::BoundsError));
    assert_eq!(dot, Dot { from: 3, to: 48 });
}

#[test]
fn test_extend_shrinks_the_span() {
    let buf = Buffer::from_bytes(TEXT.as_bytes()).unwrap();
    let mut dot = Dot::new(&buf);
    dot.anchor_right(&buf, Addr::Index(7), Addr::BufferEnd).unwrap();
    assert_eq!(dot, Dot { from: 42, to: 49 });
    dot.extend_left(2).unwrap();
    assert_eq!(buf.get(&dot).unwrap(), "edito");
    dot.extend_right(&buf, 3).unwrap();
    assert_eq!(buf.get(&dot).unwrap(), "to");
}

#[test]
fn test_extend_left_swaps_crossed_endpoints() {
    let buf = Buffer::from_bytes(TEXT.as_bytes()).unwrap();
    let mut dot = Dot::new(&buf);
    dot.left_right(&buf, Addr::Index(5), Addr::Index(7)).unwrap();
    dot.extend_left(4).unwrap();
    assert_eq!(dot, Dot { from: 3, to: 5 });
}

#[test]
fn test_line_queries() {
    let buf = Buffer::from_bytes(TEXT.as_bytes()).unwrap();
    assert_eq!(Addr::LineStart(0).as_index(&buf), Ok(0));
    assert_eq!(Addr::LineStart(1).as_index(&buf), Ok(14));
    assert_eq!(Addr::LineEnd(0).as_index(&buf), Ok(14));
    assert_eq!(Addr::LineEnd(2).as_index(&buf), Ok(49));
    assert_eq!(Addr::BufferEnd.as_index(&buf), Ok(49));
    // One past the last line still names the one-past-the-end index ...
    assert_eq!(Addr::LineStart(3).as_index(&buf), Ok(49));
    // ... but anything further is out of range, as is a line's end past
    // the last line.
    assert_eq!(Addr::LineStart(4).as_index(&buf), Err(TextError::LineOutOfRange));
    assert_eq!(Addr::LineEnd(3).as_index(&buf), Err(TextError::LineOutOfRange));
    assert_eq!(Addr::Coordinates(4, 0).as_index(&buf), Err(TextError::LineOutOfRange));
}

#[test]
fn test_empty_line_has_equal_bounds() {
    let buf = Buffer::from_text("One\n");
    // The trailing newline opens an empty final line: its start and its
    // end are the same index.
    assert_eq!(Addr::LineStart(1).as_index(&buf), Ok(4));
    assert_eq!(Addr::LineEnd(1).as_index(&buf), Ok(4));
    assert_eq!(Addr::BufferEnd.as_coordinates(&buf), Ok((1, 0)));
}

#[test]
fn test_as_coordinates() {
    let buf = Buffer::from_bytes(TEXT.as_bytes()).unwrap();
    assert_eq!(Addr::Index(14).as_coordinates(&buf), Ok((1, 0)));
    // The newline itself still belongs to the line it ends.
    assert_eq!(Addr::Index(13).as_coordinates(&buf), Ok((0, 13)));
    assert_eq!(Addr::BufferEnd.as_coordinates(&buf), Ok((2, 21)));
    assert_eq!(Addr::LineEnd(0).as_coordinates(&buf), Ok((0, 14)));
    assert_eq!(Addr::LineStart(2).as_coordinates(&buf), Ok((2, 0)));
    assert_eq!(Addr::Coordinates(2, 3).as_coordinates(&buf), Ok((2, 3)));
    assert_eq!(Addr::Index(50).as_coordinates(&buf), Err(TextError::BoundsError));
}

#[test]
fn test_set_replaces_span_and_rebounds_dot() {
    let mut buf = Buffer::from_bytes(TEXT.as_bytes()).unwrap();
    let mut dot = Dot::new(&buf);
    dot.left_right(&buf, Addr::Index(0), Addr::Index(5)).unwrap();
    buf.set(&mut dot, "Howdy!").unwrap();
    // The dot now bounds exactly the inserted text.
    assert_eq!(dot, Dot { from: 0, to: 6 });
    assert_eq!(buf.get(&dot).unwrap(), "Howdy!");
    let mut all = Dot::new(&buf);
    all.left_right(&buf, Addr::BufferStart, Addr::BufferEnd).unwrap();
    assert_eq!(
        buf.get(&all).unwrap(),
        "Howdy! there !\nHow are you ?\nI test a text editor."
    );
}

#[test]
fn test_set_empty_replacement_deletes() {
    let mut buf = Buffer::from_text("Hello there !");
    let mut dot = Dot::new(&buf);
    dot.left_right(&buf, Addr::Index(5), Addr::Index(11)).unwrap();
    buf.set(&mut dot, "").unwrap();
    assert_eq!(dot, Dot { from: 5, to: 5 });
    let mut all = Dot::new(&buf);
    all.left_right(&buf, Addr::BufferStart, Addr::BufferEnd).unwrap();
    assert_eq!(buf.get(&all).unwrap(), "Hello !");
}

#[test]
fn test_set_out_of_bounds_changes_nothing() {
    let mut buf = Buffer::from_text("short");
    let mut dot = Dot { from: 2, to: 9 };
    assert_eq!(buf.set(&mut dot, "x"), Err(TextError::BoundsError));
    assert_eq!(dot, Dot { from: 2, to: 9 });
    let mut all = Dot::new(&buf);
    all.left_right(&buf, Addr::BufferStart, Addr::BufferEnd).unwrap();
    assert_eq!(buf.get(&all).unwrap(), "short");
}

#[test]
fn test_get_out_of_bounds_is_an_error() {
    let buf = Buffer::from_text("short");
    assert_eq!(buf.get(&Dot { from: 0, to: 6 }), Err(TextError::BoundsError));
    assert_eq!(buf.get(&Dot { from: 4, to: 2 }), Err(TextError::BoundsError));
}

#[test]
fn test_from_bytes_rejects_invalid_utf8() {
    let bytes: Vec<u8> = vec![0xff, 0xfe, 0x48];
    match Buffer::from_bytes(&bytes) {
        Err(e) => assert_eq!(e, TextError::DecodeError),
        Ok(_) => panic!("invalid bytes were accepted"),
    }
}

#[test]
fn test_empty_buffer() {
    let buf = Buffer::new();
    let dot = Dot::new(&buf);
    assert_eq!(dot, Dot { from: 0, to: 0 });
    assert_eq!(buf.get(&dot).unwrap(), "");
    assert_eq!(Addr::BufferEnd.as_index(&buf), Ok(0));
    assert_eq!(Addr::BufferEnd.as_coordinates(&buf), Ok((0, 0)));
    assert_eq!(Addr::LineStart(0).as_index(&buf), Ok(0));
    assert_eq!(Addr::LineEnd(0).as_index(&buf), Ok(0));
    let other = Buffer::default();
    assert_eq!(Addr::BufferEnd.as_index(&other), Ok(0));
}

#[test]
fn test_anchor_right_below_zero_is_an_error() {
    let buf = Buffer::from_text("hi");
    let mut dot = Dot::new(&buf);
    assert_eq!(
        dot.anchor_right(&buf, Addr::Index(5), Addr::Index(3)),
        Err(TextError::BoundsError)
    );
    assert_eq!(dot, Dot { from: 0, to: 2 });
}

#[test]
fn test_addr_move_left_and_right() {
    let buf = Buffer::from_bytes(TEXT.as_bytes()).unwrap();
    let mut a = Addr::LineStart(1);
    a.move_left(&buf, 1).unwrap();
    assert_eq!(a.as_index(&buf), Ok(13));
    a.move_right(&buf, 2).unwrap();
    assert_eq!(a.as_index(&buf), Ok(15));
    assert_eq!(a.move_left(&buf, 16), Err(TextError::BoundsError));
    assert_eq!(a.move_right(&buf, 35), Err(TextError::BoundsError));
    assert_eq!(a.as_index(&buf), Ok(15));
}
