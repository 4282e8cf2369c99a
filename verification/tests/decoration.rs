use lwm::decoration::{Border, Colorscheme, Decoration, Frame, parse_color};
use lwm::geometry::Padding;

#[test]
fn parsing_hex_colors() {
    assert_eq!(parse_color(b"0x4C566A"), Some(0x4C566A));
    assert_eq!(parse_color(b"#A98698"), Some(0xA98698));
    assert_eq!(parse_color(b"EF1D55"), Some(0xEF1D55));
    assert_eq!(parse_color(b"1e1e1e"), Some(0x1E1E1E));
    assert_eq!(parse_color(b"0xFFffFF"), Some(0xFFFFFF));
    assert_eq!(parse_color(b"000000"), Some(0));
}

#[test]
fn rejecting_bad_colors() {
    assert_eq!(parse_color(b"12345"), None);
    assert_eq!(parse_color(b"1234567"), None);
    assert_eq!(parse_color(b"0x12345G"), None);
    assert_eq!(parse_color(b"red"), None);
    assert_eq!(parse_color(b""), None);
    assert_eq!(parse_color(b"#"), None);
    assert_eq!(parse_color(b"0x"), None);
}

#[test]
fn default_colorscheme() {
    let c = Colorscheme::default();
    assert_eq!(c.normal, 0x4C566A);
    assert_eq!(c.active, 0x1E1E1E);
    assert_eq!(c.focused, 0xA98698);
    assert_eq!(c.urgent, 0xEF1D55);
}

#[test]
fn decoration_extents_add_up() {
    let colors = Colorscheme::default();
    let deco = Decoration {
        border: Some(Border { width: 2, colors }),
        frame: Some(Frame { extents: Padding::new(1, 2, 3, 4), colors }),
    };
    let e = deco.extents();
    assert_eq!((e.top, e.right, e.bottom, e.left), (3, 4, 5, 6));

    let bare = Decoration { border: None, frame: None };
    let e = bare.extents();
    assert_eq!((e.top, e.right, e.bottom, e.left), (0, 0, 0, 0));

    let pad = Padding::new(10, 10, 10, 10);
    let widened = pad.add_decoration(deco);
    assert_eq!(
        (widened.top, widened.right, widened.bottom, widened.left),
        (13, 14, 15, 16)
    );
}
