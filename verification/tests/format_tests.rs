use display::bitmap::{Pixel, TRANSPARENT};
use display::mailbox::Mailbox;
use display::ppf::{load, PpfError};

fn bytes(s: &str) -> Vec<u8> {
    s.as_bytes().to_vec()
}

#[test]
fn ppf_loads_a_two_by_two_bitmap() {
    let bm = load(&bytes("ppf\n1 0\nx 1\n")).unwrap();
    assert_eq!(bm.width, 2);
    assert_eq!(bm.height, 2);
    // pixel order: opaque black, opaque white, transparent white, opaque black
    assert_eq!(bm.get_pix(0, 0), Pixel::new(0x00, 0x00, 0x00));
    assert_eq!(bm.get_pix(1, 0), Pixel::new(0xff, 0xff, 0xff));
    assert_eq!(bm.get_pix(0, 1), Pixel { blue: 0xff, green: 0xff, red: 0xff, alpha: TRANSPARENT });
    assert_eq!(bm.get_pix(1, 1), Pixel::new(0x00, 0x00, 0x00));
}

#[test]
fn ppf_row_width_mismatch_is_an_error() {
    assert!(matches!(load(&bytes("ppf\n1 0\n1 0 0\n")), Err(PpfError::RowMismatch)));
}

#[test]
fn ppf_short_row_is_an_error() {
    assert!(matches!(load(&bytes("ppf\n1 0\n1\n")), Err(PpfError::RowMismatch)));
}

#[test]
fn ppf_bad_magic_is_an_error() {
    assert!(matches!(load(&bytes("ppg\n1 0\n")), Err(PpfError::BadMagic)));
    assert!(matches!(load(&bytes("pp")), Err(PpfError::BadMagic)));
    assert!(matches!(load(&bytes("")), Err(PpfError::BadMagic)));
}

#[test]
fn ppf_unknown_token_is_an_error() {
    assert!(matches!(load(&bytes("ppf\n1 q\n")), Err(PpfError::BadToken)));
}

#[test]
fn ppf_adjacent_token_bytes_are_an_error() {
    assert!(matches!(load(&bytes("ppf\n10\n")), Err(PpfError::BadToken)));
}

#[test]
fn ppf_comments_are_skipped() {
    let bm = load(&bytes("ppf\n# cursor arrow\n1\n# middle\n0\n")).unwrap();
    assert_eq!(bm.width, 1);
    assert_eq!(bm.height, 2);
    assert_eq!(bm.get_pix(0, 0), Pixel::new(0x00, 0x00, 0x00));
    assert_eq!(bm.get_pix(0, 1), Pixel::new(0xff, 0xff, 0xff));
}

#[test]
fn ppf_missing_trailing_newline_still_closes_the_row() {
    let bm = load(&bytes("ppf\n1 0\n0 1")).unwrap();
    assert_eq!(bm.width, 2);
    assert_eq!(bm.height, 2);
    assert_eq!(bm.get_pix(0, 1), Pixel::new(0xff, 0xff, 0xff));
    assert_eq!(bm.get_pix(1, 1), Pixel::new(0x00, 0x00, 0x00));
}

#[test]
fn ppf_empty_body_is_an_empty_bitmap() {
    let bm = load(&bytes("ppf\n")).unwrap();
    assert_eq!(bm.width, 0);
    assert_eq!(bm.height, 0);
    assert_eq!(bm.pxs.len(), 0);
}

#[test]
fn ppf_tabs_separate_tokens() {
    let bm = load(&bytes("ppf\n1\t0\n")).unwrap();
    assert_eq!(bm.width, 2);
    assert_eq!(bm.height, 1);
}

#[test]
fn mailbox_starts_empty_and_takes_once() {
    let mut m = Mailbox::new();
    assert!(m.is_empty());
    assert_eq!(m.take(), None);
    m.send(4, 5);
    assert!(!m.is_empty());
    assert_eq!(m.take(), Some((4, 5)));
    assert_eq!(m.take(), None);
}

#[test]
fn mailbox_latest_value_wins() {
    let mut m = Mailbox::new();
    m.send(1, 1);
    m.send(2, 2);
    m.send(3, 3);
    // exactly one value is observed, and it is the last one
    assert_eq!(m.take(), Some((3, 3)));
    // the superseded coordinates are never delivered
    assert_eq!(m.take(), None);
}
