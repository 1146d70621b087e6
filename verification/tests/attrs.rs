use child_by_source::attrs::{nth_attr, AttrId, AttrSlot};
use child_by_source::syntax::TextRange;
use either::Either;

fn range(start: u32, end: u32) -> TextRange {
    TextRange { start, end }
}

#[test]
fn ast_index_is_the_low_24_bits() {
    assert_eq!(AttrId { id: 0 }.ast_index(), 0);
    assert_eq!(AttrId { id: 7 }.ast_index(), 7);
    assert_eq!(AttrId { id: 0x00FF_FFFF }.ast_index(), 0x00FF_FFFF);
    assert_eq!(AttrId { id: 0x0100_0000 }.ast_index(), 0);
    assert_eq!(AttrId { id: 0x8300_0002 }.ast_index(), 2);
    assert_eq!(AttrId { id: u32::MAX }.ast_index(), 0x00FF_FFFF);
}

#[test]
fn nth_attr_gives_the_attribute_at_the_position() {
    let slots: Vec<AttrSlot> =
        vec![Either::Left(range(0, 4)), Either::Right(range(5, 9)), Either::Left(range(10, 14))];

    assert_eq!(nth_attr(&slots, 0), Some(range(0, 4)));
    assert_eq!(nth_attr(&slots, 2), Some(range(10, 14)));
}

#[test]
fn nth_attr_skips_doc_comments() {
    let slots: Vec<AttrSlot> = vec![Either::Left(range(0, 4)), Either::Right(range(5, 9))];

    assert_eq!(nth_attr(&slots, 1), None);
}

#[test]
fn nth_attr_skips_positions_past_the_end() {
    let slots: Vec<AttrSlot> = vec![Either::Left(range(0, 4))];

    assert_eq!(nth_attr(&slots, 1), None);
    assert_eq!(nth_attr(&slots, usize::MAX), None);
    assert_eq!(nth_attr(&Vec::new(), 0), None);
}

#[test]
fn text_range_new_keeps_both_ends() {
    assert_eq!(TextRange::new(3, 9), range(3, 9));
}
