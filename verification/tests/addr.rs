use pt::{page_offset, pd_index, pdpt_index, pml4_index, pt_index};

#[test]
fn indices_are_the_nine_bit_fields() {
    let v: u64 = 0x4141_0000;
    assert_eq!(pml4_index(v), 0);
    assert_eq!(pdpt_index(v), 1);
    assert_eq!(pd_index(v), 10);
    assert_eq!(pt_index(v), 16);
    assert_eq!(page_offset(v), 0);
}

#[test]
fn every_field_can_reach_511() {
    let v: u64 = 0x0000_ffff_ffff_ffff;
    assert_eq!(pml4_index(v), 511);
    assert_eq!(pdpt_index(v), 511);
    assert_eq!(pd_index(v), 511);
    assert_eq!(pt_index(v), 511);
    assert_eq!(page_offset(v), 0xfff);
}

#[test]
fn fields_do_not_overlap() {
    assert_eq!(pml4_index(1 << 39), 1);
    assert_eq!(pdpt_index(1 << 39), 0);
    assert_eq!(pdpt_index(1 << 30), 1);
    assert_eq!(pd_index(1 << 30), 0);
    assert_eq!(pd_index(1 << 21), 1);
    assert_eq!(pt_index(1 << 21), 0);
    assert_eq!(pt_index(1 << 12), 1);
    assert_eq!(page_offset(1 << 12), 0);
    assert_eq!(page_offset((1 << 12) - 1), 0xfff);
    assert_eq!(pt_index((1 << 12) - 1), 0);
}

#[test]
fn bits_above_47_are_ignored() {
    let low: u64 = 0x0000_1234_5678_9abc;
    let high: u64 = 0xffff_1234_5678_9abc;
    assert_eq!(pml4_index(low), pml4_index(high));
    assert_eq!(pdpt_index(low), pdpt_index(high));
    assert_eq!(pd_index(low), pd_index(high));
    assert_eq!(pt_index(low), pt_index(high));
    assert_eq!(page_offset(low), page_offset(high));
    assert_eq!(pml4_index(high), 0x24);
    assert_eq!(pdpt_index(high), 0xd1);
    assert_eq!(pd_index(high), 0xb3);
    assert_eq!(pt_index(high), 0x189);
    assert_eq!(page_offset(high), 0xabc);
}
