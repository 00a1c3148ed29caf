use pt::commit_next;

#[test]
fn commit_next_hands_out_the_address_and_moves_on_by_a_page() {
    let mut base: u64 = 0;
    assert_eq!(commit_next(&mut base), 0);
    assert_eq!(base, 0x1000);
    assert_eq!(commit_next(&mut base), 0x1000);
    assert_eq!(commit_next(&mut base), 0x2000);
    assert_eq!(base, 0x3000);
    let mut high: u64 = u64::MAX - 0x1000;
    assert_eq!(commit_next(&mut high), u64::MAX - 0x1000);
    assert_eq!(high, u64::MAX);
}
