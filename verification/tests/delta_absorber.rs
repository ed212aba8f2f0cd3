use creek::delta::DeltaAbsorber;

#[test]
fn whole_packets_are_skipped_until_one_straddles_the_target() {
    // the container landed 10 frames early; packets carry 3 frames
    let mut absorber = DeltaAbsorber::new(110, 100);
    assert_eq!(absorber.remaining(), 10);
    assert!(!absorber.is_satisfied());
    assert_eq!(absorber.on_packet(3), None);
    assert_eq!(absorber.on_packet(3), None);
    assert_eq!(absorber.on_packet(3), None);
    assert_eq!(absorber.remaining(), 1);
    // the fourth packet covers the target: expose it from offset 1
    assert_eq!(absorber.on_packet(3), Some(1));
    assert!(absorber.is_satisfied());
}

#[test]
fn an_exact_landing_exposes_the_first_packet_whole() {
    let mut absorber = DeltaAbsorber::new(64, 64);
    assert!(absorber.is_satisfied());
    assert_eq!(absorber.on_packet(5), Some(0));
}

#[test]
fn a_packet_matching_the_delta_exactly_is_skipped_whole() {
    let mut absorber = DeltaAbsorber::new(8, 0);
    assert_eq!(absorber.on_packet(8), None);
    assert_eq!(absorber.remaining(), 0);
    assert_eq!(absorber.on_packet(8), Some(0));
}

#[test]
fn copy_extent_is_the_smaller_remainder() {
    // destination block of 10 frames, 3 filled; source packet of 8, 2 taken
    assert_eq!(creek::block::copy_extent(10, 3, 8, 2), 6);
    // nearly full destination
    assert_eq!(creek::block::copy_extent(10, 9, 8, 2), 1);
    // exhausted source
    assert_eq!(creek::block::copy_extent(10, 3, 8, 8), 0);
}
