use daneel::noise::OctaveSchedule;

#[test]
fn masks_of_first_steps() {
    let mut s = OctaveSchedule::new();
    let masks: Vec<u32> = (0..8).map(|_| s.advance()).collect();
    assert_eq!(masks, vec![1, 3, 1, 7, 1, 3, 1, 15]);
    assert_eq!(s.counter, 8);
}

#[test]
fn octave_i_refreshes_every_two_to_the_i_steps() {
    let mut s = OctaveSchedule::new();
    let mut refreshes = [0u32; 8];
    for _ in 0..256 {
        let mask = s.advance();
        for (i, r) in refreshes.iter_mut().enumerate() {
            if mask & (1 << i) != 0 {
                *r += 1;
            }
        }
    }
    for (i, r) in refreshes.iter().enumerate() {
        assert_eq!(*r, 256 >> i, "octave {i}");
    }
}

#[test]
fn counter_wraps_to_all_octaves() {
    let mut s = OctaveSchedule { counter: u32::MAX };
    assert_eq!(s.advance(), u32::MAX);
    assert_eq!(s.counter, 0);
    assert_eq!(s.advance(), 1);
}
