use audiotool::clock::advance_clock;

#[test]
fn clock_counts_samples() {
    assert_eq!(advance_clock(0, 512, 48000), 512);
    assert_eq!(advance_clock(512, 512, 48000), 1024);
    assert_eq!(advance_clock(7, 0, 48000), 7);
}

#[test]
fn clock_wraps_at_the_sample_rate() {
    assert_eq!(advance_clock(47999, 1, 48000), 0);
    assert_eq!(advance_clock(47616, 512, 48000), 128);
    assert_eq!(advance_clock(0, 48000, 48000), 0);
    assert_eq!(advance_clock(100, 96000, 48000), 100);
}

#[test]
fn clock_stays_below_the_sample_rate() {
    let mut clock: u32 = 0;
    for _ in 0..1000 {
        clock = advance_clock(clock, 441, 44100);
        assert!(clock < 44100);
    }
    assert_eq!(clock, 0);
}

#[test]
fn clock_reduces_a_reading_that_is_out_of_range() {
    assert_eq!(advance_clock(48001, 0, 48000), 1);
    assert_eq!(advance_clock(u32::MAX, 1, 48000), 23296);
}

#[test]
fn clock_takes_the_largest_block() {
    let expected = ((5u128 + usize::MAX as u128) % 48000) as u32;
    assert_eq!(advance_clock(5, usize::MAX, 48000), expected);
    let expected = (((u32::MAX - 1) as u128 + usize::MAX as u128) % u32::MAX as u128) as u32;
    assert_eq!(advance_clock(u32::MAX - 1, usize::MAX, u32::MAX), expected);
}

#[test]
fn clock_at_rate_one_is_always_zero() {
    assert_eq!(advance_clock(0, 12345, 1), 0);
    assert_eq!(advance_clock(9, 1, 1), 0);
}

#[test]
fn clock_by_blocks_reads_as_clock_by_total() {
    let blocks: [usize; 5] = [512, 1024, 333, 48000, 47999];
    let mut clock: u32 = 123;
    let mut total: usize = 0;
    for block in blocks {
        clock = advance_clock(clock, block, 44100);
        total += block;
        assert_eq!(clock, advance_clock(123, total, 44100));
    }
    assert_eq!(clock, ((123 + total) % 44100) as u32);
}
