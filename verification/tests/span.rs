use delay_strategy::span::{Span, MILLIS_PER_SEC, NANOS_PER_MILLI, NANOS_PER_SEC};

#[test]
fn units_relate_as_expected() {
    assert_eq!(NANOS_PER_SEC, 1_000_000_000);
    assert_eq!(NANOS_PER_MILLI, 1_000_000);
    assert_eq!(MILLIS_PER_SEC, 1_000);
    assert_eq!(NANOS_PER_MILLI as u64 * MILLIS_PER_SEC, NANOS_PER_SEC as u64);
}

#[test]
fn new_keeps_seconds_and_fraction() {
    let span = Span::new(3, 141_592_653).unwrap();
    assert_eq!(span.as_secs(), 3);
    assert_eq!(span.subsec_nanos(), 141_592_653);
}

#[test]
fn new_carries_whole_seconds_out_of_the_fraction() {
    let span = Span::new(1, 1_500_000_000).unwrap();
    assert_eq!(span.as_secs(), 2);
    assert_eq!(span.subsec_nanos(), 500_000_000);

    let span = Span::new(0, u32::MAX).unwrap();
    assert_eq!(span.as_secs(), 4);
    assert_eq!(span.subsec_nanos(), 294_967_295);
}

#[test]
fn new_refuses_what_does_not_fit() {
    assert_eq!(Span::new(u64::MAX, 1_000_000_000), None);
    assert_eq!(Span::new(u64::MAX - 3, u32::MAX), None);
    assert!(Span::new(u64::MAX, 999_999_999).is_some());
    assert!(Span::new(u64::MAX - 4, u32::MAX).is_some());
}

#[test]
fn equal_lengths_are_equal_spans() {
    assert_eq!(Span::new(1, 1_500_000_000), Span::new(2, 500_000_000));
    assert_eq!(Span::new(0, 250_000_000), Some(Span::from_millis(250)));
    assert_ne!(Span::new(0, 250_700_000), Some(Span::from_millis(250)));
}

#[test]
fn from_millis_splits_seconds_and_fraction() {
    let span = Span::from_millis(2_500);
    assert_eq!(span.as_secs(), 2);
    assert_eq!(span.subsec_nanos(), 500_000_000);
    assert_eq!(span.as_millis(), 2_500);
}

#[test]
fn from_millis_takes_every_count() {
    let span = Span::from_millis(u64::MAX);
    assert_eq!(span.as_secs(), 18_446_744_073_709_551);
    assert_eq!(span.subsec_nanos(), 615_000_000);
    assert_eq!(span.as_millis(), u64::MAX as u128);

    let zero = Span::from_millis(0);
    assert_eq!(zero.as_secs(), 0);
    assert_eq!(zero.subsec_nanos(), 0);
    assert_eq!(zero.as_millis(), 0);
}

#[test]
fn as_millis_drops_what_is_below_one_millisecond() {
    assert_eq!(Span::new(0, 999_999).unwrap().as_millis(), 0);
    assert_eq!(Span::new(0, 1_000_000).unwrap().as_millis(), 1);
    assert_eq!(Span::new(0, 250_700_000).unwrap().as_millis(), 250);
    assert_eq!(Span::new(7, 999_999_999).unwrap().as_millis(), 7_999);
}

#[test]
fn as_millis_of_the_longest_span() {
    let longest = Span::new(u64::MAX, 999_999_999).unwrap();
    assert_eq!(longest.as_millis(), 18_446_744_073_709_551_615_999);
}

#[test]
fn span_is_copied_and_printed() {
    let span = Span::from_millis(1_001);
    let copy = span;
    assert_eq!(span, copy);
    assert_eq!(format!("{:?}", span), "Span { secs: 1, nanos: 1000000 }");
}
