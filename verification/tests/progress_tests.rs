use bundle_extractor::progress::{ExtractionOutcome, Fraction, ProgressEvent};

#[test]
fn fraction_holds_numbers_from_zero_to_one() {
    let third = Fraction::new(1, 3).unwrap();
    assert_eq!(third.done(), 1);
    assert_eq!(third.total(), 3);
    assert!(Fraction::new(0, 3).is_some());
    assert!(Fraction::new(3, 3).is_some());
    assert!(Fraction::new(4, 3).is_none());
    assert!(Fraction::new(0, 0).is_none());
    assert!(Fraction::new(1, 0).is_none());
    assert!(Fraction::new(usize::MAX, usize::MAX).is_some());
}

#[test]
fn zero_fraction_is_nothing_of_one() {
    let zero = Fraction::zero();
    assert_eq!(zero.done(), 0);
    assert_eq!(zero.total(), 1);
    assert_eq!(Some(zero), Fraction::new(0, 1));
    assert_eq!(zero.done() as f32 / zero.total() as f32, 0.0);
}

#[test]
fn done_is_no_fraction() {
    assert_ne!(ProgressEvent::Done, ProgressEvent::Fraction(Fraction::new(1, 1).unwrap()));
    assert_ne!(ProgressEvent::Done, ProgressEvent::Fraction(Fraction::zero()));
}

#[test]
fn io_failure_carries_the_description() {
    assert_eq!(
        ExtractionOutcome::io_failure("No such file or directory (os error 2)"),
        ExtractionOutcome::Failure(
            "Error during export: No such file or directory (os error 2)".to_string()
        )
    );
    assert_eq!(
        ExtractionOutcome::io_failure(""),
        ExtractionOutcome::Failure("Error during export: ".to_string())
    );
}

#[test]
fn worker_without_result_is_a_generic_failure() {
    assert_eq!(
        ExtractionOutcome::worker_failure(),
        ExtractionOutcome::Failure("extraction failed".to_string())
    );
    assert_eq!(
        ExtractionOutcome::of_worker(None),
        ExtractionOutcome::Failure("extraction failed".to_string())
    );
}

#[test]
fn worker_result_is_passed_on() {
    assert_eq!(
        ExtractionOutcome::of_worker(Some(ExtractionOutcome::Success)),
        ExtractionOutcome::Success
    );
    let failure = ExtractionOutcome::io_failure("disk full");
    assert_eq!(ExtractionOutcome::of_worker(Some(failure.clone())), failure);
    assert_eq!(failure.duplicate(), failure);
    assert_eq!(ExtractionOutcome::Success.duplicate(), ExtractionOutcome::Success);
}
