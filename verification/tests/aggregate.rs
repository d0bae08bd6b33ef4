use anti_vm::detect::{detector, DetectionAggregator, Detector, DETECTORS};

fn run(verdicts: [bool; 6]) -> (Vec<Detector>, bool) {
    let mut aggregator = DetectionAggregator::new();
    let mut consulted = Vec::new();
    while let Some(detector) = aggregator.next_detector() {
        let position = consulted.len();
        consulted.push(detector);
        aggregator.report(verdicts[position]);
    }
    (consulted, aggregator.verdict())
}

#[test]
fn all_negative_consults_every_detector_in_order() {
    let (consulted, verdict) = run([false; 6]);
    assert_eq!(
        consulted,
        vec![
            Detector::KeywordFingerprint,
            Detector::MacPrefix,
            Detector::FilesystemArtifact,
            Detector::Timing,
            Detector::HypervisorBit,
            Detector::InvalidLeaf,
        ]
    );
    assert_eq!(consulted.len(), DETECTORS);
    assert!(!verdict);
}

#[test]
fn first_positive_settles_the_detection() {
    for position in 0..6 {
        let mut verdicts = [false; 6];
        verdicts[position] = true;
        let (consulted, verdict) = run(verdicts);
        assert_eq!(consulted.len(), position + 1);
        assert!(verdict);
    }
}

#[test]
fn one_positive_suffices_whatever_the_others_say() {
    for pattern in 0u32..64 {
        let mut verdicts = [false; 6];
        for (position, verdict) in verdicts.iter_mut().enumerate() {
            *verdict = pattern & (1 << position) != 0;
        }
        let (_, verdict) = run(verdicts);
        assert_eq!(verdict, pattern != 0);
    }
}

#[test]
fn fresh_aggregator_has_a_negative_verdict() {
    let aggregator = DetectionAggregator::new();
    assert!(!aggregator.verdict());
    assert_eq!(aggregator.next_detector(), Some(Detector::KeywordFingerprint));
}

#[test]
fn settled_detection_takes_no_further_verdict() {
    let mut aggregator = DetectionAggregator::new();
    for _ in 0..6 {
        aggregator.report(false);
    }
    assert_eq!(aggregator.next_detector(), None);
    aggregator.report(true);
    assert!(!aggregator.verdict());

    let mut aggregator = DetectionAggregator::new();
    aggregator.report(true);
    assert_eq!(aggregator.next_detector(), None);
    aggregator.report(false);
    assert!(aggregator.verdict());
}

#[test]
fn positive_detector_is_the_one_that_fired() {
    let order = [
        Detector::KeywordFingerprint,
        Detector::MacPrefix,
        Detector::FilesystemArtifact,
        Detector::Timing,
        Detector::HypervisorBit,
        Detector::InvalidLeaf,
    ];
    for (position, expected) in order.iter().enumerate() {
        let mut aggregator = DetectionAggregator::new();
        assert_eq!(aggregator.positive_detector(), None);
        for _ in 0..position {
            aggregator.report(false);
            assert_eq!(aggregator.positive_detector(), None);
        }
        aggregator.report(true);
        assert_eq!(aggregator.positive_detector(), Some(*expected));
        aggregator.report(true);
        assert_eq!(aggregator.positive_detector(), Some(*expected));
    }
}

#[test]
fn detectors_by_position() {
    assert_eq!(detector(0), Some(Detector::KeywordFingerprint));
    assert_eq!(detector(1), Some(Detector::MacPrefix));
    assert_eq!(detector(2), Some(Detector::FilesystemArtifact));
    assert_eq!(detector(3), Some(Detector::Timing));
    assert_eq!(detector(4), Some(Detector::HypervisorBit));
    assert_eq!(detector(5), Some(Detector::InvalidLeaf));
    assert_eq!(detector(6), None);
    assert_eq!(detector(usize::MAX), None);
}
