//! Combining the detectors into one verdict.

use vstd::prelude::*;
use crate::probe::{check_invalid_leaf, cpuid, has_signature, CpuidResult, INVALID_LEAF};
use crate::timing::{timing_verdict, CYCLE_THRESHOLD};

verus! {

/// At least one of the verdicts is positive.
pub open spec fn any_positive(verdicts: Seq<bool>) -> bool {
    exists|i: int| 0 <= i < verdicts.len() && verdicts[i]
}

/// The three detectors that question the processor, combined: the mean
/// latency of the timed query lies above the threshold, or the hypervisor
/// advertises itself, or the invalid leaf came back unchanged.
pub fn inside_vm(
    avg_cycles: u64,
    hypervisor_answer: &CpuidResult,
    invalid_leaf_result: u32,
) -> (detected: bool)
    ensures
        detected == (avg_cycles > CYCLE_THRESHOLD || has_signature(*hypervisor_answer)
            || invalid_leaf_result == INVALID_LEAF),
{
    timing_verdict(avg_cycles, CYCLE_THRESHOLD) || cpuid(hypervisor_answer)
        || check_invalid_leaf(invalid_leaf_result)
}

/// If one detector reports a positive, the aggregate is positive, whatever
/// the others report.
pub proof fn lemma_one_positive_suffices(verdicts: Seq<bool>, i: int)
    requires
        0 <= i < verdicts.len(),
    ensures
        verdicts[i] ==> any_positive(verdicts),
        any_positive(verdicts.update(i, true)),
{
    assert(verdicts.update(i, true)[i]);
}

/// The aggregate of two groups of detectors taken together is the
/// disjunction of their aggregates.
pub proof fn lemma_any_positive_concat(a: Seq<bool>, b: Seq<bool>)
    ensures
        any_positive(a + b) == (any_positive(a) || any_positive(b)),
{
    if any_positive(a) {
        let i = choose|i: int| 0 <= i < a.len() && a[i];
        assert((a + b)[i]);
    }
    if any_positive(b) {
        let i = choose|i: int| 0 <= i < b.len() && b[i];
        assert((a + b)[a.len() + i]);
    }
}

/// One more detector adds its verdict to the aggregate by disjunction.
pub proof fn lemma_any_positive_push(verdicts: Seq<bool>, verdict: bool)
    ensures
        any_positive(verdicts.push(verdict)) == (any_positive(verdicts) || verdict),
{
    assert(verdicts.push(verdict) =~= verdicts + seq![verdict]);
    lemma_any_positive_concat(verdicts, seq![verdict]);
    assert(seq![verdict][0] == verdict);
}

/// The aggregate is a disjunction: it does not depend on the order of the
/// detectors nor on how they are grouped, and a detector that reports
/// negative changes nothing.
pub proof fn lemma_any_positive_is_disjunction(a: Seq<bool>, b: Seq<bool>, c: Seq<bool>)
    ensures
        any_positive(a + b) == any_positive(b + a),
        any_positive((a + b) + c) == any_positive(a + (b + c)),
        !any_positive(Seq::<bool>::empty()),
        any_positive(a.push(false)) == any_positive(a),
        any_positive(a + Seq::<bool>::empty()) == any_positive(a),
{
    lemma_any_positive_concat(a, b);
    lemma_any_positive_concat(b, a);
    assert((a + b) + c =~= a + (b + c));
    lemma_any_positive_push(a, false);
}

/// Stopping at the first positive loses nothing: the detectors consulted up
/// to there give the verdict that all of them would have given.
pub proof fn lemma_short_circuit(verdicts: Seq<bool>, consulted: int)
    requires
        0 <= consulted <= verdicts.len(),
        any_positive(verdicts.take(consulted)) || consulted == verdicts.len(),
    ensures
        any_positive(verdicts.take(consulted)) == any_positive(verdicts),
{
    let seen = verdicts.take(consulted);
    if any_positive(seen) {
        let i = choose|i: int| 0 <= i < seen.len() && seen[i];
        assert(verdicts[i]);
    } else {
        assert(seen =~= verdicts);
    }
}

/// The detectors, in the order in which they are consulted: the static
/// fingerprints first, then the probes of the processor.
#[derive(Clone, Copy, Debug, PartialEq, Eq, Structural)]
pub enum Detector {
    KeywordFingerprint,
    MacPrefix,
    FilesystemArtifact,
    Timing,
    HypervisorBit,
    InvalidLeaf,
}

/// Number of detectors.
pub const DETECTORS: usize = 6;

/// The detector consulted at `position`.
pub open spec fn detector_at(position: int) -> Detector {
    if position == 0 {
        Detector::KeywordFingerprint
    } else if position == 1 {
        Detector::MacPrefix
    } else if position == 2 {
        Detector::FilesystemArtifact
    } else if position == 3 {
        Detector::Timing
    } else if position == 4 {
        Detector::HypervisorBit
    } else {
        Detector::InvalidLeaf
    }
}

/// The detector consulted at `position`, if there is one.
pub fn detector(position: usize) -> (found: Option<Detector>)
    ensures
        found == (if position < DETECTORS {
            Some(detector_at(position as int))
        } else {
            None
        }),
{
    if position == 0 {
        Some(Detector::KeywordFingerprint)
    } else if position == 1 {
        Some(Detector::MacPrefix)
    } else if position == 2 {
        Some(Detector::FilesystemArtifact)
    } else if position == 3 {
        Some(Detector::Timing)
    } else if position == 4 {
        Some(Detector::HypervisorBit)
    } else if position == 5 {
        Some(Detector::InvalidLeaf)
    } else {
        None
    }
}

/// One detection in progress: which detectors have reported, and what.
///
/// The aggregator decides; its user runs the detectors. While
/// `next_detector` names one, the user runs it and hands its verdict to
/// `report`. The first positive settles the matter and no further detector
/// is named.
pub struct DetectionAggregator {
    reports: Ghost<Seq<bool>>,
    consulted: usize,
    positive: bool,
}

impl View for DetectionAggregator {
    type V = Seq<bool>;

    /// The verdicts reported so far, in the order of the detectors.
    closed spec fn view(&self) -> Seq<bool> {
        self.reports@
    }
}

impl DetectionAggregator {
    #[verifier::type_invariant]
    spec fn well_formed(self) -> bool {
        &&& self.consulted == self.reports@.len()
        &&& self.consulted <= DETECTORS
        &&& self.positive == any_positive(self.reports@)
        &&& forall|i: int| 0 <= i < self.reports@.len() - 1 ==> !self.reports@[i]
    }

    /// Nothing is left to ask: a detector reported positive, or all have
    /// reported.
    pub open spec fn settled(self) -> bool {
        any_positive(self@) || self@.len() >= DETECTORS
    }

    /// Starts a detection in which no detector has reported.
    pub fn new() -> (aggregator: DetectionAggregator)
        ensures
            aggregator@ == Seq::<bool>::empty(),
    {
        DetectionAggregator { reports: Ghost(Seq::empty()), consulted: 0, positive: false }
    }

    /// The detector to run next, if the detection is not settled.
    pub fn next_detector(&self) -> (next: Option<Detector>)
        ensures
            next == (if self.settled() {
                None
            } else {
                Some(detector_at(self@.len() as int))
            }),
    {
        proof {
            use_type_invariant(self);
        }
        if self.positive {
            None
        } else {
            detector(self.consulted)
        }
    }

    /// Takes the verdict of the detector that `next_detector` named. A
    /// settled detection takes no further verdict.
    pub fn report(&mut self, verdict: bool)
        ensures
            final(self)@ == (if old(self).settled() {
                old(self)@
            } else {
                old(self)@.push(verdict)
            }),
    {
        proof {
            use_type_invariant(&*self);
        }
        if !self.positive && self.consulted < DETECTORS {
            proof {
                lemma_any_positive_push(self.reports@, verdict);
            }
            *self = DetectionAggregator {
                reports: Ghost(self.reports@.push(verdict)),
                consulted: self.consulted + 1,
                positive: verdict,
            };
        }
    }

    /// The detector that reported positive, if one did: the last one
    /// consulted. It serves diagnostics; the verdict does not depend on it.
    pub fn positive_detector(&self) -> (source: Option<Detector>)
        ensures
            source == (if any_positive(self@) {
                Some(detector_at(self@.len() - 1))
            } else {
                None
            }),
            source is Some ==> self@.last(),
    {
        proof {
            use_type_invariant(self);
        }
        if self.positive {
            detector(self.consulted - 1)
        } else {
            None
        }
    }

    /// The verdict so far: whether any detector reported positive. Once the
    /// detection is settled this is its outcome.
    pub fn verdict(&self) -> (detected: bool)
        ensures
            detected == any_positive(self@),
    {
        proof {
            use_type_invariant(self);
        }
        self.positive
    }
}

} // verus!
