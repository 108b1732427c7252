//! Health-certified entropy: a wrapper around a raw entropy source
//! that probes for a frozen or repeating source and runs the two
//! continuous statistical self-tests of NIST SP 800-90B (the
//! repetition count test and the adaptive proportion test), refusing
//! to hand out bytes once the source looks broken.

use crate::entropy::{EntropyError, EntropySource, GetRandom};
use vstd::prelude::*;

verus! {

/// How many identical consecutive bytes the repetition count test
/// tolerates: the next one is a failure.
pub const RCT_REPEAT_THRESHOLD: usize = 4;
/// How often the adaptive proportion test lets a window's first byte
/// recur inside the window: the next recurrence is a failure.
pub const APT_MAX_COUNT: usize = 13;
/// The adaptive proportion test's window, in bytes.
pub const APT_WINDOW_SIZE: usize = 512;

/// The repetition count test folded over `data`, byte by byte, from
/// the state `(cur, num)`: `cur` is the byte currently being counted
/// and `num` how often it has occurred consecutively. A byte equal to
/// `cur` that would bring the run to the threshold is a failure; any
/// other byte starts a new run.
pub open spec fn spec_rct_run(cur: Option<u8>, num: nat, data: Seq<u8>) -> Result<
    (Option<u8>, nat),
    EntropyError,
>
    decreases data.len(),
{
    if data.len() == 0 {
        Ok((cur, num))
    } else {
        match cur {
            None => spec_rct_run(Some(data[0]), 1, data.drop_first()),
            Some(c) => {
                if data[0] == c {
                    if num + 1 >= RCT_REPEAT_THRESHOLD {
                        Err(EntropyError::RepetitionCount)
                    } else {
                        spec_rct_run(Some(c), num + 1, data.drop_first())
                    }
                } else {
                    spec_rct_run(Some(data[0]), 1, data.drop_first())
                }
            },
        }
    }
}

/// The adaptive proportion test folded over `data` from the state
/// `(value, found, processed)`: the first byte of a window becomes the
/// counted value, the byte after a full window is discarded so that
/// windows do not align, and inside a window the counted value must
/// stay below the threshold.
pub open spec fn spec_apt_run(value: u8, found: nat, processed: nat, data: Seq<u8>) -> Result<
    (u8, nat, nat),
    EntropyError,
>
    decreases data.len(),
{
    if data.len() == 0 {
        Ok((value, found, processed))
    } else {
        let b = data[0];
        if processed == 0 {
            spec_apt_run(b, 1, 1, data.drop_first())
        } else if processed == APT_WINDOW_SIZE {
            spec_apt_run(value, 0, 0, data.drop_first())
        } else {
            let found2 = if value == b {
                found + 1
            } else {
                found
            };
            if found2 >= APT_MAX_COUNT {
                Err(EntropyError::AdaptiveProportion)
            } else {
                spec_apt_run(value, found2, (processed + 1) as nat, data.drop_first())
            }
        }
    }
}

/// Holds when the eight-byte block `probe` occurs as a contiguous
/// substring of `payload`.
pub open spec fn spec_contains_block(payload: Seq<u8>, probe: Seq<u8>) -> bool {
    exists|i: int| 0 <= i && i + 8 <= payload.len() && #[trigger] payload.subrange(i, i + 8) == probe
}

/// The repetition count test of NIST SP 800-90B, section 4.4.1: a
/// continuous test that fails once any byte value repeats too many
/// times in a row across everything it has been fed.
pub struct RepetitionCountTester {
    current_value: Option<u8>,
    num_found: usize,
}

impl RepetitionCountTester {
    /// The run length stays below the threshold: reaching it is a
    /// failure, which leaves the tester untouched beyond that point.
    #[verifier::type_invariant]
    spec fn wf(self) -> bool {
        self.num_found < RCT_REPEAT_THRESHOLD
    }

    /// The tester's state: the byte being counted and its run length.
    pub closed spec fn model(&self) -> (Option<u8>, nat) {
        (self.current_value, self.num_found as nat)
    }

    /// Creates a tester that has seen nothing yet.
    pub fn new() -> (r: Self)
        ensures
            r.model() == (Option::<u8>::None, 0nat),
    {
        RepetitionCountTester { current_value: None, num_found: 0 }
    }

    /// Feeds `data` through the test: fails exactly where the fold of
    /// the test over the bytes fails, and otherwise leaves the tester
    /// in the fold's final state.
    pub fn test(&mut self, data: &Vec<u8>) -> (r: Result<(), EntropyError>)
        ensures
            match spec_rct_run(old(self).model().0, old(self).model().1, data@) {
                Ok(st) => r is Ok && final(self).model() == st,
                Err(e) => r == Result::<(), EntropyError>::Err(e),
            },
    {
        proof {
            use_type_invariant(&*self);
        }
        let len = data.len();
        let mut i: usize = 0;
        proof {
            reveal_with_fuel(spec_rct_run, 1);
            assert(data@.skip(0) =~= data@);
        }
        while i < len
            invariant
                i <= len,
                data@.len() == len,
                self.num_found < RCT_REPEAT_THRESHOLD,
                spec_rct_run(old(self).model().0, old(self).model().1, data@) == spec_rct_run(
                    self.model().0,
                    self.model().1,
                    data@.skip(i as int),
                ),
            decreases len - i,
        {
            let b = *data.get(i).unwrap();
            proof {
                reveal_with_fuel(spec_rct_run, 2);
                assert(data@.skip(i as int).drop_first() =~= data@.skip(i + 1));
                assert(data@.skip(i as int)[0] == data@[i as int]);
            }
            match self.current_value {
                None => {
                    self.current_value = Some(b);
                    self.num_found = 1;
                },
                Some(c) => {
                    if b == c {
                        if self.num_found >= RCT_REPEAT_THRESHOLD - 1 {
                            return Err(EntropyError::RepetitionCount);
                        }
                        self.num_found = self.num_found + 1;
                    } else {
                        self.current_value = Some(b);
                        self.num_found = 1;
                    }
                },
            }
            i = i + 1;
        }
        proof {
            assert(data@.skip(len as int) =~= Seq::<u8>::empty());
        }
        Ok(())
    }
}

/// The adaptive proportion test of NIST SP 800-90B, section 4.4.2: a
/// continuous test over 512-byte windows that fails once a window's
/// first byte value recurs too often inside the window.
pub struct AdaptiveProportionTester {
    value_to_count: u8,
    num_found: usize,
    num_processed: usize,
}

impl AdaptiveProportionTester {
    /// The count stays below the threshold (reaching it is a failure)
    /// and the window position never runs past the window.
    #[verifier::type_invariant]
    spec fn wf(self) -> bool {
        self.num_found < APT_MAX_COUNT && self.num_processed <= APT_WINDOW_SIZE
    }

    /// The tester's state: the counted value, how often it has been
    /// seen, and the window position.
    pub closed spec fn model(&self) -> (u8, nat, nat) {
        (self.value_to_count, self.num_found as nat, self.num_processed as nat)
    }

    /// Creates a tester at the start of its first window.
    pub fn new() -> (r: Self)
        ensures
            r.model() == (0u8, 0nat, 0nat),
    {
        AdaptiveProportionTester { value_to_count: 0, num_found: 0, num_processed: 0 }
    }

    /// Feeds `data` through the test: fails exactly where the fold of
    /// the test over the bytes fails, and otherwise leaves the tester
    /// in the fold's final state.
    pub fn test(&mut self, data: &Vec<u8>) -> (r: Result<(), EntropyError>)
        ensures
            match spec_apt_run(
                old(self).model().0,
                old(self).model().1,
                old(self).model().2,
                data@,
            ) {
                Ok(st) => r is Ok && final(self).model() == st,
                Err(e) => r == Result::<(), EntropyError>::Err(e),
            },
    {
        proof {
            use_type_invariant(&*self);
        }
        let len = data.len();
        let mut i: usize = 0;
        proof {
            reveal_with_fuel(spec_apt_run, 1);
            assert(data@.skip(0) =~= data@);
        }
        while i < len
            invariant
                i <= len,
                data@.len() == len,
                self.num_found < APT_MAX_COUNT,
                self.num_processed <= APT_WINDOW_SIZE,
                spec_apt_run(
                    old(self).model().0,
                    old(self).model().1,
                    old(self).model().2,
                    data@,
                ) == spec_apt_run(
                    self.model().0,
                    self.model().1,
                    self.model().2,
                    data@.skip(i as int),
                ),
            decreases len - i,
        {
            let b = *data.get(i).unwrap();
            proof {
                reveal_with_fuel(spec_apt_run, 2);
                assert(data@.skip(i as int).drop_first() =~= data@.skip(i + 1));
                assert(data@.skip(i as int)[0] == data@[i as int]);
            }
            if self.num_processed == 0 {
                self.value_to_count = b;
                self.num_found = 1;
                self.num_processed = 1;
            } else if self.num_processed == APT_WINDOW_SIZE {
                // This byte is discarded, so that consecutive windows do
                // not align on a fixed boundary.
                self.num_processed = 0;
                self.num_found = 0;
            } else {
                let mut found2 = self.num_found;
                if self.value_to_count == b {
                    found2 = found2 + 1;
                }
                if found2 >= APT_MAX_COUNT {
                    return Err(EntropyError::AdaptiveProportion);
                }
                self.num_found = found2;
                self.num_processed = self.num_processed + 1;
            }
            i = i + 1;
        }
        proof {
            assert(data@.skip(len as int) =~= Seq::<u8>::empty());
        }
        Ok(())
    }
}

/// The state of a health-checked source: the previous probe, the two
/// testers, and the wrapped source's own state.
pub struct CheckedDeviceView<M> {
    pub previous: Seq<u8>,
    pub rct: (Option<u8>, nat),
    pub apt: (u8, nat, nat),
    pub device: M,
}

/// All the health checks run on one fill, as one decision over the
/// values involved: the fresh probe must differ from the previous one,
/// the probe must not recur inside the payload, and both probe and
/// payload must pass the two statistical tests in turn. The result is
/// the first failure, or the testers' new states.
pub open spec fn spec_guard_check(
    previous: Seq<u8>,
    rct: (Option<u8>, nat),
    apt: (u8, nat, nat),
    probe: Seq<u8>,
    payload: Seq<u8>,
) -> Result<((Option<u8>, nat), (u8, nat, nat)), EntropyError> {
    if probe == previous {
        Err(EntropyError::RepeatedBlock)
    } else if spec_contains_block(payload, probe) {
        Err(EntropyError::RepeatedSubstring)
    } else {
        match spec_rct_run(rct.0, rct.1, probe) {
            Err(e) => Err(e),
            Ok(rct1) => match spec_rct_run(rct1.0, rct1.1, payload) {
                Err(e) => Err(e),
                Ok(rct2) => match spec_apt_run(apt.0, apt.1, apt.2, probe) {
                    Err(e) => Err(e),
                    Ok(apt1) => match spec_apt_run(apt1.0, apt1.1, apt1.2, payload) {
                        Err(e) => Err(e),
                        Ok(apt2) => Ok((rct2, apt2)),
                    },
                },
            },
        }
    }
}

/// An entropy source wrapped with the continuous health checks.
pub struct CheckedDevice<T: EntropySource> {
    previous: Vec<u8>,
    device: T,
    repetition_count_tester: RepetitionCountTester,
    adaptive_proportion_tester: AdaptiveProportionTester,
}

impl<T: EntropySource> CheckedDevice<T> {
    /// Creates a checked source around `wrapped_device`: an initial
    /// eight-byte probe is drawn at once and fed through both tests,
    /// so that the very first fill already has something to compare
    /// against.
    pub fn new(wrapped_device: T) -> (r: Result<Self, EntropyError>)
        ensures
            match r {
                Ok(c) => exists|probe: Seq<u8>, m1: T::Model|
                    probe.len() == 8 && #[trigger] T::fill_ok(
                        wrapped_device.model(),
                        m1,
                        probe,
                    ) && c.model().previous == probe && c.model().device == m1 && spec_rct_run(
                        None,
                        0,
                        probe,
                    ) == Result::<(Option<u8>, nat), EntropyError>::Ok(c.model().rct)
                        && spec_apt_run(0, 0, 0, probe) == Result::<
                        (u8, nat, nat),
                        EntropyError,
                    >::Ok(c.model().apt),
                // A failure is the source's own, or the initial probe
                // flunking one of the statistical tests.
                Err(e) => (exists|m1: T::Model|
                    #[trigger] T::fill_err(wrapped_device.model(), m1, e)) || (exists|
                    probe: Seq<u8>,
                    m1: T::Model,
                |
                    probe.len() == 8 && #[trigger] T::fill_ok(wrapped_device.model(), m1, probe)
                        && (spec_rct_run(None, 0, probe) == Result::<
                        (Option<u8>, nat),
                        EntropyError,
                    >::Err(e) || spec_apt_run(0, 0, 0, probe) == Result::<
                        (u8, nat, nat),
                        EntropyError,
                    >::Err(e))),
            },
    {
        let mut device = wrapped_device;
        let ghost m0 = device.model();
        let mut previous: Vec<u8> = vec![0u8; 8];
        match device.fill(&mut previous) {
            Ok(_) => {},
            Err(e) => {
                proof {
                    assert(T::fill_err(m0, device.model(), e));
                }
                return Err(e);
            },
        }
        let ghost m1 = device.model();
        let mut repetition_count_tester = RepetitionCountTester::new();
        match repetition_count_tester.test(&previous) {
            Ok(_) => {},
            Err(e) => {
                proof {
                    assert(T::fill_ok(m0, m1, previous@) && previous@.len() == 8);
                }
                return Err(e);
            },
        }
        let mut adaptive_proportion_tester = AdaptiveProportionTester::new();
        match adaptive_proportion_tester.test(&previous) {
            Ok(_) => {},
            Err(e) => {
                proof {
                    assert(T::fill_ok(m0, m1, previous@) && previous@.len() == 8);
                }
                return Err(e);
            },
        }
        let checked = CheckedDevice {
            previous,
            device,
            repetition_count_tester,
            adaptive_proportion_tester,
        };
        proof {
            assert(T::fill_ok(wrapped_device.model(), checked.model().device, checked.previous@));
        }
        Ok(checked)
    }

    /// The state of this checked source.
    pub closed spec fn model(&self) -> CheckedDeviceView<T::Model> {
        CheckedDeviceView {
            previous: self.previous@,
            rct: self.repetition_count_tester.model(),
            apt: self.adaptive_proportion_tester.model(),
            device: self.device.model(),
        }
    }
}

/// Decides whether `probe` occurs as a contiguous eight-byte substring
/// of `payload`.
fn contains_block(payload: &Vec<u8>, probe: &Vec<u8>) -> (r: bool)
    requires
        probe@.len() == 8,
    ensures
        r == spec_contains_block(payload@, probe@),
{
    let len = payload.len();
    if len < 8 {
        proof {
            assert(!spec_contains_block(payload@, probe@));
        }
        return false;
    }
    let mut i: usize = 0;
    while i <= len - 8
        invariant
            len == payload@.len(),
            8 <= len,
            probe@.len() == 8,
            i <= len - 8 + 1,
            forall|j: int| 0 <= j < i ==> #[trigger] payload@.subrange(j, j + 8) != probe@,
        decreases len - i,
    {
        let mut k: usize = 0;
        let mut matches = true;
        while k < 8
            invariant
                k <= 8,
                len == payload@.len(),
                8 <= len,
                i + 8 <= len,
                probe@.len() == 8,
                matches == (forall|t: int|
                    0 <= t < k ==> payload@[i + t] == probe@[t]),
            decreases 8 - k,
        {
            if *payload.get(i + k).unwrap() != *probe.get(k).unwrap() {
                matches = false;
            }
            k = k + 1;
        }
        if matches {
            proof {
                assert(payload@.subrange(i as int, i + 8) =~= probe@);
            }
            return true;
        }
        proof {
            assert(payload@.subrange(i as int, i + 8) != probe@) by {
                let t = choose|t: int| 0 <= t < 8 && payload@[i + t] != probe@[t];
                assert(payload@.subrange(i as int, i + 8)[t] != probe@[t]);
            }
        }
        i = i + 1;
    }
    proof {
        assert forall|j: int| 0 <= j && j + 8 <= len implies #[trigger] payload@.subrange(
            j,
            j + 8,
        ) != probe@ by {}
    }
    false
}

impl<T: EntropySource> EntropySource for CheckedDevice<T> {
    type Model = CheckedDeviceView<T::Model>;

    closed spec fn model(&self) -> CheckedDeviceView<T::Model> {
        CheckedDevice::model(self)
    }

    /// A successful fill certifies every health check: a fresh probe
    /// was drawn and differs from the previous one, the payload came
    /// from the wrapped source and does not contain the probe, and
    /// probe and payload both passed the two statistical tests, whose
    /// new states are recorded. The probe becomes the new comparison
    /// block.
    open spec fn fill_ok(
        pre: CheckedDeviceView<T::Model>,
        post: CheckedDeviceView<T::Model>,
        data: Seq<u8>,
    ) -> bool {
        exists|probe: Seq<u8>, mid: T::Model|
            probe.len() == 8 && #[trigger] T::fill_ok(pre.device, mid, probe) && T::fill_ok(
                mid,
                post.device,
                data,
            ) && probe != pre.previous && spec_guard_check(
                pre.previous,
                pre.rct,
                pre.apt,
                probe,
                data,
            ) == Result::<((Option<u8>, nat), (u8, nat, nat)), EntropyError>::Ok(
                (post.rct, post.apt),
            ) && post.previous == probe
    }

    /// A failure is either the wrapped source's own failure, or the
    /// first health check that the drawn values flunked.
    open spec fn fill_err(
        pre: CheckedDeviceView<T::Model>,
        post: CheckedDeviceView<T::Model>,
        e: EntropyError,
    ) -> bool {
        (exists|m1: T::Model| #[trigger] T::fill_err(pre.device, m1, e)) || (exists|
            probe: Seq<u8>,
            mid: T::Model,
        |
            probe.len() == 8 && #[trigger] T::fill_ok(pre.device, mid, probe) && ((e
                == EntropyError::RepeatedBlock && probe == pre.previous) || (exists|m2: T::Model|
                #[trigger] T::fill_err(mid, m2, e)) || (exists|data: Seq<u8>, m2: T::Model|
                #[trigger] T::fill_ok(mid, m2, data) && spec_guard_check(
                    pre.previous,
                    pre.rct,
                    pre.apt,
                    probe,
                    data,
                ) == Result::<((Option<u8>, nat), (u8, nat, nat)), EntropyError>::Err(e))))
    }

    /// Draws a fresh eight-byte probe, fills `destination` from the
    /// wrapped source, and runs every health check; the first failed
    /// check aborts the fill.
    fn fill(&mut self, destination: &mut Vec<u8>) -> (r: Result<(), EntropyError>) {
        let ghost pre = CheckedDevice::model(self);
        // Draw a dedicated probe rather than comparing the payload
        // itself: the retained block must not be part of any bytes the
        // caller might use as key material.
        let mut new_random: Vec<u8> = vec![0u8; 8];
        match self.device.fill(&mut new_random) {
            Ok(_) => {},
            Err(e) => {
                proof {
                    assert(T::fill_err(pre.device, self.device.model(), e));
                }
                return Err(e);
            },
        }
        let ghost mid = self.device.model();
        let ghost probe = new_random@;

        let mut equal = self.previous.len() == 8;
        let mut i: usize = 0;
        while i < 8
            invariant
                i <= 8,
                new_random@ == probe,
                probe.len() == 8,
                self.previous@ == pre.previous,
                equal == (pre.previous.len() == 8 && forall|t: int|
                    0 <= t < i ==> #[trigger] probe[t] == pre.previous[t]),
            decreases 8 - i,
        {
            if equal && *new_random.get(i).unwrap() != *self.previous.get(i).unwrap() {
                equal = false;
            }
            i = i + 1;
        }
        if equal {
            proof {
                assert(probe =~= pre.previous);
                assert(T::fill_ok(pre.device, mid, probe));
            }
            return Err(EntropyError::RepeatedBlock);
        }
        proof {
            if probe == pre.previous {
                let t = choose|t: int| 0 <= t < 8 && probe[t] != pre.previous[t];
                assert(probe[t] == pre.previous[t]);
            }
        }

        match self.device.fill(destination) {
            Ok(_) => {},
            Err(e) => {
                proof {
                    assert(T::fill_ok(pre.device, mid, probe));
                    assert(T::fill_err(mid, self.device.model(), e));
                }
                return Err(e);
            },
        }
        let ghost m2 = self.device.model();
        let ghost payload = destination@;
        proof {
            assert(T::fill_ok(pre.device, mid, probe));
            assert(T::fill_ok(mid, m2, payload));
        }

        if contains_block(destination, &new_random) {
            return Err(EntropyError::RepeatedSubstring);
        }

        match self.repetition_count_tester.test(&new_random) {
            Ok(_) => {},
            Err(e) => {
                return Err(e);
            },
        }
        match self.repetition_count_tester.test(destination) {
            Ok(_) => {},
            Err(e) => {
                return Err(e);
            },
        }
        match self.adaptive_proportion_tester.test(&new_random) {
            Ok(_) => {},
            Err(e) => {
                return Err(e);
            },
        }
        match self.adaptive_proportion_tester.test(destination) {
            Ok(_) => {},
            Err(e) => {
                return Err(e);
            },
        }

        self.previous = new_random;
        proof {
            assert(spec_guard_check(pre.previous, pre.rct, pre.apt, probe, payload)
                == Result::<((Option<u8>, nat), (u8, nat, nat)), EntropyError>::Ok(
                (
                    self.repetition_count_tester.model(),
                    self.adaptive_proportion_tester.model(),
                ),
            ));
        }
        Ok(())
    }
}

/// An entropy source that performs the NIST SP 800-90B health checks
/// on the operating system's entropy facility before handing its
/// bytes out.
pub struct SecureEntropy {
    inner: CheckedDevice<GetRandom>,
}

impl SecureEntropy {
    /// Creates a health-checked source over the operating system's
    /// entropy facility; the initial probe is drawn and tested at
    /// once, so a fresh instance already holds a healthy comparison
    /// block.
    pub fn new() -> (r: Result<Self, EntropyError>)
        ensures
            match r {
                Ok(s) => exists|probe: Seq<u8>|
                    probe.len() == 8 && crate::entropy::spec_has_nonzero(probe) && s.model()
                        .previous == probe && #[trigger] spec_rct_run(None, 0, probe) == Result::<
                        (Option<u8>, nat),
                        EntropyError,
                    >::Ok(s.model().rct) && spec_apt_run(0, 0, 0, probe) == Result::<
                        (u8, nat, nat),
                        EntropyError,
                    >::Ok(s.model().apt),
                Err(e) => e == EntropyError::Unavailable || e == EntropyError::AllZeros || (exists|
                    probe: Seq<u8>,
                |
                    probe.len() == 8 && (#[trigger] spec_rct_run(None, 0, probe) == Result::<
                        (Option<u8>, nat),
                        EntropyError,
                    >::Err(e) || spec_apt_run(0, 0, 0, probe) == Result::<
                        (u8, nat, nat),
                        EntropyError,
                    >::Err(e))),
            },
    {
        match CheckedDevice::new(GetRandom::new()) {
            Ok(inner) => {
                proof {
                    let (probe, m1) = choose|probe: Seq<u8>, m1: ()|
                        probe.len() == 8 && #[trigger] <GetRandom as EntropySource>::fill_ok(
                            (),
                            m1,
                            probe,
                        ) && EntropySource::model(&inner).previous == probe
                            && EntropySource::model(&inner).device == m1 && spec_rct_run(
                            None,
                            0,
                            probe,
                        ) == Result::<(Option<u8>, nat), EntropyError>::Ok(
                            EntropySource::model(&inner).rct,
                        ) && spec_apt_run(0, 0, 0, probe) == Result::<
                            (u8, nat, nat),
                            EntropyError,
                        >::Ok(EntropySource::model(&inner).apt);
                }
                Ok(SecureEntropy { inner })
            },
            Err(e) => Err(e),
        }
    }
}

impl EntropySource for SecureEntropy {
    type Model = CheckedDeviceView<()>;

    closed spec fn model(&self) -> CheckedDeviceView<()> {
        EntropySource::model(&self.inner)
    }

    open spec fn fill_ok(
        pre: CheckedDeviceView<()>,
        post: CheckedDeviceView<()>,
        data: Seq<u8>,
    ) -> bool {
        <CheckedDevice<GetRandom> as EntropySource>::fill_ok(pre, post, data)
    }

    open spec fn fill_err(
        pre: CheckedDeviceView<()>,
        post: CheckedDeviceView<()>,
        e: EntropyError,
    ) -> bool {
        <CheckedDevice<GetRandom> as EntropySource>::fill_err(pre, post, e)
    }

    fn fill(&mut self, destination: &mut Vec<u8>) -> (r: Result<(), EntropyError>) {
        self.inner.fill(destination)
    }
}

/// Law: repetition is detected. Whatever state the repetition count
/// test is in, feeding it a byte string that holds four identical
/// consecutive bytes fails the test; a checked fill can then never
/// report success on such bytes, since its success certifies the
/// test's fold.
pub proof fn lemma_rct_detects_run(cur: Option<u8>, num: nat, data: Seq<u8>, i: int)
    requires
        0 <= i,
        i + 4 <= data.len(),
        data[i] == data[i + 1],
        data[i + 1] == data[i + 2],
        data[i + 2] == data[i + 3],
    ensures
        spec_rct_run(cur, num, data) is Err,
    decreases i,
{
    reveal_with_fuel(spec_rct_run, 5);
    let d1 = data.drop_first();
    if i == 0 {
        let d2 = d1.drop_first();
        let d3 = d2.drop_first();
        assert(d1[0] == data[1] && d1[1] == data[2] && d1[2] == data[3]);
        assert(d2[0] == data[2] && d2[1] == data[3]);
        assert(d3[0] == data[3]);
    } else {
        assert(d1[i - 1] == data[i] && d1[i] == data[i + 1] && d1[i + 1] == data[i + 2] && d1[i
            + 2] == data[i + 3]);
        match cur {
            None => {
                lemma_rct_detects_run(Some(data[0]), 1, d1, i - 1);
            },
            Some(c) => {
                if data[0] == c {
                    if num + 1 < RCT_REPEAT_THRESHOLD {
                        lemma_rct_detects_run(Some(c), num + 1, d1, i - 1);
                    }
                } else {
                    lemma_rct_detects_run(Some(data[0]), 1, d1, i - 1);
                }
            },
        }
    }
}

/// How often `value` occurs in `data`.
pub open spec fn spec_count_of(data: Seq<u8>, value: u8) -> nat
    decreases data.len(),
{
    if data.len() == 0 {
        0
    } else {
        spec_count_of(data.drop_first(), value) + (if data[0] == value {
            1nat
        } else {
            0nat
        })
    }
}

/// Inside one window, an excess of the counted value fails the test:
/// if the occurrences still to come would carry the count to the
/// threshold before the window ends, the fold errs.
proof fn lemma_apt_excess_in_window(value: u8, found: nat, processed: nat, data: Seq<u8>)
    requires
        1 <= processed,
        processed + data.len() <= APT_WINDOW_SIZE,
        found < APT_MAX_COUNT,
        found + spec_count_of(data, value) >= APT_MAX_COUNT,
    ensures
        spec_apt_run(value, found, processed, data) is Err,
    decreases data.len(),
{
    reveal_with_fuel(spec_apt_run, 2);
    reveal_with_fuel(spec_count_of, 2);
    let rest = data.drop_first();
    let found2 = if value == data[0] {
        found + 1
    } else {
        found
    };
    if found2 < APT_MAX_COUNT {
        assert(found2 + spec_count_of(rest, value) >= APT_MAX_COUNT);
        lemma_apt_excess_in_window(value, found2, processed + 1, rest);
    }
}

/// Law: over-frequent bytes are detected. Starting a fresh window, a
/// block no longer than the window in which the first byte occurs at
/// least as often as the threshold fails the adaptive proportion test;
/// a checked fill can then never report success on such bytes, since
/// its success certifies the test's fold.
pub proof fn lemma_apt_detects_excess(value: u8, found: nat, data: Seq<u8>)
    requires
        1 <= data.len() <= APT_WINDOW_SIZE,
        spec_count_of(data, data[0]) >= APT_MAX_COUNT,
    ensures
        spec_apt_run(value, found, 0, data) is Err,
{
    reveal_with_fuel(spec_apt_run, 2);
    reveal_with_fuel(spec_count_of, 2);
    lemma_apt_excess_in_window(data[0], 1, 1, data.drop_first());
}

} // verus!
