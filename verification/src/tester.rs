//! The test environment: the write-protect controller with its save
//! stack, the golden-image tracker, and the sequencer that runs
//! registered scenarios and classifies their outcomes.

use vstd::prelude::*;
use vstd::string::StrSliceExecFns;
use crate::flashrom::{arg_ok, Flashrom, GatewayError};
use crate::types::FlashChip;
use crate::utils::{gather_system_info, LayoutSizes, Platform};

verus! {

/// One write-protect state: the independent hardware and software
/// layers.
#[derive(Copy, Clone, Debug, PartialEq, Eq, Structural)]
pub struct WriteProtectState {
    pub hardware: bool,
    pub software: bool,
}

/// Failures of the write-protect controller.
#[derive(Debug, Clone, PartialEq, Eq)]
pub enum WpError {
    /// The queried state did not match the requested state within one
    /// retry of the fire-and-forget toggle.
    Unconfirmed,
    /// Software write-protect cannot be cleared while hardware
    /// write-protect is asserted.
    HardwareBlocksSoftware,
    /// The ground truth could not be determined on this platform.
    Unsupported,
    /// The gateway dispatch itself failed.
    Gateway(GatewayError),
}

/// Failure of golden-image restoration.
#[derive(Copy, Clone, Debug, PartialEq, Eq, Structural)]
pub enum DriftError {
    /// Rewriting from the golden image did not make verification pass.
    Unrecoverable,
}

/// What a scenario can fail with.
#[derive(Debug, Clone, PartialEq, Eq)]
pub enum TestError {
    Wp(WpError),
    Drift(DriftError),
    Gateway(GatewayError),
    Message(String),
}

impl From<WpError> for TestError {
    fn from(e: WpError) -> (r: Self) {
        TestError::Wp(e)
    }
}

impl vstd::std_specs::convert::FromSpecImpl<WpError> for TestError {
    open spec fn obeys_from_spec() -> bool {
        true
    }

    open spec fn from_spec(e: WpError) -> Self {
        TestError::Wp(e)
    }
}

impl From<DriftError> for TestError {
    fn from(e: DriftError) -> (r: Self) {
        TestError::Drift(e)
    }
}

impl vstd::std_specs::convert::FromSpecImpl<DriftError> for TestError {
    open spec fn obeys_from_spec() -> bool {
        true
    }

    open spec fn from_spec(e: DriftError) -> Self {
        TestError::Drift(e)
    }
}

impl From<GatewayError> for TestError {
    fn from(e: GatewayError) -> (r: Self) {
        TestError::Gateway(e)
    }
}

impl vstd::std_specs::convert::FromSpecImpl<GatewayError> for TestError {
    open spec fn obeys_from_spec() -> bool {
        true
    }

    open spec fn from_spec(e: GatewayError) -> Self {
        TestError::Gateway(e)
    }
}

/// What a scenario returns.
pub type TestResult = Result<(), TestError>;

/// The write-protect controller: the current hardware and software
/// state and a stack of saved states for push/pop around sub-scenarios.
pub struct WriteProtectController {
    pub fc: FlashChip,
    pub current: WriteProtectState,
    pub stack: Vec<WriteProtectState>,
}

impl WriteProtectController {
    /// Start tracking from a known state.  A chip kind without a
    /// physical toggle channel behaves as if hardware write-protect
    /// were permanently asserted.
    pub fn new(fc: FlashChip, hardware: bool, software: bool) -> (r: Self)
        ensures
            r.fc == fc,
            r.current.hardware == (hardware || !fc.spec_can_control_hw_wp()),
            r.current.software == software,
            r.stack@ == Seq::<WriteProtectState>::empty(),
    {
        let hw = hardware || !fc.can_control_hw_wp();
        let r = WriteProtectController {
            fc,
            current: WriteProtectState { hardware: hw, software },
            stack: Vec::new(),
        };
        proof {
            assert(r.stack@ =~= Seq::<WriteProtectState>::empty());
        }
        r
    }

    /// Whether the harness can toggle hardware write-protect here.
    pub fn can_control_hardware(&self) -> (r: bool)
        ensures
            r == self.fc.spec_can_control_hw_wp(),
    {
        self.fc.can_control_hw_wp()
    }

    /// Query the hardware write-protect switch through the platform
    /// state report.
    fn query_hardware<P: Platform>(platform: &mut P) -> (r: Result<bool, WpError>) {
        match gather_system_info(platform) {
            Ok((_info, wp)) => Ok(wp),
            Err(_) => Err(WpError::Unsupported),
        }
    }

    /// Request the physical hardware write-protect change and confirm it
    /// by re-querying; one retry is allowed before giving up.
    pub fn set_hardware<P: Platform>(&mut self, platform: &mut P, enable: bool) -> (r: Result<
        (),
        WpError,
    >)
        ensures
            final(self).fc == old(self).fc,
            final(self).stack@ == old(self).stack@,
            final(self).current.software == old(self).current.software,
            r is Ok ==> final(self).current.hardware == enable,
            r is Err ==> final(self).current == old(self).current,
            !old(self).fc.spec_can_control_hw_wp() ==> r is Err,
    {
        if !self.fc.can_control_hw_wp() {
            return Err(WpError::Unsupported);
        }
        platform.toggle_hw_wp(!enable);
        match Self::query_hardware(platform) {
            Err(e) => {
                return Err(e);
            },
            Ok(seen) => {
                if seen == enable {
                    self.current.hardware = enable;
                    return Ok(());
                }
            },
        }
        // One retry: ask again and re-query.
        platform.toggle_hw_wp(!enable);
        match Self::query_hardware(platform) {
            Err(e) => Err(e),
            Ok(seen) => {
                if seen == enable {
                    self.current.hardware = enable;
                    Ok(())
                } else {
                    Err(WpError::Unconfirmed)
                }
            },
        }
    }

    /// Enable or disable software write-protect.  Clearing it while
    /// hardware write-protect is asserted is refused outright, before
    /// any external call, and leaves the state untouched.
    pub fn set_software<C: Flashrom>(&mut self, cmd: &C, enable: bool) -> (r: Result<(), WpError>)
        ensures
            final(self).fc == old(self).fc,
            final(self).stack@ == old(self).stack@,
            (r is Err && r->Err_0 == WpError::HardwareBlocksSoftware) <==> (!enable && old(
                self,
            ).current.hardware),
            r is Err ==> final(self).current == old(self).current,
            r is Ok ==> final(self).current.software == enable && final(self).current.hardware
                == old(self).current.hardware,
    {
        if !enable && self.current.hardware {
            return Err(WpError::HardwareBlocksSoftware);
        }
        match crate::flashrom::wp_toggle(cmd, enable) {
            Ok(_) => {
                self.current.software = enable;
                Ok(())
            },
            Err(e) => Err(WpError::Gateway(e)),
        }
    }

    /// Query software write-protect status.  An empty report means the
    /// platform cannot answer, surfaced as `Unsupported`.
    pub fn status<C: Flashrom>(&self, cmd: &C) -> (r: Result<bool, WpError>) {
        match crate::flashrom::wp_status_text(cmd) {
            Err(e) => Err(WpError::Gateway(e)),
            Ok(output) => {
                if output.as_str().is_empty() {
                    Err(WpError::Unsupported)
                } else {
                    Ok(crate::flashrom::wp_status_matches(output.as_str(), true))
                }
            },
        }
    }

    /// Save the current hardware and software pair.
    pub fn push(&mut self)
        ensures
            final(self).fc == old(self).fc,
            final(self).current == old(self).current,
            final(self).stack@ == old(self).stack@.push(old(self).current),
    {
        let saved = self.current;
        self.stack.push(saved);
    }

    /// Restore the most recently saved pair, best-effort: the external
    /// calls' failures are swallowed, since restoration happens during
    /// cleanup, and the tracked state records the restored pair.
    /// Reports whether there was a saved pair to restore.
    pub fn pop<C: Flashrom, P: Platform>(&mut self, cmd: &C, platform: &mut P) -> (r: bool)
        ensures
            final(self).fc == old(self).fc,
            old(self).stack@.len() == 0 ==> !r && final(self).current == old(self).current
                && final(self).stack@ == old(self).stack@,
            old(self).stack@.len() > 0 ==> r && final(self).current == old(self).stack@.last()
                && final(self).stack@ == old(self).stack@.drop_last(),
    {
        match self.stack.pop() {
            None => false,
            Some(saved) => {
                if !saved.software {
                    // Hardware must be clear before software can be.
                    let _ = self.set_hardware(platform, false);
                    let _ = self.set_software(cmd, false);
                    let _ = self.set_hardware(platform, saved.hardware);
                } else {
                    let _ = self.set_software(cmd, true);
                    let _ = self.set_hardware(platform, saved.hardware);
                }
                self.current = saved;
                true
            },
        }
    }
}

/// Saving a pair, mutating freely without touching the stack, and
/// restoring brings back exactly the saved hardware and software pair
/// and the prior stack.
pub proof fn lemma_push_pop_restores(
    before_push: WriteProtectController,
    after_push: WriteProtectController,
    before_pop: WriteProtectController,
    after_pop: WriteProtectController,
)
    requires
        after_push.stack@ == before_push.stack@.push(before_push.current),
        before_pop.stack@ == after_push.stack@,
        before_pop.stack@.len() > 0,
        after_pop.current == before_pop.stack@.last(),
        after_pop.stack@ == before_pop.stack@.drop_last(),
    ensures
        after_pop.current == before_push.current,
        after_pop.stack@ == before_push.stack@,
{
    assert(before_pop.stack@.last() == before_push.current);
    assert(before_pop.stack@.drop_last() =~= before_push.stack@);
}

/// The shared mutable environment a run hands to each scenario: the
/// gateway, the platform channel, the computed layout, the
/// write-protect controller, and the golden-image tracker.
pub struct TestEnv<C, P> {
    pub cmd: C,
    pub platform: P,
    pub fc: FlashChip,
    pub layout: LayoutSizes,
    pub wp: WriteProtectController,
    /// Whether the chip is known to hold the golden image: true after a
    /// verification against the golden file succeeds, false after any
    /// destructive operation or failed verification.
    pub golden: bool,
    /// Where the layout descriptor was written.
    pub layout_file: String,
    /// Where the golden image captured at run start lives.
    pub golden_file: String,
    /// A file of random bytes for overwrite attempts.
    pub random_data_file: String,
}

impl<C: Flashrom, P: Platform> TestEnv<C, P> {
    /// The file paths can be handed to the external utility.
    pub open spec fn wf(&self) -> bool {
        arg_ok(self.layout_file@) && arg_ok(self.golden_file@) && arg_ok(self.random_data_file@)
    }

    /// The configuration that no environment operation changes.
    pub open spec fn cfg(&self) -> (FlashChip, LayoutSizes, Seq<char>, Seq<char>, Seq<char>) {
        (self.fc, self.layout, self.layout_file@, self.golden_file@, self.random_data_file@)
    }

    /// Assemble an environment.  The chip is not yet known golden.
    pub fn new(
        cmd: C,
        platform: P,
        fc: FlashChip,
        layout: LayoutSizes,
        wp: WriteProtectController,
        layout_file: String,
        golden_file: String,
        random_data_file: String,
    ) -> (r: Self)
        requires
            arg_ok(layout_file@),
            arg_ok(golden_file@),
            arg_ok(random_data_file@),
        ensures
            r.wf(),
            r.fc == fc,
            r.layout == layout,
            r.wp == wp,
            !r.golden,
            r.layout_file@ == layout_file@,
            r.golden_file@ == golden_file@,
            r.random_data_file@ == random_data_file@,
    {
        TestEnv { cmd, platform, fc, layout, wp, golden: false, layout_file, golden_file, random_data_file }
    }

    /// The chip kind under test.
    pub fn chip_type(&self) -> (r: FlashChip)
        ensures
            r == self.fc,
    {
        self.fc
    }

    /// The computed partition layout.
    pub fn layout(&self) -> (r: &LayoutSizes)
        ensures
            *r == self.layout,
    {
        &self.layout
    }

    /// The file of random bytes scenarios write from.
    pub fn random_data_file(&self) -> (r: &str)
        ensures
            r@ == self.random_data_file@,
    {
        self.random_data_file.as_str()
    }

    /// Whether the chip is known to hold the golden image: true iff the
    /// most recent verification against it succeeded and nothing
    /// destructive has happened since.
    pub fn is_golden(&self) -> (r: bool)
        ensures
            r == self.golden,
    {
        self.golden
    }

    /// Verify the chip against the golden image and record the result.
    pub fn verify_against_golden(&mut self) -> (r: bool)
        requires
            old(self).wf(),
        ensures
            final(self).wf(),
            final(self).cfg() == old(self).cfg(),
            final(self).cmd == old(self).cmd,
            final(self).platform == old(self).platform,
            final(self).wp == old(self).wp,
            final(self).golden == r,
    {
        match crate::flashrom::verify(&self.cmd, self.golden_file.as_str()) {
            Ok(()) => {
                self.golden = true;
                true
            },
            Err(_) => {
                self.golden = false;
                false
            },
        }
    }

    /// Make sure the chip holds the golden image: verify, and when that
    /// fails rewrite from the golden file and verify again.  Failure of
    /// the second verification is unrecoverable drift.
    pub fn ensure_golden(&mut self) -> (r: Result<(), TestError>)
        requires
            old(self).wf(),
        ensures
            final(self).wf(),
            final(self).cfg() == old(self).cfg(),
            final(self).wp == old(self).wp,
            r is Ok <==> final(self).golden,
            r is Err ==> (r->Err_0 is Gateway || r->Err_0 == TestError::Drift(
                DriftError::Unrecoverable,
            )),
    {
        if self.verify_against_golden() {
            return Ok(());
        }
        match crate::flashrom::write(&self.cmd, self.golden_file.as_str()) {
            Err(e) => {
                return Err(TestError::Gateway(e));
            },
            Ok(()) => {},
        }
        if self.verify_against_golden() {
            Ok(())
        } else {
            Err(TestError::Drift(DriftError::Unrecoverable))
        }
    }

    /// Erase the whole chip.  Success leaves the chip no longer known
    /// golden.
    pub fn erase(&mut self) -> (r: Result<(), GatewayError>)
        requires
            old(self).wf(),
        ensures
            final(self).wf(),
            final(self).cfg() == old(self).cfg(),
            final(self).cmd == old(self).cmd,
            final(self).platform == old(self).platform,
            final(self).wp == old(self).wp,
            r is Ok ==> !final(self).golden,
            r is Err ==> final(self).golden == old(self).golden,
    {
        match crate::flashrom::erase(&self.cmd) {
            Ok(()) => {
                self.golden = false;
                Ok(())
            },
            Err(e) => Err(e),
        }
    }

    /// Verify the chip against an arbitrary file, without touching the
    /// golden tracking.
    pub fn verify(&self, path: &str) -> (r: Result<(), GatewayError>)
        requires
            arg_ok(path@),
    {
        crate::flashrom::verify(&self.cmd, path)
    }

    /// Write the named layout section from the random-data file.
    /// Success leaves the chip no longer known golden.
    pub fn write_with_layout(&mut self, section_name: &str) -> (r: Result<bool, GatewayError>)
        requires
            old(self).wf(),
            arg_ok(section_name@),
        ensures
            final(self).wf(),
            final(self).cfg() == old(self).cfg(),
            final(self).cmd == old(self).cmd,
            final(self).platform == old(self).platform,
            final(self).wp == old(self).wp,
            r is Ok ==> !final(self).golden,
            r is Err ==> final(self).golden == old(self).golden,
    {
        let rws = crate::flashrom::ROMWriteSpecifics {
            layout_file: Some(self.layout_file.as_str()),
            write_file: Some(self.random_data_file.as_str()),
            name_file: Some(section_name),
        };
        match crate::flashrom::write_file_with_layout(&self.cmd, &rws) {
            Ok(b) => {
                self.golden = false;
                Ok(b)
            },
            Err(e) => Err(e),
        }
    }

    /// Set hardware write-protect through the controller.
    pub fn wp_set_hardware(&mut self, enable: bool) -> (r: Result<(), WpError>)
        requires
            old(self).wf(),
        ensures
            final(self).wf(),
            final(self).cfg() == old(self).cfg(),
            final(self).cmd == old(self).cmd,
            final(self).golden == old(self).golden,
            final(self).wp.fc == old(self).wp.fc,
            final(self).wp.stack@ == old(self).wp.stack@,
            final(self).wp.current.software == old(self).wp.current.software,
            r is Ok ==> final(self).wp.current.hardware == enable,
            r is Err ==> final(self).wp.current == old(self).wp.current,
    {
        self.wp.set_hardware(&mut self.platform, enable)
    }

    /// Set software write-protect through the controller.
    pub fn wp_set_software(&mut self, enable: bool) -> (r: Result<(), WpError>)
        requires
            old(self).wf(),
        ensures
            final(self).wf(),
            final(self).cfg() == old(self).cfg(),
            final(self).cmd == old(self).cmd,
            final(self).platform == old(self).platform,
            final(self).golden == old(self).golden,
            final(self).wp.fc == old(self).wp.fc,
            final(self).wp.stack@ == old(self).wp.stack@,
            (r is Err && r->Err_0 == WpError::HardwareBlocksSoftware) <==> (!enable && old(
                self,
            ).wp.current.hardware),
            r is Err ==> final(self).wp.current == old(self).wp.current,
            r is Ok ==> final(self).wp.current.software == enable
                && final(self).wp.current.hardware == old(self).wp.current.hardware,
    {
        self.wp.set_software(&self.cmd, enable)
    }

    /// Save the write-protect pair.
    pub fn wp_push(&mut self)
        ensures
            final(self).wf() == old(self).wf(),
            final(self).cfg() == old(self).cfg(),
            final(self).cmd == old(self).cmd,
            final(self).platform == old(self).platform,
            final(self).golden == old(self).golden,
            final(self).wp.fc == old(self).wp.fc,
            final(self).wp.current == old(self).wp.current,
            final(self).wp.stack@ == old(self).wp.stack@.push(old(self).wp.current),
    {
        self.wp.push()
    }

    /// Restore the most recently saved write-protect pair, best-effort.
    pub fn wp_pop(&mut self) -> (r: bool)
        requires
            old(self).wf(),
        ensures
            final(self).wf(),
            final(self).cfg() == old(self).cfg(),
            final(self).cmd == old(self).cmd,
            final(self).golden == old(self).golden,
            final(self).wp.fc == old(self).wp.fc,
            old(self).wp.stack@.len() == 0 ==> !r && final(self).wp.current
                == old(self).wp.current && final(self).wp.stack@ == old(self).wp.stack@,
            old(self).wp.stack@.len() > 0 ==> r && final(self).wp.current
                == old(self).wp.stack@.last()
                && final(self).wp.stack@ == old(self).wp.stack@.drop_last(),
    {
        self.wp.pop(&self.cmd, &mut self.platform)
    }
}

/// How one scenario run is classified.
#[derive(Copy, Clone, Debug, PartialEq, Eq, Structural)]
pub enum TestConclusion {
    Pass,
    Fail,
    UnexpectedPass,
    UnexpectedFail,
}

/// One registered scenario: a name, the scenario itself, and the
/// conclusion its run is expected to reach.
pub struct TestCase<S> {
    pub name: String,
    pub test_fn: S,
    /// The conclusion returned by this case if the scenario returns Ok.
    pub conclusion: TestConclusion,
}

/// Descriptive metadata attached to the final report.
pub struct ReportMetaData {
    pub chip_name: String,
    pub os_release: String,
    pub system_info: String,
    pub bios_info: String,
}

/// A test scenario: one independent case run against the shared
/// environment.  Implementations decide success or failure; the
/// sequencer classifies the outcome.
pub trait Scenario<C: Flashrom, P: Platform>: Sized {
    /// Run the scenario against the environment.
    fn run(&self, env: &mut TestEnv<C, P>) -> (r: TestResult)
        requires
            old(env).wf(),
        ensures
            final(env).wf(),
            final(env).cfg() == old(env).cfg(),
    ;
}

/// Reconcile a scenario's actual result with its expected conclusion:
/// an anticipated failure passes (its error is discarded), an
/// unanticipated one fails with the error retained, and an unexpected
/// success is flagged.
pub fn decode_test_result(res: TestResult, con: TestConclusion) -> (r: (
    TestConclusion,
    Option<TestError>,
))
    ensures
        (res is Ok && con == TestConclusion::Fail) ==> r.0 == TestConclusion::UnexpectedPass
            && r.1 is None,
        (res is Err && con == TestConclusion::Pass) ==> r.0 == TestConclusion::UnexpectedFail
            && r.1 == Some(res->Err_0),
        (res is Ok && con != TestConclusion::Fail) ==> r.0 == TestConclusion::Pass && r.1 is None,
        (res is Err && con != TestConclusion::Pass) ==> r.0 == TestConclusion::Pass && r.1 is None,
{
    match (res, con) {
        (Ok(_), TestConclusion::Fail) => (TestConclusion::UnexpectedPass, None),
        (Err(e), TestConclusion::Pass) => (TestConclusion::UnexpectedFail, Some(e)),
        _ => (TestConclusion::Pass, None),
    }
}

/// What any outcome of a run with the given expectation looks like:
/// exactly the rows of the reconciliation table for that expectation.
pub open spec fn outcome_consistent(
    r: (TestConclusion, Option<TestError>),
    con: TestConclusion,
) -> bool {
    if con == TestConclusion::Fail {
        (r.0 == TestConclusion::UnexpectedPass || r.0 == TestConclusion::Pass) && r.1 is None
    } else if con == TestConclusion::Pass {
        (r.0 == TestConclusion::Pass && r.1 is None) || (r.0 == TestConclusion::UnexpectedFail
            && r.1 is Some)
    } else {
        r.0 == TestConclusion::Pass && r.1 is None
    }
}

/// Run one case and classify its outcome.
pub fn run_test<C: Flashrom, P: Platform, S: Scenario<C, P>>(
    t: &TestCase<S>,
    env: &mut TestEnv<C, P>,
) -> (r: (TestConclusion, Option<TestError>))
    requires
        old(env).wf(),
    ensures
        final(env).wf(),
        final(env).cfg() == old(env).cfg(),
        outcome_consistent(r, t.conclusion),
{
    let res = t.test_fn.run(env);
    decode_test_result(res, t.conclusion)
}

/// Run every registered case strictly in registration order against the
/// one shared environment, and report each name with its classified
/// outcome, order preserved.
pub fn run_all_tests<C: Flashrom, P: Platform, S: Scenario<C, P>>(
    ts: &Vec<TestCase<S>>,
    env: &mut TestEnv<C, P>,
) -> (r: Vec<(String, (TestConclusion, Option<TestError>))>)
    requires
        old(env).wf(),
    ensures
        final(env).wf(),
        final(env).cfg() == old(env).cfg(),
        r@.len() == ts@.len(),
        forall|i: int|
            0 <= i < ts@.len() ==> (#[trigger] r@[i]).0@ == ts@[i].name@ && outcome_consistent(
                r@[i].1,
                ts@[i].conclusion,
            ),
{
    let mut results: Vec<(String, (TestConclusion, Option<TestError>))> = Vec::new();
    let mut i: usize = 0;
    while i < ts.len()
        invariant
            i <= ts@.len(),
            env.wf(),
            env.cfg() == old(env).cfg(),
            results@.len() == i,
            forall|j: int|
                0 <= j < i ==> (#[trigger] results@[j]).0@ == ts@[j].name@ && outcome_consistent(
                    results@[j].1,
                    ts@[j].conclusion,
                ),
        decreases ts.len() - i,
    {
        let t = &ts[i];
        let name = t.name.clone();
        let outcome = run_test(t, env);
        results.push((name, outcome));
        i = i + 1;
    }
    results
}

} // verus!
