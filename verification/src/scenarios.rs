//! The qualification scenarios a run registers: write-protect toggling,
//! erase behaviour under protection, partial range locks, firmware log
//! sanity and host identification, together with the standard suite and
//! the os-release reader.

use vstd::prelude::*;
use vstd::string::StrSliceExecFns;
use vstd::string::StringExecFns;
use crate::flashrom::{Flashrom, GatewayError};
use crate::strings::{index_of_char, lemma_index_of_char_props, split_lines, split_lines_exec};
use crate::tester::{Scenario, TestCase, TestConclusion, TestEnv, TestError, TestResult};
use crate::types::FlashChip;
use crate::utils::{layout_section, LayoutNames, Platform};

verus! {

/// Query the device name; getting anything back is good enough.
pub fn get_device_name_test<C: Flashrom, P: Platform>(env: &mut TestEnv<C, P>) -> (r: TestResult)
    requires
        old(env).wf(),
    ensures
        final(env).wf(),
        final(env).cfg() == old(env).cfg(),
{
    match crate::flashrom::name(&env.cmd) {
        Ok(_) => Ok(()),
        Err(e) => Err(TestError::Gateway(e)),
    }
}

/// Both write-protect layers can be cleared; fails if either cannot.
pub fn wp_toggle_test<C: Flashrom, P: Platform>(env: &mut TestEnv<C, P>) -> (r: TestResult)
    requires
        old(env).wf(),
    ensures
        final(env).wf(),
        final(env).cfg() == old(env).cfg(),
        r is Ok ==> !final(env).wp.current.hardware && !final(env).wp.current.software,
        final(env).wp.stack@ == old(env).wp.stack@,
{
    match env.wp_set_hardware(false) {
        Ok(()) => {},
        Err(e) => {
            return Err(TestError::Wp(e));
        },
    }
    match env.wp_set_software(false) {
        Ok(()) => {},
        Err(e) => {
            return Err(TestError::Wp(e));
        },
    }
    Ok(())
}

/// With both write-protect layers asserted an erase must not change the
/// chip; with both cleared it must.  Success leaves the chip erased.
pub fn erase_write_test<C: Flashrom, P: Platform>(env: &mut TestEnv<C, P>) -> (r: TestResult)
    requires
        old(env).wf(),
    ensures
        final(env).wf(),
        final(env).cfg() == old(env).cfg(),
        r is Ok ==> !final(env).golden && !final(env).wp.current.hardware
            && !final(env).wp.current.software,
{
    if !env.is_golden() {
        // The chip was modified; reflash so erasure can be detected.
        match env.ensure_golden() {
            Ok(()) => {},
            Err(e) => {
                return Err(e);
            },
        }
    }
    // With write protect enabled, erase should fail.
    match env.wp_set_software(true) {
        Ok(()) => {},
        Err(e) => {
            return Err(TestError::Wp(e));
        },
    }
    match env.wp_set_hardware(true) {
        Ok(()) => {},
        Err(e) => {
            return Err(TestError::Wp(e));
        },
    }
    let erased = env.erase();
    if erased.is_ok() {
        // The utility may wrongly report success; the chip contents decide.
        if !env.verify_against_golden() {
            return Err(
                TestError::Message(
                    "Hardware write protect asserted however can still erase!".to_owned(),
                ),
            );
        }
        // Erase claimed to succeed but the chip still verifies; assume it failed.
    }
    // With write protect disabled, erase should succeed.
    match env.wp_set_hardware(false) {
        Ok(()) => {},
        Err(e) => {
            return Err(TestError::Wp(e));
        },
    }
    match env.wp_set_software(false) {
        Ok(()) => {},
        Err(e) => {
            return Err(TestError::Wp(e));
        },
    }
    match env.erase() {
        Ok(()) => {},
        Err(e) => {
            return Err(TestError::Gateway(e));
        },
    }
    if env.verify_against_golden() {
        return Err(TestError::Message("Successful erase didn't modify memory".to_owned()));
    }
    Ok(())
}

/// Clearing software write-protect works while hardware write-protect
/// is off, and is refused while it is asserted.
pub fn lock_test<C: Flashrom, P: Platform>(env: &mut TestEnv<C, P>) -> (r: TestResult)
    requires
        old(env).wf(),
    ensures
        final(env).wf(),
        final(env).cfg() == old(env).cfg(),
        r is Ok ==> final(env).wp.stack@ == old(env).wp.stack@ && !final(env).wp.current.hardware
            && final(env).wp.current.software == old(env).wp.current.software,
        !old(env).wp.fc.spec_can_control_hw_wp() ==> r is Err && final(env).wp == old(env).wp,
{
    if !env.wp.can_control_hardware() {
        return Err(
            TestError::Message(
                "Lock test requires ability to control hardware write protect".to_owned(),
            ),
        );
    }
    match env.wp_set_hardware(false) {
        Ok(()) => {},
        Err(e) => {
            return Err(TestError::Wp(e));
        },
    }
    // Save the pair, then toggle software write-protect off while
    // hardware is off: that should work.
    env.wp_push();
    match env.wp_set_software(false) {
        Ok(()) => {},
        Err(e) => {
            let _ = env.wp_pop();
            return Err(TestError::Wp(e));
        },
    }
    match env.wp_set_hardware(true) {
        Ok(()) => {},
        Err(e) => {
            let _ = env.wp_pop();
            return Err(TestError::Wp(e));
        },
    }
    // Clearing must fail while hardware write-protect is asserted.
    if env.wp_set_software(false).is_ok() {
        let _ = env.wp_pop();
        return Err(
            TestError::Message(
                "Software WP was reset despite hardware WP being enabled".to_owned(),
            ),
        );
    }
    let _ = env.wp_pop();
    Ok(())
}

/// Comparing the chip against random data must report a difference.
pub fn verify_fail_test<C: Flashrom, P: Platform>(env: &mut TestEnv<C, P>) -> (r: TestResult)
    requires
        old(env).wf(),
    ensures
        final(env).wf(),
        final(env).cfg() == old(env).cfg(),
        *final(env) == *old(env),
{
    let path = env.random_data_file();
    match env.verify(path) {
        Ok(()) => Err(TestError::Message("Verification says flash is full of random data".to_owned())),
        Err(_) => Ok(()),
    }
}

/// Lock one named section, then check that writing random data into it
/// fails and leaves the chip contents intact.
pub fn partial_lock_test<C: Flashrom, P: Platform>(
    env: &mut TestEnv<C, P>,
    section: LayoutNames,
) -> (r: TestResult)
    requires
        old(env).wf(),
    ensures
        final(env).wf(),
        final(env).cfg() == old(env).cfg(),
        r is Ok ==> final(env).golden && final(env).wp.current.hardware
            && !final(env).wp.current.software,
{
    // A clean image is needed for verification.
    match env.ensure_golden() {
        Ok(()) => {},
        Err(e) => {
            return Err(e);
        },
    }
    let (name, start, len) = layout_section(env.layout(), section);
    // Disable software write-protect so range protection can be set, but
    // hardware write-protect must be asserted for ranges to do anything.
    match env.wp_set_hardware(false) {
        Ok(()) => {},
        Err(e) => {
            return Err(TestError::Wp(e));
        },
    }
    match env.wp_set_software(false) {
        Ok(()) => {},
        Err(e) => {
            return Err(TestError::Wp(e));
        },
    }
    match env.wp_set_hardware(true) {
        Ok(()) => {},
        Err(e) => {
            return Err(TestError::Wp(e));
        },
    }
    match crate::flashrom::wp_range(&env.cmd, (start, len), true) {
        Ok(_) => {},
        Err(e) => {
            return Err(TestError::Gateway(e));
        },
    }
    if env.write_with_layout(name).is_ok() {
        return Err(
            TestError::Message(
                "Section should be locked, should not have been overwritable with random data".to_owned(),
            ),
        );
    }
    if !env.verify_against_golden() {
        return Err(
            TestError::Message(
                "Section didn't lock, has been overwritten with random data!".to_owned(),
            ),
        );
    }
    Ok(())
}

/// How many nonempty lines `s` splits into.
pub open spec fn count_nonempty_lines(ls: Seq<Seq<char>>) -> nat
    decreases ls.len(),
{
    if ls.len() == 0 {
        0
    } else if ls[0].len() > 0 {
        1 + count_nonempty_lines(ls.drop_first())
    } else {
        count_nonempty_lines(ls.drop_first())
    }
}

/// Count the nonempty lines of `s`.
pub fn count_events(s: &str) -> (r: usize)
    ensures
        r == count_nonempty_lines(split_lines(s@)),
{
    let lines = split_lines_exec(s);
    let ghost all = split_lines(s@);
    let mut count: usize = 0;
    let mut i: usize = 0;
    proof {
        assert(all.skip(0) =~= all);
    }
    while i < lines.len()
        invariant
            i <= lines.len(),
            lines.deep_view() == all,
            count + count_nonempty_lines(all.skip(i as int)) == count_nonempty_lines(all),
            count <= i,
        decreases lines.len() - i,
    {
        proof {
            assert(all.skip(i as int)[0] == all[i as int]);
            assert(all.skip(i as int).drop_first() =~= all.skip(i + 1));
            assert(all[i as int] == lines[i as int]@);
        }
        if !lines[i].as_str().is_empty() {
            count = count + 1;
        }
        i = i + 1;
    }
    proof {
        assert(all.skip(lines.deep_view().len() as int) =~= Seq::<Seq<char>>::empty());
    }
    count
}

/// The firmware event log must contain at least one event, as a sign
/// that the firmware can write to the flash.  Only meaningful on the
/// host chip; other kinds skip.
pub fn elog_sanity_test<C: Flashrom, P: Platform>(env: &mut TestEnv<C, P>) -> (r: TestResult)
    requires
        old(env).wf(),
    ensures
        final(env).wf(),
        final(env).cfg() == old(env).cfg(),
        r is Ok && old(env).fc == FlashChip::HOST ==> final(env).golden,
        old(env).fc != FlashChip::HOST ==> r is Ok && *final(env) == *old(env),
{
    if env.chip_type() != FlashChip::HOST {
        return Ok(());
    }
    // Reading the log goes through the flash; it should be back in the
    // golden state first.
    match env.ensure_golden() {
        Ok(()) => {},
        Err(e) => {
            return Err(e);
        },
    }
    let log = match env.platform.eventlog_list() {
        Ok(t) => t,
        Err(e) => {
            return Err(TestError::Message(e));
        },
    };
    // One event per line; empty lines are ignored out of caution.
    if count_events(log.as_str()) == 0 {
        Err(TestError::Message("ELOG contained no events".to_owned()))
    } else {
        Ok(())
    }
}

/// One parsed os-release line: a `KEY=value` pair; comments, empty
/// lines and lines without an equals sign carry nothing.
pub open spec fn os_release_line(l: Seq<char>) -> Option<(Seq<char>, Seq<char>)> {
    if l.len() == 0 || l[0] == '#' {
        None
    } else {
        let ci = index_of_char(l, '=');
        if ci < 0 {
            None
        } else {
            Some((l.take(ci), l.skip(ci + 1)))
        }
    }
}

/// The key-value pairs of the given lines, in order.
pub open spec fn os_release_pairs(ls: Seq<Seq<char>>) -> Seq<(Seq<char>, Seq<char>)>
    decreases ls.len(),
{
    if ls.len() == 0 {
        Seq::empty()
    } else {
        match os_release_line(ls[0]) {
            Some(p) => seq![p].add(os_release_pairs(ls.drop_first())),
            None => os_release_pairs(ls.drop_first()),
        }
    }
}

/// The value of the last entry for `k`, as a map built by insertion
/// would hold it.
pub open spec fn os_release_lookup(
    entries: Seq<(Seq<char>, Seq<char>)>,
    k: Seq<char>,
) -> Option<Seq<char>>
    decreases entries.len(),
{
    if entries.len() == 0 {
        None
    } else if entries.last().0 == k {
        Some(entries.last().1)
    } else {
        os_release_lookup(entries.drop_last(), k)
    }
}

/// The pairs as character sequences.
pub open spec fn os_release_view(v: Seq<(String, String)>) -> Seq<(Seq<char>, Seq<char>)> {
    Seq::new(v.len(), |i: int| (v[i].0@, v[i].1@))
}

/// The parsed os-release metadata: `KEY=value` entries in file order.
pub struct OsRelease {
    pub entries: Vec<(String, String)>,
}

impl OsRelease {
    /// No entries at all, as when the file cannot be read.
    pub fn empty() -> (r: Self)
        ensures
            os_release_view(r.entries@) == Seq::<(Seq<char>, Seq<char>)>::empty(),
    {
        let r = OsRelease { entries: Vec::new() };
        proof {
            assert(os_release_view(r.entries@) =~= Seq::<(Seq<char>, Seq<char>)>::empty());
        }
        r
    }

    /// The value for `k`, later entries overriding earlier ones.
    pub fn get(&self, k: &str) -> (r: Option<String>)
        ensures
            r is Some <==> os_release_lookup(os_release_view(self.entries@), k@) is Some,
            r is Some ==> r->0@ == os_release_lookup(os_release_view(self.entries@), k@)->0,
    {
        let ghost entries = os_release_view(self.entries@);
        let mut i: usize = self.entries.len();
        proof {
            assert(entries.take(entries.len() as int) =~= entries);
        }
        while i > 0
            invariant
                i <= self.entries@.len(),
                entries == os_release_view(self.entries@),
                os_release_lookup(entries, k@) == os_release_lookup(
                    entries.take(i as int),
                    k@,
                ),
            decreases i,
        {
            proof {
                assert(entries.take(i as int).last() == entries[i - 1]);
                assert(entries.take(i as int).drop_last() =~= entries.take(i - 1));
            }
            if crate::strings::str_eq(self.entries[i - 1].0.as_str(), k) {
                let v = self.entries[i - 1].1.clone();
                return Some(v);
            }
            i = i - 1;
        }
        proof {
            assert(entries.take(0) =~= Seq::<(Seq<char>, Seq<char>)>::empty());
        }
        None
    }
}

/// Ad-hoc reading of os-release metadata; mostly by the book, but
/// quotes and escaping are ignored.
pub fn parse_os_release(lines: Vec<String>) -> (r: OsRelease)
    ensures
        os_release_view(r.entries@) == os_release_pairs(lines.deep_view()),
{
    let ghost all = lines.deep_view();
    let mut entries: Vec<(String, String)> = Vec::new();
    let mut i: usize = 0;
    proof {
        assert(all.skip(0) =~= all);
        assert(os_release_view(entries@) =~= Seq::<(Seq<char>, Seq<char>)>::empty());
        assert(os_release_pairs(all) =~= os_release_view(entries@).add(
            os_release_pairs(all.skip(0)),
        ));
    }
    while i < lines.len()
        invariant
            i <= lines.len(),
            lines.deep_view() == all,
            os_release_pairs(all) == os_release_view(entries@).add(
                os_release_pairs(all.skip(i as int)),
            ),
        decreases lines.len() - i,
    {
        proof {
            assert(all.skip(i as int)[0] == all[i as int]);
            assert(all.skip(i as int).drop_first() =~= all.skip(i + 1));
            assert(all[i as int] == lines[i as int]@);
        }
        let line = &lines[i];
        let ghost old_entries = os_release_view(entries@);
        if !line.as_str().is_empty() && line.as_str().get_char(0) != '#' {
            proof {
                lemma_index_of_char_props(line@, '=');
            }
            match crate::strings::find_char(line.as_str(), '=') {
                Some(ci) => {
                    let l_len = line.as_str().unicode_len();
                    let key = line.as_str().substring_char(0, ci).to_owned();
                    let value = line.as_str().substring_char(ci + 1, l_len).to_owned();
                    proof {
                        assert(key@ =~= line@.take(ci as int));
                        assert(value@ =~= line@.skip(ci + 1));
                    }
                    entries.push((key, value));
                    proof {
                        assert(os_release_view(entries@) =~= old_entries.push(
                            (line@.take(ci as int), line@.skip(ci + 1)),
                        ));
                        assert(os_release_pairs(all) =~= os_release_view(entries@).add(
                            os_release_pairs(all.skip(i + 1)),
                        ));
                    }
                },
                None => {
                    // A malformed entry carries nothing.
                },
            }
        }
        i = i + 1;
    }
    proof {
        assert(all.skip(lines.deep_view().len() as int) =~= Seq::<Seq<char>>::empty());
        assert(os_release_pairs(all) =~= os_release_view(entries@));
    }
    OsRelease { entries }
}

/// Whether parsed os-release metadata identifies a Chrome OS system:
/// its ID entry is exactly `chromeos` or `chromiumos`.
pub fn os_release_is_chrome(info: &OsRelease) -> (r: bool)
    ensures
        r == ({
            let id = os_release_lookup(os_release_view(info.entries@), "ID"@);
            id is Some && (id->0 == "chromeos"@ || id->0 == "chromiumos"@)
        }),
{
    match info.get("ID") {
        Some(id) => crate::strings::str_eq(id.as_str(), "chromeos") || crate::strings::str_eq(
            id.as_str(),
            "chromiumos",
        ),
        None => false,
    }
}

/// The host must identify as a Chrome OS system in its os-release
/// metadata; `os_release_is_chrome` decides, over whatever text the
/// platform supplies.
pub fn host_is_chrome_test<C: Flashrom, P: Platform>(env: &mut TestEnv<C, P>) -> (r: TestResult)
    requires
        old(env).wf(),
    ensures
        final(env).wf(),
        final(env).cfg() == old(env).cfg(),
{
    let release_info = match env.platform.os_release_text() {
        Some(text) => parse_os_release(split_lines_exec(text.as_str())),
        None => OsRelease::empty(),
    };
    if os_release_is_chrome(&release_info) {
        Ok(())
    } else {
        let mut msg = "Test host os-release \"".to_owned();
        match release_info.get("ID") {
            Some(id) => {
                msg.append(id.as_str());
            },
            None => {
                msg.append("UNKNOWN");
            },
        }
        msg.append("\" should be but is not chromeos");
        Err(TestError::Message(msg))
    }
}

/// Which scenario a registered case runs; the partial-lock scenario
/// carries the section it targets.
#[derive(Copy, Clone, Debug, PartialEq, Eq, Structural)]
pub enum ScenarioKind {
    GetDeviceName,
    ToggleWp,
    EraseWrite,
    VerifyFail,
    Lock,
    PartialLock(LayoutNames),
    ElogSanity,
    HostIsChrome,
}

impl<C: Flashrom, P: Platform> Scenario<C, P> for ScenarioKind {
    fn run(&self, env: &mut TestEnv<C, P>) -> (r: TestResult) {
        match self {
            ScenarioKind::GetDeviceName => get_device_name_test(env),
            ScenarioKind::ToggleWp => wp_toggle_test(env),
            ScenarioKind::EraseWrite => erase_write_test(env),
            ScenarioKind::VerifyFail => verify_fail_test(env),
            ScenarioKind::Lock => lock_test(env),
            ScenarioKind::PartialLock(section) => partial_lock_test(env, *section),
            ScenarioKind::ElogSanity => elog_sanity_test(env),
            ScenarioKind::HostIsChrome => host_is_chrome_test(env),
        }
    }
}

/// The standard suite, in its fixed registration order; every case
/// expects to pass.
pub fn standard_tests() -> (r: Vec<TestCase<ScenarioKind>>)
    ensures
        r@.len() == 11,
        forall|i: int| 0 <= i < r@.len() ==> (#[trigger] r@[i]).conclusion == TestConclusion::Pass,
        r@[0].test_fn == ScenarioKind::GetDeviceName && r@[0].name@ == "Get device name"@,
        r@[1].test_fn == ScenarioKind::ToggleWp && r@[1].name@ == "Toggle WP"@,
        r@[2].test_fn == ScenarioKind::EraseWrite && r@[2].name@ == "Erase/Write"@,
        r@[3].test_fn == ScenarioKind::VerifyFail && r@[3].name@ == "Fail to verify"@,
        r@[4].test_fn == ScenarioKind::Lock && r@[4].name@ == "Lock"@,
        r@[5].test_fn == ScenarioKind::PartialLock(LayoutNames::TopQuad) && r@[5].name@
            == "Lock top quad"@,
        r@[6].test_fn == ScenarioKind::PartialLock(LayoutNames::BottomQuad) && r@[6].name@
            == "Lock bottom quad"@,
        r@[7].test_fn == ScenarioKind::PartialLock(LayoutNames::BottomHalf) && r@[7].name@
            == "Lock bottom half"@,
        r@[8].test_fn == ScenarioKind::PartialLock(LayoutNames::TopHalf) && r@[8].name@
            == "Lock top half"@,
        r@[9].test_fn == ScenarioKind::ElogSanity && r@[9].name@ == "Coreboot ELOG sanity"@,
        r@[10].test_fn == ScenarioKind::HostIsChrome && r@[10].name@ == "Host is ChromeOS"@,
{
    let mut r: Vec<TestCase<ScenarioKind>> = Vec::new();
    r.push(
        TestCase {
            name: "Get device name".to_owned(),
            test_fn: ScenarioKind::GetDeviceName,
            conclusion: TestConclusion::Pass,
        },
    );
    r.push(
        TestCase {
            name: "Toggle WP".to_owned(),
            test_fn: ScenarioKind::ToggleWp,
            conclusion: TestConclusion::Pass,
        },
    );
    r.push(
        TestCase {
            name: "Erase/Write".to_owned(),
            test_fn: ScenarioKind::EraseWrite,
            conclusion: TestConclusion::Pass,
        },
    );
    r.push(
        TestCase {
            name: "Fail to verify".to_owned(),
            test_fn: ScenarioKind::VerifyFail,
            conclusion: TestConclusion::Pass,
        },
    );
    r.push(
        TestCase {
            name: "Lock".to_owned(),
            test_fn: ScenarioKind::Lock,
            conclusion: TestConclusion::Pass,
        },
    );
    r.push(
        TestCase {
            name: "Lock top quad".to_owned(),
            test_fn: ScenarioKind::PartialLock(LayoutNames::TopQuad),
            conclusion: TestConclusion::Pass,
        },
    );
    r.push(
        TestCase {
            name: "Lock bottom quad".to_owned(),
            test_fn: ScenarioKind::PartialLock(LayoutNames::BottomQuad),
            conclusion: TestConclusion::Pass,
        },
    );
    r.push(
        TestCase {
            name: "Lock bottom half".to_owned(),
            test_fn: ScenarioKind::PartialLock(LayoutNames::BottomHalf),
            conclusion: TestConclusion::Pass,
        },
    );
    r.push(
        TestCase {
            name: "Lock top half".to_owned(),
            test_fn: ScenarioKind::PartialLock(LayoutNames::TopHalf),
            conclusion: TestConclusion::Pass,
        },
    );
    r.push(
        TestCase {
            name: "Coreboot ELOG sanity".to_owned(),
            test_fn: ScenarioKind::ElogSanity,
            conclusion: TestConclusion::Pass,
        },
    );
    r.push(
        TestCase {
            name: "Host is ChromeOS".to_owned(),
            test_fn: ScenarioKind::HostIsChrome,
            conclusion: TestConclusion::Pass,
        },
    );
    r
}

} // verus!
