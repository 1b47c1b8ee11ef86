//! The sequencer: outcome reconciliation, single-case runs, and an
//! end-to-end run of three scenarios.

use flashrom_tester::flashrom::{Flashrom, FlashromOpt, GatewayError};
use flashrom_tester::tester::{
    decode_test_result, run_all_tests, Scenario, TestCase, TestConclusion, TestEnv, TestError,
    TestResult, WriteProtectController,
};
use flashrom_tester::tester::TestConclusion::{Fail, Pass, UnexpectedFail, UnexpectedPass};
use flashrom_tester::types::FlashChip;
use flashrom_tester::utils::{get_layout_sizes, Platform};

struct FakeFlashrom;

impl Flashrom for FakeFlashrom {
    fn get_size(&self) -> Result<i64, GatewayError> {
        Ok(0x1000)
    }

    fn new(_path: String, _fc: FlashChip) -> Self {
        FakeFlashrom
    }

    fn dispatch<'a>(&self, _opt: FlashromOpt<'a>) -> Result<(String, String), GatewayError> {
        Ok((String::new(), String::new()))
    }
}

struct FakePlatform {
    ran_pre: bool,
    ran_post: bool,
}

impl Platform for FakePlatform {
    fn toggle_hw_wp(&mut self, _dis: bool) {}

    fn crossystem_text(&mut self) -> Result<String, String> {
        Ok("wpsw_cur = 0".to_string())
    }

    fn eventlog_list(&mut self) -> Result<String, String> {
        Ok(String::new())
    }

    fn os_release_text(&mut self) -> Option<String> {
        None
    }
}

/// A scenario with a fixed result that also records, through the
/// environment, that its setup and teardown phases ran.
enum StubScenario {
    Succeed,
    FailWith(&'static str),
}

impl Scenario<FakeFlashrom, FakePlatform> for StubScenario {
    fn run(&self, env: &mut TestEnv<FakeFlashrom, FakePlatform>) -> TestResult {
        env.platform.ran_pre = true;
        let r = match self {
            StubScenario::Succeed => Ok(()),
            StubScenario::FailWith(msg) => Err(TestError::Message((*msg).to_string())),
        };
        env.platform.ran_post = true;
        r
    }
}

fn fresh_env() -> TestEnv<FakeFlashrom, FakePlatform> {
    let layout = get_layout_sizes(0x1000).unwrap();
    let wp = WriteProtectController::new(FlashChip::HOST, false, false);
    TestEnv::new(
        FakeFlashrom,
        FakePlatform {
            ran_pre: false,
            ran_post: false,
        },
        FlashChip::HOST,
        layout,
        wp,
        "/tmp/layout.file".to_string(),
        "/tmp/golden.bin".to_string(),
        "/tmp/random.bin".to_string(),
    )
}

#[test]
fn run_test() {
    let mut env = fresh_env();

    let expected_pass = TestCase {
        name: "ExpectedPass".to_string(),
        test_fn: StubScenario::Succeed,
        conclusion: Pass,
    };
    let (conclusion, error) = flashrom_tester::tester::run_test(&expected_pass, &mut env);
    assert_eq!(conclusion, Pass);
    assert!(error.is_none());
    // Check the scenario's phases ran and reset the flags.
    assert_eq!(std::mem::replace(&mut env.platform.ran_pre, false), true);
    assert_eq!(std::mem::replace(&mut env.platform.ran_post, false), true);

    let unexpected_fail = TestCase {
        name: "ExpectedPass".to_string(),
        test_fn: StubScenario::FailWith("I'm a failure"),
        conclusion: Pass,
    };
    let (conclusion, error) = flashrom_tester::tester::run_test(&unexpected_fail, &mut env);
    assert_eq!(conclusion, UnexpectedFail);
    match error.expect("not an error") {
        TestError::Message(m) => assert_eq!(m, "I'm a failure"),
        other => panic!("unexpected error kind: {:?}", other),
    }

    let expected_fail = TestCase {
        name: "ExpectedPass".to_string(),
        test_fn: StubScenario::FailWith("I'm a failure"),
        conclusion: Fail,
    };
    let (conclusion, error) = flashrom_tester::tester::run_test(&expected_fail, &mut env);
    assert_eq!(conclusion, Pass);
    assert!(error.is_none());

    let unexpected_pass = TestCase {
        name: "ExpectedPass".to_string(),
        test_fn: StubScenario::Succeed,
        conclusion: Fail,
    };
    let (conclusion, error) = flashrom_tester::tester::run_test(&unexpected_pass, &mut env);
    assert_eq!(conclusion, UnexpectedPass);
    assert!(error.is_none());
}

#[test]
fn outcome_reconciliation_table() {
    // actual success & expected Pass: Pass.
    let (c, e) = decode_test_result(Ok(()), Pass);
    assert_eq!(c, Pass);
    assert!(e.is_none());

    // actual success & expected Fail: UnexpectedPass.
    let (c, e) = decode_test_result(Ok(()), Fail);
    assert_eq!(c, UnexpectedPass);
    assert!(e.is_none());

    // actual error & expected Pass: UnexpectedFail, error retained.
    let err = TestError::Message("boom".to_string());
    let (c, e) = decode_test_result(Err(err), Pass);
    assert_eq!(c, UnexpectedFail);
    match e {
        Some(TestError::Message(m)) => assert_eq!(m, "boom"),
        other => panic!("expected retained error, got {:?}", other),
    }

    // actual error & expected Fail: Pass, error dropped.
    let err = TestError::Message("anticipated".to_string());
    let (c, e) = decode_test_result(Err(err), Fail);
    assert_eq!(c, Pass);
    assert!(e.is_none());
}

#[test]
fn three_scenarios_end_to_end() {
    let mut env = fresh_env();
    let cases = vec![
        TestCase {
            name: "one".to_string(),
            test_fn: StubScenario::Succeed,
            conclusion: Pass,
        },
        TestCase {
            name: "two".to_string(),
            test_fn: StubScenario::FailWith("anticipated failure"),
            conclusion: Fail,
        },
        TestCase {
            name: "three".to_string(),
            test_fn: StubScenario::FailWith("real failure"),
            conclusion: Pass,
        },
    ];
    let results = run_all_tests(&cases, &mut env);
    assert_eq!(results.len(), 3);
    // Registration order is preserved.
    assert_eq!(results[0].0, "one");
    assert_eq!(results[1].0, "two");
    assert_eq!(results[2].0, "three");
    // Outcomes follow the reconciliation table.
    assert_eq!(results[0].1 .0, Pass);
    assert_eq!(results[1].1 .0, Pass);
    assert_eq!(results[2].1 .0, UnexpectedFail);
    // Only the unanticipated error is retained.
    assert!(results[0].1 .1.is_none());
    assert!(results[1].1 .1.is_none());
    match &results[2].1 .1 {
        Some(TestError::Message(m)) => assert_eq!(m, "real failure"),
        other => panic!("expected retained error, got {:?}", other),
    }
}

#[test]
fn standard_suite_names_and_order() {
    let suite = flashrom_tester::scenarios::standard_tests();
    let names: Vec<&str> = suite.iter().map(|t| t.name.as_str()).collect();
    assert_eq!(
        names,
        vec![
            "Get device name",
            "Toggle WP",
            "Erase/Write",
            "Fail to verify",
            "Lock",
            "Lock top quad",
            "Lock bottom quad",
            "Lock bottom half",
            "Lock top half",
            "Coreboot ELOG sanity",
            "Host is ChromeOS",
        ]
    );
    for t in &suite {
        assert_eq!(t.conclusion, TestConclusion::Pass);
    }
}
