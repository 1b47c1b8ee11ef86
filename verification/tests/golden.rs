//! The golden-image tracker: verification, restoration, and drift.

use std::cell::Cell;

use flashrom_tester::flashrom::{Flashrom, FlashromOpt, GatewayError};
use flashrom_tester::tester::{DriftError, TestEnv, TestError, WriteProtectController};
use flashrom_tester::types::FlashChip;
use flashrom_tester::utils::{get_layout_sizes, Platform};

struct FakeFlashrom {
    verify_ok: Cell<bool>,
    /// Verifications to fail before they start succeeding again; lets a
    /// test model a rewrite that does or does not take.
    rewrite_heals: bool,
}

impl Flashrom for FakeFlashrom {
    fn get_size(&self) -> Result<i64, GatewayError> {
        Ok(0x1000)
    }

    fn new(_path: String, _fc: FlashChip) -> Self {
        FakeFlashrom {
            verify_ok: Cell::new(true),
            rewrite_heals: true,
        }
    }

    fn dispatch<'a>(&self, opt: FlashromOpt<'a>) -> Result<(String, String), GatewayError> {
        if opt.io_opt.verify.is_some() {
            if self.verify_ok.get() {
                Ok((String::new(), String::new()))
            } else {
                Err(GatewayError::ExitCode(1, "verify failed".to_string()))
            }
        } else if opt.io_opt.write.is_some() {
            // A write from the golden file restores the contents when
            // this fake is set up to heal.
            if self.rewrite_heals {
                self.verify_ok.set(true);
            }
            Ok((String::new(), String::new()))
        } else {
            Ok((String::new(), String::new()))
        }
    }
}

struct NullPlatform;

impl Platform for NullPlatform {
    fn toggle_hw_wp(&mut self, _dis: bool) {}

    fn crossystem_text(&mut self) -> Result<String, String> {
        Err("unavailable".to_string())
    }

    fn eventlog_list(&mut self) -> Result<String, String> {
        Err("unavailable".to_string())
    }

    fn os_release_text(&mut self) -> Option<String> {
        None
    }
}

fn env_with(cmd: FakeFlashrom) -> TestEnv<FakeFlashrom, NullPlatform> {
    env_for(cmd, FlashChip::HOST)
}

fn env_for(cmd: FakeFlashrom, fc: FlashChip) -> TestEnv<FakeFlashrom, NullPlatform> {
    let layout = get_layout_sizes(0x1000).unwrap();
    let wp = WriteProtectController::new(fc, false, false);
    TestEnv::new(
        cmd,
        NullPlatform,
        fc,
        layout,
        wp,
        "/tmp/layout.file".to_string(),
        "/tmp/golden.bin".to_string(),
        "/tmp/random.bin".to_string(),
    )
}

#[test]
fn ensure_golden_then_write_then_ensure_again() {
    let mut env = env_with(FakeFlashrom::new("flashrom".to_string(), FlashChip::HOST));
    // Nothing is known before the first verification.
    assert!(!env.is_golden());
    env.ensure_golden().unwrap();
    assert!(env.is_golden());
    // A destructive operation makes the chip no longer known golden.
    env.cmd.verify_ok.set(false);  // the contents now diverge
    env.erase().unwrap();
    assert!(!env.is_golden());
    // Restoring brings the tracker back.
    env.ensure_golden().unwrap();
    assert!(env.is_golden());
}

#[test]
fn ensure_golden_rewrites_on_divergence() {
    let cmd = FakeFlashrom {
        verify_ok: Cell::new(false),
        rewrite_heals: true,
    };
    let mut env = env_with(cmd);
    env.ensure_golden().unwrap();
    assert!(env.is_golden());
}

#[test]
fn ensure_golden_unrecoverable_drift() {
    let cmd = FakeFlashrom {
        verify_ok: Cell::new(false),
        rewrite_heals: false,
    };
    let mut env = env_with(cmd);
    let r = env.ensure_golden();
    assert!(matches!(
        r,
        Err(TestError::Drift(DriftError::Unrecoverable))
    ));
    assert!(!env.is_golden());
}

#[test]
fn verify_against_golden_records_result() {
    let mut env = env_with(FakeFlashrom::new("flashrom".to_string(), FlashChip::HOST));
    assert!(env.verify_against_golden());
    assert!(env.is_golden());
    env.cmd.verify_ok.set(false);
    assert!(!env.verify_against_golden());
    assert!(!env.is_golden());
}

#[test]
fn elog_sanity_skips_non_host() {
    let mut env = env_for(
        FakeFlashrom::new("flashrom".to_string(), FlashChip::DEDIPROG),
        FlashChip::DEDIPROG,
    );
    let r = flashrom_tester::scenarios::elog_sanity_test(&mut env);
    assert!(r.is_ok());
    // Skipping touches nothing: no golden verification happened.
    assert!(!env.is_golden());
}

#[test]
fn lock_test_requires_hardware_control() {
    let mut env = env_for(
        FakeFlashrom::new("flashrom".to_string(), FlashChip::DEDIPROG),
        FlashChip::DEDIPROG,
    );
    let hw_before = env.wp.current.hardware;
    let sw_before = env.wp.current.software;
    let r = flashrom_tester::scenarios::lock_test(&mut env);
    assert!(r.is_err());
    // The controller is untouched by the refused scenario.
    assert_eq!(env.wp.current.hardware, hw_before);
    assert_eq!(env.wp.current.software, sw_before);
    assert!(env.wp.stack.is_empty());
}
