//! The write-protect controller: the hardware precondition, push/pop
//! restoration, confirmation, and status queries.

use flashrom_tester::flashrom::{Flashrom, FlashromOpt, GatewayError};
use flashrom_tester::tester::{WpError, WriteProtectController};
use flashrom_tester::types::FlashChip;
use flashrom_tester::utils::Platform;

struct FakeFlashrom {
    size: i64,
    wp_status_text: String,
}

impl Flashrom for FakeFlashrom {
    fn get_size(&self) -> Result<i64, GatewayError> {
        Ok(self.size)
    }

    fn new(_path: String, _fc: FlashChip) -> Self {
        FakeFlashrom {
            size: 0x1000,
            wp_status_text: "write protect is enabled".to_string(),
        }
    }

    fn dispatch<'a>(&self, opt: FlashromOpt<'a>) -> Result<(String, String), GatewayError> {
        if opt.wp_opt.status {
            Ok((self.wp_status_text.clone(), String::new()))
        } else {
            Ok((String::new(), String::new()))
        }
    }
}

/// Honest simulation: the toggle flips the switch, the report shows it.
struct FakePlatform {
    hw: bool,
}

impl Platform for FakePlatform {
    fn toggle_hw_wp(&mut self, dis: bool) {
        self.hw = !dis;
    }

    fn crossystem_text(&mut self) -> Result<String, String> {
        Ok(format!("wpsw_cur = {}", if self.hw { 1 } else { 0 }))
    }

    fn eventlog_list(&mut self) -> Result<String, String> {
        Ok(String::new())
    }

    fn os_release_text(&mut self) -> Option<String> {
        None
    }
}

/// The toggle is ignored and the report always shows the switch set.
struct StubbornPlatform;

impl Platform for StubbornPlatform {
    fn toggle_hw_wp(&mut self, _dis: bool) {}

    fn crossystem_text(&mut self) -> Result<String, String> {
        Ok("wpsw_cur = 1".to_string())
    }

    fn eventlog_list(&mut self) -> Result<String, String> {
        Ok(String::new())
    }

    fn os_release_text(&mut self) -> Option<String> {
        None
    }
}

fn fake_cmd() -> FakeFlashrom {
    FakeFlashrom::new("flashrom".to_string(), FlashChip::HOST)
}

#[test]
fn hardware_blocks_software_clear() {
    let cmd = fake_cmd();
    let mut wp = WriteProtectController::new(FlashChip::HOST, true, true);
    let r = wp.set_software(&cmd, false);
    assert!(matches!(r, Err(WpError::HardwareBlocksSoftware)));
    // The software state is untouched by the refused call.
    assert!(wp.current.software);
    assert!(wp.current.hardware);
}

#[test]
fn software_clear_works_without_hardware() {
    let cmd = fake_cmd();
    let mut wp = WriteProtectController::new(FlashChip::HOST, false, true);
    wp.set_software(&cmd, false).unwrap();
    assert!(!wp.current.software);
}

#[test]
fn push_pop_restores_pair() {
    let cmd = fake_cmd();
    let mut platform = FakePlatform { hw: false };
    let mut wp = WriteProtectController::new(FlashChip::HOST, false, false);
    wp.push();
    // Mutate both layers in between.
    wp.set_hardware(&mut platform, true).unwrap();
    wp.set_software(&cmd, true).unwrap();
    assert!(wp.current.hardware);
    assert!(wp.current.software);
    let popped = wp.pop(&cmd, &mut platform);
    assert!(popped);
    assert!(!wp.current.hardware);
    assert!(!wp.current.software);
    // The stack is balanced again.
    assert!(!wp.pop(&cmd, &mut platform));
}

#[test]
fn nested_push_pop() {
    let cmd = fake_cmd();
    let mut platform = FakePlatform { hw: true };
    let mut wp = WriteProtectController::new(FlashChip::HOST, true, false);
    wp.push();
    wp.set_software(&cmd, true).unwrap();
    wp.push();
    wp.set_hardware(&mut platform, false).unwrap();
    assert!(wp.pop(&cmd, &mut platform));
    assert!(wp.current.hardware);
    assert!(wp.current.software);
    assert!(wp.pop(&cmd, &mut platform));
    assert!(wp.current.hardware);
    assert!(!wp.current.software);
}

#[test]
fn set_hardware_confirms_through_report() {
    let mut platform = FakePlatform { hw: true };
    let mut wp = WriteProtectController::new(FlashChip::HOST, true, false);
    wp.set_hardware(&mut platform, false).unwrap();
    assert!(!wp.current.hardware);
    wp.set_hardware(&mut platform, true).unwrap();
    assert!(wp.current.hardware);
}

#[test]
fn set_hardware_unconfirmed_when_toggle_has_no_effect() {
    let mut platform = StubbornPlatform;
    let mut wp = WriteProtectController::new(FlashChip::HOST, true, false);
    let r = wp.set_hardware(&mut platform, false);
    assert!(matches!(r, Err(WpError::Unconfirmed)));
    assert!(wp.current.hardware);
}

#[test]
fn uncontrollable_kind_cannot_set_hardware() {
    let mut platform = FakePlatform { hw: false };
    let mut wp = WriteProtectController::new(FlashChip::DEDIPROG, false, false);
    // Without a toggle channel the controller reports hardware as
    // permanently asserted.
    assert!(wp.current.hardware);
    assert!(!wp.can_control_hardware());
    let r = wp.set_hardware(&mut platform, false);
    assert!(r.is_err());
}

#[test]
fn status_reads_sentinel() {
    let wp = WriteProtectController::new(FlashChip::HOST, false, false);
    let enabled = FakeFlashrom {
        size: 0x1000,
        wp_status_text: "WP: write protect is enabled.".to_string(),
    };
    assert_eq!(wp.status(&enabled).unwrap(), true);
    let disabled = FakeFlashrom {
        size: 0x1000,
        wp_status_text: "WP: write protect is disabled.".to_string(),
    };
    assert_eq!(wp.status(&disabled).unwrap(), false);
    let silent = FakeFlashrom {
        size: 0x1000,
        wp_status_text: String::new(),
    };
    assert!(matches!(wp.status(&silent), Err(WpError::Unsupported)));
}

#[test]
fn gather_system_info_reads_platform_report() {
    let mut p = FakePlatform { hw: true };
    let (lines, wp) = flashrom_tester::utils::gather_system_info(&mut p).unwrap();
    assert!(wp);
    assert_eq!(lines, vec!["wpsw_cur = 1"]);
}
