//! Chip kind parsing, selector strings, capabilities, the command-line
//! translation, and the platform state report reader.

use flashrom_tester::cmd::{flashrom_cmdline, flashrom_decode_opts};
use flashrom_tester::flashrom::{
    erase_opts, extract_flash_name, name_opts, read_opts, verify_opts, wp_list_opts,
    wp_range_opts, wp_status_matches, wp_status_opts, wp_toggle_opts, write_opts, FlashromOpt,
    IOOpt, WPOpt,
};
use flashrom_tester::types::FlashChip;
use flashrom_tester::utils::{parse_crosssystem, CrosssystemError};

#[test]
fn chip_kind_from_strings() {
    assert_eq!(FlashChip::from("ec"), Ok(FlashChip::EC));
    assert_eq!(FlashChip::from("host"), Ok(FlashChip::HOST));
    assert_eq!(FlashChip::from("servo-v2"), Ok(FlashChip::SERVOv2));
    assert_eq!(FlashChip::from("dediprog"), Ok(FlashChip::DEDIPROG));
    assert_eq!(
        FlashChip::from("toaster"),
        Err("cannot convert str to enum")
    );
}

#[test]
fn chip_kind_selector_strings() {
    assert_eq!(FlashChip::to(FlashChip::EC), "ec");
    assert_eq!(FlashChip::to(FlashChip::HOST), "host");
    assert_eq!(
        FlashChip::to(FlashChip::SERVOv2),
        "ft2232_spi:type=servo-v2"
    );
    assert_eq!(FlashChip::to(FlashChip::DEDIPROG), "dediprog");
}

#[test]
fn chip_kind_capabilities() {
    assert!(FlashChip::EC.can_control_hw_wp());
    assert!(FlashChip::HOST.can_control_hw_wp());
    assert!(!FlashChip::SERVOv2.can_control_hw_wp());
    assert!(!FlashChip::DEDIPROG.can_control_hw_wp());
}

#[test]
fn decode_opts_wp_range_and_enable() {
    let opts = FlashromOpt {
        wp_opt: WPOpt {
            range: Some((0, 0x400)),
            enable: true,
            ..Default::default()
        },
        ..Default::default()
    };
    let params = flashrom_decode_opts(opts);
    assert_eq!(
        params,
        vec!["--wp-range", "0x000000", "0x000400", "--wp-enable"]
    );
}

#[test]
fn decode_opts_io_and_misc() {
    let opts = FlashromOpt {
        io_opt: IOOpt {
            write: Some("/tmp/image.bin"),
            ..Default::default()
        },
        layout: Some("/tmp/layout.file"),
        image: Some("BOTTOM_QUAD"),
        ignore_fmap: true,
        ..Default::default()
    };
    let params = flashrom_decode_opts(opts);
    assert_eq!(
        params,
        vec![
            "-w",
            "/tmp/image.bin",
            "-l",
            "/tmp/layout.file",
            "-i",
            "BOTTOM_QUAD",
            "--ignore-fmap"
        ]
    );
}

#[test]
fn cmdline_always_starts_with_programmer_selector() {
    let opts = FlashromOpt {
        flash_name: true,
        ..Default::default()
    };
    let args = flashrom_cmdline(FlashChip::SERVOv2, opts);
    assert_eq!(
        args,
        vec!["-p", "ft2232_spi:type=servo-v2", "--flash-name"]
    );
}

#[test]
fn crosssystem_reports_wp_state() {
    let text = "arch = x86\nfwid += 1.2.3\nwpsw_cur = 1\nhwid += XYZ\n";
    let (info, wp) = parse_crosssystem(text).unwrap();
    assert!(wp);
    // The identifier assignment lines are filtered out.
    assert_eq!(info, vec!["arch = x86", "wpsw_cur = 1"]);

    let (_, wp) = parse_crosssystem("wpsw_cur = 0\n").unwrap();
    assert!(!wp);
}

#[test]
fn crosssystem_error_cases() {
    assert!(matches!(
        parse_crosssystem("arch = x86\n"),
        Err(CrosssystemError::MissingWpState)
    ));
    assert!(matches!(
        parse_crosssystem("wpsw_cur = 7\n"),
        Err(CrosssystemError::UnknownStateValue)
    ));
    assert!(matches!(
        parse_crosssystem("wpsw_cur = x\n"),
        Err(CrosssystemError::CannotParseStateValue)
    ));
    assert!(matches!(
        parse_crosssystem("wpsw_cur\n"),
        Err(CrosssystemError::CannotParseStateValue)
    ));
}

#[test]
fn wp_status_sentinel_matching() {
    let out = "WP: status: 0x80\nWP: write protect is enabled.\n";
    assert!(wp_status_matches(out, true));
    assert!(!wp_status_matches(out, false));
    let out = "WP: write protect is disabled.\n";
    assert!(wp_status_matches(out, false));
    assert!(!wp_status_matches(out, true));
}

#[test]
fn flash_name_extraction() {
    let out = "coreboot table found at 0x7cc13000\nvendor=\"Winbond\" name=\"W25Q64\"  \n";
    assert_eq!(
        extract_flash_name(out),
        "vendor=\"Winbond\" name=\"W25Q64\""
    );
}

#[test]
fn operation_option_sets_decode_to_exact_argv() {
    assert_eq!(flashrom_decode_opts(name_opts()), vec!["--flash-name"]);
    assert_eq!(flashrom_decode_opts(erase_opts()), vec!["-E"]);
    assert_eq!(
        flashrom_decode_opts(read_opts("/tmp/a.bin")),
        vec!["-r", "/tmp/a.bin"]
    );
    assert_eq!(
        flashrom_decode_opts(write_opts("/tmp/a.bin")),
        vec!["-w", "/tmp/a.bin"]
    );
    assert_eq!(
        flashrom_decode_opts(verify_opts("/tmp/a.bin")),
        vec!["-v", "/tmp/a.bin"]
    );
    assert_eq!(flashrom_decode_opts(wp_status_opts()), vec!["--wp-status"]);
    assert_eq!(flashrom_decode_opts(wp_list_opts()), vec!["--wp-list"]);
    assert_eq!(
        flashrom_decode_opts(wp_range_opts((0, 0x1000), true)),
        vec!["--wp-range", "0x000000", "0x001000", "--wp-enable"]
    );
    assert_eq!(
        flashrom_decode_opts(wp_toggle_opts(Some((0, 0x1000)), true)),
        vec!["--wp-range", "0x000000", "0x001000", "--wp-enable"]
    );
    assert_eq!(
        flashrom_decode_opts(wp_toggle_opts(None, false)),
        vec!["--wp-disable"]
    );
}
