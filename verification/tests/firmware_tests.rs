use modbus_bench::firmware::{cut_lines, RunOutput};
use modbus_bench::firmware::{
    backup, backup_size, board_info, find_tool, flash, flash_id_args_for, is_esptool, no_tool,
    parse_flash_size_mb, parse_pct, pct_number, restore, run_result, FwResult,
};

#[test]
fn parse_flash_size_handles_esptool_output() {
    let out = "esptool v5.4.0\nSerial port /dev/ttyACM1:\nConnecting....\nDetected flash size: 8MB\n";
    assert_eq!(parse_flash_size_mb(out), Some(8));
    assert_eq!(parse_flash_size_mb("nothing here"), None);
    assert_eq!(parse_flash_size_mb("Detected flash frequency: 80MHz"), None);
}

#[test]
fn backup_size_math_is_megabytes() {
    assert_eq!(backup_size(4), 0x400000);
    assert_eq!(backup_size(8), 0x800000);
}

#[test]
fn parse_flash_size_edge_cases() {
    assert_eq!(parse_flash_size_mb("  Detected flash size:   16 MB  \r\n"), Some(16));
    assert_eq!(parse_flash_size_mb("Detected flash size: +4MBMB"), Some(4));
    assert_eq!(parse_flash_size_mb("Detected flash size: -4MB"), None);
    assert_eq!(parse_flash_size_mb("Detected flash size: ?\nDetected flash size: 2MB"), Some(2));
    assert_eq!(parse_flash_size_mb("Detected flash size: 99999999999999999999999MB"), None);
    assert_eq!(parse_flash_size_mb(""), None);
}

#[test]
fn progress_numbers_are_found() {
    let n = |s: &str| pct_number(s);
    assert_eq!(n("Reading from 0x000fe000 ━━━━━━━━━╸ 99.5% 15.99MB/16.00MB [3:44]"), Some("99.5".to_string()));
    assert_eq!(n("Writing at 0x00003000... (45.0 %)"), Some("45.0".to_string()));
    assert_eq!(n("Hard resetting via RTS pin..."), None);
    assert_eq!(n(""), None);
    assert_eq!(n("done %"), None);
    assert_eq!(n("7% then 8%"), Some("7".to_string()));
}

#[test]
fn tool_choice_follows_preference() {
    assert_eq!(find_tool(&[true, true, true]), Some("espflash".to_string()));
    assert_eq!(find_tool(&[false, true, true]), Some("esptool".to_string()));
    assert_eq!(find_tool(&[false, false, true]), Some("esptool.py".to_string()));
    assert_eq!(find_tool(&[false, false, false]), None);
    assert!(is_esptool("esptool"));
    assert!(is_esptool("esptool.py"));
    assert!(!is_esptool("espflash"));
    assert!(!is_esptool("esptool2"));
}

#[test]
fn command_lines() {
    let a = board_info(Some("esptool"), "/dev/ttyUSB0").unwrap();
    assert_eq!(a, vec!["--port", "/dev/ttyUSB0", "chip-id"]);
    let a = board_info(Some("espflash"), "COM3").unwrap();
    assert_eq!(a, vec!["board-info", "--port", "COM3"]);
    let a = flash(Some("esptool.py"), "p", "fw.bin").unwrap();
    assert_eq!(a, vec!["-b", "921600", "--port", "p", "write-flash", "0x0", "fw.bin"]);
    let a = restore(Some("espflash"), "p", "b.bin").unwrap();
    assert_eq!(a, vec!["write-flash", "--port", "p", "0x0", "b.bin"]);
    assert_eq!(flash_id_args_for("p"), vec!["--port", "p", "flash-id"]);
    let (a, progress) = backup(Some("esptool"), "p", "out.bin", 4, Some(8)).unwrap();
    assert!(progress);
    assert_eq!(a, vec!["-b", "921600", "--port", "p", "read-flash", "0x0", "8388608", "out.bin"]);
    let (a, progress) = backup(Some("espflash"), "p", "out.bin", 4, None).unwrap();
    assert!(!progress);
    assert_eq!(a, vec!["read-flash", "--port", "p", "--save-image", "0x0", "4194304", "out.bin"]);
}

#[test]
fn missing_tool_fails_every_plan() {
    let msg = "No esptool available. Install: pip install esptool OR cargo install espflash";
    for r in [board_info(None, "p"), flash(None, "p", "b"), restore(None, "p", "b")] {
        let e = r.unwrap_err();
        assert!(!e.ok);
        assert_eq!(e.error, msg);
        assert_eq!(e.output, "");
    }
    let e = backup(None, "p", "o", 4, None).unwrap_err();
    assert_eq!(e.error, msg);
    assert_eq!(e.output, "");
    let (r, f) = (restore(None, "p", "b").unwrap_err(), flash(None, "p", "b").unwrap_err());
    assert_eq!((r.ok, r.output, r.error), (f.ok, f.output, f.error));
    assert_eq!(no_tool().error, msg);
}

#[test]
fn run_results() {
    let ok = run_result(true, "out", "err");
    assert!(ok.ok);
    assert_eq!(ok.output, "outerr");
    assert_eq!(ok.error, "");
    let bad = run_result(false, "a", "b");
    assert!(!bad.ok);
    assert_eq!(bad.error, "ab");
    let s = FwResult::success("x".to_string());
    assert!(s.ok && s.output == "x" && s.error.is_empty());
    let f = FwResult::failure("y".to_string());
    assert!(!f.ok && f.error == "y" && f.output.is_empty());
}

#[test]
fn parse_pct_reads_esptool_progress() {
    assert_eq!(parse_pct("Reading from 0x000fe000 ━━━━━━━━━╸ 99.5% 15.99MB/16.00MB [3:44]"), Some(100));
    assert_eq!(parse_pct("Writing at 0x00003000... (45.0 %)"), Some(45));
    assert_eq!(parse_pct("Hard resetting via RTS pin..."), None);
    assert_eq!(parse_pct(""), None);
}

#[test]
fn parse_pct_edge_cases() {
    assert_eq!(parse_pct("1.2.3%"), None);
    assert_eq!(parse_pct("x .% y"), None);
    assert_eq!(parse_pct(".5%"), Some(1));
    assert_eq!(parse_pct("5.%"), Some(5));
    assert_eq!(parse_pct("250%"), Some(100));
    assert_eq!(parse_pct("0.49 %"), Some(0));
    assert_eq!(parse_pct("12.5%"), Some(13));
    assert_eq!(parse_pct("99999999999999999999%"), Some(100));
}

#[test]
fn tool_output_is_cut_into_trimmed_lines() {
    let (lines, rest) = cut_lines("Connecting...\n\r  Writing at 0x1000 (45.0 %)\r\rDone\npart");
    assert_eq!(lines, vec!["Connecting...", "Writing at 0x1000 (45.0 %)", "Done"]);
    assert_eq!(rest, "part");
    let (none, all) = cut_lines("no break");
    assert!(none.is_empty());
    assert_eq!(all, "no break");
}

#[test]
fn progress_is_reported_once_per_percentage() {
    let mut out = RunOutput::new();
    assert_eq!(out.take_line("Chip is ESP32-S3"), None);
    assert_eq!(out.take_line("Writing at 0x00010000... (45 %)"), Some(45));
    assert_eq!(out.take_line("Writing at 0x00014000... (45 %)"), None);
    assert_eq!(out.take_line("Writing at 0x00018000... (46 %)"), Some(46));
    assert_eq!(out.take_line("Hash of data verified."), None);
    assert_eq!(out.out, "Chip is ESP32-S3\nHash of data verified.\n");
    assert_eq!(out.last_pct, Some(46));
}
