use turmy::clipboard::osc52_clipboard;
use turmy::command::{
    command_failure, scancel_command, scontrol_update_timelimit_command, CommandOutcome,
};
use turmy::formatting::{pad_left, pad_right, push_decimal, push_signed_decimal, trim, word};

fn ended(code: Option<i32>, stdout: &str, stderr: &str) -> CommandOutcome {
    CommandOutcome::Ended {
        success: false,
        code,
        stdout: stdout.as_bytes().to_vec(),
        stderr: stderr.as_bytes().to_vec(),
    }
}

fn report(outcome: CommandOutcome) -> String {
    let failure = command_failure("scancel 1".to_string(), outcome).unwrap();
    assert_eq!(failure.command, "scancel 1");
    failure.output
}

#[test]
fn clipboard_copy_writes_osc52_sequence() {
    let output = osc52_clipboard(b"hello").into_bytes();

    assert_eq!(output, b"\x1b]52;c;aGVsbG8=\x1b\\");
}

#[test]
fn clipboard_copy_pads_its_base64() {
    assert_eq!(osc52_clipboard(b""), "\x1b]52;c;\x1b\\");
    assert_eq!(osc52_clipboard(b"M"), "\x1b]52;c;TQ==\x1b\\");
    assert_eq!(osc52_clipboard(b"Man"), "\x1b]52;c;TWFu\x1b\\");
    assert_eq!(osc52_clipboard(&[0xfb, 0xff, 0xfe]), "\x1b]52;c;+//+\x1b\\");
}

#[test]
fn cancelling_names_the_job() {
    let request = scancel_command("12_3", None);
    assert_eq!(request.program, "scancel");
    assert_eq!(request.arguments, ["12_3"]);
    assert_eq!(request.label, "scancel 12_3");
}

#[test]
fn signals_are_sent_by_name() {
    let request = scancel_command("12", Some("KILL"));
    assert_eq!(request.arguments, ["--signal", "KILL", "12"]);
    assert_eq!(request.label, "scancel --signal KILL 12");
}

#[test]
fn time_limits_are_set_by_scontrol() {
    let request = scontrol_update_timelimit_command("12", "1:00");
    assert_eq!(request.program, "scontrol");
    assert_eq!(request.arguments, ["update", "JobId=12", "TimeLimit=1:00"]);
    assert_eq!(request.label, "scontrol update JobId=12 TimeLimit=1:00");
}

#[test]
fn failures_report_what_was_printed() {
    assert_eq!(report(ended(Some(1), "", "")), "Exit code: 1\n\nNo output.");
    assert_eq!(report(ended(None, "out\n", "")), "Exit code: N/A\n\nout");
    assert_eq!(report(ended(Some(-9), " \n", "err \n\n")), "Exit code: -9\n\nerr");
    assert_eq!(
        report(ended(Some(2), "out", "err")),
        "Exit code: 2\n\nstdout:\nout\n\nstderr:\nerr"
    );
    assert_eq!(
        report(CommandOutcome::NotRun { reason: "not found".to_string() }),
        "not found"
    );
}

#[test]
fn success_is_no_failure() {
    let outcome = CommandOutcome::Ended {
        success: true,
        code: Some(0),
        stdout: b"ignored".to_vec(),
        stderr: Vec::new(),
    };
    assert!(command_failure("scancel 1".to_string(), outcome).is_none());
}

#[test]
fn numbers_are_written_in_decimal() {
    for n in [0u64, 9, 10, 4096, u64::MAX] {
        let mut out = String::new();
        push_decimal(&mut out, n);
        assert_eq!(out, n.to_string());
    }
    for n in [0i32, -1, 17, i32::MIN, i32::MAX] {
        let mut out = String::new();
        push_signed_decimal(&mut out, n);
        assert_eq!(out, n.to_string());
    }
}

#[test]
fn padding_counts_characters() {
    assert_eq!(pad_right("ab", 4), "ab  ");
    assert_eq!(pad_left("测", 3), "  测");
    assert_eq!(pad_right("abcd", 2), "ab");
    assert_eq!(pad_left("abcd", 2), "ab");
    assert_eq!(pad_right("ab测", 5), format!("{:<5.5}", "ab测"));
}

#[test]
fn trimming_follows_unicode() {
    for text in ["", " a b ", "\u{85}x\u{2003}", "\u{200b}y", "\t\r\n"] {
        assert_eq!(trim(text), text.trim());
        assert_eq!(word(text), text.split_whitespace().next().unwrap_or_default());
    }
    for c in (0u32..0x3100).filter_map(char::from_u32) {
        assert_eq!(trim(&c.to_string()).is_empty(), c.is_whitespace());
    }
}
