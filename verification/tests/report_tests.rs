use rt::report::{report_text, Outcome, Quantity, Report};

fn q(v: &str, u: &str) -> Quantity {
    Quantity { value: v.to_string(), unit: u.to_string() }
}

fn o(passed: bool, measured: &str, op: &str, value: &str, unit: &str) -> Outcome {
    Outcome {
        passed,
        measured: measured.to_string(),
        op: op.to_string(),
        value: value.to_string(),
        unit: unit.to_string(),
    }
}

fn sample(checks: bool) -> Report {
    Report {
        command: "sleep 1".to_string(),
        time: q("1.01", "s"),
        peak: q("300", "kb"),
        sum: q("900", "kb"),
        exit_code: "0".to_string(),
        time_check: if checks { Some(o(true, "1.01", "<", "2", "s")) } else { None },
        mem_checks: if checks {
            Some((o(false, "0.29", "<", "0.1", "mb"), o(false, "0.88", "<", "0.1", "mb")))
        } else {
            None
        },
    }
}

#[test]
fn full_report_without_checks() {
    assert_eq!(
        report_text(&sample(false), false),
        "Program sleep 1 executed at 1.01s; 300kb memory at peak, 900kb memory at sum with exit code 0"
    );
}

#[test]
fn full_report_with_checks() {
    assert_eq!(
        report_text(&sample(true), false),
        "Program sleep 1 executed at 1.01s; 300kb memory at peak, 900kb memory at sum with exit code 0\n - test time: OK; 1.01s < 2s\n - test memory peak: FAILED; 0.29mb < 0.1mb\n - test memory sum: FAILED; 0.88mb < 0.1mb"
    );
}

#[test]
fn one_line_report() {
    assert_eq!(
        report_text(&sample(false), true),
        "sleep 1: [time: 1.01s; mem peak: 300kb; mem sum: 900kb ] -> 0"
    );
    assert_eq!(
        report_text(&sample(true), true),
        "sleep 1: [time: 1.01s; mem peak: 300kb; mem sum: 900kb ] -> 0; test time: true; test mem peak: false; test mem sum: false"
    );
}
