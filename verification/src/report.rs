//! The text of the report printed after a command has run. The numbers in
//! it arrive already written out; the report decides the wording, the order
//! and the verdicts.
use vstd::prelude::*;

verus! {

/// A measured quantity written out: its number and its unit.
pub struct Quantity {
    pub value: String,
    pub unit: String,
}

/// The outcome of a check written out: whether it passed, the measured
/// number in the check's unit, the comparison, the given number and the
/// unit.
pub struct Outcome {
    pub passed: bool,
    pub measured: String,
    pub op: String,
    pub value: String,
    pub unit: String,
}

/// What a report says of one run.
pub struct Report {
    pub command: String,
    pub time: Quantity,
    pub peak: Quantity,
    pub sum: Quantity,
    pub exit_code: String,
    pub time_check: Option<Outcome>,
    /// The checks of the peak and of the sum of the memory.
    pub mem_checks: Option<(Outcome, Outcome)>,
}

pub open spec fn quantity_text(q: Quantity) -> Seq<char> {
    q.value@ + q.unit@
}

pub open spec fn verdict_text(passed: bool) -> Seq<char> {
    if passed {
        "OK"@
    } else {
        "FAILED"@
    }
}

pub open spec fn bool_text(b: bool) -> Seq<char> {
    if b {
        "true"@
    } else {
        "false"@
    }
}

/// One check line of the full report: `label: verdict; measured op value`,
/// each number followed by the unit.
pub open spec fn outcome_line(label: Seq<char>, o: Outcome) -> Seq<char> {
    "\n - "@ + label + ": "@ + verdict_text(o.passed) + "; "@ + o.measured@ + o.unit@ + " "@ + o.op@
        + " "@ + o.value@ + o.unit@
}

/// The full report: the command, its time, the peak and the sum of its
/// memory and its exit code, then a line for each check.
pub open spec fn full_report(r: Report) -> Seq<char> {
    let head = "Program "@ + r.command@ + " executed at "@ + quantity_text(r.time) + "; "@
        + quantity_text(r.peak) + " memory at peak, "@ + quantity_text(r.sum)
        + " memory at sum with exit code "@ + r.exit_code@;
    let with_time = match r.time_check {
        Some(o) => head + outcome_line("test time"@, o),
        None => head,
    };
    match r.mem_checks {
        Some((peak, sum)) => with_time + outcome_line("test memory peak"@, peak) + outcome_line(
            "test memory sum"@,
            sum,
        ),
        None => with_time,
    }
}

/// The one-line report: the same numbers, and whether each check passed.
pub open spec fn one_line_report(r: Report) -> Seq<char> {
    let head = r.command@ + ": [time: "@ + quantity_text(r.time) + "; mem peak: "@ + quantity_text(
        r.peak,
    ) + "; mem sum: "@ + quantity_text(r.sum) + " ] -> "@ + r.exit_code@;
    let with_time = match r.time_check {
        Some(o) => head + "; test time: "@ + bool_text(o.passed),
        None => head,
    };
    match r.mem_checks {
        Some((peak, sum)) => with_time + "; test mem peak: "@ + bool_text(peak.passed)
            + "; test mem sum: "@ + bool_text(sum.passed),
        None => with_time,
    }
}

fn push_quantity(s: &mut String, q: &Quantity)
    ensures
        final(s)@ == old(s)@ + quantity_text(*q),
{
    s.append(q.value.as_str());
    s.append(q.unit.as_str());
}

fn push_outcome_line(s: &mut String, label: &str, o: &Outcome)
    ensures
        final(s)@ == old(s)@ + outcome_line(label@, *o),
{
    s.append("\n - ");
    s.append(label);
    s.append(": ");
    if o.passed {
        s.append("OK");
    } else {
        s.append("FAILED");
    }
    s.append("; ");
    s.append(o.measured.as_str());
    s.append(o.unit.as_str());
    s.append(" ");
    s.append(o.op.as_str());
    s.append(" ");
    s.append(o.value.as_str());
    s.append(o.unit.as_str());
    proof {
        assert(s@ =~= old(s)@ + outcome_line(label@, *o));
    }
}

fn push_bool(s: &mut String, b: bool)
    ensures
        final(s)@ == old(s)@ + bool_text(b),
{
    if b {
        s.append("true");
    } else {
        s.append("false");
    }
}

/// The text of the report of `r`: one line where `one_line`, the full
/// report otherwise.
pub fn report_text(r: &Report, one_line: bool) -> (t: String)
    ensures
        t@ == if one_line {
            one_line_report(*r)
        } else {
            full_report(*r)
        },
{
    let mut s = String::new();
    if one_line {
        s.append(r.command.as_str());
        s.append(": [time: ");
        push_quantity(&mut s, &r.time);
        s.append("; mem peak: ");
        push_quantity(&mut s, &r.peak);
        s.append("; mem sum: ");
        push_quantity(&mut s, &r.sum);
        s.append(" ] -> ");
        s.append(r.exit_code.as_str());
        let ghost head = s@;
        proof {
            assert(head =~= r.command@ + ": [time: "@ + quantity_text(r.time) + "; mem peak: "@
                + quantity_text(r.peak) + "; mem sum: "@ + quantity_text(r.sum) + " ] -> "@
                + r.exit_code@);
        }
        if let Some(o) = &r.time_check {
            s.append("; test time: ");
            push_bool(&mut s, o.passed);
            proof {
                assert(s@ =~= head + "; test time: "@ + bool_text(o.passed));
            }
        }
        let ghost with_time = s@;
        if let Some((peak, sum)) = &r.mem_checks {
            s.append("; test mem peak: ");
            push_bool(&mut s, peak.passed);
            s.append("; test mem sum: ");
            push_bool(&mut s, sum.passed);
            proof {
                assert(s@ =~= with_time + "; test mem peak: "@ + bool_text(peak.passed)
                    + "; test mem sum: "@ + bool_text(sum.passed));
            }
        }
    } else {
        s.append("Program ");
        s.append(r.command.as_str());
        s.append(" executed at ");
        push_quantity(&mut s, &r.time);
        s.append("; ");
        push_quantity(&mut s, &r.peak);
        s.append(" memory at peak, ");
        push_quantity(&mut s, &r.sum);
        s.append(" memory at sum with exit code ");
        s.append(r.exit_code.as_str());
        let ghost head = s@;
        proof {
            assert(head =~= "Program "@ + r.command@ + " executed at "@ + quantity_text(r.time)
                + "; "@ + quantity_text(r.peak) + " memory at peak, "@ + quantity_text(r.sum)
                + " memory at sum with exit code "@ + r.exit_code@);
        }
        if let Some(o) = &r.time_check {
            push_outcome_line(&mut s, "test time", o);
        }
        let ghost with_time = s@;
        if let Some((peak, sum)) = &r.mem_checks {
            push_outcome_line(&mut s, "test memory peak", peak);
            push_outcome_line(&mut s, "test memory sum", sum);
            proof {
                assert(s@ =~= with_time + outcome_line("test memory peak"@, *peak) + outcome_line(
                    "test memory sum"@,
                    *sum,
                ));
            }
        }
    }
    s
}

} // verus!
