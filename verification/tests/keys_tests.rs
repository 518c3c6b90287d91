use rt::command::{build_command, plan_spawn, Platform};
use rt::keys::{make_keys, rewrite_by_globals, Key, KeyMap, KeyName};
use rt::measure::{
    memory_conversion, memory_unit, time_conversion, time_unit, CmpOp, Conversion, MemoryStats,
    Order,
};
use rt::types::Configuration;

fn strings(v: &[&str]) -> Vec<String> {
    v.iter().map(|s| s.to_string()).collect()
}

fn value(m: &KeyMap, n: KeyName) -> Option<String> {
    match m.get(n) {
        Some(Key::Value(v)) => Some(v.clone()),
        _ => None,
    }
}

#[test]
fn key_names() {
    assert_eq!(KeyName::from_text("-proc"), Some(KeyName::Proc));
    assert_eq!(KeyName::from_text("-test_mem"), Some(KeyName::TestMem));
    assert_eq!(KeyName::from_text("-c"), None);
}

#[test]
fn later_option_wins() {
    let m = make_keys(&[strings(&["-time", "s"]), strings(&["-time", "ms"])]);
    assert_eq!(value(&m, KeyName::Time), Some("ms".to_string()));
}

#[test]
fn shapes_of_options() {
    let m = make_keys(&[
        strings(&["-min"]),
        strings(&["-proc", "sh"]),
        strings(&["-test_time", "<", "10", "ms"]),
        strings(&["-test_mem", "<", "ten", "kb"]),
        strings(&["-mem", "a", "b"]),
        strings(&["-bogus", "1"]),
    ]);
    assert!(matches!(m.get(KeyName::Min), Some(Key::Basic)));
    assert_eq!(value(&m, KeyName::Proc), Some("sh".to_string()));
    match m.get(KeyName::TestTime) {
        Some(Key::Three((op, v, u))) => {
            assert_eq!((op.as_str(), v.as_str(), u.as_str()), ("<", "10", "ms"));
        }
        _ => panic!("expected three values"),
    }
    assert!(m.get(KeyName::TestMem).is_none());
    assert!(m.get(KeyName::Mem).is_none());
    assert!(!m.contains(KeyName::ErrOnly));
}

#[test]
fn local_keys_win_over_global() {
    let global = make_keys(&[strings(&["-time", "s"]), strings(&["-min"])]);
    let mut local = make_keys(&[strings(&["-time", "ms"])]);
    rewrite_by_globals(&mut local, &global);
    assert_eq!(value(&local, KeyName::Time), Some("ms".to_string()));
    assert!(matches!(local.get(KeyName::Min), Some(Key::Basic)));
}

#[test]
fn default_interpreter() {
    let keys = KeyMap::new();
    let plan = build_command(&"echo 1".to_string(), &keys, Platform::Linux).ok().unwrap();
    assert_eq!(plan.program, "sh");
    assert_eq!(plan.args, strings(&["-c", "echo 1"]));
    assert!(!plan.stdout_null && !plan.stderr_null);
    let plan = build_command(&"dir".to_string(), &keys, Platform::Windows).ok().unwrap();
    assert_eq!(plan.program, "cmd");
    assert_eq!(plan.args, strings(&["/C", "dir"]));
    let plan = build_command(&"ls".to_string(), &keys, Platform::MacOs).ok().unwrap();
    assert_eq!(plan.program, "zsh");
}

#[test]
fn chosen_interpreter() {
    let keys = make_keys(&[strings(&["-proc", "powershell"])]);
    let plan = build_command(&"ls".to_string(), &keys, Platform::Windows).ok().unwrap();
    assert_eq!(plan.program, "powershell");
    assert_eq!(plan.args, strings(&["-Command", "ls"]));
    match build_command(&"ls".to_string(), &keys, Platform::Linux) {
        Err(e) => assert_eq!(e, "Invalid command interpreter. Skip"),
        Ok(_) => panic!("powershell is not offered on Linux"),
    }
}

#[test]
fn interpreter_key_without_value() {
    for options in [vec![strings(&["-proc"])], vec![strings(&["-proc", "a", "1", "b"])]] {
        let keys = make_keys(&options);
        match build_command(&"ls".to_string(), &keys, Platform::Linux) {
            Err(e) => assert_eq!(e, "Invalid command interpreter. Skip"),
            Ok(_) => panic!("-proc without an interpreter name is refused"),
        }
    }
}

#[test]
fn silenced_streams() {
    let keys = make_keys(&[strings(&["-err"])]);
    let plan = build_command(&"ls".to_string(), &keys, Platform::Linux).ok().unwrap();
    assert!(plan.stdout_null && !plan.stderr_null);
    let keys = make_keys(&[strings(&["-min"])]);
    let plan = build_command(&"ls".to_string(), &keys, Platform::Linux).ok().unwrap();
    assert!(plan.stdout_null && plan.stderr_null);
    let keys = make_keys(&[strings(&["-oneline"])]);
    let plan = build_command(&"ls".to_string(), &keys, Platform::Linux).ok().unwrap();
    assert!(plan.stdout_null && plan.stderr_null);
}

#[test]
fn plan_of_a_command() {
    let global = make_keys(&[strings(&["-time", "s"]), strings(&["-proc", "bash"])]);
    let conf = Configuration {
        options: vec![strings(&["-oneline"]), strings(&["-test_time", ">=", "1.5", "s"])],
        command: "sleep 1".to_string(),
    };
    let plan = plan_spawn(&conf, &global, Platform::Linux).ok().unwrap();
    assert_eq!(plan.command.program, "bash");
    assert_eq!(plan.command.args, strings(&["-c", "sleep 1"]));
    assert!(plan.one_line);
    assert_eq!(plan.time_unit, Some("s".to_string()));
    assert_eq!(plan.mem_unit, None);
    let check = plan.time_check.unwrap();
    assert_eq!(check.op, CmpOp::Ge);
    assert_eq!((check.op_text.as_str(), check.value.as_str(), check.unit.as_str()), (">=", "1.5", "s"));
    assert!(plan.mem_check.is_none());
}

#[test]
fn plan_with_refused_interpreter() {
    let global = make_keys(&[strings(&["-proc", "fish"])]);
    let conf = Configuration { options: vec![], command: "ls".to_string() };
    assert!(plan_spawn(&conf, &global, Platform::Linux).is_err());
    let local = Configuration { options: vec![strings(&["-proc", "sh"])], command: "ls".to_string() };
    assert!(plan_spawn(&local, &global, Platform::Linux).is_ok());
}

#[test]
fn time_units() {
    assert_eq!(time_conversion("ms", "s"), Conversion::Scale { numerator: 1, denominator: 1000 });
    assert_eq!(time_conversion("h", "m"), Conversion::Scale { numerator: 3_600_000, denominator: 60_000 });
    assert_eq!(time_conversion("s", "s"), Conversion::Same);
    assert_eq!(time_conversion("xyz", "xyz"), Conversion::Same);
    assert_eq!(time_unit("days"), None);
    assert_eq!(time_unit("m"), Some(60_000));
}

#[test]
fn memory_units() {
    assert_eq!(memory_conversion("kb", "mb"), Conversion::Scale { numerator: 8192, denominator: 8_388_608 });
    assert_eq!(memory_conversion("bit", "b"), Conversion::Scale { numerator: 1, denominator: 8 });
    assert_eq!(memory_conversion("kb", "bit"), Conversion::Scale { numerator: 8192, denominator: 1 });
    assert_eq!(memory_conversion("kb", "kb"), Conversion::Same);
    assert_eq!(memory_unit("tb"), None);
    assert_eq!(memory_unit("gb"), Some(8_589_934_592));
}

#[test]
fn comparisons() {
    assert_eq!(CmpOp::parse("<"), CmpOp::Lt);
    assert_eq!(CmpOp::parse("<="), CmpOp::Le);
    assert_eq!(CmpOp::parse(">"), CmpOp::Gt);
    assert_eq!(CmpOp::parse(">="), CmpOp::Ge);
    assert_eq!(CmpOp::parse("=="), CmpOp::Eq);
    assert_eq!(CmpOp::parse("!="), CmpOp::Ne);
    assert_eq!(CmpOp::parse("~"), CmpOp::Eq);
    assert!(CmpOp::Le.holds(Order::Equal));
    assert!(!CmpOp::Lt.holds(Order::Equal));
    assert!(CmpOp::Ne.holds(Order::Unordered));
    assert!(!CmpOp::Eq.holds(Order::Unordered));
    assert!(!CmpOp::Ge.holds(Order::Less));
    for o in [Order::Less, Order::Equal, Order::Greater] {
        let n = [CmpOp::Lt, CmpOp::Eq, CmpOp::Gt].iter().filter(|c| c.holds(o)).count();
        assert_eq!(n, 1);
    }
}

#[test]
fn comparisons_agree_with_floats() {
    let ops = [("<", CmpOp::Lt), ("<=", CmpOp::Le), (">", CmpOp::Gt), (">=", CmpOp::Ge), ("==", CmpOp::Eq), ("!=", CmpOp::Ne)];
    let values = [0.0f64, 1.0, f64::NAN];
    for a in values {
        for b in values {
            let order = match a.partial_cmp(&b) {
                Some(std::cmp::Ordering::Less) => Order::Less,
                Some(std::cmp::Ordering::Equal) => Order::Equal,
                Some(std::cmp::Ordering::Greater) => Order::Greater,
                None => Order::Unordered,
            };
            for (text, op) in ops {
                let expected = match text {
                    "<" => a < b,
                    "<=" => a <= b,
                    ">" => a > b,
                    ">=" => a >= b,
                    "==" => a == b,
                    _ => a != b,
                };
                assert_eq!(op.holds(order), expected);
            }
        }
    }
}

#[test]
fn memory_samples() {
    let mut s = MemoryStats::new();
    s.record(300);
    s.record(100);
    s.record(20_000_000);
    s.record(500);
    assert_eq!(s, MemoryStats { peak: 500, sum: 900 });
    assert!(s.peak <= s.sum);
}

#[test]
fn conversions_back_and_forth() {
    for (a, b) in [("ms", "h"), ("s", "m"), ("m", "ms")] {
        match (time_conversion(a, b), time_conversion(b, a)) {
            (Conversion::Scale { numerator: n1, denominator: d1 }, Conversion::Scale { numerator: n2, denominator: d2 }) => {
                assert_eq!((n1, d1), (d2, n2));
            }
            _ => panic!("distinct known units"),
        }
    }
    for (a, b) in [("kb", "gb"), ("bit", "b"), ("mb", "bit")] {
        match (memory_conversion(a, b), memory_conversion(b, a)) {
            (Conversion::Scale { numerator: n1, denominator: d1 }, Conversion::Scale { numerator: n2, denominator: d2 }) => {
                assert_eq!((n1, d1), (d2, n2));
            }
            _ => panic!("distinct known units"),
        }
    }
}

#[test]
fn order_of_different_keys_does_not_matter() {
    let a = make_keys(&[strings(&["-time", "s"]), strings(&["-proc", "sh"]), strings(&["-time", "h"])]);
    let b = make_keys(&[strings(&["-proc", "sh"]), strings(&["-time", "s"]), strings(&["-time", "h"])]);
    assert_eq!(value(&a, KeyName::Time), Some("h".to_string()));
    assert_eq!(value(&b, KeyName::Time), Some("h".to_string()));
    assert_eq!(value(&a, KeyName::Proc), value(&b, KeyName::Proc));
}
