use rt::args::{build_configurations, parse_arg, Warning};
use rt::types::Configuration;

fn strings(v: &[&str]) -> Vec<String> {
    v.iter().map(|s| s.to_string()).collect()
}

fn parts(arg: &str) -> Vec<String> {
    match parse_arg(arg) {
        Ok(p) => p,
        Err(_) => panic!("argument {arg} was refused"),
    }
}

#[test]
fn configuration_new_is_empty() {
    let c = Configuration::new();
    assert!(c.options.is_empty());
    assert!(c.command.is_empty());
}

#[test]
fn configuration_clear_empties() {
    let mut c = Configuration { options: vec![strings(&["-min"])], command: "ls".to_string() };
    c.clear();
    assert_eq!(c, Configuration::new());
}

#[test]
fn parse_key_and_value() {
    assert_eq!(parts("-time=s"), strings(&["-time", "s"]));
    assert_eq!(parts(" -time = s "), strings(&["-time", "s"]));
    assert_eq!(parts("-c=a=b"), strings(&["-c", "a=b"]));
}

#[test]
fn parse_value_with_colons() {
    assert_eq!(parts("-test_time=<:10:ms"), strings(&["-test_time", "<", "10", "ms"]));
    assert_eq!(parts("-test_time= < : 10 : ms "), strings(&["-test_time", "<", "10", "ms"]));
    assert_eq!(parts("-c=echo a:b"), strings(&["-c", "echo a:b"]));
    assert_eq!(parts("-time=::"), strings(&["-time", "", "", ""]));
}

#[test]
fn parse_without_equals_keeps_whole_argument() {
    assert_eq!(parts("-min"), strings(&["-min"]));
    assert_eq!(parts("  anything at all\t"), strings(&["anything at all"]));
}

#[test]
fn parse_blank_value_is_kept_empty() {
    assert_eq!(parts("-time= "), strings(&["-time", ""]));
}

#[test]
fn parse_unknown_key_is_refused() {
    match parse_arg("-foo=1") {
        Err(Warning::UnknownKey(k)) => assert_eq!(k, "-foo"),
        _ => panic!("expected an unknown key"),
    }
    match parse_arg(" -mem =mb") {
        Err(Warning::UnknownKey(k)) => assert_eq!(k, " -mem "),
        _ => panic!("expected an unknown key"),
    }
}

#[test]
fn parse_empty_value_is_refused() {
    match parse_arg("-time=") {
        Err(Warning::EmptyValue(k)) => assert_eq!(k, "-time"),
        _ => panic!("expected an empty value"),
    }
}

#[test]
fn global_and_local_keys() {
    let args = strings(&["rt", "-time=s", "--", "-c=echo 1", "-time=ms", "-c=touch file.txt "]);
    let mut confs = Vec::new();
    let mut globs = Vec::new();
    let warnings = build_configurations(&args, &mut confs, &mut globs);
    assert!(warnings.is_empty());
    assert_eq!(globs, vec![strings(&["-time", "s"])]);
    assert_eq!(
        confs,
        vec![
            Configuration { options: vec![], command: "echo 1".to_string() },
            Configuration {
                options: vec![strings(&["-time", "ms"])],
                command: "touch file.txt".to_string()
            },
        ]
    );
}

#[test]
fn global_keys_for_all_commands() {
    let args = strings(&["rt", "-time=s", "-proc=bash", "--", "-c=echo 1", "-c=mkdir directory"]);
    let mut confs = Vec::new();
    let mut globs = Vec::new();
    let warnings = build_configurations(&args, &mut confs, &mut globs);
    assert!(warnings.is_empty());
    assert_eq!(globs, vec![strings(&["-time", "s"]), strings(&["-proc", "bash"])]);
    assert_eq!(confs.len(), 2);
    assert_eq!(confs[1].command, "mkdir directory");
    assert!(confs[1].options.is_empty());
}

#[test]
fn without_separator_everything_is_local() {
    let args = strings(&["rt", "-min", "-c=echo", "-err"]);
    let mut confs = Vec::new();
    let mut globs = Vec::new();
    let warnings = build_configurations(&args, &mut confs, &mut globs);
    assert!(warnings.is_empty());
    assert!(globs.is_empty());
    assert_eq!(confs, vec![Configuration { options: vec![strings(&["-min"])], command: "echo".to_string() }]);
}

#[test]
fn later_separators_are_ignored() {
    let args = strings(&["rt", "--", "-c=a", "--", "-c=b"]);
    let mut confs = Vec::new();
    let mut globs = Vec::new();
    let warnings = build_configurations(&args, &mut confs, &mut globs);
    assert!(warnings.is_empty());
    assert!(globs.is_empty());
    assert_eq!(confs.len(), 2);
}

#[test]
fn invalid_command_drops_pending_keys() {
    let args = strings(&["rt", "-min", "-c", "-c=ok"]);
    let mut confs = Vec::new();
    let mut globs = Vec::new();
    let warnings = build_configurations(&args, &mut confs, &mut globs);
    assert_eq!(warnings.len(), 1);
    match &warnings[0] {
        Warning::InvalidOption(a) => assert_eq!(a, "-c"),
        _ => panic!("expected an invalid option"),
    }
    assert_eq!(confs, vec![Configuration { options: vec![], command: "ok".to_string() }]);
}

#[test]
fn refused_arguments_are_reported_in_order() {
    let args = strings(&["rt", "-x=1", "--", "-time=", "-c=ls"]);
    let mut confs = Vec::new();
    let mut globs = Vec::new();
    let warnings = build_configurations(&args, &mut confs, &mut globs);
    assert_eq!(warnings.len(), 2);
    assert!(matches!(&warnings[0], Warning::UnknownKey(k) if k == "-x"));
    assert!(matches!(&warnings[1], Warning::EmptyValue(k) if k == "-time"));
    assert!(globs.is_empty());
    assert_eq!(confs.len(), 1);
}

#[test]
fn keys_after_last_command_are_dropped() {
    let args = strings(&["rt", "-c=ls", "-min"]);
    let mut confs = Vec::new();
    let mut globs = Vec::new();
    build_configurations(&args, &mut confs, &mut globs);
    assert_eq!(confs, vec![Configuration { options: vec![], command: "ls".to_string() }]);
}

#[test]
fn results_are_appended() {
    let args = strings(&["rt", "-c=ls"]);
    let mut confs = vec![Configuration { options: vec![], command: "pwd".to_string() }];
    let mut globs = vec![strings(&["-min"])];
    build_configurations(&args, &mut confs, &mut globs);
    assert_eq!(confs.len(), 2);
    assert_eq!(confs[0].command, "pwd");
    assert_eq!(globs.len(), 1);
}

#[test]
fn command_with_colons_is_kept_whole() {
    let args = strings(&["rt", "-c=curl http://x"]);
    let mut confs = Vec::new();
    let mut globs = Vec::new();
    let warnings = build_configurations(&args, &mut confs, &mut globs);
    assert!(warnings.is_empty());
    assert_eq!(confs, vec![Configuration { options: vec![], command: "curl http://x".to_string() }]);
}
