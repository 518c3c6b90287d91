//! How a configured command is run: the interpreter that runs it, the
//! streams that are silenced, and the units and checks of its report.
use vstd::prelude::*;
use crate::args::strings_view;
use crate::keys::{Key, KeyMap, KeyName, KeyView, keys_of, make_keys, rewrite_by_globals};
use crate::measure::{CmpOp, cmp_op_of};
use crate::text::str_equal;
use crate::types::{Configuration, options_view};

verus! {

/// The system the commands run on, which decides the interpreters.
#[derive(Debug, Clone, Copy, PartialEq, Eq, Structural)]
pub enum Platform {
    Linux,
    MacOs,
    Windows,
}

/// The launch flag of the interpreter `name` on `p`, if `p` offers it:
/// `bash`, `sh` and `zsh` with `-c` on Linux and macOS, `cmd` with `/C` and
/// `powershell` with `-Command` on Windows.
pub open spec fn interpreter_flag(p: Platform, name: Seq<char>) -> Option<Seq<char>> {
    match p {
        Platform::Linux | Platform::MacOs => if name == "bash"@ || name == "sh"@ || name
            == "zsh"@ {
            Some("-c"@)
        } else {
            None
        },
        Platform::Windows => if name == "cmd"@ {
            Some("/C"@)
        } else if name == "powershell"@ {
            Some("-Command"@)
        } else {
            None
        },
    }
}

/// The interpreter and its launch flag when none is asked for: `sh -c` on
/// Linux, `zsh -c` on macOS, `cmd /C` on Windows.
pub open spec fn default_interpreter(p: Platform) -> (Seq<char>, Seq<char>) {
    match p {
        Platform::Linux => ("sh"@, "-c"@),
        Platform::MacOs => ("zsh"@, "-c"@),
        Platform::Windows => ("cmd"@, "/C"@),
    }
}

/// A process to start: the program, its arguments, and whether its
/// standard output and standard error are discarded.
pub struct CommandPlan {
    pub program: String,
    pub args: Vec<String>,
    pub stdout_null: bool,
    pub stderr_null: bool,
}

/// A `CommandPlan` as plain values.
pub struct CommandPlanView {
    pub program: Seq<char>,
    pub args: Seq<Seq<char>>,
    pub stdout_null: bool,
    pub stderr_null: bool,
}

impl View for CommandPlan {
    type V = CommandPlanView;

    open spec fn view(&self) -> CommandPlanView {
        CommandPlanView {
            program: self.program@,
            args: strings_view(self.args@),
            stdout_null: self.stdout_null,
            stderr_null: self.stderr_null,
        }
    }
}

/// The message of a refused interpreter.
pub open spec fn invalid_interpreter_message() -> Seq<char> {
    "Invalid command interpreter. Skip"@
}

/// The process that runs `cmd` with the keys `keys` on `p`.
///
/// A `-proc` with one value asks for that interpreter, which `p` must offer;
/// a `-proc` in another form names no interpreter and is refused; without
/// `-proc` the default interpreter runs the command. `-min` and `-oneline` discard both
/// streams, `-err` the standard output.
pub open spec fn command_plan_of(cmd: Seq<char>, keys: Map<KeyName, KeyView>, p: Platform) -> Result<
    CommandPlanView,
    Seq<char>,
> {
    let stdout_null = keys.contains_key(KeyName::Min) || keys.contains_key(KeyName::ErrOnly)
        || keys.contains_key(KeyName::Oneline);
    let stderr_null = keys.contains_key(KeyName::Min) || keys.contains_key(KeyName::Oneline);
    if keys.contains_key(KeyName::Proc) {
        match keys[KeyName::Proc] {
            KeyView::Value(name) => match interpreter_flag(p, name) {
                Some(flag) => Ok(
                    CommandPlanView { program: name, args: seq![flag, cmd], stdout_null, stderr_null },
                ),
                None => Err(invalid_interpreter_message()),
            },
            _ => Err(invalid_interpreter_message()),
        }
    } else {
        Ok(
            CommandPlanView {
                program: default_interpreter(p).0,
                args: seq![default_interpreter(p).1, cmd],
                stdout_null,
                stderr_null,
            },
        )
    }
}

fn interpreter(p: Platform, name: &str) -> (r: Option<String>)
    ensures
        match r {
            Some(f) => interpreter_flag(p, name@) == Some(f@),
            None => interpreter_flag(p, name@) is None,
        },
{
    match p {
        Platform::Linux | Platform::MacOs => {
            if str_equal(name, "bash") || str_equal(name, "sh") || str_equal(name, "zsh") {
                Some(String::from_str("-c"))
            } else {
                None
            }
        },
        Platform::Windows => {
            if str_equal(name, "cmd") {
                Some(String::from_str("/C"))
            } else if str_equal(name, "powershell") {
                Some(String::from_str("-Command"))
            } else {
                None
            }
        },
    }
}

fn default_of(p: Platform) -> (r: (String, String))
    ensures
        (r.0@, r.1@) == default_interpreter(p),
{
    match p {
        Platform::Linux => (String::from_str("sh"), String::from_str("-c")),
        Platform::MacOs => (String::from_str("zsh"), String::from_str("-c")),
        Platform::Windows => (String::from_str("cmd"), String::from_str("/C")),
    }
}

/// The process that runs `cmd` with the keys `keys` on `platform`, or the
/// message of a refused interpreter.
pub fn build_command(cmd: &String, keys: &KeyMap, platform: Platform) -> (r: Result<
    CommandPlan,
    String,
>)
    requires
        keys.wf(),
    ensures
        match r {
            Ok(plan) => command_plan_of(cmd@, keys@, platform) == Ok::<
                CommandPlanView,
                Seq<char>,
            >(plan@),
            Err(e) => command_plan_of(cmd@, keys@, platform) == Err::<CommandPlanView, Seq<char>>(
                e@,
            ),
        },
{
    let mut program = String::new();
    let mut args: Vec<String> = Vec::new();
    match keys.get(KeyName::Proc) {
        Some(k) => {
            if let Key::Value(name) = k {
                match interpreter(platform, name.as_str()) {
                    Some(flag) => {
                        program = name.clone();
                        args.push(flag);
                        proof {
                            assert(strings_view(args@) =~= seq![flag@]);
                        }
                    },
                    None => {
                        return Err(String::from_str("Invalid command interpreter. Skip"));
                    },
                }
            } else {
                return Err(String::from_str("Invalid command interpreter. Skip"));
            }
        },
        None => {
            let (name, flag) = default_of(platform);
            program = name;
            args.push(flag);
            proof {
                assert(strings_view(args@) =~= seq![flag@]);
            }
        },
    }
    let min = keys.contains(KeyName::Min);
    let err = keys.contains(KeyName::ErrOnly);
    let oneline = keys.contains(KeyName::Oneline);
    let ghost before = args@;
    args.push(cmd.clone());
    proof {
        assert(strings_view(args@) =~= strings_view(before).push(cmd@));
        assert(strings_view(args@) =~= seq![strings_view(before)[0], cmd@]);
    }
    Ok(CommandPlan { program, args, stdout_null: min || err || oneline, stderr_null: min || oneline })
}

/// A check of a measured value: the comparison, its text as given, the
/// value compared with (the text of a number) and its unit.
pub struct Check {
    pub op: CmpOp,
    pub op_text: String,
    pub value: String,
    pub unit: String,
}

/// A `Check` as plain values.
pub open spec fn check_of(k: KeyView) -> Option<(CmpOp, Seq<char>, Seq<char>, Seq<char>)> {
    match k {
        KeyView::Three(op, value, unit) => Some((cmp_op_of(op), op, value, unit)),
        _ => None,
    }
}

/// How one configured command is run and reported.
pub struct RunPlan {
    /// The process to start.
    pub command: CommandPlan,
    /// Whether the report takes one line.
    pub one_line: bool,
    /// The unit that the time is shown in, if one was asked for.
    pub time_unit: Option<String>,
    /// The unit that the memory is shown in, if one was asked for.
    pub mem_unit: Option<String>,
    /// The check of the time, if one was asked for.
    pub time_check: Option<Check>,
    /// The check of the memory, if one was asked for.
    pub mem_check: Option<Check>,
}

/// The keys that apply to a command of configuration `conf` under the global
/// keys `global`: its own keys, completed by the global ones.
pub open spec fn resolved_keys(conf: Configuration, global: Map<KeyName, KeyView>) -> Map<
    KeyName,
    KeyView,
> {
    global.union_prefer_right(keys_of(options_view(conf.options@)))
}

/// The value of key `n`, where it has exactly one.
pub open spec fn unit_of(keys: Map<KeyName, KeyView>, n: KeyName) -> Option<Seq<char>> {
    if keys.contains_key(n) {
        match keys[n] {
            KeyView::Value(v) => Some(v),
            _ => None,
        }
    } else {
        None
    }
}

/// The check that key `n` asks for, if it has three values.
pub open spec fn check_for(keys: Map<KeyName, KeyView>, n: KeyName) -> Option<
    (CmpOp, Seq<char>, Seq<char>, Seq<char>),
> {
    if keys.contains_key(n) {
        check_of(keys[n])
    } else {
        None
    }
}

pub open spec fn opt_view(o: Option<String>) -> Option<Seq<char>> {
    match o {
        Some(s) => Some(s@),
        None => None,
    }
}

pub open spec fn check_view(o: Option<Check>) -> Option<(CmpOp, Seq<char>, Seq<char>, Seq<char>)> {
    match o {
        Some(c) => Some((c.op, c.op_text@, c.value@, c.unit@)),
        None => None,
    }
}

fn unit_value(keys: &KeyMap, n: KeyName) -> (r: Option<String>)
    requires
        keys.wf(),
    ensures
        opt_view(r) == unit_of(keys@, n),
{
    match keys.get(n) {
        Some(Key::Value(v)) => Some(v.clone()),
        _ => None,
    }
}

fn check_value(keys: &KeyMap, n: KeyName) -> (r: Option<Check>)
    requires
        keys.wf(),
    ensures
        check_view(r) == check_for(keys@, n),
{
    match keys.get(n) {
        Some(Key::Three((op, value, unit))) => Some(
            Check {
                op: CmpOp::parse(op.as_str()),
                op_text: op.clone(),
                value: value.clone(),
                unit: unit.clone(),
            },
        ),
        _ => None,
    }
}

/// How the command of `conf` is run and reported under the global keys
/// `global` on `platform`, or the message of a refused interpreter.
pub fn plan_spawn(conf: &Configuration, global: &KeyMap, platform: Platform) -> (r: Result<
    RunPlan,
    String,
>)
    requires
        global.wf(),
    ensures
        ({
            let keys = resolved_keys(*conf, global@);
            match r {
                Ok(plan) => {
                    &&& command_plan_of(conf.command@, keys, platform) == Ok::<
                        CommandPlanView,
                        Seq<char>,
                    >(plan.command@)
                    &&& plan.one_line == keys.contains_key(KeyName::Oneline)
                    &&& opt_view(plan.time_unit) == unit_of(keys, KeyName::Time)
                    &&& opt_view(plan.mem_unit) == unit_of(keys, KeyName::Mem)
                    &&& check_view(plan.time_check) == check_for(keys, KeyName::TestTime)
                    &&& check_view(plan.mem_check) == check_for(keys, KeyName::TestMem)
                },
                Err(e) => command_plan_of(conf.command@, keys, platform) == Err::<
                    CommandPlanView,
                    Seq<char>,
                >(e@),
            }
        }),
{
    let mut keys = make_keys(conf.options.as_slice());
    rewrite_by_globals(&mut keys, global);
    let command = match build_command(&conf.command, &keys, platform) {
        Ok(c) => c,
        Err(e) => {
            return Err(e);
        },
    };
    Ok(
        RunPlan {
            command,
            one_line: keys.contains(KeyName::Oneline),
            time_unit: unit_value(&keys, KeyName::Time),
            mem_unit: unit_value(&keys, KeyName::Mem),
            time_check: check_value(&keys, KeyName::TestTime),
            mem_check: check_value(&keys, KeyName::TestMem),
        },
    )
}

} // verus!
