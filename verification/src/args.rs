//! Reading the command line: each argument is split into the parts of a key,
//! and the arguments are grouped into global keys and one configuration per
//! command.
use vstd::prelude::*;
use crate::text::{
    first_index, find_char, split, split_str, starts_with, starts_with_two, str_equal,
    trim, trim_str,
};
use crate::types::{Configuration, options_view};

verus! {

/// Why an argument was skipped.
pub enum Warning {
    /// The part before `=` (as written) names no known key.
    UnknownKey(String),
    /// The key (as written) is followed by `=` and nothing else.
    EmptyValue(String),
    /// A `-c` argument (as written) that does not hold exactly one command.
    InvalidOption(String),
}

/// A `Warning` as plain values.
pub enum WarningSpec {
    UnknownKey(Seq<char>),
    EmptyValue(Seq<char>),
    InvalidOption(Seq<char>),
}

impl View for Warning {
    type V = WarningSpec;

    open spec fn view(&self) -> WarningSpec {
        match self {
            Warning::UnknownKey(s) => WarningSpec::UnknownKey(s@),
            Warning::EmptyValue(s) => WarningSpec::EmptyValue(s@),
            Warning::InvalidOption(s) => WarningSpec::InvalidOption(s@),
        }
    }
}

/// The strings of a vector as plain values.
pub open spec fn strings_view(v: Seq<String>) -> Seq<Seq<char>> {
    v.map_values(|s: String| s@)
}

/// The keys that may stand before `=` in an argument.
pub open spec fn is_option_key(k: Seq<char>) -> bool {
    ||| k == "-f"@
    ||| k == "-proc"@
    ||| k == "-time"@
    ||| k == "-min"@
    ||| k == "-err"@
    ||| k == "--"@
    ||| k == "-c"@
    ||| k == "-test-time"@
    ||| k == "-test_time"@
}

/// The parts of one argument, or why it is skipped.
///
/// `key=value` gives the trimmed key and the trimmed value, or, where the
/// trimmed value holds `:` and the key is not `-c`, the trimmed key followed
/// by each trimmed piece of the value between the colons. The value of `-c`
/// is a command with its arguments and is kept whole. An argument without
/// `=` gives itself, trimmed.
pub open spec fn parse_arg_spec(a: Seq<char>) -> Result<Seq<Seq<char>>, WarningSpec> {
    if a.contains('=') {
        let k = first_index(a, '=');
        let first = a.take(k);
        let second = a.skip(k + 1);
        if !is_option_key(trim(first)) {
            Err(WarningSpec::UnknownKey(first))
        } else if second.len() == 0 {
            Err(WarningSpec::EmptyValue(first))
        } else if trim(first) != "-c"@ && trim(second).contains(':') {
            Ok(seq![trim(first)] + split(trim(second), ':').map_values(|p: Seq<char>| trim(p)))
        } else {
            Ok(seq![trim(first), trim(second)])
        }
    } else {
        Ok(seq![trim(a)])
    }
}

/// Whether `k` is one of the keys that may stand before `=`.
fn option_key(k: &str) -> (r: bool)
    ensures
        r == is_option_key(k@),
{
    str_equal(k, "-f") || str_equal(k, "-proc") || str_equal(k, "-time") || str_equal(k, "-min")
        || str_equal(k, "-err") || str_equal(k, "--") || str_equal(k, "-c") || str_equal(
        k,
        "-test-time",
    ) || str_equal(k, "-test_time")
}

/// Splits one argument into the parts of its key, or says why it is skipped.
pub fn parse_arg(arg: &str) -> (r: Result<Vec<String>, Warning>)
    ensures
        match r {
            Ok(parts) => parse_arg_spec(arg@) == Ok::<Seq<Seq<char>>, WarningSpec>(
                strings_view(parts@),
            ),
            Err(w) => parse_arg_spec(arg@) == Err::<Seq<Seq<char>>, WarningSpec>(w@),
        },
{
    let len = arg.unicode_len();
    match find_char(arg, '=') {
        Some(k) => {
            proof {
                crate::text::lemma_first_index(arg@, '=');
            }
            let first = arg.substring_char(0, k);
            let second = arg.substring_char(k + 1, len);
            proof {
                assert(first@ =~= arg@.take(k as int));
                assert(second@ =~= arg@.skip(k + 1));
            }
            let key = trim_str(first);
            if !option_key(key) {
                return Err(Warning::UnknownKey(String::from_str(first)));
            }
            if second.unicode_len() == 0 {
                return Err(Warning::EmptyValue(String::from_str(first)));
            }
            let value = trim_str(second);
            let mut parts: Vec<String> = Vec::new();
            parts.push(String::from_str(key));
            let is_command = str_equal(key, "-c");
            let colon = if is_command {
                None
            } else {
                find_char(value, ':')
            };
            match colon {
                Some(_) => {
                    let pieces = split_str(value, ':');
                    let ghost spec_pieces = split(value@, ':');
                    let n = pieces.len();
                    for i in 0..n
                        invariant
                            n == pieces@.len(),
                            n == spec_pieces.len(),
                            forall|j: int| 0 <= j < n ==> #[trigger] pieces@[j]@ == spec_pieces[j],
                            parts@.len() == i + 1,
                            parts@[0]@ == trim(first@),
                            forall|j: int|
                                0 <= j < i ==> #[trigger] parts@[j + 1]@ == trim(spec_pieces[j]),
                    {
                        parts.push(String::from_str(trim_str(pieces[i])));
                    }
                    proof {
                        let expected = seq![trim(first@)] + spec_pieces.map_values(
                            |p: Seq<char>| trim(p),
                        );
                        assert forall|j: int| 0 <= j < parts@.len() implies strings_view(
                            parts@,
                        )[j] == expected[j] by {
                            if j > 0 {
                                assert(parts@[(j - 1) + 1]@ == trim(spec_pieces[j - 1]));
                            }
                        }
                        assert(strings_view(parts@) =~= expected);
                    }
                },
                None => {
                    parts.push(String::from_str(value));
                    proof {
                        assert(strings_view(parts@) =~= seq![trim(first@), trim(second@)]);
                    }
                },
            }
            Ok(parts)
        },
        None => {
            let mut parts: Vec<String> = Vec::new();
            parts.push(String::from_str(trim_str(arg)));
            proof {
                assert(strings_view(parts@) =~= seq![trim(arg@)]);
            }
            Ok(parts)
        },
    }
}


/// A configuration as plain values: its options and its command.
pub open spec fn configuration_view(c: Configuration) -> (Seq<Seq<Seq<char>>>, Seq<char>) {
    (options_view(c.options@), c.command@)
}

/// Where the reading of the command line stands after some arguments.
pub struct ReadState {
    /// Whether the arguments read so far are global keys.
    pub global: bool,
    /// The local keys read since the last command.
    pub local: Seq<Seq<Seq<char>>>,
    /// The finished configurations: local keys and command.
    pub configs: Seq<(Seq<Seq<Seq<char>>>, Seq<char>)>,
    /// The global keys.
    pub globals: Seq<Seq<Seq<char>>>,
    /// The skipped arguments, in order.
    pub warnings: Seq<WarningSpec>,
}

/// A `-c` argument, as written: it begins with `-c`.
pub open spec fn is_command_arg(a: Seq<char>) -> bool {
    starts_with(a, seq!['-', 'c'])
}

/// Reading one more argument.
///
/// The first `--` ends the global keys; every `--` after it is ignored.
/// A global argument that parses joins the global keys. A local argument
/// that parses joins the local keys, unless it is a `-c` argument: with
/// exactly one command it closes a configuration of the local keys read
/// since the last one, and otherwise it is skipped and those local keys are
/// dropped.
pub open spec fn read_step(st: ReadState, a: Seq<char>) -> ReadState {
    let global = st.global && a != "--"@;
    if !global && a == "--"@ {
        ReadState { global, ..st }
    } else {
        match parse_arg_spec(a) {
            Err(w) => ReadState { global, warnings: st.warnings.push(w), ..st },
            Ok(parts) => if global {
                ReadState { global, globals: st.globals.push(parts), ..st }
            } else if is_command_arg(a) {
                if parts.len() == 2 {
                    ReadState {
                        global,
                        local: Seq::empty(),
                        configs: st.configs.push((st.local, parts[1])),
                        ..st
                    }
                } else {
                    ReadState {
                        global,
                        local: Seq::empty(),
                        warnings: st.warnings.push(WarningSpec::InvalidOption(a)),
                        ..st
                    }
                }
            } else {
                ReadState { global, local: st.local.push(parts), ..st }
            },
        }
    }
}

/// Reading the arguments `args` in order, from `st`.
pub open spec fn read_all(st: ReadState, args: Seq<Seq<char>>) -> ReadState
    decreases args.len(),
{
    if args.len() == 0 {
        st
    } else {
        read_step(read_all(st, args.drop_last()), args.last())
    }
}

/// The state before any argument is read: the arguments are global keys
/// exactly when a `--` stands somewhere on the command line.
pub open spec fn read_start(args: Seq<Seq<char>>) -> ReadState {
    ReadState {
        global: args.contains("--"@),
        local: Seq::empty(),
        configs: Seq::empty(),
        globals: Seq::empty(),
        warnings: Seq::empty(),
    }
}

/// The whole command line read: `args[0]` is the program and is not read.
pub open spec fn read_command_line(args: Seq<Seq<char>>) -> ReadState {
    read_all(read_start(args), args.skip(1))
}

/// Whether some argument is `--`.
fn has_separator(args: &Vec<String>) -> (r: bool)
    ensures
        r == strings_view(args@).contains("--"@),
{
    let n = args.len();
    for i in 0..n
        invariant
            n == args@.len(),
            forall|j: int| 0 <= j < i ==> args@[j]@ != "--"@,
    {
        if str_equal(args[i].as_str(), "--") {
            proof {
                assert(strings_view(args@)[i as int] == "--"@);
            }
            return true;
        }
    }
    proof {
        if strings_view(args@).contains("--"@) {
            let w = choose|w: int| 0 <= w < n && strings_view(args@)[w] == "--"@;
            assert(args@[w]@ == "--"@);
        }
    }
    false
}

/// Reads the command line `args` (`args[0]` is the program): appends the
/// configuration of each command to `configurations` and the global keys to
/// `glob_args`, and returns the skipped arguments in order.
pub fn build_configurations(
    args: &Vec<String>,
    configurations: &mut Vec<Configuration>,
    glob_args: &mut Vec<Vec<String>>,
) -> (warnings: Vec<Warning>)
    requires
        args@.len() >= 1,
    ensures
        ({
            let fin = read_command_line(strings_view(args@));
            &&& final(configurations)@.map_values(|c: Configuration| configuration_view(c))
                == old(configurations)@.map_values(|c: Configuration| configuration_view(c))
                + fin.configs
            &&& options_view(final(glob_args)@) == options_view(old(glob_args)@) + fin.globals
            &&& warnings@.map_values(|w: Warning| w@) == fin.warnings
        }),
{
    let ghost all = strings_view(args@);
    let ghost start = read_start(all);
    let ghost old_configs = configurations@.map_values(|c: Configuration| configuration_view(c));
    let ghost old_globals = options_view(glob_args@);
    let mut warnings: Vec<Warning> = Vec::new();
    let mut current = Configuration::new();
    let mut is_glob = has_separator(args);
    let n = args.len();
    proof {
        assert(all.skip(1).take(0) =~= Seq::<Seq<char>>::empty());
    }
    for idx in 1..n
        invariant
            n == args@.len(),
            all == strings_view(args@),
            start == read_start(all),
            ({
                let st = read_all(start, all.skip(1).take(idx - 1));
                &&& st.global == is_glob
                &&& st.local == options_view(current.options@)
                &&& current.command@.len() == 0
                &&& configurations@.map_values(|c: Configuration| configuration_view(c))
                    == old_configs + st.configs
                &&& options_view(glob_args@) == old_globals + st.globals
                &&& warnings@.map_values(|w: Warning| w@) == st.warnings
            }),
    {
        let ghost prev = read_all(start, all.skip(1).take(idx - 1));
        let ghost a = all[idx as int];
        proof {
            assert(all.skip(1).take(idx as int).drop_last() =~= all.skip(1).take(idx - 1));
            assert(all.skip(1).take(idx as int).last() == a);
            assert(a == args@[idx as int]@);
        }
        let arg = args[idx].as_str();
        let is_sep = str_equal(arg, "--");
        if is_glob && is_sep {
            is_glob = false;
        }
        if is_glob || !is_sep {
            let ghost old_warnings = warnings@;
            let ghost old_glob = glob_args@;
            let ghost old_conf = configurations@;
            let ghost old_current = current.options@;
            match parse_arg(arg) {
                Err(w) => {
                    warnings.push(w);
                    proof {
                        assert(warnings@.map_values(|w: Warning| w@) =~= old_warnings.map_values(
                            |w: Warning| w@,
                        ).push(w@));
                    }
                },
                Ok(parts) => {
                    if is_glob {
                        glob_args.push(parts);
                        proof {
                            assert(options_view(glob_args@) =~= options_view(old_glob).push(
                                strings_view(parts@),
                            ));
                        }
                    } else if starts_with_two(arg, '-', 'c') {
                        if parts.len() == 2 {
                            current.command = parts[1].clone();
                            let finished = current;
                            current = Configuration::new();
                            configurations.push(finished);
                            proof {
                                assert(strings_view(parts@)[1] == parts@[1]@);
                                assert(configurations@.map_values(
                                    |c: Configuration| configuration_view(c),
                                ) =~= old_conf.map_values(|c: Configuration| configuration_view(c)).push(
                                    configuration_view(finished),
                                ));
                                assert(options_view(current.options@) =~= Seq::<
                                    Seq<Seq<char>>,
                                >::empty());
                            }
                        } else {
                            warnings.push(Warning::InvalidOption(String::from_str(arg)));
                            current.clear();
                            proof {
                                assert(warnings@.map_values(|w: Warning| w@) =~= old_warnings.map_values(
                                    |w: Warning| w@,
                                ).push(WarningSpec::InvalidOption(a)));
                                assert(options_view(current.options@) =~= Seq::<
                                    Seq<Seq<char>>,
                                >::empty());
                            }
                        }
                    } else {
                        current.options.push(parts);
                        proof {
                            assert(options_view(current.options@) =~= options_view(old_current).push(
                                strings_view(parts@),
                            ));
                        }
                    }
                },
            }
        }
    }
    proof {
        assert(all.skip(1).take(n - 1) =~= all.skip(1));
    }
    if current.command.as_str().unicode_len() != 0 {
        configurations.push(current);
    }
    warnings
}

} // verus!
