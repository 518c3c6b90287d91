//! What reading the command line, choosing the interpreter and writing the
//! report are for, stated over all inputs.
use vstd::prelude::*;
use crate::args::{
    ReadState, WarningSpec, is_command_arg, is_option_key, parse_arg_spec, read_start, read_step,
};
use crate::text::{first_index, is_space, lemma_first_index_at, split, trim, trim_end, trim_start};
use crate::command::{CommandPlanView, Platform, command_plan_of};
use crate::keys::{KeyName, KeyView, key_name_of, key_of_option};
use crate::command::{check_for, unit_of};
use crate::measure::cmp_op_of;
use crate::number::is_float_text;
use crate::report::{Outcome, Report, full_report, one_line_report};

verus! {

/// A `-c` argument with one command, read among the local keys, closes a
/// configuration of the local keys read since the previous command, and the
/// next configuration starts with no local keys.
pub proof fn law_command_closes_configuration(
    st: ReadState,
    a: Seq<char>,
    key: Seq<char>,
    command: Seq<char>,
)
    requires
        !st.global,
        is_command_arg(a),
        parse_arg_spec(a) == Ok::<Seq<Seq<char>>, WarningSpec>(seq![key, command]),
    ensures
        !read_step(st, a).global,
        read_step(st, a).local.len() == 0,
        read_step(st, a).configs == st.configs.push((st.local, command)),
        read_step(st, a).globals == st.globals,
        read_step(st, a).warnings == st.warnings,
{
    reveal_strlit("--");
    assert(a[1] == 'c') by {
        assert(a.take(2)[1] == a[1]);
    }
    assert(a != "--"@);
}

/// Any other argument that parses, read among the local keys, joins the
/// local keys of the next configuration and changes nothing else.
pub proof fn law_local_option_waits(st: ReadState, a: Seq<char>, parts: Seq<Seq<char>>)
    requires
        !st.global,
        a != "--"@,
        !is_command_arg(a),
        parse_arg_spec(a) == Ok::<Seq<Seq<char>>, WarningSpec>(parts),
    ensures
        !read_step(st, a).global,
        read_step(st, a).local == st.local.push(parts),
        read_step(st, a).configs == st.configs,
        read_step(st, a).globals == st.globals,
        read_step(st, a).warnings == st.warnings,
{
}

/// An argument that parses, read among the global keys, joins the global
/// keys and changes nothing else.
pub proof fn law_global_option(st: ReadState, a: Seq<char>, parts: Seq<Seq<char>>)
    requires
        st.global,
        a != "--"@,
        parse_arg_spec(a) == Ok::<Seq<Seq<char>>, WarningSpec>(parts),
    ensures
        read_step(st, a).global,
        read_step(st, a).globals == st.globals.push(parts),
        read_step(st, a).local == st.local,
        read_step(st, a).configs == st.configs,
        read_step(st, a).warnings == st.warnings,
{
}

/// A refused argument is reported and changes nothing else.
pub proof fn law_refused_argument(st: ReadState, a: Seq<char>, w: WarningSpec)
    requires
        a != "--"@,
        parse_arg_spec(a) == Err::<Seq<Seq<char>>, WarningSpec>(w),
    ensures
        read_step(st, a).warnings == st.warnings.push(w),
        read_step(st, a).global == st.global,
        read_step(st, a).local == st.local,
        read_step(st, a).configs == st.configs,
        read_step(st, a).globals == st.globals,
{
}

/// `--` ends the global keys and is itself no key.
pub proof fn law_separator(st: ReadState)
    ensures
        read_step(st, "--"@) == (ReadState { global: false, ..st }),
{
}

/// On Linux and macOS, `-proc` with `bash`, `sh` or `zsh` runs that program
/// with `-c` and the command.
pub proof fn law_unix_interpreters(
    cmd: Seq<char>,
    keys: Map<KeyName, KeyView>,
    p: Platform,
    name: Seq<char>,
)
    requires
        p == Platform::Linux || p == Platform::MacOs,
        keys.contains_key(KeyName::Proc),
        keys[KeyName::Proc] == KeyView::Value(name),
        name == "bash"@ || name == "sh"@ || name == "zsh"@,
    ensures
        command_plan_of(cmd, keys, p) is Ok,
        command_plan_of(cmd, keys, p)->Ok_0.program == name,
        command_plan_of(cmd, keys, p)->Ok_0.args == seq!["-c"@, cmd],
{
}

/// On Windows, `-proc` with `cmd` runs it with `/C`, and with `powershell`
/// runs it with `-Command`, followed by the command.
pub proof fn law_windows_interpreters(cmd: Seq<char>, keys: Map<KeyName, KeyView>, name: Seq<char>)
    requires
        keys.contains_key(KeyName::Proc),
        keys[KeyName::Proc] == KeyView::Value(name),
        name == "cmd"@ || name == "powershell"@,
    ensures
        command_plan_of(cmd, keys, Platform::Windows) is Ok,
        command_plan_of(cmd, keys, Platform::Windows)->Ok_0.program == name,
        command_plan_of(cmd, keys, Platform::Windows)->Ok_0.args == seq![
            if name == "cmd"@ {
                "/C"@
            } else {
                "-Command"@
            },
            cmd,
        ],
{
}

/// Any other interpreter is refused, as is a `-proc` that names none.
pub proof fn law_other_interpreters_refused(
    cmd: Seq<char>,
    keys: Map<KeyName, KeyView>,
    p: Platform,
)
    requires
        keys.contains_key(KeyName::Proc),
        match keys[KeyName::Proc] {
            KeyView::Value(name) => match p {
                Platform::Windows => name != "cmd"@ && name != "powershell"@,
                _ => name != "bash"@ && name != "sh"@ && name != "zsh"@,
            },
            _ => true,
        },
    ensures
        command_plan_of(cmd, keys, p) == Err::<CommandPlanView, Seq<char>>(
            "Invalid command interpreter. Skip"@,
        ),
{
}

/// Without `-proc`, the command runs under `sh -c` on Linux, `zsh -c` on
/// macOS and `cmd /C` on Windows.
pub proof fn law_default_interpreter(cmd: Seq<char>, keys: Map<KeyName, KeyView>, p: Platform)
    requires
        !keys.contains_key(KeyName::Proc),
    ensures
        command_plan_of(cmd, keys, p) is Ok,
        command_plan_of(cmd, keys, p)->Ok_0.program == match p {
            Platform::Linux => "sh"@,
            Platform::MacOs => "zsh"@,
            Platform::Windows => "cmd"@,
        },
        command_plan_of(cmd, keys, p)->Ok_0.args == seq![
            if p == Platform::Windows {
                "/C"@
            } else {
                "-c"@
            },
            cmd,
        ],
{
}

/// Standard output is discarded exactly under `-min`, `-err` or `-oneline`,
/// standard error exactly under `-min` or `-oneline`.
pub proof fn law_silenced_streams(cmd: Seq<char>, keys: Map<KeyName, KeyView>, p: Platform)
    requires
        command_plan_of(cmd, keys, p) is Ok,
    ensures
        command_plan_of(cmd, keys, p)->Ok_0.stdout_null == (keys.contains_key(KeyName::Min)
            || keys.contains_key(KeyName::ErrOnly) || keys.contains_key(KeyName::Oneline)),
        command_plan_of(cmd, keys, p)->Ok_0.stderr_null == (keys.contains_key(KeyName::Min)
            || keys.contains_key(KeyName::Oneline)),
{
}

/// The line of a check in the full report, as it reads.
pub open spec fn check_line(label: Seq<char>, o: Outcome) -> Seq<char> {
    "\n - "@ + label + ": "@ + (if o.passed {
        "OK"@
    } else {
        "FAILED"@
    }) + "; "@ + o.measured@ + o.unit@ + " "@ + o.op@ + " "@ + o.value@ + o.unit@
}

/// The full report: first the command, its time, the peak and the sum of its
/// memory and its exit code; then the line of the time check, if there is
/// one, whatever the memory checks; then the lines of the memory checks, if
/// there are any.
pub proof fn law_full_report(r: Report)
    ensures
        full_report(Report { time_check: None, mem_checks: None, ..r }) == "Program "@ + r.command@
            + " executed at "@ + r.time.value@ + r.time.unit@ + "; "@ + r.peak.value@
            + r.peak.unit@ + " memory at peak, "@ + r.sum.value@ + r.sum.unit@
            + " memory at sum with exit code "@ + r.exit_code@,
        r.time_check is None ==> full_report(Report { mem_checks: None, ..r }) == full_report(
            Report { time_check: None, mem_checks: None, ..r },
        ),
        r.time_check is Some ==> full_report(Report { mem_checks: None, ..r }) == full_report(
            Report { time_check: None, mem_checks: None, ..r },
        ) + check_line("test time"@, r.time_check->Some_0),
        r.mem_checks is None ==> full_report(r) == full_report(Report { mem_checks: None, ..r }),
        r.mem_checks is Some ==> full_report(r) == full_report(Report { mem_checks: None, ..r })
            + check_line("test memory peak"@, r.mem_checks->Some_0.0) + check_line(
            "test memory sum"@,
            r.mem_checks->Some_0.1,
        ),
{
    let bare = Report { time_check: None, mem_checks: None, ..r };
    let no_mem = Report { mem_checks: None, ..r };
    assert(full_report(bare) =~= "Program "@ + r.command@ + " executed at "@ + r.time.value@
        + r.time.unit@ + "; "@ + r.peak.value@ + r.peak.unit@ + " memory at peak, "@
        + r.sum.value@ + r.sum.unit@ + " memory at sum with exit code "@ + r.exit_code@);
    if r.time_check is Some {
        assert(full_report(no_mem) =~= full_report(bare) + check_line(
            "test time"@,
            r.time_check->Some_0,
        ));
    }
    if r.mem_checks is Some {
        assert(full_report(r) =~= full_report(no_mem) + check_line(
            "test memory peak"@,
            r.mem_checks->Some_0.0,
        ) + check_line("test memory sum"@, r.mem_checks->Some_0.1));
    }
}

/// Whether a check passed, as the one-line report writes it.
pub open spec fn passed_text(o: Outcome) -> Seq<char> {
    if o.passed {
        "true"@
    } else {
        "false"@
    }
}

/// The one-line report: the command, its time, the peak and the sum of its
/// memory and its exit code; then whether the time check passed, if there is
/// one, whatever the memory checks; then whether each memory check passed.
pub proof fn law_one_line_report(r: Report)
    ensures
        one_line_report(Report { time_check: None, mem_checks: None, ..r }) == r.command@
            + ": [time: "@ + r.time.value@ + r.time.unit@ + "; mem peak: "@ + r.peak.value@
            + r.peak.unit@ + "; mem sum: "@ + r.sum.value@ + r.sum.unit@ + " ] -> "@
            + r.exit_code@,
        r.time_check is None ==> one_line_report(Report { mem_checks: None, ..r })
            == one_line_report(Report { time_check: None, mem_checks: None, ..r }),
        r.time_check is Some ==> one_line_report(Report { mem_checks: None, ..r })
            == one_line_report(Report { time_check: None, mem_checks: None, ..r })
            + "; test time: "@ + passed_text(r.time_check->Some_0),
        r.mem_checks is None ==> one_line_report(r) == one_line_report(
            Report { mem_checks: None, ..r },
        ),
        r.mem_checks is Some ==> one_line_report(r) == one_line_report(
            Report { mem_checks: None, ..r },
        ) + "; test mem peak: "@ + passed_text(r.mem_checks->Some_0.0) + "; test mem sum: "@
            + passed_text(r.mem_checks->Some_0.1),
{
    let bare = Report { time_check: None, mem_checks: None, ..r };
    let no_mem = Report { mem_checks: None, ..r };
    assert(one_line_report(bare) =~= r.command@ + ": [time: "@ + r.time.value@ + r.time.unit@
        + "; mem peak: "@ + r.peak.value@ + r.peak.unit@ + "; mem sum: "@ + r.sum.value@
        + r.sum.unit@ + " ] -> "@ + r.exit_code@);
    if r.time_check is Some {
        assert(one_line_report(no_mem) =~= one_line_report(bare) + "; test time: "@ + passed_text(
            r.time_check->Some_0,
        ));
    }
    if r.mem_checks is Some {
        assert(one_line_report(r) =~= one_line_report(no_mem) + "; test mem peak: "@ + passed_text(
            r.mem_checks->Some_0.0,
        ) + "; test mem sum: "@ + passed_text(r.mem_checks->Some_0.1));
    }
}

/// White space at the front of `s` and the rest.
proof fn lemma_trim_start(s: Seq<char>) -> (i: int)
    ensures
        0 <= i <= s.len(),
        trim_start(s) == s.skip(i),
        forall|k: int| 0 <= k < i ==> is_space(#[trigger] s[k]),
        trim_start(s).len() > 0 ==> !is_space(trim_start(s)[0]),
    decreases s.len(),
{
    if s.len() > 0 && is_space(s[0]) {
        let i = lemma_trim_start(s.drop_first());
        assert(s.drop_first().skip(i) =~= s.skip(i + 1));
        assert forall|k: int| 0 <= k < i + 1 implies is_space(#[trigger] s[k]) by {
            if k > 0 {
                assert(s[k] == s.drop_first()[k - 1]);
            }
        }
        i + 1
    } else {
        assert(s.skip(0) =~= s);
        0
    }
}

/// The rest of `s` and white space at its end.
proof fn lemma_trim_end(s: Seq<char>) -> (j: int)
    ensures
        0 <= j <= s.len(),
        trim_end(s) == s.take(j),
        forall|k: int| j <= k < s.len() ==> is_space(#[trigger] s[k]),
        trim_end(s).len() > 0 ==> !is_space(trim_end(s).last()),
    decreases s.len(),
{
    if s.len() > 0 && is_space(s.last()) {
        let j = lemma_trim_end(s.drop_last());
        assert(s.drop_last().take(j) =~= s.take(j));
        assert forall|k: int| j <= k < s.len() implies is_space(#[trigger] s[k]) by {
            if k < s.len() - 1 {
                assert(s[k] == s.drop_last()[k]);
            }
        }
        j
    } else {
        assert(s.take(s.len() as int) =~= s);
        s.len() as int
    }
}

/// Trimming removes white space from both ends and nothing else: the text
/// is white space, the trimmed text, and white space, in that order, and the
/// trimmed text neither begins nor ends with white space.
pub proof fn law_trim(s: Seq<char>) -> (bounds: (int, int))
    ensures
        0 <= bounds.0 <= bounds.1 <= s.len(),
        trim(s) == s.subrange(bounds.0, bounds.1),
        forall|k: int| 0 <= k < bounds.0 ==> is_space(#[trigger] s[k]),
        forall|k: int| bounds.1 <= k < s.len() ==> is_space(#[trigger] s[k]),
        trim(s).len() > 0 ==> !is_space(trim(s)[0]) && !is_space(trim(s).last()),
{
    let i = lemma_trim_start(s);
    let t = trim_start(s);
    let j = lemma_trim_end(t);
    assert(t.take(j) =~= s.subrange(i, i + j));
    assert forall|k: int| i + j <= k < s.len() implies is_space(#[trigger] s[k]) by {
        assert(t[k - i] == s[k]);
    }
    if trim(s).len() > 0 {
        assert(trim(s)[0] == t[0]);
    }
    (i, i + j)
}

/// The pieces of `s` between the occurrences of `sep`, put back together with
/// `sep` between them.
pub open spec fn join(pieces: Seq<Seq<char>>, sep: char) -> Seq<char>
    decreases pieces.len(),
{
    if pieces.len() <= 1 {
        if pieces.len() == 1 {
            pieces[0]
        } else {
            Seq::empty()
        }
    } else {
        pieces[0] + seq![sep] + join(pieces.drop_first(), sep)
    }
}

/// Splitting at a separator cuts the text into pieces that hold no
/// separator and that give the text back when joined with it.
pub proof fn law_split(s: Seq<char>, sep: char)
    ensures
        split(s, sep).len() >= 1,
        join(split(s, sep), sep) == s,
        forall|i: int| 0 <= i < split(s, sep).len() ==> !(#[trigger] split(s, sep)[i]).contains(sep),
    decreases s.len(),
{
    crate::text::lemma_first_index(s, sep);
    if s.contains(sep) {
        let k = first_index(s, sep);
        let rest = s.skip(k + 1);
        law_split(rest, sep);
        let pieces = split(s, sep);
        assert(pieces.drop_first() =~= split(rest, sep));
        assert(pieces[0] == s.take(k));
        assert(s =~= s.take(k) + seq![sep] + rest);
        assert(!s.take(k).contains(sep)) by {
            if s.take(k).contains(sep) {
                let w = choose|w: int| 0 <= w < k && s.take(k)[w] == sep;
                assert(s[w] == sep);
            }
        }
        assert forall|i: int| 0 <= i < pieces.len() implies !(#[trigger] pieces[i]).contains(sep) by {
            if i > 0 {
                assert(pieces[i] == split(rest, sep)[i - 1]);
            }
        }
    } else {
        assert(split(s, sep) =~= seq![s]);
    }
}

/// Where `k` holds no `=`, the first `=` of `k`, `=`, `v` is the one after `k`.
proof fn lemma_key_value_split(k: Seq<char>, v: Seq<char>)
    requires
        !k.contains('='),
    ensures
        (k + seq!['='] + v).contains('='),
        first_index(k + seq!['='] + v, '=') == k.len(),
        (k + seq!['='] + v).take(k.len() as int) == k,
        (k + seq!['='] + v).skip(k.len() as int + 1) == v,
{
    let a = k + seq!['='] + v;
    assert forall|j: int| 0 <= j < k.len() implies a[j] != '=' by {
        assert(a[j] == k[j]);
    }
    assert(a[k.len() as int] == '=');
    lemma_first_index_at(a, '=', k.len() as int);
    assert(a.take(k.len() as int) =~= k);
    assert(a.skip(k.len() as int + 1) =~= v);
}

/// `key=value` with a known key and a value that holds no `:` gives the
/// trimmed key and the trimmed value.
pub proof fn law_key_value(k: Seq<char>, v: Seq<char>)
    requires
        !k.contains('='),
        is_option_key(trim(k)),
        v.len() > 0,
        !trim(v).contains(':'),
    ensures
        parse_arg_spec(k + seq!['='] + v) == Ok::<Seq<Seq<char>>, WarningSpec>(
            seq![trim(k), trim(v)],
        ),
{
    lemma_key_value_split(k, v);
}

/// The value of `-c` is a command with its arguments: it is kept whole,
/// colons and all, only trimmed.
pub proof fn law_command_value_kept(k: Seq<char>, v: Seq<char>)
    requires
        !k.contains('='),
        trim(k) == "-c"@,
        v.len() > 0,
    ensures
        parse_arg_spec(k + seq!['='] + v) == Ok::<Seq<Seq<char>>, WarningSpec>(
            seq!["-c"@, trim(v)],
        ),
{
    lemma_key_value_split(k, v);
}

/// `key=value` with an unknown key is refused with the key as written; a
/// known key with nothing after `=` is refused likewise.
pub proof fn law_refused_key_value(k: Seq<char>, v: Seq<char>)
    requires
        !k.contains('='),
    ensures
        !is_option_key(trim(k)) ==> parse_arg_spec(k + seq!['='] + v) == Err::<
            Seq<Seq<char>>,
            WarningSpec,
        >(WarningSpec::UnknownKey(k)),
        is_option_key(trim(k)) && v.len() == 0 ==> parse_arg_spec(k + seq!['='] + v) == Err::<
            Seq<Seq<char>>,
            WarningSpec,
        >(WarningSpec::EmptyValue(k)),
{
    lemma_key_value_split(k, v);
}

/// An argument without `=` is kept whole, only trimmed.
pub proof fn law_plain_argument(a: Seq<char>)
    requires
        !a.contains('='),
    ensures
        parse_arg_spec(a) == Ok::<Seq<Seq<char>>, WarningSpec>(seq![trim(a)]),
{
}

/// The keys that may stand before `=`: `-f`, `-proc`, `-time`, `-min`,
/// `-err`, `--`, `-c`, `-test-time` and `-test_time`.
pub proof fn law_option_keys(k: Seq<char>)
    ensures
        is_option_key(k) <==> (k == "-f"@ || k == "-proc"@ || k == "-time"@ || k == "-min"@ || k
            == "-err"@ || k == "--"@ || k == "-c"@ || k == "-test-time"@ || k == "-test_time"@),
{
}

/// The keys that a command can be given are named `-proc`, `-time`, `-mem`,
/// `-min`, `-err`, `-oneline`, `-test_time` and `-test_mem`.
pub proof fn law_key_names(s: Seq<char>)
    ensures
        key_name_of(s) == Some(KeyName::Proc) <==> s == "-proc"@,
        key_name_of(s) == Some(KeyName::Time) <==> s == "-time"@,
        key_name_of(s) == Some(KeyName::Mem) <==> s == "-mem"@,
        key_name_of(s) == Some(KeyName::Min) <==> s == "-min"@,
        key_name_of(s) == Some(KeyName::ErrOnly) <==> s == "-err"@,
        key_name_of(s) == Some(KeyName::Oneline) <==> s == "-oneline"@,
        key_name_of(s) == Some(KeyName::TestTime) <==> s == "-test_time"@,
        key_name_of(s) == Some(KeyName::TestMem) <==> s == "-test_mem"@,
{
    reveal_strlit("-proc");
    reveal_strlit("-time");
    reveal_strlit("-mem");
    reveal_strlit("-min");
    reveal_strlit("-err");
    reveal_strlit("-oneline");
    reveal_strlit("-test_time");
    reveal_strlit("-test_mem");
    assert("-proc"@.len() == 5 && "-time"@.len() == 5 && "-mem"@.len() == 4 && "-min"@.len()
        == 4 && "-err"@.len() == 4 && "-oneline"@.len() == 8 && "-test_time"@.len() == 10
        && "-test_mem"@.len() == 9);
    assert("-proc"@[1] == 'p' && "-time"@[1] == 't' && "-mem"@[2] == 'e' && "-min"@[2] == 'i');
}

/// An option that names a key gives it no value when alone, its one value
/// when it has one, and its three values when it has three and the middle
/// one is the text of a number; in any other shape it gives the key nothing.
pub proof fn law_option_shapes(o: Seq<Seq<char>>, n: KeyName)
    requires
        o.len() > 0,
        key_name_of(o[0]) == Some(n),
    ensures
        o.len() == 1 ==> key_of_option(o) == Some((n, KeyView::Basic)),
        o.len() == 2 ==> key_of_option(o) == Some((n, KeyView::Value(o[1]))),
        o.len() == 4 && is_float_text(o[2]) ==> key_of_option(o) == Some(
            (n, KeyView::Three(o[1], o[2], o[3])),
        ),
        (o.len() == 3 || o.len() > 4 || (o.len() == 4 && !is_float_text(o[2])))
            ==> key_of_option(o) is None,
{
}

/// An option whose first part names no key gives nothing.
pub proof fn law_unknown_option(o: Seq<Seq<char>>)
    requires
        o.len() == 0 || key_name_of(o[0]) is None,
    ensures
        key_of_option(o) is None,
{
}

/// A unit asked for is the one value of its key; a check asked for is the
/// comparison named by the first of three values, then the three values.
pub proof fn law_plan_fields(
    keys: Map<KeyName, KeyView>,
    n: KeyName,
    v: Seq<char>,
    op: Seq<char>,
    value: Seq<char>,
    unit: Seq<char>,
)
    ensures
        unit_of(keys, n) == Some(v) <==> keys.contains_key(n) && keys[n] == KeyView::Value(v),
        check_for(keys, n) == Some((cmp_op_of(op), op, value, unit)) <==> keys.contains_key(n)
            && keys[n] == KeyView::Three(op, value, unit),
{
}

/// Reading starts among the global keys exactly when some argument is `--`,
/// with nothing read yet.
pub proof fn law_reading_starts(args: Seq<Seq<char>>)
    ensures
        read_start(args).global <==> exists|i: int| 0 <= i < args.len() && args[i] == "--"@,
        read_start(args).local.len() == 0,
        read_start(args).configs.len() == 0,
        read_start(args).globals.len() == 0,
        read_start(args).warnings.len() == 0,
{
}

/// White space is the characters U+0009 to U+000D, U+0020, U+0085, U+00A0,
/// U+1680, U+2000 to U+200A, U+2028, U+2029, U+202F, U+205F and U+3000.
pub proof fn law_white_space(c: char)
    ensures
        is_space(c) <==> (('\u{9}' <= c && c <= '\u{d}') || c == '\u{20}' || c == '\u{85}' || c
            == '\u{a0}' || c == '\u{1680}' || ('\u{2000}' <= c && c <= '\u{200a}') || c
            == '\u{2028}' || c == '\u{2029}' || c == '\u{202f}' || c == '\u{205f}' || c
            == '\u{3000}'),
{
}

} // verus!
