//! Properties that hold of the library as a whole.
use vstd::prelude::*;
use crate::args::{ReadState, read_all, read_command_line, read_start, read_step};
use crate::command::resolved_keys;
use crate::keys::{KeyName, KeyView, key_name_of, key_of_option, keys_of};
use crate::measure::{
    CmpOp, Conversion, Order, memory_conversion_of, memory_units_known, time_conversion_of,
    time_units_known,
};
use crate::types::{Configuration, options_view};

verus! {

/// A key that a command gives itself applies to it with its own value; a
/// key that it does not give applies with the global value, if there is one.
pub proof fn law_local_keys_win(conf: Configuration, global: Map<KeyName, KeyView>, n: KeyName)
    ensures
        ({
            let local = keys_of(options_view(conf.options@));
            let keys = resolved_keys(conf, global);
            &&& local.contains_key(n) ==> keys.contains_key(n) && keys[n] == local[n]
            &&& !local.contains_key(n) ==> (keys.contains_key(n) == global.contains_key(n))
            &&& !local.contains_key(n) && global.contains_key(n) ==> keys[n] == global[n]
        }),
{
}

/// Once the global keys have ended, they stay ended and take nothing more.
proof fn lemma_local_stays_local(st: ReadState, args: Seq<Seq<char>>)
    requires
        !st.global,
    ensures
        !read_all(st, args).global,
        read_all(st, args).globals == st.globals,
    decreases args.len(),
{
    if args.len() > 0 {
        lemma_local_stays_local(st, args.drop_last());
    }
}

/// Reading `a` and then `b` is reading `a + b`.
proof fn lemma_read_all_concat(st: ReadState, a: Seq<Seq<char>>, b: Seq<Seq<char>>)
    ensures
        read_all(st, a + b) == read_all(read_all(st, a), b),
    decreases b.len(),
{
    if b.len() == 0 {
        assert(a + b =~= a);
    } else {
        assert((a + b).drop_last() =~= a + b.drop_last());
        assert((a + b).last() == b.last());
        lemma_read_all_concat(st, a, b.drop_last());
    }
}

/// Without `--` on the command line there are no global keys.
pub proof fn law_no_separator_no_globals(args: Seq<Seq<char>>)
    requires
        !args.contains("--"@),
    ensures
        read_command_line(args).globals.len() == 0,
{
    lemma_local_stays_local(read_start(args), args.skip(1));
}

/// The global keys are read from the arguments before the first `--` that
/// follows the program; none comes after it.
pub proof fn law_globals_precede_separator(args: Seq<Seq<char>>, k: int)
    requires
        1 <= k < args.len(),
        args[k] == "--"@,
        forall|j: int| 1 <= j < k ==> args[j] != "--"@,
    ensures
        read_command_line(args).globals == read_all(
            read_start(args),
            args.subrange(1, k),
        ).globals,
        !read_command_line(args).global,
{
    let st = read_start(args);
    let rest = args.skip(1);
    let before = args.subrange(1, k);
    let after = args.skip(k);
    assert(rest =~= before + after);
    lemma_read_all_concat(st, before, after);
    let mid = read_all(st, before);
    let first = seq![after[0]];
    assert(after =~= first + after.skip(1));
    lemma_read_all_concat(mid, first, after.skip(1));
    assert(first.drop_last() =~= Seq::<Seq<char>>::empty());
    let sep = read_step(mid, after[0]);
    assert(read_all(mid, first.drop_last()) == mid);
    assert(first.last() == after[0]);
    assert(read_all(mid, first) == sep);
    assert(!sep.global);
    assert(sep.globals == mid.globals);
    lemma_local_stays_local(sep, after.skip(1));
}

/// The keys of some options followed by others: a key that the later options
/// give takes its value from them.
pub proof fn law_later_options_win(a: Seq<Seq<Seq<char>>>, b: Seq<Seq<Seq<char>>>)
    ensures
        keys_of(a + b) == keys_of(a).union_prefer_right(keys_of(b)),
    decreases b.len(),
{
    if b.len() == 0 {
        assert(a + b =~= a);
        assert(keys_of(a).union_prefer_right(keys_of(b)) =~= keys_of(a));
    } else {
        assert((a + b).drop_last() =~= a + b.drop_last());
        assert((a + b).last() == b.last());
        law_later_options_win(a, b.drop_last());
        match key_of_option(b.last()) {
            Some((n, v)) => {
                assert(keys_of(a + b) =~= keys_of(a).union_prefer_right(keys_of(b)));
            },
            None => {},
        }
    }
}

/// A time carried from one known unit to another and back is scaled by
/// inverse factors; carried to its own unit it is unchanged.
pub proof fn law_time_conversion_inverse(a: Seq<char>, b: Seq<char>)
    requires
        time_units_known(a, b),
    ensures
        time_units_known(b, a),
        forall|x: u64, y: u64|
            time_conversion_of(a, b) == (Conversion::Scale { numerator: x, denominator: y })
                ==> #[trigger] time_conversion_of(b, a) == (Conversion::Scale {
                numerator: y,
                denominator: x,
            }),
        time_conversion_of(a, a) == Conversion::Same,
{
}

/// The same holds of memory.
pub proof fn law_memory_conversion_inverse(a: Seq<char>, b: Seq<char>)
    requires
        memory_units_known(a, b),
    ensures
        memory_units_known(b, a),
        forall|x: u64, y: u64|
            memory_conversion_of(a, b) == (Conversion::Scale { numerator: x, denominator: y })
                ==> #[trigger] memory_conversion_of(b, a) == (Conversion::Scale {
                numerator: y,
                denominator: x,
            }),
        memory_conversion_of(a, a) == Conversion::Same,
{
}

/// `!=` passes exactly where `==` fails, `<=` where `<` or `==` passes,
/// `>=` where `>` or `==` passes; of two values that are ordered, exactly one
/// of `<`, `==` and `>` passes.
pub proof fn law_comparisons(o: Order)
    ensures
        CmpOp::Ne.accepts(o) == !CmpOp::Eq.accepts(o),
        CmpOp::Le.accepts(o) == (CmpOp::Lt.accepts(o) || CmpOp::Eq.accepts(o)),
        CmpOp::Ge.accepts(o) == (CmpOp::Gt.accepts(o) || CmpOp::Eq.accepts(o)),
        o != Order::Unordered ==> (CmpOp::Lt.accepts(o) as int) + (CmpOp::Eq.accepts(o) as int)
            + (CmpOp::Gt.accepts(o) as int) == 1,
{
}

/// Option `o` gives a value to the key `n`.
pub open spec fn names_key(o: Seq<Seq<char>>, n: KeyName) -> bool {
    key_of_option(o) is Some && key_of_option(o).unwrap().0 == n
}

/// A key has the value that the last option naming it gives; a key that no
/// option names is absent.
pub proof fn law_last_option_wins(options: Seq<Seq<Seq<char>>>, n: KeyName)
    ensures
        forall|i: int|
            #![trigger names_key(options[i], n)]
            0 <= i < options.len() && names_key(options[i], n) && (forall|j: int|
                i < j < options.len() ==> !names_key(options[j], n)) ==> keys_of(
                options,
            ).contains_key(n) && keys_of(options)[n] == key_of_option(options[i]).unwrap().1,
        (forall|i: int| 0 <= i < options.len() ==> !names_key(#[trigger] options[i], n))
            ==> !keys_of(options).contains_key(n),
    decreases options.len(),
{
    if options.len() > 0 {
        let init = options.drop_last();
        let l = options.len() - 1;
        law_last_option_wins(init, n);
        assert forall|i: int|
            #![trigger names_key(options[i], n)]
            0 <= i < options.len() && names_key(options[i], n) && (forall|j: int|
                i < j < options.len() ==> !names_key(options[j], n)) implies keys_of(
            options,
        ).contains_key(n) && keys_of(options)[n] == key_of_option(options[i]).unwrap().1 by {
            if i < l {
                assert(init[i] == options[i]);
                assert forall|j: int| i < j < init.len() implies !names_key(init[j], n) by {
                    assert(init[j] == options[j]);
                    assert(!names_key(options[j], n));
                }
                assert(!names_key(options[l], n));
            }
        }
        if forall|i: int| 0 <= i < options.len() ==> !names_key(#[trigger] options[i], n) {
            assert forall|i: int| 0 <= i < init.len() implies !names_key(#[trigger] init[i], n) by {
                assert(init[i] == options[i]);
            }
            assert(!names_key(options[l], n));
        }
    }
}

/// Two options whose first parts differ can trade places without changing
/// the keys: only the order of the options of one name matters.
pub proof fn law_swap_distinct_options(
    a: Seq<Seq<Seq<char>>>,
    o1: Seq<Seq<char>>,
    o2: Seq<Seq<char>>,
    b: Seq<Seq<Seq<char>>>,
)
    requires
        o1.len() == 0 || o2.len() == 0 || o1[0] != o2[0],
    ensures
        keys_of(a + seq![o1, o2] + b) == keys_of(a + seq![o2, o1] + b),
{
    law_later_options_win(a + seq![o1, o2], b);
    law_later_options_win(a + seq![o2, o1], b);
    law_later_options_win(a, seq![o1, o2]);
    law_later_options_win(a, seq![o2, o1]);
    let p = seq![o1, o2];
    let q = seq![o2, o1];
    let e = Seq::<Seq<Seq<char>>>::empty();
    assert(p.drop_last() =~= seq![o1]);
    assert(q.drop_last() =~= seq![o2]);
    assert(seq![o1].drop_last() =~= e);
    assert(seq![o2].drop_last() =~= e);
    assert(p.last() == o2);
    assert(q.last() == o1);
    assert(seq![o1].last() == o1);
    assert(seq![o2].last() == o2);
    assert(keys_of(e) == Map::<KeyName, KeyView>::empty());
    let k1 = keys_of(seq![o1]);
    let k2 = keys_of(seq![o2]);
    if key_of_option(o1) is Some && key_of_option(o2) is Some {
        let (n1, v1) = key_of_option(o1).unwrap();
        let (n2, v2) = key_of_option(o2).unwrap();
        assert(key_name_of(o1[0]) == Some(n1));
        assert(key_name_of(o2[0]) == Some(n2));
        assert(n1 != n2) by {
            reveal_strlit("-proc");
            reveal_strlit("-time");
            reveal_strlit("-mem");
            reveal_strlit("-min");
            reveal_strlit("-err");
            reveal_strlit("-oneline");
            reveal_strlit("-test_time");
            reveal_strlit("-test_mem");
        }
        assert(keys_of(p) == k1.insert(n2, v2));
        assert(keys_of(q) == k2.insert(n1, v1));
        assert(k1 == Map::<KeyName, KeyView>::empty().insert(n1, v1));
        assert(k2 == Map::<KeyName, KeyView>::empty().insert(n2, v2));
    }
    assert(keys_of(p) =~= keys_of(q));
}

/// The last option of `options` that names `n`, where one does.
proof fn lemma_last_naming(options: Seq<Seq<Seq<char>>>, n: KeyName) -> (i: int)
    requires
        exists|j: int| 0 <= j < options.len() && names_key(#[trigger] options[j], n),
    ensures
        0 <= i < options.len(),
        names_key(options[i], n),
        forall|j: int| i < j < options.len() ==> !names_key(#[trigger] options[j], n),
    decreases options.len(),
{
    let l = options.len() - 1;
    if names_key(options[l], n) {
        l
    } else {
        let init = options.drop_last();
        let w = choose|j: int| 0 <= j < options.len() && names_key(#[trigger] options[j], n);
        assert(w != l);
        assert(init[w] == options[w]);
        let i = lemma_last_naming(init, n);
        assert forall|j: int| i < j < options.len() implies !names_key(#[trigger] options[j], n) by {
            if j < l {
                assert(init[j] == options[j]);
            }
        }
        i
    }
}

/// Options that name the same key begin with the same text.
proof fn lemma_same_name_same_text(o1: Seq<Seq<char>>, o2: Seq<Seq<char>>, n: KeyName)
    requires
        names_key(o1, n),
        names_key(o2, n),
    ensures
        o1.len() > 0 && o2.len() > 0 && o1[0] == o2[0],
{
    assert(key_name_of(o1[0]) == Some(n));
    assert(key_name_of(o2[0]) == Some(n));
}

/// Rearranging the options changes no key, as long as the options that
/// begin with the same text keep their order among themselves.
///
/// `b` is `a` rearranged: option `i` of `a` is option `p[i]` of `b`, and `q`
/// is the inverse of `p`.
pub proof fn law_order_keeping_permutation(
    a: Seq<Seq<Seq<char>>>,
    b: Seq<Seq<Seq<char>>>,
    p: Seq<int>,
    q: Seq<int>,
)
    requires
        a.len() == b.len(),
        p.len() == a.len(),
        q.len() == a.len(),
        forall|i: int| 0 <= i < a.len() ==> 0 <= #[trigger] p[i] < a.len() && b[p[i]] == a[i],
        forall|k: int| 0 <= k < a.len() ==> 0 <= #[trigger] q[k] < a.len() && p[q[k]] == k,
        forall|i: int, j: int|
            0 <= i < j < a.len() && a[i].len() > 0 && a[j].len() > 0 && a[i][0] == a[j][0]
                ==> #[trigger] p[i] < #[trigger] p[j],
    ensures
        keys_of(a) == keys_of(b),
{
    assert forall|n: KeyName| #[trigger] keys_of(a).contains_key(n) == keys_of(b).contains_key(n)
        && (keys_of(a).contains_key(n) ==> keys_of(a)[n] == keys_of(b)[n]) by {
        law_last_option_wins(a, n);
        law_last_option_wins(b, n);
        if exists|j: int| 0 <= j < a.len() && names_key(#[trigger] a[j], n) {
            let i = lemma_last_naming(a, n);
            let k = p[i];
            assert(b[k] == a[i]);
            assert forall|j: int| k < j < b.len() implies !names_key(#[trigger] b[j], n) by {
                if names_key(b[j], n) {
                    let i2 = q[j];
                    assert(p[i2] == j);
                    assert(a[i2] == b[j]);
                    if i2 > i {
                        assert(!names_key(a[i2], n));
                    }
                    assert(i2 != i);
                    lemma_same_name_same_text(a[i2], a[i], n);
                    assert(p[i2] < p[i]);
                }
            }
            assert(names_key(b[k], n));
        } else {
            assert forall|j: int| 0 <= j < b.len() implies !names_key(#[trigger] b[j], n) by {
                let i2 = q[j];
                assert(p[i2] == j);
                assert(a[i2] == b[j]);
                if names_key(b[j], n) {
                    assert(names_key(a[i2], n));
                }
            }
            assert forall|j: int| 0 <= j < a.len() implies !names_key(#[trigger] a[j], n) by {}
        }
    }
    assert(keys_of(a) =~= keys_of(b));
}

} // verus!
