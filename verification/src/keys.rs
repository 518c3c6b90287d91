//! Keys of a command: their names, their values, and the map from names to
//! values that the local and global options of a command resolve to.
use vstd::prelude::*;
use crate::args::strings_view;
use crate::number::{float_text, is_float_text};
use crate::text::str_equal;
use crate::types::options_view;

verus! {

/// The keys that a command can be given.
#[derive(Debug, Clone, Copy, PartialEq, Eq, Structural)]
pub enum KeyName {
    /// `-proc`: the command interpreter.
    Proc,
    /// `-time`: the unit of the execution time.
    Time,
    /// `-mem`: the unit of the memory use.
    Mem,
    /// `-min`: no standard output and no standard error.
    Min,
    /// `-err`: no standard output.
    ErrOnly,
    /// `-oneline`: a one-line report.
    Oneline,
    /// `-test_time`: a check of the execution time.
    TestTime,
    /// `-test_mem`: a check of the memory use.
    TestMem,
}

/// The key named by `s`, if any.
pub open spec fn key_name_of(s: Seq<char>) -> Option<KeyName> {
    if s == "-proc"@ {
        Some(KeyName::Proc)
    } else if s == "-time"@ {
        Some(KeyName::Time)
    } else if s == "-mem"@ {
        Some(KeyName::Mem)
    } else if s == "-min"@ {
        Some(KeyName::Min)
    } else if s == "-err"@ {
        Some(KeyName::ErrOnly)
    } else if s == "-oneline"@ {
        Some(KeyName::Oneline)
    } else if s == "-test_time"@ {
        Some(KeyName::TestTime)
    } else if s == "-test_mem"@ {
        Some(KeyName::TestMem)
    } else {
        None
    }
}

/// Number of key names.
pub const KEY_COUNT: usize = 8;

impl KeyName {
    /// Position of the key in a table of all keys.
    pub open spec fn index(self) -> int {
        match self {
            KeyName::Proc => 0,
            KeyName::Time => 1,
            KeyName::Mem => 2,
            KeyName::Min => 3,
            KeyName::ErrOnly => 4,
            KeyName::Oneline => 5,
            KeyName::TestTime => 6,
            KeyName::TestMem => 7,
        }
    }

    /// Position of the key in a table of all keys.
    pub fn slot(self) -> (r: usize)
        ensures
            r == self.index(),
            r < KEY_COUNT,
    {
        match self {
            KeyName::Proc => 0,
            KeyName::Time => 1,
            KeyName::Mem => 2,
            KeyName::Min => 3,
            KeyName::ErrOnly => 4,
            KeyName::Oneline => 5,
            KeyName::TestTime => 6,
            KeyName::TestMem => 7,
        }
    }

    /// The key named by `s`, if any.
    pub fn from_text(s: &str) -> (r: Option<KeyName>)
        ensures
            r == key_name_of(s@),
    {
        if str_equal(s, "-proc") {
            Some(KeyName::Proc)
        } else if str_equal(s, "-time") {
            Some(KeyName::Time)
        } else if str_equal(s, "-mem") {
            Some(KeyName::Mem)
        } else if str_equal(s, "-min") {
            Some(KeyName::Min)
        } else if str_equal(s, "-err") {
            Some(KeyName::ErrOnly)
        } else if str_equal(s, "-oneline") {
            Some(KeyName::Oneline)
        } else if str_equal(s, "-test_time") {
            Some(KeyName::TestTime)
        } else if str_equal(s, "-test_mem") {
            Some(KeyName::TestMem)
        } else {
            None
        }
    }
}

/// Two key names in the same place of the table are the same name.
pub proof fn lemma_index_injective(a: KeyName, b: KeyName)
    ensures
        a.index() == b.index() ==> a == b,
        0 <= a.index() < KEY_COUNT,
{
}

/// The value of a key.
#[derive(Debug)]
pub enum Key {
    /// The key has no value.
    Empty,
    /// The key was given alone.
    Basic,
    /// The key was given one value.
    Value(String),
    /// The key was given three values; the second is the text of a number.
    Three((String, String, String)),
}

/// A `Key` as plain values.
pub enum KeyView {
    Empty,
    Basic,
    Value(Seq<char>),
    Three(Seq<char>, Seq<char>, Seq<char>),
}

impl View for Key {
    type V = KeyView;

    open spec fn view(&self) -> KeyView {
        match self {
            Key::Empty => KeyView::Empty,
            Key::Basic => KeyView::Basic,
            Key::Value(v) => KeyView::Value(v@),
            Key::Three((a, b, c)) => KeyView::Three(a@, b@, c@),
        }
    }
}

impl Key {
    /// A copy of the key.
    pub fn duplicate(&self) -> (r: Key)
        ensures
            r@ == self@,
    {
        match self {
            Key::Empty => Key::Empty,
            Key::Basic => Key::Basic,
            Key::Value(v) => Key::Value(v.clone()),
            Key::Three((a, b, c)) => Key::Three((a.clone(), b.clone(), c.clone())),
        }
    }
}

/// The keys of a command, each name with at most one value.
pub struct KeyMap {
    slots: Vec<Option<Key>>,
}

impl View for KeyMap {
    type V = Map<KeyName, KeyView>;

    closed spec fn view(&self) -> Map<KeyName, KeyView> {
        Map::new(
            |n: KeyName| self.slots@[n.index()] is Some,
            |n: KeyName| self.slots@[n.index()]->Some_0@,
        )
    }
}

impl KeyMap {
    /// The map holds one slot for each key name.
    pub closed spec fn wf(&self) -> bool {
        self.slots@.len() == KEY_COUNT
    }

    /// The map with no keys.
    pub fn new() -> (m: KeyMap)
        ensures
            m.wf(),
            m@ == Map::<KeyName, KeyView>::empty(),
    {
        let mut slots: Vec<Option<Key>> = Vec::new();
        let mut i: usize = 0;
        while i < KEY_COUNT
            invariant
                i <= KEY_COUNT,
                slots@.len() == i,
                forall|j: int| 0 <= j < i ==> slots@[j] is None,
            decreases KEY_COUNT - i,
        {
            slots.push(None);
            i = i + 1;
        }
        let m = KeyMap { slots };
        proof {
            assert(m@ =~= Map::<KeyName, KeyView>::empty());
        }
        m
    }

    /// The value of `name`, if the map has one.
    pub fn get(&self, name: KeyName) -> (r: Option<&Key>)
        requires
            self.wf(),
        ensures
            r is Some <==> self@.contains_key(name),
            r matches Some(k) ==> k@ == self@[name],
    {
        match &self.slots[name.slot()] {
            Some(k) => Some(k),
            None => None,
        }
    }

    /// Whether the map has a value for `name`.
    pub fn contains(&self, name: KeyName) -> (r: bool)
        requires
            self.wf(),
        ensures
            r == self@.contains_key(name),
    {
        self.slots[name.slot()].is_some()
    }

    /// Gives `name` the value `key`, in place of any value it had.
    pub fn insert(&mut self, name: KeyName, key: Key)
        requires
            old(self).wf(),
        ensures
            final(self).wf(),
            final(self)@ == old(self)@.insert(name, key@),
    {
        let ghost kv = key@;
        let i = name.slot();
        self.slots.set(i, Some(key));
        proof {
            assert forall|n: KeyName| #[trigger] self@.contains_key(n) == old(self)@.insert(
                name,
                kv,
            ).contains_key(n) by {
                lemma_index_injective(n, name);
            }
            assert forall|n: KeyName| #[trigger] self@.contains_key(n) implies self@[n] == old(
                self,
            )@.insert(name, kv)[n] by {
                lemma_index_injective(n, name);
            }
            assert(self@ =~= old(self)@.insert(name, kv));
        }
    }
}

/// The name and value that one option gives, if it names a key: a key alone,
/// a key with one value, or a key with three values whose second is the text
/// of a number.
pub open spec fn key_of_option(o: Seq<Seq<char>>) -> Option<(KeyName, KeyView)> {
    if o.len() == 1 {
        match key_name_of(o[0]) {
            Some(n) => Some((n, KeyView::Basic)),
            None => None,
        }
    } else if o.len() == 2 {
        match key_name_of(o[0]) {
            Some(n) => Some((n, KeyView::Value(o[1]))),
            None => None,
        }
    } else if o.len() == 4 {
        match key_name_of(o[0]) {
            Some(n) => if is_float_text(o[2]) {
                Some((n, KeyView::Three(o[1], o[2], o[3])))
            } else {
                None
            },
            None => None,
        }
    } else {
        None
    }
}

/// The keys that the options give, a later option of a name in place of an
/// earlier one.
pub open spec fn keys_of(options: Seq<Seq<Seq<char>>>) -> Map<KeyName, KeyView>
    decreases options.len(),
{
    if options.len() == 0 {
        Map::empty()
    } else {
        match key_of_option(options.last()) {
            Some((n, v)) => keys_of(options.drop_last()).insert(n, v),
            None => keys_of(options.drop_last()),
        }
    }
}

/// Turns the raw options of a command into its keys.
pub fn make_keys(keys: &[Vec<String>]) -> (result: KeyMap)
    ensures
        result.wf(),
        result@ == keys_of(options_view(keys@)),
{
    let mut result = KeyMap::new();
    let n = keys.len();
    let ghost all = options_view(keys@);
    for i in 0..n
        invariant
            n == keys@.len(),
            all == options_view(keys@),
            result.wf(),
            result@ == keys_of(all.take(i as int)),
    {
        let key = &keys[i];
        let ghost o = strings_view(key@);
        proof {
            assert(all.take(i + 1).drop_last() =~= all.take(i as int));
            assert(all.take(i + 1).last() == o);
        }
        if key.len() == 1 {
            proof {
                assert(o[0] == key@[0]@);
            }
            if let Some(name) = KeyName::from_text(key[0].as_str()) {
                result.insert(name, Key::Basic);
            }
        } else if key.len() == 2 {
            proof {
                assert(o[0] == key@[0]@);
                assert(o[1] == key@[1]@);
            }
            if let Some(name) = KeyName::from_text(key[0].as_str()) {
                result.insert(name, Key::Value(key[1].clone()));
            }
        } else if key.len() == 4 {
            proof {
                assert(o[0] == key@[0]@);
                assert(o[1] == key@[1]@);
                assert(o[2] == key@[2]@);
                assert(o[3] == key@[3]@);
            }
            if let Some(name) = KeyName::from_text(key[0].as_str()) {
                if float_text(key[2].as_str()) {
                    result.insert(
                        name,
                        Key::Three((key[1].clone(), key[2].clone(), key[3].clone())),
                    );
                }
            }
        }
    }
    proof {
        assert(all.take(n as int) =~= all);
    }
    result
}

/// Completes the local keys of a command with the global keys: a key that
/// the command was given itself keeps its own value, and every other global
/// key is added.
pub fn rewrite_by_globals(locals: &mut KeyMap, globals: &KeyMap)
    requires
        old(locals).wf(),
        globals.wf(),
    ensures
        final(locals).wf(),
        final(locals)@ == globals@.union_prefer_right(old(locals)@),
{
    let ghost start = locals@;
    let mut i: usize = 0;
    while i < KEY_COUNT
        invariant
            i <= KEY_COUNT,
            locals.wf(),
            globals.wf(),
            forall|n: KeyName| #![trigger locals@.contains_key(n)]
                n.index() < i ==> locals@.contains_key(n) == (start.contains_key(n)
                    || globals@.contains_key(n)),
            forall|n: KeyName| #![trigger locals@.contains_key(n)]
                n.index() < i && locals@.contains_key(n) ==> locals@[n] == (if start.contains_key(
                    n,
                ) {
                    start[n]
                } else {
                    globals@[n]
                }),
            forall|n: KeyName| #![trigger locals@.contains_key(n)]
                n.index() >= i ==> locals@.contains_key(n) == start.contains_key(n),
            forall|n: KeyName| #![trigger locals@.contains_key(n)]
                n.index() >= i && locals@.contains_key(n) ==> locals@[n] == start[n],
        decreases KEY_COUNT - i,
    {
        let name = name_at(i);
        if !locals.contains(name) {
            if let Some(k) = globals.get(name) {
                locals.insert(name, k.duplicate());
            }
        }
        proof {
            assert forall|n: KeyName| n.index() == i implies n == name by {
                lemma_index_injective(n, name);
            }
        }
        i = i + 1;
    }
    proof {
        assert(locals@ =~= globals@.union_prefer_right(start));
    }
}

/// The key name in place `i` of the table.
fn name_at(i: usize) -> (n: KeyName)
    requires
        i < KEY_COUNT,
    ensures
        n.index() == i,
{
    if i == 0 {
        KeyName::Proc
    } else if i == 1 {
        KeyName::Time
    } else if i == 2 {
        KeyName::Mem
    } else if i == 3 {
        KeyName::Min
    } else if i == 4 {
        KeyName::ErrOnly
    } else if i == 5 {
        KeyName::Oneline
    } else if i == 6 {
        KeyName::TestTime
    } else {
        KeyName::TestMem
    }
}

} // verus!
