//! Measurements of a run: the units that time and memory are shown in, the
//! comparisons that check them, and the memory samples taken while the
//! command runs.
use vstd::prelude::*;
use crate::text::str_equal;

verus! {

/// How a measured value is carried from one unit to another: unchanged, or
/// multiplied by `numerator`, divided by `denominator` and rounded to two
/// decimals.
#[derive(Debug, Clone, Copy, PartialEq, Eq, Structural)]
pub enum Conversion {
    Same,
    Scale { numerator: u64, denominator: u64 },
}

/// Milliseconds in one unit of time: `ms`, `s`, `m` or `h`.
pub open spec fn time_unit_ms(unit: Seq<char>) -> Option<u64> {
    if unit == "ms"@ {
        Some(1)
    } else if unit == "s"@ {
        Some(1000)
    } else if unit == "m"@ {
        Some(60_000)
    } else if unit == "h"@ {
        Some(3_600_000)
    } else {
        None
    }
}

/// Bits in one unit of memory: `bit`, `b` (8 bits), `kb`, `mb` or `gb`
/// (each 1024 times the one before it).
pub open spec fn memory_unit_bits(unit: Seq<char>) -> Option<u64> {
    if unit == "bit"@ {
        Some(1)
    } else if unit == "b"@ {
        Some(8)
    } else if unit == "kb"@ {
        Some(8192)
    } else if unit == "mb"@ {
        Some(8_388_608)
    } else if unit == "gb"@ {
        Some(8_589_934_592)
    } else {
        None
    }
}

/// A time can be carried from `from` to `to`: the units are the same, or
/// both are known.
pub open spec fn time_units_known(from: Seq<char>, to: Seq<char>) -> bool {
    from == to || (time_unit_ms(from) is Some && time_unit_ms(to) is Some)
}

/// An amount of memory can be carried from `from` to `to`: the units are
/// the same, or both are known.
pub open spec fn memory_units_known(from: Seq<char>, to: Seq<char>) -> bool {
    from == to || (memory_unit_bits(from) is Some && memory_unit_bits(to) is Some)
}

/// Carrying a time from `from` to `to`, where `time_units_known(from, to)`.
pub open spec fn time_conversion_of(from: Seq<char>, to: Seq<char>) -> Conversion {
    if from == to {
        Conversion::Same
    } else {
        Conversion::Scale {
            numerator: time_unit_ms(from).unwrap(),
            denominator: time_unit_ms(to).unwrap(),
        }
    }
}

/// Carrying an amount of memory from `from` to `to`, where
/// `memory_units_known(from, to)`.
pub open spec fn memory_conversion_of(from: Seq<char>, to: Seq<char>) -> Conversion {
    if from == to {
        Conversion::Same
    } else {
        Conversion::Scale {
            numerator: memory_unit_bits(from).unwrap(),
            denominator: memory_unit_bits(to).unwrap(),
        }
    }
}

/// Milliseconds in one unit of time, if `unit` is one.
pub fn time_unit(unit: &str) -> (r: Option<u64>)
    ensures
        r == time_unit_ms(unit@),
{
    if str_equal(unit, "ms") {
        Some(1)
    } else if str_equal(unit, "s") {
        Some(1000)
    } else if str_equal(unit, "m") {
        Some(60_000)
    } else if str_equal(unit, "h") {
        Some(3_600_000)
    } else {
        None
    }
}

/// Bits in one unit of memory, if `unit` is one.
pub fn memory_unit(unit: &str) -> (r: Option<u64>)
    ensures
        r == memory_unit_bits(unit@),
{
    if str_equal(unit, "bit") {
        Some(1)
    } else if str_equal(unit, "b") {
        Some(8)
    } else if str_equal(unit, "kb") {
        Some(8192)
    } else if str_equal(unit, "mb") {
        Some(8_388_608)
    } else if str_equal(unit, "gb") {
        Some(8_589_934_592)
    } else {
        None
    }
}

/// How a time in unit `from` is shown in unit `to`.
pub fn time_conversion(from: &str, to: &str) -> (r: Conversion)
    requires
        time_units_known(from@, to@),
    ensures
        r == time_conversion_of(from@, to@),
{
    if str_equal(from, to) {
        return Conversion::Same;
    }
    Conversion::Scale { numerator: time_unit(from).unwrap(), denominator: time_unit(to).unwrap() }
}

/// How an amount of memory in unit `from` is shown in unit `to`.
pub fn memory_conversion(from: &str, to: &str) -> (r: Conversion)
    requires
        memory_units_known(from@, to@),
    ensures
        r == memory_conversion_of(from@, to@),
{
    if str_equal(from, to) {
        return Conversion::Same;
    }
    Conversion::Scale { numerator: memory_unit(from).unwrap(), denominator: memory_unit(to).unwrap() }
}

/// A comparison that checks a measured value against a given one.
#[derive(Debug, Clone, Copy, PartialEq, Eq, Structural)]
pub enum CmpOp {
    Lt,
    Le,
    Gt,
    Ge,
    Eq,
    Ne,
}

/// How a measured value stands to a given one; `Unordered` where either is
/// not a number.
#[derive(Debug, Clone, Copy, PartialEq, Eq, Structural)]
pub enum Order {
    Less,
    Equal,
    Greater,
    Unordered,
}

/// The comparison that `op` names: `<`, `<=`, `>`, `>=`, `==` or `!=`; any
/// other text compares with `==`.
pub open spec fn cmp_op_of(op: Seq<char>) -> CmpOp {
    if op == "<"@ {
        CmpOp::Lt
    } else if op == "<="@ {
        CmpOp::Le
    } else if op == ">"@ {
        CmpOp::Gt
    } else if op == ">="@ {
        CmpOp::Ge
    } else if op == "=="@ {
        CmpOp::Eq
    } else if op == "!="@ {
        CmpOp::Ne
    } else {
        CmpOp::Eq
    }
}

impl CmpOp {
    /// Whether a measured value that stands as `o` to the given one passes.
    pub open spec fn accepts(self, o: Order) -> bool {
        match self {
            CmpOp::Lt => o == Order::Less,
            CmpOp::Le => o == Order::Less || o == Order::Equal,
            CmpOp::Gt => o == Order::Greater,
            CmpOp::Ge => o == Order::Greater || o == Order::Equal,
            CmpOp::Eq => o == Order::Equal,
            CmpOp::Ne => o != Order::Equal,
        }
    }

    /// The comparison that `op` names.
    pub fn parse(op: &str) -> (r: CmpOp)
        ensures
            r == cmp_op_of(op@),
    {
        if str_equal(op, "<") {
            CmpOp::Lt
        } else if str_equal(op, "<=") {
            CmpOp::Le
        } else if str_equal(op, ">") {
            CmpOp::Gt
        } else if str_equal(op, ">=") {
            CmpOp::Ge
        } else if str_equal(op, "==") {
            CmpOp::Eq
        } else if str_equal(op, "!=") {
            CmpOp::Ne
        } else {
            CmpOp::Eq
        }
    }

    /// Whether a measured value that stands as `o` to the given one passes.
    pub fn holds(self, o: Order) -> (r: bool)
        ensures
            r == self.accepts(o),
    {
        match self {
            CmpOp::Lt => o == Order::Less,
            CmpOp::Le => o == Order::Less || o == Order::Equal,
            CmpOp::Gt => o == Order::Greater,
            CmpOp::Ge => o == Order::Greater || o == Order::Equal,
            CmpOp::Eq => o == Order::Equal,
            CmpOp::Ne => o != Order::Equal,
        }
    }
}

/// Samples of this size or above are taken for noise and left out.
pub const SAMPLE_LIMIT: u64 = 10_000_000;

/// The memory samples of a run: the largest one and the sum of all.
#[derive(Debug, Clone, Copy, PartialEq, Eq, Structural)]
pub struct MemoryStats {
    pub peak: u64,
    pub sum: u64,
}

impl MemoryStats {
    /// No sample yet.
    pub fn new() -> (s: MemoryStats)
        ensures
            s.peak == 0,
            s.sum == 0,
    {
        MemoryStats { peak: 0, sum: 0 }
    }

    /// Takes one sample, unless it is at or above the limit.
    pub fn record(&mut self, mem: u64)
        requires
            mem >= SAMPLE_LIMIT || old(self).sum + mem <= u64::MAX,
        ensures
            mem >= SAMPLE_LIMIT ==> *final(self) == *old(self),
            mem < SAMPLE_LIMIT ==> final(self).sum == old(self).sum + mem,
            mem < SAMPLE_LIMIT ==> final(self).peak == (if old(self).peak < mem {
                mem
            } else {
                old(self).peak
            }),
            old(self).peak <= old(self).sum ==> final(self).peak <= final(self).sum,
    {
        if mem < SAMPLE_LIMIT {
            if self.peak < mem {
                self.peak = mem;
            }
            self.sum = self.sum + mem;
        }
    }
}

} // verus!
