use vstd::prelude::*;

verus! {

/// The element kind of a column.
#[derive(Clone, Copy, Debug, PartialEq, Eq, Structural)]
pub enum DataType {
    Boolean,
    UInt8,
    UInt16,
    UInt32,
    UInt64,
    Int8,
    Int16,
    Int32,
    Int64,
    Float32,
    Float64,
    Utf8,
    Null,
}

/// Booleans, integers and floats.
pub open spec fn is_numeric(t: DataType) -> bool {
    !(t is Utf8) && !(t is Null)
}

pub open spec fn is_float(t: DataType) -> bool {
    t is Float32 || t is Float64
}

pub open spec fn is_signed(t: DataType) -> bool {
    t is Int8 || t is Int16 || t is Int32 || t is Int64
}

/// Width in bits of a boolean or integer type (a boolean counts as one unsigned bit).
pub open spec fn int_bits(t: DataType) -> nat {
    match t {
        DataType::Boolean => 1,
        DataType::UInt8 | DataType::Int8 => 8,
        DataType::UInt16 | DataType::Int16 => 16,
        DataType::UInt32 | DataType::Int32 => 32,
        _ => 64,
    }
}

/// Float width that represents every value of `t` exactly: integers of at
/// most 16 bits fit in a 32-bit float, wider ones need a 64-bit float.
pub open spec fn float_bits(t: DataType) -> nat {
    match t {
        DataType::Float64 => 64,
        DataType::Float32 => 32,
        _ => if int_bits(t) <= 16 { 32 } else { 64 },
    }
}

/// Bits of a signed integer that holds every value of `t`.
pub open spec fn signed_bits(t: DataType) -> nat {
    if is_signed(t) { int_bits(t) } else { 2 * int_bits(t) }
}

pub open spec fn max_nat(a: nat, b: nat) -> nat {
    if a >= b { a } else { b }
}

pub open spec fn unsigned_of(bits: nat) -> DataType {
    if bits <= 8 {
        DataType::UInt8
    } else if bits <= 16 {
        DataType::UInt16
    } else if bits <= 32 {
        DataType::UInt32
    } else {
        DataType::UInt64
    }
}

/// The narrowest signed type of at least `bits` bits; past 64 bits, a 64-bit float.
pub open spec fn signed_of(bits: nat) -> DataType {
    if bits <= 8 {
        DataType::Int8
    } else if bits <= 16 {
        DataType::Int16
    } else if bits <= 32 {
        DataType::Int32
    } else if bits <= 64 {
        DataType::Int64
    } else {
        DataType::Float64
    }
}

/// Join of two distinct numeric types.
pub open spec fn numeric_join(a: DataType, b: DataType) -> DataType {
    if is_float(a) || is_float(b) {
        if max_nat(float_bits(a), float_bits(b)) <= 32 {
            DataType::Float32
        } else {
            DataType::Float64
        }
    } else if !is_signed(a) && !is_signed(b) {
        unsigned_of(max_nat(int_bits(a), int_bits(b)))
    } else {
        signed_of(max_nat(signed_bits(a), signed_bits(b)))
    }
}

/// The least type that both `a` and `b` promote to, if the lattice has one.
/// `Null` promotes to every type; strings join only with strings.
pub open spec fn supertype(a: DataType, b: DataType) -> Option<DataType> {
    if a == b {
        Some(a)
    } else if a is Null {
        Some(b)
    } else if b is Null {
        Some(a)
    } else if a is Utf8 || b is Utf8 {
        None
    } else {
        Some(numeric_join(a, b))
    }
}

/// Left fold of `supertype` over `ts`, starting from `first`; fails at the
/// first pair without a join.
pub open spec fn supertype_all(first: DataType, ts: Seq<DataType>) -> Option<DataType>
    decreases ts.len(),
{
    if ts.len() == 0 {
        Some(first)
    } else {
        match supertype_all(first, ts.drop_last()) {
            Some(acc) => supertype(ts.last(), acc),
            None => None,
        }
    }
}

/// Supertype resolution does not depend on the order of its arguments.
pub proof fn lemma_supertype_commutative(a: DataType, b: DataType)
    ensures
        supertype(a, b) == supertype(b, a),
{
}

/// The join is an upper bound: both arguments promote to it.
pub proof fn lemma_supertype_upper_bound(a: DataType, b: DataType)
    requires
        supertype(a, b) is Some,
    ensures
        supertype(a, supertype(a, b)->0) == supertype(a, b),
        supertype(b, supertype(a, b)->0) == supertype(a, b),
{
}

/// Promotion is transitive: a type that promotes to `b` promotes to every
/// type that `b` promotes to.
pub proof fn lemma_promotion_transitive(x: DataType, b: DataType, c: DataType)
    requires
        supertype(x, b) == Some(b),
        supertype(b, c) == Some(c),
    ensures
        supertype(x, c) == Some(c),
{
}

/// Every type in the fold promotes to its result.
pub proof fn lemma_supertype_all_upper_bound(first: DataType, ts: Seq<DataType>)
    requires
        supertype_all(first, ts) is Some,
    ensures
        supertype(first, supertype_all(first, ts)->0) == supertype_all(first, ts),
        forall|i: int| 0 <= i < ts.len() ==> supertype(#[trigger] ts[i], supertype_all(first, ts)->0) == supertype_all(first, ts),
    decreases ts.len(),
{
    if ts.len() > 0 {
        let prev = ts.drop_last();
        lemma_supertype_all_upper_bound(first, prev);
        let acc = supertype_all(first, prev)->0;
        let t = supertype(ts.last(), acc)->0;
        lemma_supertype_upper_bound(ts.last(), acc);
        lemma_supertype_commutative(acc, ts.last());
        lemma_promotion_transitive(first, acc, t);
        assert forall|i: int| 0 <= i < ts.len() implies supertype(#[trigger] ts[i], t) == Some(t) by {
            if i < ts.len() - 1 {
                assert(ts[i] == prev[i]);
                lemma_promotion_transitive(ts[i], acc, t);
            }
        }
    }
}

fn is_float_exec(t: DataType) -> (r: bool)
    ensures
        r == is_float(t),
{
    matches!(t, DataType::Float32 | DataType::Float64)
}

fn is_signed_exec(t: DataType) -> (r: bool)
    ensures
        r == is_signed(t),
{
    matches!(t, DataType::Int8 | DataType::Int16 | DataType::Int32 | DataType::Int64)
}

fn int_bits_exec(t: DataType) -> (r: u32)
    ensures
        r == int_bits(t),
{
    match t {
        DataType::Boolean => 1,
        DataType::UInt8 | DataType::Int8 => 8,
        DataType::UInt16 | DataType::Int16 => 16,
        DataType::UInt32 | DataType::Int32 => 32,
        _ => 64,
    }
}

fn float_bits_exec(t: DataType) -> (r: u32)
    ensures
        r == float_bits(t),
{
    match t {
        DataType::Float64 => 64,
        DataType::Float32 => 32,
        _ => if int_bits_exec(t) <= 16 { 32 } else { 64 },
    }
}

fn signed_bits_exec(t: DataType) -> (r: u32)
    ensures
        r == signed_bits(t),
{
    if is_signed_exec(t) { int_bits_exec(t) } else { 2 * int_bits_exec(t) }
}

fn max_u32(a: u32, b: u32) -> (r: u32)
    ensures
        r == max_nat(a as nat, b as nat),
{
    if a >= b { a } else { b }
}

fn numeric_join_exec(a: DataType, b: DataType) -> (r: DataType)
    ensures
        r == numeric_join(a, b),
{
    if is_float_exec(a) || is_float_exec(b) {
        if max_u32(float_bits_exec(a), float_bits_exec(b)) <= 32 {
            DataType::Float32
        } else {
            DataType::Float64
        }
    } else if !is_signed_exec(a) && !is_signed_exec(b) {
        let bits = max_u32(int_bits_exec(a), int_bits_exec(b));
        if bits <= 8 {
            DataType::UInt8
        } else if bits <= 16 {
            DataType::UInt16
        } else if bits <= 32 {
            DataType::UInt32
        } else {
            DataType::UInt64
        }
    } else {
        let bits = max_u32(signed_bits_exec(a), signed_bits_exec(b));
        if bits <= 8 {
            DataType::Int8
        } else if bits <= 16 {
            DataType::Int16
        } else if bits <= 32 {
            DataType::Int32
        } else if bits <= 64 {
            DataType::Int64
        } else {
            DataType::Float64
        }
    }
}

/// The least common supertype of `a` and `b`, or `None` where the lattice
/// defines no join.
pub fn get_supertype(a: DataType, b: DataType) -> (r: Option<DataType>)
    ensures
        r == supertype(a, b),
{
    if a == b {
        Some(a)
    } else if matches!(a, DataType::Null) {
        Some(b)
    } else if matches!(b, DataType::Null) {
        Some(a)
    } else if matches!(a, DataType::Utf8) || matches!(b, DataType::Utf8) {
        None
    } else {
        Some(numeric_join_exec(a, b))
    }
}

} // verus!
