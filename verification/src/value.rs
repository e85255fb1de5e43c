//! The value domain: a closed set of comparable scalar kinds plus an
//! explicit null marker, with a total order per kind. This module is the
//! only place where ordering is defined; all pruning logic is expressed in
//! terms of it.

use vstd::prelude::*;

verus! {

/// One scalar cell of a column. Nulls are excluded from ordering
/// comparisons; comparing values of different kinds is a caller error.
#[derive(Clone, Debug, PartialEq)]
pub enum Value {
    Null,
    Int8(i8),
    Int16(i16),
    Int32(i32),
    Int64(i64),
    UInt8(u8),
    UInt16(u16),
    UInt32(u32),
    UInt64(u64),
    Utf8(Vec<u8>),
}

/// The mathematical shape of a `Value`: byte strings become sequences, so
/// that two values holding the same bytes are equal as views.
pub enum ValueView {
    Null,
    Int8(i8),
    Int16(i16),
    Int32(i32),
    Int64(i64),
    UInt8(u8),
    UInt16(u16),
    UInt32(u32),
    UInt64(u64),
    Utf8(Seq<u8>),
}

impl View for Value {
    type V = ValueView;

    open spec fn view(&self) -> ValueView {
        match self {
            Value::Null => ValueView::Null,
            Value::Int8(x) => ValueView::Int8(*x),
            Value::Int16(x) => ValueView::Int16(*x),
            Value::Int32(x) => ValueView::Int32(*x),
            Value::Int64(x) => ValueView::Int64(*x),
            Value::UInt8(x) => ValueView::UInt8(*x),
            Value::UInt16(x) => ValueView::UInt16(*x),
            Value::UInt32(x) => ValueView::UInt32(*x),
            Value::UInt64(x) => ValueView::UInt64(*x),
            Value::Utf8(b) => ValueView::Utf8(b@),
        }
    }
}

impl DeepView for Value {
    type V = ValueView;

    open spec fn deep_view(&self) -> ValueView {
        self.view()
    }
}

/// The kind tag of a non-null value; the schema vocabulary of the engine.
#[derive(Clone, Copy, Debug, PartialEq, Eq, Structural)]
pub enum ValueKind {
    Int8,
    Int16,
    Int32,
    Int64,
    UInt8,
    UInt16,
    UInt32,
    UInt64,
    Utf8,
}

/// Outcome of comparing two non-null values of the same kind.
#[derive(Clone, Copy, Debug, PartialEq, Eq, Structural)]
pub enum Cmp {
    Less,
    Equal,
    Greater,
}

pub open spec fn kind_of(v: ValueView) -> Option<ValueKind> {
    match v {
        ValueView::Null => None,
        ValueView::Int8(_) => Some(ValueKind::Int8),
        ValueView::Int16(_) => Some(ValueKind::Int16),
        ValueView::Int32(_) => Some(ValueKind::Int32),
        ValueView::Int64(_) => Some(ValueKind::Int64),
        ValueView::UInt8(_) => Some(ValueKind::UInt8),
        ValueView::UInt16(_) => Some(ValueKind::UInt16),
        ValueView::UInt32(_) => Some(ValueKind::UInt32),
        ValueView::UInt64(_) => Some(ValueKind::UInt64),
        ValueView::Utf8(_) => Some(ValueKind::Utf8),
    }
}

/// Two values can be ordered: same kind, neither null.
pub open spec fn comparable(a: ValueView, b: ValueView) -> bool {
    kind_of(a) is Some && kind_of(a) == kind_of(b)
}

/// Lexicographic order on byte strings.
pub open spec fn lex_le(a: Seq<u8>, b: Seq<u8>) -> bool
    decreases a.len(),
{
    if a.len() == 0 {
        true
    } else if b.len() == 0 {
        false
    } else if a[0] < b[0] {
        true
    } else if a[0] > b[0] {
        false
    } else {
        lex_le(a.skip(1), b.skip(1))
    }
}

/// The column order: `a` at or below `b`. Meaningful only for comparable
/// values.
pub open spec fn val_le(a: ValueView, b: ValueView) -> bool
    recommends
        comparable(a, b),
{
    match (a, b) {
        (ValueView::Int8(x), ValueView::Int8(y)) => x <= y,
        (ValueView::Int16(x), ValueView::Int16(y)) => x <= y,
        (ValueView::Int32(x), ValueView::Int32(y)) => x <= y,
        (ValueView::Int64(x), ValueView::Int64(y)) => x <= y,
        (ValueView::UInt8(x), ValueView::UInt8(y)) => x <= y,
        (ValueView::UInt16(x), ValueView::UInt16(y)) => x <= y,
        (ValueView::UInt32(x), ValueView::UInt32(y)) => x <= y,
        (ValueView::UInt64(x), ValueView::UInt64(y)) => x <= y,
        (ValueView::Utf8(x), ValueView::Utf8(y)) => lex_le(x, y),
        _ => false,
    }
}

pub open spec fn val_lt(a: ValueView, b: ValueView) -> bool {
    val_le(a, b) && a != b
}

pub open spec fn val_min(a: ValueView, b: ValueView) -> ValueView {
    if val_le(a, b) {
        a
    } else {
        b
    }
}

pub open spec fn val_max(a: ValueView, b: ValueView) -> ValueView {
    if val_le(b, a) {
        a
    } else {
        b
    }
}

pub proof fn lemma_lex_le_total(a: Seq<u8>, b: Seq<u8>)
    ensures
        lex_le(a, b) || lex_le(b, a),
    decreases a.len(),
{
    if a.len() == 0 {
    } else if b.len() == 0 {
    } else if a[0] == b[0] {
        lemma_lex_le_total(a.skip(1), b.skip(1));
    }
}

pub proof fn lemma_lex_le_antisymm(a: Seq<u8>, b: Seq<u8>)
    requires
        lex_le(a, b),
        lex_le(b, a),
    ensures
        a == b,
    decreases a.len(),
{
    if a.len() == 0 {
        assert(b.len() == 0);
        assert(a =~= b);
    } else {
        assert(b.len() != 0);
        assert(a[0] == b[0]);
        lemma_lex_le_antisymm(a.skip(1), b.skip(1));
        assert forall|i: int| 0 <= i < a.len() implies a[i] == b[i] by {
            if i > 0 {
                assert(a[i] == a.skip(1)[i - 1]);
                assert(b[i] == b.skip(1)[i - 1]);
            }
        }
        assert(a =~= b);
    }
}

pub proof fn lemma_lex_le_trans(a: Seq<u8>, b: Seq<u8>, c: Seq<u8>)
    requires
        lex_le(a, b),
        lex_le(b, c),
    ensures
        lex_le(a, c),
    decreases a.len(),
{
    if a.len() == 0 {
    } else {
        assert(b.len() != 0);
        assert(c.len() != 0);
        if a[0] == b[0] && b[0] == c[0] {
            lemma_lex_le_trans(a.skip(1), b.skip(1), c.skip(1));
        }
    }
}

/// Totality: comparable values are ordered one way or the other.
pub proof fn lemma_val_le_total(a: ValueView, b: ValueView)
    requires
        comparable(a, b),
    ensures
        val_le(a, b) || val_le(b, a),
{
    match (a, b) {
        (ValueView::Utf8(x), ValueView::Utf8(y)) => lemma_lex_le_total(x, y),
        _ => {},
    }
}

/// Antisymmetry: mutual `val_le` makes views equal.
pub proof fn lemma_val_le_antisymm(a: ValueView, b: ValueView)
    requires
        comparable(a, b),
        val_le(a, b),
        val_le(b, a),
    ensures
        a == b,
{
    match (a, b) {
        (ValueView::Utf8(x), ValueView::Utf8(y)) => lemma_lex_le_antisymm(x, y),
        _ => {},
    }
}

/// Transitivity of the column order.
pub proof fn lemma_val_le_trans(a: ValueView, b: ValueView, c: ValueView)
    requires
        comparable(a, b),
        comparable(b, c),
        val_le(a, b),
        val_le(b, c),
    ensures
        val_le(a, c),
{
    match (a, b, c) {
        (ValueView::Utf8(x), ValueView::Utf8(y), ValueView::Utf8(z)) => {
            lemma_lex_le_trans(x, y, z)
        },
        _ => {},
    }
}

/// Reflexivity: every non-null value sits at itself in the order.
pub proof fn lemma_val_le_refl(a: ValueView)
    requires
        kind_of(a) is Some,
    ensures
        val_le(a, a),
{
    lemma_val_le_total(a, a);
}

/// On comparable values, strict order is the complement of the reverse
/// non-strict order.
pub proof fn lemma_val_lt_complement(a: ValueView, b: ValueView)
    requires
        comparable(a, b),
    ensures
        val_lt(a, b) <==> !val_le(b, a),
{
    lemma_val_le_total(a, b);
    if val_le(a, b) && val_le(b, a) {
        lemma_val_le_antisymm(a, b);
    }
}

proof fn lemma_lex_from_prefix(a: Seq<u8>, b: Seq<u8>, i: int)
    requires
        0 <= i <= a.len(),
        i <= b.len(),
        forall|j: int| 0 <= j < i ==> a[j] == b[j],
    ensures
        i < a.len() && i < b.len() && a[i] < b[i] ==> lex_le(a, b) && !lex_le(b, a),
        i == a.len() ==> lex_le(a, b),
        i == a.len() && i < b.len() ==> !lex_le(b, a),
    decreases i,
{
    if i == 0 {
    } else {
        assert(a[0] == b[0]);
        lemma_lex_from_prefix(a.skip(1), b.skip(1), i - 1);
        assert forall|j: int| 0 <= j < i - 1 implies a.skip(1)[j] == b.skip(1)[j] by {
            assert(a.skip(1)[j] == a[j + 1]);
            assert(b.skip(1)[j] == b[j + 1]);
        }
        if i < a.len() && i < b.len() && a[i] < b[i] {
            assert(a.skip(1)[i - 1] == a[i]);
            assert(b.skip(1)[i - 1] == b[i]);
        }
    }
}

fn lex_compare(a: &Vec<u8>, b: &Vec<u8>) -> (r: Cmp)
    ensures
        r == Cmp::Equal <==> a@ == b@,
        r == Cmp::Less <==> lex_le(a@, b@) && a@ != b@,
        r == Cmp::Greater <==> lex_le(b@, a@) && a@ != b@,
{
    let alen = a.len();
    let blen = b.len();
    let n = if alen < blen {
        alen
    } else {
        blen
    };
    let mut i: usize = 0;
    while i < n
        invariant
            0 <= i <= n,
            n <= a@.len(),
            n <= b@.len(),
            n == alen || n == blen,
            alen == a@.len(),
            blen == b@.len(),
            forall|j: int| 0 <= j < i ==> a@[j] == b@[j],
        decreases n - i,
    {
        let x = a[i];
        let y = b[i];
        if x < y {
            proof {
                lemma_lex_from_prefix(a@, b@, i as int);
            }
            return Cmp::Less;
        }
        if y < x {
            proof {
                lemma_lex_from_prefix(b@, a@, i as int);
            }
            return Cmp::Greater;
        }
        i += 1;
    }
    if alen == blen {
        proof {
            assert(a@ =~= b@);
            lemma_lex_from_prefix(a@, b@, alen as int);
        }
        Cmp::Equal
    } else if alen < blen {
        proof {
            lemma_lex_from_prefix(a@, b@, alen as int);
        }
        Cmp::Less
    } else {
        proof {
            lemma_lex_from_prefix(b@, a@, blen as int);
        }
        Cmp::Greater
    }
}

/// Compare two values under the column order. Defined only over non-null
/// values of the same kind: every other pairing is refused with `None`,
/// which callers surface as a type error.
pub fn compare(a: &Value, b: &Value) -> (r: Option<Cmp>)
    ensures
        r is Some <==> comparable(a@, b@),
        r == Some(Cmp::Less) <==> comparable(a@, b@) && val_lt(a@, b@),
        r == Some(Cmp::Equal) <==> comparable(a@, b@) && a@ == b@,
        r == Some(Cmp::Greater) <==> comparable(a@, b@) && val_lt(b@, a@),
{
    match (a, b) {
        (Value::Int8(x), Value::Int8(y)) => Some(cmp_i8(*x, *y)),
        (Value::Int16(x), Value::Int16(y)) => Some(cmp_i16(*x, *y)),
        (Value::Int32(x), Value::Int32(y)) => Some(cmp_i32(*x, *y)),
        (Value::Int64(x), Value::Int64(y)) => Some(cmp_i64(*x, *y)),
        (Value::UInt8(x), Value::UInt8(y)) => Some(cmp_u8(*x, *y)),
        (Value::UInt16(x), Value::UInt16(y)) => Some(cmp_u16(*x, *y)),
        (Value::UInt32(x), Value::UInt32(y)) => Some(cmp_u32(*x, *y)),
        (Value::UInt64(x), Value::UInt64(y)) => Some(cmp_u64(*x, *y)),
        (Value::Utf8(x), Value::Utf8(y)) => Some(lex_compare(x, y)),
        _ => None,
    }
}

fn cmp_i8(x: i8, y: i8) -> (r: Cmp)
    ensures
        r == Cmp::Less <==> x < y,
        r == Cmp::Equal <==> x == y,
        r == Cmp::Greater <==> x > y,
{
    if x < y {
        Cmp::Less
    } else if x == y {
        Cmp::Equal
    } else {
        Cmp::Greater
    }
}

fn cmp_i16(x: i16, y: i16) -> (r: Cmp)
    ensures
        r == Cmp::Less <==> x < y,
        r == Cmp::Equal <==> x == y,
        r == Cmp::Greater <==> x > y,
{
    if x < y {
        Cmp::Less
    } else if x == y {
        Cmp::Equal
    } else {
        Cmp::Greater
    }
}

fn cmp_i32(x: i32, y: i32) -> (r: Cmp)
    ensures
        r == Cmp::Less <==> x < y,
        r == Cmp::Equal <==> x == y,
        r == Cmp::Greater <==> x > y,
{
    if x < y {
        Cmp::Less
    } else if x == y {
        Cmp::Equal
    } else {
        Cmp::Greater
    }
}

fn cmp_i64(x: i64, y: i64) -> (r: Cmp)
    ensures
        r == Cmp::Less <==> x < y,
        r == Cmp::Equal <==> x == y,
        r == Cmp::Greater <==> x > y,
{
    if x < y {
        Cmp::Less
    } else if x == y {
        Cmp::Equal
    } else {
        Cmp::Greater
    }
}

fn cmp_u8(x: u8, y: u8) -> (r: Cmp)
    ensures
        r == Cmp::Less <==> x < y,
        r == Cmp::Equal <==> x == y,
        r == Cmp::Greater <==> x > y,
{
    if x < y {
        Cmp::Less
    } else if x == y {
        Cmp::Equal
    } else {
        Cmp::Greater
    }
}

fn cmp_u16(x: u16, y: u16) -> (r: Cmp)
    ensures
        r == Cmp::Less <==> x < y,
        r == Cmp::Equal <==> x == y,
        r == Cmp::Greater <==> x > y,
{
    if x < y {
        Cmp::Less
    } else if x == y {
        Cmp::Equal
    } else {
        Cmp::Greater
    }
}

fn cmp_u32(x: u32, y: u32) -> (r: Cmp)
    ensures
        r == Cmp::Less <==> x < y,
        r == Cmp::Equal <==> x == y,
        r == Cmp::Greater <==> x > y,
{
    if x < y {
        Cmp::Less
    } else if x == y {
        Cmp::Equal
    } else {
        Cmp::Greater
    }
}

fn cmp_u64(x: u64, y: u64) -> (r: Cmp)
    ensures
        r == Cmp::Less <==> x < y,
        r == Cmp::Equal <==> x == y,
        r == Cmp::Greater <==> x > y,
{
    if x < y {
        Cmp::Less
    } else if x == y {
        Cmp::Equal
    } else {
        Cmp::Greater
    }
}

pub(crate) fn clone_bytes(v: &Vec<u8>) -> (r: Vec<u8>)
    ensures
        r@ == v@,
{
    let mut r: Vec<u8> = Vec::new();
    let mut i: usize = 0;
    while i < v.len()
        invariant
            0 <= i <= v@.len(),
            r@ == v@.take(i as int),
        decreases v@.len() - i,
    {
        r.push(v[i]);
        i += 1;
        proof {
            assert(r@ =~= v@.take(i as int));
        }
    }
    proof {
        assert(v@.take(v@.len() as int) =~= v@);
    }
    r
}

/// An explicit deep copy whose result is known, at the view level, to equal
/// the source.
pub fn dup(v: &Value) -> (r: Value)
    ensures
        r@ == v@,
{
    match v {
        Value::Null => Value::Null,
        Value::Int8(x) => Value::Int8(*x),
        Value::Int16(x) => Value::Int16(*x),
        Value::Int32(x) => Value::Int32(*x),
        Value::Int64(x) => Value::Int64(*x),
        Value::UInt8(x) => Value::UInt8(*x),
        Value::UInt16(x) => Value::UInt16(*x),
        Value::UInt32(x) => Value::UInt32(*x),
        Value::UInt64(x) => Value::UInt64(*x),
        Value::Utf8(b) => Value::Utf8(clone_bytes(b)),
    }
}

} // verus!
