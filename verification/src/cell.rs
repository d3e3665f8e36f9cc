//! The values that a column of the database can have, and their order.

use vstd::arithmetic::power2::*;
use vstd::prelude::*;
use vstd::utf8::*;

verus! {

/// The kind of a value in a column.
#[derive(Debug, Clone, Copy, PartialEq, Eq)]
pub enum ColumnType {
    Null,
    Integer,
    Real,
    Text,
    Blob,
}

/// A value in a column.
#[derive(Debug, Clone, PartialEq, Eq)]
pub enum Cell {
    Null,
    Integer(i64),
    /// A number in the 64 bits of IEEE 754.
    Real(u64),
    /// The bytes of a text. Nothing says that they are UTF-8.
    Text(Vec<u8>),
    Blob(Vec<u8>),
}

/// The value of a `Cell`.
#[verifier::ext_equal]
pub enum Datum {
    Null,
    Integer(int),
    Real(u64),
    Text(Seq<u8>),
    Blob(Seq<u8>),
}

impl View for Cell {
    type V = Datum;

    open spec fn view(&self) -> Datum {
        match self {
            Cell::Null => Datum::Null,
            Cell::Integer(n) => Datum::Integer(*n as int),
            Cell::Real(bits) => Datum::Real(*bits),
            Cell::Text(bytes) => Datum::Text(bytes@),
            Cell::Blob(bytes) => Datum::Blob(bytes@),
        }
    }
}

/// The kind of a value.
pub open spec fn kind(value: Datum) -> ColumnType {
    match value {
        Datum::Null => ColumnType::Null,
        Datum::Integer(_) => ColumnType::Integer,
        Datum::Real(_) => ColumnType::Real,
        Datum::Text(_) => ColumnType::Text,
        Datum::Blob(_) => ColumnType::Blob,
    }
}

/// Whether a value is the given text.
pub open spec fn is_text(value: Datum, text: Seq<char>) -> bool {
    value == Datum::Text(encode_utf8(text))
}

/// Whether a value is a number.
pub open spec fn is_number(value: Datum) -> bool {
    value is Integer || value is Real
}

/// The bits of a real number that say its exponent.
pub open spec fn exponent(bits: u64) -> int {
    (bits as int / 0x10_0000_0000_0000) % 0x800
}

/// The bits of a real number that say its fraction.
pub open spec fn fraction(bits: u64) -> int {
    bits as int % 0x10_0000_0000_0000
}

/// How far a real number is from zero, in units of the least real number above it.
pub open spec fn real_size(bits: u64) -> int {
    if exponent(bits) == 0 {
        fraction(bits)
    } else {
        (0x10_0000_0000_0000 + fraction(bits)) * pow2((exponent(bits) - 1) as nat)
    }
}

/// What a number is, in units of the least real number above zero; an infinity is
/// what lies beyond every other number.
pub open spec fn amount(value: Datum) -> int {
    match value {
        Datum::Integer(n) => n * pow2(1074),
        Datum::Real(bits) => if bits >= 0x8000_0000_0000_0000 {
            -real_size(bits)
        } else {
            real_size(bits)
        },
        _ => 0,
    }
}

/// Whether a value is a number, and the given one.
pub open spec fn equals_number(value: Datum, n: int) -> bool {
    is_number(value) && amount(value) == amount(Datum::Integer(n))
}

/// The place of a kind in the order of values: nothing, numbers, texts, bytes.
pub open spec fn rank(value: Datum) -> int {
    match value {
        Datum::Null => 0,
        Datum::Integer(_) | Datum::Real(_) => 1,
        Datum::Text(_) => 2,
        Datum::Blob(_) => 3,
    }
}

/// The bytes of a text or of bytes.
pub open spec fn bytes_of(value: Datum) -> Seq<u8> {
    match value {
        Datum::Text(bytes) => bytes,
        Datum::Blob(bytes) => bytes,
        _ => Seq::empty(),
    }
}

/// The order of bytes: by the first that differs, and then by length.
pub open spec fn bytes_before(a: Seq<u8>, b: Seq<u8>) -> bool
    decreases a.len(),
{
    if b.len() == 0 {
        false
    } else if a.len() == 0 {
        true
    } else {
        a[0] < b[0] || (a[0] == b[0] && bytes_before(a.drop_first(), b.drop_first()))
    }
}

/// Whether a value comes before another in the order of values.
pub open spec fn before(a: Datum, b: Datum) -> bool {
    rank(a) < rank(b) || (rank(a) == rank(b) && (amount(a) < amount(b) || (amount(a) == amount(b)
        && bytes_before(bytes_of(a), bytes_of(b)))))
}

/// Whether two values have one place in the order of values.
pub open spec fn ties(a: Datum, b: Datum) -> bool {
    rank(a) == rank(b) && amount(a) == amount(b) && bytes_of(a) == bytes_of(b)
}

/// How two things stand in an order.
#[derive(Debug, Clone, Copy, PartialEq, Eq)]
pub enum Order {
    Less,
    Equal,
    Greater,
}

/// How two numbers stand in their order.
pub open spec fn order_of(a: int, b: int) -> Order {
    if a < b {
        Order::Less
    } else if a == b {
        Order::Equal
    } else {
        Order::Greater
    }
}

proof fn lemma_bytes_total(a: Seq<u8>, b: Seq<u8>)
    ensures
        bytes_before(a, b) ==> !bytes_before(b, a) && a != b,
        !bytes_before(a, b) && !bytes_before(b, a) ==> a == b,
    decreases a.len(),
{
    if a.len() > 0 && b.len() > 0 {
        lemma_bytes_total(a.drop_first(), b.drop_first());
        if a[0] == b[0] && a.drop_first() == b.drop_first() {
            assert(a == seq![a[0]] + a.drop_first());
            assert(b == seq![b[0]] + b.drop_first());
        }
    } else if a.len() == 0 && b.len() == 0 {
        assert(a == b);
    }
}

proof fn lemma_bytes_chain(a: Seq<u8>, b: Seq<u8>, c: Seq<u8>)
    requires
        bytes_before(a, b),
        bytes_before(b, c),
    ensures
        bytes_before(a, c),
    decreases a.len(),
{
    if a.len() > 0 && a[0] == b[0] && b[0] == c[0] {
        lemma_bytes_chain(a.drop_first(), b.drop_first(), c.drop_first());
    }
}

/// Of two values one comes before the other, or they have one place, and no two of
/// these hold.
pub proof fn values_are_ordered(a: Datum, b: Datum)
    ensures
        before(a, b) || ties(a, b) || before(b, a),
        before(a, b) ==> !before(b, a) && !ties(a, b),
{
    lemma_bytes_total(bytes_of(a), bytes_of(b));
    lemma_bytes_total(bytes_of(b), bytes_of(a));
}

/// What comes before a value comes before all that follow it.
pub proof fn order_is_a_chain(a: Datum, b: Datum, c: Datum)
    requires
        before(a, b),
        before(b, c),
    ensures
        before(a, c),
{
    if bytes_before(bytes_of(a), bytes_of(b)) && bytes_before(bytes_of(b), bytes_of(c)) {
        lemma_bytes_chain(bytes_of(a), bytes_of(b), bytes_of(c));
    }
}

/// Whole numbers are ordered as numbers.
pub proof fn integers_are_ordered(a: int, b: int)
    ensures
        before(Datum::Integer(a), Datum::Integer(b)) == (a < b),
        ties(Datum::Integer(a), Datum::Integer(b)) == (a == b),
        equals_number(Datum::Integer(a), b) == (a == b),
{
    lemma_pow2_pos(1074);
    lemma_scaled(a, b, pow2(1074) as int);
}

proof fn lemma_scaled(a: int, b: int, unit: int)
    requires
        unit > 0,
    ensures
        order_of(a * unit, b * unit) == order_of(a, b),
{
    assert(a < b ==> a * unit < b * unit) by (nonlinear_arith)
        requires
            unit > 0,
    ;
    assert(b < a ==> b * unit < a * unit) by (nonlinear_arith)
        requires
            unit > 0,
    ;
}

/// The kind of a value.
pub fn kind_of(cell: &Cell) -> (ty: ColumnType)
    ensures
        ty == kind(cell@),
{
    match cell {
        Cell::Null => ColumnType::Null,
        Cell::Integer(_) => ColumnType::Integer,
        Cell::Real(_) => ColumnType::Real,
        Cell::Text(_) => ColumnType::Text,
        Cell::Blob(_) => ColumnType::Blob,
    }
}

pub(crate) fn same_bytes(a: &[u8], b: &[u8]) -> (equal: bool)
    ensures
        equal == (a@ == b@),
{
    if a.len() != b.len() {
        return false;
    }
    let mut i: usize = 0;
    while i < a.len()
        invariant
            a@.len() == b@.len(),
            i <= a@.len(),
            forall|j: int| 0 <= j < i ==> a@[j] == b@[j],
        decreases a@.len() - i,
    {
        if a[i] != b[i] {
            return false;
        }
        i = i + 1;
    }
    assert(a@ == b@);
    true
}

/// Whether a value is the given text.
pub fn cell_is_text(cell: &Cell, text: &str) -> (r: bool)
    ensures
        r == is_text(cell@, text@),
{
    match cell {
        Cell::Text(bytes) => same_bytes(bytes.as_slice(), text.as_bytes()),
        _ => false,
    }
}

/// The cell that holds the given text.
pub fn text_cell(text: &str) -> (cell: Cell)
    ensures
        cell@ == Datum::Text(encode_utf8(text@)),
{
    Cell::Text(vstd::slice::slice_to_vec(text.as_bytes()))
}

fn power(k: u64) -> (p: u128)
    requires
        k < 64,
    ensures
        p == pow2(k as nat),
        p < 0x1_0000_0000_0000_0000,
{
    let mut p: u128 = 1;
    let mut i: u64 = 0;
    proof {
        lemma2_to64();
        lemma2_to64_rest();
    }
    while i < k
        invariant
            i <= k < 64,
            p == pow2(i as nat),
            p < 0x1_0000_0000_0000_0000,
        decreases k - i,
    {
        proof {
            lemma_pow2_unfold((i + 1) as nat);
            lemma2_to64();
            lemma2_to64_rest();
            if i + 1 < 63 {
                lemma_pow2_strictly_increases((i + 1) as nat, 63);
            }
        }
        p = p * 2;
        i = i + 1;
    }
    p
}

/// How `a` stands to `b`, the first of them taken `shift` times twice.
fn order_shifted(a: u64, shift: u64, b: u64) -> (order: Order)
    ensures
        order == order_of(a * pow2(shift as nat), b as int),
{
    proof {
        lemma_pow2_pos(shift as nat);
    }
    if a == 0 {
        assert(0 * pow2(shift as nat) == 0) by (nonlinear_arith);
        return if b == 0 {
            Order::Equal
        } else {
            Order::Less
        };
    }
    if shift >= 64 {
        proof {
            lemma2_to64();
            if shift > 64 {
                lemma_pow2_strictly_increases(64, shift as nat);
            }
            let p = pow2(shift as nat);
            assert(a * p >= p) by (nonlinear_arith)
                requires
                    a >= 1,
                    p > 0,
            ;
        }
        return Order::Greater;
    }
    let p: u128 = power(shift);
    assert(a * p <= 0xffff_ffff_ffff_ffff * 0xffff_ffff_ffff_ffff) by (nonlinear_arith)
        requires
            0 <= a <= 0xffff_ffff_ffff_ffff,
            0 <= p <= 0xffff_ffff_ffff_ffff,
    ;
    let left: u128 = (a as u128) * p;
    let right: u128 = b as u128;
    if left < right {
        Order::Less
    } else if left == right {
        Order::Equal
    } else {
        Order::Greater
    }
}

/// A number as its sign and as a whole number that is taken twice again and again.
fn parts_of(cell: &Cell) -> (parts: (bool, u64, u64))
    requires
        is_number(cell@),
    ensures
        amount(cell@) == (if parts.0 {
            -(parts.1 * pow2(parts.2 as nat))
        } else {
            parts.1 * pow2(parts.2 as nat)
        }),
{
    match cell {
        Cell::Integer(n) => {
            let negative: bool = *n < 0;
            let wide: i128 = *n as i128;
            let size: u64 = if negative {
                (-wide) as u64
            } else {
                wide as u64
            };
            proof {
                let unit = pow2(1074);
                assert((-size) * unit == -(size * unit)) by (nonlinear_arith);
            }
            (negative, size, 1074)
        },
        Cell::Real(bits) => {
            let negative: bool = *bits >= 0x8000_0000_0000_0000;
            let exponent: u64 = (*bits / 0x10_0000_0000_0000) % 0x800;
            let fraction: u64 = *bits % 0x10_0000_0000_0000;
            proof {
                lemma2_to64();
            }
            if exponent == 0 {
                assert(fraction * 1 == fraction);
                (negative, fraction, 0)
            } else {
                (negative, 0x10_0000_0000_0000 + fraction, exponent - 1)
            }
        },
        _ => (false, 0, 0),
    }
}

proof fn lemma_shift(a: u64, e: u64, b: u64, f: u64)
    requires
        e >= f,
    ensures
        order_of(a * pow2(e as nat), b * pow2(f as nat)) == order_of(
            a * pow2((e - f) as nat),
            b as int,
        ),
{
    let unit = pow2(f as nat) as int;
    let rest = pow2((e - f) as nat) as int;
    lemma_pow2_pos(f as nat);
    lemma_pow2_adds((e - f) as nat, f as nat);
    assert(a * (rest * unit) == (a * rest) * unit) by (nonlinear_arith);
    lemma_scaled(a * rest, b as int, unit);
}

fn reverse(order: Order) -> (r: Order)
    ensures
        r == (match order {
            Order::Less => Order::Greater,
            Order::Equal => Order::Equal,
            Order::Greater => Order::Less,
        }),
{
    match order {
        Order::Less => Order::Greater,
        Order::Equal => Order::Equal,
        Order::Greater => Order::Less,
    }
}

/// How two numbers stand in their order.
fn order_numbers(x: &Cell, y: &Cell) -> (order: Order)
    requires
        is_number(x@),
        is_number(y@),
    ensures
        order == order_of(amount(x@), amount(y@)),
{
    let (below, a, e) = parts_of(x);
    let (under, b, f) = parts_of(y);
    let ghost left = a * pow2(e as nat);
    let ghost right = b * pow2(f as nat);
    proof {
        lemma_size_sign(a, e);
        lemma_size_sign(b, f);
    }
    let negative: bool = below && a != 0;
    let other: bool = under && b != 0;
    if negative != other {
        return if negative {
            Order::Less
        } else {
            Order::Greater
        };
    }
    let sizes: Order = if e >= f {
        proof {
            lemma_shift(a, e, b, f);
        }
        order_shifted(a, e - f, b)
    } else {
        proof {
            lemma_shift(b, f, a, e);
        }
        reverse(order_shifted(b, f - e, a))
    };
    assert(sizes == order_of(left, right));
    if negative {
        reverse(sizes)
    } else {
        sizes
    }
}

proof fn lemma_size_sign(a: u64, e: u64)
    ensures
        a == 0 ==> a * pow2(e as nat) == 0,
        a != 0 ==> a * pow2(e as nat) > 0,
{
    let unit = pow2(e as nat) as int;
    lemma_pow2_pos(e as nat);
    assert(a != 0 ==> a * unit > 0) by (nonlinear_arith)
        requires
            unit > 0,
            a >= 0,
    ;
    assert(0 * unit == 0) by (nonlinear_arith);
}

/// How bytes stand in their order.
fn order_bytes(a: &Vec<u8>, b: &Vec<u8>) -> (order: Order)
    ensures
        match order {
            Order::Less => bytes_before(a@, b@),
            Order::Equal => a@ == b@,
            Order::Greater => bytes_before(b@, a@),
        },
{
    let mut i: usize = 0;
    assert(a@.skip(0) == a@ && b@.skip(0) == b@);
    while i < a.len() && i < b.len()
        invariant
            i <= a@.len(),
            i <= b@.len(),
            a@.take(i as int) == b@.take(i as int),
            bytes_before(a@, b@) == bytes_before(a@.skip(i as int), b@.skip(i as int)),
            bytes_before(b@, a@) == bytes_before(b@.skip(i as int), a@.skip(i as int)),
        decreases a@.len() - i,
    {
        if a[i] < b[i] {
            return Order::Less;
        }
        if b[i] < a[i] {
            return Order::Greater;
        }
        assert(a@.skip(i as int).drop_first() == a@.skip(i + 1));
        assert(b@.skip(i as int).drop_first() == b@.skip(i + 1));
        assert(a@.take(i + 1) == a@.take(i as int).push(a@[i as int]));
        assert(b@.take(i + 1) == b@.take(i as int).push(b@[i as int]));
        i = i + 1;
    }
    if i < b.len() {
        Order::Less
    } else if i < a.len() {
        Order::Greater
    } else {
        assert(a@.take(i as int) == a@);
        assert(b@.take(i as int) == b@);
        Order::Equal
    }
}

fn rank_of(cell: &Cell) -> (r: u8)
    ensures
        r == rank(cell@),
{
    match cell {
        Cell::Null => 0,
        Cell::Integer(_) => 1,
        Cell::Real(_) => 1,
        Cell::Text(_) => 2,
        Cell::Blob(_) => 3,
    }
}

/// How two values stand in the order of values.
pub fn order_cells(x: &Cell, y: &Cell) -> (order: Order)
    ensures
        (order == Order::Less) == before(x@, y@),
        (order == Order::Equal) == ties(x@, y@),
        (order == Order::Greater) == before(y@, x@),
{
    proof {
        values_are_ordered(x@, y@);
        values_are_ordered(y@, x@);
    }
    let a: u8 = rank_of(x);
    let b: u8 = rank_of(y);
    if a < b {
        return Order::Less;
    }
    if b < a {
        return Order::Greater;
    }
    match (x, y) {
        (Cell::Text(s), Cell::Text(t)) => order_bytes(s, t),
        (Cell::Blob(s), Cell::Blob(t)) => order_bytes(s, t),
        (Cell::Null, Cell::Null) => Order::Equal,
        _ => order_numbers(x, y),
    }
}

/// Whether a value is a number, and the given one.
pub fn cell_is_number(cell: &Cell, n: i64) -> (r: bool)
    ensures
        r == equals_number(cell@, n as int),
{
    match cell {
        Cell::Integer(_) | Cell::Real(_) => match order_numbers(cell, &Cell::Integer(n)) {
            Order::Equal => true,
            _ => false,
        },
        _ => false,
    }
}

/// Every value has the kind that it was made with.
pub proof fn values_have_their_kind(n: int, bits: u64, bytes: Seq<u8>)
    ensures
        kind(Datum::Null) == ColumnType::Null,
        kind(Datum::Integer(n)) == ColumnType::Integer,
        kind(Datum::Real(bits)) == ColumnType::Real,
        kind(Datum::Text(bytes)) == ColumnType::Text,
        kind(Datum::Blob(bytes)) == ColumnType::Blob,
{
}

/// Nothing comes before every number, every number before every text, and every text
/// before all bytes.
pub proof fn kinds_stand_in_order(number: Datum, s: Seq<u8>, t: Seq<u8>)
    requires
        number is Integer || number is Real,
    ensures
        before(Datum::Null, number),
        before(number, Datum::Text(s)),
        before(Datum::Text(s), Datum::Blob(t)),
        ties(Datum::Null, Datum::Null),
{
}

/// Texts, and bytes, are ordered by the first byte in which they differ, and one that
/// the other starts with comes before that.
pub proof fn bytes_are_ordered_by_the_first_difference(a: Seq<u8>, b: Seq<u8>)
    ensures
        before(Datum::Text(a), Datum::Text(b)) <==> exists|k: int|
            0 <= k <= a.len() && k < b.len() && a.take(k) == #[trigger] b.take(k) && (k == a.len()
                || a[k] < b[k]),
        before(Datum::Blob(a), Datum::Blob(b)) == before(Datum::Text(a), Datum::Text(b)),
        ties(Datum::Text(a), Datum::Text(b)) == (a == b),
        ties(Datum::Blob(a), Datum::Blob(b)) == (a == b),
{
    lemma_first_difference(a, b);
}

proof fn lemma_first_difference(a: Seq<u8>, b: Seq<u8>)
    ensures
        bytes_before(a, b) <==> exists|k: int|
            0 <= k <= a.len() && k < b.len() && a.take(k) == #[trigger] b.take(k) && (k == a.len()
                || a[k] < b[k]),
    decreases a.len(),
{
    if a.len() > 0 && b.len() > 0 && a[0] == b[0] {
        let x = a.drop_first();
        let y = b.drop_first();
        lemma_first_difference(x, y);
        if bytes_before(x, y) {
            let k = choose|k: int|
                0 <= k <= x.len() && k < y.len() && x.take(k) == #[trigger] y.take(k) && (k
                    == x.len() || x[k] < y[k]);
            assert(a.take(k + 1) == seq![a[0]] + x.take(k));
            assert(b.take(k + 1) == seq![b[0]] + y.take(k));
        }
        if exists|k: int|
            0 <= k <= a.len() && k < b.len() && a.take(k) == #[trigger] b.take(k) && (k == a.len()
                || a[k] < b[k]) {
            let k = choose|k: int|
                0 <= k <= a.len() && k < b.len() && a.take(k) == #[trigger] b.take(k) && (k
                    == a.len() || a[k] < b[k]);
            assert(k > 0);
            assert(x.take(k - 1) == a.take(k).drop_first());
            assert(y.take(k - 1) == b.take(k).drop_first());
        }
    } else if a.len() > 0 && b.len() > 0 {
        assert(a.take(0) == b.take(0));
        if a[0] > b[0] {
            assert forall|k: int| 0 < k <= a.len() && k < b.len() implies a.take(k)
                != #[trigger] b.take(k) by {
                assert(a.take(k)[0] == a[0] && b.take(k)[0] == b[0]);
            }
        } else {
            assert(bytes_before(a, b));
        }
    } else if b.len() > 0 {
        assert(a.take(0) == b.take(0));
    }
}

/// What the bits of a real number say. The greatest bit turns the sign. The least
/// numbers are their own bits, in units of the least number above zero. A step in the
/// exponent doubles a number. And the bits of one are those of the whole number one,
/// so that a whole number is as many of that.
pub proof fn bits_say_real_numbers(bits: u64, n: int)
    ensures
        bits < 0x8000_0000_0000_0000 ==> amount(
            Datum::Real((bits + 0x8000_0000_0000_0000) as u64),
        ) == -amount(Datum::Real(bits)),
        bits < 0x20_0000_0000_0000 ==> amount(Datum::Real(bits)) == bits,
        0x10_0000_0000_0000 <= bits < 0x7ff0_0000_0000_0000 ==> amount(
            Datum::Real((bits + 0x10_0000_0000_0000) as u64),
        ) == 2 * amount(Datum::Real(bits)),
        amount(Datum::Integer(n)) == n * amount(Datum::Real(0x3ff0_0000_0000_0000)),
{
    lemma2_to64();
    let negative = (bits + 0x8000_0000_0000_0000) as u64;
    if bits < 0x8000_0000_0000_0000 {
        assert(exponent(negative) == exponent(bits));
        assert(fraction(negative) == fraction(bits));
    }
    if bits < 0x20_0000_0000_0000 {
        if bits >= 0x10_0000_0000_0000 {
            assert(exponent(bits) == 1);
            assert((0x10_0000_0000_0000 + fraction(bits)) * 1 == bits);
        } else {
            assert(exponent(bits) == 0);
        }
    }
    if 0x10_0000_0000_0000 <= bits < 0x7ff0_0000_0000_0000 {
        let more = (bits + 0x10_0000_0000_0000) as u64;
        assert(exponent(more) == exponent(bits) + 1);
        assert(fraction(more) == fraction(bits));
        let e = exponent(bits);
        assert(e >= 1);
        lemma_pow2_unfold(e as nat);
        let unit = pow2((e - 1) as nat);
        let whole = 0x10_0000_0000_0000 + fraction(bits);
        assert(whole * (2 * unit) == 2 * (whole * unit)) by (nonlinear_arith);
    }
    let one = 0x3ff0_0000_0000_0000u64;
    assert(exponent(one) == 1023 && fraction(one) == 0);
    lemma_pow2_adds(52, 1022);
    lemma2_to64_rest();
}

} // verus!
