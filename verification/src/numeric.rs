//! The numbers a grid is made of: exact integers of a fixed width.
use vstd::prelude::*;

verus! {

/// A number type for coordinates and cell values.
///
/// Every value stands for a mathematical integer, `value()`, and the type
/// holds exactly the integers from `lowest()` to `highest()`.
pub trait Numerical: Copy + Sized {
    /// The integer this number stands for.
    spec fn value(self) -> int;

    /// The smallest integer the type holds.
    spec fn lowest() -> int;

    /// The largest integer the type holds.
    spec fn highest() -> int;

    /// The name under which the type is reported in errors.
    spec fn name() -> Seq<char>;

    /// Every number lies within the type's bounds, and two numbers that stand
    /// for the same integer are the same number.
    proof fn value_is_faithful(a: Self, b: Self)
        ensures
            Self::lowest() <= a.value() <= Self::highest(),
            Self::lowest() <= b.value() <= Self::highest(),
            a.value() == b.value() ==> a == b,
    ;

    /// The type holds zero, and a wide integer holds whatever the type holds.
    proof fn range_is_wide()
        ensures
            i128::MIN <= Self::lowest() <= 0 <= Self::highest() <= i128::MAX,
    ;

    /// The number as a wide integer.
    fn widen(self) -> (wide: i128)
        ensures
            wide == self.value(),
    ;

    /// The number that stands for `wide`, if the type holds it.
    fn narrow(wide: i128) -> (number: Option<Self>)
        ensures
            number is Some <==> Self::lowest() <= wide <= Self::highest(),
            number matches Some(n) ==> n.value() == wide,
    ;

    /// The number that stands for a count, if the type holds it.
    fn from_usize(count: usize) -> (number: Option<Self>)
        ensures
            number is Some <==> count <= Self::highest(),
            number matches Some(n) ==> n.value() == count,
    ;

    /// The number as a count, if it is not negative and fits.
    fn to_usize(self) -> (count: Option<usize>)
        ensures
            count is Some <==> 0 <= self.value() <= usize::MAX,
            count matches Some(c) ==> c == self.value(),
    ;

    /// The name under which the type is reported in errors.
    fn label() -> (name: &'static str)
        ensures
            name@ == Self::name(),
    ;

    /// Whether the type holds negative numbers.
    fn is_signed() -> (signed: bool)
        ensures
            signed == (Self::lowest() < 0),
    ;
}

/// Whether the type `T` holds the integer `v`.
pub open spec fn representable<T: Numerical>(v: int) -> bool {
    T::lowest() <= v <= T::highest()
}

/// `<i16 as num_traits::NumCast>::from` on a `usize`: the same integer as an
/// `i16`, or nothing where it lies above `i16::MAX`.
#[verifier::external_body]
fn i16_from_usize(count: usize) -> (number: Option<i16>)
    ensures
        number is Some <==> count <= i16::MAX,
        number matches Some(n) ==> n == count,
{
    num_traits::NumCast::from(count)
}

/// `<usize as num_traits::NumCast>::from` on an `i16`: the same integer as a
/// `usize`, or nothing where it is negative or lies above `usize::MAX`.
#[verifier::external_body]
fn usize_from_i16(number: i16) -> (count: Option<usize>)
    ensures
        count is Some <==> 0 <= number <= usize::MAX,
        count matches Some(c) ==> c == number,
{
    num_traits::NumCast::from(number)
}

impl Numerical for i16 {
    open spec fn value(self) -> int {
        self as int
    }

    open spec fn lowest() -> int {
        i16::MIN as int
    }

    open spec fn highest() -> int {
        i16::MAX as int
    }

    open spec fn name() -> Seq<char> {
        "i16"@
    }

    proof fn value_is_faithful(a: Self, b: Self) {
    }

    proof fn range_is_wide() {
    }

    fn widen(self) -> (wide: i128) {
        self as i128
    }

    fn narrow(wide: i128) -> (number: Option<Self>) {
        if i16::MIN as i128 <= wide && wide <= i16::MAX as i128 {
            Some(wide as i16)
        } else {
            None
        }
    }

    fn from_usize(count: usize) -> (number: Option<Self>) {
        i16_from_usize(count)
    }

    fn to_usize(self) -> (count: Option<usize>) {
        usize_from_i16(self)
    }

    fn label() -> (name: &'static str) {
        "i16"
    }

    fn is_signed() -> (signed: bool) {
        true
    }
}

/// `<i32 as num_traits::NumCast>::from` on a `usize`: the same integer as an
/// `i32`, or nothing where it lies above `i32::MAX`.
#[verifier::external_body]
fn i32_from_usize(count: usize) -> (number: Option<i32>)
    ensures
        number is Some <==> count <= i32::MAX,
        number matches Some(n) ==> n == count,
{
    num_traits::NumCast::from(count)
}

/// `<usize as num_traits::NumCast>::from` on an `i32`: the same integer as a
/// `usize`, or nothing where it is negative or lies above `usize::MAX`.
#[verifier::external_body]
fn usize_from_i32(number: i32) -> (count: Option<usize>)
    ensures
        count is Some <==> 0 <= number <= usize::MAX,
        count matches Some(c) ==> c == number,
{
    num_traits::NumCast::from(number)
}

impl Numerical for i32 {
    open spec fn value(self) -> int {
        self as int
    }

    open spec fn lowest() -> int {
        i32::MIN as int
    }

    open spec fn highest() -> int {
        i32::MAX as int
    }

    open spec fn name() -> Seq<char> {
        "i32"@
    }

    proof fn value_is_faithful(a: Self, b: Self) {
    }

    proof fn range_is_wide() {
    }

    fn widen(self) -> (wide: i128) {
        self as i128
    }

    fn narrow(wide: i128) -> (number: Option<Self>) {
        if i32::MIN as i128 <= wide && wide <= i32::MAX as i128 {
            Some(wide as i32)
        } else {
            None
        }
    }

    fn from_usize(count: usize) -> (number: Option<Self>) {
        i32_from_usize(count)
    }

    fn to_usize(self) -> (count: Option<usize>) {
        usize_from_i32(self)
    }

    fn label() -> (name: &'static str) {
        "i32"
    }

    fn is_signed() -> (signed: bool) {
        true
    }
}

/// `<i64 as num_traits::NumCast>::from` on a `usize`: the same integer as an
/// `i64`, or nothing where it lies above `i64::MAX`.
#[verifier::external_body]
fn i64_from_usize(count: usize) -> (number: Option<i64>)
    ensures
        number is Some <==> count <= i64::MAX,
        number matches Some(n) ==> n == count,
{
    num_traits::NumCast::from(count)
}

/// `<usize as num_traits::NumCast>::from` on an `i64`: the same integer as a
/// `usize`, or nothing where it is negative or lies above `usize::MAX`.
#[verifier::external_body]
fn usize_from_i64(number: i64) -> (count: Option<usize>)
    ensures
        count is Some <==> 0 <= number <= usize::MAX,
        count matches Some(c) ==> c == number,
{
    num_traits::NumCast::from(number)
}

impl Numerical for i64 {
    open spec fn value(self) -> int {
        self as int
    }

    open spec fn lowest() -> int {
        i64::MIN as int
    }

    open spec fn highest() -> int {
        i64::MAX as int
    }

    open spec fn name() -> Seq<char> {
        "i64"@
    }

    proof fn value_is_faithful(a: Self, b: Self) {
    }

    proof fn range_is_wide() {
    }

    fn widen(self) -> (wide: i128) {
        self as i128
    }

    fn narrow(wide: i128) -> (number: Option<Self>) {
        if i64::MIN as i128 <= wide && wide <= i64::MAX as i128 {
            Some(wide as i64)
        } else {
            None
        }
    }

    fn from_usize(count: usize) -> (number: Option<Self>) {
        i64_from_usize(count)
    }

    fn to_usize(self) -> (count: Option<usize>) {
        usize_from_i64(self)
    }

    fn label() -> (name: &'static str) {
        "i64"
    }

    fn is_signed() -> (signed: bool) {
        true
    }
}

/// `<i128 as num_traits::NumCast>::from` on a `usize`: the same integer as an
/// `i128`, or nothing where it lies above `i128::MAX`.
#[verifier::external_body]
fn i128_from_usize(count: usize) -> (number: Option<i128>)
    ensures
        number is Some <==> count <= i128::MAX,
        number matches Some(n) ==> n == count,
{
    num_traits::NumCast::from(count)
}

/// `<usize as num_traits::NumCast>::from` on an `i128`: the same integer as a
/// `usize`, or nothing where it is negative or lies above `usize::MAX`.
#[verifier::external_body]
fn usize_from_i128(number: i128) -> (count: Option<usize>)
    ensures
        count is Some <==> 0 <= number <= usize::MAX,
        count matches Some(c) ==> c == number,
{
    num_traits::NumCast::from(number)
}

impl Numerical for i128 {
    open spec fn value(self) -> int {
        self as int
    }

    open spec fn lowest() -> int {
        i128::MIN as int
    }

    open spec fn highest() -> int {
        i128::MAX as int
    }

    open spec fn name() -> Seq<char> {
        "i128"@
    }

    proof fn value_is_faithful(a: Self, b: Self) {
    }

    proof fn range_is_wide() {
    }

    fn widen(self) -> (wide: i128) {
        self as i128
    }

    fn narrow(wide: i128) -> (number: Option<Self>) {
        if i128::MIN as i128 <= wide && wide <= i128::MAX as i128 {
            Some(wide as i128)
        } else {
            None
        }
    }

    fn from_usize(count: usize) -> (number: Option<Self>) {
        i128_from_usize(count)
    }

    fn to_usize(self) -> (count: Option<usize>) {
        usize_from_i128(self)
    }

    fn label() -> (name: &'static str) {
        "i128"
    }

    fn is_signed() -> (signed: bool) {
        true
    }
}

/// `<usize as num_traits::NumCast>::from` on a `usize`: the same count, always.
#[verifier::external_body]
fn usize_from_usize(count: usize) -> (same: Option<usize>)
    ensures
        same == Some(count),
{
    num_traits::NumCast::from(count)
}

impl Numerical for usize {
    open spec fn value(self) -> int {
        self as int
    }

    open spec fn lowest() -> int {
        0
    }

    open spec fn highest() -> int {
        usize::MAX as int
    }

    open spec fn name() -> Seq<char> {
        "usize"@
    }

    proof fn value_is_faithful(a: Self, b: Self) {
    }

    proof fn range_is_wide() {
    }

    fn widen(self) -> (wide: i128) {
        self as i128
    }

    fn narrow(wide: i128) -> (number: Option<Self>) {
        if 0 <= wide && wide <= usize::MAX as i128 {
            Some(wide as usize)
        } else {
            None
        }
    }

    fn from_usize(count: usize) -> (number: Option<Self>) {
        usize_from_usize(count)
    }

    fn to_usize(self) -> (count: Option<usize>) {
        usize_from_usize(self)
    }

    fn label() -> (name: &'static str) {
        "usize"
    }

    fn is_signed() -> (signed: bool) {
        false
    }
}

/// The sum of two numbers, if the type holds it.
pub fn checked_sum<T: Numerical>(a: T, b: T) -> (sum: Option<T>)
    ensures
        sum is Some <==> representable::<T>(a.value() + b.value()),
        sum matches Some(s) ==> s.value() == a.value() + b.value(),
{
    match a.widen().checked_add(b.widen()) {
        Some(wide) => T::narrow(wide),
        None => {
            proof {
                T::range_is_wide();
            }
            None
        },
    }
}

/// The difference of two numbers, if the type holds it.
pub fn checked_difference<T: Numerical>(a: T, b: T) -> (difference: Option<T>)
    ensures
        difference is Some <==> representable::<T>(a.value() - b.value()),
        difference matches Some(d) ==> d.value() == a.value() - b.value(),
{
    match a.widen().checked_sub(b.widen()) {
        Some(wide) => T::narrow(wide),
        None => {
            proof {
                T::range_is_wide();
            }
            None
        },
    }
}

/// The product of two numbers, if the type holds it.
pub fn checked_product<T: Numerical>(a: T, b: T) -> (product: Option<T>)
    ensures
        product is Some <==> representable::<T>(a.value() * b.value()),
        product matches Some(p) ==> p.value() == a.value() * b.value(),
{
    match a.widen().checked_mul(b.widen()) {
        Some(wide) => T::narrow(wide),
        None => {
            proof {
                T::range_is_wide();
            }
            None
        },
    }
}

/// Half of a positive number, rounded down.
pub(crate) fn half<T: Numerical>(a: T) -> (h: T)
    requires
        a.value() > 0,
    ensures
        h.value() == a.value() / 2,
{
    proof {
        T::value_is_faithful(a, a);
        T::range_is_wide();
    }
    let wide: i128 = a.widen() / 2;
    T::narrow(wide).unwrap()
}

/// The quotient of a number that is not negative by a positive one, rounded
/// down.
pub(crate) fn quotient<T: Numerical>(a: T, b: T) -> (q: T)
    requires
        a.value() >= 0,
        b.value() > 0,
    ensures
        q.value() == a.value() / b.value(),
{
    proof {
        T::value_is_faithful(a, b);
        T::range_is_wide();
        quotient_is_bounded(a.value(), b.value());
    }
    let wide: i128 = a.widen() / b.widen();
    T::narrow(wide).unwrap()
}

/// Dividing a number that is not negative by a positive one gives a number
/// between zero and the first.
pub proof fn quotient_is_bounded(a: int, b: int)
    requires
        a >= 0,
        b > 0,
    ensures
        0 <= a / b <= a,
{
    assert(0 <= a / b <= a) by (nonlinear_arith)
        requires
            a >= 0,
            b > 0,
    ;
}

/// Whether the first number is below the second.
pub fn below<T: Numerical>(a: T, b: T) -> (less: bool)
    ensures
        less == (a.value() < b.value()),
{
    a.widen() < b.widen()
}

} // verus!
