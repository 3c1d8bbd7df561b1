//! The values that a column can hold.
//!
//! Floating-point values are kept by their bits; what is needed of their arithmetic, the order
//! and the test for a value that is no number, is read off the bits.
use vstd::prelude::*;

use crate::basic::Type;
use crate::byte_order::{bytes_greater, lexicographic_order_is_total, slice_greater};
use crate::errors::ParquetError;
use crate::little_endian::{bytes_are_digits, long_bytes_are_digits, u32_bytes, u32_to_bytes, u64_bytes, u64_to_bytes};

verus! {

/// A type of values that a column can hold.
pub trait ParquetValueType: View + Sized {
    /// How columns store values of this type.
    spec fn type_of() -> Type;

    /// The bytes that stand for a value in statistics and indexes.
    spec fn plain(v: Self::V) -> Seq<u8>;

    /// Whether values of this type have an unsigned reading.
    spec fn unsigned_reading() -> bool;

    /// The unsigned reading of a value, where its type has one.
    spec fn u64_of(v: Self::V) -> u64;

    /// Whether a value differs from itself.
    spec fn is_nan_value(v: Self::V) -> bool;

    /// Whether `a` comes after `b` in the order of the type.
    spec fn after(a: Self::V, b: Self::V) -> bool;

    /// The order is total on the values that do not differ from themselves: "does not come after"
    /// is reflexive, total and transitive there.
    proof fn order_is_total(a: Self::V, b: Self::V, c: Self::V)
        requires
            !Self::is_nan_value(a),
            !Self::is_nan_value(b),
            !Self::is_nan_value(c),
        ensures
            !Self::after(a, a),
            Self::after(a, b) ==> !Self::after(b, a),
            !Self::after(a, b) && !Self::after(b, c) ==> !Self::after(a, c),
    ;

    /// Only floating-point values can differ from themselves.
    proof fn only_floats_are_nan(v: Self::V)
        ensures
            Self::is_nan_value(v) ==> Self::type_of() == Type::FLOAT || Self::type_of()
                == Type::DOUBLE,
    ;

    /// How columns store values of this type.
    fn physical_type() -> (t: Type)
        ensures
            t == Self::type_of(),
    ;

    /// The bytes that stand for the value in statistics and indexes.
    fn as_bytes(&self) -> (bytes: Vec<u8>)
        ensures
            bytes@ == Self::plain(self@),
    ;

    /// Whether values of this type have an unsigned reading.
    fn converts_to_u64() -> (b: bool)
        ensures
            b == Self::unsigned_reading(),
    ;

    /// The unsigned reading of the value, where its type has one.
    fn as_u64(&self) -> (r: Result<u64, ParquetError>)
        ensures
            r is Ok <==> Self::unsigned_reading(),
            r matches Ok(x) ==> x == Self::u64_of(self@),
            r matches Err(e) ==> e is NoUnsignedReading,
    ;

    /// Whether the value differs from itself.
    fn differs_from_itself(&self) -> (b: bool)
        ensures
            b == Self::is_nan_value(self@),
    ;

    /// Whether the value comes after `other` in the order of the type.
    fn greater(&self, other: &Self) -> (b: bool)
        ensures
            b == Self::after(self@, other@),
    ;

    /// Another value equal to this one.
    fn duplicate(&self) -> (copy: Self)
        ensures
            copy@ == self@,
    ;
}

/// The bytes that stand for a value that may be missing.
pub open spec fn plain_opt<T: ParquetValueType>(v: Option<T>) -> Option<Seq<u8>> {
    match v {
        Some(x) => Some(T::plain(x@)),
        None => None,
    }
}

/// What a value that may be missing stands for.
pub open spec fn view_opt<T: View>(v: Option<T>) -> Option<T::V> {
    match v {
        Some(x) => Some(x@),
        None => None,
    }
}

/// Another value equal to one that may be missing.
pub fn duplicate_opt<T: ParquetValueType>(v: &Option<T>) -> (copy: Option<T>)
    ensures
        view_opt(copy) == view_opt(*v),
        plain_opt(copy) == plain_opt(*v),
{
    match v {
        Some(x) => Some(x.duplicate()),
        None => None,
    }
}

/// A timestamp of 96 bits, three words from the least significant on.
#[derive(Clone, Copy, Debug, PartialEq, Eq, Structural)]
pub struct Int96 {
    pub word0: u32,
    pub word1: u32,
    pub word2: u32,
}

impl View for Int96 {
    type V = Int96;

    open spec fn view(&self) -> Int96 {
        *self
    }
}

/// A single precision floating-point value, by its bits.
#[derive(Clone, Copy, Debug, PartialEq, Eq, Structural)]
pub struct Float {
    pub bits: u32,
}

impl View for Float {
    type V = u32;

    open spec fn view(&self) -> u32 {
        self.bits
    }
}

/// A double precision floating-point value, by its bits.
#[derive(Clone, Copy, Debug, PartialEq, Eq, Structural)]
pub struct Double {
    pub bits: u64,
}

impl View for Double {
    type V = u64;

    open spec fn view(&self) -> u64 {
        self.bits
    }
}

/// A byte string.
#[derive(Debug)]
pub struct ByteArray {
    pub data: Vec<u8>,
}

impl View for ByteArray {
    type V = Seq<u8>;

    open spec fn view(&self) -> Seq<u8> {
        self.data@
    }
}

/// A byte string of the length that its column fixes.
#[derive(Debug)]
pub struct FixedLenByteArray {
    pub data: Vec<u8>,
}

impl View for FixedLenByteArray {
    type V = Seq<u8>;

    open spec fn view(&self) -> Seq<u8> {
        self.data@
    }
}

/// The bits of a single precision value without its sign: the greater, the greater the magnitude.
pub open spec fn float_magnitude(bits: u32) -> int {
    bits as int % 0x8000_0000
}

/// Where the single precision value with these bits stands among those that are numbers.
pub open spec fn float_rank(bits: u32) -> int {
    if bits >= 0x8000_0000 {
        -float_magnitude(bits)
    } else {
        float_magnitude(bits)
    }
}

/// Whether these bits are no single precision number: they exceed those of infinity.
pub open spec fn float_is_nan(bits: u32) -> bool {
    float_magnitude(bits) > 0x7f80_0000
}

/// The bits of a double precision value without its sign: the greater, the greater the magnitude.
pub open spec fn double_magnitude(bits: u64) -> int {
    bits as int % 0x8000_0000_0000_0000
}

/// Where the double precision value with these bits stands among those that are numbers.
pub open spec fn double_rank(bits: u64) -> int {
    if bits >= 0x8000_0000_0000_0000 {
        -double_magnitude(bits)
    } else {
        double_magnitude(bits)
    }
}

/// Whether these bits are no double precision number: they exceed those of infinity.
pub open spec fn double_is_nan(bits: u64) -> bool {
    double_magnitude(bits) > 0x7ff0_0000_0000_0000
}

impl ParquetValueType for bool {
    open spec fn type_of() -> Type {
        Type::BOOLEAN
    }

    open spec fn plain(v: bool) -> Seq<u8> {
        seq![if v { 1u8 } else { 0u8 }]
    }

    open spec fn unsigned_reading() -> bool {
        true
    }

    open spec fn u64_of(v: bool) -> u64 {
        if v {
            1
        } else {
            0
        }
    }

    open spec fn is_nan_value(v: bool) -> bool {
        false
    }

    open spec fn after(a: bool, b: bool) -> bool {
        a && !b
    }

    proof fn order_is_total(a: bool, b: bool, c: bool) {
    }

    proof fn only_floats_are_nan(v: bool) {
    }

    fn physical_type() -> (t: Type) {
        Type::BOOLEAN
    }

    fn as_bytes(&self) -> (bytes: Vec<u8>) {
        let mut bytes: Vec<u8> = Vec::new();
        bytes.push(
            if *self {
                1u8
            } else {
                0u8
            },
        );
        bytes
    }

    fn converts_to_u64() -> (b: bool) {
        true
    }

    fn as_u64(&self) -> (r: Result<u64, ParquetError>) {
        Ok(
            if *self {
                1
            } else {
                0
            },
        )
    }

    fn differs_from_itself(&self) -> (b: bool) {
        false
    }

    fn greater(&self, other: &Self) -> (b: bool) {
        *self && !*other
    }

    fn duplicate(&self) -> (copy: Self) {
        *self
    }
}

impl ParquetValueType for i32 {
    open spec fn type_of() -> Type {
        Type::INT32
    }

    open spec fn plain(v: i32) -> Seq<u8> {
        u32_bytes(v as u32)
    }

    open spec fn unsigned_reading() -> bool {
        true
    }

    open spec fn u64_of(v: i32) -> u64 {
        v as i64 as u64
    }

    open spec fn is_nan_value(v: i32) -> bool {
        false
    }

    open spec fn after(a: i32, b: i32) -> bool {
        a > b
    }

    proof fn order_is_total(a: i32, b: i32, c: i32) {
    }

    proof fn only_floats_are_nan(v: i32) {
    }

    fn physical_type() -> (t: Type) {
        Type::INT32
    }

    fn as_bytes(&self) -> (bytes: Vec<u8>) {
        u32_to_bytes(*self as u32)
    }

    fn converts_to_u64() -> (b: bool) {
        true
    }

    fn as_u64(&self) -> (r: Result<u64, ParquetError>) {
        Ok(*self as i64 as u64)
    }

    fn differs_from_itself(&self) -> (b: bool) {
        false
    }

    fn greater(&self, other: &Self) -> (b: bool) {
        *self > *other
    }

    fn duplicate(&self) -> (copy: Self) {
        *self
    }
}

impl ParquetValueType for i64 {
    open spec fn type_of() -> Type {
        Type::INT64
    }

    open spec fn plain(v: i64) -> Seq<u8> {
        u64_bytes(v as u64)
    }

    open spec fn unsigned_reading() -> bool {
        true
    }

    open spec fn u64_of(v: i64) -> u64 {
        v as u64
    }

    open spec fn is_nan_value(v: i64) -> bool {
        false
    }

    open spec fn after(a: i64, b: i64) -> bool {
        a > b
    }

    proof fn order_is_total(a: i64, b: i64, c: i64) {
    }

    proof fn only_floats_are_nan(v: i64) {
    }

    fn physical_type() -> (t: Type) {
        Type::INT64
    }

    fn as_bytes(&self) -> (bytes: Vec<u8>) {
        u64_to_bytes(*self as u64)
    }

    fn converts_to_u64() -> (b: bool) {
        true
    }

    fn as_u64(&self) -> (r: Result<u64, ParquetError>) {
        Ok(*self as u64)
    }

    fn differs_from_itself(&self) -> (b: bool) {
        false
    }

    fn greater(&self, other: &Self) -> (b: bool) {
        *self > *other
    }

    fn duplicate(&self) -> (copy: Self) {
        *self
    }
}

impl ParquetValueType for Int96 {
    open spec fn type_of() -> Type {
        Type::INT96
    }

    open spec fn plain(v: Int96) -> Seq<u8> {
        u32_bytes(v.word0) + u32_bytes(v.word1) + u32_bytes(v.word2)
    }

    open spec fn unsigned_reading() -> bool {
        false
    }

    open spec fn u64_of(v: Int96) -> u64 {
        0
    }

    open spec fn is_nan_value(v: Int96) -> bool {
        false
    }

    /// The words are compared in the order in which they are stored.
    open spec fn after(a: Int96, b: Int96) -> bool {
        a.word0 > b.word0 || a.word0 == b.word0 && (a.word1 > b.word1 || a.word1 == b.word1
            && a.word2 > b.word2)
    }

    proof fn order_is_total(a: Int96, b: Int96, c: Int96) {
    }

    proof fn only_floats_are_nan(v: Int96) {
    }

    fn physical_type() -> (t: Type) {
        Type::INT96
    }

    fn as_bytes(&self) -> (bytes: Vec<u8>) {
        let mut bytes = u32_to_bytes(self.word0);
        let mut second = u32_to_bytes(self.word1);
        let mut third = u32_to_bytes(self.word2);
        bytes.append(&mut second);
        bytes.append(&mut third);
        bytes
    }

    fn converts_to_u64() -> (b: bool) {
        false
    }

    fn as_u64(&self) -> (r: Result<u64, ParquetError>) {
        Err(ParquetError::NoUnsignedReading)
    }

    fn differs_from_itself(&self) -> (b: bool) {
        false
    }

    fn greater(&self, other: &Self) -> (b: bool) {
        self.word0 > other.word0 || self.word0 == other.word0 && (self.word1 > other.word1
            || self.word1 == other.word1 && self.word2 > other.word2)
    }

    fn duplicate(&self) -> (copy: Self) {
        *self
    }
}

/// Computes `float_rank`.
fn float_to_rank(bits: u32) -> (rank: i64)
    ensures
        rank == float_rank(bits),
{
    if bits >= 0x8000_0000 {
        -((bits - 0x8000_0000) as i64)
    } else {
        bits as i64
    }
}

/// Computes `float_is_nan`.
fn float_bits_are_nan(bits: u32) -> (nan: bool)
    ensures
        nan == float_is_nan(bits),
{
    bits % 0x8000_0000 > 0x7f80_0000
}

impl ParquetValueType for Float {
    open spec fn type_of() -> Type {
        Type::FLOAT
    }

    open spec fn plain(v: u32) -> Seq<u8> {
        u32_bytes(v)
    }

    open spec fn unsigned_reading() -> bool {
        false
    }

    open spec fn u64_of(v: u32) -> u64 {
        0
    }

    open spec fn is_nan_value(v: u32) -> bool {
        float_is_nan(v)
    }

    open spec fn after(a: u32, b: u32) -> bool {
        !float_is_nan(a) && !float_is_nan(b) && float_rank(a) > float_rank(b)
    }

    proof fn order_is_total(a: u32, b: u32, c: u32) {
    }

    proof fn only_floats_are_nan(v: u32) {
    }

    fn physical_type() -> (t: Type) {
        Type::FLOAT
    }

    fn as_bytes(&self) -> (bytes: Vec<u8>) {
        u32_to_bytes(self.bits)
    }

    fn converts_to_u64() -> (b: bool) {
        false
    }

    fn as_u64(&self) -> (r: Result<u64, ParquetError>) {
        Err(ParquetError::NoUnsignedReading)
    }

    fn differs_from_itself(&self) -> (b: bool) {
        float_bits_are_nan(self.bits)
    }

    fn greater(&self, other: &Self) -> (b: bool) {
        !float_bits_are_nan(self.bits) && !float_bits_are_nan(other.bits) && float_to_rank(
            self.bits,
        ) > float_to_rank(other.bits)
    }

    fn duplicate(&self) -> (copy: Self) {
        *self
    }
}

/// Computes `double_rank`.
fn double_to_rank(bits: u64) -> (rank: i128)
    ensures
        rank == double_rank(bits),
{
    if bits >= 0x8000_0000_0000_0000 {
        -((bits - 0x8000_0000_0000_0000) as i128)
    } else {
        bits as i128
    }
}

/// Computes `double_is_nan`.
fn double_bits_are_nan(bits: u64) -> (nan: bool)
    ensures
        nan == double_is_nan(bits),
{
    bits % 0x8000_0000_0000_0000 > 0x7ff0_0000_0000_0000
}

impl ParquetValueType for Double {
    open spec fn type_of() -> Type {
        Type::DOUBLE
    }

    open spec fn plain(v: u64) -> Seq<u8> {
        u64_bytes(v)
    }

    open spec fn unsigned_reading() -> bool {
        false
    }

    open spec fn u64_of(v: u64) -> u64 {
        0
    }

    open spec fn is_nan_value(v: u64) -> bool {
        double_is_nan(v)
    }

    open spec fn after(a: u64, b: u64) -> bool {
        !double_is_nan(a) && !double_is_nan(b) && double_rank(a) > double_rank(b)
    }

    proof fn order_is_total(a: u64, b: u64, c: u64) {
    }

    proof fn only_floats_are_nan(v: u64) {
    }

    fn physical_type() -> (t: Type) {
        Type::DOUBLE
    }

    fn as_bytes(&self) -> (bytes: Vec<u8>) {
        u64_to_bytes(self.bits)
    }

    fn converts_to_u64() -> (b: bool) {
        false
    }

    fn as_u64(&self) -> (r: Result<u64, ParquetError>) {
        Err(ParquetError::NoUnsignedReading)
    }

    fn differs_from_itself(&self) -> (b: bool) {
        double_bits_are_nan(self.bits)
    }

    fn greater(&self, other: &Self) -> (b: bool) {
        !double_bits_are_nan(self.bits) && !double_bits_are_nan(other.bits) && double_to_rank(
            self.bits,
        ) > double_to_rank(other.bits)
    }

    fn duplicate(&self) -> (copy: Self) {
        *self
    }
}

/// A copy of a byte vector.
pub fn copy_vec(v: &Vec<u8>) -> (copy: Vec<u8>)
    ensures
        copy@ == v@,
{
    vstd::slice::slice_to_vec(v.as_slice())
}

impl ParquetValueType for ByteArray {
    open spec fn type_of() -> Type {
        Type::BYTE_ARRAY
    }

    open spec fn plain(v: Seq<u8>) -> Seq<u8> {
        v
    }

    open spec fn unsigned_reading() -> bool {
        false
    }

    open spec fn u64_of(v: Seq<u8>) -> u64 {
        0
    }

    open spec fn is_nan_value(v: Seq<u8>) -> bool {
        false
    }

    open spec fn after(a: Seq<u8>, b: Seq<u8>) -> bool {
        bytes_greater(a, b)
    }

    proof fn order_is_total(a: Seq<u8>, b: Seq<u8>, c: Seq<u8>) {
        lexicographic_order_is_total(a, b, c);
    }

    proof fn only_floats_are_nan(v: Seq<u8>) {
    }

    fn physical_type() -> (t: Type) {
        Type::BYTE_ARRAY
    }

    fn as_bytes(&self) -> (bytes: Vec<u8>) {
        copy_vec(&self.data)
    }

    fn converts_to_u64() -> (b: bool) {
        false
    }

    fn as_u64(&self) -> (r: Result<u64, ParquetError>) {
        Err(ParquetError::NoUnsignedReading)
    }

    fn differs_from_itself(&self) -> (b: bool) {
        false
    }

    fn greater(&self, other: &Self) -> (b: bool) {
        slice_greater(self.data.as_slice(), other.data.as_slice())
    }

    fn duplicate(&self) -> (copy: Self) {
        ByteArray { data: copy_vec(&self.data) }
    }
}

impl ParquetValueType for FixedLenByteArray {
    open spec fn type_of() -> Type {
        Type::FIXED_LEN_BYTE_ARRAY
    }

    open spec fn plain(v: Seq<u8>) -> Seq<u8> {
        v
    }

    open spec fn unsigned_reading() -> bool {
        false
    }

    open spec fn u64_of(v: Seq<u8>) -> u64 {
        0
    }

    open spec fn is_nan_value(v: Seq<u8>) -> bool {
        false
    }

    open spec fn after(a: Seq<u8>, b: Seq<u8>) -> bool {
        bytes_greater(a, b)
    }

    proof fn order_is_total(a: Seq<u8>, b: Seq<u8>, c: Seq<u8>) {
        lexicographic_order_is_total(a, b, c);
    }

    proof fn only_floats_are_nan(v: Seq<u8>) {
    }

    fn physical_type() -> (t: Type) {
        Type::FIXED_LEN_BYTE_ARRAY
    }

    fn as_bytes(&self) -> (bytes: Vec<u8>) {
        copy_vec(&self.data)
    }

    fn converts_to_u64() -> (b: bool) {
        false
    }

    fn as_u64(&self) -> (r: Result<u64, ParquetError>) {
        Err(ParquetError::NoUnsignedReading)
    }

    fn differs_from_itself(&self) -> (b: bool) {
        false
    }

    fn greater(&self, other: &Self) -> (b: bool) {
        slice_greater(self.data.as_slice(), other.data.as_slice())
    }

    fn duplicate(&self) -> (copy: Self) {
        FixedLenByteArray { data: copy_vec(&self.data) }
    }
}

/// Every type of values is stored as the type of the format that it is for.
pub proof fn types_are_stored_as_such()
    ensures
        <bool as ParquetValueType>::type_of() is BOOLEAN,
        <i32 as ParquetValueType>::type_of() is INT32,
        <i64 as ParquetValueType>::type_of() is INT64,
        <Int96 as ParquetValueType>::type_of() is INT96,
        <Float as ParquetValueType>::type_of() is FLOAT,
        <Double as ParquetValueType>::type_of() is DOUBLE,
        <ByteArray as ParquetValueType>::type_of() is BYTE_ARRAY,
        <FixedLenByteArray as ParquetValueType>::type_of() is FIXED_LEN_BYTE_ARRAY,
{
}

/// In statistics and indexes a number stands with its bytes, the lowest first; a truth value is a
/// byte that is one or zero; and a byte string stands as it is.
pub proof fn values_stand_as_their_bytes(
    truth: bool,
    a: i32,
    b: i64,
    c: Int96,
    f: u32,
    d: u64,
    s: Seq<u8>,
)
    ensures
        <bool as ParquetValueType>::plain(truth).len() == 1,
        <bool as ParquetValueType>::plain(truth)[0] == if truth {
            1u8
        } else {
            0u8
        },
        ({
            let p = <i32 as ParquetValueType>::plain(a);
            p.len() == 4 && p[0] + 256 * p[1] + 65_536 * p[2] + 16_777_216 * p[3] == if a >= 0 {
                a as int
            } else {
                a + 4_294_967_296
            }
        }),
        ({
            let p = <i64 as ParquetValueType>::plain(b);
            p.len() == 8 && p[0] + 256 * p[1] + 65_536 * p[2] + 16_777_216 * p[3] + 4_294_967_296 * (
            p[4] + 256 * p[5] + 65_536 * p[6] + 16_777_216 * p[7]) == if b >= 0 {
                b as int
            } else {
                b + 18_446_744_073_709_551_616
            }
        }),
        ({
            let p = <Int96 as ParquetValueType>::plain(c);
            &&& p.len() == 12
            &&& p[0] + 256 * p[1] + 65_536 * p[2] + 16_777_216 * p[3] == c.word0
            &&& p[4] + 256 * p[5] + 65_536 * p[6] + 16_777_216 * p[7] == c.word1
            &&& p[8] + 256 * p[9] + 65_536 * p[10] + 16_777_216 * p[11] == c.word2
        }),
        ({
            let p = <Float as ParquetValueType>::plain(f);
            p.len() == 4 && p[0] + 256 * p[1] + 65_536 * p[2] + 16_777_216 * p[3] == f
        }),
        ({
            let p = <Double as ParquetValueType>::plain(d);
            p.len() == 8 && p[0] + 256 * p[1] + 65_536 * p[2] + 16_777_216 * p[3] + 4_294_967_296 * (
            p[4] + 256 * p[5] + 65_536 * p[6] + 16_777_216 * p[7]) == d
        }),
        <ByteArray as ParquetValueType>::plain(s) == s,
        <FixedLenByteArray as ParquetValueType>::plain(s) == s,
{
    lemma_i32_bits(a);
    lemma_i64_bits(b);
    bytes_are_digits(a as u32);
    long_bytes_are_digits(b as u64);
    bytes_are_digits(c.word0);
    bytes_are_digits(c.word1);
    bytes_are_digits(c.word2);
    let p = <Int96 as ParquetValueType>::plain(c);
    let (w0, w1, w2) = (u32_bytes(c.word0), u32_bytes(c.word1), u32_bytes(c.word2));
    assert(p[0] == w0[0] && p[1] == w0[1] && p[2] == w0[2] && p[3] == w0[3]);
    assert(p[4] == w1[0] && p[5] == w1[1] && p[6] == w1[2] && p[7] == w1[3]);
    assert(p[8] == w2[0] && p[9] == w2[1] && p[10] == w2[2] && p[11] == w2[3]);
    bytes_are_digits(f);
    long_bytes_are_digits(d);
}

proof fn lemma_i32_bits(v: i32)
    ensures
        (v as u32) == if v >= 0 {
            v as int
        } else {
            v + 4_294_967_296
        },
{
    if v < 0 {
        assert((v as u32) == 0xffff_ffffu32 - ((-1i32 - v) as u32)) by (bit_vector)
            requires
                v < 0i32,
        ;
    }
}

proof fn lemma_i64_bits(v: i64)
    ensures
        (v as u64) == if v >= 0 {
            v as int
        } else {
            v + 18_446_744_073_709_551_616
        },
{
    if v < 0 {
        assert((v as u64) == 0xffff_ffff_ffff_ffffu64 - ((-1i64 - v) as u64)) by (bit_vector)
            requires
                v < 0i64,
        ;
    }
}

/// Truth values and integers have an unsigned reading, and one has the greater of them if and only if
/// its bits, taken as an unsigned number, are the greater. Other values have none.
pub proof fn integers_have_unsigned_readings(t: bool, u: bool, a: i32, b: i32, c: i64, d: i64)
    ensures
        <bool as ParquetValueType>::unsigned_reading(),
        <i32 as ParquetValueType>::unsigned_reading(),
        <i64 as ParquetValueType>::unsigned_reading(),
        !<Int96 as ParquetValueType>::unsigned_reading(),
        !<Float as ParquetValueType>::unsigned_reading(),
        !<Double as ParquetValueType>::unsigned_reading(),
        !<ByteArray as ParquetValueType>::unsigned_reading(),
        !<FixedLenByteArray as ParquetValueType>::unsigned_reading(),
        <bool as ParquetValueType>::u64_of(t) > <bool as ParquetValueType>::u64_of(u) <==> t && !u,
        <i32 as ParquetValueType>::u64_of(a) > <i32 as ParquetValueType>::u64_of(b) <==> (a as u32)
            > (b as u32),
        <i64 as ParquetValueType>::u64_of(c) > <i64 as ParquetValueType>::u64_of(d) <==> (c as u64)
            > (d as u64),
        t ==> <bool as ParquetValueType>::u64_of(t) == 1,
        !t ==> <bool as ParquetValueType>::u64_of(t) == 0,
        a >= 0 ==> <i32 as ParquetValueType>::u64_of(a) == a,
        a < 0 ==> <i32 as ParquetValueType>::u64_of(a) == a + 18_446_744_073_709_551_616,
        c >= 0 ==> <i64 as ParquetValueType>::u64_of(c) == c,
        c < 0 ==> <i64 as ParquetValueType>::u64_of(c) == c + 18_446_744_073_709_551_616,
{
    lemma_i32_bits(a);
    lemma_i32_bits(b);
    lemma_i64_bits(a as i64);
    lemma_i64_bits(b as i64);
    lemma_i64_bits(c);
    lemma_i64_bits(d);
}

/// A floating-point value is no number if and only if its bits lie beyond those of one of the two
/// infinities. Others are ordered as numbers are: a greater pattern is greater where the sign bit is
/// not set and less where it is, and every value without the sign bit comes after every value with
/// it, but for the two zeros.
pub proof fn floats_are_ordered_as_numbers(a: u32, b: u32)
    ensures
        <Float as ParquetValueType>::is_nan_value(a) <==> 0x7f80_0000 < a < 0x8000_0000 || a
            > 0xff80_0000,
        !<Float as ParquetValueType>::is_nan_value(a) && !<Float as ParquetValueType>::is_nan_value(
            b,
        ) ==> {
            let after = <Float as ParquetValueType>::after(a, b);
            &&& a < 0x8000_0000 && b < 0x8000_0000 ==> (after <==> a > b)
            &&& a >= 0x8000_0000 && b >= 0x8000_0000 ==> (after <==> a < b)
            &&& a < 0x8000_0000 && b >= 0x8000_0000 ==> (after <==> !(a == 0 && b == 0x8000_0000))
            &&& a >= 0x8000_0000 && b < 0x8000_0000 ==> !after
        },
{
}

/// The same holds with double precision.
pub proof fn doubles_are_ordered_as_numbers(a: u64, b: u64)
    ensures
        <Double as ParquetValueType>::is_nan_value(a) <==> 0x7ff0_0000_0000_0000 < a
            < 0x8000_0000_0000_0000 || a > 0xfff0_0000_0000_0000,
        !<Double as ParquetValueType>::is_nan_value(a) && !<Double as ParquetValueType>::is_nan_value(
            b,
        ) ==> {
            let after = <Double as ParquetValueType>::after(a, b);
            &&& a < 0x8000_0000_0000_0000 && b < 0x8000_0000_0000_0000 ==> (after <==> a > b)
            &&& a >= 0x8000_0000_0000_0000 && b >= 0x8000_0000_0000_0000 ==> (after <==> a < b)
            &&& a < 0x8000_0000_0000_0000 && b >= 0x8000_0000_0000_0000 ==> (after <==> !(a == 0
                && b == 0x8000_0000_0000_0000))
            &&& a >= 0x8000_0000_0000_0000 && b < 0x8000_0000_0000_0000 ==> !after
        },
{
}

/// Integers are ordered as signed numbers, true comes after false, timestamps of three words are
/// ordered by the first word in which they differ, and byte strings lexicographically.
pub proof fn values_are_ordered_by_their_type(
    t: bool,
    u: bool,
    a: i32,
    b: i32,
    c: i64,
    d: i64,
    x: Int96,
    y: Int96,
    r: Seq<u8>,
    s: Seq<u8>,
)
    ensures
        <bool as ParquetValueType>::after(t, u) <==> t && !u,
        <i32 as ParquetValueType>::after(a, b) <==> a > b,
        <i64 as ParquetValueType>::after(c, d) <==> c > d,
        x.word0 != y.word0 ==> (<Int96 as ParquetValueType>::after(x, y) <==> x.word0 > y.word0),
        x.word0 == y.word0 && x.word1 != y.word1 ==> (<Int96 as ParquetValueType>::after(x, y)
            <==> x.word1 > y.word1),
        x.word0 == y.word0 && x.word1 == y.word1 ==> (<Int96 as ParquetValueType>::after(x, y)
            <==> x.word2 > y.word2),
        <ByteArray as ParquetValueType>::after(r, s) <==> bytes_greater(r, s),
        <FixedLenByteArray as ParquetValueType>::after(r, s) <==> bytes_greater(r, s),
        !<bool as ParquetValueType>::is_nan_value(t),
        !<i32 as ParquetValueType>::is_nan_value(a),
        !<i64 as ParquetValueType>::is_nan_value(c),
        !<Int96 as ParquetValueType>::is_nan_value(x),
        !<ByteArray as ParquetValueType>::is_nan_value(r),
        !<FixedLenByteArray as ParquetValueType>::is_nan_value(r),
{
}

} // verus!
