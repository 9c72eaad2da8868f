//! Decoder for the binary bytecode format.
//!
//! A bytecode file is the four signature bytes `aeon`, one version byte and a
//! single code object. All integers are big-endian. A string is its length in
//! bytes as a `u64`, followed by that many bytes of UTF-8. A vector is its
//! number of items as a `u64`, followed by the items.
//!
//! The format is stated twice: as a decoder on sequences of bytes (the
//! `spec_read_*` functions), which the executable readers are proved to
//! follow, and as an encoder (`spec_write_*`), which the decoder is proved to
//! invert.

use crate::byte_stream::ByteStream;
use crate::compiled_code::{CompiledCode, CompiledCodeView, Float, RcCompiledCode};
use crate::instruction::{Instruction, InstructionType, InstructionView};
use std::sync::Arc;
use vstd::prelude::*;
use vstd::utf8::{decode_utf8, encode_utf8, valid_utf8};

verus! {

/// The ways in which decoding a bytecode stream can fail.
#[derive(Debug, Clone, Copy, PartialEq, Eq, Structural)]
pub enum ParserError {
    InvalidFile,
    InvalidSignature,
    InvalidVersion,
    InvalidString,
    InvalidInteger,
    InvalidFloat,
    MissingByte,
}

pub type ParserResult<T> = Result<T, ParserError>;

pub type BytecodeResult = ParserResult<RcCompiledCode>;

/// What a decoder makes of an input: the decoded value and the bytes that
/// follow it, or the error.
pub type Decoded<T> = Result<(T, Seq<u8>), ParserError>;

/// The format version that this decoder understands.
pub const VERSION: u8 = 1;

/// 256 to the power `n`.
pub open spec fn pow256(n: nat) -> nat
    decreases n,
{
    if n == 0 {
        1
    } else {
        256 * pow256((n - 1) as nat)
    }
}

/// The number that `bytes` spell in base 256, most significant byte first.
pub open spec fn be_value(bytes: Seq<u8>) -> nat
    decreases bytes.len(),
{
    if bytes.len() == 0 {
        0
    } else {
        be_value(bytes.drop_last()) * 256 + bytes.last() as nat
    }
}

/// The `width` bytes that spell `value` in base 256, most significant byte
/// first.
pub open spec fn be_bytes(value: nat, width: nat) -> Seq<u8>
    decreases width,
{
    if width == 0 {
        Seq::empty()
    } else {
        be_bytes(value / 256, (width - 1) as nat).push((value % 256) as u8)
    }
}

/// The two's complement reading of an unsigned number of `width` bytes.
pub open spec fn as_signed(value: nat, width: nat) -> int {
    if 2 * value < pow256(width) {
        value as int
    } else {
        value - pow256(width)
    }
}

/// The unsigned number of `width` bytes whose two's complement reading is
/// `value`.
pub open spec fn as_unsigned(value: int, width: nat) -> nat {
    if value >= 0 {
        value as nat
    } else {
        (value + pow256(width)) as nat
    }
}

/// The powers of 256 that the widths of the format need.
pub proof fn lemma_pow256_values()
    ensures
        pow256(0) == 1,
        pow256(1) == 0x100,
        pow256(2) == 0x1_0000,
        pow256(3) == 0x100_0000,
        pow256(4) == 0x1_0000_0000,
        pow256(5) == 0x100_0000_0000,
        pow256(6) == 0x1_0000_0000_0000,
        pow256(7) == 0x100_0000_0000_0000,
        pow256(8) == 0x1_0000_0000_0000_0000,
{
    reveal_with_fuel(pow256, 10);
}

/// A number spelled with `n` bytes is below 256 to the power `n`.
pub proof fn lemma_be_value_bound(bytes: Seq<u8>)
    ensures
        be_value(bytes) < pow256(bytes.len()),
    decreases bytes.len(),
{
    if bytes.len() > 0 {
        lemma_be_value_bound(bytes.drop_last());
    }
}

/// Spelling a number with enough bytes and reading it back gives the number.
pub proof fn lemma_be_round_trip(value: nat, width: nat)
    requires
        value < pow256(width),
    ensures
        be_bytes(value, width).len() == width,
        be_value(be_bytes(value, width)) == value,
    decreases width,
{
    if width > 0 {
        lemma_be_round_trip(value / 256, (width - 1) as nat);
        let bytes = be_bytes(value, width);
        assert(bytes.drop_last() =~= be_bytes(value / 256, (width - 1) as nat));
    }
}

/// The number of a given width at the front of `input`, or `error` where
/// `input` is too short.
#[verifier::opaque]
pub open spec fn spec_read_be(input: Seq<u8>, width: nat, error: ParserError) -> Decoded<nat> {
    if input.len() < width {
        Err(error)
    } else {
        Ok((be_value(input.take(width as int)), input.skip(width as int)))
    }
}

/// One byte at the front of `input`.
pub open spec fn spec_read_u8(input: Seq<u8>) -> Decoded<u8> {
    match spec_read_be(input, 1, ParserError::InvalidInteger) {
        Ok((value, rest)) => Ok((value as u8, rest)),
        Err(error) => Err(error),
    }
}

/// A number of two bytes at the front of `input`.
pub open spec fn spec_read_u16(input: Seq<u8>) -> Decoded<u16> {
    match spec_read_be(input, 2, ParserError::InvalidInteger) {
        Ok((value, rest)) => Ok((value as u16, rest)),
        Err(error) => Err(error),
    }
}

/// A number of four bytes at the front of `input`, in two's complement.
pub open spec fn spec_read_i32(input: Seq<u8>) -> Decoded<i32> {
    match spec_read_be(input, 4, ParserError::InvalidInteger) {
        Ok((value, rest)) => Ok((as_signed(value, 4) as i32, rest)),
        Err(error) => Err(error),
    }
}

/// A number of four bytes at the front of `input`.
pub open spec fn spec_read_u32(input: Seq<u8>) -> Decoded<u32> {
    match spec_read_be(input, 4, ParserError::InvalidInteger) {
        Ok((value, rest)) => Ok((value as u32, rest)),
        Err(error) => Err(error),
    }
}

/// A number of eight bytes at the front of `input`, in two's complement.
pub open spec fn spec_read_i64(input: Seq<u8>) -> Decoded<i64> {
    match spec_read_be(input, 8, ParserError::InvalidInteger) {
        Ok((value, rest)) => Ok((as_signed(value, 8) as i64, rest)),
        Err(error) => Err(error),
    }
}

/// A number of eight bytes at the front of `input`.
pub open spec fn spec_read_u64(input: Seq<u8>) -> Decoded<u64> {
    match spec_read_be(input, 8, ParserError::InvalidInteger) {
        Ok((value, rest)) => Ok((value as u64, rest)),
        Err(error) => Err(error),
    }
}

/// The bit pattern of a double at the front of `input`.
pub open spec fn spec_read_f64(input: Seq<u8>) -> Decoded<u64> {
    match spec_read_be(input, 8, ParserError::InvalidFloat) {
        Ok((value, rest)) => Ok((value as u64, rest)),
        Err(error) => Err(error),
    }
}

/// A string at the front of `input`: its length in bytes, then that many
/// bytes, which have to be valid UTF-8.
#[verifier::opaque]
pub open spec fn spec_read_string(input: Seq<u8>) -> Decoded<Seq<char>> {
    match spec_read_u64(input) {
        Err(error) => Err(error),
        Ok((size, rest)) => {
            if rest.len() < size || !valid_utf8(rest.take(size as int)) {
                Err(ParserError::InvalidString)
            } else {
                Ok((decode_utf8(rest.take(size as int)), rest.skip(size as int)))
            }
        },
    }
}

/// The bytes that follow a decoded value; none after an error.
pub open spec fn rest_of<A>(decoded: Decoded<A>) -> Seq<u8> {
    match decoded {
        Ok((_, rest)) => rest,
        Err(_) => Seq::empty(),
    }
}

/// The decoded value.
pub open spec fn value_of<A>(decoded: Decoded<A>) -> A
    recommends
        decoded is Ok,
{
    decoded->Ok_0.0
}

/// Whether `result`, with `left` as the bytes that the stream still holds,
/// is what `expected` asks for. After an error nothing is said of the stream.
pub open spec fn follows<T: DeepView>(
    expected: Decoded<T::V>,
    result: ParserResult<T>,
    left: Seq<u8>,
) -> bool {
    match expected {
        Ok((value, rest)) => result is Ok && result->Ok_0.deep_view() == value && left == rest,
        Err(error) => result is Err && result->Err_0 == error,
    }
}

/// Reads a big-endian number of `width` bytes.
fn read_be(bytes: &mut ByteStream, width: usize, error: ParserError) -> (result: ParserResult<u64>)
    requires
        width <= 8,
    ensures
        follows(
            match spec_read_be(old(bytes)@, width as nat, error) {
                Ok((value, rest)) => Ok((value as u64, rest)),
                Err(error) => Err(error),
            },
            result,
            final(bytes)@,
        ),
{
    proof {
        reveal(spec_read_be);
    }
    let ghost input = bytes@;
    let mut value: u64 = 0;
    let mut index: usize = 0;
    while index < width
        invariant
            width <= 8,
            input == old(bytes)@,
            spec_read_be(input, width as nat, error) == if input.len() < width {
                Err::<(nat, Seq<u8>), ParserError>(error)
            } else {
                Ok((be_value(input.take(width as int)), input.skip(width as int)))
            },
            index <= width,
            index <= input.len(),
            bytes@ == input.skip(index as int),
            value == be_value(input.take(index as int)),
        decreases width - index,
    {
        proof {
            lemma_be_value_bound(input.take(index as int));
            lemma_pow256_values();
            reveal_with_fuel(pow256, 10);
        }
        match bytes.next() {
            Some(byte) => {
                assert(input.take(index + 1).drop_last() =~= input.take(index as int));
                assert(input.skip(index as int).skip(1) =~= input.skip(index + 1));
                value = value * 256 + byte as u64;
                index = index + 1;
            },
            None => {
                assert(input.skip(index as int).len() == input.len() - index);
                return Err(error);
            },
        }
    }
    proof {
        lemma_be_value_bound(input.take(width as int));
        lemma_pow256_values();
        reveal_with_fuel(pow256, 10);
    }
    Ok(value)
}

/// Reads one byte.
pub fn read_u8(bytes: &mut ByteStream) -> (result: ParserResult<u8>)
    ensures
        follows(spec_read_u8(old(bytes)@), result, final(bytes)@),
{
    let value = read_be(bytes, 1, ParserError::InvalidInteger)?;
    proof {
        reveal(spec_read_be);
        lemma_be_value_bound(old(bytes)@.take(1));
        lemma_pow256_values();
    }
    Ok(value as u8)
}

/// Reads a number of two bytes.
pub fn read_u16(bytes: &mut ByteStream) -> (result: ParserResult<u16>)
    ensures
        follows(spec_read_u16(old(bytes)@), result, final(bytes)@),
{
    let value = read_be(bytes, 2, ParserError::InvalidInteger)?;
    proof {
        reveal(spec_read_be);
        lemma_be_value_bound(old(bytes)@.take(2));
        lemma_pow256_values();
    }
    Ok(value as u16)
}

/// Reads a number of four bytes in two's complement.
pub fn read_i32(bytes: &mut ByteStream) -> (result: ParserResult<i32>)
    ensures
        follows(spec_read_i32(old(bytes)@), result, final(bytes)@),
{
    let value = read_be(bytes, 4, ParserError::InvalidInteger)?;
    proof {
        reveal(spec_read_be);
        lemma_be_value_bound(old(bytes)@.take(4));
        lemma_pow256_values();
    }
    if value < 0x8000_0000 {
        Ok(value as i32)
    } else {
        Ok((value - 0x8000_0000) as i32 + i32::MIN)
    }
}

/// Reads a number of four bytes.
pub fn read_u32(bytes: &mut ByteStream) -> (result: ParserResult<u32>)
    ensures
        follows(spec_read_u32(old(bytes)@), result, final(bytes)@),
{
    let value = read_be(bytes, 4, ParserError::InvalidInteger)?;
    proof {
        reveal(spec_read_be);
        lemma_be_value_bound(old(bytes)@.take(4));
        lemma_pow256_values();
    }
    Ok(value as u32)
}

/// Reads a number of eight bytes in two's complement.
pub fn read_i64(bytes: &mut ByteStream) -> (result: ParserResult<i64>)
    ensures
        follows(spec_read_i64(old(bytes)@), result, final(bytes)@),
{
    let value = read_be(bytes, 8, ParserError::InvalidInteger)?;
    proof {
        reveal(spec_read_be);
        lemma_be_value_bound(old(bytes)@.take(8));
        lemma_pow256_values();
    }
    if value < 0x8000_0000_0000_0000 {
        Ok(value as i64)
    } else {
        Ok((value - 0x8000_0000_0000_0000) as i64 + i64::MIN)
    }
}

/// Reads a number of eight bytes.
pub fn read_u64(bytes: &mut ByteStream) -> (result: ParserResult<u64>)
    ensures
        follows(spec_read_u64(old(bytes)@), result, final(bytes)@),
{
    read_be(bytes, 8, ParserError::InvalidInteger)
}

/// Reads a double and returns it as its bit pattern.
pub fn read_f64(bytes: &mut ByteStream) -> (result: ParserResult<Float>)
    ensures
        follows(spec_read_f64(old(bytes)@), result, final(bytes)@),
{
    let bits = read_be(bytes, 8, ParserError::InvalidFloat)?;
    Ok(Float::from_bits(bits))
}

/// `String::from_utf8`: the bytes as a string where they are valid UTF-8, the
/// characters being those that the bytes decode to, and nothing where they
/// are not. What counts as valid UTF-8, and what it decodes to, is what
/// `vstd::utf8` says of the bytes of a `str`.
#[verifier::external_body]
fn string_from_utf8(bytes: Vec<u8>) -> (result: Option<String>)
    ensures
        valid_utf8(bytes@) ==> result is Some && result->0@ == decode_utf8(bytes@),
        !valid_utf8(bytes@) ==> result is None,
{
    String::from_utf8(bytes).ok()
}

/// Reads a string: its length in bytes, then its bytes. Bytes beyond the
/// length are left in the stream.
pub fn read_string(bytes: &mut ByteStream) -> (result: ParserResult<String>)
    ensures
        follows(spec_read_string(old(bytes)@), result, final(bytes)@),
{
    proof {
        reveal(spec_read_string);
    }
    let size = read_u64(bytes)?;
    let ghost input = bytes@;
    let mut buffer: Vec<u8> = Vec::new();
    let mut count: u64 = 0;
    while count < size
        invariant
            spec_read_u64(old(bytes)@) == Ok::<_, ParserError>((size, input)),
            spec_read_string(old(bytes)@) == if input.len() < size || !valid_utf8(
                input.take(size as int),
            ) {
                Err::<(Seq<char>, Seq<u8>), ParserError>(ParserError::InvalidString)
            } else {
                Ok((decode_utf8(input.take(size as int)), input.skip(size as int)))
            },
            count <= size,
            count <= input.len(),
            bytes@ == input.skip(count as int),
            buffer@ == input.take(count as int),
        decreases size - count,
    {
        match bytes.next() {
            Some(byte) => {
                assert(input.skip(count as int).skip(1) =~= input.skip(count + 1));
                buffer.push(byte);
                count = count + 1;
                assert(buffer@ =~= input.take(count as int));
            },
            None => {
                assert(input.skip(count as int).len() == input.len() - count);
                return Err(ParserError::InvalidString);
            },
        }
    }
    match string_from_utf8(buffer) {
        Some(string) => Ok(string),
        None => Err(ParserError::InvalidString),
    }
}

/// The byte that stands for `value`.
pub open spec fn spec_write_u8(value: u8) -> Seq<u8> {
    be_bytes(value as nat, 1)
}

/// The two bytes that stand for `value`.
pub open spec fn spec_write_u16(value: u16) -> Seq<u8> {
    be_bytes(value as nat, 2)
}

/// The four bytes that stand for `value`, in two's complement.
pub open spec fn spec_write_i32(value: i32) -> Seq<u8> {
    be_bytes(as_unsigned(value as int, 4), 4)
}

/// The four bytes that stand for `value`.
pub open spec fn spec_write_u32(value: u32) -> Seq<u8> {
    be_bytes(value as nat, 4)
}

/// The eight bytes that stand for `value`, in two's complement.
pub open spec fn spec_write_i64(value: i64) -> Seq<u8> {
    be_bytes(as_unsigned(value as int, 8), 8)
}

/// The eight bytes that stand for `value`.
pub open spec fn spec_write_u64(value: u64) -> Seq<u8> {
    be_bytes(value as nat, 8)
}

/// The encoding of the double with the given bit pattern.
pub open spec fn spec_write_f64(bits: u64) -> Seq<u8> {
    be_bytes(bits as nat, 8)
}

/// The bytes that stand for `string`: the length of its UTF-8 encoding,
/// then the encoding.
pub open spec fn spec_write_string(string: Seq<char>) -> Seq<u8> {
    be_bytes(encode_utf8(string).len(), 8) + encode_utf8(string)
}

/// A string can be encoded where its length in bytes fits the length field.
pub open spec fn string_encodable(string: Seq<char>) -> bool {
    encode_utf8(string).len() < pow256(8)
}

/// A number of `width` bytes in front of any bytes is read back as it was
/// written.
pub proof fn lemma_read_be_written(value: nat, width: nat, rest: Seq<u8>, error: ParserError)
    requires
        value < pow256(width),
    ensures
        spec_read_be(be_bytes(value, width) + rest, width, error) == Ok::<_, ParserError>(
            (value, rest),
        ),
{
    reveal(spec_read_be);
    lemma_be_round_trip(value, width);
    let written = be_bytes(value, width);
    assert((written + rest).take(width as int) =~= written);
    assert((written + rest).skip(width as int) =~= rest);
}

/// A written byte is read back as it was written.
pub proof fn lemma_read_u8_written(value: u8, rest: Seq<u8>)
    ensures
        spec_read_u8(spec_write_u8(value) + rest) == Ok::<_, ParserError>((value, rest)),
{
    lemma_pow256_values();
    lemma_read_be_written(value as nat, 1, rest, ParserError::InvalidInteger);
}

/// A written number of two bytes is read back as it was written.
pub proof fn lemma_read_u16_written(value: u16, rest: Seq<u8>)
    ensures
        spec_read_u16(spec_write_u16(value) + rest) == Ok::<_, ParserError>((value, rest)),
{
    lemma_pow256_values();
    lemma_read_be_written(value as nat, 2, rest, ParserError::InvalidInteger);
}

/// A written signed number of four bytes is read back as it was written.
pub proof fn lemma_read_i32_written(value: i32, rest: Seq<u8>)
    ensures
        spec_read_i32(spec_write_i32(value) + rest) == Ok::<_, ParserError>((value, rest)),
{
    lemma_pow256_values();
    lemma_read_be_written(as_unsigned(value as int, 4), 4, rest, ParserError::InvalidInteger);
}

/// A written number of four bytes is read back as it was written.
pub proof fn lemma_read_u32_written(value: u32, rest: Seq<u8>)
    ensures
        spec_read_u32(spec_write_u32(value) + rest) == Ok::<_, ParserError>((value, rest)),
{
    lemma_pow256_values();
    lemma_read_be_written(value as nat, 4, rest, ParserError::InvalidInteger);
}

/// A written signed number of eight bytes is read back as it was
/// written.
pub proof fn lemma_read_i64_written(value: i64, rest: Seq<u8>)
    ensures
        spec_read_i64(spec_write_i64(value) + rest) == Ok::<_, ParserError>((value, rest)),
{
    lemma_pow256_values();
    lemma_read_be_written(as_unsigned(value as int, 8), 8, rest, ParserError::InvalidInteger);
}

/// A written number of eight bytes is read back as it was written.
pub proof fn lemma_read_u64_written(value: u64, rest: Seq<u8>)
    ensures
        spec_read_u64(spec_write_u64(value) + rest) == Ok::<_, ParserError>((value, rest)),
{
    lemma_pow256_values();
    lemma_read_be_written(value as nat, 8, rest, ParserError::InvalidInteger);
}

/// A written double is read back with the bit pattern it was written
/// with.
pub proof fn lemma_read_f64_written(bits: u64, rest: Seq<u8>)
    ensures
        spec_read_f64(spec_write_f64(bits) + rest) == Ok::<_, ParserError>((bits, rest)),
{
    lemma_pow256_values();
    lemma_read_be_written(bits as nat, 8, rest, ParserError::InvalidFloat);
}

/// A written string is read back as it was written.
pub proof fn lemma_read_string_written(string: Seq<char>, rest: Seq<u8>)
    requires
        string_encodable(string),
    ensures
        spec_read_string(spec_write_string(string) + rest) == Ok::<_, ParserError>(
            (string, rest),
        ),
{
    reveal(spec_read_string);
    let content = encode_utf8(string);
    let size = content.len() as u64;
    lemma_pow256_values();
    lemma_read_u64_written(size, content + rest);
    assert(spec_write_string(string) + rest =~= spec_write_u64(size) + (content + rest));
    assert((content + rest).take(size as int) =~= content);
    assert((content + rest).skip(size as int) =~= rest);
    vstd::utf8::encode_utf8_valid_utf8(string);
    vstd::utf8::encode_utf8_decode_utf8(string);
}

/// A number of `width` bytes takes up `width` bytes.
pub proof fn lemma_read_be_consumes(input: Seq<u8>, width: nat, error: ParserError)
    ensures
        spec_read_be(input, width, error) is Ok ==> rest_of(spec_read_be(input, width, error)).len()
            + width == input.len(),
        spec_read_be(input, width, error) is Err ==> spec_read_be(input, width, error)->Err_0
            == error,
{
    reveal(spec_read_be);
}

/// A string takes up at least its length field.
pub proof fn lemma_read_string_consumes(input: Seq<u8>)
    ensures
        spec_read_string(input) is Ok ==> rest_of(spec_read_string(input)).len() + 8
            <= input.len(),
{
    reveal(spec_read_string);
    lemma_read_be_consumes(input, 8, ParserError::InvalidInteger);
}

/// A type of value that the bytecode format can hold as an item of a vector.
pub trait Decode: Sized + DeepView {
    /// The value at the front of `input` and the bytes after it.
    spec fn spec_read(input: Seq<u8>) -> Decoded<Self::V>;

    /// The bytes that stand for `value`.
    spec fn spec_write(value: Self::V) -> Seq<u8>;

    /// Whether `value` has an encoding.
    spec fn encodable(value: Self::V) -> bool;

    /// A written value in front of any bytes is read back as it was written.
    proof fn lemma_read_written(value: Self::V, rest: Seq<u8>)
        requires
            Self::encodable(value),
        ensures
            Self::spec_read(Self::spec_write(value) + rest) == Ok::<_, ParserError>((value, rest)),
    ;

    /// Every value takes up at least one byte.
    proof fn lemma_read_consumes(input: Seq<u8>)
        ensures
            Self::spec_read(input) is Ok ==> rest_of(Self::spec_read(input)).len() < input.len(),
    ;

    /// Reads one value off the stream.
    fn read(bytes: &mut ByteStream) -> (result: ParserResult<Self>)
        ensures
            follows(Self::spec_read(old(bytes)@), result, final(bytes)@),
    ;
}

impl Decode for u32 {
    open spec fn spec_read(input: Seq<u8>) -> Decoded<u32> {
        spec_read_u32(input)
    }

    open spec fn spec_write(value: u32) -> Seq<u8> {
        spec_write_u32(value)
    }

    open spec fn encodable(value: u32) -> bool {
        true
    }

    proof fn lemma_read_written(value: u32, rest: Seq<u8>) {
        lemma_read_u32_written(value, rest);
    }

    proof fn lemma_read_consumes(input: Seq<u8>) {
        lemma_read_be_consumes(input, 4, ParserError::InvalidInteger);
    }

    fn read(bytes: &mut ByteStream) -> (result: ParserResult<u32>) {
        read_u32(bytes)
    }
}

impl Decode for i64 {
    open spec fn spec_read(input: Seq<u8>) -> Decoded<i64> {
        spec_read_i64(input)
    }

    open spec fn spec_write(value: i64) -> Seq<u8> {
        spec_write_i64(value)
    }

    open spec fn encodable(value: i64) -> bool {
        true
    }

    proof fn lemma_read_written(value: i64, rest: Seq<u8>) {
        lemma_read_i64_written(value, rest);
    }

    proof fn lemma_read_consumes(input: Seq<u8>) {
        lemma_read_be_consumes(input, 8, ParserError::InvalidInteger);
    }

    fn read(bytes: &mut ByteStream) -> (result: ParserResult<i64>) {
        read_i64(bytes)
    }
}

impl Decode for Float {
    open spec fn spec_read(input: Seq<u8>) -> Decoded<u64> {
        spec_read_f64(input)
    }

    open spec fn spec_write(value: u64) -> Seq<u8> {
        spec_write_f64(value)
    }

    open spec fn encodable(value: u64) -> bool {
        true
    }

    proof fn lemma_read_written(value: u64, rest: Seq<u8>) {
        lemma_read_f64_written(value, rest);
    }

    proof fn lemma_read_consumes(input: Seq<u8>) {
        lemma_read_be_consumes(input, 8, ParserError::InvalidFloat);
    }

    fn read(bytes: &mut ByteStream) -> (result: ParserResult<Float>) {
        read_f64(bytes)
    }
}

impl Decode for String {
    open spec fn spec_read(input: Seq<u8>) -> Decoded<Seq<char>> {
        spec_read_string(input)
    }

    open spec fn spec_write(value: Seq<char>) -> Seq<u8> {
        spec_write_string(value)
    }

    open spec fn encodable(value: Seq<char>) -> bool {
        string_encodable(value)
    }

    proof fn lemma_read_written(value: Seq<char>, rest: Seq<u8>) {
        lemma_read_string_written(value, rest);
    }

    proof fn lemma_read_consumes(input: Seq<u8>) {
        lemma_read_string_consumes(input);
    }

    fn read(bytes: &mut ByteStream) -> (result: ParserResult<String>) {
        read_string(bytes)
    }
}

/// `count` values, one after the other, at the front of `input`.
pub open spec fn spec_read_items<T: Decode>(input: Seq<u8>, count: nat) -> Decoded<Seq<T::V>>
    decreases count,
{
    if count == 0 {
        Ok((Seq::empty(), input))
    } else {
        match T::spec_read(input) {
            Err(error) => Err(error),
            Ok((first, rest)) => prepend(seq![first], spec_read_items::<T>(rest, (count - 1) as nat)),
        }
    }
}

/// The decoded items of `tail` with `front` put before them.
pub open spec fn prepend<A>(front: Seq<A>, tail: Decoded<Seq<A>>) -> Decoded<Seq<A>> {
    match tail {
        Ok((items, rest)) => Ok((front + items, rest)),
        Err(error) => Err(error),
    }
}

/// A vector at the front of `input`: its count, then that many items.
pub open spec fn spec_read_vector<T: Decode>(input: Seq<u8>) -> Decoded<Seq<T::V>> {
    match spec_read_u64(input) {
        Err(error) => Err(error),
        Ok((count, rest)) => spec_read_items::<T>(rest, count as nat),
    }
}

/// The encodings of `items`, one after the other.
pub open spec fn spec_write_items<T: Decode>(items: Seq<T::V>) -> Seq<u8>
    decreases items.len(),
{
    if items.len() == 0 {
        Seq::empty()
    } else {
        T::spec_write(items[0]) + spec_write_items::<T>(items.skip(1))
    }
}

/// The bytes that stand for a vector: the number of its items, then the
/// items.
pub open spec fn spec_write_vector<T: Decode>(items: Seq<T::V>) -> Seq<u8> {
    be_bytes(items.len(), 8) + spec_write_items::<T>(items)
}

/// A vector can be encoded where its length fits the count field and each of
/// its items can be encoded.
pub open spec fn vector_encodable<T: Decode>(items: Seq<T::V>) -> bool {
    &&& items.len() < pow256(8)
    &&& forall|i: int| 0 <= i < items.len() ==> T::encodable(#[trigger] items[i])
}

/// Written items, one after the other, are read back as they were
/// written.
pub proof fn lemma_read_items_written<T: Decode>(items: Seq<T::V>, rest: Seq<u8>)
    requires
        forall|i: int| 0 <= i < items.len() ==> T::encodable(#[trigger] items[i]),
    ensures
        spec_read_items::<T>(spec_write_items::<T>(items) + rest, items.len()) == Ok::<
            _,
            ParserError,
        >((items, rest)),
    decreases items.len(),
{
    if items.len() == 0 {
        assert(spec_write_items::<T>(items) + rest =~= rest);
        assert(items =~= Seq::empty());
    } else {
        let others = items.skip(1);
        let tail = spec_write_items::<T>(others) + rest;
        assert(spec_write_items::<T>(items) + rest =~= T::spec_write(items[0]) + tail);
        T::lemma_read_written(items[0], tail);
        assert forall|i: int| 0 <= i < others.len() implies T::encodable(#[trigger] others[i]) by {
            assert(others[i] == items[i + 1]);
        }
        lemma_read_items_written::<T>(others, rest);
        assert(seq![items[0]] + others =~= items);
    }
}

/// A written vector is read back as it was written.
pub proof fn lemma_read_vector_written<T: Decode>(items: Seq<T::V>, rest: Seq<u8>)
    requires
        vector_encodable::<T>(items),
    ensures
        spec_read_vector::<T>(spec_write_vector::<T>(items) + rest) == Ok::<_, ParserError>(
            (items, rest),
        ),
{
    let body = spec_write_items::<T>(items) + rest;
    lemma_pow256_values();
    lemma_read_u64_written(items.len() as u64, body);
    assert(spec_write_vector::<T>(items) + rest =~= spec_write_u64(items.len() as u64) + body);
    lemma_read_items_written::<T>(items, rest);
}

/// Reads a vector: a count and that many items.
pub fn read_vector<T: Decode>(bytes: &mut ByteStream) -> (result: ParserResult<Vec<T>>)
    ensures
        follows(spec_read_vector::<T>(old(bytes)@), result, final(bytes)@),
{
    let amount = read_u64(bytes)?;
    let ghost input = bytes@;
    let mut buffer: Vec<T> = Vec::new();
    let mut count: u64 = 0;
    assert(buffer.deep_view() =~= Seq::empty());
    assert(Seq::<T::V>::empty() + Seq::<T::V>::empty() =~= Seq::<T::V>::empty());
    while count < amount
        invariant
            spec_read_u64(old(bytes)@) == Ok::<_, ParserError>((amount, input)),
            count <= amount,
            spec_read_items::<T>(input, amount as nat) == prepend(
                buffer.deep_view(),
                spec_read_items::<T>(bytes@, (amount - count) as nat),
            ),
        decreases amount - count,
    {
        let ghost before = buffer.deep_view();
        let ghost here = bytes@;
        let item = T::read(bytes)?;
        buffer.push(item);
        count = count + 1;
        proof {
            assert(buffer.deep_view() =~= before.push(item.deep_view()));
            let tail = spec_read_items::<T>(bytes@, (amount - count) as nat);
            match tail {
                Ok((others, rest)) => {
                    assert(before + (seq![item.deep_view()] + others) =~= buffer.deep_view()
                        + others);
                },
                Err(_) => {},
            }
        }
    }
    proof {
        assert(buffer.deep_view() + Seq::<T::V>::empty() =~= buffer.deep_view());
    }
    Ok(buffer)
}

/// A vector takes up its count field and at least one byte for each item.
pub proof fn lemma_read_items_consumes<T: Decode>(input: Seq<u8>, count: nat)
    ensures
        spec_read_items::<T>(input, count) is Ok ==> rest_of(
            spec_read_items::<T>(input, count),
        ).len() + count <= input.len(),
    decreases count,
{
    if count > 0 {
        T::lemma_read_consumes(input);
        if T::spec_read(input) is Ok {
            lemma_read_items_consumes::<T>(rest_of(T::spec_read(input)), (count - 1) as nat);
        }
    }
}

/// A vector takes up at least its count field.
pub proof fn lemma_read_vector_consumes<T: Decode>(input: Seq<u8>)
    ensures
        spec_read_vector::<T>(input) is Ok ==> rest_of(spec_read_vector::<T>(input)).len() + 8
            <= input.len(),
{
    lemma_read_be_consumes(input, 8, ParserError::InvalidInteger);
    if spec_read_u64(input) is Ok {
        lemma_read_items_consumes::<T>(
            rest_of(spec_read_u64(input)),
            value_of(spec_read_u64(input)) as nat,
        );
    }
}

/// An instruction: its opcode, its arguments, its line and its column.
pub open spec fn spec_read_instruction(input: Seq<u8>) -> Decoded<InstructionView> {
    let opcode = spec_read_u16(input);
    let arguments = spec_read_vector::<u32>(rest_of(opcode));
    let line = spec_read_u32(rest_of(arguments));
    let column = spec_read_u32(rest_of(line));
    if opcode is Err {
        Err(opcode->Err_0)
    } else if arguments is Err {
        Err(arguments->Err_0)
    } else if line is Err {
        Err(line->Err_0)
    } else if column is Err {
        Err(column->Err_0)
    } else {
        Ok(
            (
                InstructionView {
                    opcode: value_of(opcode),
                    arguments: value_of(arguments),
                    line: value_of(line),
                    column: value_of(column),
                },
                rest_of(column),
            ),
        )
    }
}

/// The bytes that stand for an instruction.
pub open spec fn spec_write_instruction(instruction: InstructionView) -> Seq<u8> {
    spec_write_u16(instruction.opcode) + (spec_write_vector::<u32>(instruction.arguments) + (
    spec_write_u32(instruction.line) + spec_write_u32(instruction.column)))
}

/// An instruction can be encoded where the number of its arguments fits the
/// count field.
pub open spec fn instruction_encodable(instruction: InstructionView) -> bool {
    instruction.arguments.len() < pow256(8)
}

/// A written instruction is read back as it was written.
pub proof fn lemma_read_instruction_written(instruction: InstructionView, rest: Seq<u8>)
    requires
        instruction_encodable(instruction),
    ensures
        spec_read_instruction(spec_write_instruction(instruction) + rest) == Ok::<
            _,
            ParserError,
        >((instruction, rest)),
{
    let after_line = spec_write_u32(instruction.column) + rest;
    let after_arguments = spec_write_u32(instruction.line) + after_line;
    let after_opcode = spec_write_vector::<u32>(instruction.arguments) + after_arguments;
    assert(spec_write_instruction(instruction) + rest =~= spec_write_u16(instruction.opcode)
        + after_opcode);
    lemma_read_u16_written(instruction.opcode, after_opcode);
    lemma_read_vector_written::<u32>(instruction.arguments, after_arguments);
    lemma_read_u32_written(instruction.line, after_line);
    lemma_read_u32_written(instruction.column, rest);
}

/// An instruction takes up at least one byte.
pub proof fn lemma_read_instruction_consumes(input: Seq<u8>)
    ensures
        spec_read_instruction(input) is Ok ==> rest_of(spec_read_instruction(input)).len()
            < input.len(),
{
    lemma_read_be_consumes(input, 2, ParserError::InvalidInteger);
    lemma_read_vector_consumes::<u32>(rest_of(spec_read_u16(input)));
    lemma_read_be_consumes(
        rest_of(spec_read_vector::<u32>(rest_of(spec_read_u16(input)))),
        4,
        ParserError::InvalidInteger,
    );
    lemma_read_be_consumes(
        rest_of(spec_read_u32(rest_of(spec_read_vector::<u32>(rest_of(spec_read_u16(input)))))),
        4,
        ParserError::InvalidInteger,
    );
}

/// Reads an instruction: its opcode, its arguments, its line and its
/// column. Every opcode is taken.
pub fn read_instruction(bytes: &mut ByteStream) -> (result: ParserResult<Instruction>)
    ensures
        follows(spec_read_instruction(old(bytes)@), result, final(bytes)@),
{
    let opcode = read_u16(bytes)?;
    let arguments = read_vector::<u32>(bytes)?;
    let line = read_u32(bytes)?;
    let column = read_u32(bytes)?;
    assert(arguments.deep_view() =~= arguments@);
    Ok(Instruction::new(InstructionType::new(opcode), arguments, line, column))
}

impl Decode for Instruction {
    open spec fn spec_read(input: Seq<u8>) -> Decoded<InstructionView> {
        spec_read_instruction(input)
    }

    open spec fn spec_write(value: InstructionView) -> Seq<u8> {
        spec_write_instruction(value)
    }

    open spec fn encodable(value: InstructionView) -> bool {
        instruction_encodable(value)
    }

    proof fn lemma_read_written(value: InstructionView, rest: Seq<u8>) {
        lemma_read_instruction_written(value, rest);
    }

    proof fn lemma_read_consumes(input: Seq<u8>) {
        lemma_read_instruction_consumes(input);
    }

    fn read(bytes: &mut ByteStream) -> (result: ParserResult<Instruction>) {
        read_instruction(bytes)
    }
}

/// The fields of a code object that come before its nested code objects.
pub ghost struct CodeHeader {
    pub name: Decoded<Seq<char>>,
    pub file: Decoded<Seq<char>>,
    pub line: Decoded<u32>,
    pub arguments: Decoded<u32>,
    pub required_arguments: Decoded<u32>,
    pub rest_argument: Decoded<u8>,
    pub locals: Decoded<Seq<Seq<char>>>,
    pub instructions: Decoded<Seq<InstructionView>>,
    pub integer_literals: Decoded<Seq<i64>>,
    pub float_literals: Decoded<Seq<u64>>,
    pub string_literals: Decoded<Seq<Seq<char>>>,
    pub code_count: Decoded<u64>,
}

/// Each field of the header of a code object, read where the field before it
/// ended.
pub open spec fn spec_read_code_header(input: Seq<u8>) -> CodeHeader {
    let name = spec_read_string(input);
    let file = spec_read_string(rest_of(name));
    let line = spec_read_u32(rest_of(file));
    let arguments = spec_read_u32(rest_of(line));
    let required_arguments = spec_read_u32(rest_of(arguments));
    let rest_argument = spec_read_u8(rest_of(required_arguments));
    let locals = spec_read_vector::<String>(rest_of(rest_argument));
    let instructions = spec_read_vector::<Instruction>(rest_of(locals));
    let integer_literals = spec_read_vector::<i64>(rest_of(instructions));
    let float_literals = spec_read_vector::<Float>(rest_of(integer_literals));
    let string_literals = spec_read_vector::<String>(rest_of(float_literals));
    let code_count = spec_read_u64(rest_of(string_literals));
    CodeHeader {
        name,
        file,
        line,
        arguments,
        required_arguments,
        rest_argument,
        locals,
        instructions,
        integer_literals,
        float_literals,
        string_literals,
        code_count,
    }
}

impl CodeHeader {
    /// The error of the first field that could not be read, if there is one.
    pub open spec fn failure(self) -> Option<ParserError> {
        if self.name is Err {
            Some(self.name->Err_0)
        } else if self.file is Err {
            Some(self.file->Err_0)
        } else if self.line is Err {
            Some(self.line->Err_0)
        } else if self.arguments is Err {
            Some(self.arguments->Err_0)
        } else if self.required_arguments is Err {
            Some(self.required_arguments->Err_0)
        } else if self.rest_argument is Err {
            Some(self.rest_argument->Err_0)
        } else if self.locals is Err {
            Some(self.locals->Err_0)
        } else if self.instructions is Err {
            Some(self.instructions->Err_0)
        } else if self.integer_literals is Err {
            Some(self.integer_literals->Err_0)
        } else if self.float_literals is Err {
            Some(self.float_literals->Err_0)
        } else if self.string_literals is Err {
            Some(self.string_literals->Err_0)
        } else if self.code_count is Err {
            Some(self.code_count->Err_0)
        } else {
            None
        }
    }

    /// The code object that these fields and the given nested code objects
    /// make up. The rest argument is present where its byte is 1.
    pub open spec fn assemble(self, code_objects: Seq<CompiledCodeView>) -> CompiledCodeView {
        CompiledCodeView {
            name: value_of(self.name),
            file: value_of(self.file),
            line: value_of(self.line),
            arguments: value_of(self.arguments),
            required_arguments: value_of(self.required_arguments),
            rest_argument: value_of(self.rest_argument) == 1,
            locals: value_of(self.locals),
            instructions: value_of(self.instructions),
            integer_literals: value_of(self.integer_literals),
            float_literals: value_of(self.float_literals),
            string_literals: value_of(self.string_literals),
            code_objects,
        }
    }
}

/// The header of a code object takes up at least its count of nested code
/// objects.
pub proof fn lemma_read_code_header_consumes(input: Seq<u8>)
    ensures
        spec_read_code_header(input).failure() is None ==> rest_of(
            spec_read_code_header(input).code_count,
        ).len() + 8 <= input.len(),
        ({
            let header = spec_read_code_header(input);
            &&& header.name is Ok
            &&& header.file is Ok
            &&& header.line is Ok
            &&& header.arguments is Ok
            &&& header.required_arguments is Ok
            &&& header.rest_argument is Ok
            &&& header.locals is Ok
            &&& header.instructions is Ok
            &&& header.integer_literals is Ok
            &&& header.float_literals is Ok
            &&& header.string_literals is Ok
        }) ==> rest_of(spec_read_code_header(input).string_literals).len() + 8 <= input.len(),
{
    let header = spec_read_code_header(input);
    lemma_read_string_consumes(input);
    lemma_read_string_consumes(rest_of(header.name));
    lemma_read_be_consumes(rest_of(header.file), 4, ParserError::InvalidInteger);
    lemma_read_be_consumes(rest_of(header.line), 4, ParserError::InvalidInteger);
    lemma_read_be_consumes(rest_of(header.arguments), 4, ParserError::InvalidInteger);
    lemma_read_be_consumes(rest_of(header.required_arguments), 1, ParserError::InvalidInteger);
    lemma_read_be_consumes(rest_of(header.string_literals), 8, ParserError::InvalidInteger);
    lemma_read_vector_consumes::<String>(rest_of(header.rest_argument));
    lemma_read_vector_consumes::<Instruction>(rest_of(header.locals));
    lemma_read_vector_consumes::<i64>(rest_of(header.instructions));
    lemma_read_vector_consumes::<Float>(rest_of(header.integer_literals));
    lemma_read_vector_consumes::<String>(rest_of(header.float_literals));
}

/// A code object: its header, then its nested code objects.
#[verifier::opaque]
pub open spec fn spec_read_code(input: Seq<u8>) -> Decoded<CompiledCodeView>
    decreases input.len(), 0nat,
{
    let header = spec_read_code_header(input);
    match header.failure() {
        Some(error) => Err(error),
        None => {
            proof {
                lemma_read_code_header_consumes(input);
            }
            match spec_read_codes(
                rest_of(header.code_count),
                value_of(header.code_count) as nat,
            ) {
                Err(error) => Err(error),
                Ok((code_objects, rest)) => Ok((header.assemble(code_objects), rest)),
            }
        },
    }
}

/// `count` code objects, one after the other. The test on the lengths always
/// succeeds, since a code object takes up at least one byte; it is what makes
/// the definition well-founded.
pub open spec fn spec_read_codes(input: Seq<u8>, count: nat) -> Decoded<Seq<CompiledCodeView>>
    decreases input.len(), 1 + count,
{
    if count == 0 {
        Ok((Seq::empty(), input))
    } else {
        match spec_read_code(input) {
            Err(error) => Err(error),
            Ok((first, rest)) => {
                if rest.len() < input.len() {
                    prepend(seq![first], spec_read_codes(rest, (count - 1) as nat))
                } else {
                    Err(ParserError::MissingByte)
                }
            },
        }
    }
}

/// A code object takes up at least the length field of its name.
pub proof fn lemma_read_code_consumes(input: Seq<u8>)
    ensures
        spec_read_code(input) is Ok ==> rest_of(spec_read_code(input)).len() + 8 <= input.len(),
    decreases input.len(), 0nat,
{
    reveal(spec_read_code);
    let header = spec_read_code_header(input);
    if header.failure() is None {
        lemma_read_code_header_consumes(input);
        lemma_read_codes_consumes(rest_of(header.code_count), value_of(header.code_count) as nat);
    }
}

/// What follows code objects is no longer than what they were read from.
pub proof fn lemma_read_codes_consumes(input: Seq<u8>, count: nat)
    ensures
        spec_read_codes(input, count) is Ok ==> rest_of(spec_read_codes(input, count)).len()
            <= input.len(),
    decreases input.len(), 1 + count,
{
    reveal(spec_read_code);
    if count > 0 {
        lemma_read_code_consumes(input);
        if spec_read_code(input) is Ok {
            lemma_read_codes_consumes(rest_of(spec_read_code(input)), (count - 1) as nat);
        }
    }
}

/// Code objects in a row are read one after the other: the test on the
/// lengths in [`spec_read_codes`] never fails.
pub proof fn lemma_read_codes_in_a_row(input: Seq<u8>, count: nat)
    requires
        count > 0,
    ensures
        spec_read_codes(input, count) == match spec_read_code(input) {
            Err(error) => Err(error),
            Ok((first, rest)) => prepend(seq![first], spec_read_codes(rest, (count - 1) as nat)),
        },
{
    reveal(spec_read_code);
    lemma_read_code_consumes(input);
}

/// The byte that stands for a flag.
pub open spec fn spec_write_flag(flag: bool) -> Seq<u8> {
    spec_write_u8(
        if flag {
            1u8
        } else {
            0u8
        },
    )
}

/// The encoding of the fields of a code object that come before its nested
/// code objects, the count of those included.
pub open spec fn spec_write_code_header(code: CompiledCodeView) -> Seq<u8> {
    spec_write_string(code.name) + (spec_write_string(code.file) + (spec_write_u32(code.line) + (
    spec_write_u32(code.arguments) + (spec_write_u32(code.required_arguments) + (spec_write_flag(
        code.rest_argument,
    ) + (spec_write_vector::<String>(code.locals) + (spec_write_vector::<Instruction>(
        code.instructions,
    ) + (spec_write_vector::<i64>(code.integer_literals) + (spec_write_vector::<Float>(
        code.float_literals,
    ) + (spec_write_vector::<String>(code.string_literals) + spec_write_u64(
        code.code_objects.len() as u64,
    )))))))))))
}

/// The bytes that stand for a code object: its header, then its nested
/// code objects.
pub open spec fn spec_write_code(code: CompiledCodeView) -> Seq<u8>
    decreases code,
{
    spec_write_code_header(code) + spec_write_codes(code.code_objects)
}

/// The encodings of `codes`, one after the other.
pub open spec fn spec_write_codes(codes: Seq<CompiledCodeView>) -> Seq<u8>
    decreases codes,
{
    if codes.len() == 0 {
        Seq::empty()
    } else {
        spec_write_code(codes[0]) + spec_write_codes(codes.skip(1))
    }
}

/// The fields of a code object before its nested code objects can be encoded
/// where its strings and vectors fit their length fields.
pub open spec fn code_header_encodable(code: CompiledCodeView) -> bool {
    &&& string_encodable(code.name)
    &&& string_encodable(code.file)
    &&& vector_encodable::<String>(code.locals)
    &&& vector_encodable::<Instruction>(code.instructions)
    &&& vector_encodable::<i64>(code.integer_literals)
    &&& vector_encodable::<Float>(code.float_literals)
    &&& vector_encodable::<String>(code.string_literals)
    &&& code.code_objects.len() < pow256(8)
}

/// A code object can be encoded where its strings and vectors fit their
/// length fields, and the same holds of each nested code object.
pub open spec fn code_encodable(code: CompiledCodeView) -> bool
    decreases code,
{
    &&& code_header_encodable(code)
    &&& forall|i: int|
        0 <= i < code.code_objects.len() ==> code_encodable(#[trigger] code.code_objects[i])
}

/// Putting three sequences of bytes in a row gives the same whichever two
/// are joined first.
pub proof fn lemma_concat_associative(a: Seq<u8>, b: Seq<u8>, c: Seq<u8>)
    ensures
        (a + b) + c == a + (b + c),
{
    assert((a + b) + c =~= a + (b + c));
}

/// The written header of a code object in front of any bytes is read back,
/// field by field, as it was written.
pub proof fn lemma_read_code_header_written(code: CompiledCodeView, tail: Seq<u8>)
    requires
        code_header_encodable(code),
    ensures
        spec_read_code_header(spec_write_code_header(code) + tail).failure() is None,
        rest_of(spec_read_code_header(spec_write_code_header(code) + tail).code_count) == tail,
        value_of(spec_read_code_header(spec_write_code_header(code) + tail).code_count)
            == code.code_objects.len(),
        spec_read_code_header(spec_write_code_header(code) + tail).assemble(code.code_objects)
            == code,
{
    let count = code.code_objects.len() as u64;
    let flag = if code.rest_argument {
        1u8
    } else {
        0u8
    };
    let w0 = spec_write_string(code.name);
    let w1 = spec_write_string(code.file);
    let w2 = spec_write_u32(code.line);
    let w3 = spec_write_u32(code.arguments);
    let w4 = spec_write_u32(code.required_arguments);
    let w5 = spec_write_u8(flag);
    let w6 = spec_write_vector::<String>(code.locals);
    let w7 = spec_write_vector::<Instruction>(code.instructions);
    let w8 = spec_write_vector::<i64>(code.integer_literals);
    let w9 = spec_write_vector::<Float>(code.float_literals);
    let w10 = spec_write_vector::<String>(code.string_literals);
    let w11 = spec_write_u64(count);
    let t10 = w11 + tail;
    let t9 = w10 + t10;
    let t8 = w9 + t9;
    let t7 = w8 + t8;
    let t6 = w7 + t7;
    let t5 = w6 + t6;
    let t4 = w5 + t5;
    let t3 = w4 + t4;
    let t2 = w3 + t3;
    let t1 = w2 + t2;
    let t0 = w1 + t1;
    let input = w0 + t0;
    let h10 = w10 + w11;
    let h9 = w9 + h10;
    let h8 = w8 + h9;
    let h7 = w7 + h8;
    let h6 = w6 + h7;
    let h5 = w5 + h6;
    let h4 = w4 + h5;
    let h3 = w3 + h4;
    let h2 = w2 + h3;
    let h1 = w1 + h2;
    lemma_concat_associative(w10, w11, tail);
    lemma_concat_associative(w9, h10, tail);
    lemma_concat_associative(w8, h9, tail);
    lemma_concat_associative(w7, h8, tail);
    lemma_concat_associative(w6, h7, tail);
    lemma_concat_associative(w5, h6, tail);
    lemma_concat_associative(w4, h5, tail);
    lemma_concat_associative(w3, h4, tail);
    lemma_concat_associative(w2, h3, tail);
    lemma_concat_associative(w1, h2, tail);
    lemma_concat_associative(w0, h1, tail);
    assert(spec_write_code_header(code) + tail == input);
    lemma_read_string_written(code.name, t0);
    lemma_read_string_written(code.file, t1);
    lemma_read_u32_written(code.line, t2);
    lemma_read_u32_written(code.arguments, t3);
    lemma_read_u32_written(code.required_arguments, t4);
    lemma_read_u8_written(flag, t5);
    lemma_read_vector_written::<String>(code.locals, t6);
    lemma_read_vector_written::<Instruction>(code.instructions, t7);
    lemma_read_vector_written::<i64>(code.integer_literals, t8);
    lemma_read_vector_written::<Float>(code.float_literals, t9);
    lemma_read_vector_written::<String>(code.string_literals, t10);
    lemma_pow256_values();
    lemma_read_u64_written(count, tail);
}

/// A written code object in front of any bytes is read back as it was
/// written, on every field.
pub proof fn lemma_read_code_written(code: CompiledCodeView, rest: Seq<u8>)
    requires
        code_encodable(code),
    ensures
        spec_read_code(spec_write_code(code) + rest) == Ok::<_, ParserError>((code, rest)),
    decreases code,
{
    reveal(spec_read_code);
    let tail = spec_write_codes(code.code_objects) + rest;
    lemma_concat_associative(spec_write_code_header(code), spec_write_codes(code.code_objects), rest);
    lemma_read_code_header_written(code, tail);
    lemma_read_codes_written(code.code_objects, rest);
}

/// Written code objects, one after the other, are read back as they were
/// written.
pub proof fn lemma_read_codes_written(codes: Seq<CompiledCodeView>, rest: Seq<u8>)
    requires
        forall|i: int| 0 <= i < codes.len() ==> code_encodable(#[trigger] codes[i]),
    ensures
        spec_read_codes(spec_write_codes(codes) + rest, codes.len()) == Ok::<_, ParserError>(
            (codes, rest),
        ),
    decreases codes,
{
    reveal(spec_read_code);
    if codes.len() == 0 {
        assert(spec_write_codes(codes) + rest =~= rest);
        assert(codes =~= Seq::empty());
    } else {
        let others = codes.skip(1);
        let tail = spec_write_codes(others) + rest;
        let input = spec_write_code(codes[0]) + tail;
        assert(spec_write_codes(codes) + rest =~= input);
        lemma_read_code_written(codes[0], tail);
        lemma_read_code_consumes(input);
        assert forall|i: int| 0 <= i < others.len() implies code_encodable(
            #[trigger] others[i],
        ) by {
            assert(others[i] == codes[i + 1]);
        }
        lemma_read_codes_written(others, rest);
        assert(seq![codes[0]] + others =~= codes);
    }
}

/// A vector of code objects: its count, then that many code objects.
pub open spec fn spec_read_code_vector(input: Seq<u8>) -> Decoded<Seq<CompiledCodeView>> {
    match spec_read_u64(input) {
        Err(error) => Err(error),
        Ok((count, rest)) => spec_read_codes(rest, count as nat),
    }
}

/// Reads a code object, nested code objects included.
pub fn read_compiled_code(bytes: &mut ByteStream) -> (result: ParserResult<RcCompiledCode>)
    ensures
        follows(spec_read_code(old(bytes)@), result, final(bytes)@),
    decreases old(bytes)@.len(), 0nat,
{
    proof {
        reveal(spec_read_code);
    }
    let name = read_string(bytes)?;
    let file = read_string(bytes)?;
    let line = read_u32(bytes)?;
    let arguments = read_u32(bytes)?;
    let required_arguments = read_u32(bytes)?;
    let rest_argument = read_u8(bytes)? == 1;
    let locals = read_vector::<String>(bytes)?;
    let instructions = read_vector::<Instruction>(bytes)?;
    let integer_literals = read_vector::<i64>(bytes)?;
    let float_literals = read_vector::<Float>(bytes)?;
    let string_literals = read_vector::<String>(bytes)?;
    proof {
        lemma_read_code_header_consumes(old(bytes)@);
    }
    let code_objects = read_code_vector(bytes)?;
    let code = CompiledCode {
        name,
        file,
        line,
        arguments,
        required_arguments,
        rest_argument,
        locals,
        instructions,
        integer_literals,
        float_literals,
        string_literals,
        code_objects,
    };
    proof {
        assert(code@.code_objects =~= code.code_objects.deep_view());
    }
    Ok(Arc::new(code))
}

/// Reads a vector of code objects.
pub fn read_code_vector(bytes: &mut ByteStream) -> (result: ParserResult<Vec<RcCompiledCode>>)
    ensures
        follows(spec_read_code_vector(old(bytes)@), result, final(bytes)@),
    decreases old(bytes)@.len(), 1nat,
{
    proof {
        reveal(spec_read_code);
        lemma_read_be_consumes(old(bytes)@, 8, ParserError::InvalidInteger);
    }
    let amount = read_u64(bytes)?;
    let ghost input = bytes@;
    let mut buffer: Vec<RcCompiledCode> = Vec::new();
    let mut count: u64 = 0;
    assert(buffer.deep_view() =~= Seq::empty());
    assert(Seq::<CompiledCodeView>::empty() + Seq::<CompiledCodeView>::empty() =~= Seq::<
        CompiledCodeView,
    >::empty());
    while count < amount
        invariant
            spec_read_u64(old(bytes)@) == Ok::<_, ParserError>((amount, input)),
            count <= amount,
            input.len() <= old(bytes)@.len(),
            bytes@.len() <= input.len(),
            spec_read_codes(input, amount as nat) == prepend(
                buffer.deep_view(),
                spec_read_codes(bytes@, (amount - count) as nat),
            ),
        decreases amount - count,
    {
        let ghost before = buffer.deep_view();
        proof {
            reveal(spec_read_code);
            lemma_read_code_consumes(bytes@);
        }
        let item = read_compiled_code(bytes)?;
        buffer.push(item);
        count = count + 1;
        proof {
            assert(buffer.deep_view() =~= before.push(item.deep_view()));
            let tail = spec_read_codes(bytes@, (amount - count) as nat);
            match tail {
                Ok((others, rest)) => {
                    assert(before + (seq![item.deep_view()] + others) =~= buffer.deep_view()
                        + others);
                },
                Err(_) => {},
            }
        }
    }
    proof {
        assert(buffer.deep_view() + Seq::<CompiledCodeView>::empty() =~= buffer.deep_view());
    }
    Ok(buffer)
}

/// The four bytes that every bytecode file starts with: `aeon`.
pub open spec fn signature() -> Seq<u8> {
    seq![97u8, 101u8, 111u8, 110u8]
}

/// A bytecode file: the signature, the version and one code object. Bytes
/// after the code object are not looked at.
pub open spec fn spec_parse(input: Seq<u8>) -> Decoded<CompiledCodeView> {
    if !signature().is_prefix_of(input) {
        Err(ParserError::InvalidSignature)
    } else if input.len() < 5 || input[4] != VERSION {
        Err(ParserError::InvalidVersion)
    } else {
        spec_read_code(input.skip(5))
    }
}

/// The bytes of a bytecode file that holds `code`.
pub open spec fn spec_write_file(code: CompiledCodeView) -> Seq<u8> {
    signature() + (seq![VERSION] + spec_write_code(code))
}

/// A file that starts with the signature and the version is parsed as the
/// code object that follows them.
pub proof fn lemma_parse_skips_preamble(body: Seq<u8>)
    ensures
        spec_parse(signature() + (seq![VERSION] + body)) == spec_read_code(body),
{
    let file = signature() + (seq![VERSION] + body);
    assert(signature().is_prefix_of(file));
    assert(file.skip(5) =~= body);
}

/// Encoding a code object as a bytecode file and parsing the file gives the
/// code object back, equal on every field.
pub proof fn lemma_parse_round_trip(code: CompiledCodeView)
    requires
        code_encodable(code),
    ensures
        spec_parse(spec_write_file(code)) == Ok::<_, ParserError>((code, Seq::<u8>::empty())),
{
    let body = spec_write_code(code);
    lemma_parse_skips_preamble(body);
    assert(body + Seq::<u8>::empty() =~= body);
    lemma_read_code_written(code, Seq::empty());
}

/// Parses a stream of bytes that holds a bytecode file.
pub fn parse(bytes: &mut ByteStream) -> (result: BytecodeResult)
    ensures
        follows(spec_parse(old(bytes)@), result, final(bytes)@),
{
    let ghost input = bytes@;
    let mut index: usize = 0;
    while index < 4
        invariant
            input == old(bytes)@,
            index <= 4,
            index <= input.len(),
            bytes@ == input.skip(index as int),
            forall|i: int| 0 <= i < index ==> input[i] == signature()[i],
        decreases 4 - index,
    {
        let expected: u8 = if index == 0 {
            97
        } else if index == 1 {
            101
        } else if index == 2 {
            111
        } else {
            110
        };
        match bytes.next() {
            Some(byte) => {
                assert(input.skip(index as int).skip(1) =~= input.skip(index + 1));
                if byte != expected {
                    assert(input[index as int] != signature()[index as int]);
                    return Err(ParserError::InvalidSignature);
                }
            },
            None => {
                assert(input.skip(index as int).len() == input.len() - index);
                return Err(ParserError::InvalidSignature);
            },
        }
        index = index + 1;
    }
    assert(signature().is_prefix_of(input)) by {
        assert(input.subrange(0, 4) =~= signature());
    }
    match bytes.next() {
        Some(version) => {
            assert(input.skip(4).skip(1) =~= input.skip(5));
            if version != VERSION {
                return Err(ParserError::InvalidVersion);
            }
        },
        None => {
            return Err(ParserError::InvalidVersion);
        },
    }
    read_compiled_code(bytes)
}

} // verus!
