//! Variable-length 32-bit integers: one to five bytes, each carrying seven
//! bits of the value, least significant group first, with the high bit set
//! on every byte but the last.

use vstd::prelude::*;
use vstd::std_specs::convert::IntoSpec;
use vstd::string::StringExecFns;
use crate::encoding::cursor::Cursor;
use crate::error::CodecError;

verus! {

/// A signed 32-bit integer together with a byte count.
#[derive(Debug, Clone, Copy, PartialEq, Eq, Structural, PartialOrd, Ord, Hash)]
pub struct VarInt {
    /// The value of the VarInt.
    val: i32,
    /// The length of the VarInt in bytes.
    len: usize,
}

/// The byte count that [`VarInt::new`] records for `value`: the least number
/// of 7-bit groups whose signed range holds it, five where four do not.
pub open spec fn signed_width(value: int) -> nat {
    if -128 <= value < 128 {
        1
    } else if -16384 <= value < 16384 {
        2
    } else if -2097152 <= value < 2097152 {
        3
    } else if -268435456 <= value < 268435456 {
        4
    } else {
        5
    }
}

/// The seven value bits of a byte.
pub open spec fn payload(byte: u8) -> nat {
    (byte % 128) as nat
}

/// The number that a run of bytes carries: the payload of the first byte,
/// plus 128 times what the bytes after it carry.
pub open spec fn groups_value(bytes: Seq<u8>) -> nat
    decreases bytes.len(),
{
    if bytes.len() == 0 {
        0
    } else {
        payload(bytes[0]) + 128 * groups_value(bytes.skip(1))
    }
}

/// The signed 32-bit integer whose bit pattern is the low 32 bits of `x`.
pub open spec fn wrap_i32(x: int) -> int {
    let m = x % 0x1_0000_0000;
    if m < 0x8000_0000 {
        m
    } else {
        m - 0x1_0000_0000
    }
}

/// The unsigned 32-bit integer with the bit pattern of `v`.
pub open spec fn unsigned_of(v: i32) -> nat {
    if v >= 0 {
        v as nat
    } else {
        (v + 0x1_0000_0000) as nat
    }
}

/// An encoding ends with byte `n` of `bytes`: that byte has no continuation
/// bit, every byte before it has one, and `n` is between 1 and 5.
pub open spec fn varint_ends_at(bytes: Seq<u8>, n: int) -> bool {
    &&& 1 <= n <= 5
    &&& n <= bytes.len()
    &&& bytes[n - 1] < 128
    &&& forall|i: int| 0 <= i < n - 1 ==> bytes[i] >= 128
}

/// The first five bytes all ask for another byte.
pub open spec fn varint_too_big(bytes: Seq<u8>) -> bool {
    &&& bytes.len() >= 5
    &&& forall|i: int| 0 <= i < 5 ==> bytes[i] >= 128
}

/// The bytes end before the encoding does.
pub open spec fn varint_truncated(bytes: Seq<u8>) -> bool {
    &&& bytes.len() < 5
    &&& forall|i: int| 0 <= i < bytes.len() ==> bytes[i] >= 128
}

/// Where the encoding at the start of `bytes` ends: the number of its bytes,
/// or 0 where none ends within the first five bytes.
pub open spec fn varint_len(bytes: Seq<u8>) -> int {
    if varint_ends_at(bytes, 1) {
        1
    } else if varint_ends_at(bytes, 2) {
        2
    } else if varint_ends_at(bytes, 3) {
        3
    } else if varint_ends_at(bytes, 4) {
        4
    } else if varint_ends_at(bytes, 5) {
        5
    } else {
        0
    }
}

/// An encoding ends in one place only.
pub proof fn law_varint_ends_once(bytes: Seq<u8>, n: int)
    requires
        varint_ends_at(bytes, n),
    ensures
        varint_len(bytes) == n,
{
}

/// Bytes either hold an encoding at their start, or ask for a sixth byte,
/// or end too early; never two of these.
pub proof fn law_varint_cases(bytes: Seq<u8>)
    ensures
        varint_len(bytes) > 0 <==> !varint_too_big(bytes) && !varint_truncated(bytes),
        !(varint_too_big(bytes) && varint_truncated(bytes)),
        varint_len(bytes) > 0 ==> varint_ends_at(bytes, varint_len(bytes)),
{
}

/// What a reader reports of bytes that hold no encoding at their start:
/// whether the error is of the `Io` kind, and its message.
pub open spec fn varint_failure(bytes: Seq<u8>) -> (bool, Seq<char>) {
    if varint_truncated(bytes) {
        (true, "unexpected end of input"@)
    } else {
        (false, "VarInt is too big"@)
    }
}

/// The value that the first `n` bytes encode.
pub open spec fn varint_value(bytes: Seq<u8>, n: int) -> int {
    wrap_i32(groups_value(bytes.take(n)) as int)
}

/// The groups of `x`, low group first, as few as hold it.
pub open spec fn encode_groups(x: nat) -> Seq<u8>
    decreases x,
{
    if x < 128 {
        seq![x as u8]
    } else {
        seq![(x % 128 + 128) as u8] + encode_groups(x / 128)
    }
}

/// The encoding of `v`.
pub open spec fn varint_bytes(v: i32) -> Seq<u8> {
    encode_groups(unsigned_of(v))
}

/// The number of groups that hold `x`.
pub open spec fn unsigned_width(x: nat) -> nat {
    if x < 128 {
        1
    } else if x < 16384 {
        2
    } else if x < 2097152 {
        3
    } else if x < 268435456 {
        4
    } else {
        5
    }
}

impl VarInt {
    /// The integer this VarInt stands for.
    pub closed spec fn value(&self) -> i32 {
        self.val
    }

    /// The byte count this VarInt carries.
    pub closed spec fn width(&self) -> usize {
        self.len
    }

    /// The VarInt that [`VarInt::new`] makes of `value`.
    pub closed spec fn of(value: i32) -> VarInt {
        VarInt { val: value, len: signed_width(value as int) as usize }
    }

    /// What [`VarInt::of`] holds.
    pub proof fn law_of(value: i32)
        ensures
            VarInt::of(value).value() == value,
            VarInt::of(value).width() == signed_width(value as int),
    {
    }

    /// The VarInt for `value`, with the byte count of its signed range.
    pub fn new(value: i32) -> (v: VarInt)
        ensures
            v == VarInt::of(value),
            v.value() == value,
            v.width() == signed_width(value as int),
    {
        let bytes_required: usize = if value < 128 && value >= -128 {
            1
        } else if value < 16384 && value >= -16384 {
            2
        } else if value < 2097152 && value >= -2097152 {
            3
        } else if value < 268435456 && value >= -268435456 {
            4
        } else {
            5
        };
        VarInt { val: value, len: bytes_required }
    }

    /// The integer.
    pub fn val(&self) -> (v: i32)
        ensures
            v == self.value(),
    {
        self.val
    }

    /// The byte count.
    pub fn len(&self) -> (n: usize)
        ensures
            n == self.width(),
    {
        self.len
    }
}

/// 128 to the power `n`.
pub open spec fn pow128(n: nat) -> nat
    decreases n,
{
    if n == 0 {
        1
    } else {
        128 * pow128((n - 1) as nat)
    }
}

/// Appending a byte adds its payload, scaled by the groups before it.
pub proof fn lemma_groups_value_push(bytes: Seq<u8>, byte: u8)
    ensures
        groups_value(bytes.push(byte)) == groups_value(bytes) + payload(byte) * pow128(bytes.len()),
    decreases bytes.len(),
{
    let all = bytes.push(byte);
    if bytes.len() == 0 {
        assert(groups_value(all) == payload(all[0]) + 128 * groups_value(all.skip(1)));
        assert(payload(byte) * 1 == payload(byte)) by (nonlinear_arith);
    } else {
        let rest = bytes.skip(1);
        lemma_groups_value_push(rest, byte);
        assert(all.skip(1) =~= rest.push(byte));
        let p = payload(byte);
        let q = pow128(rest.len());
        assert(128 * (p * q) == p * (128 * q)) by (nonlinear_arith);
    }
}

/// What a run of `n` bytes carries is below 128 to the power `n`.
pub proof fn lemma_groups_value_bound(bytes: Seq<u8>)
    ensures
        groups_value(bytes) < pow128(bytes.len()),
    decreases bytes.len(),
{
    if bytes.len() > 0 {
        lemma_groups_value_bound(bytes.skip(1));
    }
}

/// The small powers of 128.
pub proof fn lemma_pow128_values()
    ensures
        pow128(0) == 1,
        pow128(1) == 128,
        pow128(2) == 16384,
        pow128(3) == 2097152,
        pow128(4) == 268435456,
        pow128(5) == 34359738368,
{
}

/// What a decoder makes of one more byte.
#[derive(Debug, Clone, Copy, PartialEq, Eq, Structural)]
pub enum DecodeStep {
    /// The byte asks for another one.
    NeedMore,
    /// The byte ended the encoding of this integer.
    Done(VarInt),
    /// The fifth byte asked for a sixth.
    TooBig,
}

/// Decodes an integer from bytes that arrive one at a time.
pub struct VarIntDecoder {
    acc: u64,
    scale: u64,
    count: usize,
    seen: Ghost<Seq<u8>>,
}

impl VarIntDecoder {
    /// Fewer than five bytes are pending, and the sum and the scale are theirs.
    #[verifier::type_invariant]
    spec fn consistent(&self) -> bool {
        &&& self.count == self.seen@.len()
        &&& self.count < 5
        &&& self.scale == pow128(self.count as nat)
        &&& self.acc == groups_value(self.seen@)
    }

    /// The bytes taken in since the last integer ended.
    pub closed spec fn pending(&self) -> Seq<u8> {
        self.seen@
    }

    /// A decoder that has seen nothing.
    pub fn new() -> (d: VarIntDecoder)
        ensures
            d.pending() == Seq::<u8>::empty(),
    {
        VarIntDecoder { acc: 0, scale: 1, count: 0, seen: Ghost(Seq::empty()) }
    }

    /// Takes in the next byte.
    ///
    /// A byte without continuation bit ends the integer: its value is what
    /// the pending bytes and this one carry, cut to 32 bits, and its byte
    /// count is their number. A fifth byte with continuation bit is one too
    /// many. Either way the decoder starts afresh.
    pub fn push(&mut self, byte: u8) -> (step: DecodeStep)
        ensures
            match step {
                DecodeStep::NeedMore => {
                    &&& byte >= 128
                    &&& old(self).pending().len() < 4
                    &&& final(self).pending() == old(self).pending().push(byte)
                },
                DecodeStep::Done(v) => {
                    &&& byte < 128
                    &&& v.width() == old(self).pending().len() + 1
                    &&& v.width() <= 5
                    &&& v.value() == wrap_i32(groups_value(old(self).pending().push(byte)) as int)
                    &&& final(self).pending() == Seq::<u8>::empty()
                },
                DecodeStep::TooBig => {
                    &&& byte >= 128
                    &&& old(self).pending().len() == 4
                    &&& final(self).pending() == Seq::<u8>::empty()
                },
            },
    {
        proof {
            use_type_invariant(&*self);
            lemma_groups_value_push(self.seen@, byte);
            lemma_groups_value_bound(self.seen@);
            lemma_pow128_values();
        }
        let ghost all = self.seen@.push(byte);
        let group: u64 = (byte % 128) as u64;
        assert(group * self.scale <= 127 * 268435456) by (nonlinear_arith)
            requires
                group <= 127,
                self.scale <= 268435456,
        ;
        let acc: u64 = self.acc + group * self.scale;
        if byte < 128 {
            let v = VarInt { val: signed_of(acc), len: self.count + 1 };
            *self = VarIntDecoder { acc: 0, scale: 1, count: 0, seen: Ghost(Seq::empty()) };
            DecodeStep::Done(v)
        } else if self.count == 4 {
            *self = VarIntDecoder { acc: 0, scale: 1, count: 0, seen: Ghost(Seq::empty()) };
            DecodeStep::TooBig
        } else {
            *self = VarIntDecoder {
                acc,
                scale: self.scale * 128,
                count: self.count + 1,
                seen: Ghost(all),
            };
            DecodeStep::NeedMore
        }
    }
}

/// The signed integer with the low 32 bits of `x`.
fn signed_of(x: u64) -> (v: i32)
    ensures
        v == wrap_i32(x as int),
{
    let m: u64 = x % 4294967296;
    if m < 2147483648 {
        m as i32
    } else {
        (m as i64 - 4294967296) as i32
    }
}

/// The unsigned integer with the bits of `v`.
fn unsigned(v: i32) -> (x: u32)
    ensures
        x == unsigned_of(v),
{
    if v >= 0 {
        v as u32
    } else {
        (v as i64 + 4294967296) as u32
    }
}

/// Reads one integer at the cursor's position.
///
/// Bytes are taken up to and including the first without continuation bit.
/// Where the bytes run out before that, the error is `Io`; where the fifth
/// byte still asks for more, it is `Generic`. The bytes looked at are
/// consumed in every case.
pub fn read_varint(cursor: &mut Cursor) -> (r: Result<VarInt, CodecError>)
    ensures
        final(cursor).bytes() == old(cursor).bytes(),
        r is Ok <==> varint_len(old(cursor).remaining()) > 0,
        r matches Ok(v) ==> {
            let n = varint_len(old(cursor).remaining());
            &&& v.width() == n
            &&& v.value() == varint_value(old(cursor).remaining(), n)
            &&& final(cursor).offset() == old(cursor).offset() + n
        },
        r matches Err(e) ==> {
            let rem = old(cursor).remaining();
            &&& (e is Io, e.message_text()) == varint_failure(rem)
            &&& final(cursor).offset() == old(cursor).offset() + if varint_truncated(rem) {
                rem.len()
            } else {
                5
            }
        },
{
    let ghost rem = cursor.remaining();
    let mut decoder = VarIntDecoder::new();
    let mut i: usize = 0;
    loop
        invariant
            i <= 4,
            rem == old(cursor).remaining(),
            cursor.bytes() == old(cursor).bytes(),
            i <= rem.len(),
            cursor.offset() == old(cursor).offset() + i,
            decoder.pending() == rem.take(i as int),
            forall|j: int| 0 <= j < i ==> rem[j] >= 128,
        decreases 4 - i,
    {
        let byte = match cursor.read_u8() {
            Ok(b) => b,
            Err(e) => {
                return Err(e);
            },
        };
        assert(rem.take(i as int).push(byte) == rem.take(i + 1));
        match decoder.push(byte) {
            DecodeStep::Done(v) => {
                return Ok(v);
            },
            DecodeStep::TooBig => {
                return Err(CodecError::Generic("VarInt is too big".to_string()));
            },
            DecodeStep::NeedMore => {},
        }
        i = i + 1;
    }
}

/// The encoding of `value`, in a fresh vector.
pub fn encode_varint(value: i32) -> (out: Vec<u8>)
    ensures
        out@ == varint_bytes(value),
{
    let mut x: u32 = unsigned(value);
    let mut out: Vec<u8> = Vec::new();
    while x >= 128
        invariant
            varint_bytes(value) == out@ + encode_groups(x as nat),
        decreases x,
    {
        let b: u8 = (x % 128 + 128) as u8;
        out.push(b);
        x = x / 128;
    }
    out.push(x as u8);
    out
}

/// What writing the encoding of `value` makes of a cursor: the bytes are
/// written at the position, which moves behind them; or, where they would
/// end beyond `usize::MAX`, nothing changes and the error says so.
pub open spec fn varint_written(
    before: Cursor,
    after: Cursor,
    r: Result<(), CodecError>,
    value: i32,
) -> bool {
    let bytes = varint_bytes(value);
    let at = before.offset();
    if at + bytes.len() <= usize::MAX {
        &&& r is Ok
        &&& after.bytes() == crate::encoding::cursor::overwritten(before.bytes(), at as int, bytes)
        &&& after.offset() == at + bytes.len()
    } else {
        &&& r matches Err(CodecError::Io(m))
        &&& m@ == "write past the addressable range"@
        &&& after.bytes() == before.bytes()
        &&& after.offset() == at
    }
}

/// Writes the encoding of `value` at the cursor's position.
///
/// The bytes written are as few as hold the value: one for 0 to 127, five
/// for every negative number.
pub fn write_varint_value(value: i32, cursor: &mut Cursor) -> (r: Result<(), CodecError>)
    ensures
        varint_written(*old(cursor), *final(cursor), r, value),
{
    let bytes = encode_varint(value);
    cursor.write_all(bytes.as_slice())
}

/// Writes the encoding of what `value` converts to, at the cursor's
/// position, as [`write_varint_value`] writes it.
pub fn write_varint<A: Into<VarInt>>(value: A, cursor: &mut Cursor) -> (r: Result<(), CodecError>)
    ensures
        exists|v: VarInt|
            {
                &&& #[trigger] varint_written(*old(cursor), *final(cursor), r, v.value())
                &&& A::obeys_into_spec() ==> v == value.into_spec()
            },
{
    let v: VarInt = value.into();
    let r = write_varint_value(v.val, cursor);
    assert(varint_written(*old(cursor), *cursor, r, v.value()));
    r
}

impl From<i32> for VarInt {
    /// As [`VarInt::new`].
    fn from(value: i32) -> (v: VarInt) {
        VarInt::new(value)
    }
}

impl vstd::std_specs::convert::FromSpecImpl<i32> for VarInt {
    open spec fn obeys_from_spec() -> bool {
        true
    }

    open spec fn from_spec(value: i32) -> VarInt {
        VarInt::of(value)
    }
}

impl From<VarInt> for i32 {
    /// The integer, without the byte count.
    fn from(varint: VarInt) -> (v: i32) {
        varint.val
    }
}

impl vstd::std_specs::convert::FromSpecImpl<VarInt> for i32 {
    open spec fn obeys_from_spec() -> bool {
        true
    }

    open spec fn from_spec(varint: VarInt) -> i32 {
        varint.value()
    }
}

/// The `usize` with the low bits of `v`, as a cast gives it: `v` itself where
/// it is not negative, and else as far below `usize::MAX + 1` as `v` is below 0.
pub open spec fn index_of(v: int) -> int {
    if v >= 0 {
        v
    } else {
        v + usize::MAX + 1
    }
}

impl Into<usize> for VarInt {
    /// The integer as a length or an index: what a cast to `usize` gives.
    fn into(self) -> (n: usize) {
        if self.val >= 0 {
            self.val as usize
        } else {
            usize::MAX - ((-(self.val + 1)) as usize)
        }
    }
}

impl vstd::std_specs::convert::IntoSpecImpl<usize> for VarInt {
    open spec fn obeys_into_spec() -> bool {
        true
    }

    open spec fn into_spec(self) -> usize {
        index_of(self.value() as int) as usize
    }
}

/// The character of a decimal digit.
pub open spec fn digit_char(d: nat) -> char {
    if d == 0 {
        '0'
    } else if d == 1 {
        '1'
    } else if d == 2 {
        '2'
    } else if d == 3 {
        '3'
    } else if d == 4 {
        '4'
    } else if d == 5 {
        '5'
    } else if d == 6 {
        '6'
    } else if d == 7 {
        '7'
    } else if d == 8 {
        '8'
    } else {
        '9'
    }
}

/// The decimal digits of `n`, the highest first, without leading zeros.
pub open spec fn decimal_digits(n: nat) -> Seq<char>
    decreases n,
{
    if n < 10 {
        seq![digit_char(n)]
    } else {
        decimal_digits(n / 10).push(digit_char(n % 10))
    }
}

/// `v` in decimal, with a minus sign in front where it is negative.
pub open spec fn decimal_text(v: int) -> Seq<char> {
    if v < 0 {
        seq!['-'] + decimal_digits((-v) as nat)
    } else {
        decimal_digits(v as nat)
    }
}

/// The characters of a run of digits, the last digit first.
pub open spec fn digits_reversed(digits: Seq<u8>) -> Seq<char> {
    Seq::new(digits.len(), |i: int| digit_char(digits[digits.len() - 1 - i] as nat))
}

/// The one-character string of a decimal digit.
fn digit_str(d: u8) -> (s: &'static str)
    requires
        d < 10,
    ensures
        s@ == seq![digit_char(d as nat)],
{
    proof {
        reveal_strlit("0");
        reveal_strlit("1");
        reveal_strlit("2");
        reveal_strlit("3");
        reveal_strlit("4");
        reveal_strlit("5");
        reveal_strlit("6");
        reveal_strlit("7");
        reveal_strlit("8");
        reveal_strlit("9");
    }
    let s = if d == 0 {
        "0"
    } else if d == 1 {
        "1"
    } else if d == 2 {
        "2"
    } else if d == 3 {
        "3"
    } else if d == 4 {
        "4"
    } else if d == 5 {
        "5"
    } else if d == 6 {
        "6"
    } else if d == 7 {
        "7"
    } else if d == 8 {
        "8"
    } else {
        "9"
    };
    s
}

impl VarInt {
    /// The integer in decimal, as it is printed.
    pub fn to_text(&self) -> (s: String)
        ensures
            s@ == decimal_text(self.value() as int),
    {
        let negative = self.val < 0;
        let start: u64 = if negative {
            (-(self.val as i64)) as u64
        } else {
            self.val as u64
        };
        let mut rest: u64 = start;
        let mut digits: Vec<u8> = Vec::new();
        while rest >= 10
            invariant
                decimal_digits(start as nat) == decimal_digits(rest as nat) + digits_reversed(
                    digits@,
                ),
                forall|i: int| 0 <= i < digits@.len() ==> digits@[i] < 10,
            decreases rest,
        {
            let d = (rest % 10) as u8;
            digits.push(d);
            rest = rest / 10;
        }
        digits.push(rest as u8);
        let mut s = String::new();
        if negative {
            proof {
                reveal_strlit("-");
            }
            s.append("-");
        }
        let ghost sign = s@;
        let mut k: usize = digits.len();
        while k > 0
            invariant
                k <= digits@.len(),
                forall|i: int| 0 <= i < digits@.len() ==> digits@[i] < 10,
                s@ == sign + digits_reversed(digits@).take(digits@.len() - k),
            decreases k,
        {
            k = k - 1;
            s.append(digit_str(digits[k]));
        }
        s
    }
}

impl Default for VarInt {
    /// Zero, with a byte count of zero.
    fn default() -> (v: VarInt)
        ensures
            v.value() == 0,
            v.width() == 0,
    {
        VarInt { val: 0, len: 0 }
    }
}

/// The groups of `x` end with a byte below 128 and hold no other such byte.
pub proof fn lemma_encode_groups_shape(x: nat)
    ensures
        encode_groups(x).len() >= 1,
        encode_groups(x).last() < 128,
        forall|i: int| 0 <= i < encode_groups(x).len() - 1 ==> encode_groups(x)[i] >= 128,
    decreases x,
{
    if x >= 128 {
        lemma_encode_groups_shape(x / 128);
    }
}

/// The groups of `x` carry `x`.
pub proof fn lemma_encode_groups_value(x: nat)
    ensures
        groups_value(encode_groups(x)) == x,
    decreases x,
{
    let e = encode_groups(x);
    if x < 128 {
        assert(groups_value(e) == payload(e[0]) + 128 * groups_value(e.skip(1)));
    } else {
        lemma_encode_groups_value(x / 128);
        assert(e.skip(1) =~= encode_groups(x / 128));
    }
}

/// The groups of `x` are as many as hold it.
pub proof fn lemma_encode_groups_len(x: nat)
    requires
        x < 0x1_0000_0000,
    ensures
        encode_groups(x).len() == unsigned_width(x),
{
    reveal_with_fuel(encode_groups, 6);
}

/// Reading what was written gives the value back: the encoding of `v`,
/// whatever follows it, ends at its own length and decodes to `v`.
pub proof fn law_varint_round_trip(v: i32, rest: Seq<u8>)
    ensures
        varint_ends_at(varint_bytes(v) + rest, varint_bytes(v).len() as int),
        varint_value(varint_bytes(v) + rest, varint_bytes(v).len() as int) == v,
        varint_bytes(v).len() == unsigned_width(unsigned_of(v)),
{
    let x = unsigned_of(v);
    let e = varint_bytes(v);
    lemma_encode_groups_shape(x);
    lemma_encode_groups_value(x);
    lemma_encode_groups_len(x);
    assert((e + rest).take(e.len() as int) =~= e);
}

/// No encoding of `v` is shorter than the one written: bytes that decode to
/// `v` are at least as many.
pub proof fn law_varint_shortest(v: i32, bytes: Seq<u8>, n: int)
    requires
        varint_ends_at(bytes, n),
        varint_value(bytes, n) == v,
    ensures
        varint_bytes(v).len() <= n,
{
    lemma_encode_groups_len(unsigned_of(v));
    lemma_groups_value_bound(bytes.take(n));
    lemma_pow128_values();
}

} // verus!
