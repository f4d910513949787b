//! The field layer of message payloads: a payload is a sequence of fields,
//! each a key varint (field number and wire type) followed by a value that is
//! a varint, a four-byte little-endian word, or a length-prefixed byte string.

use vstd::prelude::*;
use crate::varint::{
    varint, take_varint, trunc32, VarintStep, VarintRead, read_varint, write_varint,
    lemma_take_varint_bounds, lemma_varint_roundtrip,
};

verus! {

/// A field value, by wire type.
#[derive(Debug, Clone, PartialEq)]
pub enum FieldValue {
    /// Wire type 0: a varint.
    Varint(u32),
    /// Wire type 2: a length-prefixed byte string.
    Bytes(Vec<u8>),
    /// Wire type 5: a four-byte little-endian word.
    Fixed32(u32),
}

/// One field of a payload.
#[derive(Debug, Clone, PartialEq)]
pub struct Field {
    pub number: u32,
    pub value: FieldValue,
}

/// The mathematical value of a [`FieldValue`].
pub enum FieldValueV {
    Varint(u32),
    Bytes(Seq<u8>),
    Fixed32(u32),
}

/// The mathematical value of a [`Field`].
pub struct FieldV {
    pub number: u32,
    pub value: FieldValueV,
}

impl View for FieldValue {
    type V = FieldValueV;

    open spec fn view(&self) -> FieldValueV {
        match self {
            FieldValue::Varint(v) => FieldValueV::Varint(*v),
            FieldValue::Bytes(b) => FieldValueV::Bytes(b@),
            FieldValue::Fixed32(v) => FieldValueV::Fixed32(*v),
        }
    }
}

impl View for Field {
    type V = FieldV;

    open spec fn view(&self) -> FieldV {
        FieldV { number: self.number, value: self.value@ }
    }
}

/// The largest legal field number: the key varint holds it above three
/// wire-type bits, so it must fit in 29 bits.
pub open spec fn max_field_number() -> u32 {
    0x1FFF_FFFF
}

/// A field that the encoding can represent exactly.
pub open spec fn field_valid(f: FieldV) -> bool {
    &&& 1 <= f.number <= max_field_number()
    &&& (f.value matches FieldValueV::Bytes(b) ==> b.len() <= u32::MAX)
}

/// The four little-endian bytes of `v`.
pub open spec fn le32_bytes(v: u32) -> Seq<u8> {
    seq![
        (v & 0xff) as u8,
        ((v >> 8) & 0xff) as u8,
        ((v >> 16) & 0xff) as u8,
        ((v >> 24) & 0xff) as u8,
    ]
}

/// The 32-bit word held by four little-endian bytes.
pub open spec fn le32_value(b0: u8, b1: u8, b2: u8, b3: u8) -> u32 {
    (b0 as u32) | (b1 as u32) << 8 | (b2 as u32) << 16 | (b3 as u32) << 24
}

/// The wire type of a field value.
pub open spec fn wire_type(v: FieldValueV) -> u32 {
    match v {
        FieldValueV::Varint(_) => 0,
        FieldValueV::Bytes(_) => 2,
        FieldValueV::Fixed32(_) => 5,
    }
}

/// The encoding of one field.
pub open spec fn field_bytes(f: FieldV) -> Seq<u8> {
    let key = (f.number * 8 + wire_type(f.value)) as u32;
    match f.value {
        FieldValueV::Varint(v) => varint(key) + varint(v),
        FieldValueV::Bytes(b) => varint(key) + varint(b.len() as u32) + b,
        FieldValueV::Fixed32(v) => varint(key) + le32_bytes(v),
    }
}

/// The encoding of a sequence of fields.
pub open spec fn fields_bytes(fs: Seq<FieldV>) -> Seq<u8>
    decreases fs.len(),
{
    if fs.len() == 0 {
        Seq::empty()
    } else {
        field_bytes(fs[0]) + fields_bytes(fs.skip(1))
    }
}

/// Result of parsing one field from the front of a byte sequence.
pub enum FieldStep {
    /// Not a field: bytes run out, a bad wire type, or field number zero.
    Malformed,
    /// A complete field and the bytes it occupies.
    Done { field: FieldV, consumed: int },
}

/// Parse one field from the front of `s`.
pub open spec fn take_field(s: Seq<u8>) -> FieldStep {
    match take_varint(s) {
        VarintStep::Done { value: keyv, consumed: ck } => {
            let key = trunc32(keyv);
            let number = key / 8;
            let wt = key % 8;
            if number < 1 {
                FieldStep::Malformed
            } else if wt == 0 {
                match take_varint(s.skip(ck)) {
                    VarintStep::Done { value: v, consumed: cv } => FieldStep::Done {
                        field: FieldV { number, value: FieldValueV::Varint(trunc32(v)) },
                        consumed: ck + cv,
                    },
                    _ => FieldStep::Malformed,
                }
            } else if wt == 5 {
                if s.len() >= ck + 4 {
                    FieldStep::Done {
                        field: FieldV {
                            number,
                            value: FieldValueV::Fixed32(
                                le32_value(s[ck], s[ck + 1], s[ck + 2], s[ck + 3]),
                            ),
                        },
                        consumed: ck + 4,
                    }
                } else {
                    FieldStep::Malformed
                }
            } else if wt == 2 {
                match take_varint(s.skip(ck)) {
                    VarintStep::Done { value: lenv, consumed: cl } => {
                        let len = trunc32(lenv);
                        if s.len() >= ck + cl + len {
                            FieldStep::Done {
                                field: FieldV {
                                    number,
                                    value: FieldValueV::Bytes(
                                        s.subrange(ck + cl, ck + cl + len),
                                    ),
                                },
                                consumed: ck + cl + len,
                            }
                        } else {
                            FieldStep::Malformed
                        }
                    },
                    _ => FieldStep::Malformed,
                }
            } else {
                FieldStep::Malformed
            }
        },
        _ => FieldStep::Malformed,
    }
}

/// A parsed field occupies at least one byte and no more than the input.
pub proof fn lemma_take_field_bounds(s: Seq<u8>)
    ensures
        take_field(s) matches FieldStep::Done { consumed, .. } ==> 1 <= consumed <= s.len(),
{
    lemma_take_varint_bounds(s);
    match take_varint(s) {
        VarintStep::Done { value: keyv, consumed: ck } => {
            lemma_take_varint_bounds(s.skip(ck));
        },
        _ => {},
    }
}

/// Parse a whole byte sequence as a sequence of fields; `None` on any
/// malformed or truncated field.
pub open spec fn take_fields(s: Seq<u8>) -> Option<Seq<FieldV>>
    decreases s.len(),
{
    if s.len() == 0 {
        Some(Seq::empty())
    } else {
        match take_field(s) {
            FieldStep::Done { field, consumed } => if 1 <= consumed <= s.len() {
                match take_fields(s.skip(consumed)) {
                    Some(fs) => Some(seq![field] + fs),
                    None => None,
                }
            } else {
                None
            },
            FieldStep::Malformed => None,
        }
    }
}

#[verifier::rlimit(50)]
proof fn lemma_field_roundtrip(f: FieldV, rest: Seq<u8>)
    requires
        field_valid(f),
    ensures
        take_field(field_bytes(f) + rest) == (FieldStep::Done {
            field: f,
            consumed: field_bytes(f).len() as int,
        }),
{
    let key = (f.number * 8 + wire_type(f.value)) as u32;
    let s = field_bytes(f) + rest;
    assert(f.number * 8 + wire_type(f.value) <= u32::MAX) by (nonlinear_arith)
        requires f.number <= 0x1FFF_FFFF && wire_type(f.value) <= 5;
    assert(key / 8 == f.number && key % 8 == wire_type(f.value)) by (nonlinear_arith)
        requires key == f.number * 8 + wire_type(f.value) && wire_type(f.value) < 8;
    lemma_varint_roundtrip(key, s.skip(varint(key).len() as int));
    let ck = varint(key).len() as int;
    assert(trunc32(key as nat) == key);
    match f.value {
        FieldValueV::Varint(v) => {
            assert(s =~= varint(key) + (varint(v) + rest));
            lemma_varint_roundtrip(key, varint(v) + rest);
            assert(s.skip(ck) =~= varint(v) + rest);
            lemma_varint_roundtrip(v, rest);
            assert(trunc32(v as nat) == v);
        },
        FieldValueV::Fixed32(v) => {
            assert(s =~= varint(key) + (le32_bytes(v) + rest));
            lemma_varint_roundtrip(key, le32_bytes(v) + rest);
            assert(s.len() >= ck + 4);
            let b0 = (v & 0xff) as u8;
            let b1 = ((v >> 8) & 0xff) as u8;
            let b2 = ((v >> 16) & 0xff) as u8;
            let b3 = ((v >> 24) & 0xff) as u8;
            assert(s[ck] == b0 && s[ck + 1] == b1 && s[ck + 2] == b2 && s[ck + 3] == b3);
            assert((b0 as u32) | (b1 as u32) << 8 | (b2 as u32) << 16 | (b3 as u32) << 24 == v)
                by (bit_vector)
                requires
                    b0 == (v & 0xff) as u8,
                    b1 == ((v >> 8) & 0xff) as u8,
                    b2 == ((v >> 16) & 0xff) as u8,
                    b3 == ((v >> 24) & 0xff) as u8,
            ;
            assert(le32_value(b0, b1, b2, b3) == v);
        },
        FieldValueV::Bytes(b) => {
            let blen = b.len() as u32;
            assert(s =~= varint(key) + (varint(blen) + b + rest));
            lemma_varint_roundtrip(key, varint(blen) + b + rest);
            assert(s.skip(ck) =~= varint(blen) + (b + rest));
            lemma_varint_roundtrip(blen, b + rest);
            assert(trunc32(blen as nat) == blen);
            let cl = varint(blen).len() as int;
            assert(s.len() >= ck + cl + blen);
            assert(s.subrange(ck + cl, ck + cl + blen) =~= b);
        },
    }
}

/// Parsing the encoding of a sequence of representable fields yields exactly
/// that sequence.
pub proof fn lemma_fields_roundtrip(fs: Seq<FieldV>)
    requires
        forall|i: int| 0 <= i < fs.len() ==> field_valid(#[trigger] fs[i]),
    ensures
        take_fields(fields_bytes(fs)) == Some(fs),
    decreases fs.len(),
{
    let s = fields_bytes(fs);
    if fs.len() == 0 {
        assert(s =~= Seq::<u8>::empty());
        assert(fs =~= Seq::<FieldV>::empty());
    } else {
        let tail = fields_bytes(fs.skip(1));
        lemma_field_roundtrip(fs[0], tail);
        lemma_take_field_bounds(s);
        let c = field_bytes(fs[0]).len() as int;
        assert(s.len() >= 1);
        assert(s.skip(c) =~= tail);
        lemma_fields_roundtrip(fs.skip(1));
        assert(seq![fs[0]] + fs.skip(1) =~= fs);
    }
}

/// Append the encoding of a varint field to `out`.
pub fn write_varint_field(out: &mut Vec<u8>, number: u32, v: u32)
    requires
        1 <= number <= max_field_number(),
    ensures
        final(out)@ == old(out)@ + field_bytes(
            FieldV { number, value: FieldValueV::Varint(v) },
        ),
{
    write_varint(out, number * 8);
    write_varint(out, v);
    assert(out@ =~= old(out)@ + field_bytes(FieldV { number, value: FieldValueV::Varint(v) }));
}

/// Append the encoding of a little-endian word field to `out`.
pub fn write_fixed32_field(out: &mut Vec<u8>, number: u32, v: u32)
    requires
        1 <= number <= max_field_number(),
    ensures
        final(out)@ == old(out)@ + field_bytes(
            FieldV { number, value: FieldValueV::Fixed32(v) },
        ),
{
    write_varint(out, number * 8 + 5);
    out.push((v & 0xff) as u8);
    out.push(((v >> 8) & 0xff) as u8);
    out.push(((v >> 16) & 0xff) as u8);
    out.push(((v >> 24) & 0xff) as u8);
    assert(out@ =~= old(out)@ + field_bytes(FieldV { number, value: FieldValueV::Fixed32(v) }));
}

/// Append the encoding of a byte-string field to `out`.
pub fn write_bytes_field(out: &mut Vec<u8>, number: u32, b: &Vec<u8>)
    requires
        1 <= number <= max_field_number(),
        b@.len() <= u32::MAX,
    ensures
        final(out)@ == old(out)@ + field_bytes(
            FieldV { number, value: FieldValueV::Bytes(b@) },
        ),
{
    write_varint(out, number * 8 + 2);
    write_varint(out, b.len() as u32);
    let blen = b.len();
    let mut k: usize = 0;
    while k < blen
        invariant
            k <= blen,
            blen == b@.len() <= u32::MAX,
            1 <= number <= max_field_number(),
            out@ == old(out)@ + varint((number * 8 + 2) as u32) + varint(b@.len() as u32)
                + b@.subrange(0, k as int),
        decreases blen - k,
    {
        out.push(b[k]);
        assert(out@ =~= old(out)@ + varint((number * 8 + 2) as u32) + varint(b@.len() as u32)
            + b@.subrange(0, k as int + 1));
        k = k + 1;
    }
    assert(b@.subrange(0, b@.len() as int) =~= b@);
    assert(out@ =~= old(out)@ + field_bytes(FieldV { number, value: FieldValueV::Bytes(b@) }));
}

/// Result of reading one field from a buffer.
pub enum FieldRead {
    /// Not a field at this offset.
    Malformed,
    /// A complete field and the bytes it occupies.
    Value { field: Field, consumed: usize },
}

/// Copy `buf[from..from + n]` into a fresh vector.
pub fn copy_range(buf: &Vec<u8>, from: usize, n: usize) -> (r: Vec<u8>)
    requires
        from + n <= buf@.len(),
    ensures
        r@ == buf@.subrange(from as int, from as int + n as int),
{
    let buf_len = buf.len();
    let mut r: Vec<u8> = Vec::new();
    let mut k: usize = 0;
    while k < n
        invariant
            from + n <= buf_len,
            buf_len == buf@.len(),
            k <= n,
            r@ == buf@.subrange(from as int, from as int + k as int),
        decreases n - k,
    {
        r.push(buf[from + k]);
        assert(r@ =~= buf@.subrange(from as int, from as int + k as int + 1));
        k = k + 1;
    }
    r
}

/// Copy a byte vector.
pub fn clone_bytes(b: &Vec<u8>) -> (r: Vec<u8>)
    ensures
        r@ == b@,
{
    let r = copy_range(b, 0, b.len());
    assert(r@ =~= b@);
    r
}

/// Read one field from `buf` starting at `start`, exactly as [`take_field`]
/// describes on the corresponding suffix.
pub fn read_field(buf: &Vec<u8>, start: usize) -> (r: FieldRead)
    requires
        start <= buf@.len(),
    ensures
        match take_field(buf@.skip(start as int)) {
            FieldStep::Malformed => r is Malformed,
            FieldStep::Done { field, consumed } => r matches FieldRead::Value {
                field: rf,
                consumed: rc,
            } && rf@ == field && rc == consumed,
        },
{
    let ghost s = buf@.skip(start as int);
    let buf_len = buf.len();
    proof {
        lemma_take_varint_bounds(s);
    }
    let key_read = read_varint(buf, start);
    let (key, ck) = match key_read {
        VarintRead::Value { value, consumed } => (value, consumed),
        _ => {
            return FieldRead::Malformed;
        },
    };
    let number = key / 8;
    let wt = key % 8;
    if number < 1 {
        return FieldRead::Malformed;
    }
    assert(s.skip(ck as int) =~= buf@.skip(start as int + ck as int));
    if wt == 0 {
        proof {
            lemma_take_varint_bounds(s.skip(ck as int));
        }
        match read_varint(buf, start + ck) {
            VarintRead::Value { value, consumed } => FieldRead::Value {
                field: Field { number, value: FieldValue::Varint(value) },
                consumed: ck + consumed,
            },
            _ => FieldRead::Malformed,
        }
    } else if wt == 5 {
        if buf.len() - start - ck >= 4 {
            let b0 = buf[start + ck];
            let b1 = buf[start + ck + 1];
            let b2 = buf[start + ck + 2];
            let b3 = buf[start + ck + 3];
            let v = (b0 as u32) | (b1 as u32) << 8 | (b2 as u32) << 16 | (b3 as u32) << 24;
            assert(b0 == s[ck as int] && b1 == s[ck as int + 1] && b2 == s[ck as int + 2]
                && b3 == s[ck as int + 3]);
            FieldRead::Value {
                field: Field { number, value: FieldValue::Fixed32(v) },
                consumed: ck + 4,
            }
        } else {
            FieldRead::Malformed
        }
    } else if wt == 2 {
        proof {
            lemma_take_varint_bounds(s.skip(ck as int));
        }
        match read_varint(buf, start + ck) {
            VarintRead::Value { value: len, consumed: cl } => {
                if len as usize <= buf.len() - start - ck - cl {
                    let body = copy_range(buf, start + ck + cl, len as usize);
                    assert(body@ =~= s.subrange(
                        ck as int + cl as int,
                        ck as int + cl as int + len as int,
                    ));
                    FieldRead::Value {
                        field: Field { number, value: FieldValue::Bytes(body) },
                        consumed: ck + cl + len as usize,
                    }
                } else {
                    FieldRead::Malformed
                }
            },
            _ => FieldRead::Malformed,
        }
    } else {
        FieldRead::Malformed
    }
}

/// The views of a parsed field vector.
pub open spec fn views_of_fields(fs: Seq<Field>) -> Seq<FieldV> {
    fs.map_values(|f: Field| f@)
}

/// The value of the last field numbered `n` carrying a varint, or `default`.
pub open spec fn last_varint_field(fs: Seq<FieldV>, n: u32, default: u32) -> u32
    decreases fs.len(),
{
    if fs.len() == 0 {
        default
    } else {
        match fs.last().value {
            FieldValueV::Varint(v) => if fs.last().number == n {
                v
            } else {
                last_varint_field(fs.drop_last(), n, default)
            },
            _ => last_varint_field(fs.drop_last(), n, default),
        }
    }
}

/// The value of the last field numbered `n` carrying a little-endian word, or
/// `default`.
pub open spec fn last_fixed32_field(fs: Seq<FieldV>, n: u32, default: u32) -> u32
    decreases fs.len(),
{
    if fs.len() == 0 {
        default
    } else {
        match fs.last().value {
            FieldValueV::Fixed32(v) => if fs.last().number == n {
                v
            } else {
                last_fixed32_field(fs.drop_last(), n, default)
            },
            _ => last_fixed32_field(fs.drop_last(), n, default),
        }
    }
}

/// The value of the last field numbered `n` carrying a byte string, or empty.
pub open spec fn last_bytes_field(fs: Seq<FieldV>, n: u32) -> Seq<u8>
    decreases fs.len(),
{
    if fs.len() == 0 {
        Seq::empty()
    } else {
        match fs.last().value {
            FieldValueV::Bytes(b) => if fs.last().number == n {
                b
            } else {
                last_bytes_field(fs.drop_last(), n)
            },
            _ => last_bytes_field(fs.drop_last(), n),
        }
    }
}

/// A bound on the size of one encoded field.
pub proof fn lemma_field_bytes_len(f: FieldV)
    requires
        field_valid(f),
    ensures
        field_bytes(f).len() <= 10 + (match f.value {
            FieldValueV::Bytes(b) => b.len(),
            _ => 0,
        }),
{
    let key = (f.number * 8 + wire_type(f.value)) as u32;
    crate::varint::lemma_varint_len(key);
    match f.value {
        FieldValueV::Varint(v) => {
            crate::varint::lemma_varint_len(v);
        },
        FieldValueV::Bytes(b) => {
            crate::varint::lemma_varint_len(b.len() as u32);
        },
        FieldValueV::Fixed32(_) => {},
    }
}

/// The encoding of one field, as [`fields_bytes`] of the singleton sequence.
pub proof fn lemma_fields_bytes1(f0: FieldV)
    ensures
        fields_bytes(seq![f0]) == field_bytes(f0),
{
    assert(seq![f0].skip(1) =~= Seq::<FieldV>::empty());
    assert(fields_bytes(Seq::<FieldV>::empty()) == Seq::<u8>::empty());
    assert(fields_bytes(seq![f0]) =~= field_bytes(f0));
}

/// The encoding of two fields is their concatenation.
pub proof fn lemma_fields_bytes2(f0: FieldV, f1: FieldV)
    ensures
        fields_bytes(seq![f0, f1]) == field_bytes(f0) + field_bytes(f1),
{
    assert(seq![f0, f1].skip(1) =~= seq![f1]);
    lemma_fields_bytes1(f1);
    assert(fields_bytes(seq![f0, f1]) =~= field_bytes(f0) + field_bytes(f1));
}

/// The encoding of three fields is their concatenation.
pub proof fn lemma_fields_bytes3(f0: FieldV, f1: FieldV, f2: FieldV)
    ensures
        fields_bytes(seq![f0, f1, f2]) == field_bytes(f0) + field_bytes(f1) + field_bytes(f2),
{
    assert(seq![f0, f1, f2].skip(1) =~= seq![f1, f2]);
    lemma_fields_bytes2(f1, f2);
    assert(fields_bytes(seq![f0, f1, f2]) =~= field_bytes(f0) + field_bytes(f1) + field_bytes(
        f2,
    ));
}

/// The encoding of four fields is their concatenation.
pub proof fn lemma_fields_bytes4(f0: FieldV, f1: FieldV, f2: FieldV, f3: FieldV)
    ensures
        fields_bytes(seq![f0, f1, f2, f3]) == field_bytes(f0) + field_bytes(f1) + field_bytes(f2)
            + field_bytes(f3),
{
    assert(seq![f0, f1, f2, f3].skip(1) =~= seq![f1, f2, f3]);
    lemma_fields_bytes3(f1, f2, f3);
    assert(fields_bytes(seq![f0, f1, f2, f3]) =~= field_bytes(f0) + field_bytes(f1) + field_bytes(
        f2,
    ) + field_bytes(f3));
}

/// The encoding of five fields is their concatenation.
pub proof fn lemma_fields_bytes5(f0: FieldV, f1: FieldV, f2: FieldV, f3: FieldV, f4: FieldV)
    ensures
        fields_bytes(seq![f0, f1, f2, f3, f4]) == field_bytes(f0) + field_bytes(f1) + field_bytes(
            f2,
        ) + field_bytes(f3) + field_bytes(f4),
{
    assert(seq![f0, f1, f2, f3, f4].skip(1) =~= seq![f1, f2, f3, f4]);
    lemma_fields_bytes4(f1, f2, f3, f4);
    assert(fields_bytes(seq![f0, f1, f2, f3, f4]) =~= field_bytes(f0) + field_bytes(f1)
        + field_bytes(f2) + field_bytes(f3) + field_bytes(f4));
}

/// Parse a whole buffer into its fields, exactly as [`take_fields`] describes.
pub fn parse_all_fields(buf: &Vec<u8>) -> (r: Option<Vec<Field>>)
    ensures
        match take_fields(buf@) {
            Some(fs) => r matches Some(v) && views_of_fields(v@) == fs,
            None => r is None,
        },
{
    let buf_len = buf.len();
    let mut out: Vec<Field> = Vec::new();
    let mut start: usize = 0;
    proof {
        assert(buf@.skip(0) =~= buf@);
        assert(views_of_fields(out@) =~= Seq::<FieldV>::empty());
    }
    loop
        invariant
            start <= buf_len,
            buf_len == buf@.len(),
            match take_fields(buf@.skip(start as int)) {
                Some(fs) => take_fields(buf@) == Some(views_of_fields(out@) + fs),
                None => take_fields(buf@) is None,
            },
        decreases buf_len - start,
    {
        if start == buf_len {
            assert(buf@.skip(start as int).len() == 0);
            assert(views_of_fields(out@) + Seq::<FieldV>::empty() =~= views_of_fields(out@));
            return Some(out);
        }
        match read_field(buf, start) {
            FieldRead::Malformed => {
                return None;
            },
            FieldRead::Value { field, consumed } => {
                proof {
                    lemma_take_field_bounds(buf@.skip(start as int));
                    assert(buf@.skip(start as int).skip(consumed as int) =~= buf@.skip(
                        start as int + consumed as int));
                }
                let ghost old_out = out@;
                out.push(field);
                proof {
                    assert(views_of_fields(out@) =~= views_of_fields(old_out) + seq![field@]);
                    match take_fields(buf@.skip(start as int + consumed as int)) {
                        Some(fs2) => {
                            assert(views_of_fields(old_out) + (seq![field@] + fs2)
                                =~= views_of_fields(out@) + fs2);
                        },
                        None => {},
                    }
                }
                start = start + consumed;
            },
        }
    }
}

/// Whether a byte string is a well-formed sequence of fields.
pub fn payload_well_formed(buf: &Vec<u8>) -> (r: bool)
    ensures
        r == (take_fields(buf@) is Some),
{
    match parse_all_fields(buf) {
        Some(_) => true,
        None => false,
    }
}

} // verus!
