//! The field model of event payloads and of length-prefixed strings.
//!
//! A payload is a sequence of fields: bytes, little-endian 16/32/64-bit
//! integers, and strings written as one length byte followed by at most 255
//! bytes of UTF-8. A *layout* lists the fields of a record, with the length
//! checks that its parser makes on the way. [`decode_from`] says what a parser
//! that follows a layout returns on given bytes, [`values_wire`] what a
//! serializer writes.

use vstd::prelude::*;
use vstd::bytes::*;
use vstd::utf8::*;
use vstd::string::StringExecFns;

use crate::error::{ErrorView, RelayError};
use crate::outside::{string_from_utf8, utf8_error_message, utf8_error_text};
use crate::text::{decimal, decimal_string, push_text};

verus! {

broadcast use {encode_utf8_valid_utf8, encode_utf8_decode_utf8};

/// One decoded field of a payload (a flag is a byte read as "not zero").
#[verifier::ext_equal]
pub enum FieldValue {
    Byte(u8),
    Word(u16),
    Dword(u32),
    Qword(u64),
    Text(Seq<char>),
    Flag(bool),
}

/// One step of a layout: a field to read, or a check that at least `n` bytes
/// remain, failing with a malformed-packet error of the given reason.
#[verifier::ext_equal]
pub enum FieldKind {
    Need(nat, Seq<char>),
    Byte,
    Word,
    Dword,
    Qword,
    Text,
    Flag,
}

/// What reading a length-prefixed string at a position gives.
#[verifier::ext_equal]
pub enum TextRead {
    Read(Seq<char>, int),
    Failed(ErrorView),
}

/// What decoding a layout gives: the fields and the position after them; an
/// error; or a read past the end, on which the parser would panic.
#[verifier::ext_equal]
pub enum Decoded {
    Done { values: Seq<FieldValue>, end: int },
    Failed(ErrorView),
    Panics,
}

/// A record whose payload follows a fixed layout.
pub trait WireRecord: Sized {
    /// The steps that the record's parser takes.
    spec fn layout() -> Seq<FieldKind>;

    /// The record's fields, in the order they are written.
    spec fn fields(&self) -> Seq<FieldValue>;
}

/// Reading a length-prefixed string at `p`: `[length:1][utf8_data:length]`.
pub open spec fn text_at(d: Seq<u8>, p: int) -> TextRead {
    if p < 0 || p >= d.len() {
        TextRead::Failed(ErrorView::MalformedPacket { reason: "Cannot read string length"@ })
    } else {
        let k = d[p] as int;
        let rem = d.len() - (p + 1);
        if rem < k {
            TextRead::Failed(
                ErrorView::MalformedPacket {
                    reason: "String length "@ + decimal(k as nat) + " exceeds remaining buffer "@
                        + decimal(rem as nat),
                },
            )
        } else if !valid_utf8(d.subrange(p + 1, p + 1 + k)) {
            TextRead::Failed(ErrorView::Parse(utf8_error_message(d.subrange(p + 1, p + 1 + k))))
        } else {
            TextRead::Read(decode_utf8(d.subrange(p + 1, p + 1 + k)), p + 1 + k)
        }
    }
}

/// Adds `v` in front of the fields of a successful decoding.
pub open spec fn prepend(v: FieldValue, dec: Decoded) -> Decoded {
    match dec {
        Decoded::Done { values, end } => Decoded::Done { values: seq![v] + values, end },
        other => other,
    }
}

/// Adds `vs` in front of the fields of a successful decoding.
pub open spec fn prefix_with(vs: Seq<FieldValue>, dec: Decoded) -> Decoded {
    match dec {
        Decoded::Done { values, end } => Decoded::Done { values: vs + values, end },
        other => other,
    }
}

/// Decoding the steps of `steps` from index `i` on, reading `d` from `p`.
#[verifier::opaque]
pub open spec fn decode_from(steps: Seq<FieldKind>, i: int, d: Seq<u8>, p: int) -> Decoded
    decreases steps.len() - i,
{
    if i < 0 || i >= steps.len() || p < 0 {
        Decoded::Done { values: seq![], end: p }
    } else {
        match steps[i] {
            FieldKind::Need(k, msg) => if d.len() - p < k {
                Decoded::Failed(ErrorView::MalformedPacket { reason: msg })
            } else {
                decode_from(steps, i + 1, d, p)
            },
            FieldKind::Byte => if d.len() - p < 1 {
                Decoded::Panics
            } else {
                prepend(FieldValue::Byte(d[p]), decode_from(steps, i + 1, d, p + 1))
            },
            FieldKind::Word => if d.len() - p < 2 {
                Decoded::Panics
            } else {
                prepend(
                    FieldValue::Word(spec_u16_from_le_bytes(d.subrange(p, p + 2))),
                    decode_from(steps, i + 1, d, p + 2),
                )
            },
            FieldKind::Dword => if d.len() - p < 4 {
                Decoded::Panics
            } else {
                prepend(
                    FieldValue::Dword(spec_u32_from_le_bytes(d.subrange(p, p + 4))),
                    decode_from(steps, i + 1, d, p + 4),
                )
            },
            FieldKind::Qword => if d.len() - p < 8 {
                Decoded::Panics
            } else {
                prepend(
                    FieldValue::Qword(spec_u64_from_le_bytes(d.subrange(p, p + 8))),
                    decode_from(steps, i + 1, d, p + 8),
                )
            },
            FieldKind::Text => match text_at(d, p) {
                TextRead::Read(s, q) => prepend(FieldValue::Text(s), decode_from(steps, i + 1, d, q)),
                TextRead::Failed(e) => Decoded::Failed(e),
            },
            FieldKind::Flag => if d.len() - p < 1 {
                Decoded::Panics
            } else {
                prepend(FieldValue::Flag(d[p] != 0), decode_from(steps, i + 1, d, p + 1))
            },
        }
    }
}

/// Decoding a whole layout from the start of `d`.
pub open spec fn decode_layout(steps: Seq<FieldKind>, d: Seq<u8>) -> Decoded {
    decode_from(steps, 0, d, 0)
}

/// Writing no fields writes no bytes.
pub proof fn lemma_wire_empty(base: Seq<u8>)
    ensures
        base + values_wire(seq![]) == base,
{
    assert(base + values_wire(seq![]) =~= base);
}

/// Nothing in front of a decoding changes nothing.
pub proof fn lemma_prefix_empty(dec: Decoded)
    ensures
        prefix_with(seq![], dec) == dec,
{
    if let Decoded::Done { values, end } = dec {
        assert(Seq::<FieldValue>::empty() + values =~= values);
    }
}

/// A decoding that reaches the end of the layout has nothing more to add.
pub proof fn lemma_prefix_end(done: Seq<FieldValue>, steps: Seq<FieldKind>, d: Seq<u8>, p: int)
    requires
        p >= 0,
    ensures
        prefix_with(done, decode_from(steps, steps.len() as int, d, p)) == (Decoded::Done {
            values: done,
            end: p,
        }),
{
    reveal(decode_from);
    assert(done + Seq::<FieldValue>::empty() =~= done);
}

/// An error returned by a parser agrees with a failed decoding.
pub open spec fn failure_matches(dec: Decoded, e: ErrorView) -> bool {
    dec matches Decoded::Failed(f) && f == e
}

/// A parser's result agrees with decoding `T`'s layout on `d`: on success the
/// record has exactly the decoded fields and `n` bytes were consumed; on
/// failure the error is the decoding's.
pub open spec fn record_parsed<T: WireRecord>(d: Seq<u8>, r: Result<(T, usize), RelayError>) -> bool {
    let dec = decode_layout(T::layout(), d);
    match r {
        Ok((e, n)) => dec is Done && dec->values == e.fields() && dec->end == n,
        Err(err) => failure_matches(dec, err@),
    }
}

/// The bytes of a string field: its UTF-8 encoding cut to 255 bytes, after
/// one byte that holds the kept length.
pub open spec fn text_wire(s: Seq<char>) -> Seq<u8> {
    let b = encode_utf8(s);
    let n: int = if b.len() < 255 { b.len() as int } else { 255 };
    seq![n as u8] + b.subrange(0, n)
}

/// A string whose UTF-8 encoding fits in one length byte.
pub open spec fn text_fits(s: Seq<char>) -> bool {
    encode_utf8(s).len() <= 255
}

/// The bytes of one field.
pub open spec fn value_wire(v: FieldValue) -> Seq<u8> {
    match v {
        FieldValue::Byte(x) => seq![x],
        FieldValue::Word(x) => spec_u16_to_le_bytes(x),
        FieldValue::Dword(x) => spec_u32_to_le_bytes(x),
        FieldValue::Qword(x) => spec_u64_to_le_bytes(x),
        FieldValue::Text(s) => text_wire(s),
        FieldValue::Flag(b) => seq![if b { 1u8 } else { 0u8 }],
    }
}

/// The bytes of the fields of `vs` from index `i` on.
pub open spec fn wire_from(vs: Seq<FieldValue>, i: int) -> Seq<u8>
    decreases vs.len() - i,
{
    if i < 0 || i >= vs.len() {
        seq![]
    } else {
        value_wire(vs[i]) + wire_from(vs, i + 1)
    }
}

/// The bytes of a sequence of fields, in order.
pub open spec fn values_wire(vs: Seq<FieldValue>) -> Seq<u8> {
    wire_from(vs, 0)
}

/// Every string field of `vs` fits in one length byte.
pub open spec fn values_fit(vs: Seq<FieldValue>) -> bool {
    forall|i: int| 0 <= i < vs.len() ==> (#[trigger] vs[i] matches FieldValue::Text(s) ==> text_fits(s))
}

/// A field has the kind that a layout step reads.
pub open spec fn kind_of(v: FieldValue, k: FieldKind) -> bool {
    match v {
        FieldValue::Byte(_) => k is Byte,
        FieldValue::Word(_) => k is Word,
        FieldValue::Dword(_) => k is Dword,
        FieldValue::Qword(_) => k is Qword,
        FieldValue::Text(_) => k is Text,
        FieldValue::Flag(_) => k is Flag,
    }
}

/// The fields of `vs` from `j` on are those that the steps from `i` on read.
pub open spec fn shaped(steps: Seq<FieldKind>, i: int, vs: Seq<FieldValue>, j: int) -> bool
    decreases steps.len() - i,
{
    if i < 0 || j < 0 {
        false
    } else if i >= steps.len() {
        j == vs.len()
    } else if steps[i] is Need {
        shaped(steps, i + 1, vs, j)
    } else {
        &&& j < vs.len()
        &&& kind_of(vs[j], steps[i])
        &&& shaped(steps, i + 1, vs, j + 1)
    }
}

/// The least number of bytes that the fields read by the steps from `i` on
/// take (a string takes at least its length byte).
pub open spec fn min_len_from(steps: Seq<FieldKind>, i: int) -> int
    decreases steps.len() - i,
{
    if i < 0 || i >= steps.len() {
        0
    } else {
        let here: int = match steps[i] {
            FieldKind::Need(_, _) => 0,
            FieldKind::Byte => 1,
            FieldKind::Word => 2,
            FieldKind::Dword => 4,
            FieldKind::Qword => 8,
            FieldKind::Text => 1,
            FieldKind::Flag => 1,
        };
        here + min_len_from(steps, i + 1)
    }
}

/// Each length check asks for no more bytes than the fields after it take at
/// least, so a correctly written record passes every check.
pub open spec fn needs_ok(steps: Seq<FieldKind>, i: int) -> bool
    decreases steps.len() - i,
{
    if i < 0 || i >= steps.len() {
        true
    } else {
        &&& (steps[i] matches FieldKind::Need(k, _) ==> k <= min_len_from(steps, i + 1))
        &&& needs_ok(steps, i + 1)
    }
}

/// Every fixed-size read is covered by an earlier length check, `budget`
/// being the bytes known to remain.
pub open spec fn guarded(steps: Seq<FieldKind>, i: int, budget: int) -> bool
    decreases steps.len() - i,
{
    if i < 0 || i >= steps.len() {
        true
    } else {
        match steps[i] {
            FieldKind::Need(k, _) => guarded(steps, i + 1, if k > budget { k as int } else { budget }),
            FieldKind::Byte => budget >= 1 && guarded(steps, i + 1, budget - 1),
            FieldKind::Word => budget >= 2 && guarded(steps, i + 1, budget - 2),
            FieldKind::Dword => budget >= 4 && guarded(steps, i + 1, budget - 4),
            FieldKind::Qword => budget >= 8 && guarded(steps, i + 1, budget - 8),
            FieldKind::Text => guarded(steps, i + 1, 0),
            FieldKind::Flag => budget >= 1 && guarded(steps, i + 1, budget - 1),
        }
    }
}

/// A layout whose records survive a write and a read: every record of it
/// has the fields that the steps read, and every check is met by them.
pub open spec fn layout_matches<T: WireRecord>(e: T) -> bool {
    shaped(T::layout(), 0, e.fields(), 0) && needs_ok(T::layout(), 0)
}

// ---------------------------------------------------------------------------
// Lemmas
// ---------------------------------------------------------------------------

proof fn lemma_text_wire_len(s: Seq<char>)
    requires
        text_fits(s),
    ensures
        text_wire(s) =~= seq![encode_utf8(s).len() as u8] + encode_utf8(s),
        text_wire(s).len() == 1 + encode_utf8(s).len(),
{
}

/// A string field reads back as written, when it fits.
pub proof fn lemma_text_roundtrip(s: Seq<char>, d: Seq<u8>, p: int)
    requires
        text_fits(s),
        0 <= p,
        p + text_wire(s).len() <= d.len(),
        d.subrange(p, p + text_wire(s).len()) == text_wire(s),
    ensures
        text_at(d, p) == TextRead::Read(s, p + text_wire(s).len()),
{
    lemma_text_wire_len(s);
    let b = encode_utf8(s);
    let n = b.len() as int;
    assert(d[p] == text_wire(s)[0]);
    assert(d.subrange(p + 1, p + 1 + n) =~= b) by {
        assert forall|k: int| 0 <= k < n implies d.subrange(p + 1, p + 1 + n)[k] == b[k] by {
            assert(d.subrange(p, p + text_wire(s).len())[k + 1] == text_wire(s)[k + 1]);
        }
    }
}

proof fn lemma_wire_from_len_ge(steps: Seq<FieldKind>, i: int, vs: Seq<FieldValue>, j: int)
    requires
        shaped(steps, i, vs, j),
    ensures
        wire_from(vs, j).len() >= min_len_from(steps, i),
    decreases steps.len() - i,
{
    if i >= steps.len() {
    } else if steps[i] is Need {
        lemma_wire_from_len_ge(steps, i + 1, vs, j);
    } else {
        lemma_wire_from_len_ge(steps, i + 1, vs, j + 1);
        lemma_auto_spec_u16_to_from_le_bytes();
        lemma_auto_spec_u32_to_from_le_bytes();
        lemma_auto_spec_u64_to_from_le_bytes();
    }
}

/// Decoding the bytes of fields that a layout reads gives those fields back,
/// and stops right after them, whatever bytes follow.
pub proof fn lemma_decode_wire(
    steps: Seq<FieldKind>,
    i: int,
    vs: Seq<FieldValue>,
    j: int,
    d: Seq<u8>,
    p: int,
)
    requires
        shaped(steps, i, vs, j),
        needs_ok(steps, i),
        values_fit(vs),
        0 <= p,
        p + wire_from(vs, j).len() <= d.len(),
        d.subrange(p, p + wire_from(vs, j).len()) == wire_from(vs, j),
    ensures
        decode_from(steps, i, d, p) == (Decoded::Done {
            values: vs.subrange(j, vs.len() as int),
            end: p + wire_from(vs, j).len(),
        }),
    decreases steps.len() - i,
{
    reveal(decode_from);
    if i >= steps.len() {
        assert(vs.subrange(j, vs.len() as int) =~= Seq::<FieldValue>::empty());
    } else if steps[i] is Need {
        lemma_wire_from_len_ge(steps, i + 1, vs, j);
        lemma_decode_wire(steps, i + 1, vs, j, d, p);
        assert(decode_from(steps, i, d, p) == decode_from(steps, i + 1, d, p));
    } else {
        let v = vs[j];
        let w = value_wire(v);
        let rest = wire_from(vs, j + 1);
        assert(wire_from(vs, j) == w + rest);
        let q = p + w.len();
        assert(d.subrange(q, q + rest.len()) =~= rest) by {
            assert forall|k: int| 0 <= k < rest.len() implies d.subrange(q, q + rest.len())[k]
                == rest[k] by {
                assert(d.subrange(p, p + wire_from(vs, j).len())[w.len() + k] == (w + rest)[w.len()
                    + k]);
            }
        }
        assert(d.subrange(p, p + w.len()) =~= w) by {
            assert forall|k: int| 0 <= k < w.len() implies d.subrange(p, p + w.len())[k] == w[k] by {
                assert(d.subrange(p, p + wire_from(vs, j).len())[k] == (w + rest)[k]);
            }
        }
        lemma_auto_spec_u16_to_from_le_bytes();
        lemma_auto_spec_u32_to_from_le_bytes();
        lemma_auto_spec_u64_to_from_le_bytes();
        lemma_decode_wire(steps, i + 1, vs, j + 1, d, q);
        assert(seq![v] + vs.subrange(j + 1, vs.len() as int) =~= vs.subrange(j, vs.len() as int));
        match v {
            FieldValue::Byte(x) => {
                assert(d.subrange(p, p + w.len())[0] == w[0]);
                assert(d[p] == x);
            },
            FieldValue::Word(x) => {
                assert(spec_u16_from_le_bytes(d.subrange(p, p + 2)) == x);
            },
            FieldValue::Dword(x) => {
                assert(spec_u32_from_le_bytes(d.subrange(p, p + 4)) == x);
            },
            FieldValue::Qword(x) => {
                assert(spec_u64_from_le_bytes(d.subrange(p, p + 8)) == x);
            },
            FieldValue::Text(s) => {
                assert(vs[j] matches FieldValue::Text(s) ==> text_fits(s));
                lemma_text_roundtrip(s, d, p);
            },
            FieldValue::Flag(b) => {
                assert(d.subrange(p, p + w.len())[0] == w[0]);
                assert((d[p] != 0) == b);
            },
        }
        assert(decode_from(steps, i, d, p) == prepend(v, decode_from(steps, i + 1, d, q)));
    }
}

/// A guarded layout never reads past the end.
pub proof fn lemma_guarded_never_panics(steps: Seq<FieldKind>, i: int, budget: int, d: Seq<u8>, p: int)
    requires
        guarded(steps, i, budget),
        0 <= p,
        d.len() - p >= budget,
    ensures
        !(decode_from(steps, i, d, p) is Panics),
    decreases steps.len() - i,
{
    reveal(decode_from);
    if i < 0 || i >= steps.len() {
    } else {
        match steps[i] {
            FieldKind::Need(k, _) => {
                if d.len() - p >= k {
                    lemma_guarded_never_panics(
                        steps,
                        i + 1,
                        if k > budget { k as int } else { budget },
                        d,
                        p,
                    );
                }
            },
            FieldKind::Byte => lemma_guarded_never_panics(steps, i + 1, budget - 1, d, p + 1),
            FieldKind::Word => lemma_guarded_never_panics(steps, i + 1, budget - 2, d, p + 2),
            FieldKind::Dword => lemma_guarded_never_panics(steps, i + 1, budget - 4, d, p + 4),
            FieldKind::Qword => lemma_guarded_never_panics(steps, i + 1, budget - 8, d, p + 8),
            FieldKind::Text => {
                if let TextRead::Read(s, q) = text_at(d, p) {
                    lemma_guarded_never_panics(steps, i + 1, 0, d, q);
                }
            },
            FieldKind::Flag => lemma_guarded_never_panics(steps, i + 1, budget - 1, d, p + 1),
        }
    }
}

proof fn lemma_wire_push(vs: Seq<FieldValue>, v: FieldValue, i: int)
    requires
        0 <= i <= vs.len(),
    ensures
        wire_from(vs.push(v), i) == wire_from(vs, i) + value_wire(v),
    decreases vs.len() - i,
{
    if i == vs.len() {
        assert(wire_from(vs.push(v), i + 1) == Seq::<u8>::empty());
        assert(wire_from(vs.push(v), i) =~= value_wire(v));
    } else {
        lemma_wire_push(vs, v, i + 1);
        assert(vs.push(v)[i] == vs[i]);
        assert(wire_from(vs.push(v), i) =~= wire_from(vs, i) + value_wire(v));
    }
}

proof fn lemma_prefix_step(done: Seq<FieldValue>, v: FieldValue, dec: Decoded)
    ensures
        prefix_with(done, prepend(v, dec)) == prefix_with(done.push(v), dec),
{
    if let Decoded::Done { values, end } = dec {
        assert(done + (seq![v] + values) =~= done.push(v) + values);
    }
}

// ---------------------------------------------------------------------------
// Reading
// ---------------------------------------------------------------------------

/// Reads a length-prefixed string at `p` of `d`, giving the string and the
/// position after it.
pub fn read_text_at(d: &[u8], p: usize) -> (r: Result<(String, usize), RelayError>)
    ensures
        match (text_at(d@, p as int), r) {
            (TextRead::Read(s, q), Ok((st, n))) => st@ == s && n == q,
            (TextRead::Failed(e), Err(err)) => err@ == e,
            _ => false,
        },
{
    if p >= d.len() {
        return Err(RelayError::MalformedPacket { reason: String::from_str("Cannot read string length") });
    }
    let k = d[p] as usize;
    let rem = d.len() - (p + 1);
    if rem < k {
        let mut reason = String::from_str("String length ");
        push_text(&mut reason, decimal_string(k as u64).as_str());
        push_text(&mut reason, " exceeds remaining buffer ");
        push_text(&mut reason, decimal_string(rem as u64).as_str());
        return Err(RelayError::MalformedPacket { reason });
    }
    let data = vstd::slice::slice_to_vec(&d[p + 1..p + 1 + k]);
    match string_from_utf8(data) {
        Ok(s) => Ok((s, p + 1 + k)),
        Err(e) => Err(RelayError::Parse(utf8_error_text(&e))),
    }
}

/// Makes the length check of step `i`.
pub fn need(
    d: &[u8],
    p: usize,
    k: usize,
    msg: &str,
    Ghost(steps): Ghost<Seq<FieldKind>>,
    Ghost(i): Ghost<int>,
    Ghost(done): Ghost<Seq<FieldValue>>,
) -> (r: Result<(), RelayError>)
    requires
        0 <= i < steps.len(),
        steps[i] == FieldKind::Need(k as nat, msg@),
        p <= d@.len(),
    ensures
        r is Ok <==> d@.len() - p >= k,
        r is Ok ==> prefix_with(done, decode_from(steps, i, d@, p as int)) == prefix_with(
            done,
            decode_from(steps, i + 1, d@, p as int),
        ),
        r matches Err(e) ==> decode_from(steps, i, d@, p as int) == Decoded::Failed(e@),
{
    reveal(decode_from);
    if d.len() - p < k {
        Err(RelayError::MalformedPacket { reason: String::from_str(msg) })
    } else {
        Ok(())
    }
}

/// Reads the byte of step `i`.
pub fn read_byte(
    d: &[u8],
    p: usize,
    Ghost(steps): Ghost<Seq<FieldKind>>,
    Ghost(i): Ghost<int>,
    Ghost(done): Ghost<Seq<FieldValue>>,
) -> (x: u8)
    requires
        0 <= i < steps.len(),
        steps[i] is Byte,
        p <= d@.len(),
        !(prefix_with(done, decode_from(steps, i, d@, p as int)) is Panics),
    ensures
        p + 1 <= d@.len(),
        prefix_with(done, decode_from(steps, i, d@, p as int)) == prefix_with(
            done.push(FieldValue::Byte(x)),
            decode_from(steps, i + 1, d@, p + 1),
        ),
{
    reveal(decode_from);
    proof {
        if d@.len() - p < 1 {
            assert(decode_from(steps, i, d@, p as int) is Panics);
        }
    }
    let x = d[p];
    proof { lemma_prefix_step(done, FieldValue::Byte(x), decode_from(steps, i + 1, d@, p + 1)); }
    x
}

/// Reads the flag of step `i`: whether its byte is not zero.
pub fn read_flag(
    d: &[u8],
    p: usize,
    Ghost(steps): Ghost<Seq<FieldKind>>,
    Ghost(i): Ghost<int>,
    Ghost(done): Ghost<Seq<FieldValue>>,
) -> (x: bool)
    requires
        0 <= i < steps.len(),
        steps[i] is Flag,
        p <= d@.len(),
        !(prefix_with(done, decode_from(steps, i, d@, p as int)) is Panics),
    ensures
        p + 1 <= d@.len(),
        prefix_with(done, decode_from(steps, i, d@, p as int)) == prefix_with(
            done.push(FieldValue::Flag(x)),
            decode_from(steps, i + 1, d@, p + 1),
        ),
{
    reveal(decode_from);
    proof {
        if d@.len() - p < 1 {
            assert(decode_from(steps, i, d@, p as int) is Panics);
        }
    }
    let x = d[p] != 0;
    proof { lemma_prefix_step(done, FieldValue::Flag(x), decode_from(steps, i + 1, d@, p + 1)); }
    x
}

/// Reads the little-endian 16-bit integer of step `i`.
pub fn read_word(
    d: &[u8],
    p: usize,
    Ghost(steps): Ghost<Seq<FieldKind>>,
    Ghost(i): Ghost<int>,
    Ghost(done): Ghost<Seq<FieldValue>>,
) -> (x: u16)
    requires
        0 <= i < steps.len(),
        steps[i] is Word,
        p <= d@.len(),
        !(prefix_with(done, decode_from(steps, i, d@, p as int)) is Panics),
    ensures
        p + 2 <= d@.len(),
        prefix_with(done, decode_from(steps, i, d@, p as int)) == prefix_with(
            done.push(FieldValue::Word(x)),
            decode_from(steps, i + 1, d@, p + 2),
        ),
{
    reveal(decode_from);
    proof {
        if d@.len() - p < 2 {
            assert(decode_from(steps, i, d@, p as int) is Panics);
            assert(prefix_with(done, decode_from(steps, i, d@, p as int)) is Panics);
        }
        assert(p + 2 <= d@.len());
    }
    let _len = d.len();
    let x = u16_from_le_bytes(&d[p..p + 2]);
    proof { lemma_prefix_step(done, FieldValue::Word(x), decode_from(steps, i + 1, d@, p + 2)); }
    x
}

/// Reads the little-endian 32-bit integer of step `i`.
pub fn read_dword(
    d: &[u8],
    p: usize,
    Ghost(steps): Ghost<Seq<FieldKind>>,
    Ghost(i): Ghost<int>,
    Ghost(done): Ghost<Seq<FieldValue>>,
) -> (x: u32)
    requires
        0 <= i < steps.len(),
        steps[i] is Dword,
        p <= d@.len(),
        !(prefix_with(done, decode_from(steps, i, d@, p as int)) is Panics),
    ensures
        p + 4 <= d@.len(),
        prefix_with(done, decode_from(steps, i, d@, p as int)) == prefix_with(
            done.push(FieldValue::Dword(x)),
            decode_from(steps, i + 1, d@, p + 4),
        ),
{
    reveal(decode_from);
    proof {
        if d@.len() - p < 4 {
            assert(decode_from(steps, i, d@, p as int) is Panics);
            assert(prefix_with(done, decode_from(steps, i, d@, p as int)) is Panics);
        }
        assert(p + 4 <= d@.len());
    }
    let _len = d.len();
    let x = u32_from_le_bytes(&d[p..p + 4]);
    proof { lemma_prefix_step(done, FieldValue::Dword(x), decode_from(steps, i + 1, d@, p + 4)); }
    x
}

/// Reads the little-endian 64-bit integer of step `i`.
pub fn read_qword(
    d: &[u8],
    p: usize,
    Ghost(steps): Ghost<Seq<FieldKind>>,
    Ghost(i): Ghost<int>,
    Ghost(done): Ghost<Seq<FieldValue>>,
) -> (x: u64)
    requires
        0 <= i < steps.len(),
        steps[i] is Qword,
        p <= d@.len(),
        !(prefix_with(done, decode_from(steps, i, d@, p as int)) is Panics),
    ensures
        p + 8 <= d@.len(),
        prefix_with(done, decode_from(steps, i, d@, p as int)) == prefix_with(
            done.push(FieldValue::Qword(x)),
            decode_from(steps, i + 1, d@, p + 8),
        ),
{
    reveal(decode_from);
    proof {
        if d@.len() - p < 8 {
            assert(decode_from(steps, i, d@, p as int) is Panics);
            assert(prefix_with(done, decode_from(steps, i, d@, p as int)) is Panics);
        }
        assert(p + 8 <= d@.len());
    }
    let _len = d.len();
    let x = u64_from_le_bytes(&d[p..p + 8]);
    proof { lemma_prefix_step(done, FieldValue::Qword(x), decode_from(steps, i + 1, d@, p + 8)); }
    x
}

/// Reads the string of step `i`.
pub fn read_text(
    d: &[u8],
    p: usize,
    Ghost(steps): Ghost<Seq<FieldKind>>,
    Ghost(i): Ghost<int>,
    Ghost(done): Ghost<Seq<FieldValue>>,
) -> (r: Result<(String, usize), RelayError>)
    requires
        0 <= i < steps.len(),
        steps[i] is Text,
        p <= d@.len(),
    ensures
        r matches Ok((s, q)) ==> {
            &&& p < q <= d@.len()
            &&& prefix_with(done, decode_from(steps, i, d@, p as int)) == prefix_with(
                done.push(FieldValue::Text(s@)),
                decode_from(steps, i + 1, d@, q as int),
            )
        },
        r matches Err(e) ==> failure_matches(decode_from(steps, i, d@, p as int), e@),
{
    reveal(decode_from);
    let r = read_text_at(d, p);
    proof {
        if let Ok((ref s, q)) = r {
            lemma_prefix_step(done, FieldValue::Text(s@), decode_from(steps, i + 1, d@, q as int));
        }
    }
    r
}

// ---------------------------------------------------------------------------
// Writing
// ---------------------------------------------------------------------------

/// Writes a field after the fields `done` already written past `base`.
proof fn lemma_put(base: Seq<u8>, done: Seq<FieldValue>, v: FieldValue, before: Seq<u8>, after: Seq<u8>)
    requires
        before == base + values_wire(done),
        after == before + value_wire(v),
    ensures
        after == base + values_wire(done.push(v)),
{
    lemma_wire_push(done, v, 0);
    assert(after =~= base + values_wire(done.push(v)));
}

/// Appends one byte.
pub fn put_byte(buf: &mut Vec<u8>, x: u8, Ghost(base): Ghost<Seq<u8>>, Ghost(done): Ghost<Seq<FieldValue>>)
    requires
        old(buf)@ == base + values_wire(done),
    ensures
        final(buf)@ == base + values_wire(done.push(FieldValue::Byte(x))),
{
    let ghost before = buf@;
    buf.push(x);
    proof {
        assert(buf@ =~= before + value_wire(FieldValue::Byte(x)));
        lemma_put(base, done, FieldValue::Byte(x), before, buf@); }
}

/// Appends a flag as the byte 1 or 0.
pub fn put_flag(buf: &mut Vec<u8>, x: bool, Ghost(base): Ghost<Seq<u8>>, Ghost(done): Ghost<Seq<FieldValue>>)
    requires
        old(buf)@ == base + values_wire(done),
    ensures
        final(buf)@ == base + values_wire(done.push(FieldValue::Flag(x))),
{
    let ghost before = buf@;
    buf.push(if x { 1u8 } else { 0u8 });
    proof {
        assert(buf@ =~= before + value_wire(FieldValue::Flag(x)));
        lemma_put(base, done, FieldValue::Flag(x), before, buf@);
    }
}

/// Appends a little-endian 16-bit integer.
pub fn put_word(buf: &mut Vec<u8>, x: u16, Ghost(base): Ghost<Seq<u8>>, Ghost(done): Ghost<Seq<FieldValue>>)
    requires
        old(buf)@ == base + values_wire(done),
    ensures
        final(buf)@ == base + values_wire(done.push(FieldValue::Word(x))),
{
    let ghost before = buf@;
    let b = u16_to_le_bytes(x);
    buf.extend_from_slice(b.as_slice());
    proof {
        assert(buf@ =~= before + b@);
        lemma_put(base, done, FieldValue::Word(x), before, buf@);
    }
}

/// Appends a little-endian 32-bit integer.
pub fn put_dword(buf: &mut Vec<u8>, x: u32, Ghost(base): Ghost<Seq<u8>>, Ghost(done): Ghost<Seq<FieldValue>>)
    requires
        old(buf)@ == base + values_wire(done),
    ensures
        final(buf)@ == base + values_wire(done.push(FieldValue::Dword(x))),
{
    let ghost before = buf@;
    let b = u32_to_le_bytes(x);
    buf.extend_from_slice(b.as_slice());
    proof {
        assert(buf@ =~= before + b@);
        lemma_put(base, done, FieldValue::Dword(x), before, buf@);
    }
}

/// Appends a little-endian 64-bit integer.
pub fn put_qword(buf: &mut Vec<u8>, x: u64, Ghost(base): Ghost<Seq<u8>>, Ghost(done): Ghost<Seq<FieldValue>>)
    requires
        old(buf)@ == base + values_wire(done),
    ensures
        final(buf)@ == base + values_wire(done.push(FieldValue::Qword(x))),
{
    let ghost before = buf@;
    let b = u64_to_le_bytes(x);
    buf.extend_from_slice(b.as_slice());
    proof {
        assert(buf@ =~= before + b@);
        lemma_put(base, done, FieldValue::Qword(x), before, buf@);
    }
}

/// Appends a length-prefixed string: its length (at most 255) and that many
/// bytes of its UTF-8 encoding.
pub fn write_text(buf: &mut Vec<u8>, s: &str)
    ensures
        final(buf)@ == old(buf)@ + text_wire(s@),
{
    let bytes = s.as_bytes();
    let len: usize = if bytes.len() < 255 { bytes.len() } else { 255 };
    buf.push(len as u8);
    buf.extend_from_slice(&bytes[0..len]);
    proof {
        assert(buf@ =~= old(buf)@ + text_wire(s@));
    }
}

/// Appends a string field.
pub fn put_text(buf: &mut Vec<u8>, s: &str, Ghost(base): Ghost<Seq<u8>>, Ghost(done): Ghost<Seq<FieldValue>>)
    requires
        old(buf)@ == base + values_wire(done),
    ensures
        final(buf)@ == base + values_wire(done.push(FieldValue::Text(s@))),
{
    let ghost before = buf@;
    write_text(buf, s);
    proof { lemma_put(base, done, FieldValue::Text(s@), before, buf@); }
}

} // verus!
