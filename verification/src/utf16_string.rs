//! Null-terminated UTF-16 strings and their decoding.
use vstd::prelude::*;
use vstd::string::StringExecFns;
use crate::endian::{Endianness, decode_u16, encode_u16};
use crate::reader::{Readable, ReadError, SliceReader};
use crate::writer::{RoundTrip, VecWriter, Writable};
use vstd::std_specs::cmp::PartialEqSpecImpl;

verus! {

/// The position of the first zero code unit (two zero bytes at an even
/// offset) at or after `from`.
pub open spec fn spec_terminator(data: Seq<u8>, from: nat) -> Option<nat>
    decreases data.len() - from,
{
    if from + 2 > data.len() {
        None
    } else if data[from as int] == 0 && data[(from + 1) as int] == 0 {
        Some(from)
    } else {
        spec_terminator(data, from + 2)
    }
}

/// The code units that the bytes hold, two bytes each in the byte order
/// `big`; a trailing odd byte is left out.
pub open spec fn spec_units(big: bool, data: Seq<u8>) -> Seq<u16> {
    Seq::new(data.len() / 2, |i: int| decode_u16(big, data.skip(2 * i)))
}

pub open spec fn is_lead_surrogate(u: u16) -> bool {
    0xD800 <= u && u < 0xDC00
}

pub open spec fn is_trail_surrogate(u: u16) -> bool {
    0xDC00 <= u && u <= 0xDFFF
}

/// The code point of the replacement character U+FFFD.
pub open spec fn replacement() -> u32 {
    0xFFFD
}

/// UTF-16 decoding, as code points: a unit outside the surrogates stands for
/// itself; a lead surrogate followed by a trail surrogate stands for the code
/// point they combine to; any other surrogate stands for U+FFFD (and the unit
/// after an unpaired lead surrogate is decoded in its own right).
pub open spec fn spec_decode_utf16(us: Seq<u16>) -> Seq<u32>
    decreases us.len(),
{
    if us.len() == 0 {
        Seq::empty()
    } else {
        let u = us[0];
        if !is_lead_surrogate(u) && !is_trail_surrogate(u) {
            seq![u as u32] + spec_decode_utf16(us.drop_first())
        } else if is_trail_surrogate(u) {
            seq![replacement()] + spec_decode_utf16(us.drop_first())
        } else if us.len() == 1 {
            seq![replacement()]
        } else if !is_trail_surrogate(us[1]) {
            seq![replacement()] + spec_decode_utf16(us.drop_first())
        } else {
            seq![(((((u - 0xD800) as u32) << 10u32) | ((us[1] - 0xDC00) as u32)) + 0x10000) as u32]
                + spec_decode_utf16(us.subrange(2, us.len() as int))
        }
    }
}

/// `char::from_u32`: the character with code point `v`, where `v` is a
/// Unicode scalar value (at most 0x10FFFF and not a surrogate); `None`
/// otherwise.
#[verifier::external_body]
fn char_from_u32(v: u32) -> (r: Option<char>)
    ensures
        r is Some <==> (v < 0xD800 || (0xE000 <= v && v <= 0x10FFFF)),
        r matches Some(c) ==> c as u32 == v,
{
    char::from_u32(v)
}

/// A null-terminated UTF-16 string: the bytes of its code units, terminator
/// included.
#[derive(Debug)]
pub struct Utf16beStr<'a, E>(SliceReader<'a, E>);

impl<'a, E> DeepView for Utf16beStr<'a, E> {
    type V = Seq<u8>;

    /// The string's bytes, terminator included.
    closed spec fn deep_view(&self) -> Seq<u8> {
        self.0@
    }
}

impl<'a, E> Clone for Utf16beStr<'a, E> {
    fn clone(&self) -> (r: Self)
        ensures
            r.deep_view() == self.deep_view(),
    {
        proof {
            use_type_invariant(self);
        }
        Utf16beStr(self.0.clone())
    }
}

impl<'a, E> Utf16beStr<'a, E> {
    /// A string holds whole code units.
    #[verifier::type_invariant]
    closed spec fn whole_units(&self) -> bool {
        self.0@.len() % 2 == 0
    }
}

impl<'a, E: Endianness> Utf16beStr<'a, E> {
    /// Reads a string: the bytes up to and including the first zero code
    /// unit.
    pub fn read_str(reader: &mut SliceReader<'a, E>) -> (res: Result<Utf16beStr<'a, E>, ReadError>)
        ensures
            match spec_terminator(old(reader)@, 0) {
                Some(j) => (res matches Ok(r) && r.deep_view() == old(reader)@.take((j + 2) as int))
                    && final(reader)@ == old(reader)@.skip((j + 2) as int),
                None => res is Err,
            },
    {
        let ghost data = reader@;
        let start_reader = reader.clone();
        let _dlen = reader.len();
        let ghost mut pos: nat = 0;
        loop
            invariant_except_break
                reader@ == data.skip(pos as int),
            invariant
                data == old(reader)@,
                start_reader@ == data,
                pos % 2 == 0,
                pos <= data.len(),
                data.len() == _dlen,
                spec_terminator(data, 0) == spec_terminator(data, pos),
            ensures
                pos + 2 <= data.len(),
                reader@ == data.skip((pos + 2) as int),
                spec_terminator(data, 0) == Some(pos),
            decreases data.len() - pos,
        {
            let u = reader.read_u16()?;
            proof {
                assert(data.skip(pos as int)[0] == data[pos as int] && data.skip(pos as int)[1]
                    == data[(pos + 1) as int]);
                lemma_zero_unit(E::is_big(), data.skip(pos as int));
                assert(data.skip(pos as int).skip(2) =~= data.skip((pos + 2) as int));
            }
            if u == 0 {
                break ;
            }
            proof {
                pos = pos + 2;
            }
        }
        let read_len = start_reader.len() - reader.len();
        let s = start_reader.truncate_clone_to(read_len)?;
        assert(read_len == pos + 2);
        assert(s@.len() % 2 == 0);
        Ok(Utf16beStr(s))
    }

    /// The characters of the string, decoded one at a time.
    pub fn chars(&self) -> (r: DecodeUtf16<'a, E>)
        ensures
            r.pending() == spec_units(E::is_big(), self.deep_view()),
            !r.odd_tail(),
            self.deep_view().len() % 2 == 0,
    {
        proof {
            use_type_invariant(self);
        }
        let r = DecodeUtf16 { iter: U16beIter(self.0.clone()), buf: None };
        assert(r.pending() =~= spec_units(E::is_big(), self.deep_view()));
        r
    }
}

/// Lemma: advancing two bytes drops the first unit.
proof fn lemma_units_skip2(big: bool, data: Seq<u8>)
    requires
        data.len() >= 2,
    ensures
        spec_units(big, data.skip(2)) == spec_units(big, data).drop_first(),
        spec_units(big, data)[0] == decode_u16(big, data),
{
    assert forall|i: int| 0 <= i < spec_units(big, data.skip(2)).len() implies #[trigger] spec_units(
        big,
        data.skip(2),
    )[i] == spec_units(big, data).drop_first()[i] by {
        assert(data.skip(2).skip(2 * i) =~= data.skip(2 * (i + 1)));
    }
    assert(spec_units(big, data.skip(2)) =~= spec_units(big, data).drop_first());
    assert(data.skip(0) =~= data);
}

/// The code units of a reader's bytes, read one at a time in its byte order.
#[derive(Debug)]
pub struct U16beIter<'a, E>(SliceReader<'a, E>);

impl<'a, E: Endianness> U16beIter<'a, E> {
    /// The bytes not read yet.
    pub closed spec fn bytes(&self) -> Seq<u8> {
        self.0@
    }

    /// The next code unit; `None` once no byte is left, and an error where a
    /// single byte is left.
    pub fn next(&mut self) -> (r: Option<Result<u16, ReadError>>)
        ensures
            old(self).bytes().len() == 0 ==> r is None && final(self).bytes() == old(self).bytes(),
            old(self).bytes().len() == 1 ==> r == Some(Err::<u16, ReadError>(ReadError::UnexpectedEof))
                && final(self).bytes() == old(self).bytes(),
            old(self).bytes().len() >= 2 ==> r == Some(
                Ok::<u16, ReadError>(decode_u16(E::is_big(), old(self).bytes())),
            ) && final(self).bytes() == old(self).bytes().skip(2),
    {
        if self.0.len() > 0 {
            Some(self.0.read_u16())
        } else {
            None
        }
    }
}

/// A decoder of UTF-16 code units, yielding characters.
pub struct DecodeUtf16<'a, E> {
    iter: U16beIter<'a, E>,
    buf: Option<u16>,
}

impl<'a, E: Endianness> DecodeUtf16<'a, E> {
    /// The code units not decoded yet.
    pub closed spec fn pending(&self) -> Seq<u16> {
        match self.buf {
            Some(u) => seq![u] + spec_units(E::is_big(), self.iter.bytes()),
            None => spec_units(E::is_big(), self.iter.bytes()),
        }
    }

    /// Whether a single byte trails the code units.
    pub closed spec fn odd_tail(&self) -> bool {
        self.iter.bytes().len() % 2 == 1
    }

    /// Decodes the next character. A trailing odd byte gives an error where a
    /// code unit is read from it.
    pub fn next(&mut self) -> (r: Option<Result<char, ReadError>>)
        ensures
            final(self).odd_tail() == old(self).odd_tail(),
            old(self).pending().len() == 0 ==> if old(self).odd_tail() {
                r == Some(Err::<char, ReadError>(ReadError::UnexpectedEof))
            } else {
                r is None
            },
            old(self).pending().len() == 0 ==> final(self).pending().len() == 0,
            old(self).pending().len() == 1 && is_lead_surrogate(old(self).pending()[0]) && old(
                self,
            ).odd_tail() ==> r == Some(Err::<char, ReadError>(ReadError::UnexpectedEof))
                && final(self).pending().len() == 0,
            old(self).pending().len() > 0 && !(old(self).pending().len() == 1 && is_lead_surrogate(
                old(self).pending()[0],
            ) && old(self).odd_tail()) ==> {
                let d = spec_decode_utf16(old(self).pending());
                &&& r matches Some(Ok(c)) && c as u32 == d[0]
                &&& spec_decode_utf16(final(self).pending()) == d.drop_first()
            },
    {
        let ghost pend = self.pending();
        let ghost big = E::is_big();
        proof {
            if self.iter.bytes().len() >= 2 {
                lemma_units_skip2(big, self.iter.bytes());
            }
        }
        let u = match self.buf {
            Some(b) => {
                self.buf = None;
                b
            },
            None => match self.iter.next() {
                None => {
                    return None;
                },
                Some(Ok(u)) => u,
                Some(Err(e)) => {
                    return Some(Err(e));
                },
            },
        };
        let ghost rest = spec_units(big, self.iter.bytes());
        assert(pend == seq![u] + rest);
        assert(pend.drop_first() =~= rest);
        if u < 0xD800 || 0xDFFF < u {
            let c = char_from_u32(u as u32);
            match c {
                Some(c) => Some(Ok(c)),
                None => Some(Ok('\u{FFFD}')),
            }
        } else if u >= 0xDC00 {
            Some(Ok('\u{FFFD}'))
        } else {
            proof {
                if self.iter.bytes().len() >= 2 {
                    lemma_units_skip2(big, self.iter.bytes());
                }
            }
            let u2 = match self.iter.next() {
                Some(Ok(u2)) => u2,
                Some(Err(e)) => {
                    return Some(Err(e));
                },
                None => {
                    return Some(Ok('\u{FFFD}'));
                },
            };
            assert(rest[0] == u2);
            if u2 < 0xDC00 || u2 > 0xDFFF {
                self.buf = Some(u2);
                assert(self.pending() =~= rest);
                return Some(Ok('\u{FFFD}'));
            }
            assert(pend.subrange(2, pend.len() as int) =~= rest.drop_first());
            let hi = (u - 0xD800) as u32;
            let lo = (u2 - 0xDC00) as u32;
            assert(((hi << 10u32) | lo) + 0x10000 <= 0x10FFFF) by (bit_vector)
                requires
                    hi < 0x400,
                    lo < 0x400,
            ;
            let c = ((((u - 0xD800) as u32) << 10u32) | ((u2 - 0xDC00) as u32)) + 0x1_0000;
            match char_from_u32(c) {
                Some(ch) => Some(Ok(ch)),
                None => Some(Ok('\u{FFFD}')),
            }
        }
    }
}

impl<'a, E: Endianness> Readable<'a, E> for Utf16beStr<'a, E> {
    type Args = ();

    /// A string reads up to and including its first zero code unit.
    open spec fn spec_read(data: Seq<u8>, args: ()) -> Option<(Seq<u8>, nat)> {
        match spec_terminator(data, 0) {
            Some(j) => Some((data.take((j + 2) as int), j + 2)),
            None => None,
        }
    }

    open spec fn spec_size(v: Seq<u8>) -> nat {
        v.len()
    }

    open spec fn spec_fixed_size() -> Option<nat> {
        None
    }

    proof fn lemma_read_size(data: Seq<u8>, args: ()) {
        lemma_terminator_bound(data, 0);
    }

    proof fn lemma_read_prefix(data: Seq<u8>, args: (), more: Seq<u8>) {
        lemma_terminator_bound(data, 0);
        if let Some(j) = spec_terminator(data, 0) {
            lemma_terminator_prefix(data, 0, (j + 2) as nat, more);
            assert((data.take((j + 2) as int) + more).take((j + 2) as int) =~= data.take((j + 2) as int));
        }
    }

    proof fn lemma_fixed_size(v: Seq<u8>) {
    }

    fn read_from(reader: &mut SliceReader<'a, E>, args: ()) -> (res: Result<
        Utf16beStr<'a, E>,
        ReadError,
    >) {
        Self::read_str(reader)
    }

    fn size(&self) -> (r: Result<usize, ReadError>) {
        Ok(self.0.len())
    }

    fn fixed_size() -> (r: Option<usize>) {
        None
    }
}

/// A code unit is zero exactly where both of its bytes are.
proof fn lemma_zero_unit(big: bool, b: Seq<u8>)
    requires
        b.len() >= 2,
    ensures
        (decode_u16(big, b) == 0) <==> (b[0] == 0 && b[1] == 0),
{
    let (b0, b1) = (b[0], b[1]);
    assert((((b0 as u16) << 8u16) | (b1 as u16)) == 0 <==> (b0 == 0 && b1 == 0)) by (bit_vector);
    assert((((b1 as u16) << 8u16) | (b0 as u16)) == 0 <==> (b0 == 0 && b1 == 0)) by (bit_vector);
}

/// A terminator found lies within the data, at an even distance from the start.
proof fn lemma_terminator_bound(data: Seq<u8>, from: nat)
    ensures
        spec_terminator(data, from) matches Some(j) ==> from <= j && j + 2 <= data.len() && (j
            - from) % 2 == 0 && data[j as int] == 0 && data[(j + 1) as int] == 0,
    decreases data.len() - from,
{
    if from + 2 <= data.len() && !(data[from as int] == 0 && data[(from + 1) as int] == 0) {
        lemma_terminator_bound(data, from + 2);
    }
}

/// Finding the terminator depends only on the bytes up to it.
proof fn lemma_terminator_prefix(data: Seq<u8>, from: nat, n: nat, more: Seq<u8>)
    requires
        spec_terminator(data, from) matches Some(j) && j + 2 <= n,
        n <= data.len(),
    ensures
        spec_terminator(data.take(n as int) + more, from) == spec_terminator(data, from),
    decreases data.len() - from,
{
    let d2 = data.take(n as int) + more;
    if from + 2 <= data.len() && !(data[from as int] == 0 && data[(from + 1) as int] == 0) {
        lemma_terminator_prefix(data, from + 2, n, more);
    }
    lemma_terminator_bound(data, from);
    if from + 2 <= n {
        assert(d2[from as int] == data[from as int] && d2[(from + 1) as int] == data[(from + 1) as int]);
    }
}

impl<'a, E: Endianness> Writable<E> for Utf16beStr<'a, E> {
    /// A string is written as its bytes, terminator included.
    open spec fn spec_write(v: Seq<u8>) -> Seq<u8> {
        v
    }

    fn write_to(&self, writer: &mut VecWriter<E>) -> (r: u64) {
        let bytes = self.0.as_slice();
        writer.write_bytes(bytes);
        bytes.len() as u64
    }
}

impl<'a, E: Endianness> RoundTrip<'a, E> for Utf16beStr<'a, E> {
    /// The bytes end at their first zero code unit.
    open spec fn spec_round_trips(v: Seq<u8>) -> bool {
        v.len() >= 2 && spec_terminator(v, 0) == Some((v.len() - 2) as nat)
    }

    open spec fn spec_args_for(v: Seq<u8>) -> () {
        ()
    }

    proof fn lemma_write_then_read(v: Seq<u8>, rest: Seq<u8>) {
        lemma_terminator_prefix(v, 0, v.len(), rest);
        assert(v.take(v.len() as int) =~= v);
        assert((v + rest).take(v.len() as int) =~= v);
    }
}

/// The code points of a string's bytes.
pub open spec fn spec_code_points(big: bool, bytes: Seq<u8>) -> Seq<u32> {
    spec_decode_utf16(spec_units(big, bytes))
}

/// Whether two strings of code points agree as far as the shorter goes.
pub open spec fn spec_agree_points(a: Seq<u32>, b: Seq<u32>) -> bool {
    forall|i: int| 0 <= i < a.len() && i < b.len() ==> a[i] == b[i]
}

/// The code points of characters.
pub open spec fn spec_char_points(s: Seq<char>) -> Seq<u32> {
    s.map_values(|c: char| c as u32)
}

impl<'a, E: Endianness> PartialEq<str> for Utf16beStr<'a, E> {
    /// Compares character by character as far as the shorter string goes.
    fn eq(&self, other: &str) -> (r: bool) {
        let ghost d = spec_code_points(E::is_big(), self.deep_view());
        let ghost o = spec_char_points(other@);
        let mut chars = self.chars();
        let n = other.unicode_len();
        let mut i: usize = 0;
        loop
            invariant
                d == spec_code_points(E::is_big(), self.deep_view()),
                o == spec_char_points(other@),
                n == other@.len(),
                !chars.odd_tail(),
                spec_decode_utf16(chars.pending()) == d.skip(i as int),
                i <= d.len(),
                forall|j: int| 0 <= j < i && j < n ==> d[j] == o[j],
            decreases d.len() - i,
        {
            let ghost rest = spec_decode_utf16(chars.pending());
            let x = chars.next();
            match x {
                None => {
                    assert(rest.len() == 0);
                    return true;
                },
                Some(Ok(c1)) => {
                    assert(rest.len() > 0);
                    if i >= n {
                        return true;
                    }
                    let c2 = other.get_char(i);
                    assert(o[i as int] == c2 as u32);
                    assert(d[i as int] == rest[0]);
                    if (c1 as u32) != (c2 as u32) {
                        assert(o.len() == n);
                        assert(d[i as int] != o[i as int]);
                        return false;
                    }
                },
                Some(Err(_)) => {
                    return false;
                },
            }
            i = i + 1;
            assert(d.skip(i as int) =~= rest.drop_first());
        }
    }
}

impl<'a, E: Endianness> PartialEqSpecImpl<str> for Utf16beStr<'a, E> {
    open spec fn obeys_eq_spec() -> bool {
        true
    }

    open spec fn eq_spec(&self, other: &str) -> bool {
        spec_agree_points(spec_code_points(E::is_big(), self.deep_view()), spec_char_points(other@))
    }
}

impl<'a, 'b, E: Endianness, E2: Endianness> PartialEq<Utf16beStr<'b, E2>> for Utf16beStr<'a, E> {
    /// Compares character by character as far as the shorter string goes.
    fn eq(&self, other: &Utf16beStr<'b, E2>) -> (r: bool) {
        let ghost d = spec_code_points(E::is_big(), self.deep_view());
        let ghost o = spec_code_points(E2::is_big(), other.deep_view());
        let mut a = self.chars();
        let mut b = other.chars();
        let ghost mut i: int = 0;
        loop
            invariant
                d == spec_code_points(E::is_big(), self.deep_view()),
                o == spec_code_points(E2::is_big(), other.deep_view()),
                !a.odd_tail(),
                !b.odd_tail(),
                spec_decode_utf16(a.pending()) == d.skip(i),
                spec_decode_utf16(b.pending()) == o.skip(i),
                0 <= i <= d.len(),
                i <= o.len(),
                forall|j: int| 0 <= j < i ==> d[j] == o[j],
            decreases d.len() - i,
        {
            let ghost ra = spec_decode_utf16(a.pending());
            let ghost rb = spec_decode_utf16(b.pending());
            let c1 = match a.next() {
                None => {
                    assert(ra.len() == 0);
                    return true;
                },
                Some(Ok(c)) => c,
                Some(Err(_)) => {
                    return false;
                },
            };
            let c2 = match b.next() {
                None => {
                    assert(rb.len() == 0);
                    return true;
                },
                Some(Ok(c)) => c,
                Some(Err(_)) => {
                    return false;
                },
            };
            assert(d[i] == ra[0] && o[i] == rb[0]);
            if (c1 as u32) != (c2 as u32) {
                return false;
            }
            proof {
                i = i + 1;
                assert(d.skip(i) =~= ra.drop_first());
                assert(o.skip(i) =~= rb.drop_first());
            }
        }
    }
}

impl<'a, 'b, E: Endianness, E2: Endianness> PartialEqSpecImpl<Utf16beStr<'b, E2>> for Utf16beStr<'a, E> {
    open spec fn obeys_eq_spec() -> bool {
        true
    }

    open spec fn eq_spec(&self, other: &Utf16beStr<'b, E2>) -> bool {
        spec_agree_points(
            spec_code_points(E::is_big(), self.deep_view()),
            spec_code_points(E2::is_big(), other.deep_view()),
        )
    }
}

/// The UTF-16 code units of a character: itself below 0x10000, else a lead
/// and a trail surrogate.
pub open spec fn spec_char_units(c: char) -> Seq<u16> {
    let v = c as u32;
    if v < 0x10000 {
        seq![v as u16]
    } else {
        let w = (v - 0x10000) as u32;
        seq![(0xD800u32 | (w >> 10u32)) as u16, (0xDC00u32 | (w & 0x3FFu32)) as u16]
    }
}

/// The UTF-16 code units of characters.
pub open spec fn spec_utf16_units(s: Seq<char>) -> Seq<u16>
    decreases s.len(),
{
    if s.len() == 0 {
        Seq::empty()
    } else {
        spec_utf16_units(s.drop_last()) + spec_char_units(s.last())
    }
}

/// The bytes of code units, each in the byte order `big`.
pub open spec fn spec_units_bytes(big: bool, us: Seq<u16>) -> Seq<u8>
    decreases us.len(),
{
    if us.len() == 0 {
        Seq::empty()
    } else {
        spec_units_bytes(big, us.drop_last()) + encode_u16(big, us.last())
    }
}

proof fn lemma_units_bytes_append(big: bool, a: Seq<u16>, b: Seq<u16>)
    ensures
        spec_units_bytes(big, a + b) == spec_units_bytes(big, a) + spec_units_bytes(big, b),
    decreases b.len(),
{
    if b.len() == 0 {
        assert(a + b =~= a);
        assert(spec_units_bytes(big, a) + Seq::<u8>::empty() =~= spec_units_bytes(big, a));
    } else {
        lemma_units_bytes_append(big, a, b.drop_last());
        assert((a + b).drop_last() =~= a + b.drop_last());
        assert((a + b).last() == b.last());
    }
}

/// `String::from_iter`: the string of the characters.
#[verifier::external_body]
pub(crate) fn string_from_chars(cs: &Vec<char>) -> (r: String)
    ensures
        r@ == cs@,
{
    String::from_iter(cs.iter())
}

/// A null-terminated UTF-16 string: the bytes it was read from, or an owned
/// string.
pub enum LazyUtf16beStr<'a, E> {
    Owned(String),
    Borrowed(Utf16beStr<'a, E>),
}

impl<'a, E: Endianness> LazyUtf16beStr<'a, E> {
    /// The string's code points: an owned string's characters, a borrowed
    /// one's decoded units.
    pub open spec fn points(&self) -> Seq<u32> {
        match self {
            LazyUtf16beStr::Owned(s) => spec_char_points(s@),
            LazyUtf16beStr::Borrowed(b) => spec_code_points(E::is_big(), b.deep_view()),
        }
    }

    /// The characters, one at a time.
    pub fn chars<'s>(&'s self) -> (r: LazyUtf16beStrChars<'s, 'a, E>)
        ensures
            r.rest() == self.points(),
            r.whole(),
    {
        match self {
            LazyUtf16beStr::Owned(s) => {
                let r = LazyUtf16beStrChars::Owned(s.as_str(), 0);
                assert(spec_char_points(s@).skip(0) =~= spec_char_points(s@));
                r
            },
            LazyUtf16beStr::Borrowed(b) => LazyUtf16beStrChars::Borrowed(b.chars()),
        }
    }

    /// The string, owned, to be changed in place: a borrowed one is decoded
    /// first and becomes owned.
    pub fn as_mut_string(&mut self) -> (r: Result<&mut String, ReadError>)
        ensures
            r matches Ok(st) && spec_char_points(st@) == old(self).points()
                && *final(self) == LazyUtf16beStr::<'a, E>::Owned(*final(st)),
            *old(self) matches LazyUtf16beStr::Owned(o) ==> r matches Ok(st) && *st == o,
    {
        if let LazyUtf16beStr::Borrowed(b) = self {
            let copy = LazyUtf16beStr::<'a, E>::Borrowed(b.clone());
            let st = match copy.into_string() {
                Ok(st) => st,
                Err(e) => {
                    return Err(e);
                },
            };
            *self = LazyUtf16beStr::Owned(st);
        }
        match self {
            LazyUtf16beStr::Owned(st) => Ok(st),
            LazyUtf16beStr::Borrowed(_) => vstd::pervasive::unreached(),
        }
    }

    /// The string, owned: a borrowed one decoded.
    pub fn into_string(self) -> (r: Result<String, ReadError>)
        ensures
            r matches Ok(st) && spec_char_points(st@) == self.points(),
    {
        match self {
            LazyUtf16beStr::Owned(s) => Ok(s),
            LazyUtf16beStr::Borrowed(b) => {
                let ghost d = spec_code_points(E::is_big(), b.deep_view());
                let mut it = b.chars();
                let mut out: Vec<char> = Vec::new();
                loop
                    invariant
                        d == spec_code_points(E::is_big(), b.deep_view()),
                        !it.odd_tail(),
                        out@.len() <= d.len(),
                        spec_decode_utf16(it.pending()) == d.skip(out@.len() as int),
                        spec_char_points(out@) == d.take(out@.len() as int),
                    ensures
                        spec_char_points(out@) == d,
                    decreases d.len() - out@.len(),
                {
                    let ghost rest = spec_decode_utf16(it.pending());
                    match it.next() {
                        None => {
                            assert(rest.len() == 0);
                            assert(d.take(out@.len() as int) =~= d);
                            break ;
                        },
                        Some(Ok(c)) => {
                            let ghost k = out@.len() as int;
                            out.push(c);
                            assert(spec_char_points(out@) =~= d.take(k + 1));
                            assert(d.skip(k + 1) =~= rest.drop_first());
                        },
                        Some(Err(e)) => {
                            return Err(e);
                        },
                    }
                }
                Ok(string_from_chars(&out))
            },
        }
    }
}

impl<'a, E: Endianness> DeepView for LazyUtf16beStr<'a, E> {
    /// Whether it is owned; an owned string's characters; a borrowed one's
    /// bytes.
    type V = (bool, Seq<char>, Seq<u8>);

    open spec fn deep_view(&self) -> (bool, Seq<char>, Seq<u8>) {
        match self {
            LazyUtf16beStr::Owned(s) => (true, s@, Seq::empty()),
            LazyUtf16beStr::Borrowed(b) => (false, Seq::empty(), b.deep_view()),
        }
    }
}

/// A cursor over the characters of a `LazyUtf16beStr`.
pub enum LazyUtf16beStrChars<'s, 'a, E> {
    Owned(&'s str, usize),
    Borrowed(DecodeUtf16<'a, E>),
}

impl<'s, 'a, E: Endianness> LazyUtf16beStrChars<'s, 'a, E> {
    /// The code points not yielded yet.
    pub open spec fn rest(&self) -> Seq<u32> {
        match self {
            LazyUtf16beStrChars::Owned(s, i) => spec_char_points(s@).skip(*i as int),
            LazyUtf16beStrChars::Borrowed(d) => spec_decode_utf16(d.pending()),
        }
    }

    /// Whether the cursor yields no error: its units are whole, or it is at
    /// most at the end of an owned string.
    pub open spec fn whole(&self) -> bool {
        match self {
            LazyUtf16beStrChars::Owned(s, i) => *i <= s@.len(),
            LazyUtf16beStrChars::Borrowed(d) => !d.odd_tail(),
        }
    }

    /// The next character, where one is left.
    pub fn next(&mut self) -> (r: Option<Result<char, ReadError>>)
        requires
            old(self).whole(),
        ensures
            final(self).whole(),
            old(self).rest().len() == 0 ==> r is None,
            old(self).rest().len() > 0 ==> (r matches Some(Ok(c)) && c as u32 == old(self).rest()[0])
                && final(self).rest() == old(self).rest().drop_first(),
    {
        match self {
            LazyUtf16beStrChars::Owned(s, i) => {
                let st: &'s str = *s;
                let k = *i;
                if k < st.unicode_len() {
                    let c = st.get_char(k);
                    *i = k + 1;
                    assert(spec_char_points(st@).skip(k + 1) =~= spec_char_points(st@).skip(k as int).drop_first());
                    Some(Ok(c))
                } else {
                    None
                }
            },
            LazyUtf16beStrChars::Borrowed(d) => d.next(),
        }
    }
}

impl<'a, 'b, E: Endianness, E2: Endianness> PartialEq<LazyUtf16beStr<'b, E2>> for LazyUtf16beStr<'a, E> {
    /// Compares character by character as far as the shorter string goes.
    fn eq(&self, other: &LazyUtf16beStr<'b, E2>) -> (r: bool) {
        let ghost d = self.points();
        let ghost o = other.points();
        let mut a = self.chars();
        let mut b = other.chars();
        let ghost mut i: int = 0;
        loop
            invariant
                d == self.points(),
                o == other.points(),
                a.whole(),
                b.whole(),
                a.rest() == d.skip(i),
                b.rest() == o.skip(i),
                0 <= i <= d.len(),
                i <= o.len(),
                forall|j: int| 0 <= j < i ==> d[j] == o[j],
            decreases d.len() - i,
        {
            let ghost ra = a.rest();
            let ghost rb = b.rest();
            let c1 = match a.next() {
                None => {
                    return true;
                },
                Some(Ok(c)) => c,
                Some(Err(_)) => {
                    return false;
                },
            };
            let c2 = match b.next() {
                None => {
                    return true;
                },
                Some(Ok(c)) => c,
                Some(Err(_)) => {
                    return false;
                },
            };
            assert(d[i] == ra[0] && o[i] == rb[0]);
            if (c1 as u32) != (c2 as u32) {
                return false;
            }
            proof {
                i = i + 1;
                assert(d.skip(i) =~= ra.drop_first());
                assert(o.skip(i) =~= rb.drop_first());
            }
        }
    }
}

impl<'a, 'b, E: Endianness, E2: Endianness> PartialEqSpecImpl<LazyUtf16beStr<'b, E2>> for LazyUtf16beStr<'a, E> {
    open spec fn obeys_eq_spec() -> bool {
        true
    }

    open spec fn eq_spec(&self, other: &LazyUtf16beStr<'b, E2>) -> bool {
        spec_agree_points(self.points(), other.points())
    }
}

impl<'a, E: Endianness> PartialEq<str> for LazyUtf16beStr<'a, E> {
    /// Compares character by character as far as the shorter string goes.
    fn eq(&self, other: &str) -> (r: bool) {
        let that = LazyUtf16beStr::<'a, E>::Owned(String::from_str(other));
        self.eq(&that)
    }
}

impl<'a, E: Endianness> PartialEqSpecImpl<str> for LazyUtf16beStr<'a, E> {
    open spec fn obeys_eq_spec() -> bool {
        true
    }

    open spec fn eq_spec(&self, other: &str) -> bool {
        spec_agree_points(self.points(), spec_char_points(other@))
    }
}

impl<'a, 'b, E: Endianness, E2: Endianness> PartialEq<Utf16beStr<'b, E2>> for LazyUtf16beStr<'a, E> {
    /// Compares character by character as far as the shorter string goes.
    fn eq(&self, other: &Utf16beStr<'b, E2>) -> (r: bool) {
        let that = LazyUtf16beStr::<'b, E2>::Borrowed(other.clone());
        self.eq(&that)
    }
}

impl<'a, 'b, E: Endianness, E2: Endianness> PartialEqSpecImpl<Utf16beStr<'b, E2>> for LazyUtf16beStr<'a, E> {
    open spec fn obeys_eq_spec() -> bool {
        true
    }

    open spec fn eq_spec(&self, other: &Utf16beStr<'b, E2>) -> bool {
        spec_agree_points(self.points(), spec_code_points(E2::is_big(), other.deep_view()))
    }
}

impl<'a, E: Endianness> From<String> for LazyUtf16beStr<'a, E> {
    /// An owned string.
    fn from(s: String) -> (r: LazyUtf16beStr<'a, E>) {
        LazyUtf16beStr::Owned(s)
    }
}

impl<'a, E: Endianness> vstd::std_specs::convert::FromSpecImpl<String> for LazyUtf16beStr<'a, E> {
    open spec fn obeys_from_spec() -> bool {
        true
    }

    open spec fn from_spec(s: String) -> LazyUtf16beStr<'a, E> {
        LazyUtf16beStr::Owned(s)
    }
}

impl<'a, E: Endianness> Readable<'a, E> for LazyUtf16beStr<'a, E> {
    type Args = ();

    /// A string is read borrowed, up to and including its first zero code
    /// unit.
    open spec fn spec_read(data: Seq<u8>, args: ()) -> Option<((bool, Seq<char>, Seq<u8>), nat)> {
        match spec_terminator(data, 0) {
            Some(j) => Some(((false, Seq::empty(), data.take((j + 2) as int)), j + 2)),
            None => None,
        }
    }

    /// An owned string takes two bytes per code unit; a borrowed one its
    /// bytes.
    open spec fn spec_size(v: (bool, Seq<char>, Seq<u8>)) -> nat {
        if v.0 {
            2 * spec_utf16_units(v.1).len()
        } else {
            v.2.len()
        }
    }

    open spec fn spec_fixed_size() -> Option<nat> {
        None
    }

    proof fn lemma_read_size(data: Seq<u8>, args: ()) {
        lemma_terminator_bound(data, 0);
    }

    proof fn lemma_read_prefix(data: Seq<u8>, args: (), more: Seq<u8>) {
        lemma_terminator_bound(data, 0);
        if let Some(j) = spec_terminator(data, 0) {
            lemma_terminator_prefix(data, 0, (j + 2) as nat, more);
            assert((data.take((j + 2) as int) + more).take((j + 2) as int) =~= data.take((j + 2) as int));
        }
    }

    proof fn lemma_fixed_size(v: (bool, Seq<char>, Seq<u8>)) {
    }

    fn read_from(reader: &mut SliceReader<'a, E>, args: ()) -> (res: Result<LazyUtf16beStr<'a, E>, ReadError>) {
        match Utf16beStr::read_str(reader) {
            Ok(s) => Ok(LazyUtf16beStr::Borrowed(s)),
            Err(e) => Err(e),
        }
    }

    fn size(&self) -> (r: Result<usize, ReadError>) {
        match self {
            LazyUtf16beStr::Owned(s) => {
                let st = s.as_str();
                let n = st.unicode_len();
                assert(self.deep_view() == (true, s@, Seq::<u8>::empty()));
                let mut units: usize = 0;
                let mut i: usize = 0;
                while i < n
                    invariant
                        0 <= i <= n,
                        n == st@.len(),
                        st@ == s@,
                        self.deep_view() == (true, s@, Seq::<u8>::empty()),
                        units == spec_utf16_units(st@.take(i as int)).len(),
                    decreases n - i,
                {
                    let c = st.get_char(i);
                    assert(st@.take(i + 1).drop_last() =~= st@.take(i as int));
                    let add: usize = if (c as u32) < 0x10000 {
                        1
                    } else {
                        2
                    };
                    units = match units.checked_add(add) {
                        Some(u) => u,
                        None => {
                            proof {
                                lemma_utf16_units_append(st@.take(i + 1), st@.skip(i + 1));
                                assert(st@.take(i + 1) + st@.skip(i + 1) =~= st@);
                                assert(st@.take(i + 1).last() == c);
                                assert(spec_utf16_units(st@.take(i + 1)) == spec_utf16_units(st@.take(i as int))
                                    + spec_char_units(c));
                                assert(spec_char_units(c).len() == add);
                                assert(spec_utf16_units(st@.take(i + 1)).len() > usize::MAX);
                                assert(spec_utf16_units(s@).len() > usize::MAX);
                                assert(self.deep_view() == (true, s@, Seq::<u8>::empty()));
                            }
                            return Err(ReadError::SizeOverflow);
                        },
                    };
                    i = i + 1;
                }
                assert(st@.take(n as int) =~= st@);
                match units.checked_mul(2) {
                    Some(b) => Ok(b),
                    None => Err(ReadError::SizeOverflow),
                }
            },
            LazyUtf16beStr::Borrowed(b) => b.size(),
        }
    }

    fn fixed_size() -> (r: Option<usize>) {
        None
    }
}

impl<'a, E: Endianness> Writable<E> for LazyUtf16beStr<'a, E> {
    /// A borrowed string is written as its bytes; an owned one as its UTF-16
    /// code units, without adding a terminator.
    open spec fn spec_write(v: (bool, Seq<char>, Seq<u8>)) -> Seq<u8> {
        if v.0 {
            spec_units_bytes(E::is_big(), spec_utf16_units(v.1))
        } else {
            v.2
        }
    }

    fn write_to(&self, writer: &mut VecWriter<E>) -> (r: u64) {
        match self {
            LazyUtf16beStr::Borrowed(b) => b.write_to(writer),
            LazyUtf16beStr::Owned(s) => {
                let st = s.as_str();
                let n = st.unicode_len();
                let ghost big = E::is_big();
                let ghost start = writer@;
                let ghost total = spec_units_bytes(big, spec_utf16_units(s@));
                proof {
                    assert(st@.take(0) =~= Seq::<char>::empty());
                    assert(st@.skip(0) =~= st@);
                    assert(start + Seq::<u8>::empty() =~= start);
                    lemma_split_units(big, st@, 0);
                }
                let mut sum: u64 = 0;
                let mut i: usize = 0;
                while i < n
                    invariant
                        0 <= i <= n,
                        n == st@.len(),
                        st@ == s@,
                        big == E::is_big(),
                        total == spec_units_bytes(big, spec_utf16_units(s@)),
                        start.len() + total.len() <= usize::MAX,
                        writer@ == start + spec_units_bytes(big, spec_utf16_units(st@.take(i as int))),
                        sum == spec_units_bytes(big, spec_utf16_units(st@.take(i as int))).len(),
                        total.len() == spec_units_bytes(big, spec_utf16_units(st@.take(i as int))).len()
                            + spec_units_bytes(big, spec_utf16_units(st@.skip(i as int))).len(),
                    decreases n - i,
                {
                    let c = st.get_char(i);
                    let v = c as u32;
                    let ghost before = spec_utf16_units(st@.take(i as int));
                    proof {
                        assert(st@.take(i + 1).drop_last() =~= st@.take(i as int));
                        assert(st@.take(i + 1).last() == c);
                        lemma_units_bytes_append(big, before, spec_char_units(c));
                        lemma_split_units(big, st@, i as int);
                        lemma_split_units(big, st@, i + 1);
                    }
                    let ghost w_before = writer@;
                    if v < 0x10000 {
                        writer.write_u16(v as u16);
                        proof {
                            let us = seq![v as u16];
                            assert(us == spec_char_units(c));
                            assert(us.drop_last() =~= Seq::<u16>::empty());
                            assert(spec_units_bytes(big, Seq::<u16>::empty()) == Seq::<u8>::empty());
                            assert(spec_units_bytes(big, us) =~= encode_u16(big, v as u16));
                            assert(spec_utf16_units(st@.take(i + 1)) == before + us);
                        }
                        sum = sum + 2;
                    } else {
                        let w = v - 0x10000;
                        let hi = (0xD800u32 | (w >> 10u32)) as u16;
                        let lo = (0xDC00u32 | (w & 0x3FFu32)) as u16;
                        writer.write_u16(hi);
                        writer.write_u16(lo);
                        proof {
                            let us = seq![hi, lo];
                            assert(us == spec_char_units(c));
                            assert(us.drop_last() =~= seq![hi]);
                            assert(seq![hi].drop_last() =~= Seq::<u16>::empty());
                            assert(spec_units_bytes(big, Seq::<u16>::empty()) == Seq::<u8>::empty());
                            assert(spec_units_bytes(big, seq![hi]) =~= encode_u16(big, hi));
                            assert(spec_units_bytes(big, us) =~= encode_u16(big, hi) + encode_u16(big, lo));
                            assert(spec_utf16_units(st@.take(i + 1)) == before + us);
                        }
                        sum = sum + 4;
                    }
                    assert(writer@ =~= w_before + spec_units_bytes(big, spec_char_units(c)));
                    i = i + 1;
                    assert(writer@ =~= start + spec_units_bytes(big, spec_utf16_units(st@.take(i as int))));
                }
                assert(st@.take(n as int) =~= s@);
                sum
            },
        }
    }
}

/// The bytes of a string's code units split where its characters do.
proof fn lemma_split_units(big: bool, s: Seq<char>, i: int)
    requires
        0 <= i <= s.len(),
    ensures
        spec_units_bytes(big, spec_utf16_units(s)).len() == spec_units_bytes(big, spec_utf16_units(s.take(i))).len()
            + spec_units_bytes(big, spec_utf16_units(s.skip(i))).len(),
    decreases s.len(),
{
    lemma_utf16_units_append(s.take(i), s.skip(i));
    assert(s.take(i) + s.skip(i) =~= s);
    lemma_units_bytes_append(big, spec_utf16_units(s.take(i)), spec_utf16_units(s.skip(i)));
}

proof fn lemma_utf16_units_append(a: Seq<char>, b: Seq<char>)
    ensures
        spec_utf16_units(a + b) == spec_utf16_units(a) + spec_utf16_units(b),
    decreases b.len(),
{
    if b.len() == 0 {
        assert(a + b =~= a);
        assert(spec_utf16_units(a) + Seq::<u16>::empty() =~= spec_utf16_units(a));
    } else {
        lemma_utf16_units_append(a, b.drop_last());
        assert((a + b).drop_last() =~= a + b.drop_last());
        assert((a + b).last() == b.last());
    }
}

} // verus!
