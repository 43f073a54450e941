//! The wire format, as mathematics.
//!
//! Every record and every instruction payload is laid out as the plain
//! concatenation of its fields, in declaration order: integers fixed-width
//! little-endian, booleans and enum tags one byte, text and lists behind a
//! four-byte length, optional values behind a one-byte presence tag.
//!
//! [`Wire`] states the layout of one type three ways (which values it can
//! carry, the bytes of a value, reading a value off the front of a buffer)
//! and obliges each type to prove that writing and reading undo each other.

use vstd::bytes::*;
use vstd::prelude::*;
use vstd::utf8::*;
use crate::pubkey::Pubkey;

verus! {

/// The layout of a type of values on the wire.
pub trait Wire: Sized {
    /// Whether the layout can carry this value.
    spec fn wire_ok(self) -> bool;

    /// The bytes of a value that the layout can carry.
    spec fn wire_bytes(self) -> Seq<u8>;

    /// Reads one value off the front of `b`: the value and the number of
    /// bytes it occupied, or `None` where `b` starts with no value.
    spec fn wire_parse(b: Seq<u8>) -> Option<(Self, int)>;

    /// Reading what was written gives the value back, whatever follows it.
    proof fn lemma_parse_bytes(self, rest: Seq<u8>)
        requires
            self.wire_ok(),
        ensures
            Self::wire_parse(self.wire_bytes() + rest) == Some(
                (self, self.wire_bytes().len() as int),
            ),
    ;

    /// Whatever is read was written: the bytes consumed are the bytes of the
    /// value, and the value is one the layout can carry.
    proof fn lemma_bytes_parse(b: Seq<u8>)
        ensures
            Self::wire_parse(b) matches Some((v, n)) ==> v.wire_ok() && 0 <= n <= b.len()
                && b.subrange(0, n) == v.wire_bytes(),
    ;
}

impl Wire for u8 {
    open spec fn wire_ok(self) -> bool {
        true
    }

    open spec fn wire_bytes(self) -> Seq<u8> {
        seq![self]
    }

    open spec fn wire_parse(b: Seq<u8>) -> Option<(u8, int)> {
        if b.len() >= 1 {
            Some((b[0], 1))
        } else {
            None
        }
    }

    proof fn lemma_parse_bytes(self, rest: Seq<u8>) {
    }

    proof fn lemma_bytes_parse(b: Seq<u8>) {
        if b.len() >= 1 {
            assert(b.subrange(0, 1) =~= seq![b[0]]);
        }
    }
}

impl Wire for bool {
    open spec fn wire_ok(self) -> bool {
        true
    }

    open spec fn wire_bytes(self) -> Seq<u8> {
        seq![if self { 1u8 } else { 0u8 }]
    }

    open spec fn wire_parse(b: Seq<u8>) -> Option<(bool, int)> {
        if b.len() >= 1 && b[0] == 0 {
            Some((false, 1))
        } else if b.len() >= 1 && b[0] == 1 {
            Some((true, 1))
        } else {
            None
        }
    }

    proof fn lemma_parse_bytes(self, rest: Seq<u8>) {
    }

    proof fn lemma_bytes_parse(b: Seq<u8>) {
        if b.len() >= 1 {
            assert(b.subrange(0, 1) =~= seq![b[0]]);
        }
    }
}

impl Wire for u32 {
    open spec fn wire_ok(self) -> bool {
        true
    }

    open spec fn wire_bytes(self) -> Seq<u8> {
        spec_u32_to_le_bytes(self)
    }

    open spec fn wire_parse(b: Seq<u8>) -> Option<(u32, int)> {
        if b.len() >= 4 {
            Some((spec_u32_from_le_bytes(b.subrange(0, 4)), 4))
        } else {
            None
        }
    }

    proof fn lemma_parse_bytes(self, rest: Seq<u8>) {
        lemma_auto_spec_u32_to_from_le_bytes();
        assert((self.wire_bytes() + rest).subrange(0, 4) =~= self.wire_bytes());
    }

    proof fn lemma_bytes_parse(b: Seq<u8>) {
        lemma_auto_spec_u32_to_from_le_bytes();
    }
}

impl Wire for u64 {
    open spec fn wire_ok(self) -> bool {
        true
    }

    open spec fn wire_bytes(self) -> Seq<u8> {
        spec_u64_to_le_bytes(self)
    }

    open spec fn wire_parse(b: Seq<u8>) -> Option<(u64, int)> {
        if b.len() >= 8 {
            Some((spec_u64_from_le_bytes(b.subrange(0, 8)), 8))
        } else {
            None
        }
    }

    proof fn lemma_parse_bytes(self, rest: Seq<u8>) {
        lemma_auto_spec_u64_to_from_le_bytes();
        assert((self.wire_bytes() + rest).subrange(0, 8) =~= self.wire_bytes());
    }

    proof fn lemma_bytes_parse(b: Seq<u8>) {
        lemma_auto_spec_u64_to_from_le_bytes();
    }
}

/// A signed 64-bit integer travels as its two's-complement bit pattern.
pub proof fn lemma_i64_bits(v: i64, u: u64)
    ensures
        ((v as u64) as i64) == v,
        ((u as i64) as u64) == u,
{
    assert(((v as u64) as i64) == v) by (bit_vector);
    assert(((u as i64) as u64) == u) by (bit_vector);
}

impl Wire for i64 {
    open spec fn wire_ok(self) -> bool {
        true
    }

    open spec fn wire_bytes(self) -> Seq<u8> {
        spec_u64_to_le_bytes(self as u64)
    }

    open spec fn wire_parse(b: Seq<u8>) -> Option<(i64, int)> {
        if b.len() >= 8 {
            Some((spec_u64_from_le_bytes(b.subrange(0, 8)) as i64, 8))
        } else {
            None
        }
    }

    proof fn lemma_parse_bytes(self, rest: Seq<u8>) {
        lemma_auto_spec_u64_to_from_le_bytes();
        lemma_i64_bits(self, 0);
        assert((self.wire_bytes() + rest).subrange(0, 8) =~= self.wire_bytes());
    }

    proof fn lemma_bytes_parse(b: Seq<u8>) {
        lemma_auto_spec_u64_to_from_le_bytes();
        if b.len() >= 8 {
            lemma_i64_bits(0, spec_u64_from_le_bytes(b.subrange(0, 8)));
        }
    }
}

/// Whether some key is made of exactly these bytes. Every run of 32 bytes
/// qualifies; a reader shows it of the run it meets by making the key.
pub open spec fn is_key_bytes(bytes: Seq<u8>) -> bool {
    exists|k: Pubkey| k.bytes@ == bytes
}

/// The key made of the given bytes.
pub open spec fn key_of_bytes(bytes: Seq<u8>) -> Pubkey
    recommends
        is_key_bytes(bytes),
{
    choose|k: Pubkey| k.bytes@ == bytes
}

/// A key is the key of its bytes.
pub proof fn lemma_key_of_bytes(key: Pubkey)
    ensures
        is_key_bytes(key.bytes@),
        key_of_bytes(key.bytes@) == key,
{
    crate::pubkey::lemma_pubkey_by_bytes(key_of_bytes(key.bytes@), key);
}

impl Wire for Pubkey {
    open spec fn wire_ok(self) -> bool {
        true
    }

    open spec fn wire_bytes(self) -> Seq<u8> {
        self.bytes@
    }

    open spec fn wire_parse(b: Seq<u8>) -> Option<(Pubkey, int)> {
        if b.len() >= 32 && is_key_bytes(b.subrange(0, 32)) {
            Some((key_of_bytes(b.subrange(0, 32)), 32))
        } else {
            None
        }
    }

    proof fn lemma_parse_bytes(self, rest: Seq<u8>) {
        let b = self.wire_bytes() + rest;
        assert(b.subrange(0, 32) =~= self.bytes@);
        lemma_key_of_bytes(self);
    }

    proof fn lemma_bytes_parse(b: Seq<u8>) {
    }
}

/// Text travels as the length of its UTF-8 form, then that form.
impl Wire for Seq<char> {
    open spec fn wire_ok(self) -> bool {
        encode_utf8(self).len() <= u32::MAX
    }

    open spec fn wire_bytes(self) -> Seq<u8> {
        (encode_utf8(self).len() as u32).wire_bytes() + encode_utf8(self)
    }

    open spec fn wire_parse(b: Seq<u8>) -> Option<(Seq<char>, int)> {
        match u32::wire_parse(b) {
            None => None,
            Some((n, h)) => if b.len() >= h + n && valid_utf8(b.subrange(h, h + n)) {
                Some((decode_utf8(b.subrange(h, h + n)), h + n))
            } else {
                None
            },
        }
    }

    proof fn lemma_parse_bytes(self, rest: Seq<u8>) {
        let utf8 = encode_utf8(self);
        let n = utf8.len() as u32;
        let b = self.wire_bytes() + rest;
        assert(b =~= n.wire_bytes() + (utf8 + rest));
        n.lemma_parse_bytes(utf8 + rest);
        assert(b.subrange(4, 4 + n) =~= utf8);
        encode_utf8_valid_utf8(self);
        encode_utf8_decode_utf8(self);
    }

    proof fn lemma_bytes_parse(b: Seq<u8>) {
        u32::lemma_bytes_parse(b);
        if let Some((n, h)) = u32::wire_parse(b) {
            if b.len() >= h + n && valid_utf8(b.subrange(h, h + n)) {
                let utf8 = b.subrange(h, h + n);
                decode_utf8_encode_utf8(utf8);
                assert(b.subrange(0, h + n) =~= b.subrange(0, h) + utf8);
            }
        }
    }
}

/// An optional value travels as a presence tag, then the value if present.
impl<T: Wire> Wire for Option<T> {
    open spec fn wire_ok(self) -> bool {
        match self {
            None => true,
            Some(v) => v.wire_ok(),
        }
    }

    open spec fn wire_bytes(self) -> Seq<u8> {
        match self {
            None => seq![0u8],
            Some(v) => seq![1u8] + v.wire_bytes(),
        }
    }

    open spec fn wire_parse(b: Seq<u8>) -> Option<(Option<T>, int)> {
        if b.len() >= 1 && b[0] == 0 {
            Some((None, 1))
        } else if b.len() >= 1 && b[0] == 1 {
            match T::wire_parse(b.skip(1)) {
                None => None,
                Some((v, n)) => Some((Some(v), 1 + n)),
            }
        } else {
            None
        }
    }

    proof fn lemma_parse_bytes(self, rest: Seq<u8>) {
        match self {
            None => {},
            Some(v) => {
                let b = self.wire_bytes() + rest;
                assert(b.skip(1) =~= v.wire_bytes() + rest);
                v.lemma_parse_bytes(rest);
            },
        }
    }

    proof fn lemma_bytes_parse(b: Seq<u8>) {
        if b.len() >= 1 && b[0] == 0 {
            assert(b.subrange(0, 1) =~= seq![0u8]);
        } else if b.len() >= 1 && b[0] == 1 {
            T::lemma_bytes_parse(b.skip(1));
            if let Some((v, n)) = T::wire_parse(b.skip(1)) {
                assert(b.subrange(0, 1 + n) =~= seq![1u8] + b.skip(1).subrange(0, n));
            }
        }
    }
}

/// Two values in a row travel as the bytes of the first, then of the second.
impl<A: Wire, B: Wire> Wire for (A, B) {
    open spec fn wire_ok(self) -> bool {
        self.0.wire_ok() && self.1.wire_ok()
    }

    open spec fn wire_bytes(self) -> Seq<u8> {
        self.0.wire_bytes() + self.1.wire_bytes()
    }

    open spec fn wire_parse(b: Seq<u8>) -> Option<((A, B), int)> {
        match A::wire_parse(b) {
            None => None,
            Some((x, n)) => match B::wire_parse(b.skip(n)) {
                None => None,
                Some((y, m)) => Some(((x, y), n + m)),
            },
        }
    }

    proof fn lemma_parse_bytes(self, rest: Seq<u8>) {
        let xb = self.0.wire_bytes();
        let yb = self.1.wire_bytes();
        assert(self.wire_bytes() + rest =~= xb + (yb + rest));
        self.0.lemma_parse_bytes(yb + rest);
        assert((xb + (yb + rest)).skip(xb.len() as int) =~= yb + rest);
        self.1.lemma_parse_bytes(rest);
    }

    proof fn lemma_bytes_parse(b: Seq<u8>) {
        A::lemma_bytes_parse(b);
        if let Some((x, n)) = A::wire_parse(b) {
            B::lemma_bytes_parse(b.skip(n));
            if let Some((y, m)) = B::wire_parse(b.skip(n)) {
                assert(b.subrange(0, n + m) =~= b.subrange(0, n) + b.skip(n).subrange(0, m));
            }
        }
    }
}

/// The bytes of the items of a list, one after the other.
pub open spec fn items_bytes<T: Wire>(s: Seq<T>) -> Seq<u8>
    decreases s.len(),
{
    if s.len() == 0 {
        Seq::empty()
    } else {
        items_bytes(s.drop_last()) + s.last().wire_bytes()
    }
}

/// Reads `n` items in a row off the front of `b`.
pub open spec fn parse_items<T: Wire>(b: Seq<u8>, n: nat) -> Option<(Seq<T>, int)>
    decreases n,
{
    if n == 0 {
        Some((Seq::empty(), 0))
    } else {
        match parse_items::<T>(b, (n - 1) as nat) {
            None => None,
            Some((s, m)) => match T::wire_parse(b.skip(m)) {
                None => None,
                Some((v, k)) => Some((s.push(v), m + k)),
            },
        }
    }
}

/// Where the first `i` items cannot be read, no longer run of items can.
pub proof fn lemma_parse_items_stuck<T: Wire>(b: Seq<u8>, i: nat, n: nat)
    requires
        i <= n,
        parse_items::<T>(b, i) is None,
    ensures
        parse_items::<T>(b, n) is None,
    decreases n,
{
    if i < n {
        lemma_parse_items_stuck::<T>(b, i, (n - 1) as nat);
    }
}

/// Reading the items that were written gives them back.
pub proof fn lemma_parse_items_bytes<T: Wire>(s: Seq<T>, rest: Seq<u8>)
    requires
        forall|i: int| 0 <= i < s.len() ==> (#[trigger] s[i]).wire_ok(),
    ensures
        parse_items::<T>(items_bytes(s) + rest, s.len()) == Some(
            (s, items_bytes(s).len() as int),
        ),
    decreases s.len(),
{
    if s.len() > 0 {
        let front = s.drop_last();
        let last = s.last();
        let b = items_bytes(s) + rest;
        assert(b =~= items_bytes(front) + (last.wire_bytes() + rest));
        lemma_parse_items_bytes(front, last.wire_bytes() + rest);
        assert(b.skip(items_bytes(front).len() as int) =~= last.wire_bytes() + rest);
        last.lemma_parse_bytes(rest);
        assert(front.push(last) =~= s);
    }
}

/// The items read are the items written in the bytes consumed.
pub proof fn lemma_items_bytes_parse<T: Wire>(b: Seq<u8>, n: nat)
    ensures
        parse_items::<T>(b, n) matches Some((s, m)) ==> s.len() == n && 0 <= m <= b.len()
            && b.subrange(0, m) == items_bytes(s) && forall|i: int|
            0 <= i < s.len() ==> (#[trigger] s[i]).wire_ok(),
    decreases n,
{
    if n > 0 {
        lemma_items_bytes_parse::<T>(b, (n - 1) as nat);
        if let Some((s, m)) = parse_items::<T>(b, (n - 1) as nat) {
            T::lemma_bytes_parse(b.skip(m));
            if let Some((v, k)) = T::wire_parse(b.skip(m)) {
                let t = s.push(v);
                assert(t.drop_last() =~= s);
                assert(b.subrange(0, m + k) =~= b.subrange(0, m) + b.skip(m).subrange(0, k));
            }
        }
    }
}

/// A list travels as the number of its items, then the items in order.
impl<T: Wire> Wire for Seq<T> {
    open spec fn wire_ok(self) -> bool {
        self.len() <= u32::MAX && forall|i: int| 0 <= i < self.len() ==> (#[trigger] self[i]).wire_ok()
    }

    open spec fn wire_bytes(self) -> Seq<u8> {
        (self.len() as u32).wire_bytes() + items_bytes(self)
    }

    open spec fn wire_parse(b: Seq<u8>) -> Option<(Seq<T>, int)> {
        match u32::wire_parse(b) {
            None => None,
            Some((n, h)) => match parse_items::<T>(b.skip(h), n as nat) {
                None => None,
                Some((s, m)) => Some((s, h + m)),
            },
        }
    }

    proof fn lemma_parse_bytes(self, rest: Seq<u8>) {
        let n = self.len() as u32;
        let b = self.wire_bytes() + rest;
        assert(b =~= n.wire_bytes() + (items_bytes(self) + rest));
        n.lemma_parse_bytes(items_bytes(self) + rest);
        assert(b.skip(4) =~= items_bytes(self) + rest);
        lemma_parse_items_bytes(self, rest);
    }

    proof fn lemma_bytes_parse(b: Seq<u8>) {
        u32::lemma_bytes_parse(b);
        if let Some((n, h)) = u32::wire_parse(b) {
            lemma_items_bytes_parse::<T>(b.skip(h), n as nat);
            if let Some((s, m)) = parse_items::<T>(b.skip(h), n as nat) {
                assert(b.subrange(0, h + m) =~= b.subrange(0, h) + b.skip(h).subrange(0, m));
            }
        }
    }
}

/// The value that a storage cell holds: the one whose bytes the cell starts
/// with. What follows those bytes is slack and is not looked at.
pub open spec fn decode_front<T: Wire>(b: Seq<u8>) -> Option<T> {
    match T::wire_parse(b) {
        None => None,
        Some((v, n)) => Some(v),
    }
}

/// The value that a payload holds: the one whose bytes are the whole payload.
pub open spec fn decode_all<T: Wire>(b: Seq<u8>) -> Option<T> {
    match T::wire_parse(b) {
        None => None,
        Some((v, n)) => if n == b.len() {
            Some(v)
        } else {
            None
        },
    }
}

/// A cell after `bytes` were written at its start: the rest stays as it was.
pub open spec fn overlay(cell: Seq<u8>, bytes: Seq<u8>) -> Seq<u8>
    recommends
        bytes.len() <= cell.len(),
{
    bytes + cell.skip(bytes.len() as int)
}

/// Decoding undoes encoding: a payload made of the bytes of a value decodes
/// to that value.
pub proof fn lemma_decode_all_encode<T: Wire>(v: T)
    requires
        v.wire_ok(),
    ensures
        decode_all::<T>(v.wire_bytes()) == Some(v),
{
    v.lemma_parse_bytes(Seq::empty());
    assert(v.wire_bytes() + Seq::<u8>::empty() =~= v.wire_bytes());
}

/// Encoding undoes decoding: a payload that decodes to a value is made of
/// nothing but the bytes of that value. So no two payloads decode alike.
pub proof fn lemma_encode_decode_all<T: Wire>(b: Seq<u8>)
    ensures
        decode_all::<T>(b) matches Some(v) ==> v.wire_ok() && v.wire_bytes() == b,
{
    T::lemma_bytes_parse(b);
    assert(b.subrange(0, b.len() as int) =~= b);
}

/// A cell that starts with the bytes of a value holds that value, whatever
/// slack follows.
pub proof fn lemma_decode_front_encode<T: Wire>(v: T, slack: Seq<u8>)
    requires
        v.wire_ok(),
    ensures
        decode_front::<T>(v.wire_bytes() + slack) == Some(v),
{
    v.lemma_parse_bytes(slack);
}

/// A cell that holds a value starts with the bytes of that value.
pub proof fn lemma_encode_decode_front<T: Wire>(b: Seq<u8>)
    ensures
        decode_front::<T>(b) matches Some(v) ==> v.wire_ok() && v.wire_bytes().is_prefix_of(b),
{
    T::lemma_bytes_parse(b);
}

/// A cell holds what was last written to it.
pub proof fn lemma_decode_front_overlay<T: Wire>(cell: Seq<u8>, v: T)
    requires
        v.wire_ok(),
    ensures
        decode_front::<T>(overlay(cell, v.wire_bytes())) == Some(v),
{
    lemma_decode_front_encode(v, cell.skip(v.wire_bytes().len() as int));
}

/// Two values with the same bytes are the same value.
pub proof fn lemma_wire_injective<T: Wire>(a: T, b: T)
    requires
        a.wire_ok(),
        b.wire_ok(),
        a.wire_bytes() == b.wire_bytes(),
    ensures
        a == b,
{
    lemma_decode_all_encode(a);
    lemma_decode_all_encode(b);
}

} // verus!
