//! The wire format, as code: writers and readers that are proved to follow
//! the layout that [`Wire`] lays down.

use vstd::bytes::*;
use vstd::prelude::*;
use vstd::slice::*;
use vstd::utf8::*;
use crate::pubkey::Pubkey;
use crate::wire::Wire;
use crate::wire::decode_all;
use crate::wire::decode_front;
use crate::wire::overlay;
use crate::wire::items_bytes;
use crate::wire::parse_items;
use crate::wire::lemma_parse_items_stuck;

verus! {

/// A type of values that can be written to the wire.
pub trait Encode {
    /// What a value is, as far as the wire is concerned.
    type Model: Wire;

    /// The mathematical value that `self` stands for.
    spec fn model(&self) -> Self::Model;

    /// Whether the layout can carry the value.
    fn fits(&self) -> (ok: bool)
        ensures
            ok == self.model().wire_ok(),
    ;

    /// Appends the bytes of the value to `out`.
    fn put(&self, out: &mut Vec<u8>)
        requires
            self.model().wire_ok(),
        ensures
            final(out)@ == old(out)@ + self.model().wire_bytes(),
    ;
}

/// A type of values that can also be read back from the wire.
pub trait Decode: Encode + Sized {
    /// Reads one value from `data`, starting at `pos`: the value and the
    /// position after it, or `None` where no value starts at `pos`.
    fn take(data: &[u8], pos: usize) -> (r: Option<(Self, usize)>)
        requires
            pos <= data@.len(),
        ensures
            match r {
                Some((v, next)) => pos <= next <= data@.len() && Self::Model::wire_parse(
                    data@.skip(pos as int),
                ) == Some((v.model(), next - pos)),
                None => Self::Model::wire_parse(data@.skip(pos as int)) is None,
            },
    ;
}

/// A borrowed value travels as the value itself.
impl<T: Encode> Encode for &T {
    type Model = T::Model;

    open spec fn model(&self) -> T::Model {
        (**self).model()
    }

    fn fits(&self) -> (ok: bool) {
        (**self).fits()
    }

    fn put(&self, out: &mut Vec<u8>) {
        (**self).put(out)
    }
}

/// Appends `bytes` to `out`.
fn push_all(out: &mut Vec<u8>, bytes: &[u8])
    ensures
        final(out)@ == old(out)@ + bytes@,
{
    let mut i: usize = 0;
    while i < bytes.len()
        invariant
            i <= bytes@.len(),
            out@ == old(out)@ + bytes@.subrange(0, i as int),
        decreases bytes@.len() - i,
    {
        out.push(bytes[i]);
        i += 1;
        assert(out@ =~= old(out)@ + bytes@.subrange(0, i as int));
    }
    assert(bytes@.subrange(0, i as int) =~= bytes@);
}

/// `String::from_utf8` of the standard library: it accepts exactly the byte
/// vectors that are valid UTF-8, and the string it gives consists of the
/// bytes it was given.
#[verifier::external_body]
fn string_from_utf8(bytes: Vec<u8>) -> (r: Option<String>)
    ensures
        r is Some <==> valid_utf8(bytes@),
        r matches Some(s) ==> encode_utf8(s@) == bytes@,
{
    match String::from_utf8(bytes) {
        Ok(s) => Some(s),
        Err(_) => None,
    }
}

impl Encode for u8 {
    type Model = u8;

    open spec fn model(&self) -> u8 {
        *self
    }

    fn fits(&self) -> (ok: bool) {
        true
    }

    fn put(&self, out: &mut Vec<u8>) {
        out.push(*self);
        assert(out@ =~= old(out)@ + seq![*self]);
    }
}

impl Decode for u8 {
    fn take(data: &[u8], pos: usize) -> (r: Option<(u8, usize)>) {
        if pos < data.len() {
            Some((data[pos], pos + 1))
        } else {
            None
        }
    }
}

impl Encode for bool {
    type Model = bool;

    open spec fn model(&self) -> bool {
        *self
    }

    fn fits(&self) -> (ok: bool) {
        true
    }

    fn put(&self, out: &mut Vec<u8>) {
        let tag: u8 = if *self { 1 } else { 0 };
        out.push(tag);
        assert(out@ =~= old(out)@ + seq![tag]);
    }
}

impl Decode for bool {
    fn take(data: &[u8], pos: usize) -> (r: Option<(bool, usize)>) {
        if pos < data.len() && data[pos] == 0 {
            Some((false, pos + 1))
        } else if pos < data.len() && data[pos] == 1 {
            Some((true, pos + 1))
        } else {
            None
        }
    }
}

impl Encode for u32 {
    type Model = u32;

    open spec fn model(&self) -> u32 {
        *self
    }

    fn fits(&self) -> (ok: bool) {
        assert(self.model().wire_ok());
        true
    }

    fn put(&self, out: &mut Vec<u8>) {
        let mut bytes = u32_to_le_bytes(*self);
        out.append(&mut bytes);
    }
}

impl Decode for u32 {
    fn take(data: &[u8], pos: usize) -> (r: Option<(u32, usize)>) {
        if data.len() - pos >= 4 {
            let v = u32_from_le_bytes(slice_subrange(data, pos, pos + 4));
            assert(data@.skip(pos as int).subrange(0, 4) =~= data@.subrange(pos as int, pos + 4));
            Some((v, pos + 4))
        } else {
            None
        }
    }
}

impl Encode for u64 {
    type Model = u64;

    open spec fn model(&self) -> u64 {
        *self
    }

    fn fits(&self) -> (ok: bool) {
        true
    }

    fn put(&self, out: &mut Vec<u8>) {
        let mut bytes = u64_to_le_bytes(*self);
        out.append(&mut bytes);
    }
}

impl Decode for u64 {
    fn take(data: &[u8], pos: usize) -> (r: Option<(u64, usize)>) {
        if data.len() - pos >= 8 {
            let v = u64_from_le_bytes(slice_subrange(data, pos, pos + 8));
            assert(data@.skip(pos as int).subrange(0, 8) =~= data@.subrange(pos as int, pos + 8));
            Some((v, pos + 8))
        } else {
            None
        }
    }
}

impl Encode for i64 {
    type Model = i64;

    open spec fn model(&self) -> i64 {
        *self
    }

    fn fits(&self) -> (ok: bool) {
        true
    }

    fn put(&self, out: &mut Vec<u8>) {
        let mut bytes = u64_to_le_bytes(*self as u64);
        out.append(&mut bytes);
    }
}

impl Decode for i64 {
    fn take(data: &[u8], pos: usize) -> (r: Option<(i64, usize)>) {
        if data.len() - pos >= 8 {
            let v = u64_from_le_bytes(slice_subrange(data, pos, pos + 8));
            assert(data@.skip(pos as int).subrange(0, 8) =~= data@.subrange(pos as int, pos + 8));
            Some((v as i64, pos + 8))
        } else {
            None
        }
    }
}

impl Encode for Pubkey {
    type Model = Pubkey;

    open spec fn model(&self) -> Pubkey {
        *self
    }

    fn fits(&self) -> (ok: bool) {
        assert(self.model().wire_ok());
        true
    }

    fn put(&self, out: &mut Vec<u8>) {
        push_all(out, self.bytes.as_slice());
    }
}

impl Decode for Pubkey {
    fn take(data: &[u8], pos: usize) -> (r: Option<(Pubkey, usize)>) {
        if data.len() - pos >= 32 {
            let mut bytes: [u8; 32] = [0; 32];
            let mut i: usize = 0;
            while i < 32
                invariant
                    i <= 32,
                    pos + 32 <= data.len(),
                    forall|j: int| 0 <= j < i ==> bytes[j] == data@[pos + j],
                decreases 32 - i,
            {
                bytes[i] = data[pos + i];
                i += 1;
            }
            let key = Pubkey { bytes };
            proof {
                let front = data@.skip(pos as int).subrange(0, 32);
                assert(key.bytes@ =~= front);
                crate::wire::lemma_key_of_bytes(key);
            }
            Some((key, pos + 32))
        } else {
            None
        }
    }
}

impl Encode for String {
    type Model = Seq<char>;

    open spec fn model(&self) -> Seq<char> {
        self@
    }

    fn fits(&self) -> (ok: bool) {
        let n = self.as_str().as_bytes().len();
        assert(self.model().wire_ok() <==> n <= u32::MAX);
        n <= 0xffff_ffff
    }

    fn put(&self, out: &mut Vec<u8>) {
        let bytes = self.as_str().as_bytes();
        let n: u32 = bytes.len() as u32;
        n.put(out);
        push_all(out, bytes);
        assert(out@ =~= old(out)@ + (n.wire_bytes() + bytes@));
    }
}

impl Decode for String {
    fn take(data: &[u8], pos: usize) -> (r: Option<(String, usize)>) {
        match u32::take(data, pos) {
            None => None,
            Some((n, start)) => {
                if data.len() - start < n as usize {
                    return None;
                }
                let end: usize = start + n as usize;
                let utf8 = slice_to_vec(slice_subrange(data, start, end));
                assert(data@.skip(pos as int).subrange(start - pos, end - pos) =~= utf8@);
                match string_from_utf8(utf8) {
                    None => None,
                    Some(s) => {
                        proof {
                            encode_utf8_decode_utf8(s@);
                        }
                        Some((s, end))
                    },
                }
            },
        }
    }
}

impl<T: Encode> Encode for Option<T> {
    type Model = Option<T::Model>;

    open spec fn model(&self) -> Option<T::Model> {
        match self {
            None => None,
            Some(v) => Some(v.model()),
        }
    }

    fn fits(&self) -> (ok: bool) {
        match self {
            None => true,
            Some(v) => v.fits(),
        }
    }

    fn put(&self, out: &mut Vec<u8>) {
        match self {
            None => {
                out.push(0);
                assert(out@ =~= old(out)@ + seq![0u8]);
            },
            Some(v) => {
                out.push(1);
                v.put(out);
                assert(out@ =~= old(out)@ + (seq![1u8] + v.model().wire_bytes()));
            },
        }
    }
}

impl<T: Decode> Decode for Option<T> {
    fn take(data: &[u8], pos: usize) -> (r: Option<(Option<T>, usize)>) {
        if pos < data.len() && data[pos] == 0 {
            Some((None, pos + 1))
        } else if pos < data.len() && data[pos] == 1 {
            assert(data@.skip(pos as int).skip(1) =~= data@.skip(pos + 1));
            match T::take(data, pos + 1) {
                None => None,
                Some((v, next)) => Some((Some(v), next)),
            }
        } else {
            None
        }
    }
}

impl<A: Encode, B: Encode> Encode for (A, B) {
    type Model = (A::Model, B::Model);

    open spec fn model(&self) -> (A::Model, B::Model) {
        (self.0.model(), self.1.model())
    }

    fn fits(&self) -> (ok: bool) {
        assert(self.model().wire_ok() <==> self.0.model().wire_ok() && self.1.model().wire_ok());
        self.0.fits() && self.1.fits()
    }

    fn put(&self, out: &mut Vec<u8>) {
        self.0.put(out);
        self.1.put(out);
        assert(out@ =~= old(out)@ + (self.0.model().wire_bytes() + self.1.model().wire_bytes()));
    }
}

impl<A: Decode, B: Decode> Decode for (A, B) {
    fn take(data: &[u8], pos: usize) -> (r: Option<((A, B), usize)>) {
        match A::take(data, pos) {
            None => None,
            Some((x, mid)) => {
                assert(data@.skip(pos as int).skip(mid - pos) =~= data@.skip(mid as int));
                match B::take(data, mid) {
                    None => None,
                    Some((y, next)) => Some(((x, y), next)),
                }
            },
        }
    }
}

/// The models of the first `n` items of `v`.
pub open spec fn models<T: Encode>(v: Seq<T>, n: int) -> Seq<T::Model> {
    Seq::new(n as nat, |i: int| v[i].model())
}

impl<T: Encode> Encode for Vec<T> {
    type Model = Seq<T::Model>;

    open spec fn model(&self) -> Seq<T::Model> {
        models(self@, self@.len() as int)
    }

    fn fits(&self) -> (ok: bool) {
        if self.len() > 0xffff_ffff {
            assert(self.model().len() > u32::MAX);
            assert(!self.model().wire_ok());
            return false;
        }
        let mut i: usize = 0;
        while i < self.len()
            invariant
                i <= self@.len(),
                forall|j: int| 0 <= j < i ==> (#[trigger] self.model()[j]).wire_ok(),
            decreases self@.len() - i,
        {
            if !self[i].fits() {
                assert(!self.model()[i as int].wire_ok());
                assert(!self.model().wire_ok());
                return false;
            }
            i += 1;
        }
        assert(self.model().len() == self@.len());
        assert(self.model().wire_ok());
        true
    }

    fn put(&self, out: &mut Vec<u8>) {
        let n: u32 = self.len() as u32;
        n.put(out);
        let mut i: usize = 0;
        assert(models(self@, 0) =~= Seq::<T::Model>::empty());
        while i < self.len()
            invariant
                i <= self@.len(),
                self.model().wire_ok(),
                out@ == old(out)@ + n.wire_bytes() + items_bytes(models(self@, i as int)),
            decreases self@.len() - i,
        {
            assert(self.model()[i as int].wire_ok());
            self[i].put(out);
            proof {
                let grown = models(self@, i + 1);
                assert(grown.drop_last() =~= models(self@, i as int));
                assert(grown.last() == self@[i as int].model());
                assert(out@ =~= old(out)@ + n.wire_bytes() + items_bytes(grown));
            }
            i += 1;
        }
        assert(out@ =~= old(out)@ + (n.wire_bytes() + items_bytes(self.model())));
    }
}

impl<T: Decode> Decode for Vec<T> {
    fn take(data: &[u8], pos: usize) -> (r: Option<(Vec<T>, usize)>) {
        match u32::take(data, pos) {
            None => None,
            Some((n, start)) => {
                let ghost body = data@.skip(start as int);
                assert(data@.skip(pos as int).skip(start - pos) =~= body);
                let mut items: Vec<T> = Vec::new();
                let mut at: usize = start;
                let mut i: u32 = 0;
                assert(models(items@, 0) =~= Seq::<T::Model>::empty());
                while i < n
                    invariant
                        i <= n,
                        start <= at <= data@.len(),
                        body == data@.skip(start as int),
                        body == data@.skip(pos as int).skip(start - pos),
                        u32::wire_parse(data@.skip(pos as int)) == Some((n, start - pos)),
                        items@.len() == i,
                        parse_items::<T::Model>(body, i as nat) == Some(
                            (items.model(), at - start),
                        ),
                    decreases n - i,
                {
                    assert(body.skip(at - start) =~= data@.skip(at as int));
                    match T::take(data, at) {
                        None => {
                            proof {
                                assert(parse_items::<T::Model>(body, (i + 1) as nat) is None);
                                lemma_parse_items_stuck::<T::Model>(body, (i + 1) as nat, n as nat);
                            }
                            return None;
                        },
                        Some((v, next)) => {
                            let ghost before = items.model();
                            items.push(v);
                            assert(items.model() =~= before.push(v.model()));
                            at = next;
                            i += 1;
                        },
                    }
                }
                Some((items, at))
            },
        }
    }
}

/// The bytes of a value, or `None` where the layout cannot carry it (a text
/// or a list too long for its four-byte length).
pub fn to_bytes<T: Encode>(value: &T) -> (r: Option<Vec<u8>>)
    ensures
        match r {
            Some(bytes) => value.model().wire_ok() && bytes@ == value.model().wire_bytes(),
            None => !value.model().wire_ok(),
        },
{
    if value.fits() {
        let mut out: Vec<u8> = Vec::new();
        value.put(&mut out);
        assert(out@ =~= value.model().wire_bytes());
        Some(out)
    } else {
        None
    }
}

/// The value that a storage cell holds, or `None` where it holds none: the
/// cell is too short, or a tag, a length or a text in it is malformed.
pub fn from_cell<T: Decode>(cell: &[u8]) -> (r: Option<T>)
    ensures
        match r {
            Some(value) => decode_front::<T::Model>(cell@) == Some(value.model()),
            None => decode_front::<T::Model>(cell@) is None,
        },
{
    assert(cell@.skip(0) =~= cell@);
    match T::take(cell, 0) {
        None => None,
        Some((value, next)) => Some(value),
    }
}

/// The value that a payload holds, or `None` where it holds none: it is cut
/// short, malformed, or goes on after the value.
pub fn from_payload<T: Decode>(payload: &[u8]) -> (r: Option<T>)
    ensures
        match r {
            Some(value) => decode_all::<T::Model>(payload@) == Some(value.model()),
            None => decode_all::<T::Model>(payload@) is None,
        },
{
    assert(payload@.skip(0) =~= payload@);
    match T::take(payload, 0) {
        None => None,
        Some((value, next)) => if next == payload.len() {
            Some(value)
        } else {
            None
        },
    }
}

/// Writes `bytes` at the start of `cell` and leaves the rest of the cell as
/// it was. A cell shorter than `bytes` is left untouched.
pub fn write_cell(cell: &mut Vec<u8>, bytes: &[u8]) -> (written: bool)
    ensures
        written == (bytes@.len() <= old(cell)@.len()),
        final(cell)@ == if written {
            overlay(old(cell)@, bytes@)
        } else {
            old(cell)@
        },
{
    if bytes.len() > cell.len() {
        return false;
    }
    let mut i: usize = 0;
    while i < bytes.len()
        invariant
            i <= bytes@.len() <= cell@.len(),
            cell@.len() == old(cell)@.len(),
            forall|j: int| 0 <= j < i ==> cell@[j] == bytes@[j],
            forall|j: int| i <= j < cell@.len() ==> cell@[j] == old(cell)@[j],
        decreases bytes@.len() - i,
    {
        cell[i] = bytes[i];
        i += 1;
    }
    assert(cell@ =~= overlay(old(cell)@, bytes@));
    true
}


} // verus!
