//! Forward-only cursor operations over a `Bytes` buffer: advance past an
//! expected byte or prefix, skip a run of one byte, split off a classified
//! prefix. All of them only move indices; no byte is copied.

use vstd::prelude::*;

use crate::buffer::{bytes_advance, bytes_at, bytes_len, bytes_split_to, contents};
use crate::chars::{map_allows, map_lookup, CharMap};

verus! {

/// The cursor operations every parser in this crate is built on. Verified
/// contracts need the predicates spelled out, so the run and split
/// operations take a byte or a byte class rather than an arbitrary closure.
pub trait Advance: Sized {
    /// Consume the first byte iff it equals `byte`.
    fn advance_byte(&mut self, byte: u8) -> bool;

    /// Consume `bytes` iff the buffer starts with it.
    fn advance_bytes(&mut self, bytes: &[u8]) -> bool;

    /// Consume the maximal run of leading bytes equal to `byte`; returns how
    /// many.
    fn advance_while(&mut self, byte: u8) -> usize;

    /// Consume and return the first byte, or `None` on an empty buffer.
    fn split_one_byte(&mut self) -> Option<u8>;

    /// Split off the maximal prefix of bytes in the given class, as a new
    /// zero-copy view.
    fn split_while(&mut self, class: CharMap) -> Self;
}

impl Advance for bytes::Bytes {
    fn advance_byte(&mut self, byte: u8) -> (r: bool)
        ensures
            r == (contents(*old(self)).len() > 0 && contents(*old(self))[0] == byte),
            r ==> contents(*final(self)) == contents(*old(self)).skip(1),
            !r ==> contents(*final(self)) == contents(*old(self)),
    {
        let len = bytes_len(self);
        if len > 0 && bytes_at(self, 0) == byte {
            bytes_advance(self, 1);
            true
        } else {
            false
        }
    }

    fn advance_bytes(&mut self, bytes: &[u8]) -> (r: bool)
        ensures
            r == (contents(*old(self)).len() >= bytes@.len() && contents(*old(self)).take(
                bytes@.len() as int,
            ) == bytes@),
            r ==> contents(*final(self)) == contents(*old(self)).skip(bytes@.len() as int),
            !r ==> contents(*final(self)) == contents(*old(self)),
    {
        let len = bytes_len(self);
        if bytes.len() > len {
            assert(contents(*self).len() < bytes@.len());
            return false;
        }
        let ghost s = contents(*self);
        let mut i: usize = 0;
        while i < bytes.len()
            invariant
                i <= bytes@.len() <= s.len(),
                s == contents(*self),
                forall|j: int| 0 <= j < i ==> s[j] == bytes@[j],
            decreases bytes@.len() - i,
        {
            if bytes_at(self, i) != bytes[i] {
                assert(s.take(bytes@.len() as int)[i as int] != bytes@[i as int]);
                return false;
            }
            i = i + 1;
        }
        assert(s.take(bytes@.len() as int) =~= bytes@);
        bytes_advance(self, bytes.len());
        true
    }

    fn advance_while(&mut self, byte: u8) -> (r: usize)
        ensures
            r <= contents(*old(self)).len(),
            contents(*final(self)) == contents(*old(self)).skip(r as int),
            forall|j: int| 0 <= j < r ==> contents(*old(self))[j] == byte,
            r < contents(*old(self)).len() ==> contents(*old(self))[r as int] != byte,
    {
        let ghost s = contents(*self);
        let len = bytes_len(self);
        let mut i: usize = 0;
        while i < len && bytes_at(self, i) == byte
            invariant
                i <= len == s.len(),
                s == contents(*self),
                forall|j: int| 0 <= j < i ==> s[j] == byte,
            decreases len - i,
        {
            i = i + 1;
        }
        bytes_advance(self, i);
        i
    }

    fn split_one_byte(&mut self) -> (r: Option<u8>)
        ensures
            match r {
                Some(x) => contents(*old(self)).len() > 0 && x == contents(*old(self))[0]
                    && contents(*final(self)) == contents(*old(self)).skip(1),
                None => contents(*old(self)).len() == 0 && contents(*final(self)) == contents(
                    *old(self),
                ),
            },
    {
        let len = bytes_len(self);
        if len == 0 {
            None
        } else {
            let x = bytes_at(self, 0);
            bytes_advance(self, 1);
            Some(x)
        }
    }

    fn split_while(&mut self, class: CharMap) -> (r: bytes::Bytes)
        ensures
            contents(r).len() <= contents(*old(self)).len(),
            contents(r) == contents(*old(self)).take(contents(r).len() as int),
            contents(*final(self)) == contents(*old(self)).skip(contents(r).len() as int),
            forall|j: int| 0 <= j < contents(r).len() ==> map_allows(class, contents(*old(self))[j]),
            contents(r).len() < contents(*old(self)).len() ==> !map_allows(
                class,
                contents(*old(self))[contents(r).len() as int],
            ),
    {
        let ghost s = contents(*self);
        let len = bytes_len(self);
        let mut i: usize = 0;
        while i < len && map_lookup(class, bytes_at(self, i))
            invariant
                i <= len == s.len(),
                s == contents(*self),
                forall|j: int| 0 <= j < i ==> map_allows(class, s[j]),
            decreases len - i,
        {
            i = i + 1;
        }
        bytes_split_to(self, i)
    }
}

/// The length of the maximal leading run of bytes in the class.
pub open spec fn class_prefix_len(s: Seq<u8>, m: CharMap) -> int
    decreases s.len(),
{
    if s.len() == 0 || !map_allows(m, s[0]) {
        0
    } else {
        1 + class_prefix_len(s.skip(1), m)
    }
}

pub proof fn lemma_class_prefix(s: Seq<u8>, m: CharMap)
    ensures
        0 <= class_prefix_len(s, m) <= s.len(),
        forall|j: int| 0 <= j < class_prefix_len(s, m) ==> map_allows(m, s[j]),
        class_prefix_len(s, m) < s.len() ==> !map_allows(m, s[class_prefix_len(s, m)]),
    decreases s.len(),
{
    if s.len() == 0 || !map_allows(m, s[0]) {
    } else {
        lemma_class_prefix(s.skip(1), m);
        let k = class_prefix_len(s, m);
        assert forall|j: int| 0 <= j < k implies map_allows(m, s[j]) by {
            if j > 0 {
                assert(map_allows(m, s.skip(1)[j - 1]));
            }
        }
        if k < s.len() {
            assert(!map_allows(m, s.skip(1)[k - 1]));
        }
    }
}

} // verus!
