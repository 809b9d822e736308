//! Byte-string helpers shared by the rendering and parsing code.
//!
//! All wire text in this crate is handled as bytes. "Printable" means the
//! ASCII range `0x20..=0x7e`, the subset every wire format here can carry
//! without an escape hatch for control characters.

use vstd::prelude::*;
use vstd::slice::slice_to_vec;

verus! {

/// A byte that every sink and wire format can carry verbatim or escaped.
pub open spec fn is_printable_byte(b: u8) -> bool {
    0x20 <= b <= 0x7e
}

/// Every byte of `s` is printable ASCII.
pub open spec fn printable(s: Seq<u8>) -> bool {
    forall|i: int| 0 <= i < s.len() ==> is_printable_byte(#[trigger] s[i])
}

/// The bytes of an ASCII character sequence, one byte per character.
pub open spec fn bytes_of_str(s: Seq<char>) -> Seq<u8> {
    Seq::new(s.len(), |i: int| s[i] as u8)
}

/// The ASCII bytes of a string slice, as an owned vector.
pub fn ascii_bytes(s: &str) -> (r: Vec<u8>)
    requires
        s.is_ascii(),
    ensures
        r@ == bytes_of_str(s@),
{
    proof {
        vstd::string::is_ascii_spec_bytes(s);
    }
    let b = s.as_bytes();
    let r = slice_to_vec(b);
    proof {
        assert(r@ =~= bytes_of_str(s@));
    }
    r
}

/// Appends every byte of `src` to `out`, in order.
pub fn append_bytes(out: &mut Vec<u8>, src: &[u8])
    ensures
        final(out)@ == old(out)@ + src@,
{
    let ghost start = out@;
    let mut i: usize = 0;
    while i < src.len()
        invariant
            i <= src@.len(),
            out@ == start + src@.subrange(0, i as int),
        decreases src@.len() - i,
    {
        let b: u8 = src[i];
        out.push(b);
        proof {
            assert(start + src@.subrange(0, i as int) + seq![src@[i as int]] =~= start
                + src@.subrange(0, i + 1));
        }
        i = i + 1;
    }
    proof {
        assert(start + src@.subrange(0, src@.len() as int) =~= start + src@);
    }
}

/// Checks that every byte of `s` is printable ASCII.
pub fn is_printable(s: &[u8]) -> (r: bool)
    ensures
        r == printable(s@),
{
    let mut i: usize = 0;
    while i < s.len()
        invariant
            i <= s@.len(),
            forall|j: int| 0 <= j < i ==> is_printable_byte(#[trigger] s@[j]),
        decreases s@.len() - i,
    {
        let b: u8 = s[i];
        if b < 0x20 || b > 0x7e {
            return false;
        }
        i = i + 1;
    }
    true
}

/// Byte-for-byte equality of two byte vectors.
pub fn bytes_eq(a: &Vec<u8>, b: &Vec<u8>) -> (r: bool)
    ensures
        r == (a@ == b@),
{
    if a.len() != b.len() {
        return false;
    }
    let mut i: usize = 0;
    while i < a.len()
        invariant
            a@.len() == b@.len(),
            i <= a@.len(),
            forall|j: int| 0 <= j < i ==> a@[j] == b@[j],
        decreases a@.len() - i,
    {
        if a[i] != b[i] {
            return false;
        }
        i = i + 1;
    }
    proof {
        assert(a@ =~= b@);
    }
    true
}

/// The position of the first occurrence of `c` in `s`, if any.
pub open spec fn find_byte(s: Seq<u8>, c: u8) -> Option<int>
    decreases s.len(),
{
    if s.len() == 0 {
        None
    } else if s[0] == c {
        Some(0)
    } else {
        match find_byte(s.skip(1), c) {
            Some(i) => Some(i + 1),
            None => None,
        }
    }
}

/// `find_byte` returns exactly the first index holding `c`.
pub proof fn lemma_find_byte(s: Seq<u8>, c: u8)
    ensures
        match find_byte(s, c) {
            Some(i) => 0 <= i < s.len() && s[i] == c && forall|j: int| 0 <= j < i ==> s[j] != c,
            None => forall|j: int| 0 <= j < s.len() ==> s[j] != c,
        },
    decreases s.len(),
{
    if s.len() > 0 && s[0] != c {
        lemma_find_byte(s.skip(1), c);
        match find_byte(s.skip(1), c) {
            Some(i) => {
                assert(s.skip(1)[i] == s[i + 1]);
                assert forall|j: int| 0 <= j < i + 1 implies s[j] != c by {
                    if j > 0 {
                        assert(s.skip(1)[j - 1] == s[j]);
                    }
                }
            },
            None => {
                assert forall|j: int| 0 <= j < s.len() implies s[j] != c by {
                    if j > 0 {
                        assert(s.skip(1)[j - 1] == s[j]);
                    }
                }
            },
        }
    }
}

/// In `a + [c] + rest` with `a` free of `c`, the first occurrence of `c`
/// is exactly the separator after `a`.
pub proof fn lemma_find_byte_at_sep(a: Seq<u8>, c: u8, rest: Seq<u8>)
    requires
        forall|i: int| 0 <= i < a.len() ==> a[i] != c,
    ensures
        find_byte(a + seq![c] + rest, c) == Some(a.len() as int),
{
    let s = a + seq![c] + rest;
    lemma_find_byte(s, c);
    assert(s[a.len() as int] == c);
    match find_byte(s, c) {
        Some(i) => {
            if i < a.len() {
                assert(s[i] == a[i]);
                assert(false);
            }
            if i > a.len() {
                assert(false);
            }
        },
        None => {
            assert(false);
        },
    }
}

/// Finds the position of the first occurrence of `c` in `s`.
pub fn find_byte_exec(s: &[u8], c: u8) -> (r: Option<usize>)
    ensures
        match r {
            Some(i) => find_byte(s@, c) == Some(i as int),
            None => find_byte(s@, c) is None,
        },
{
    proof {
        lemma_find_byte(s@, c);
    }
    let mut i: usize = 0;
    while i < s.len()
        invariant
            i <= s@.len(),
            forall|j: int| 0 <= j < i ==> s@[j] != c,
            match find_byte(s@, c) {
                Some(k) => 0 <= k < s@.len() && s@[k] == c && forall|j: int| 0 <= j < k ==> s@[j]
                    != c,
                None => forall|j: int| 0 <= j < s@.len() ==> s@[j] != c,
            },
        decreases s@.len() - i,
    {
        if s[i] == c {
            proof {
                if let Some(k) = find_byte(s@, c) {
                    assert(k == i);
                } else {
                    assert(false);
                }
            }
            return Some(i);
        }
        i = i + 1;
    }
    None
}

} // verus!
