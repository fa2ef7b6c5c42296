//! A verified core for a bridge between a printer-control daemon speaking
//! JSON-RPC over a socket and a touch display panel speaking a binary frame
//! protocol over a serial line.
//!
//! The modules hold, in order: the closed method set and its correlation-id
//! table, the wire envelope and its codec, the binary display frame codec,
//! the display state and its differ, the button router, and the two
//! connection state machines (socket transport and serial session).

pub mod buttons;
pub mod envelope;
pub mod frames;
pub mod json;
pub mod methods;
pub mod moonraker;
pub mod roundtrip;
pub mod screen_state;
pub mod session;
pub mod time;
pub mod transport;
pub mod utils;

use vstd::prelude::*;

verus! {

/// Compares two byte vectors; `true` exactly when the views are equal.
pub fn bytes_eq(a: &Vec<u8>, b: &Vec<u8>) -> (r: bool)
    ensures
        r == (a@ == b@),
{
    if a.len() != b.len() {
        proof {
            assert(a@ != b@);
        }
        return false;
    }
    let mut i: usize = 0;
    while i < a.len()
        invariant
            i <= a.len(),
            a.len() == b.len(),
            forall|j: int| 0 <= j < i ==> a@[j] == b@[j],
        decreases a.len() - i,
    {
        if a[i] != b[i] {
            return false;
        }
        i += 1;
    }
    proof {
        assert(a@ =~= b@);
    }
    true
}

/// Compares two byte slices; `true` exactly when the views are equal.
pub fn slice_eq(a: &[u8], b: &[u8]) -> (r: bool)
    ensures
        r == (a@ == b@),
{
    if a.len() != b.len() {
        proof {
            assert(a@ != b@);
        }
        return false;
    }
    let mut i: usize = 0;
    while i < a.len()
        invariant
            i <= a.len(),
            a@.len() == b@.len(),
            forall|j: int| 0 <= j < i ==> a@[j] == b@[j],
        decreases a.len() - i,
    {
        if a[i] != b[i] {
            return false;
        }
        i += 1;
    }
    proof {
        assert(a@ =~= b@);
    }
    true
}

/// Copies a byte vector; the copy's view equals the original's.
pub fn copy_bytes(v: &Vec<u8>) -> (r: Vec<u8>)
    ensures
        r@ == v@,
{
    let mut r: Vec<u8> = Vec::new();
    let mut i: usize = 0;
    while i < v.len()
        invariant
            i <= v.len(),
            r@ == v@.subrange(0, i as int),
        decreases v.len() - i,
    {
        r.push(v[i]);
        proof {
            assert(r@ =~= v@.subrange(0, i + 1));
        }
        i += 1;
    }
    proof {
        assert(r@ =~= v@);
    }
    r
}

/// Copies a list of byte vectors; the copy's element views equal the
/// original's.
pub fn copy_byte_lists(v: &Vec<Vec<u8>>) -> (r: Vec<Vec<u8>>)
    ensures
        r.deep_view() == v.deep_view(),
{
    let mut r: Vec<Vec<u8>> = Vec::new();
    let mut i: usize = 0;
    while i < v.len()
        invariant
            i <= v.len(),
            r@.len() == i,
            forall|j: int| 0 <= j < i ==> r@[j]@ == v@[j]@,
        decreases v.len() - i,
    {
        r.push(copy_bytes(&v[i]));
        i += 1;
    }
    proof {
        assert(r.deep_view() =~~= v.deep_view());
    }
    r
}

/// Appends one frame to a frame list, extending its element views by the
/// frame's view.
pub fn push_frame(frames: &mut Vec<Vec<u8>>, f: Vec<u8>)
    ensures
        final(frames).deep_view() == old(frames).deep_view() + seq![f@],
{
    let ghost fv = f@;
    frames.push(f);
    proof {
        assert(frames.deep_view() =~~= old(frames).deep_view() + seq![fv]);
    }
}

/// Moves every frame of `rows` onto the end of `frames`, in order.
pub fn append_frames(frames: &mut Vec<Vec<u8>>, rows: &mut Vec<Vec<u8>>)
    ensures
        final(frames).deep_view() == old(frames).deep_view() + old(rows).deep_view(),
{
    frames.append(rows);
    proof {
        assert(frames.deep_view() =~~= old(frames).deep_view() + old(rows).deep_view());
    }
}

/// Compares two lists of byte vectors; `true` exactly when the element
/// views are all equal.
pub fn byte_lists_eq(a: &Vec<Vec<u8>>, b: &Vec<Vec<u8>>) -> (r: bool)
    ensures
        r == (a.deep_view() == b.deep_view()),
{
    if a.len() != b.len() {
        proof {
            assert(a.deep_view().len() != b.deep_view().len());
        }
        return false;
    }
    let mut i: usize = 0;
    while i < a.len()
        invariant
            i <= a.len(),
            a@.len() == b@.len(),
            forall|j: int| 0 <= j < i ==> a@[j]@ == b@[j]@,
        decreases a.len() - i,
    {
        if !bytes_eq(&a[i], &b[i]) {
            proof {
                assert(a@[i as int].deep_view() =~= a@[i as int]@);
                assert(b@[i as int].deep_view() =~= b@[i as int]@);
                assert(a.deep_view()[i as int] != b.deep_view()[i as int]);
            }
            return false;
        }
        i += 1;
    }
    proof {
        assert(a.deep_view() =~~= b.deep_view());
    }
    true
}

} // verus!
