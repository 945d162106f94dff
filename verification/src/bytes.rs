//! Searching in sequences, and cutting byte sequences into chunks.

use vstd::prelude::*;
use vstd::string::{is_ascii, is_ascii_spec_bytes};

verus! {

/// The bytes of a text of ASCII characters, one byte for each.
pub open spec fn ascii(text: Seq<char>) -> Seq<u8> {
    Seq::new(text.len(), |i: int| text[i] as u8)
}

/// The bytes of an ASCII text.
pub fn ascii_bytes(text: &str) -> (r: Vec<u8>)
    requires
        is_ascii(text),
    ensures
        r@ == ascii(text@),
{
    broadcast use is_ascii_spec_bytes;

    let r = text.as_bytes_vec();
    r
}

/// `s` ends with `t`.
pub open spec fn ends_with<A>(s: Seq<A>, t: Seq<A>) -> bool {
    t.len() <= s.len() && s.subrange(s.len() - t.len(), s.len() as int) == t
}

/// `t` occurs in `s` starting at index `i`.
pub open spec fn occurs_at<A>(s: Seq<A>, t: Seq<A>, i: int) -> bool {
    0 <= i && i + t.len() <= s.len() && s.subrange(i, i + t.len()) == t
}

/// `i` is the first index at which `t` occurs in `s`.
pub open spec fn first_occurrence<A>(s: Seq<A>, t: Seq<A>, i: int) -> bool {
    occurs_at(s, t, i) && forall|j: int| 0 <= j < i ==> !occurs_at(s, t, j)
}

/// `t` occurs somewhere in `s`.
pub open spec fn occurs<A>(s: Seq<A>, t: Seq<A>) -> bool {
    exists|i: int| occurs_at(s, t, i)
}

/// The first index at which `t` occurs in `s`; meaningful where it occurs.
pub open spec fn index_of<A>(s: Seq<A>, t: Seq<A>) -> int {
    choose|i: int| first_occurrence(s, t, i)
}

/// There is only one first occurrence.
pub proof fn lemma_first_occurrence_unique<A>(s: Seq<A>, t: Seq<A>, i: int)
    requires
        first_occurrence(s, t, i),
    ensures
        occurs(s, t),
        index_of(s, t) == i,
{
}

proof fn lemma_least_occurrence<A>(s: Seq<A>, t: Seq<A>, w: int) -> (i: int)
    requires
        occurs_at(s, t, w),
    ensures
        first_occurrence(s, t, i),
    decreases w,
{
    if exists|j: int| 0 <= j < w && occurs_at(s, t, j) {
        let j = choose|j: int| 0 <= j < w && occurs_at(s, t, j);
        lemma_least_occurrence(s, t, j)
    } else {
        w
    }
}

/// What occurs at all occurs somewhere first.
pub proof fn lemma_occurs_has_first<A>(s: Seq<A>, t: Seq<A>)
    requires
        occurs(s, t),
    ensures
        first_occurrence(s, t, index_of(s, t)),
{
    let w = choose|i: int| occurs_at(s, t, i);
    let i = lemma_least_occurrence(s, t, w);
    lemma_first_occurrence_unique(s, t, i);
}

/// Whether `t` occurs in `s` at index `at`.
pub fn matches_at(s: &[u8], t: &[u8], at: usize) -> (r: bool)
    ensures
        r == occurs_at(s@, t@, at as int),
{
    if t.len() > s.len() || at > s.len() - t.len() {
        return false;
    }
    let mut k: usize = 0;
    while k < t.len()
        invariant
            at + t.len() <= s.len(),
            k <= t.len(),
            forall|j: int| 0 <= j < k ==> s@[at + j] == t@[j],
        decreases t.len() - k,
    {
        if s[at + k] != t[k] {
            return false;
        }
        k += 1;
    }
    assert(s@.subrange(at as int, at + t.len()) =~= t@);
    true
}

/// Whether `s` ends with `t`.
pub fn has_suffix(s: &[u8], t: &[u8]) -> (r: bool)
    ensures
        r == ends_with(s@, t@),
{
    if t.len() > s.len() {
        return false;
    }
    matches_at(s, t, s.len() - t.len())
}

/// The first index at which `t` occurs in `s`, if it occurs at all.
pub fn find(s: &[u8], t: &[u8]) -> (r: Option<usize>)
    ensures
        r is Some == occurs(s@, t@),
        r is Some ==> r->0 == index_of(s@, t@) && first_occurrence(s@, t@, r->0 as int),
{
    if t.len() > s.len() {
        return None;
    }
    let last: usize = s.len() - t.len();
    let mut i: usize = 0;
    loop
        invariant
            last == s.len() - t.len(),
            i <= last,
            forall|j: int| 0 <= j < i ==> !occurs_at(s@, t@, j),
        decreases last - i,
    {
        if matches_at(s, t, i) {
            proof {
                lemma_first_occurrence_unique(s@, t@, i as int);
            }
            return Some(i);
        }
        if i == last {
            return None;
        }
        i += 1;
    }
}

/// How many chunks of at most `size` bytes `len` bytes fall into.
pub open spec fn chunk_count(len: nat, size: nat) -> nat
    recommends
        size > 0,
{
    ((len + size - 1) / size as int) as nat
}

/// The `k`-th chunk of `data` cut into pieces of `size` bytes; the last one
/// may be shorter.
pub open spec fn chunk(data: Seq<u8>, size: nat, k: int) -> Seq<u8>
    recommends
        size > 0,
{
    data.subrange(
        k * size,
        if (k + 1) * size <= data.len() {
            (k + 1) * size
        } else {
            data.len() as int
        },
    )
}

/// Counting chunks as they are cut: with `k` chunks cut, the last of them not
/// empty, `k` is below `chunk_count(len, size)` while bytes are left and equal
/// to it once none is.
pub proof fn lemma_chunk_progress(len: nat, size: nat, k: nat)
    requires
        size > 0,
        k > 0 ==> (k - 1) * size < len,
    ensures
        k * size < len ==> k < chunk_count(len, size),
        k * size >= len ==> k == chunk_count(len, size),
{
    let c = chunk_count(len, size);
    assert(c * size <= len + size - 1 < (c + 1) * size) by (nonlinear_arith)
        requires
            size > 0,
            c == (len + size - 1) / size as int,
    ;
    if k * size < len {
        assert(k < c) by (nonlinear_arith)
            requires
                k * size < len,
                len + size - 1 < (c + 1) * size,
                size > 0,
        ;
    } else {
        assert(k == c) by (nonlinear_arith)
            requires
                k * size >= len,
                k > 0 ==> (k - 1) * size < len,
                c * size <= len + size - 1 < (c + 1) * size,
                size > 0,
        ;
    }
}

/// The chunks tile the data: every chunk but the last holds `size` bytes, the
/// last holds what is left, at least one byte, and ends where the data end.
pub proof fn lemma_chunks_tile(data: Seq<u8>, size: nat, k: int)
    requires
        size > 0,
        0 <= k < chunk_count(data.len(), size),
    ensures
        chunk(data, size, k) == data.subrange(k * size, k * size + chunk(data, size, k).len()),
        0 < chunk(data, size, k).len() <= size,
        k + 1 < chunk_count(data.len(), size) ==> chunk(data, size, k).len() == size,
        k + 1 == chunk_count(data.len(), size) ==> k * size + chunk(data, size, k).len()
            == data.len(),
{
    let c = chunk_count(data.len(), size);
    let len = data.len();
    assert(c * size <= len + size - 1 < (c + 1) * size) by (nonlinear_arith)
        requires
            size > 0,
            c == (len + size - 1) / size as int,
    ;
    assert(k * size < len && (k + 1) * size == k * size + size && (k + 1 < c ==> (k + 1) * size
        < len) && (k + 1 == c ==> len <= (k + 1) * size)) by (nonlinear_arith)
        requires
            0 <= k < c,
            size > 0,
            c * size <= len + size - 1 < (c + 1) * size,
    ;
}

/// Cuts `data` into consecutive chunks of `size` bytes; the last one may be
/// shorter, and no chunk is empty.
pub fn split_chunks(data: &[u8], size: usize) -> (r: Vec<Vec<u8>>)
    requires
        size > 0,
    ensures
        r@.len() == chunk_count(data@.len(), size as nat),
        forall|k: int| 0 <= k < r@.len() ==> (#[trigger] r@[k])@ == chunk(data@, size as nat, k),
{
    let mut out: Vec<Vec<u8>> = Vec::new();
    let mut start: usize = 0;
    assert(out@.len() * size == 0) by (nonlinear_arith)
        requires
            out@.len() == 0,
    ;
    while start < data.len()
        invariant
            size > 0,
            start <= data.len(),
            start == if out@.len() * size <= data@.len() {
                out@.len() * size
            } else {
                data@.len() as int
            },
            out@.len() > 0 ==> (out@.len() - 1) * size < data@.len(),
            forall|k: int|
                0 <= k < out@.len() ==> (#[trigger] out@[k])@ == chunk(data@, size as nat, k),
        decreases data.len() - start,
    {
        let end: usize = if data.len() - start > size {
            start + size
        } else {
            data.len()
        };
        let ghost k = out@.len() as int;
        assert((k + 1) * size == k * size + size) by (nonlinear_arith);
        let mut piece: Vec<u8> = Vec::new();
        let mut i: usize = start;
        while i < end
            invariant
                start <= i <= end <= data.len(),
                piece@ == data@.subrange(start as int, i as int),
            decreases end - i,
        {
            piece.push(data[i]);
            i += 1;
        }
        out.push(piece);
        start = end;
    }
    proof {
        lemma_chunk_progress(data@.len(), size as nat, out@.len());
    }
    out
}

} // verus!
