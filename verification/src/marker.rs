//! The marker scanner: where in an image the four marker bytes occur.

use vstd::prelude::*;

verus! {

/// Number of bytes in the marker.
pub const MARKER_LEN: usize = 4;

/// Number of bytes in the region that starts at a marker.
pub const REGION_WIDTH: usize = 22;

/// The marker bytes: the ASCII text `cdc_`.
pub open spec fn marker() -> Seq<u8> {
    seq![0x63u8, 0x64u8, 0x63u8, 0x5fu8]
}

/// The marker occurs in `image` at byte index `i`, all four bytes inside it.
pub open spec fn marker_at(image: Seq<u8>, i: int) -> bool {
    &&& 0 <= i
    &&& i + 4 <= image.len()
    &&& image[i] == 0x63u8
    &&& image[i + 1] == 0x64u8
    &&& image[i + 2] == 0x63u8
    &&& image[i + 3] == 0x5fu8
}

/// The indices `0, 1, .., n - 1` in order.
pub open spec fn positions(n: nat) -> Seq<usize> {
    Seq::new(n, |i: int| i as usize)
}

/// The indices below `end` at which the marker occurs in `image`, ascending.
pub open spec fn offsets_before(image: Seq<u8>, end: nat) -> Seq<usize> {
    positions(end).filter(|i: usize| marker_at(image, i as int))
}

/// Every index of `image` at which the marker occurs, in ascending order.
pub open spec fn marker_offsets(image: Seq<u8>) -> Seq<usize> {
    offsets_before(image, image.len())
}

/// Index `j` lies in the region of some marker of `image`.
pub open spec fn in_region(image: Seq<u8>, j: int) -> bool {
    exists|i: int| #[trigger] marker_at(image, i) && i <= j < i + REGION_WIDTH
}

/// `marker_at` says the same as comparing the four bytes at `i` with `marker()`.
pub proof fn lemma_marker_at_is_subrange(image: Seq<u8>, i: int)
    requires
        0 <= i,
        i + 4 <= image.len(),
    ensures
        marker_at(image, i) <==> image.subrange(i, i + 4) == marker(),
{
    let window = image.subrange(i, i + 4);
    if marker_at(image, i) {
        assert(window =~= marker());
    }
    if window == marker() {
        assert(window[0] == image[i]);
        assert(window[1] == image[i + 1]);
        assert(window[2] == image[i + 2]);
        assert(window[3] == image[i + 3]);
    }
}

/// Two occurrences of the marker never share a byte.
pub proof fn lemma_markers_do_not_overlap(image: Seq<u8>, i: int, j: int)
    requires
        marker_at(image, i),
        marker_at(image, j),
        i != j,
    ensures
        i + MARKER_LEN <= j || j + MARKER_LEN <= i,
{
}

/// One more position: the offsets below `n + 1` are those below `n`, followed
/// by `n` where the marker occurs there.
proof fn lemma_offsets_step(image: Seq<u8>, n: nat)
    ensures
        offsets_before(image, n + 1) == if marker_at(image, (n as usize) as int) {
            offsets_before(image, n).push(n as usize)
        } else {
            offsets_before(image, n)
        },
{
    reveal(Seq::filter);
    assert(positions(n + 1).drop_last() =~= positions(n));
    assert(positions(n + 1).last() == n as usize);
}

/// No marker starts in the last three positions of an image, nor behind them.
proof fn lemma_offsets_tail(image: Seq<u8>, from: nat, to: nat)
    requires
        from <= to <= usize::MAX,
        from + 3 >= image.len(),
    ensures
        offsets_before(image, to) == offsets_before(image, from),
    decreases to - from,
{
    if from < to {
        lemma_offsets_tail(image, from, (to - 1) as nat);
        lemma_offsets_step(image, (to - 1) as nat);
    }
}

/// What `offsets_before` lists: markers only, each below `end`, in strictly
/// ascending order, and every marker below `end`.
pub proof fn lemma_offsets_before(image: Seq<u8>, end: nat)
    requires
        end <= usize::MAX,
    ensures
        forall|k: int|
            0 <= k < offsets_before(image, end).len() ==> marker_at(
                image,
                #[trigger] offsets_before(image, end)[k] as int,
            ) && offsets_before(image, end)[k] < end,
        forall|a: int, b: int|
            0 <= a < b < offsets_before(image, end).len() ==> offsets_before(image, end)[a]
                < offsets_before(image, end)[b],
        forall|i: int|
            0 <= i < end && marker_at(image, i) ==> offsets_before(image, end).contains(
                i as usize,
            ),
    decreases end,
{
    if end == 0 {
        reveal(Seq::filter);
        assert(positions(0) =~= Seq::<usize>::empty());
    } else {
        let n = (end - 1) as nat;
        let shorter = offsets_before(image, n);
        let longer = offsets_before(image, end);
        lemma_offsets_before(image, n);
        lemma_offsets_step(image, n);
        assert forall|i: int| 0 <= i < end && marker_at(image, i) implies longer.contains(
            i as usize,
        ) by {
            if i < n {
                let k = choose|k: int| 0 <= k < shorter.len() && shorter[k] == i as usize;
                assert(longer[k] == i as usize);
            } else {
                assert(longer[longer.len() - 1] == i as usize);
            }
        }
    }
}

/// What the scanner's result holds: it lists markers only, in strictly
/// ascending order, and misses none.
pub proof fn lemma_marker_offsets(image: Seq<u8>)
    requires
        image.len() <= usize::MAX,
    ensures
        forall|k: int|
            0 <= k < marker_offsets(image).len() ==> marker_at(
                image,
                #[trigger] marker_offsets(image)[k] as int,
            ),
        forall|a: int, b: int|
            0 <= a < b < marker_offsets(image).len() ==> marker_offsets(image)[a]
                < marker_offsets(image)[b],
        forall|i: int| marker_at(image, i) ==> marker_offsets(image).contains(i as usize),
{
    lemma_offsets_before(image, image.len());
}

/// The scanner misses nothing and invents nothing: an image whose
/// occurrences of the marker are exactly the `k` entries of `occurrences`,
/// no two of them overlapping, has exactly `k` offsets, and the marker stands
/// at each of them.
pub proof fn lemma_scan_complete(image: Seq<u8>, occurrences: Seq<int>)
    requires
        image.len() <= usize::MAX,
        forall|a: int| 0 <= a < occurrences.len() ==> marker_at(image, #[trigger] occurrences[a]),
        forall|a: int, b: int|
            0 <= a < occurrences.len() && 0 <= b < occurrences.len() && a != b ==> (
            #[trigger] occurrences[a] + MARKER_LEN <= #[trigger] occurrences[b] || occurrences[b]
                + MARKER_LEN <= occurrences[a]),
        forall|i: int| marker_at(image, i) ==> occurrences.contains(i),
    ensures
        marker_offsets(image).len() == occurrences.len(),
        forall|k: int|
            0 <= k < marker_offsets(image).len() ==> marker_at(
                image,
                #[trigger] marker_offsets(image)[k] as int,
            ),
{
    lemma_marker_offsets(image);
    let found = marker_offsets(image).map_values(|o: usize| o as int);
    assert(found.no_duplicates()) by {
        assert forall|a: int, b: int|
            0 <= a < found.len() && 0 <= b < found.len() && a != b implies found[a]
            != found[b] by {
            if a < b {
                assert(marker_offsets(image)[a] < marker_offsets(image)[b]);
            } else {
                assert(marker_offsets(image)[b] < marker_offsets(image)[a]);
            }
        }
    }
    assert(occurrences.no_duplicates());
    assert(found.to_set() =~= occurrences.to_set()) by {
        assert forall|i: int| found.contains(i) implies occurrences.contains(i) by {
            let k = choose|k: int| 0 <= k < found.len() && found[k] == i;
            assert(marker_at(image, marker_offsets(image)[k] as int));
        }
        assert forall|i: int| occurrences.contains(i) implies found.contains(i) by {
            let a = choose|a: int| 0 <= a < occurrences.len() && occurrences[a] == i;
            assert(marker_at(image, occurrences[a]));
            let k = choose|k: int|
                0 <= k < marker_offsets(image).len() && marker_offsets(image)[k] == i as usize;
            assert(found[k] == i);
        }
    }
    found.unique_seq_to_set();
    occurrences.unique_seq_to_set();
}

/// Scans `image` once and returns every index at which the marker occurs,
/// in ascending order. An image shorter than the marker has none.
pub fn find_markers(image: &[u8]) -> (offsets: Vec<usize>)
    ensures
        offsets@ == marker_offsets(image@),
{
    let mut offsets: Vec<usize> = Vec::new();
    let len: usize = image.len();
    proof {
        reveal(Seq::filter);
        assert(positions(0) =~= Seq::<usize>::empty());
    }
    if len < MARKER_LEN {
        proof {
            lemma_offsets_tail(image@, 0, len as nat);
        }
        return offsets;
    }
    let last: usize = len - MARKER_LEN;
    let mut i: usize = 0;
    while i <= last
        invariant
            len == image@.len(),
            last + 4 == len,
            i <= last + 1,
            offsets@ == offsets_before(image@, i as nat),
        decreases last + 1 - i,
    {
        proof {
            lemma_offsets_step(image@, i as nat);
        }
        if image[i] == 0x63u8 && image[i + 1] == 0x64u8 && image[i + 2] == 0x63u8 && image[i + 3]
            == 0x5fu8 {
            offsets.push(i);
        }
        i = i + 1;
    }
    proof {
        lemma_offsets_tail(image@, i as nat, len as nat);
    }
    offsets
}

} // verus!
