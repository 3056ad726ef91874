//! The patcher: every region of an image is overwritten with random letters,
//! and nothing else changes.

use crate::alphabet::{is_letter, letter, ALPHABET_LEN};
use crate::entropy::sample_range;
use crate::error::DriverError;
use crate::marker::{
    find_markers, in_region, lemma_marker_offsets, marker_at, marker_offsets, REGION_WIDTH,
};
use rand::rngs::ThreadRng;
use vstd::prelude::*;

verus! {

/// Every region of `image` lies inside it.
pub open spec fn regions_fit(image: Seq<u8>) -> bool {
    forall|i: int| #[trigger] marker_at(image, i) ==> i + REGION_WIDTH <= image.len()
}

/// The marker at `offset` is the first in `image` whose region runs past the
/// end of the image.
pub open spec fn is_first_overrun(image: Seq<u8>, offset: int) -> bool {
    &&& marker_at(image, offset)
    &&& offset + REGION_WIDTH > image.len()
    &&& forall|i: int|
        #[trigger] marker_at(image, i) && i + REGION_WIDTH > image.len() ==> offset <= i
}

/// `patched` is `original` with every region overwritten by letters: the two
/// have one length, a byte inside a region is a letter, and a byte outside
/// every region is the byte of `original`.
pub open spec fn is_patch_of(original: Seq<u8>, patched: Seq<u8>) -> bool {
    &&& patched.len() == original.len()
    &&& forall|j: int|
        0 <= j < original.len() ==> if in_region(original, j) {
            is_letter(#[trigger] patched[j])
        } else {
            patched[j] == original[j]
        }
}

/// `image` with the `REGION_WIDTH` bytes from `offset` on replaced by `letters`.
pub open spec fn with_region(image: Seq<u8>, offset: int, letters: Seq<u8>) -> Seq<u8> {
    Seq::new(
        image.len(),
        |j: int|
            if offset <= j < offset + REGION_WIDTH {
                letters[j - offset]
            } else {
                image[j]
            },
    )
}

/// Index `j` lies in the region of one of the first `count` entries of `offsets`.
spec fn covered(offsets: Seq<usize>, count: int, j: int) -> bool {
    exists|m: int| 0 <= m < count && #[trigger] offsets[m] <= j && j < offsets[m] + REGION_WIDTH
}

/// Overwrites the region that starts at `offset`, which lies inside the
/// image, with `letters`.
fn store_region(image: &mut Vec<u8>, offset: usize, letters: &[u8; REGION_WIDTH])
    requires
        offset + REGION_WIDTH <= old(image)@.len(),
    ensures
        final(image)@ == with_region(old(image)@, offset as int, letters@),
{
    let len: usize = image.len();
    let mut k: usize = 0;
    while k < REGION_WIDTH
        invariant
            k <= REGION_WIDTH,
            offset + REGION_WIDTH <= len,
            image@.len() == len,
            len == old(image)@.len(),
            forall|j: int|
                0 <= j < image@.len() ==> #[trigger] image@[j] == if offset <= j < offset + k {
                    letters@[j - offset]
                } else {
                    old(image)@[j]
                },
        decreases REGION_WIDTH - k,
    {
        image.set(offset + k, letters[k]);
        k = k + 1;
    }
    assert(image@ =~= with_region(old(image)@, offset as int, letters@));
}

/// Whether the region that starts at `offset` lies inside an image of `len` bytes.
fn region_fits(len: usize, offset: usize) -> (fits: bool)
    ensures
        fits == (offset + REGION_WIDTH <= len),
{
    len >= REGION_WIDTH && offset <= len - REGION_WIDTH
}

/// Overwrites the region that starts at `offset` with `letters`, byte for
/// byte; the image keeps its length and every other byte. A region that
/// would run past the end of the image is refused, and the image stays as it
/// is.
pub fn write_region(image: &mut Vec<u8>, offset: usize, letters: &[u8; REGION_WIDTH]) -> (done: Result<
    (),
    DriverError,
>)
    ensures
        final(image)@.len() == old(image)@.len(),
        offset + REGION_WIDTH <= old(image)@.len() ==> done == Ok::<(), DriverError>(())
            && final(image)@ == with_region(old(image)@, offset as int, letters@),
        offset + REGION_WIDTH > old(image)@.len() ==> done == Err::<(), DriverError>(
            DriverError::CorruptRegion { offset },
        ) && final(image)@ == old(image)@,
{
    if !region_fits(image.len(), offset) {
        return Err(DriverError::CorruptRegion { offset });
    }
    store_region(image, offset, letters);
    Ok(())
}

/// Draws the letters for one region: `REGION_WIDTH` indices into the
/// alphabet, each drawn on its own, and the letter at each.
fn draw_letters(rng: &mut ThreadRng) -> (letters: [u8; REGION_WIDTH])
    ensures
        forall|k: int| 0 <= k < REGION_WIDTH ==> is_letter(#[trigger] letters@[k]),
{
    let mut letters: [u8; REGION_WIDTH] = [0x61u8; REGION_WIDTH];
    let mut k: usize = 0;
    while k < REGION_WIDTH
        invariant
            k <= REGION_WIDTH,
            forall|m: int| 0 <= m < k ==> is_letter(#[trigger] letters@[m]),
        decreases REGION_WIDTH - k,
    {
        let index: usize = sample_range(rng, 0, ALPHABET_LEN);
        letters[k] = letter(index);
        k = k + 1;
    }
    letters
}

/// Overwrites the region that starts at `offset`, which lies inside the
/// image, with letters drawn from `rng`.
fn scramble_region(image: &mut Vec<u8>, offset: usize, rng: &mut ThreadRng)
    requires
        offset + REGION_WIDTH <= old(image)@.len(),
    ensures
        final(image)@.len() == old(image)@.len(),
        forall|j: int|
            0 <= j < old(image)@.len() ==> if offset <= j < offset + REGION_WIDTH {
                is_letter(#[trigger] final(image)@[j])
            } else {
                final(image)@[j] == old(image)@[j]
            },
{
    let letters = draw_letters(rng);
    store_region(image, offset, &letters);
}

/// Overwrites the `REGION_WIDTH` bytes that start at `offset` with letters,
/// each drawn uniformly and on its own from the alphabet. Which letters come
/// is left to chance; all else is fixed: the image keeps its length and every
/// byte outside the region. A region that would run past the end of the
/// image is refused before anything is drawn or written.
pub fn randomize_region(image: &mut Vec<u8>, offset: usize) -> (done: Result<(), DriverError>)
    ensures
        final(image)@.len() == old(image)@.len(),
        offset + REGION_WIDTH <= old(image)@.len() ==> done == Ok::<(), DriverError>(())
            && forall|j: int|
            0 <= j < old(image)@.len() ==> if offset <= j < offset + REGION_WIDTH {
                is_letter(#[trigger] final(image)@[j])
            } else {
                final(image)@[j] == old(image)@[j]
            },
        offset + REGION_WIDTH > old(image)@.len() ==> done == Err::<(), DriverError>(
            DriverError::CorruptRegion { offset },
        ) && final(image)@ == old(image)@,
{
    if !region_fits(image.len(), offset) {
        return Err(DriverError::CorruptRegion { offset });
    }
    let mut rng = rand::thread_rng();
    scramble_region(image, offset, &mut rng);
    Ok(())
}

/// Index `j` lies in a region of `image` exactly if it lies in the region of
/// one of the scanner's offsets.
proof fn lemma_covered_is_in_region(image: Seq<u8>, j: int)
    requires
        image.len() <= usize::MAX,
    ensures
        covered(marker_offsets(image), marker_offsets(image).len() as int, j) <==> in_region(
            image,
            j,
        ),
{
    let offsets = marker_offsets(image);
    lemma_marker_offsets(image);
    if covered(offsets, offsets.len() as int, j) {
        let m = choose|m: int|
            0 <= m < offsets.len() && #[trigger] offsets[m] <= j && j < offsets[m] + REGION_WIDTH;
        assert(marker_at(image, offsets[m] as int));
    }
    if in_region(image, j) {
        let i = choose|i: int| #[trigger] marker_at(image, i) && i <= j < i + REGION_WIDTH;
        assert(offsets.contains(i as usize));
        let m = choose|m: int| 0 <= m < offsets.len() && offsets[m] == i as usize;
        assert(offsets[m] <= j && j < offsets[m] + REGION_WIDTH);
    }
}

/// A patched image is as long as the image it was made from: patching
/// overwrites, and neither inserts nor deletes.
pub proof fn lemma_patch_keeps_length(original: Seq<u8>, patched: Seq<u8>)
    requires
        is_patch_of(original, patched),
    ensures
        patched.len() == original.len(),
{
}

/// An image without a marker is its own and only patch.
pub proof fn lemma_patch_without_markers(original: Seq<u8>, patched: Seq<u8>)
    requires
        forall|i: int| !marker_at(original, i),
    ensures
        is_patch_of(original, patched) <==> patched == original,
{
    if is_patch_of(original, patched) {
        assert(patched =~= original);
    }
}

/// No marker of the unpatched image is left in the patched one. More than
/// that holds: no marker of the patched image ends inside a region, so the
/// byte that closed a marker is a letter now, and a marker found in the
/// patched image is a new one, begun by the last letters of a region and
/// closed by the untouched byte behind it.
pub proof fn lemma_patch_destroys_markers(original: Seq<u8>, patched: Seq<u8>)
    requires
        is_patch_of(original, patched),
    ensures
        forall|i: int| marker_at(original, i) ==> !marker_at(patched, i),
        forall|i: int| marker_at(original, i) ==> patched[i + 3] != original[i + 3],
        forall|j: int| in_region(original, j + 3) ==> !marker_at(patched, j),
        forall|j: int|
            marker_at(patched, j) ==> !marker_at(original, j) && !in_region(original, j + 3) && (
            in_region(original, j) || in_region(original, j + 1) || in_region(original, j + 2)),
{
    assert forall|j: int| in_region(original, j + 3) implies !marker_at(patched, j) by {
        if 0 <= j && j + 4 <= patched.len() {
            assert(is_letter(patched[j + 3]));
        }
    }
    assert forall|i: int| marker_at(original, i) implies !marker_at(patched, i) && patched[i + 3]
        != original[i + 3] by {
        assert(in_region(original, i + 3));
        assert(is_letter(patched[i + 3]));
    }
    assert forall|j: int| marker_at(patched, j) implies !marker_at(original, j) && !in_region(
        original,
        j + 3,
    ) && (in_region(original, j) || in_region(original, j + 1) || in_region(original, j + 2)) by {
        if !in_region(original, j) && !in_region(original, j + 1) && !in_region(original, j + 2) {
            assert(patched[j] == original[j]);
            assert(patched[j + 1] == original[j + 1]);
            assert(patched[j + 2] == original[j + 2]);
            assert(patched[j + 3] == original[j + 3]);
            assert(marker_at(original, j));
        }
    }
}

/// Patches `image` in place: finds every marker and overwrites the region
/// that starts at it with random letters. Returns the number of regions
/// patched, which is the number of markers found; none is a valid outcome
/// and leaves the image as it was.
///
/// Every region is checked before any byte is written. Where a region would
/// run past the end of the image, the error names the first such marker and
/// the image is left untouched.
pub fn patch_image(image: &mut Vec<u8>) -> (patched: Result<usize, DriverError>)
    ensures
        final(image)@.len() == old(image)@.len(),
        regions_fit(old(image)@) ==> patched == Ok::<usize, DriverError>(
            marker_offsets(old(image)@).len() as usize,
        ) && is_patch_of(old(image)@, final(image)@),
        !regions_fit(old(image)@) ==> final(image)@ == old(image)@ && exists|offset: usize|
            patched == Err::<usize, DriverError>(DriverError::CorruptRegion { offset })
                && #[trigger] is_first_overrun(old(image)@, offset as int),
{
    let offsets = find_markers(image.as_slice());
    let len: usize = image.len();
    let count: usize = offsets.len();
    let mut k: usize = 0;
    while k < count
        invariant
            k <= count,
            count == offsets@.len(),
            len == image@.len(),
            image@ == old(image)@,
            offsets@ == marker_offsets(image@),
            forall|m: int| 0 <= m < k ==> #[trigger] offsets@[m] + REGION_WIDTH <= len,
        decreases count - k,
    {
        let offset: usize = offsets[k];
        if !region_fits(len, offset) {
            proof {
                lemma_marker_offsets(image@);
                assert(marker_at(image@, offsets@[k as int] as int));
                assert forall|i: int|
                    #[trigger] marker_at(image@, i) && i + REGION_WIDTH > len implies offset
                    <= i by {
                    assert(offsets@.contains(i as usize));
                    let m = choose|m: int| 0 <= m < offsets@.len() && offsets@[m] == i as usize;
                    if m < k {
                        assert(offsets@[m] + REGION_WIDTH <= len);
                    } else if m > k {
                        assert(offsets@[k as int] < offsets@[m]);
                    }
                }
                assert(is_first_overrun(image@, offset as int));
            }
            return Err(DriverError::CorruptRegion { offset });
        }
        k = k + 1;
    }
    proof {
        lemma_marker_offsets(image@);
        assert(regions_fit(image@)) by {
            assert forall|i: int| #[trigger] marker_at(image@, i) implies i + REGION_WIDTH
                <= image@.len() by {
                assert(offsets@.contains(i as usize));
                let m = choose|m: int| 0 <= m < offsets@.len() && offsets@[m] == i as usize;
                assert(offsets@[m] + REGION_WIDTH <= len);
            }
        }
    }
    let mut rng = rand::thread_rng();
    let mut n: usize = 0;
    while n < count
        invariant
            n <= count,
            count == offsets@.len(),
            len == image@.len(),
            len == old(image)@.len(),
            offsets@ == marker_offsets(old(image)@),
            forall|m: int| 0 <= m < count ==> #[trigger] offsets@[m] + REGION_WIDTH <= len,
            forall|j: int|
                0 <= j < len ==> if covered(offsets@, n as int, j) {
                    is_letter(#[trigger] image@[j])
                } else {
                    image@[j] == old(image)@[j]
                },
        decreases count - n,
    {
        let ghost before = image@;
        let offset: usize = offsets[n];
        scramble_region(image, offset, &mut rng);
        proof {
            assert forall|j: int| 0 <= j < len implies if covered(offsets@, n + 1, j) {
                is_letter(#[trigger] image@[j])
            } else {
                image@[j] == old(image)@[j]
            } by {
                if offset <= j < offset + REGION_WIDTH {
                    assert(offsets@[n as int] <= j && j < offsets@[n as int] + REGION_WIDTH);
                } else {
                    assert(image@[j] == before[j]);
                    if covered(offsets@, n + 1, j) {
                        let m = choose|m: int|
                            0 <= m < n + 1 && #[trigger] offsets@[m] <= j && j < offsets@[m]
                                + REGION_WIDTH;
                        assert(m < n);
                        assert(covered(offsets@, n as int, j));
                    } else {
                        if covered(offsets@, n as int, j) {
                            let m = choose|m: int|
                                0 <= m < n && #[trigger] offsets@[m] <= j && j < offsets@[m]
                                    + REGION_WIDTH;
                            assert(0 <= m < n + 1);
                        }
                    }
                }
            }
        }
        n = n + 1;
    }
    proof {
        assert forall|j: int| 0 <= j < len implies if in_region(old(image)@, j) {
            is_letter(#[trigger] image@[j])
        } else {
            image@[j] == old(image)@[j]
        } by {
            lemma_covered_is_in_region(old(image)@, j);
        }
    }
    Ok(count)
}

} // verus!
