//! Best-match search of a target among candidate images.

use crate::signature::{
    hamming, hash_image, lemma_hamming_bound, lemma_hamming_self, lemma_hamming_zero_equal,
    signature_of, similarity, similarity_spec, Image, Signature, SIGNATURE_BYTES,
};
use vstd::prelude::*;

verus! {

/// `i` is the first index whose candidate scores highest against `target`.
pub open spec fn is_first_best(target: Seq<u8>, candidates: Seq<Seq<u8>>, i: int) -> bool {
    &&& 0 <= i < candidates.len()
    &&& forall|j: int|
        0 <= j < candidates.len() ==> hamming(target, #[trigger] candidates[j]) >= hamming(
            target,
            candidates[i],
        )
    &&& forall|j: int|
        0 <= j < i ==> hamming(target, #[trigger] candidates[j]) > hamming(target, candidates[i])
}

/// All candidates have the length of a well-formed target signature.
pub open spec fn comparable(target: Seq<u8>, candidates: Seq<Seq<u8>>) -> bool {
    &&& 0 < target.len() <= SIGNATURE_BYTES
    &&& forall|j: int| 0 <= j < candidates.len() ==> (#[trigger] candidates[j]).len() == target.len()
}

/// The views of a list of signatures.
pub open spec fn signature_views(sigs: Seq<Signature>) -> Seq<Seq<u8>> {
    sigs.map_values(|s: Signature| s@)
}

/// The signatures of a list of images.
pub open spec fn image_signatures(images: Seq<Image>) -> Seq<Seq<u8>> {
    images.map_values(|img: Image| signature_of(img))
}

/// Finds the candidate most similar to `target`: the first index of the highest
/// score. A candidate equal to the target scores 1, and the search stops there.
pub fn best_match(target: &Signature, candidates: &Vec<Signature>) -> (r: usize)
    requires
        candidates@.len() > 0,
        comparable(target@, signature_views(candidates@)),
    ensures
        is_first_best(target@, signature_views(candidates@), r as int),
{
    let ghost cands = signature_views(candidates@);
    let ghost t = target@;
    let ghost total = 8 * t.len();
    let mut best_matching: u32 = 0;
    let mut best_index: usize = 0;
    let mut i: usize = 0;
    while i < candidates.len()
        invariant
            cands == signature_views(candidates@),
            t == target@,
            total == 8 * t.len(),
            candidates@.len() > 0,
            comparable(t, cands),
            0 <= i <= candidates@.len(),
            best_index < candidates@.len(),
            i == 0 ==> best_index == 0 && best_matching == 0,
            i > 0 ==> best_index < i && best_matching == similarity_spec(t, cands[best_index as int]).matching,
            forall|j: int| 0 <= j < i ==> similarity_spec(t, #[trigger] cands[j]).matching <= best_matching,
            forall|j: int| 0 <= j < best_index ==> similarity_spec(t, #[trigger] cands[j]).matching < best_matching,
            forall|j: int| 0 <= j < i ==> similarity_spec(t, #[trigger] cands[j]).matching < total,
        decreases candidates@.len() - i,
    {
        let ghost c = cands[i as int];
        assert(c == candidates@[i as int]@);
        proof {
            lemma_hamming_bound(t, c);
        }
        let score = similarity(target, &candidates[i]);
        if score.matching > best_matching {
            best_matching = score.matching;
            best_index = i;
        }
        if score.is_perfect() {
            proof {
                assert forall|j: int| 0 <= j < cands.len() implies hamming(t, #[trigger] cands[j]) >= hamming(t, cands[i as int]) by {
                    lemma_hamming_bound(t, cands[j]);
                }
                assert forall|j: int| 0 <= j < i implies hamming(t, #[trigger] cands[j]) > hamming(t, cands[i as int]) by {
                    lemma_hamming_bound(t, cands[j]);
                }
            }
            return i;
        }
        i += 1;
    }
    proof {
        assert forall|j: int| 0 <= j < cands.len() implies hamming(t, #[trigger] cands[j]) >= hamming(t, cands[best_index as int]) by {
            lemma_hamming_bound(t, cands[j]);
            lemma_hamming_bound(t, cands[best_index as int]);
        }
        assert forall|j: int| 0 <= j < best_index implies hamming(t, #[trigger] cands[j]) > hamming(t, cands[best_index as int]) by {
            lemma_hamming_bound(t, cands[j]);
            lemma_hamming_bound(t, cands[best_index as int]);
        }
    }
    best_index
}

/// Computes the signature of every image, in order.
pub fn hash_images(images: &Vec<Image>) -> (r: Vec<Signature>)
    requires
        forall|j: int| 0 <= j < images@.len() ==> (#[trigger] images@[j]).wf(),
    ensures
        signature_views(r@) == image_signatures(images@),
        forall|j: int| 0 <= j < r@.len() ==> (#[trigger] r@[j])@.len() == SIGNATURE_BYTES,
{
    let mut sigs: Vec<Signature> = Vec::new();
    let mut i: usize = 0;
    while i < images.len()
        invariant
            0 <= i <= images@.len(),
            forall|j: int| 0 <= j < images@.len() ==> (#[trigger] images@[j]).wf(),
            sigs@.len() == i,
            forall|j: int| 0 <= j < i ==> (#[trigger] sigs@[j])@ == signature_of(images@[j]),
            forall|j: int| 0 <= j < i ==> (#[trigger] sigs@[j])@.len() == SIGNATURE_BYTES,
        decreases images@.len() - i,
    {
        sigs.push(hash_image(&images[i]));
        i += 1;
    }
    assert(signature_views(sigs@) =~= image_signatures(images@));
    sigs
}

/// Finds the image of `images` most similar to `target`: the first index of the
/// highest score between their signatures.
pub fn find_image_in_array(target: &Image, images: &Vec<Image>) -> (r: usize)
    requires
        target.wf(),
        images@.len() > 0,
        forall|j: int| 0 <= j < images@.len() ==> (#[trigger] images@[j]).wf(),
    ensures
        is_first_best(signature_of(*target), image_signatures(images@), r as int),
{
    let t = hash_image(target);
    let sigs = hash_images(images);
    assert(signature_views(sigs@).len() == images@.len());
    assert forall|j: int| 0 <= j < signature_views(sigs@).len() implies (#[trigger] signature_views(sigs@)[j]).len() == t@.len() by {
        assert(signature_views(sigs@)[j] == sigs@[j]@);
    }
    best_match(&t, &sigs)
}

/// Among candidates of which exactly one equals the target, the best match is
/// that one.
pub proof fn lemma_unique_duplicate_found(target: Seq<u8>, candidates: Seq<Seq<u8>>, k: int, i: int)
    requires
        comparable(target, candidates),
        0 <= k < candidates.len(),
        candidates[k] == target,
        forall|j: int| 0 <= j < candidates.len() && j != k ==> candidates[j] != target,
        is_first_best(target, candidates, i),
    ensures
        i == k,
{
    lemma_hamming_self(target);
    assert(hamming(target, candidates[k]) == 0);
    assert(hamming(target, candidates[i]) == 0);
    lemma_hamming_zero_equal(target, candidates[i]);
}

/// Among candidate images of which exactly one has the target's signature, and
/// which is the target itself, the best match is that one.
pub proof fn lemma_duplicate_image_found(target: Image, images: Seq<Image>, k: int, i: int)
    requires
        comparable(signature_of(target), image_signatures(images)),
        0 <= k < images.len(),
        images[k] == target,
        forall|j: int|
            0 <= j < images.len() && j != k ==> signature_of(#[trigger] images[j]) != signature_of(
                target,
            ),
        is_first_best(signature_of(target), image_signatures(images), i),
    ensures
        i == k,
{
    let sigs = image_signatures(images);
    assert forall|j: int| 0 <= j < sigs.len() && j != k implies sigs[j] != signature_of(target) by {
        assert(sigs[j] == signature_of(images[j]));
    }
    lemma_unique_duplicate_found(signature_of(target), sigs, k, i);
}

/// A candidate equal to the target, with none equal before it, is the best
/// match: the search can stop there without looking further.
pub proof fn lemma_first_perfect_is_best(target: Seq<u8>, candidates: Seq<Seq<u8>>, k: int)
    requires
        0 <= k < candidates.len(),
        hamming(target, candidates[k]) == 0,
        forall|j: int| 0 <= j < k ==> hamming(target, #[trigger] candidates[j]) > 0,
    ensures
        is_first_best(target, candidates, k),
{
}

/// Only one index can be the first best match.
pub proof fn lemma_first_best_unique(target: Seq<u8>, candidates: Seq<Seq<u8>>, i: int, k: int)
    requires
        is_first_best(target, candidates, i),
        is_first_best(target, candidates, k),
    ensures
        i == k,
{
    if i < k {
        assert(hamming(target, candidates[i]) > hamming(target, candidates[k]));
    } else if k < i {
        assert(hamming(target, candidates[k]) > hamming(target, candidates[i]));
    }
}

} // verus!
