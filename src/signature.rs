//! Perceptual signatures of images and the normalized Hamming similarity
//! between two of them.

use vstd::prelude::*;

verus! {

/// An RGB image: `width * height` pixels in row-major order, three bytes each.
pub struct Image {
    pub width: u32,
    pub height: u32,
    pub pixels: Vec<u8>,
}

impl Image {
    /// A non-empty image whose pixel buffer holds exactly its pixels.
    pub open spec fn wf(&self) -> bool {
        &&& self.width > 0
        &&& self.height > 0
        &&& self.pixels@.len() == 3 * (self.width as int) * (self.height as int)
    }
}

/// What the perceptual hasher returns for the image of the given size and pixels.
pub uninterp spec fn image_signature(width: u32, height: u32, pixels: Seq<u8>) -> Seq<u8>;

/// The signature of an image as the hasher computes it.
pub open spec fn signature_of(img: Image) -> Seq<u8> {
    image_signature(img.width, img.height, img.pixels@)
}

/// Relies on `image_hasher::Hasher::hash_image`, configured for an 8x8 mean hash
/// with DCT preprocessing: the grayscale copy is resized (Gaussian filter) to
/// 16x16, since the crate fixes the DCT size at twice the hash size; the low
/// 8x8 block of coefficients is kept, and a bit is set where a coefficient is
/// at least their mean. The hash depends on the image alone and holds 64 bits,
/// that is 8 bytes.
#[verifier::external_body]
fn hash_pixels(img: &Image) -> (r: Vec<u8>)
    requires
        img.wf(),
    ensures
        r@ == image_signature(img.width, img.height, img.pixels@),
        r@.len() == SIGNATURE_BYTES,
{
    let buf = image::RgbImage::from_raw(img.width, img.height, img.pixels.clone()).unwrap();
    let hasher = image_hasher::HasherConfig::new()
        .hash_size(8, 8)
        .hash_alg(image_hasher::HashAlg::Mean)
        .resize_filter(image::imageops::FilterType::Gaussian)
        .preproc_dct()
        .to_hasher();
    hasher.hash_image(&buf).as_bytes().to_vec()
}

/// Number of bytes in a signature.
pub const SIGNATURE_BYTES: usize = 8;

/// Number of set bits of `x`.
pub open spec fn bit_count(x: nat) -> nat
    decreases x,
{
    if x == 0 {
        0
    } else {
        x % 2 + bit_count(x / 2)
    }
}

/// Number of differing bits between `a` and `b`, byte by byte, over their common length.
pub open spec fn hamming(a: Seq<u8>, b: Seq<u8>) -> nat
    decreases a.len(),
{
    if a.len() == 0 || b.len() == 0 {
        0
    } else {
        bit_count((a[0] ^ b[0]) as nat) + hamming(a.drop_first(), b.drop_first())
    }
}

/// Relies on `image_hasher::ImageHash::dist` (after `ImageHash::from_bytes`, which
/// accepts any non-empty slice for the boxed container): the count of 1-bits of
/// the byte-wise XOR of the two hashes over their common length.
#[verifier::external_body]
fn hash_distance(a: &Vec<u8>, b: &Vec<u8>) -> (r: u32)
    requires
        0 < a@.len() <= SIGNATURE_BYTES,
        0 < b@.len() <= SIGNATURE_BYTES,
    ensures
        r == hamming(a@, b@),
{
    let ha = image_hasher::ImageHash::<Box<[u8]>>::from_bytes(a).unwrap();
    let hb = image_hasher::ImageHash::<Box<[u8]>>::from_bytes(b).unwrap();
    ha.dist(&hb)
}

/// A fixed-length binary signature of an image.
pub struct Signature {
    pub bytes: Vec<u8>,
}

impl View for Signature {
    type V = Seq<u8>;

    open spec fn view(&self) -> Seq<u8> {
        self.bytes@
    }
}

impl Signature {
    /// The bytes of the signature, in order.
    pub fn as_bytes(&self) -> (r: &Vec<u8>)
        ensures
            r@ == self@,
    {
        &self.bytes
    }
}

/// Computes the signature of an image.
pub fn hash_image(img: &Image) -> (r: Signature)
    requires
        img.wf(),
    ensures
        r@ == signature_of(*img),
        r@.len() == SIGNATURE_BYTES,
{
    Signature { bytes: hash_pixels(img) }
}

/// A similarity as the exact fraction `matching / total` of equal bits.
#[derive(Clone, Copy, Debug, PartialEq, Eq, Structural)]
pub struct Similarity {
    pub matching: u32,
    pub total: u32,
}

/// The similarity of two signatures: the fraction of their bits that agree.
pub open spec fn similarity_spec(a: Seq<u8>, b: Seq<u8>) -> Similarity {
    let total = 8 * a.len();
    Similarity { matching: (total - hamming(a, b)) as u32, total: total as u32 }
}

/// Numerator of the header-detection threshold (0.99).
pub const HEADER_THRESHOLD_NUM: u32 = 99;

/// Denominator of the header-detection threshold (0.99).
pub const HEADER_THRESHOLD_DEN: u32 = 100;

impl Similarity {
    /// Whether `matching / total` is strictly greater than `num / den`.
    pub open spec fn exceeds_spec(self, num: u32, den: u32) -> bool {
        (self.matching as int) * (den as int) > (num as int) * (self.total as int)
    }

    /// Whether every bit agrees (a score of 1).
    pub open spec fn is_perfect_spec(self) -> bool {
        self.total > 0 && self.matching == self.total
    }

    /// Whether `matching / total > num / den`.
    pub fn exceeds(&self, num: u32, den: u32) -> (r: bool)
        ensures
            r == self.exceeds_spec(num, den),
    {
        let lhs: u64 = mul_wide(self.matching, den);
        let rhs: u64 = mul_wide(num, self.total);
        lhs > rhs
    }

    /// Whether every bit agrees.
    pub fn is_perfect(&self) -> (r: bool)
        ensures
            r == self.is_perfect_spec(),
    {
        self.total > 0 && self.matching == self.total
    }

    /// Whether the score is above the header-detection threshold of 0.99.
    pub fn above_header_threshold(&self) -> (r: bool)
        ensures
            r == self.exceeds_spec(HEADER_THRESHOLD_NUM, HEADER_THRESHOLD_DEN),
    {
        self.exceeds(HEADER_THRESHOLD_NUM, HEADER_THRESHOLD_DEN)
    }
}

spec fn two_to(k: nat) -> nat
    decreases k,
{
    if k == 0 {
        1
    } else {
        2 * two_to((k - 1) as nat)
    }
}

proof fn lemma_bit_count_bound(x: nat, k: nat)
    requires
        x < two_to(k),
    ensures
        bit_count(x) <= k,
    decreases k,
{
    if x > 0 {
        lemma_bit_count_bound(x / 2, (k - 1) as nat);
    }
}

proof fn lemma_byte_bit_count(x: u8)
    ensures
        bit_count(x as nat) <= 8,
{
    reveal_with_fuel(two_to, 9);
    assert(two_to(8) == 256);
    lemma_bit_count_bound(x as nat, 8);
}

/// The product of two `u32` values, which always fits in `u64`.
fn mul_wide(a: u32, b: u32) -> (r: u64)
    ensures
        r == (a as int) * (b as int),
{
    assert((a as int) * (b as int) <= 0xffff_ffff_ffff_ffff) by (nonlinear_arith)
        requires
            0 <= a <= 0xffff_ffff,
            0 <= b <= 0xffff_ffff,
    ;
    (a as u64) * (b as u64)
}

proof fn lemma_bit_count_zero(x: nat)
    ensures
        bit_count(x) == 0 <==> x == 0,
    decreases x,
{
    if x > 0 {
        lemma_bit_count_zero(x / 2);
    }
}

/// The distance between two sequences is at most eight per byte of the shorter one.
pub proof fn lemma_hamming_bound(a: Seq<u8>, b: Seq<u8>)
    ensures
        hamming(a, b) <= 8 * a.len(),
        hamming(a, b) <= 8 * b.len(),
    decreases a.len(),
{
    if a.len() > 0 && b.len() > 0 {
        lemma_byte_bit_count(a[0] ^ b[0]);
        lemma_hamming_bound(a.drop_first(), b.drop_first());
    }
}

/// A sequence is at distance zero from itself.
pub proof fn lemma_hamming_self(a: Seq<u8>)
    ensures
        hamming(a, a) == 0,
    decreases a.len(),
{
    if a.len() > 0 {
        let x = a[0];
        assert(x ^ x == 0) by (bit_vector);
        lemma_hamming_self(a.drop_first());
    }
}

/// The distance does not depend on the order of its arguments.
pub proof fn lemma_hamming_symmetric(a: Seq<u8>, b: Seq<u8>)
    ensures
        hamming(a, b) == hamming(b, a),
    decreases a.len(),
{
    if a.len() > 0 && b.len() > 0 {
        let (x, y) = (a[0], b[0]);
        assert(x ^ y == y ^ x) by (bit_vector);
        lemma_hamming_symmetric(a.drop_first(), b.drop_first());
    }
}

/// Two sequences of one length at distance zero are equal.
pub proof fn lemma_hamming_zero_equal(a: Seq<u8>, b: Seq<u8>)
    requires
        a.len() == b.len(),
        hamming(a, b) == 0,
    ensures
        a == b,
    decreases a.len(),
{
    if a.len() > 0 {
        let (x, y) = (a[0], b[0]);
        lemma_bit_count_zero((x ^ y) as nat);
        assert(x ^ y == 0 ==> x == y) by (bit_vector);
        lemma_hamming_zero_equal(a.drop_first(), b.drop_first());
        assert(a =~= seq![a[0]] + a.drop_first());
        assert(b =~= seq![b[0]] + b.drop_first());
    }
}

/// Compares two signatures of one length: the fraction of equal bits.
pub fn similarity(a: &Signature, b: &Signature) -> (r: Similarity)
    requires
        0 < a@.len() <= SIGNATURE_BYTES,
        b@.len() == a@.len(),
    ensures
        r == similarity_spec(a@, b@),
{
    let d = hash_distance(&a.bytes, &b.bytes);
    proof {
        lemma_hamming_bound(a@, b@);
    }
    let total: u32 = 8 * (a.bytes.len() as u32);
    Similarity { matching: total - d, total }
}

/// Compares two images by the similarity of their signatures.
pub fn compare_image(img1: &Image, img2: &Image) -> (r: Similarity)
    requires
        img1.wf(),
        img2.wf(),
    ensures
        r == similarity_spec(signature_of(*img1), signature_of(*img2)),
{
    let hash1 = hash_image(img1);
    let hash2 = hash_image(img2);
    similarity(&hash1, &hash2)
}

/// A signature compared with itself scores exactly 1.
pub proof fn lemma_similarity_reflexive(a: Seq<u8>)
    requires
        0 < a.len() <= SIGNATURE_BYTES,
    ensures
        similarity_spec(a, a).is_perfect_spec(),
{
    lemma_hamming_self(a);
}

/// The score of two signatures of one length does not depend on their order.
pub proof fn lemma_similarity_symmetric(a: Seq<u8>, b: Seq<u8>)
    requires
        a.len() == b.len(),
    ensures
        similarity_spec(a, b) == similarity_spec(b, a),
{
    lemma_hamming_symmetric(a, b);
}

/// The score falls strictly as the number of disagreeing bits grows.
pub proof fn lemma_similarity_monotonic(a: Seq<u8>, b: Seq<u8>, c: Seq<u8>)
    requires
        0 < a.len() <= SIGNATURE_BYTES,
        b.len() == a.len(),
        c.len() == a.len(),
        hamming(a, b) < hamming(a, c),
    ensures
        similarity_spec(a, c).matching < similarity_spec(a, b).matching,
        similarity_spec(a, c).total == similarity_spec(a, b).total,
{
    lemma_hamming_bound(a, b);
    lemma_hamming_bound(a, c);
}

/// A score of 1 between signatures of one length means that they are equal.
pub proof fn lemma_perfect_means_equal(a: Seq<u8>, b: Seq<u8>)
    requires
        0 < a.len() <= SIGNATURE_BYTES,
        b.len() == a.len(),
        similarity_spec(a, b).is_perfect_spec(),
    ensures
        a == b,
{
    lemma_hamming_bound(a, b);
    lemma_hamming_zero_equal(a, b);
}

} // verus!
