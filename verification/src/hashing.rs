//! SHA-256 text hashes and the Merkle root of a block's transaction hashes.
use vstd::prelude::*;
use vstd::string::*;
use vstd::utf8::*;
use sha2::{Digest, Sha256};

use crate::text::string_from_chars;

verus! {

/// The SHA-256 digest of a byte string (32 bytes).
pub uninterp spec fn sha256_of(data: Seq<u8>) -> Seq<u8>;

/// `sha2::Sha256::digest`: the SHA-256 digest of `data`. The contract claims that the
/// result is the digest named `sha256_of(data)` and that it is 32 bytes long.
#[verifier::external_body]
fn sha256_digest(data: &[u8]) -> (d: Vec<u8>)
    ensures
        d@ == sha256_of(data@),
        d@.len() == 32,
{
    Sha256::digest(data).to_vec()
}

/// The lower-case hexadecimal digit of a value below 16.
pub open spec fn hex_digit(n: u8) -> char {
    if n < 10 {
        (n + 48) as char
    } else {
        (n + 87) as char
    }
}

/// Lower-case hexadecimal text of a byte string, two digits per byte, high nibble first.
pub open spec fn hex_lower(b: Seq<u8>) -> Seq<char>
    decreases b.len(),
{
    if b.len() == 0 {
        Seq::empty()
    } else {
        seq![hex_digit(b[0] / 16), hex_digit(b[0] % 16)] + hex_lower(b.drop_first())
    }
}

/// The hash text of a string: hex of the SHA-256 digest of its UTF-8 bytes.
pub open spec fn hash_text(s: Seq<char>) -> Seq<char> {
    hex_lower(sha256_of(encode_utf8(s)))
}

/// The hash text of two strings hashed one after the other.
pub open spec fn hash_pair(left: Seq<char>, right: Seq<char>) -> Seq<char> {
    hex_lower(sha256_of(encode_utf8(left) + encode_utf8(right)))
}

fn hex_digit_exec(n: u8) -> (c: char)
    requires
        n < 16,
    ensures
        c == hex_digit(n),
{
    if n < 10 {
        (n + 48) as char
    } else {
        (n + 87) as char
    }
}

proof fn lemma_hex_lower_len(b: Seq<u8>)
    ensures
        hex_lower(b).len() == 2 * b.len(),
    decreases b.len(),
{
    if b.len() > 0 {
        lemma_hex_lower_len(b.drop_first());
    }
}

proof fn lemma_hex_lower_push(b: Seq<u8>, x: u8)
    ensures
        hex_lower(b.push(x)) == hex_lower(b) + seq![hex_digit(x / 16), hex_digit(x % 16)],
    decreases b.len(),
{
    if b.len() == 0 {
        assert(b.push(x).drop_first() =~= Seq::<u8>::empty());
        assert(b =~= Seq::<u8>::empty());
        assert(hex_lower(Seq::<u8>::empty()) =~= Seq::<char>::empty());
        assert(hex_lower(b.push(x)) =~= hex_lower(b) + seq![hex_digit(x / 16), hex_digit(x % 16)]);
    } else {
        assert(b.push(x).drop_first() =~= b.drop_first().push(x));
        lemma_hex_lower_push(b.drop_first(), x);
        assert(hex_lower(b.push(x)) =~= hex_lower(b) + seq![hex_digit(x / 16), hex_digit(x % 16)]);
    }
}

/// Lower-case hexadecimal text of `bytes`.
pub fn to_hex_lower(bytes: &Vec<u8>) -> (s: String)
    ensures
        s@ == hex_lower(bytes@),
        s@.len() == 2 * bytes@.len(),
{
    let mut out: Vec<char> = Vec::new();
    let mut i: usize = 0;
    while i < bytes.len()
        invariant
            i <= bytes.len(),
            out@ == hex_lower(bytes@.take(i as int)),
        decreases bytes.len() - i,
    {
        let b = bytes[i];
        out.push(hex_digit_exec(b / 16));
        out.push(hex_digit_exec(b % 16));
        proof {
            assert(bytes@.take(i + 1) =~= bytes@.take(i as int).push(b));
            lemma_hex_lower_push(bytes@.take(i as int), b);
        }
        i = i + 1;
    }
    assert(bytes@.take(bytes.len() as int) =~= bytes@);
    proof { lemma_hex_lower_len(bytes@); }
    string_from_chars(&out)
}

fn append_bytes(dst: &mut Vec<u8>, src: &[u8])
    ensures
        final(dst)@ == old(dst)@ + src@,
{
    let mut i: usize = 0;
    while i < src.len()
        invariant
            i <= src.len(),
            dst@ == old(dst)@ + src@.take(i as int),
        decreases src.len() - i,
    {
        dst.push(src[i]);
        i = i + 1;
        assert(src@.take(i as int) =~= src@.take((i - 1) as int).push(src@[i - 1]));
    }
    assert(src@.take(src.len() as int) =~= src@);
}

/// Hash text of a string: the lower-case hex of the SHA-256 of its UTF-8 bytes.
pub fn create_hash(data: String) -> (h: String)
    ensures
        h@ == hash_text(data@),
        h@.len() == 64,
{
    let bytes = data.as_str().as_bytes();
    let d = sha256_digest(bytes);
    to_hex_lower(&d)
}

/// Hash text of `left` followed by `right`, as one SHA-256 stream.
pub fn create_pair_hash(left: &String, right: &String) -> (h: String)
    ensures
        h@ == hash_pair(left@, right@),
        h@.len() == 64,
{
    let mut buf: Vec<u8> = Vec::new();
    append_bytes(&mut buf, left.as_str().as_bytes());
    append_bytes(&mut buf, right.as_str().as_bytes());
    assert(buf@ =~= encode_utf8(left@) + encode_utf8(right@));
    let d = sha256_digest(buf.as_slice());
    to_hex_lower(&d)
}

pub struct HashMaker;

impl HashMaker {
    /// Hash text of `data` (see `create_hash`).
    pub fn generate(data: &String) -> (h: String)
        ensures
            h@ == hash_text(data@),
            h@.len() == 64,
    {
        create_hash(data.clone())
    }
}

/// The level-by-level pairing of a queue of hashes: while more than one hash is
/// left, the first two are taken off the front and the hash of the pair goes to the back.
pub open spec fn merkle_queue(q: Seq<Seq<char>>) -> Seq<Seq<char>>
    decreases q.len(),
{
    if q.len() <= 1 {
        q
    } else {
        merkle_queue(q.drop_first().drop_first().push(hash_pair(q[0], q[1])))
    }
}

proof fn lemma_merkle_queue_len(q: Seq<Seq<char>>)
    ensures
        q.len() == 0 ==> merkle_queue(q).len() == 0,
        q.len() > 0 ==> merkle_queue(q).len() == 1,
    decreases q.len(),
{
    if q.len() > 1 {
        lemma_merkle_queue_len(q.drop_first().drop_first().push(hash_pair(q[0], q[1])));
    }
}

/// One Merkle step: with at least two hashes, the root is the root of the queue whose
/// first two hashes are taken off the front and whose back gets the hash of that pair.
pub proof fn law_merkle_step(q: Seq<Seq<char>>)
    requires
        q.len() >= 2,
    ensures
        merkle_queue(q) == merkle_queue(q.subrange(2, q.len() as int).push(hash_pair(q[0], q[1]))),
{
    assert(q.drop_first().drop_first() =~= q.subrange(2, q.len() as int));
}

/// The root of a single hash is that hash; of two, the hash of the pair.
pub proof fn law_merkle_small(a: Seq<char>, b: Seq<char>)
    ensures
        merkle_queue(seq![a]) == seq![a],
        merkle_queue(seq![a, b]) == seq![hash_pair(a, b)],
{
    let q = seq![a, b];
    let q1 = q.drop_first().drop_first().push(hash_pair(q[0], q[1]));
    assert(q1 =~= seq![hash_pair(a, b)]);
    assert(merkle_queue(q) == merkle_queue(q1));
    assert(merkle_queue(q1) == q1);
}

/// Three hashes: the first two are paired, then the third with that pair, in that order.
pub proof fn law_merkle_three(a: Seq<char>, b: Seq<char>, c: Seq<char>)
    ensures
        merkle_queue(seq![a, b, c]) == seq![hash_pair(c, hash_pair(a, b))],
{
    let ab = hash_pair(a, b);
    let q = seq![a, b, c];
    let q1 = q.drop_first().drop_first().push(hash_pair(q[0], q[1]));
    assert(q1 =~= seq![c, ab]);
    let q2 = q1.drop_first().drop_first().push(hash_pair(q1[0], q1[1]));
    assert(q2 =~= seq![hash_pair(c, ab)]);
    assert(merkle_queue(q) == merkle_queue(q1));
    assert(merkle_queue(q1) == merkle_queue(q2));
    assert(merkle_queue(q2) == q2);
}

/// Four hashes make a balanced tree: the root is the hash of the pair hashes of the
/// first two and the last two.
pub proof fn law_merkle_four(a: Seq<char>, b: Seq<char>, c: Seq<char>, d: Seq<char>)
    ensures
        merkle_queue(seq![a, b, c, d]) == seq![hash_pair(hash_pair(a, b), hash_pair(c, d))],
{
    let ab = hash_pair(a, b);
    let cd = hash_pair(c, d);
    let q = seq![a, b, c, d];
    let q1 = q.drop_first().drop_first().push(hash_pair(q[0], q[1]));
    assert(q1 =~= seq![c, d, ab]);
    let q2 = q1.drop_first().drop_first().push(hash_pair(q1[0], q1[1]));
    assert(q2 =~= seq![ab, cd]);
    let q3 = q2.drop_first().drop_first().push(hash_pair(q2[0], q2[1]));
    assert(q3 =~= seq![hash_pair(ab, cd)]);
    assert(merkle_queue(q) == merkle_queue(q1));
    assert(merkle_queue(q1) == merkle_queue(q2));
    assert(merkle_queue(q2) == merkle_queue(q3));
    assert(merkle_queue(q3) == q3);
}

pub struct MerkelRoot;

impl MerkelRoot {
    /// The Merkle root of a list of transaction hashes: a one-element list holding
    /// the root, or the empty list when there are no hashes.
    pub fn make(transactions: Vec<&String>) -> (root: Vec<String>)
        ensures
            root@.map_values(|s: String| s@) == merkle_queue(transactions@.map_values(|s: &String| s@)),
            transactions@.len() == 0 ==> root@.len() == 0,
            transactions@.len() > 0 ==> root@.len() == 1,
    {
        let ghost input = transactions@.map_values(|s: &String| s@);
        let mut hashs: Vec<String> = Vec::new();
        let mut i: usize = 0;
        while i < transactions.len()
            invariant
                i <= transactions.len(),
                input == transactions@.map_values(|s: &String| s@),
                hashs@.len() == i,
                forall|j: int| 0 <= j < i ==> #[trigger] hashs@[j]@ == transactions@[j]@,
            decreases transactions.len() - i,
        {
            let t: String = transactions[i].clone();
            hashs.push(t);
            i = i + 1;
        }
        assert(hashs@.map_values(|s: String| s@) =~= input);
        while hashs.len() > 1
            invariant
                merkle_queue(hashs@.map_values(|s: String| s@)) == merkle_queue(input),
            decreases hashs.len(),
        {
            let ghost before = hashs@.map_values(|s: String| s@);
            let left = hashs.remove(0);
            let right = hashs.remove(0);
            let root = create_pair_hash(&left, &right);
            hashs.push(root);
            assert(hashs@.map_values(|s: String| s@) =~= before.drop_first().drop_first().push(hash_pair(before[0], before[1])));
        }
        proof { lemma_merkle_queue_len(input); }
        hashs
    }
}

} // verus!
