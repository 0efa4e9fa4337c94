//! Content identity: transactions and blocks are identified by the digest of
//! their canonical encoding, and a block's merkle root commits to its
//! transactions.
use vstd::prelude::*;

use crate::chain::{Block, BlockV, Dup, Transaction, TransactionV};
use crate::codec::{enc_block_header, enc_list, enc_transaction, lemma_enc_list_snoc, Encode};

verus! {

/// The 32-byte digest of a byte string.
pub uninterp spec fn sha256_of(bytes: Seq<u8>) -> Seq<u8>;

/// Relies on sha2::Sha256 through the digest crate's `Digest::digest`: the
/// digest is 32 bytes and a function of the input bytes alone.
#[verifier::external_body]
pub fn sha256(bytes: &Vec<u8>) -> (r: crate::chain::Hash)
    ensures
        r@ == sha256_of(bytes@),
        r@.len() == 32,
{
    let digest = <sha2::Sha256 as sha2::Digest>::digest(bytes.as_slice());
    crate::chain::Hash { bytes: digest.to_vec() }
}

/// A transaction's identity: the digest of its canonical encoding.
pub open spec fn spec_tx_hash(t: TransactionV) -> Seq<u8> {
    sha256_of(enc_transaction(t))
}

/// A block's identity: the digest of its canonical header encoding.
pub open spec fn spec_block_hash(b: BlockV) -> Seq<u8> {
    sha256_of(enc_block_header(b.block_header))
}

/// A transaction's identity hash.
pub fn tx_hash(tx: &Transaction) -> (r: crate::chain::Hash)
    ensures
        r@ == spec_tx_hash(tx@),
        r@.len() == 32,
{
    let mut bytes: Vec<u8> = Vec::new();
    tx.write(&mut bytes);
    proof {
        assert(bytes@ =~= enc_transaction(tx@));
    }
    sha256(&bytes)
}

/// A block's identity hash.
pub fn block_hash(b: &Block) -> (r: crate::chain::Hash)
    ensures
        r@ == spec_block_hash(b@),
        r@.len() == 32,
{
    let mut bytes: Vec<u8> = Vec::new();
    crate::codec::write_block_header(&mut bytes, &b.block_header);
    proof {
        assert(bytes@ =~= enc_block_header(b@.block_header));
    }
    sha256(&bytes)
}

/// The identity hash of one transaction, as a single term.
pub open spec fn tx_hasher() -> spec_fn(TransactionV) -> Seq<u8> {
    |t: TransactionV| spec_tx_hash(t)
}

/// The merkle root of an ordered transaction list: the digest of the
/// concatenated transaction identities.
pub open spec fn spec_merkle_root(txs: Seq<TransactionV>) -> Seq<u8> {
    sha256_of(enc_list(txs, tx_hasher()))
}

/// The merkle root recomputed from the transactions.
pub fn merkle_root(txns: &Vec<Transaction>) -> (r: crate::chain::Hash)
    ensures
        r@ == spec_merkle_root(txns.deep_view()),
{
    let ghost s = txns.deep_view();
    let mut buf: Vec<u8> = Vec::new();
    let n = txns.len();
    let mut i: usize = 0;
    while i < n
        invariant
            n == txns.len(),
            i <= n,
            s == txns.deep_view(),
            s.len() == n,
            buf@ == enc_list(s.take(i as int), tx_hasher()),
        decreases n - i,
    {
        let mut h = tx_hash(&txns[i]);
        proof {
            assert(txns.deep_view()[i as int] == txns@[i as int]@);
        }
        buf.append(&mut h.bytes);
        proof {
            lemma_enc_list_snoc(s, i as int, tx_hasher());
            assert(buf@ =~= enc_list(s.take(i as int + 1), tx_hasher()));
        }
        i += 1;
    }
    proof {
        assert(s.take(n as int) =~= s);
    }
    sha256(&buf)
}

/// Whether the header's merkle root matches the root recomputed from the
/// block's transactions.
pub fn validate_merkle_tree(block: &Block) -> (r: bool)
    ensures
        r == (block@.block_header.hash_merkle_root == spec_merkle_root(block@.txns)),
{
    let root = merkle_root(&block.txns);
    block.block_header.hash_merkle_root.eq_hash(&root)
}

} // verus!
