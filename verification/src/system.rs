//! The system module: the current block number, one nonce per account, and
//! the chain of block hashes.

use crate::identity::Identity;
use crate::scalar::Scalar;
use crate::table::OrderedMap;
use vstd::prelude::*;

verus! {

/// The types a runtime is built over.
pub trait Config {
    /// Who owns an account.
    type AccountId: Identity;

    /// The height of a block.
    type BlockNumber: Identity + Scalar;

    /// How many extrinsics an account has submitted.
    type Nonce: Scalar;
}

/// The identity of an account, as contracts speak of it.
pub type AccountOf<T> = <<T as Config>::AccountId as View>::V;

/// The byte at place `k` (0 is the most significant) of `x` written big-endian.
pub open spec fn be_byte(x: u32, k: int) -> u8 {
    if k == 0 {
        (x / 0x100_0000) as u8
    } else if k == 1 {
        ((x / 0x1_0000) % 0x100) as u8
    } else if k == 2 {
        ((x / 0x100) % 0x100) as u8
    } else {
        (x % 0x100) as u8
    }
}

/// The placeholder hash of a block. Bytes 0 to 3 hold `word` and bytes 4 to
/// 7 hold `count`, both big-endian; bytes 8 to 15 repeat the first eight
/// bytes of the parent's hash, or are zero without a parent; byte `i` from 16
/// on is `i + word` modulo 256.
pub open spec fn hash_bytes(word: u32, count: u32, parent: Option<[u8; 32]>) -> Seq<u8> {
    Seq::new(
        32,
        |i: int|
            if i < 4 {
                be_byte(word, i)
            } else if i < 8 {
                be_byte(count, i - 4)
            } else if i < 16 {
                match parent {
                    Some(p) => p@[i - 8],
                    None => 0u8,
                }
            } else {
                ((i + word) % 256) as u8
            },
    )
}

/// Computes the placeholder hash of a block from the low 32 bits of its
/// number, the number of accounts with a nonce, and its parent's hash.
pub fn block_hash(word: u32, count: u32, parent: Option<[u8; 32]>) -> (hash: [u8; 32])
    ensures
        hash@ == hash_bytes(word, count, parent),
{
    let mut hash: [u8; 32] = [0u8; 32];
    hash[0] = (word / 0x100_0000) as u8;
    hash[1] = ((word / 0x1_0000) % 0x100) as u8;
    hash[2] = ((word / 0x100) % 0x100) as u8;
    hash[3] = (word % 0x100) as u8;
    hash[4] = (count / 0x100_0000) as u8;
    hash[5] = ((count / 0x1_0000) % 0x100) as u8;
    hash[6] = ((count / 0x100) % 0x100) as u8;
    hash[7] = (count % 0x100) as u8;
    let mut i: usize = 8;
    while i < 16
        invariant
            8 <= i <= 16,
            forall|j: int| 0 <= j < i ==> hash@[j] == hash_bytes(word, count, parent)[j],
            forall|j: int| i <= j < 32 ==> hash@[j] == 0,
        decreases 16 - i,
    {
        match parent {
            Some(p) => {
                hash[i] = p[i - 8];
            },
            None => {},
        }
        i = i + 1;
    }
    while i < 32
        invariant
            16 <= i <= 32,
            forall|j: int| 0 <= j < i ==> hash@[j] == hash_bytes(word, count, parent)[j],
        decreases 32 - i,
    {
        hash[i] = ((i as u64 + word as u64) % 256) as u8;
        i = i + 1;
    }
    assert(hash@ =~= hash_bytes(word, count, parent));
    hash
}

/// The block number before `b`; block zero is its own.
pub open spec fn previous<B: Scalar>(b: B) -> B {
    B::from_value(
        if b.value() > 0 {
            (b.value() - 1) as nat
        } else {
            0
        },
    )
}

/// The state of the system module.
#[derive(Debug)]
pub struct Pallet<T: Config> {
    /// The block being built.
    pub block_number: T::BlockNumber,
    /// The nonce of every account that has submitted an extrinsic.
    pub nonce: OrderedMap<T::AccountId, T::Nonce>,
    /// The hash of every finalized block.
    pub block_hashes: OrderedMap<T::BlockNumber, [u8; 32]>,
}

impl<T: Config> Pallet<T> {
    /// The nonce of an account: how many extrinsics it has submitted.
    pub open spec fn nonce_of(&self, who: AccountOf<T>) -> nat {
        if self.nonce@.contains_key(who) {
            self.nonce@[who].value()
        } else {
            0
        }
    }

    /// The hash on record for a block, if it was finalized.
    pub open spec fn hash_of(&self, n: T::BlockNumber) -> Option<[u8; 32]> {
        self.block_hashes@.get(n@)
    }

    /// The low 32 bits of the current block number.
    pub open spec fn block_word(&self) -> u32 {
        (self.block_number.value() % 0x1_0000_0000) as u32
    }

    /// The number of accounts with a nonce, in 32 bits.
    pub open spec fn nonce_count(&self) -> u32 {
        (self.nonce@.len() % 0x1_0000_0000) as u32
    }

    /// The hash that finalizing the current block would record: it chains to
    /// the hash on record for the block before, which for block zero is its
    /// own earlier hash.
    pub open spec fn next_hash(&self) -> Seq<u8> {
        hash_bytes(self.block_word(), self.nonce_count(), self.hash_of(previous(self.block_number)))
    }

    /// How counting one more extrinsic from `who` changes the system: the
    /// nonce of `who` grows by one, unless it is the largest already; every
    /// other nonce, the block number and the hashes stay.
    pub open spec fn counted(&self, post: &Self, who: AccountOf<T>) -> bool {
        &&& post.nonce@.dom() == self.nonce@.dom().insert(who)
        &&& post.nonce_of(who) == (if self.nonce_of(who) < T::Nonce::ceiling() {
            self.nonce_of(who) + 1
        } else {
            self.nonce_of(who)
        })
        &&& forall|other: AccountOf<T>|
            other != who ==> #[trigger] post.nonce_of(other) == self.nonce_of(other)
        &&& post.block_number == self.block_number
        &&& post.block_hashes == self.block_hashes
    }

    /// How finalizing the current block changes the system: its hash goes on
    /// record under its number, over any hash recorded there before.
    pub open spec fn finalized(&self, post: &Self, hash: [u8; 32]) -> bool {
        &&& hash@ == self.next_hash()
        &&& post.block_hashes@ == self.block_hashes@.insert(self.block_number@, hash)
        &&& post.block_number == self.block_number
        &&& post.nonce == self.nonce
    }

    /// How advancing the block number changes the system: the number grows
    /// by one, unless it is the largest already.
    pub open spec fn advanced(&self, post: &Self) -> bool {
        &&& post.block_number.value() == (if self.block_number.value()
            < T::BlockNumber::ceiling() {
            self.block_number.value() + 1
        } else {
            self.block_number.value()
        })
        &&& post.nonce == self.nonce
        &&& post.block_hashes == self.block_hashes
    }

    /// A system at block zero with no nonce and no hash on record.
    pub fn new() -> (r: Self)
        ensures
            r.block_number.value() == 0,
            r.nonce@ == Map::<AccountOf<T>, T::Nonce>::empty(),
            r.block_hashes@ == Map::<<T::BlockNumber as View>::V, [u8; 32]>::empty(),
    {
        Self {
            block_number: T::BlockNumber::zero(),
            nonce: OrderedMap::new(),
            block_hashes: OrderedMap::new(),
        }
    }

    /// The current block number.
    pub fn block_number(&self) -> (r: T::BlockNumber)
        ensures
            r == self.block_number,
    {
        self.block_number
    }

    /// Advances the block number by one; at the largest number it stays.
    pub fn inc_block_number(&mut self)
        ensures
            old(self).advanced(final(self)),
    {
        proof {
            self.block_number.value_in_range();
            if self.block_number.value() < T::BlockNumber::ceiling() {
                T::BlockNumber::from_value_in_range((self.block_number.value() + 1) as nat);
            }
        }
        let one = T::BlockNumber::one();
        match self.block_number.checked_add(&one) {
            Some(next) => {
                self.block_number = next;
            },
            None => {},
        }
    }

    /// Counts one more extrinsic from `who`; at the largest nonce it stays.
    pub fn inc_nonce(&mut self, who: &T::AccountId)
        ensures
            old(self).counted(final(self), who@),
    {
        let zero = T::Nonce::zero();
        let nonce = match self.nonce.get(who) {
            Some(n) => *n,
            None => zero,
        };
        let one = T::Nonce::one();
        let new_nonce = match nonce.checked_add(&one) {
            Some(n) => n,
            None => nonce,
        };
        proof {
            nonce.value_in_range();
            if nonce.value() < T::Nonce::ceiling() {
                T::Nonce::from_value_in_range((nonce.value() + 1) as nat);
            }
        }
        self.nonce.insert(who.duplicate(), new_nonce);
    }

    /// Computes the hash of the current block from the state as it is.
    pub fn generate_block_hash(&self) -> (hash: [u8; 32])
        ensures
            hash@ == self.next_hash(),
    {
        let wide = self.block_number.to_wide();
        let word = (wide % 0x1_0000_0000) as u32;
        let count = (self.nonce.len() as u64 % 0x1_0000_0000) as u32;
        let before = match self.block_number.checked_sub(&T::BlockNumber::one()) {
            Some(b) => b,
            None => self.block_number,
        };
        proof {
            self.block_number.value_names_the_scalar();
        }
        let parent = self.get_block_hash(before);
        block_hash(word, count, parent)
    }

    /// Finalizes the current block: computes its hash and puts it on record
    /// under the current block number, over any hash recorded there before.
    pub fn finalize_block(&mut self) -> (hash: [u8; 32])
        ensures
            old(self).finalized(final(self), hash),
    {
        let hash = self.generate_block_hash();
        self.block_hashes.insert(self.block_number.duplicate(), hash);
        hash
    }

    /// The hash on record for block `block_number`.
    pub fn get_block_hash(&self, block_number: T::BlockNumber) -> (r: Option<[u8; 32]>)
        ensures
            r == self.hash_of(block_number),
    {
        match self.block_hashes.get(&block_number) {
            Some(h) => Some(*h),
            None => None,
        }
    }

    /// The hash of the current block, if it was finalized.
    pub fn current_block_hash(&self) -> (r: Option<[u8; 32]>)
        ensures
            r == self.hash_of(self.block_number),
    {
        self.get_block_hash(self.block_number)
    }

    /// The hash on record for the block before the current one; block zero
    /// has no parent.
    pub fn parent_block_hash(&self) -> (r: Option<[u8; 32]>)
        ensures
            r == (if self.block_number.value() > 0 {
                self.hash_of(previous(self.block_number))
            } else {
                None
            }),
    {
        match self.block_number.checked_sub(&T::BlockNumber::one()) {
            Some(b) => self.get_block_hash(b),
            None => None,
        }
    }

    /// Every hash on record, by block number.
    pub fn all_block_hashes(&self) -> (r: &OrderedMap<T::BlockNumber, [u8; 32]>)
        ensures
            *r == self.block_hashes,
    {
        &self.block_hashes
    }

    /// The hash on record for block zero.
    pub fn genesis_hash(&self) -> (r: Option<[u8; 32]>)
        ensures
            r == self.hash_of(T::BlockNumber::from_value(0)),
    {
        let zero = T::BlockNumber::zero();
        proof {
            zero.value_names_the_scalar();
        }
        self.get_block_hash(zero)
    }
}

/// How many of `callers` are `who`.
pub open spec fn calls_by<Id>(callers: Seq<Id>, who: Id) -> nat
    decreases callers.len(),
{
    if callers.len() == 0 {
        0
    } else {
        calls_by(callers.drop_last(), who) + (if callers.last() == who {
            1nat
        } else {
            0nat
        })
    }
}

/// The hash on record for a block changes only when that block is
/// finalized again: it stays when the block number advances, when an
/// extrinsic is counted, and when another block is finalized.
pub proof fn hash_on_record_stays<T: Config>(
    pre: Pallet<T>,
    post: Pallet<T>,
    n: T::BlockNumber,
    who: AccountOf<T>,
    hash: [u8; 32],
)
    requires
        pre.advanced(&post) || pre.counted(&post, who) || (pre.finalized(&post, hash) && n@
            != pre.block_number@),
    ensures
        post.hash_of(n) == pre.hash_of(n),
{
}

/// After any sequence of counted extrinsics, the nonce of an account has
/// grown by the number of those that it submitted, up to the largest nonce.
pub proof fn nonce_counts_extrinsics<T: Config>(
    trace: Seq<Pallet<T>>,
    callers: Seq<AccountOf<T>>,
    who: AccountOf<T>,
)
    requires
        trace.len() == callers.len() + 1,
        forall|i: int|
            0 <= i < callers.len() ==> (#[trigger] trace[i]).counted(&trace[i + 1], callers[i]),
    ensures
        trace.last().nonce_of(who) == (if trace[0].nonce_of(who) + calls_by(callers, who)
            <= T::Nonce::ceiling() {
            trace[0].nonce_of(who) + calls_by(callers, who)
        } else {
            T::Nonce::ceiling()
        }),
    decreases callers.len(),
{
    if callers.len() > 0 {
        let n = callers.len() as int;
        let shorter = trace.drop_last();
        assert(trace[n - 1].counted(&trace[n], callers[n - 1]));
        assert forall|i: int| 0 <= i < n - 1 implies (#[trigger] shorter[i]).counted(
            &shorter[i + 1],
            callers.drop_last()[i],
        ) by {
            assert(trace[i].counted(&trace[i + 1], callers[i]));
        }
        nonce_counts_extrinsics::<T>(shorter, callers.drop_last(), who);
        assert(shorter.last() == trace[n - 1] && shorter[0] == trace[0]);
        assert(trace.last() == trace[n]);
        if trace[n - 1].nonce@.contains_key(who) {
            trace[n - 1].nonce@[who].value_in_range();
        }
        if callers[n - 1] != who {
            assert(trace[n].nonce_of(who) == trace[n - 1].nonce_of(who));
        }
    } else if trace[0].nonce@.contains_key(who) {
        trace[0].nonce@[who].value_in_range();
    }
}

} // verus!
