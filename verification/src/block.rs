//! The block model: a template as the ledger issues it, the block that a
//! miner derives from it, the canonical hash of a block, and the nonce search.

use crate::clock::unix_seconds;
use crate::difficulty::has_zero_prefix;
use crate::difficulty::meets_difficulty;
use crate::digest::sha256;
use crate::digest::sha256_digest;
use crate::digest::MAX_DIGEST_INPUT;
use crate::encoding::decimal;
use crate::encoding::decimal_len;
use crate::encoding::hex;
use crate::encoding::is_hex_char;
use crate::encoding::lemma_hex_shape;
use crate::encoding::lemma_decimal_digits;
use crate::encoding::lemma_decimal_len_u64;
use crate::encoding::lemma_utf8_concat;
use crate::encoding::push_decimal;
use crate::encoding::to_hex;
use vstd::prelude::*;
use vstd::string::StringExecFns;
use vstd::utf8::encode_utf8;
use vstd::utf8::is_ascii_chars_encode_utf8;

verus! {

/// The length of a rendered hash in characters.
pub const HASH_LEN: usize = 64;

/// `text` has the shape of a rendered hash: 64 characters, each a digit or a
/// lower-case letter from `a` to `f`.
pub open spec fn is_hash_text(text: Seq<char>) -> bool {
    &&& text.len() == HASH_LEN
    &&& forall|i: int| 0 <= i < text.len() ==> is_hex_char(#[trigger] text[i])
}

/// The most digits that the decimal rendering of a 64-bit number takes.
pub const MAX_DIGITS: u64 = 20;

/// A block template: the fields that the ledger assigns to the next block.
#[derive(Debug)]
#[allow(non_snake_case)]
pub struct BlockInfo {
    /// Position in the chain.
    pub index: u64,
    /// Hex-encoded hash of the preceding block.
    pub previousHash: String,
    /// Payload of the block.
    pub data: String,
    /// Number of leading `'0'` characters that the block's hash must have.
    pub difficulty: u64,
}

/// A block under work: a template with a timestamp, a nonce and a hash.
#[derive(Debug)]
#[allow(non_snake_case)]
pub struct Block {
    /// Position in the chain.
    pub index: u64,
    /// Hex-encoded hash of the preceding block.
    pub previousHash: String,
    /// Seconds since the epoch at which the block was made.
    pub timestamp: u64,
    /// Payload of the block.
    pub data: String,
    /// Number of leading `'0'` characters that the block's hash must have.
    pub difficulty: u64,
    /// The number that the search varies.
    pub nonce: u64,
    /// Hex-encoded digest of the block; empty until the block is mined.
    pub hash: String,
}

/// The mathematical content of a [`BlockInfo`].
pub struct BlockInfoView {
    pub index: nat,
    pub previous_hash: Seq<char>,
    pub data: Seq<char>,
    pub difficulty: nat,
}

/// The mathematical content of a [`Block`].
pub struct BlockView {
    pub index: nat,
    pub previous_hash: Seq<char>,
    pub timestamp: nat,
    pub data: Seq<char>,
    pub difficulty: nat,
    pub nonce: nat,
    pub hash: Seq<char>,
}

impl View for BlockInfo {
    type V = BlockInfoView;

    open spec fn view(&self) -> BlockInfoView {
        BlockInfoView {
            index: self.index as nat,
            previous_hash: self.previousHash@,
            data: self.data@,
            difficulty: self.difficulty as nat,
        }
    }
}

impl View for Block {
    type V = BlockView;

    open spec fn view(&self) -> BlockView {
        BlockView {
            index: self.index as nat,
            previous_hash: self.previousHash@,
            timestamp: self.timestamp as nat,
            data: self.data@,
            difficulty: self.difficulty as nat,
            nonce: self.nonce as nat,
            hash: self.hash@,
        }
    }
}

impl Clone for BlockInfo {
    fn clone(&self) -> (copy: BlockInfo)
        ensures
            copy@ == self@,
    {
        BlockInfo {
            index: self.index,
            previousHash: self.previousHash.clone(),
            data: self.data.clone(),
            difficulty: self.difficulty,
        }
    }
}

impl Clone for Block {
    fn clone(&self) -> (copy: Block)
        ensures
            copy@ == self@,
    {
        Block {
            index: self.index,
            previousHash: self.previousHash.clone(),
            timestamp: self.timestamp,
            data: self.data.clone(),
            difficulty: self.difficulty,
            nonce: self.nonce,
            hash: self.hash.clone(),
        }
    }
}

impl BlockInfoView {
    /// The template with `marker` appended to its data.
    pub open spec fn with_marker(self, marker: Seq<char>) -> BlockInfoView {
        BlockInfoView { data: self.data + marker, ..self }
    }

    /// The digest accepts the canonical bytes of any block that is made from
    /// this template and given `marker`, whatever its timestamp and nonce.
    pub open spec fn mineable(self, marker: Seq<char>) -> bool {
        encode_utf8(decimal(self.index)).len() + encode_utf8(self.previous_hash).len()
            + MAX_DIGITS + encode_utf8(self.data + marker).len() + MAX_DIGITS
            <= MAX_DIGEST_INPUT
    }

    /// The fresh block made from this template at `timestamp`: the template's
    /// fields, nonce zero, and no hash yet.
    pub open spec fn block_at(self, timestamp: nat) -> BlockView {
        BlockView {
            index: self.index,
            previous_hash: self.previous_hash,
            timestamp,
            data: self.data,
            difficulty: self.difficulty,
            nonce: 0,
            hash: Seq::empty(),
        }
    }
}

impl BlockView {
    /// The part of the canonical text that the search leaves alone: index,
    /// previous hash, timestamp and data, in this order and with nothing
    /// between them.
    pub open spec fn stem(self) -> Seq<char> {
        decimal(self.index) + self.previous_hash + decimal(self.timestamp) + self.data
    }

    /// The canonical text of the block: the stem, then the nonce in decimal.
    pub open spec fn canonical_text(self) -> Seq<char> {
        self.stem() + decimal(self.nonce)
    }

    /// The bytes that are hashed: the canonical text in UTF-8.
    pub open spec fn canonical_bytes(self) -> Seq<u8> {
        encode_utf8(self.canonical_text())
    }

    /// The hash that belongs to the block's present contents: the SHA-256
    /// digest of the canonical bytes in lowercase hexadecimal. The fields
    /// `difficulty` and `hash` have no part in it.
    pub open spec fn computed_hash(self) -> Seq<char> {
        hex(sha256(self.canonical_bytes()))
    }

    /// The digest accepts the block's canonical bytes.
    pub open spec fn hashable(self) -> bool {
        self.canonical_bytes().len() <= MAX_DIGEST_INPUT
    }

    /// The digest accepts the block's canonical bytes whatever 64-bit nonce
    /// the block is given.
    pub open spec fn searchable(self) -> bool {
        encode_utf8(self.stem()).len() + MAX_DIGITS <= MAX_DIGEST_INPUT
    }

    /// The block with another nonce.
    pub open spec fn with_nonce(self, nonce: nat) -> BlockView {
        BlockView { nonce, ..self }
    }

    /// The block with `marker` appended to its data.
    pub open spec fn with_marker(self, marker: Seq<char>) -> BlockView {
        BlockView { data: self.data + marker, ..self }
    }

    /// The block with another recorded hash.
    pub open spec fn with_hash(self, hash: Seq<char>) -> BlockView {
        BlockView { hash, ..self }
    }

    /// With `nonce`, the block's hash meets `difficulty`.
    pub open spec fn wins(self, difficulty: nat, nonce: nat) -> bool {
        has_zero_prefix(self.with_nonce(nonce).computed_hash(), difficulty)
    }

    /// `nonce` is the least nonce, not below `from`, with which the block's
    /// hash meets `difficulty`.
    pub open spec fn first_win(self, difficulty: nat, from: nat, nonce: nat) -> bool {
        &&& from <= nonce
        &&& self.wins(difficulty, nonce)
        &&& forall|lower: nat| from <= lower < nonce ==> !self.wins(difficulty, lower)
    }

    /// No 64-bit nonce from `from` on makes the block's hash meet `difficulty`.
    pub open spec fn no_win(self, difficulty: nat, from: nat) -> bool {
        forall|nonce: nat| from <= nonce <= u64::MAX ==> !self.wins(difficulty, nonce)
    }

    /// The recorded hash is the hash of the block's present contents.
    pub open spec fn hash_is_current(self) -> bool {
        self.hash == self.computed_hash()
    }

    /// The block is mined for `difficulty`: its recorded hash is current and
    /// begins with at least `difficulty` characters `'0'`.
    pub open spec fn mined_for(self, difficulty: nat) -> bool {
        &&& self.hash_is_current()
        &&& has_zero_prefix(self.hash, difficulty)
    }

    /// The state in which a search leaves the block: of all fields only the
    /// nonce and the recorded hash may differ from `self`, and the recorded
    /// hash is the hash of the contents.
    pub open spec fn searched_to(self, after: BlockView) -> bool {
        &&& after == self.with_nonce(after.nonce).with_hash(after.hash)
        &&& after.hash_is_current()
    }

    /// The template-shaped projection of the block: timestamp, nonce and hash
    /// are dropped.
    pub open spec fn template(self) -> BlockInfoView {
        BlockInfoView {
            index: self.index,
            previous_hash: self.previous_hash,
            data: self.data,
            difficulty: self.difficulty,
        }
    }
}

/// A block with room for any nonce has room for each 64-bit nonce.
pub proof fn lemma_searchable_hashable(block: BlockView, nonce: u64)
    requires
        block.searchable(),
    ensures
        block.with_nonce(nonce as nat).hashable(),
{
    let digits = decimal(nonce as nat);
    lemma_utf8_concat(block.stem(), digits);
    lemma_decimal_digits(nonce as nat);
    lemma_decimal_len_u64(nonce);
    is_ascii_chars_encode_utf8(digits);
    assert(block.with_nonce(nonce as nat).stem() == block.stem());
}

/// The hash is a function of index, previous hash, timestamp, data and nonce
/// alone: blocks that agree on these five have the same hash, whatever their
/// difficulty and recorded hash.
pub proof fn lemma_hash_deterministic(a: BlockView, b: BlockView)
    requires
        a.index == b.index,
        a.previous_hash == b.previous_hash,
        a.timestamp == b.timestamp,
        a.data == b.data,
        a.nonce == b.nonce,
    ensures
        a.computed_hash() == b.computed_hash(),
{
}

/// A search that ends at a first winning nonce leaves a mined block: the
/// recorded hash is the hash of the contents and meets the difficulty.
pub proof fn lemma_first_win_is_mined(
    before: BlockView,
    after: BlockView,
    difficulty: nat,
    from: nat,
)
    requires
        before.searched_to(after),
        before.first_win(difficulty, from, after.nonce),
    ensures
        after.mined_for(difficulty),
        has_zero_prefix(after.hash, difficulty),
{
    assert(after.computed_hash() == before.with_nonce(after.nonce).computed_hash());
}

/// There is one first winning nonce at most, and no nonce between the start
/// and it wins.
pub proof fn lemma_first_win_unique(
    block: BlockView,
    difficulty: nat,
    from: nat,
    one: nat,
    other: nat,
)
    requires
        block.first_win(difficulty, from, one),
        block.first_win(difficulty, from, other),
    ensures
        one == other,
{
    if one < other {
        assert(!block.wins(difficulty, one));
    } else if other < one {
        assert(!block.wins(difficulty, other));
    }
}

/// With difficulty zero every nonce wins, so the first winning nonce is the
/// one at which the search starts.
pub proof fn lemma_zero_difficulty(block: BlockView, from: nat, nonce: nat)
    ensures
        block.wins(0, nonce),
        block.first_win(0, from, nonce) <==> nonce == from,
{
    if block.first_win(0, from, nonce) && from < nonce {
        assert(block.wins(0, from));
    }
}

/// Mining appends the marker to the data once and changes nothing else of
/// the template's fields, however many nonces the search went through.
pub proof fn lemma_marker_appended_once(before: BlockView, marker: Seq<char>, after: BlockView)
    requires
        before.with_marker(marker).searched_to(after),
    ensures
        after.data == before.data + marker,
        after.index == before.index,
        after.previous_hash == before.previous_hash,
        after.timestamp == before.timestamp,
        after.difficulty == before.difficulty,
{
}

/// A fresh block projects back to the template it was made from.
pub proof fn lemma_projection_round_trip(template: BlockInfoView, timestamp: nat)
    ensures
        template.block_at(timestamp).template() == template,
{
}

/// A block made from a template and then mined projects back to the
/// template with the marker appended to its data once: index, previous hash
/// and difficulty are the template's own.
pub proof fn lemma_mined_projection(
    template: BlockInfoView,
    timestamp: nat,
    marker: Seq<char>,
    after: BlockView,
)
    requires
        template.block_at(timestamp).with_marker(marker).searched_to(after),
    ensures
        after.template() == template.with_marker(marker),
        after.template().index == template.index,
        after.template().previous_hash == template.previous_hash,
        after.template().difficulty == template.difficulty,
        after.template().data == template.data + marker,
{
}

/// The length of the stem in bytes is the sum of the lengths of its parts.
pub proof fn lemma_stem_len(block: BlockView)
    ensures
        encode_utf8(block.stem()).len() == encode_utf8(decimal(block.index)).len() + encode_utf8(
            block.previous_hash,
        ).len() + encode_utf8(decimal(block.timestamp)).len() + encode_utf8(block.data).len(),
        block.canonical_bytes().len() == encode_utf8(block.stem()).len() + encode_utf8(
            decimal(block.nonce),
        ).len(),
{
    let a = decimal(block.index);
    let b = block.previous_hash;
    let c = decimal(block.timestamp);
    let d = block.data;
    lemma_utf8_concat(a, b);
    lemma_utf8_concat(a + b, c);
    lemma_utf8_concat(a + b + c, d);
    lemma_utf8_concat(block.stem(), decimal(block.nonce));
}

/// A template that is mineable with a marker gives, at any 64-bit timestamp,
/// a block that is searchable once it holds the marker.
pub proof fn lemma_mineable_searchable(template: BlockInfoView, marker: Seq<char>, timestamp: u64)
    requires
        template.mineable(marker),
    ensures
        template.block_at(timestamp as nat).with_marker(marker).searchable(),
{
    let block = template.block_at(timestamp as nat).with_marker(marker);
    lemma_stem_len(block);
    lemma_decimal_digits(timestamp as nat);
    lemma_decimal_len_u64(timestamp);
    is_ascii_chars_encode_utf8(decimal(timestamp as nat));
}

/// Why mining ended without a mined block. Either is fatal to the miner.
#[derive(Debug, Clone, Copy, PartialEq, Eq, Structural)]
pub enum MinerError {
    /// The system clock gave no time at or after the Unix epoch.
    ClockUnavailable,
    /// Every nonce up to the largest 64-bit number was tried and none met the
    /// difficulty.
    NonceExhausted,
}

/// The length of `text` in UTF-8 bytes.
fn byte_len(text: &str) -> (len: u128)
    ensures
        len == encode_utf8(text@).len(),
        len <= usize::MAX,
{
    text.as_bytes().len() as u128
}

impl BlockInfo {
    /// Tells whether the template is mineable with `public_key`.
    pub fn can_mine(&self, public_key: &str) -> (fits: bool)
        ensures
            fits == self@.mineable(public_key@),
    {
        proof {
            lemma_utf8_concat(self.data@, public_key@);
        }
        let len: u128 = decimal_len(self.index) as u128 + byte_len(self.previousHash.as_str())
            + MAX_DIGITS as u128 + byte_len(self.data.as_str()) + byte_len(public_key)
            + MAX_DIGITS as u128;
        len <= MAX_DIGEST_INPUT as u128
    }
}

/// Appends the UTF-8 bytes of `text` to `out`.
fn push_text(out: &mut Vec<u8>, text: &str)
    ensures
        final(out)@ == old(out)@ + encode_utf8(text@),
{
    out.extend_from_slice(text.as_bytes());
    assert(out@ =~= old(out)@ + encode_utf8(text@));
}

impl Block {
    /// Makes the fresh block of `block_info` with the given timestamp.
    pub fn with_timestamp(block_info: BlockInfo, timestamp: u64) -> (block: Block)
        ensures
            block@ == block_info@.block_at(timestamp as nat),
    {
        Block {
            index: block_info.index,
            previousHash: block_info.previousHash,
            timestamp,
            data: block_info.data,
            difficulty: block_info.difficulty,
            nonce: 0,
            hash: String::new(),
        }
    }

    /// Makes the fresh block of `block_info` from a reading of the clock in
    /// seconds since the Unix epoch. Fails exactly when there is no reading.
    pub fn from_reading(block_info: BlockInfo, reading: Option<u64>) -> (made: Result<
        Block,
        MinerError,
    >)
        ensures
            match reading {
                Some(timestamp) => made matches Ok(block) && block@ == block_info@.block_at(
                    timestamp as nat,
                ),
                None => made matches Err(error) && error == MinerError::ClockUnavailable,
            },
    {
        match reading {
            Some(timestamp) => Ok(Block::with_timestamp(block_info, timestamp)),
            None => Err(MinerError::ClockUnavailable),
        }
    }

    /// Makes the fresh block of `block_info`, stamped with the present time
    /// of the system clock in seconds since the Unix epoch. Fails only when
    /// the clock cannot be read.
    pub fn from_block_info(block_info: BlockInfo) -> (made: Result<Block, MinerError>)
        ensures
            match made {
                Ok(block) => block@ == block_info@.block_at(block@.timestamp),
                Err(error) => error == MinerError::ClockUnavailable,
            },
    {
        Block::from_reading(block_info, unix_seconds())
    }

    /// The length in bytes of the part of the canonical text that a search
    /// leaves alone.
    fn stem_len(&self) -> (len: u128)
        ensures
            len == encode_utf8(self@.stem()).len(),
            len <= 2 * usize::MAX + 2 * MAX_DIGITS,
    {
        proof {
            lemma_stem_len(self@);
        }
        decimal_len(self.index) as u128 + byte_len(self.previousHash.as_str()) + decimal_len(
            self.timestamp,
        ) as u128 + byte_len(self.data.as_str())
    }

    /// Tells whether the digest accepts the block's canonical bytes, as
    /// [`Block::calculate_hash`] needs it.
    pub fn is_hashable(&self) -> (fits: bool)
        ensures
            fits == self@.hashable(),
    {
        proof {
            lemma_stem_len(self@);
        }
        self.stem_len() + decimal_len(self.nonce) as u128 <= MAX_DIGEST_INPUT as u128
    }

    /// Tells whether the digest accepts the block's canonical bytes with any
    /// nonce, as [`Block::search`] needs it.
    pub fn is_searchable(&self) -> (fits: bool)
        ensures
            fits == self@.searchable(),
    {
        self.stem_len() + MAX_DIGITS as u128 <= MAX_DIGEST_INPUT as u128
    }

    /// Tells whether the block, once it holds `public_key`, is searchable, as
    /// [`Block::mine`] needs it.
    pub fn can_mine(&self, public_key: &str) -> (fits: bool)
        ensures
            fits == self@.with_marker(public_key@).searchable(),
    {
        proof {
            lemma_stem_len(self@);
            lemma_stem_len(self@.with_marker(public_key@));
            lemma_utf8_concat(self.data@, public_key@);
        }
        self.stem_len() + byte_len(public_key) + MAX_DIGITS as u128 <= MAX_DIGEST_INPUT as u128
    }

    /// Computes the hash of the block's present contents. The recorded hash
    /// is neither read nor changed.
    pub fn calculate_hash(&self) -> (hash: String)
        requires
            self@.hashable(),
        ensures
            hash@ == self@.computed_hash(),
            is_hash_text(hash@),
    {
        let mut input: Vec<u8> = Vec::new();
        push_decimal(&mut input, self.index);
        push_text(&mut input, self.previousHash.as_str());
        push_decimal(&mut input, self.timestamp);
        push_text(&mut input, self.data.as_str());
        push_decimal(&mut input, self.nonce);
        proof {
            let a = decimal(self.index as nat);
            let b = self.previousHash@;
            let c = decimal(self.timestamp as nat);
            let d = self.data@;
            let e = decimal(self.nonce as nat);
            lemma_utf8_concat(a, b);
            lemma_utf8_concat(a + b, c);
            lemma_utf8_concat(a + b + c, d);
            lemma_utf8_concat(a + b + c + d, e);
            assert(input@ =~= self@.canonical_bytes());
        }
        let digest: Vec<u8> = sha256_digest(input.as_slice());
        proof {
            lemma_hex_shape(digest@);
        }
        to_hex(digest.as_slice())
    }

    /// Searches for a nonce with which the block's hash meets `difficulty`,
    /// trying the present nonce first and then each next one in turn. Each
    /// hash tried is recorded in the block. The search stops at the first
    /// nonce that wins, or fails once the largest 64-bit nonce has lost.
    pub fn search(&mut self, difficulty: u64) -> (found: Result<(), MinerError>)
        requires
            old(self)@.searchable(),
        ensures
            old(self)@.searched_to(final(self)@),
            match found {
                Ok(()) => {
                    &&& old(self)@.first_win(
                        difficulty as nat,
                        old(self)@.nonce,
                        final(self)@.nonce,
                    )
                    &&& final(self)@.mined_for(difficulty as nat)
                },
                Err(error) => {
                    &&& error == MinerError::NonceExhausted
                    &&& old(self)@.no_win(difficulty as nat, old(self)@.nonce)
                    &&& final(self).nonce == u64::MAX
                },
            },
            difficulty == 0 ==> found is Ok && final(self).nonce == old(self).nonce,
            difficulty > HASH_LEN ==> found is Err,
            is_hash_text(final(self).hash@),
    {
        loop
            invariant
                old(self)@.searchable(),
                self@ == old(self)@.with_nonce(self@.nonce).with_hash(self@.hash),
                old(self).nonce <= self.nonce,
                difficulty == 0 ==> self.nonce == old(self).nonce,
                forall|lower: nat|
                    old(self)@.nonce <= lower < self@.nonce ==> !old(self)@.wins(
                        difficulty as nat,
                        lower,
                    ),
            decreases u64::MAX - self.nonce,
        {
            proof {
                lemma_searchable_hashable(old(self)@, self.nonce);
                assert(self@.canonical_text() == old(self)@.with_nonce(
                    self@.nonce,
                ).canonical_text());
            }
            self.hash = self.calculate_hash();
            if meets_difficulty(self.hash.as_str(), difficulty) {
                return Ok(());
            }
            if self.nonce == u64::MAX {
                return Err(MinerError::NonceExhausted);
            }
            self.nonce = self.nonce + 1;
        }
    }

    /// Mines the block: appends `public_key` to the data once, then searches
    /// from nonce zero upwards for the first nonce with which the block's
    /// hash meets `difficulty`, and leaves that nonce and its hash in the
    /// block.
    pub fn mine(&mut self, difficulty: u64, public_key: &str) -> (found: Result<(), MinerError>)
        requires
            old(self)@.with_marker(public_key@).searchable(),
        ensures
            old(self)@.with_marker(public_key@).searched_to(final(self)@),
            match found {
                Ok(()) => {
                    &&& old(self)@.with_marker(public_key@).first_win(
                        difficulty as nat,
                        0,
                        final(self)@.nonce,
                    )
                    &&& final(self)@.mined_for(difficulty as nat)
                },
                Err(error) => {
                    &&& error == MinerError::NonceExhausted
                    &&& old(self)@.with_marker(public_key@).no_win(difficulty as nat, 0)
                    &&& final(self).nonce == u64::MAX
                },
            },
            difficulty == 0 ==> found is Ok && final(self).nonce == 0,
            difficulty > HASH_LEN ==> found is Err,
            is_hash_text(final(self).hash@),
    {
        let ghost marked: BlockView = old(self)@.with_marker(public_key@);
        self.data.append(public_key);
        self.nonce = 0;
        let ghost start: BlockView = self@;
        let found = self.search(difficulty);
        proof {
            assert(start == marked.with_nonce(0));
            assert forall|nonce: nat|
                start.wins(difficulty as nat, nonce) == marked.wins(
                    difficulty as nat,
                    nonce,
                ) by {
                assert(start.with_nonce(nonce) == marked.with_nonce(nonce));
            }
            assert(self@ == marked.with_nonce(self@.nonce).with_hash(
                self@.hash,
            ));
            if difficulty == 0 {
                assert(start.wins(0, 0));
            }
        }
        found
    }

    /// The template-shaped projection of the block, as it is sent back to the
    /// ledger: timestamp, nonce and hash are dropped.
    pub fn to_dict(&self) -> (info: BlockInfo)
        ensures
            info@ == self@.template(),
    {
        BlockInfo {
            index: self.index,
            previousHash: self.previousHash.clone(),
            data: self.data.clone(),
            difficulty: self.difficulty,
        }
    }
}

} // verus!
