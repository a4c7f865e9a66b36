//! Where a record lives: an address derived from the record's kind and key.
//!
//! A key is first laid out as a list of byte strings, its seeds. The address
//! is then a digest of the seeds, taken one after the other, and of the
//! program's id. Two keys can only share an address if the digest collides
//! or if their seeds, joined, are the same bytes; the latter is ruled out
//! here.

use vstd::prelude::*;
use vstd::bytes::{spec_u64_to_le_bytes, u64_to_le_bytes, lemma_auto_spec_u64_to_from_le_bytes};
use anchor_lang::prelude::Pubkey;

verus! {

/// The kind of a record together with the key that tells it from the others
/// of its kind.
#[derive(Clone, Copy, Debug)]
pub enum RecordKey {
    Counter,
    Registrations,
    Poll { id: u64 },
    Candidate { poll_id: u64, cid: u64 },
    Voter { poll_id: u64, user: [u8; 32] },
}

/// The bytes of the text `counter`.
pub open spec fn counter_tag() -> Seq<u8> {
    seq![99u8, 111u8, 117u8, 110u8, 116u8, 101u8, 114u8]
}

/// The bytes of the text `registrations`.
pub open spec fn registrations_tag() -> Seq<u8> {
    seq![
        114u8, 101u8, 103u8, 105u8, 115u8, 116u8, 114u8, 97u8, 116u8, 105u8, 111u8, 110u8, 115u8,
    ]
}

/// The bytes of the text `voter`.
pub open spec fn voter_tag() -> Seq<u8> {
    seq![118u8, 111u8, 116u8, 101u8, 114u8]
}

impl RecordKey {
    /// The seeds of a key: a tag for the two sequencers, the id for a poll,
    /// the poll's id and the candidate's for a candidate, and a tag, the
    /// poll's id and the caller's identity for a voter. Numbers are written
    /// as eight bytes, lowest first.
    pub open spec fn seeds(self) -> Seq<Seq<u8>> {
        match self {
            RecordKey::Counter => seq![counter_tag()],
            RecordKey::Registrations => seq![registrations_tag()],
            RecordKey::Poll { id } => seq![spec_u64_to_le_bytes(id)],
            RecordKey::Candidate { poll_id, cid } => seq![
                spec_u64_to_le_bytes(poll_id),
                spec_u64_to_le_bytes(cid),
            ],
            RecordKey::Voter { poll_id, user } => seq![
                voter_tag(),
                spec_u64_to_le_bytes(poll_id),
                user@,
            ],
        }
    }

    /// The seeds joined into one byte string, which is what the digest sees
    /// of them.
    pub open spec fn joined(self) -> Seq<u8> {
        match self {
            RecordKey::Counter => counter_tag(),
            RecordKey::Registrations => registrations_tag(),
            RecordKey::Poll { id } => spec_u64_to_le_bytes(id),
            RecordKey::Candidate { poll_id, cid } => spec_u64_to_le_bytes(poll_id)
                + spec_u64_to_le_bytes(cid),
            RecordKey::Voter { poll_id, user } => voter_tag() + spec_u64_to_le_bytes(poll_id)
                + user@,
        }
    }

    /// The address of the record with this key under a program, if the
    /// derivation finds one.
    pub open spec fn address(self, program_id: [u8; 32]) -> Option<Seq<u8>> {
        match program_address(self.seeds(), program_id@) {
            Some(found) => Some(found.0),
            None => None,
        }
    }

    /// Lays the key out as seeds.
    pub fn to_seeds(&self) -> (seeds: Vec<Vec<u8>>)
        ensures
            seeds.deep_view() == self.seeds(),
    {
        let mut seeds: Vec<Vec<u8>> = Vec::new();
        match self {
            RecordKey::Counter => {
                seeds.push(vec![99u8, 111u8, 117u8, 110u8, 116u8, 101u8, 114u8]);
            },
            RecordKey::Registrations => {
                seeds.push(
                    vec![
                        114u8, 101u8, 103u8, 105u8, 115u8, 116u8, 114u8, 97u8, 116u8, 105u8, 111u8,
                        110u8, 115u8,
                    ],
                );
            },
            RecordKey::Poll { id } => {
                seeds.push(u64_to_le_bytes(*id));
            },
            RecordKey::Candidate { poll_id, cid } => {
                seeds.push(u64_to_le_bytes(*poll_id));
                seeds.push(u64_to_le_bytes(*cid));
            },
            RecordKey::Voter { poll_id, user } => {
                seeds.push(vec![118u8, 111u8, 116u8, 101u8, 114u8]);
                seeds.push(u64_to_le_bytes(*poll_id));
                seeds.push(identity_bytes(user));
            },
        }
        assert(seeds.deep_view() =~~= self.seeds());
        seeds
    }

    /// Derives the address of the record with this key. The result is the
    /// same for the same key and program, whoever computes it.
    pub fn derive(&self, program_id: &[u8; 32]) -> (address: Option<[u8; 32]>)
        ensures
            match address {
                Some(bytes) => self.address(*program_id) == Some(bytes@),
                None => self.address(*program_id) is None,
            },
    {
        let seeds = self.to_seeds();
        match find_program_address(&seeds, program_id) {
            Some(found) => Some(found.0),
            None => None,
        }
    }
}

/// The address and bump seed that the derivation gives for a list of seeds
/// under a program, or `None` where it finds none.
pub uninterp spec fn program_address(seeds: Seq<Seq<u8>>, program_id: Seq<u8>) -> Option<
    (Seq<u8>, u8),
>;

/// `Pubkey::try_find_program_address` of anchor_lang's prelude. It digests
/// the seeds, a bump seed and the program's id, and depends on nothing else:
/// the contract gives its result a name and claims no more of it.
#[verifier::external_body]
fn find_program_address(seeds: &Vec<Vec<u8>>, program_id: &[u8; 32]) -> (found: Option<
    ([u8; 32], u8),
>)
    ensures
        match found {
            Some(pair) => program_address(seeds.deep_view(), program_id@) == Some(
                (pair.0@, pair.1),
            ),
            None => program_address(seeds.deep_view(), program_id@) is None,
        },
{
    let parts: Vec<&[u8]> = seeds.iter().map(|seed| seed.as_slice()).collect();
    match Pubkey::try_find_program_address(&parts, &Pubkey::new_from_array(*program_id)) {
        Some((address, bump)) => Some((address.to_bytes(), bump)),
        None => None,
    }
}

/// Copies an identity into a byte string.
fn identity_bytes(user: &[u8; 32]) -> (bytes: Vec<u8>)
    ensures
        bytes@ == user@,
{
    let mut bytes: Vec<u8> = Vec::new();
    let mut i: usize = 0;
    while i < 32
        invariant
            i <= 32,
            bytes@ == user@.subrange(0, i as int),
        decreases 32 - i,
    {
        bytes.push(user[i]);
        i += 1;
        assert(bytes@ =~= user@.subrange(0, i as int));
    }
    assert(bytes@ =~= user@);
    bytes
}

/// Whether two addresses are the same bytes.
pub fn same_address(a: &[u8; 32], b: &[u8; 32]) -> (same: bool)
    ensures
        same == (a@ == b@),
{
    let mut i: usize = 0;
    while i < 32
        invariant
            i <= 32,
            forall|k: int| 0 <= k < i ==> a@[k] == b@[k],
        decreases 32 - i,
    {
        if a[i] != b[i] {
            return false;
        }
        i += 1;
    }
    assert(a@ =~= b@);
    true
}

/// Two keys whose seeds join into the same bytes are the same key: no two
/// records, of one kind or of two, are handed to the digest as the same
/// input.
pub proof fn lemma_joined_seeds_tell_keys_apart(a: RecordKey, b: RecordKey)
    requires
        a.joined() == b.joined(),
    ensures
        a == b,
{
    lemma_auto_spec_u64_to_from_le_bytes();
    let n = a.joined().len();
    assert(n == b.joined().len());
    match (a, b) {
        (RecordKey::Poll { id: x }, RecordKey::Poll { id: y }) => {
            assert(spec_u64_to_le_bytes(x) == spec_u64_to_le_bytes(y));
        },
        (
            RecordKey::Candidate { poll_id: p, cid: c },
            RecordKey::Candidate { poll_id: q, cid: d },
        ) => {
            let left = spec_u64_to_le_bytes(p) + spec_u64_to_le_bytes(c);
            let right = spec_u64_to_le_bytes(q) + spec_u64_to_le_bytes(d);
            assert(left.subrange(0, 8) =~= spec_u64_to_le_bytes(p));
            assert(right.subrange(0, 8) =~= spec_u64_to_le_bytes(q));
            assert(left.subrange(8, 16) =~= spec_u64_to_le_bytes(c));
            assert(right.subrange(8, 16) =~= spec_u64_to_le_bytes(d));
        },
        (
            RecordKey::Voter { poll_id: p, user: u },
            RecordKey::Voter { poll_id: q, user: v },
        ) => {
            let left = voter_tag() + spec_u64_to_le_bytes(p) + u@;
            let right = voter_tag() + spec_u64_to_le_bytes(q) + v@;
            assert(left.subrange(5, 13) =~= spec_u64_to_le_bytes(p));
            assert(right.subrange(5, 13) =~= spec_u64_to_le_bytes(q));
            assert(left.subrange(13, 45) =~= u@);
            assert(right.subrange(13, 45) =~= v@);
            assert(u =~= v);
        },
        _ => {},
    }
}

/// Joining the seeds of a key gives the bytes of `joined`.
pub proof fn lemma_joined_is_flattened_seeds(key: RecordKey)
    ensures
        key.seeds().flatten() == key.joined(),
{
    lemma_auto_spec_u64_to_from_le_bytes();
    reveal_with_fuel(Seq::flatten, 4);
    assert(key.seeds().flatten() =~= key.joined());
}

/// Two keys with the same seeds are the same key.
pub proof fn lemma_seeds_tell_keys_apart(a: RecordKey, b: RecordKey)
    requires
        a.seeds() == b.seeds(),
    ensures
        a == b,
{
    lemma_joined_is_flattened_seeds(a);
    lemma_joined_is_flattened_seeds(b);
    lemma_joined_seeds_tell_keys_apart(a, b);
}

} // verus!
