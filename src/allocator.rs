use vstd::prelude::*;
use rand::rngs::ThreadRng;
use crate::error::Error;
use crate::ledger::{reserve, LedgerModel};
use crate::secret::{all_alphanumeric, get_random_text, hash_password, is_digest_of, lemma_digest_differs_from_alphanumeric};
use crate::text::{joined, owned, push_char};

verus! {

/// Length of the random stem of a public file name.
pub const STEM_LENGTH: usize = 8;

/// Length of a deletion secret.
pub const SECRET_LENGTH: usize = 24;

/// Number of reservation attempts after which allocation gives up.
pub const MAX_ATTEMPTS: u32 = 256;

/// The public file name of a stem and an extension: `stem` alone, or `stem.extension`.
pub open spec fn filename_of(stem: Seq<char>, extension: Seq<char>) -> Seq<char> {
    if extension.len() == 0 {
        stem
    } else {
        stem + seq!['.'] + extension
    }
}

/// Builds the public file name of a stem and an extension.
pub fn compose_filename(stem: &str, extension: &str) -> (r: String)
    ensures
        r@ == filename_of(stem@, extension@),
{
    if extension.unicode_len() == 0 {
        owned(stem)
    } else {
        let mut s = owned(stem);
        push_char(&mut s, '.');
        let r = joined(s.as_str(), extension);
        assert(r@ =~= stem@ + seq!['.'] + extension@);
        r
    }
}

/// One attempt's identifier: a random stem and deletion secret, the file name
/// they give with the extension, and the digest of the secret.
pub struct Candidate {
    pub stem: String,
    pub extension: String,
    pub filename: String,
    pub secret: String,
    pub secret_hash: String,
}

impl Candidate {
    /// The candidate is well formed for `extension`.
    pub open spec fn wf(&self, extension: Seq<char>) -> bool {
        &&& self.stem@.len() == STEM_LENGTH
        &&& all_alphanumeric(self.stem@)
        &&& self.secret@.len() == SECRET_LENGTH
        &&& all_alphanumeric(self.secret@)
        &&& self.extension@ == extension
        &&& self.filename@ == filename_of(self.stem@, extension)
        &&& is_digest_of(self.secret_hash@, self.secret@)
        &&& self.secret_hash@ != self.secret@
    }

    /// The ledger key that the candidate reserves.
    pub open spec fn key(&self) -> (Seq<char>, Seq<char>) {
        (self.stem@, self.extension@)
    }
}

/// Draws a fresh candidate for `extension`: an 8-character stem, a
/// 24-character secret and its digest, which differs from the secret.
pub fn draw_candidate(rng: &mut ThreadRng, extension: &str) -> (r: Candidate)
    ensures
        r.wf(extension@),
{
    let stem = get_random_text(rng, STEM_LENGTH);
    let secret = get_random_text(rng, SECRET_LENGTH);
    let secret_hash = hash_password(rng, secret.as_str());
    proof {
        lemma_digest_differs_from_alphanumeric(secret_hash@, secret@);
    }
    let filename = compose_filename(stem.as_str(), extension);
    Candidate { stem, extension: owned(extension), filename, secret, secret_hash }
}

/// What the allocator does after a reservation attempt.
#[derive(Debug, Clone, Copy, PartialEq, Eq, Structural)]
pub enum AllocationStep {
    /// The key is reserved and no file is in the way: write the upload.
    Accept,
    /// The store held the key already: try a fresh candidate.
    Retry,
    /// The key was reserved but a file already has that name: release the
    /// key and try a fresh candidate.
    ReleaseAndRetry,
    /// The store held the key and attempts are spent: fail with an internal error.
    GiveUp,
    /// The key was reserved over an existing file and attempts are spent:
    /// release the key and fail with an internal error.
    ReleaseAndGiveUp,
}

/// The step after attempt number `attempt` (counted from 1): whether the
/// reservation won, and, where it did, whether a file of that name already
/// exists on disk.
pub open spec fn allocation_step(attempt: nat, reserved: bool, on_disk: bool) -> AllocationStep {
    let spent = attempt >= MAX_ATTEMPTS;
    if reserved && !on_disk {
        AllocationStep::Accept
    } else if reserved {
        if spent { AllocationStep::ReleaseAndGiveUp } else { AllocationStep::ReleaseAndRetry }
    } else {
        if spent { AllocationStep::GiveUp } else { AllocationStep::Retry }
    }
}

/// Decides the step after a reservation attempt. `on_disk` is read only where
/// the reservation won.
pub fn next_allocation_step(attempt: u32, reserved: bool, on_disk: bool) -> (r: AllocationStep)
    ensures
        r == allocation_step(attempt as nat, reserved, on_disk),
{
    let spent = attempt >= MAX_ATTEMPTS;
    if reserved && !on_disk {
        AllocationStep::Accept
    } else if reserved {
        if spent { AllocationStep::ReleaseAndGiveUp } else { AllocationStep::ReleaseAndRetry }
    } else {
        if spent { AllocationStep::GiveUp } else { AllocationStep::Retry }
    }
}

impl AllocationStep {
    /// The step releases the key it has just reserved.
    pub fn releases(&self) -> (r: bool)
        ensures
            r == (*self == AllocationStep::ReleaseAndRetry || *self == AllocationStep::ReleaseAndGiveUp),
    {
        match self {
            AllocationStep::ReleaseAndRetry | AllocationStep::ReleaseAndGiveUp => true,
            _ => false,
        }
    }

    /// The step ends allocation; an accepted identifier or an internal error.
    pub fn outcome(&self) -> (r: Option<Result<(), Error>>)
        ensures
            r == match *self {
                AllocationStep::Accept => Some(Ok(())),
                AllocationStep::GiveUp | AllocationStep::ReleaseAndGiveUp => Some(Err(Error::INTERNAL_SERVER_ERROR)),
                _ => None::<Result<(), Error>>,
            },
    {
        match self {
            AllocationStep::Accept => Some(Ok(())),
            AllocationStep::GiveUp | AllocationStep::ReleaseAndGiveUp => Some(Err(Error::INTERNAL_SERVER_ERROR)),
            _ => None,
        }
    }
}

/// Allocation never accepts a key that the ledger holds: the reservation
/// loses, so the step is a retry or a give-up. An accepted key is one the
/// ledger did not hold and holds afterwards.
pub proof fn lemma_accepts_only_free_keys(
    l: LedgerModel,
    key: (Seq<char>, Seq<char>),
    digest: Seq<char>,
    attempt: nat,
    on_disk: bool,
)
    ensures
        l.contains_key(key) ==> allocation_step(attempt, reserve(l, key, digest).0, on_disk) != AllocationStep::Accept,
        allocation_step(attempt, reserve(l, key, digest).0, on_disk) == AllocationStep::Accept ==> {
            &&& !l.contains_key(key)
            &&& reserve(l, key, digest).1.contains_key(key)
        },
{
}

/// Two allocations that draw the same free stem, reserved in the order the
/// store serialises them: the first is accepted; the second loses and, short
/// of the attempt ceiling, retries; its retry with another free key and no
/// file in the way is accepted. Never two acceptances of one key, never two
/// failures.
pub proof fn lemma_concurrent_allocations(
    l: LedgerModel,
    key: (Seq<char>, Seq<char>),
    first: Seq<char>,
    second: Seq<char>,
    retry_key: (Seq<char>, Seq<char>),
    attempt: nat,
)
    requires
        !l.contains_key(key),
        !l.contains_key(retry_key),
        retry_key != key,
        attempt + 1 < MAX_ATTEMPTS,
    ensures
        ({
            let a = reserve(l, key, first);
            let b = reserve(a.1, key, second);
            let c = reserve(b.1, retry_key, second);
            &&& allocation_step(attempt, a.0, false) == AllocationStep::Accept
            &&& allocation_step(attempt, b.0, false) == AllocationStep::Retry
            &&& allocation_step(attempt + 1, c.0, false) == AllocationStep::Accept
            &&& c.1.contains_key(key) && c.1.contains_key(retry_key)
        }),
{
}

/// Allocation stops within `MAX_ATTEMPTS` attempts: from that attempt on every
/// step ends it.
pub proof fn lemma_allocation_bounded(attempt: nat, reserved: bool, on_disk: bool)
    requires
        attempt >= MAX_ATTEMPTS,
    ensures
        allocation_step(attempt, reserved, on_disk) != AllocationStep::Retry,
        allocation_step(attempt, reserved, on_disk) != AllocationStep::ReleaseAndRetry,
{
}

} // verus!
