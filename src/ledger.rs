use vstd::prelude::*;
use vstd::string::*;
use crate::error::Error;
use crate::text::same_text;

verus! {

/// The ledger as a map from `(stem, extension)` to the digest of the deletion secret.
pub type LedgerModel = Map<(Seq<char>, Seq<char>), Seq<char>>;

/// An atomic constrained insert: it wins only where the key is free.
/// Gives whether it won and the ledger after it.
pub open spec fn reserve(l: LedgerModel, key: (Seq<char>, Seq<char>), digest: Seq<char>) -> (bool, LedgerModel) {
    if l.contains_key(key) {
        (false, l)
    } else {
        (true, l.insert(key, digest))
    }
}

/// Removing a record; nothing changes where the key is absent.
pub open spec fn release(l: LedgerModel, key: (Seq<char>, Seq<char>)) -> LedgerModel {
    l.remove(key)
}

/// The stored digest of a key, if any.
pub open spec fn lookup(l: LedgerModel, key: (Seq<char>, Seq<char>)) -> Option<Seq<char>> {
    if l.contains_key(key) {
        Some(l[key])
    } else {
        None
    }
}

/// Reservations made one after another, each of a key and a digest: which of
/// them won, and the ledger after the last.
pub open spec fn reserve_in_turn(l: LedgerModel, attempts: Seq<((Seq<char>, Seq<char>), Seq<char>)>) -> (Seq<bool>, LedgerModel)
    decreases attempts.len(),
{
    if attempts.len() == 0 {
        (Seq::empty(), l)
    } else {
        let before = reserve_in_turn(l, attempts.drop_last());
        let step = reserve(before.1, attempts.last().0, attempts.last().1);
        (before.0.push(step.0), step.1)
    }
}

/// How many reservations won.
pub open spec fn wins(won: Seq<bool>) -> nat
    decreases won.len(),
{
    if won.len() == 0 {
        0
    } else {
        wins(won.drop_last()) + if won.last() { 1nat } else { 0nat }
    }
}

/// The code SQLite gives a write that breaks the uniqueness of the primary key.
pub open spec fn is_unique_violation(code: Seq<char>) -> bool {
    code == seq!['1', '5', '5', '5']
}

/// What an insert into the store means for a reservation.
pub open spec fn reservation_meaning(result: Result<(), Option<String>>) -> Result<bool, Error> {
    match result {
        Ok(_) => Ok(true),
        Err(Some(code)) => if is_unique_violation(code@) {
            Ok(false)
        } else {
            Err(Error::INTERNAL_SERVER_ERROR)
        },
        Err(None) => Err(Error::INTERNAL_SERVER_ERROR),
    }
}

/// What an insert into the store means for a reservation: `Ok(true)` where
/// the row was written, `Ok(false)` where the key was already taken, and an
/// internal error for any other failure. `result` carries the store's error
/// code on failure, where it gave one.
pub fn reservation_result(result: Result<(), Option<String>>) -> (r: Result<bool, Error>)
    ensures
        r == reservation_meaning(result),
{
    match result {
        Ok(_) => Ok(true),
        Err(Some(code)) => {
            proof {
                reveal_strlit("1555");
                assert("1555"@ =~= seq!['1', '5', '5', '5']);
            }
            if same_text(code.as_str(), "1555") {
                Ok(false)
            } else {
                Err(Error::INTERNAL_SERVER_ERROR)
            }
        },
        Err(None) => Err(Error::INTERNAL_SERVER_ERROR),
    }
}

/// A key that is taken is never won by a reservation: the attempt loses and
/// the ledger stays as it was.
pub proof fn lemma_taken_key_loses(l: LedgerModel, key: (Seq<char>, Seq<char>), digest: Seq<char>)
    requires
        l.contains_key(key),
    ensures
        !reserve(l, key, digest).0,
        reserve(l, key, digest).1 == l,
{
}

/// Once released, a key can be won again.
pub proof fn lemma_released_key_can_be_won(l: LedgerModel, key: (Seq<char>, Seq<char>), digest: Seq<char>)
    ensures
        reserve(release(l, key), key, digest).0,
        lookup(reserve(release(l, key), key, digest).1, key) == Some(digest),
{
}

/// Releasing twice is releasing once.
pub proof fn lemma_release_idempotent(l: LedgerModel, key: (Seq<char>, Seq<char>))
    ensures
        release(release(l, key), key) == release(l, key),
        lookup(release(l, key), key) == None::<Seq<char>>,
{
    assert(release(release(l, key), key) =~= release(l, key));
}

/// Of reservations made one after another, the winners hold pairwise distinct
/// keys, none of them a key that the ledger held before, and each stays in
/// the ledger afterwards.
pub proof fn lemma_winners_distinct(l: LedgerModel, attempts: Seq<((Seq<char>, Seq<char>), Seq<char>)>)
    ensures
        reserve_in_turn(l, attempts).0.len() == attempts.len(),
        forall|key: (Seq<char>, Seq<char>)| l.contains_key(key) ==> #[trigger] reserve_in_turn(l, attempts).1.contains_key(key),
        forall|i: int| 0 <= i < attempts.len() && #[trigger] reserve_in_turn(l, attempts).0[i] ==> {
            &&& !l.contains_key(attempts[i].0)
            &&& reserve_in_turn(l, attempts).1.contains_key(attempts[i].0)
        },
        forall|i: int, j: int| 0 <= i < j < attempts.len() && #[trigger] reserve_in_turn(l, attempts).0[i]
            && #[trigger] reserve_in_turn(l, attempts).0[j] ==> attempts[i].0 != attempts[j].0,
    decreases attempts.len(),
{
    if attempts.len() > 0 {
        let prefix = attempts.drop_last();
        lemma_winners_distinct(l, prefix);
        let before = reserve_in_turn(l, prefix);
        let run = reserve_in_turn(l, attempts);
        let n = prefix.len() as int;
        assert forall|i: int| 0 <= i < n implies #[trigger] attempts[i] == prefix[i] && run.0[i] == before.0[i] by {}
        assert forall|i: int, j: int| 0 <= i < j < attempts.len() && #[trigger] run.0[i] && #[trigger] run.0[j]
            implies attempts[i].0 != attempts[j].0 by {
            assert(attempts[i] == prefix[i]);
            assert(run.0[i] == before.0[i]);
            if j < n {
                assert(attempts[j] == prefix[j]);
                assert(run.0[j] == before.0[j]);
            } else {
                assert(before.1.contains_key(prefix[i].0));
            }
        }
        assert forall|i: int| 0 <= i < attempts.len() && #[trigger] run.0[i] implies {
            &&& !l.contains_key(attempts[i].0)
            &&& run.1.contains_key(attempts[i].0)
        } by {
            if i < n {
                assert(attempts[i] == prefix[i]);
                assert(run.0[i] == before.0[i]);
                assert(before.1.contains_key(prefix[i].0));
            } else {
                if l.contains_key(attempts[i].0) {
                    assert(before.1.contains_key(attempts[i].0));
                }
            }
        }
        assert forall|key: (Seq<char>, Seq<char>)| l.contains_key(key) implies #[trigger] run.1.contains_key(key) by {
            assert(before.1.contains_key(key));
        }
    }
}

/// Reservations made one after another grow the ledger by one record for
/// each that won, and by nothing else.
pub proof fn lemma_ledger_grows_by_wins(l: LedgerModel, attempts: Seq<((Seq<char>, Seq<char>), Seq<char>)>)
    requires
        l.dom().finite(),
    ensures
        reserve_in_turn(l, attempts).1.dom().finite(),
        reserve_in_turn(l, attempts).1.len() == l.len() + wins(reserve_in_turn(l, attempts).0),
    decreases attempts.len(),
{
    if attempts.len() > 0 {
        let prefix = attempts.drop_last();
        lemma_ledger_grows_by_wins(l, prefix);
        lemma_winners_distinct(l, prefix);
        let before = reserve_in_turn(l, prefix);
        let run = reserve_in_turn(l, attempts);
        assert(run.0.drop_last() =~= before.0);
        if !before.1.contains_key(attempts.last().0) {
            assert(run.1.dom() =~= before.1.dom().insert(attempts.last().0));
        }
    }
}

/// Two reservations of one free key, one after the other as the store
/// serialises them: exactly one wins. The loser's retry with a fresh key wins.
pub proof fn lemma_one_winner_per_key(
    l: LedgerModel,
    key: (Seq<char>, Seq<char>),
    first: Seq<char>,
    second: Seq<char>,
    retry_key: (Seq<char>, Seq<char>),
)
    requires
        !l.contains_key(key),
        !l.contains_key(retry_key),
        retry_key != key,
    ensures
        reserve(l, key, first).0,
        !reserve(reserve(l, key, first).1, key, second).0,
        reserve(reserve(reserve(l, key, first).1, key, second).1, retry_key, second).0,
{
}

} // verus!
