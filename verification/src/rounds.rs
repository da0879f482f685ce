use vstd::prelude::*;

use crate::errors::ContractError;

verus! {

/// Monikers longer than this are rejected at bot registration.
pub const MAX_MONIKER_LEN: usize = 20;

/// A registered beacon-round submitter.
pub struct Bot {
    pub address: String,
    pub moniker: String,
}

/// A beacon round that passed verification, stored keyed by its number.
pub struct VerifiedRound {
    pub round: u64,
    pub signature: Vec<u8>,
}

/// The dedup key of round submissions: at most one accepted submission per
/// bot and round.
pub struct Submission {
    pub bot: String,
    pub round: u64,
}

/// A record for round `r` exists.
pub open spec fn round_verified(rs: Seq<VerifiedRound>, r: u64) -> bool {
    exists|i: int| 0 <= i < rs.len() && (#[trigger] rs[i]).round == r
}

/// A record for the (possibly out-of-range) round number `r` exists.
pub open spec fn round_verified_at(rs: Seq<VerifiedRound>, r: int) -> bool {
    exists|i: int| 0 <= i < rs.len() && (#[trigger] rs[i]).round == r
}

/// The bot spelled `a` already has an accepted submission for round `r`.
pub open spec fn has_submission(s: Seq<Submission>, a: Seq<char>, r: u64) -> bool {
    exists|i: int| 0 <= i < s.len() && (#[trigger] s[i]).bot@ == a && s[i].round == r
}

/// A bot with the address spelled `a` is registered.
pub open spec fn has_bot(bs: Seq<Bot>, a: Seq<char>) -> bool {
    exists|i: int| 0 <= i < bs.len() && (#[trigger] bs[i]).address@ == a
}

/// The registered bot spelled `a` carries the moniker spelled `m`.
pub open spec fn bot_has_moniker(bs: Seq<Bot>, a: Seq<char>, m: Seq<char>) -> bool {
    exists|i: int| 0 <= i < bs.len() && (#[trigger] bs[i]).address@ == a && bs[i].moniker@ == m
}

/// The verifier's durable state: verified rounds keyed by number, the
/// per-(bot, round) submission dedup records, the registered bots, the
/// configured round floor, and the contiguous-frontier watermark of rounds
/// available from `min_round` upward.
pub struct RoundStore {
    pub min_round: u64,
    pub rounds: Vec<VerifiedRound>,
    pub submissions: Vec<Submission>,
    pub bots: Vec<Bot>,
    pub available: u64,
}

impl RoundStore {
    pub open spec fn wf(self) -> bool {
        &&& forall|i: int, j: int|
            0 <= i < j < self.rounds@.len() ==> (#[trigger] self.rounds@[i]).round != (
            #[trigger] self.rounds@[j]).round
        &&& forall|i: int, j: int|
            0 <= i < j < self.submissions@.len() ==> !((#[trigger] self.submissions@[i]).bot@ == (
            #[trigger] self.submissions@[j]).bot@ && self.submissions@[i].round
                == self.submissions@[j].round)
        &&& forall|i: int, j: int|
            0 <= i < j < self.bots@.len() ==> (#[trigger] self.bots@[i]).address@ != (
            #[trigger] self.bots@[j]).address@
        &&& self.available <= self.rounds@.len()
        &&& forall|k: int|
            0 <= k < self.available ==> #[trigger] round_verified_at(
                self.rounds@,
                self.min_round + k,
            )
    }

    pub fn new(min_round: u64) -> (s: RoundStore)
        ensures
            s.wf(),
            s.min_round == min_round,
            s.rounds@ == Seq::<VerifiedRound>::empty(),
            s.submissions@ == Seq::<Submission>::empty(),
            s.bots@ == Seq::<Bot>::empty(),
            s.available == 0,
    {
        RoundStore {
            min_round,
            rounds: Vec::new(),
            submissions: Vec::new(),
            bots: Vec::new(),
            available: 0,
        }
    }

    pub fn is_verified(&self, r: u64) -> (b: bool)
        ensures
            b == round_verified(self.rounds@, r),
    {
        let mut i: usize = 0;
        while i < self.rounds.len()
            invariant
                0 <= i <= self.rounds@.len(),
                forall|k: int| 0 <= k < i ==> (#[trigger] self.rounds@[k]).round != r,
            decreases self.rounds@.len() - i,
        {
            if self.rounds[i].round == r {
                assert(self.rounds@[i as int].round == r);
                return true;
            }
            i += 1;
        }
        false
    }

    /// The stored signature of a verified round, or `None` when the round is
    /// not verified yet.
    pub fn get_signature(&self, r: u64) -> (s: Option<Vec<u8>>)
        ensures
            s is Some <==> round_verified(self.rounds@, r),
            s matches Some(bytes) ==> exists|i: int|
                0 <= i < self.rounds@.len() && (#[trigger] self.rounds@[i]).round == r
                    && bytes@ == self.rounds@[i].signature@,
    {
        let mut i: usize = 0;
        while i < self.rounds.len()
            invariant
                0 <= i <= self.rounds@.len(),
                forall|k: int| 0 <= k < i ==> (#[trigger] self.rounds@[k]).round != r,
            decreases self.rounds@.len() - i,
        {
            if self.rounds[i].round == r {
                let bytes = copy_bytes(&self.rounds[i].signature);
                assert(self.rounds@[i as int].round == r);
                return Some(bytes);
            }
            i += 1;
        }
        None
    }

    pub fn bot_registered(&self, a: &String) -> (b: bool)
        ensures
            b == has_bot(self.bots@, a@),
    {
        let mut i: usize = 0;
        while i < self.bots.len()
            invariant
                0 <= i <= self.bots@.len(),
                forall|k: int| 0 <= k < i ==> (#[trigger] self.bots@[k]).address@ != a@,
            decreases self.bots@.len() - i,
        {
            if self.bots[i].address == *a {
                assert(self.bots@[i as int].address@ == a@);
                return true;
            }
            i += 1;
        }
        false
    }

    pub fn submission_exists(&self, a: &String, r: u64) -> (b: bool)
        ensures
            b == has_submission(self.submissions@, a@, r),
    {
        let mut i: usize = 0;
        while i < self.submissions.len()
            invariant
                0 <= i <= self.submissions@.len(),
                forall|k: int|
                    0 <= k < i ==> !((#[trigger] self.submissions@[k]).bot@ == a@
                        && self.submissions@[k].round == r),
            decreases self.submissions@.len() - i,
        {
            if self.submissions[i].bot == *a && self.submissions[i].round == r {
                assert(self.submissions@[i as int].bot@ == a@);
                return true;
            }
            i += 1;
        }
        false
    }

    /// Records the dedup key of an accepted submission.
    pub fn note_submission(&mut self, a: &String, r: u64)
        requires
            old(self).wf(),
            !has_submission(old(self).submissions@, a@, r),
        ensures
            final(self).wf(),
            final(self).submissions@ == old(self).submissions@.push(
                Submission { bot: *a, round: r },
            ),
            final(self).rounds@ == old(self).rounds@,
            final(self).bots@ == old(self).bots@,
            final(self).min_round == old(self).min_round,
            final(self).available == old(self).available,
    {
        let ghost pre = self.submissions@;
        let bot = a.clone();
        self.submissions.push(Submission { bot, round: r });
        proof {
            let cur = self.submissions@;
            assert(cur.drop_last() =~= pre);
            assert forall|i: int, j: int| 0 <= i < j < cur.len() implies !((
            #[trigger] cur[i]).bot@ == (#[trigger] cur[j]).bot@ && cur[i].round
                == cur[j].round) by {
                if j == cur.len() - 1 {
                    assert(cur[i] == pre[i]);
                }
            }
        }
    }

    /// Registers the caller as a bot, or renews its moniker. The moniker must
    /// be non-empty and at most `MAX_MONIKER_LEN` characters; a bad moniker is
    /// rejected before any state changes.
    pub fn register_bot(&mut self, caller: &String, moniker: String) -> (r: Result<
        (),
        ContractError,
    >)
        requires
            old(self).wf(),
        ensures
            final(self).wf(),
            r == Err::<(), ContractError>(ContractError::MonikerEmpty) <==> moniker@.len() == 0,
            r == Err::<(), ContractError>(ContractError::MonikerTooLong) <==> moniker@.len()
                > MAX_MONIKER_LEN,
            r is Err ==> *final(self) == *old(self),
            r is Ok <==> 0 < moniker@.len() <= MAX_MONIKER_LEN,
            r is Ok ==> bot_has_moniker(final(self).bots@, caller@, moniker@) && (forall|
                a: Seq<char>,
                m: Seq<char>,
            |
                a != caller@ ==> (bot_has_moniker(final(self).bots@, a, m) <==> bot_has_moniker(
                    old(self).bots@,
                    a,
                    m,
                ))) && (forall|a: Seq<char>|
                has_bot(final(self).bots@, a) <==> (has_bot(old(self).bots@, a) || a == caller@)),
            final(self).rounds@ == old(self).rounds@,
            final(self).submissions@ == old(self).submissions@,
            final(self).min_round == old(self).min_round,
            final(self).available == old(self).available,
    {
        let len = moniker.as_str().unicode_len();
        if len == 0 {
            return Err(ContractError::MonikerEmpty);
        }
        if len > MAX_MONIKER_LEN {
            return Err(ContractError::MonikerTooLong);
        }
        let mut i: usize = 0;
        while i < self.bots.len()
            invariant
                0 <= i <= self.bots@.len(),
                *self == *old(self),
                old(self).wf(),
                0 < moniker@.len() <= MAX_MONIKER_LEN,
                forall|k: int| 0 <= k < i ==> (#[trigger] self.bots@[k]).address@ != caller@,
            decreases self.bots@.len() - i,
        {
            if self.bots[i].address == *caller {
                let ghost pre = self.bots@;
                let ghost found: int = i as int;
                let renewed = Bot { address: caller.clone(), moniker };
                self.bots.remove(i);
                self.bots.insert(i, renewed);
                proof {
                    let cur = self.bots@;
                    assert(cur =~= pre.update(found, renewed));
                    assert(cur[found].address@ == caller@ && cur[found].moniker@ == renewed.moniker@);
                    lemma_bots_update_same_address(pre, found, renewed, caller@);
                }
                return Ok(());
            }
            i += 1;
        }
        let ghost pre = self.bots@;
        let fresh = Bot { address: caller.clone(), moniker };
        self.bots.push(fresh);
        proof {
            let cur = self.bots@;
            assert(cur.drop_last() =~= pre);
            assert(cur[pre.len() as int].address@ == caller@);
            assert forall|i2: int, j2: int| 0 <= i2 < j2 < cur.len() implies (
            #[trigger] cur[i2]).address@ != (#[trigger] cur[j2]).address@ by {
                if j2 == cur.len() - 1 {
                    assert(cur[i2] == pre[i2]);
                }
            }
            assert forall|a: Seq<char>, m: Seq<char>| a != caller@ implies (bot_has_moniker(
                cur,
                a,
                m,
            ) <==> bot_has_moniker(pre, a, m)) by {
                if bot_has_moniker(cur, a, m) {
                    let k = choose|k: int|
                        0 <= k < cur.len() && (#[trigger] cur[k]).address@ == a && cur[k].moniker@
                            == m;
                    assert(k < pre.len());
                    assert(pre[k].address@ == a);
                }
                if bot_has_moniker(pre, a, m) {
                    let k = choose|k: int|
                        0 <= k < pre.len() && (#[trigger] pre[k]).address@ == a && pre[k].moniker@
                            == m;
                    assert(cur[k].address@ == a);
                }
            }
            assert forall|a: Seq<char>| has_bot(cur, a) <==> (has_bot(pre, a) || a == caller@) by {
                if has_bot(cur, a) {
                    let k = choose|k: int| 0 <= k < cur.len() && (#[trigger] cur[k]).address@ == a;
                    if k < pre.len() {
                        assert(pre[k].address@ == a);
                    }
                }
                if has_bot(pre, a) {
                    let k = choose|k: int| 0 <= k < pre.len() && (#[trigger] pre[k]).address@ == a;
                    assert(cur[k].address@ == a);
                }
                if a == caller@ {
                    assert(cur[pre.len() as int].address@ == a);
                }
            }
        }
        Ok(())
    }

    /// Persists a freshly verified round and advances the rounds-available
    /// watermark when the round extends the contiguous frontier above
    /// `min_round`.
    pub fn add_round(&mut self, round: u64, signature: Vec<u8>)
        requires
            old(self).wf(),
            !round_verified(old(self).rounds@, round),
        ensures
            final(self).wf(),
            final(self).rounds@ == old(self).rounds@.push(VerifiedRound { round, signature }),
            final(self).submissions@ == old(self).submissions@,
            final(self).bots@ == old(self).bots@,
            final(self).min_round == old(self).min_round,
            final(self).available >= old(self).available,
            (round == old(self).min_round + old(self).available && old(self).available < u64::MAX)
                ==> final(self).available == old(self).available + 1,
            round != old(self).min_round + old(self).available ==> final(self).available == old(
                self,
            ).available,
    {
        let ghost pre = self.rounds@;
        self.rounds.push(VerifiedRound { round, signature });
        proof {
            let cur = self.rounds@;
            assert(cur.drop_last() =~= pre);
            assert forall|i: int, j: int| 0 <= i < j < cur.len() implies (#[trigger] cur[i]).round
                != (#[trigger] cur[j]).round by {
                if j == cur.len() - 1 {
                    assert(cur[i] == pre[i]);
                    assert(!round_verified(pre, round));
                    if pre[i].round == round {
                        assert(round_verified(pre, round));
                    }
                }
            }
            assert forall|k: int| 0 <= k < self.available implies #[trigger] round_verified_at(
                cur,
                self.min_round + k,
            ) by {
                assert(round_verified_at(pre, self.min_round + k));
                let w = choose|w: int|
                    0 <= w < pre.len() && (#[trigger] pre[w]).round == self.min_round + k;
                assert(cur[w].round == self.min_round + k);
            }
            assert(cur[pre.len() as int].round == round);
        }
        let extends = match self.min_round.checked_add(self.available) {
            Some(target) => round == target,
            None => false,
        };
        if extends && self.available < u64::MAX {
            self.available = self.available + 1;
            proof {
                assert(round_verified_at(self.rounds@, self.min_round + self.available - 1));
            }
        }
    }
}

/// A byte-for-byte copy of a signature.
pub fn copy_bytes(v: &Vec<u8>) -> (r: Vec<u8>)
    ensures
        r@ == v@,
{
    let mut r: Vec<u8> = Vec::new();
    let mut i: usize = 0;
    while i < v.len()
        invariant
            0 <= i <= v@.len(),
            r@ == v@.take(i as int),
        decreases v@.len() - i,
    {
        r.push(v[i]);
        proof {
            assert(r@ =~= v@.take(i as int + 1));
        }
        i += 1;
    }
    proof {
        assert(v@.take(v@.len() as int) =~= v@);
    }
    r
}

/// Renewing the moniker of a registered bot changes no other bot's record.
proof fn lemma_bots_update_same_address(pre: Seq<Bot>, found: int, renewed: Bot, caller: Seq<char>)
    requires
        0 <= found < pre.len(),
        pre[found].address@ == caller,
        renewed.address@ == caller,
        forall|i: int, j: int|
            0 <= i < j < pre.len() ==> (#[trigger] pre[i]).address@ != (#[trigger] pre[j]).address@,
    ensures
        forall|i: int, j: int|
            0 <= i < j < pre.update(found, renewed).len() ==> (#[trigger] pre.update(
                found,
                renewed,
            )[i]).address@ != (#[trigger] pre.update(found, renewed)[j]).address@,
        bot_has_moniker(pre.update(found, renewed), caller, renewed.moniker@),
        forall|a: Seq<char>, m: Seq<char>|
            a != caller ==> (bot_has_moniker(pre.update(found, renewed), a, m) <==> bot_has_moniker(
                pre,
                a,
                m,
            )),
        forall|a: Seq<char>|
            has_bot(pre.update(found, renewed), a) <==> (has_bot(pre, a) || a == caller),
{
    let cur = pre.update(found, renewed);
    assert(cur[found].address@ == caller && cur[found].moniker@ == renewed.moniker@);
    assert forall|i: int, j: int| 0 <= i < j < cur.len() implies (#[trigger] cur[i]).address@ != (
    #[trigger] cur[j]).address@ by {
        if i != found && j != found {
            assert(cur[i] == pre[i] && cur[j] == pre[j]);
        } else if i == found {
            assert(cur[j] == pre[j]);
            assert(pre[found].address@ != pre[j].address@);
        } else {
            assert(cur[i] == pre[i]);
            assert(pre[i].address@ != pre[found].address@);
        }
    }
    assert forall|a: Seq<char>, m: Seq<char>| a != caller implies (bot_has_moniker(cur, a, m)
        <==> bot_has_moniker(pre, a, m)) by {
        if bot_has_moniker(cur, a, m) {
            let k = choose|k: int|
                0 <= k < cur.len() && (#[trigger] cur[k]).address@ == a && cur[k].moniker@ == m;
            assert(k != found);
            assert(pre[k].address@ == a && pre[k].moniker@ == m);
        }
        if bot_has_moniker(pre, a, m) {
            let k = choose|k: int|
                0 <= k < pre.len() && (#[trigger] pre[k]).address@ == a && pre[k].moniker@ == m;
            assert(k != found);
            assert(cur[k].address@ == a && cur[k].moniker@ == m);
        }
    }
    assert forall|a: Seq<char>| has_bot(cur, a) <==> (has_bot(pre, a) || a == caller) by {
        if has_bot(cur, a) {
            let k = choose|k: int| 0 <= k < cur.len() && (#[trigger] cur[k]).address@ == a;
            if k != found {
                assert(pre[k].address@ == a);
            }
        }
        if has_bot(pre, a) {
            let k = choose|k: int| 0 <= k < pre.len() && (#[trigger] pre[k]).address@ == a;
            if k != found {
                assert(cur[k].address@ == a);
            } else {
                assert(cur[found].address@ == a);
            }
        }
        if a == caller {
            assert(cur[found].address@ == a);
        }
    }
}

} // verus!
