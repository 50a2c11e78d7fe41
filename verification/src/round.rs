//! The lottery round state machine: participant registry, winner ledger,
//! round counter, and the access rules that gate settlement.
//!
//! The state is an explicitly owned value passed into each operation; the
//! host environment supplies the caller identity, the attached payment and
//! the settlement timestamp as plain arguments.

use vstd::prelude::*;

verus! {

use crate::selection::{derivation_input, derive_seed, keccak_of, keccak256, byte_sum, sum_wrap,
    selection_index};

/// The fixed entry fee, in yoctoNEAR (one NEAR).
pub const ENTRY_FEE: u128 = 1_000_000_000_000_000_000_000_000;

/// Why a call was rejected. Every rejection leaves the state unchanged.
#[derive(Clone, Copy, Debug, PartialEq, Eq, Structural)]
pub enum LotteryError {
    /// The payment attached to an entry does not match the entry fee.
    InsufficientPayment,
    /// Settlement was requested by an identity that is neither the operator
    /// nor a current participant.
    Unauthorized,
    /// Settlement was requested while the participant set is empty.
    EmptyPool,
}

/// The mathematical model of a lottery: identities as character sequences,
/// the participant registry in its stable enumeration (insertion) order, and
/// the winner ledger as the sequence of winners of rounds `0..round_id`.
#[verifier::ext_equal]
pub ghost struct LotteryView {
    pub round_id: int,
    pub operator: Seq<char>,
    pub participants: Seq<Seq<char>>,
    pub winners: Seq<Seq<char>>,
}

impl LotteryView {
    /// Well-formedness: the registry holds no duplicate identity, the ledger
    /// holds exactly one winner per settled round, and the round counter fits
    /// its machine representation.
    pub open spec fn wf(self) -> bool {
        &&& 0 <= self.round_id <= u32::MAX
        &&& self.winners.len() == self.round_id
        &&& forall|i: int, j: int|
            0 <= i < j < self.participants.len() ==> self.participants[i] != self.participants[j]
    }

    /// Whether `id` is a participant of the current round.
    pub open spec fn is_participant(self, id: Seq<char>) -> bool {
        self.participants.contains(id)
    }

    /// Who may trigger settlement: the operator, or anyone with an entry in
    /// the current round.
    pub open spec fn may_settle(self, caller: Seq<char>) -> bool {
        caller == self.operator || self.is_participant(caller)
    }

    /// The state after a successful entry: the caller is appended to the
    /// registry unless already present; nothing else changes.
    pub open spec fn after_enter(self, caller: Seq<char>) -> LotteryView {
        if self.participants.contains(caller) {
            self
        } else {
            LotteryView { participants: self.participants.push(caller), ..self }
        }
    }

    /// The winner selected at `timestamp`: the participant at the selection
    /// index, in the registry's stable enumeration order.
    pub open spec fn winner(self, timestamp: u64) -> Seq<char>
        recommends
            self.participants.len() > 0,
    {
        self.participants[selection_index(timestamp, self.operator, self.participants.len()) as int]
    }

    /// The state after a successful settlement: the winner is appended to the
    /// ledger (under the pre-advance round number), the registry is cleared,
    /// and the round counter advances by exactly one.
    pub open spec fn after_settle(self, timestamp: u64) -> LotteryView {
        LotteryView {
            round_id: self.round_id + 1,
            operator: self.operator,
            participants: Seq::empty(),
            winners: self.winners.push(self.winner(timestamp)),
        }
    }
}

/// A lottery round: the registry of entrants of the current round, the ledger
/// of past winners, the round counter, and the fixed operator identity.
pub struct Lottery {
    /// The current round number; advanced by exactly one per settlement.
    pub round_id: u32,
    /// The identity fixed at construction; immutable afterwards.
    pub operator: String,
    /// The entrants of the current round, in insertion order, no duplicates.
    pub participants: Vec<String>,
    /// `winners[r]` is the winner of settled round `r`.
    pub winners: Vec<String>,
}

impl View for Lottery {
    type V = LotteryView;

    open spec fn view(&self) -> LotteryView {
        LotteryView {
            round_id: self.round_id as int,
            operator: self.operator@,
            participants: self.participants.deep_view(),
            winners: self.winners.deep_view(),
        }
    }
}

impl Lottery {
    /// Creates a lottery at round zero with an empty registry and ledger,
    /// operated by `operator`.
    pub fn new(operator: String) -> (r: Lottery)
        ensures
            r@.wf(),
            r@.round_id == 0,
            r@.operator == operator@,
            r@.participants.len() == 0,
            r@.winners.len() == 0,
    {
        Lottery { round_id: 0, operator, participants: Vec::new(), winners: Vec::new() }
    }

    /// Whether `id` holds an entry in the current round.
    pub fn is_participant(&self, id: &String) -> (r: bool)
        ensures
            r == self@.is_participant(id@),
    {
        let n = self.participants.len();
        let mut i: usize = 0;
        while i < n
            invariant
                i <= n,
                n == self.participants.len(),
                forall|j: int| 0 <= j < i ==> self@.participants[j] != id@,
            decreases n - i,
        {
            if self.participants[i] == *id {
                proof {
                    assert(self@.participants[i as int] == id@);
                }
                return true;
            }
            i = i + 1;
        }
        false
    }

    /// Enters the caller into the current round. The payment must match the
    /// entry fee exactly; any other amount is rejected with
    /// `InsufficientPayment` and no state change. A repeated entry by the
    /// same identity succeeds without growing the registry.
    pub fn enter(&mut self, caller: String, payment: u128) -> (r: Result<(), LotteryError>)
        ensures
            old(self)@.wf() ==> final(self)@.wf(),
            r is Ok <==> payment == ENTRY_FEE,
            r is Ok ==> final(self)@ == old(self)@.after_enter(caller@),
            r is Err ==> *final(self) == *old(self) && r == Err::<(), LotteryError>(
                LotteryError::InsufficientPayment,
            ),
    {
        if payment != ENTRY_FEE {
            return Err(LotteryError::InsufficientPayment);
        }
        if !self.is_participant(&caller) {
            let ghost pre = self@;
            let ghost c = caller@;
            self.participants.push(caller);
            proof {
                assert(self@.participants =~= pre.participants.push(c));
                assert(self@ =~= pre.after_enter(c));
            }
        }
        Ok(())
    }

    /// The pseudo-random value drawn at settlement: the keccak-256 digest of
    /// the timestamp and operator, folded by summing its bytes with 8-bit
    /// wraparound.
    fn get_random_number(&self, timestamp: u64) -> (r: u32)
        ensures
            r == sum_wrap(keccak_of(derivation_input(timestamp, self.operator@))) as u32,
    {
        let seed = derive_seed(timestamp, self.operator.as_str());
        let digest = keccak256(&seed);
        let s = byte_sum(&digest);
        s as u32
    }

    /// Selects the winner of the current round, records it in the ledger
    /// under the current round number, clears the registry, and advances the
    /// round counter.
    fn select_winner(&mut self, timestamp: u64) -> (winner: String)
        requires
            old(self).participants.len() > 0,
            old(self).round_id < u32::MAX,
        ensures
            winner@ == old(self)@.winner(timestamp),
            final(self)@ == old(self)@.after_settle(timestamp),
            old(self)@.wf() ==> final(self)@.wf(),
    {
        let ghost pre = self@;
        let rand = self.get_random_number(timestamp);
        let n = self.participants.len();
        let idx = (rand as usize) % n;
        proof {
            assert(idx as int == selection_index(timestamp, pre.operator, pre.participants.len()));
        }
        let winner = self.participants[idx].clone();
        self.winners.push(winner.clone());
        self.participants.clear();
        self.round_id = self.round_id + 1;
        proof {
            assert(self@.winners =~= pre.winners.push(pre.winner(timestamp)));
            assert(self@.participants =~= Seq::<Seq<char>>::empty());
            assert(self@ =~= pre.after_settle(timestamp));
        }
        winner
    }

    /// Settles the current round and reports the winner. Only the operator or
    /// a current participant may settle (`Unauthorized` otherwise), and only
    /// a non-empty pool can be settled (`EmptyPool` otherwise); a rejected
    /// call leaves the state unchanged. The payout transfer itself is the
    /// caller's follow-up step: the round is settled eagerly, and a payout
    /// can be retried without touching the settled bookkeeping.
    pub fn claim(&mut self, caller: &String, timestamp: u64) -> (r: Result<
        String,
        LotteryError,
    >)
        requires
            old(self).round_id < u32::MAX,
        ensures
            old(self)@.wf() ==> final(self)@.wf(),
            r is Ok <==> old(self)@.may_settle(caller@) && old(self)@.participants.len() > 0,
            r matches Ok(w) ==> w@ == old(self)@.winner(timestamp) && old(self)@.is_participant(
                w@,
            ) && final(self)@ == old(self)@.after_settle(timestamp),
            r matches Err(e) ==> *final(self) == *old(self) && (e == LotteryError::Unauthorized
                <==> !old(self)@.may_settle(caller@)) && (e == LotteryError::EmptyPool <==> old(
                self,
            )@.may_settle(caller@) && old(self)@.participants.len() == 0),
    {
        let authorized = *caller == self.operator || self.is_participant(caller);
        if !authorized {
            return Err(LotteryError::Unauthorized);
        }
        if self.participants.len() == 0 {
            return Err(LotteryError::EmptyPool);
        }
        let winner = self.select_winner(timestamp);
        proof {
            let pre = old(self)@;
            crate::selection::lemma_selection_index_in_bounds(
                timestamp,
                pre.operator,
                pre.participants.len(),
            );
            let gidx = selection_index(timestamp, pre.operator, pre.participants.len());
            assert(pre.participants[gidx as int] == winner@);
        }
        Ok(winner)
    }

    /// Relies on `near_sdk::env::account_balance`: the balance the host
    /// ledger currently holds for this account, in yoctoNEAR. The value is
    /// the host's to choose; nothing is promised of it.
    #[verifier::external_body]
    pub fn get_balance(&self) -> u128 {
        near_sdk::env::account_balance().as_yoctonear()
    }
}

/// Idempotent entry: an identity that is already a participant re-enters
/// without any effect, so a second valid entry by the same identity leaves
/// the registry exactly as the first left it.
pub proof fn lemma_enter_idempotent(v: LotteryView, caller: Seq<char>)
    ensures
        v.after_enter(caller).after_enter(caller) == v.after_enter(caller),
{
    let v1 = v.after_enter(caller);
    if !v.participants.contains(caller) {
        assert(v1.participants[v.participants.len() as int] == caller);
    }
    assert(v1.participants.contains(caller));
}

/// Round advance: a settlement of a well-formed, non-empty round advances the
/// round number by exactly one, empties the registry, records the selected
/// winner in the ledger under the pre-advance round number, leaves every
/// earlier ledger entry untouched, and preserves well-formedness.
pub proof fn lemma_round_advance(v: LotteryView, timestamp: u64)
    requires
        v.wf(),
        v.participants.len() > 0,
        v.round_id < u32::MAX,
    ensures
        v.after_settle(timestamp).round_id == v.round_id + 1,
        v.after_settle(timestamp).participants.len() == 0,
        v.after_settle(timestamp).winners[v.round_id] == v.winner(timestamp),
        forall|r: int| 0 <= r < v.round_id ==> v.after_settle(timestamp).winners[r] == v.winners[r],
        v.is_participant(v.winner(timestamp)),
        v.after_settle(timestamp).wf(),
{
    crate::selection::lemma_selection_index_in_bounds(timestamp, v.operator, v.participants.len());
    let gidx = selection_index(timestamp, v.operator, v.participants.len());
    assert(v.participants[gidx as int] == v.winner(timestamp));
}

} // verus!
