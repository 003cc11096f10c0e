use vstd::prelude::*;

use crate::errors::Error;

verus! {

/// An identity, as the engine sees one: the engine never inspects an identity
/// beyond comparing it for equality, so identities are carried as plain
/// 64-bit values. The surrounding host is responsible for authenticating a
/// caller before handing its identity to a mutating operation.
pub type Address = u64;

/// The keys of the engine's durable state surface, for any storage substrate
/// a host may persist it under. The engine itself keeps the whole state in
/// one value; a host that persists it stores one entry per key.
#[derive(Clone, Copy, Debug, PartialEq, Eq)]
pub enum DataKey {
    Signers,
    Threshold,
    Proposals,
    PropCount,
}

/// One requested transfer: `amount` of the asset `token` to the identity
/// `to`, together with the approvals collected so far and whether the
/// transfer has already fired.
#[derive(Clone, Debug, PartialEq, Eq)]
pub struct Proposal {
    /// Destination identity of the transfer.
    pub to: Address,
    /// Identity of the fungible asset to move.
    pub token: Address,
    /// Quantity to move. The engine does not constrain its sign; the
    /// transfer collaborator is the one to reject a non-positive amount.
    pub amount: i128,
    /// Identities that have approved, in approval order, each at most once;
    /// the proposer is always the first entry.
    pub approvers: Vec<Address>,
    /// True exactly once the transfer has fired; never reset.
    pub executed: bool,
}

/// The mathematical value of a `Proposal`.
#[verifier::ext_equal]
pub struct ProposalView {
    pub to: Address,
    pub token: Address,
    pub amount: i128,
    pub approvers: Seq<Address>,
    pub executed: bool,
}

impl View for Proposal {
    type V = ProposalView;

    open spec fn view(&self) -> ProposalView {
        ProposalView {
            to: self.to,
            token: self.token,
            amount: self.amount,
            approvers: self.approvers@,
            executed: self.executed,
        }
    }
}

/// The capability check behind every privileged mutation: whether `identity`
/// occurs in `signer_set`.
pub fn is_member(signer_set: &Vec<Address>, identity: Address) -> (r: bool)
    ensures
        r == signer_set@.contains(identity),
{
    let mut i: usize = 0;
    while i < signer_set.len()
        invariant
            0 <= i <= signer_set@.len(),
            forall|j: int| 0 <= j < i ==> signer_set@[j] != identity,
        decreases signer_set@.len() - i,
    {
        if signer_set[i] == identity {
            assert(signer_set@[i as int] == identity);
            return true;
        }
        i += 1;
    }
    false
}

/// A plain copy of a sequence of identities.
fn clone_addresses(items: &Vec<Address>) -> (r: Vec<Address>)
    ensures
        r@ == items@,
{
    let mut out: Vec<Address> = Vec::new();
    let mut i: usize = 0;
    while i < items.len()
        invariant
            0 <= i <= items@.len(),
            out@.len() == i,
            forall|j: int| 0 <= j < i ==> out@[j] == items@[j],
        decreases items@.len() - i,
    {
        out.push(items[i]);
        i += 1;
    }
    proof {
        assert(out@ =~= items@);
    }
    out
}

/// The durable state of an initialized engine.
struct WalletState {
    signers: Vec<Address>,
    threshold: u32,
    proposals: Vec<Proposal>,
}

/// The multisig authorization engine. It is either fully uninitialized or
/// fully initialized: the signer set, threshold and proposal ledger exist
/// together or not at all.
pub struct MultisigWalletContract {
    state: Option<WalletState>,
}

impl MultisigWalletContract {
    /// Whether `initialize` has succeeded on this engine.
    pub closed spec fn is_initialized(self) -> bool {
        self.state is Some
    }

    /// The signer set, verbatim as it was given to `initialize` (duplicates
    /// are kept); empty while the engine is uninitialized.
    pub closed spec fn signers(self) -> Seq<Address> {
        match self.state {
            Some(st) => st.signers@,
            None => Seq::empty(),
        }
    }

    /// The approval threshold. Meaningful only when the engine is initialized.
    pub closed spec fn threshold(self) -> u32 {
        self.state->Some_0.threshold
    }

    /// The proposal ledger: entry `i` is the proposal with identifier `i + 1`.
    /// Identifiers are issued sequentially from 1 and never reused or removed.
    /// The ledger is empty while the engine is uninitialized.
    pub closed spec fn ledger(self) -> Seq<ProposalView> {
        match self.state {
            Some(st) => st.proposals@.map_values(|p: Proposal| p@),
            None => Seq::empty(),
        }
    }

    /// How many proposals have ever been created.
    pub open spec fn proposal_count(self) -> int {
        self.ledger().len() as int
    }

    /// Whether `who` belongs to the signer set.
    pub open spec fn is_signer(self, who: Address) -> bool {
        self.signers().contains(who)
    }

    /// Whether the ledger holds a proposal under identifier `id`.
    pub open spec fn has_proposal(self, id: u64) -> bool {
        1 <= id && id <= self.ledger().len()
    }

    /// The proposal stored under identifier `id`.
    pub open spec fn proposal(self, id: u64) -> ProposalView {
        self.ledger()[id - 1]
    }

    /// What a well-formed proposal looks like under a given signer set: at
    /// least the proposer has approved, every approver is a signer, and no
    /// identity approved twice.
    pub open spec fn proposal_wf(p: ProposalView, signers: Seq<Address>) -> bool {
        &&& p.approvers.len() >= 1
        &&& p.approvers.no_duplicates()
        &&& forall|i: int| 0 <= i < p.approvers.len() ==> signers.contains(#[trigger] p.approvers[i])
    }

    /// The engine's invariant: once initialized, the signer set is non-empty,
    /// the threshold lies between 1 and the number of signers, and every
    /// proposal in the ledger is well-formed.
    pub open spec fn wf(self) -> bool {
        self.is_initialized() ==> {
            &&& self.signers().len() >= 1
            &&& 1 <= self.threshold() <= self.signers().len()
            &&& forall|i: int| 0 <= i < self.ledger().len()
                ==> Self::proposal_wf(#[trigger] self.ledger()[i], self.signers())
        }
    }

    /// How one ledger entry may evolve under the engine's operations: the
    /// approver sequence only ever grows at the end, the executed flag never
    /// falls back to false, and the requested transfer itself (recipient,
    /// asset, amount) is immutable.
    pub open spec fn evolves(p: ProposalView, q: ProposalView) -> bool {
        &&& p.approvers.is_prefix_of(q.approvers)
        &&& (p.executed ==> q.executed)
        &&& q.to == p.to
        &&& q.token == p.token
        &&& q.amount == p.amount
    }

    /// What every operation preserves of the ledger's history: entries are
    /// never removed, and each existing entry only evolves as `evolves`
    /// allows. In particular the number of approvals of any proposal is
    /// monotonically non-decreasing, and execution is permanent.
    pub open spec fn preserves_history(pre: Self, post: Self) -> bool {
        &&& post.ledger().len() >= pre.ledger().len()
        &&& forall|i: int|
            0 <= i < pre.ledger().len() ==> Self::evolves(
                #[trigger] pre.ledger()[i],
                #[trigger] post.ledger()[i],
            )
    }

    /// History preservation composes: every operation ensures
    /// `preserves_history` between its pre- and post-state, so along any
    /// sequence of operations a proposal's approver count is monotonically
    /// non-decreasing, its executed flag never falls back to false, and its
    /// recipient, asset and amount never change.
    pub proof fn lemma_preserves_history_trans(a: Self, b: Self, c: Self)
        requires
            Self::preserves_history(a, b),
            Self::preserves_history(b, c),
        ensures
            Self::preserves_history(a, c),
    {
        assert forall|i: int| 0 <= i < a.ledger().len() implies Self::evolves(
            #[trigger] a.ledger()[i],
            #[trigger] c.ledger()[i],
        ) by {
            assert(Self::evolves(a.ledger()[i], b.ledger()[i]));
            assert(Self::evolves(b.ledger()[i], c.ledger()[i]));
            assert(a.ledger()[i].approvers.is_prefix_of(c.ledger()[i].approvers)) by {
                let p = a.ledger()[i].approvers;
                let q = b.ledger()[i].approvers;
                let s = c.ledger()[i].approvers;
                assert(p =~= q.subrange(0, p.len() as int));
                assert(q =~= s.subrange(0, q.len() as int));
                assert(p =~= s.subrange(0, p.len() as int));
            }
        }
    }

    /// A fresh engine: no durable state at all.
    pub fn new() -> (r: Self)
        ensures
            r.wf(),
            !r.is_initialized(),
    {
        MultisigWalletContract { state: None }
    }

    /// The exact outcome `initialize` owes for a given pre-state and inputs:
    /// success exactly when the engine is untouched, the signer list is
    /// non-empty and the threshold lies between 1 and the number of signers.
    pub open spec fn initialize_check(self, signers: Seq<Address>, threshold: u32) -> Result<
        (),
        Error,
    > {
        if self.is_initialized() {
            Err(Error::AlreadyInitialized)
        } else if threshold == 0 {
            Err(Error::InvalidThreshold)
        } else if signers.len() == 0 {
            Err(Error::NoSigners)
        } else if threshold > signers.len() {
            Err(Error::InvalidThreshold)
        } else {
            Ok(())
        }
    }

    /// For any threshold and non-empty signer list, initialization succeeds
    /// exactly when the threshold lies between 1 and the number of signers.
    pub proof fn lemma_initialize_succeeds_iff(w: Self, signers: Seq<Address>, threshold: u32)
        requires
            !w.is_initialized(),
            signers.len() >= 1,
        ensures
            w.initialize_check(signers, threshold) is Ok <==> 1 <= threshold <= signers.len(),
    {
    }

    /// Initialization succeeds at most once per engine: on an initialized
    /// engine `initialize` owes `AlreadyInitialized` whatever its inputs, and
    /// since every operation's contract keeps `is_initialized` from falling
    /// back, every call after the first success fails this way.
    pub proof fn lemma_initialize_at_most_once(w: Self, signers: Seq<Address>, threshold: u32)
        requires
            w.is_initialized(),
        ensures
            w.initialize_check(signers, threshold) == Err::<(), Error>(Error::AlreadyInitialized),
    {
    }

    /// Sets up the engine: stores the signer set verbatim (duplicates kept),
    /// the threshold, and an empty proposal ledger. Succeeds at most once per
    /// engine; on any failure the engine is left exactly as it was.
    pub fn initialize(&mut self, signers: Vec<Address>, threshold: u32) -> (r: Result<(), Error>)
        requires
            old(self).wf(),
        ensures
            final(self).wf(),
            r == old(self).initialize_check(signers@, threshold),
            r is Ok ==> {
                &&& final(self).is_initialized()
                &&& final(self).signers() == signers@
                &&& final(self).threshold() == threshold
                &&& final(self).ledger() =~= Seq::<ProposalView>::empty()
            },
            r is Err ==> *final(self) == *old(self),
            final(self).is_initialized() == (old(self).is_initialized() || r is Ok),
            Self::preserves_history(*old(self), *final(self)),
    {
        if self.state.is_some() {
            return Err(Error::AlreadyInitialized);
        }
        if threshold == 0 {
            return Err(Error::InvalidThreshold);
        }
        if signers.len() == 0 {
            return Err(Error::NoSigners);
        }
        if threshold as usize > signers.len() {
            return Err(Error::InvalidThreshold);
        }
        self.state = Some(
            WalletState { signers, threshold, proposals: Vec::new() },
        );
        Ok(())
    }

    /// The proposal a successful `propose(from, to, token, amount)` appends:
    /// not yet executed, with the proposer as its only approver.
    pub open spec fn new_proposal(
        to: Address,
        token: Address,
        amount: i128,
        proposer: Address,
    ) -> ProposalView {
        ProposalView { to, token, amount, approvers: seq![proposer], executed: false }
    }

    /// The exact outcome `propose` owes for a given pre-state and caller:
    /// success exactly when the engine is initialized and the caller is a
    /// signer.
    pub open spec fn propose_check(self, from: Address) -> Result<(), Error> {
        if !self.is_initialized() {
            Err(Error::NotInitialized)
        } else if !self.is_signer(from) {
            Err(Error::NotSigner)
        } else {
            Ok(())
        }
    }

    /// Records a new transfer request by the authenticated signer `from`:
    /// `amount` of the asset `token` to the identity `to`. On success the
    /// proposal is appended to the ledger under the next sequential
    /// identifier (one past the previous count), which is returned; on any
    /// failure the engine is left exactly as it was.
    pub fn propose(
        &mut self,
        from: Address,
        to: Address,
        token: Address,
        amount: i128,
    ) -> (r: Result<u64, Error>)
        requires
            old(self).wf(),
            old(self).ledger().len() < u64::MAX,
        ensures
            final(self).wf(),
            r is Ok <==> old(self).propose_check(from) is Ok,
            r is Err ==> Err::<(), Error>(r->Err_0) == old(self).propose_check(from),
            r is Err ==> *final(self) == *old(self),
            r is Ok ==> {
                &&& r->Ok_0 == old(self).proposal_count() + 1
                &&& final(self).ledger() =~~= old(self).ledger().push(
                    Self::new_proposal(to, token, amount, from),
                )
            },
            final(self).is_initialized() == old(self).is_initialized(),
            final(self).signers() == old(self).signers(),
            final(self).threshold() == old(self).threshold(),
            Self::preserves_history(*old(self), *final(self)),
    {
        let st = match &mut self.state {
            None => {
                return Err(Error::NotInitialized);
            },
            Some(st) => st,
        };
        if !is_member(&st.signers, from) {
            return Err(Error::NotSigner);
        }
        let id: u64 = st.proposals.len() as u64 + 1;
        let mut approvers: Vec<Address> = Vec::new();
        approvers.push(from);
        let proposal = Proposal { to, token, amount, approvers, executed: false };
        st.proposals.push(proposal);
        proof {
            assert(self.ledger() =~~= old(self).ledger().push(
                Self::new_proposal(to, token, amount, from),
            ));
        }
        Ok(id)
    }

    /// The exact outcome `approve` owes for a given pre-state and inputs:
    /// success exactly when the engine is initialized, the caller is a
    /// signer, the proposal exists, has not fired yet, and the caller has not
    /// approved it before. Each failure is the first precondition violated,
    /// in that order.
    pub open spec fn approve_check(self, from: Address, id: u64) -> Result<(), Error> {
        if !self.is_initialized() {
            Err(Error::NotInitialized)
        } else if !self.is_signer(from) {
            Err(Error::NotSigner)
        } else if !self.has_proposal(id) {
            Err(Error::ProposalNotFound)
        } else if self.proposal(id).executed {
            Err(Error::ProposalExecuted)
        } else if self.proposal(id).approvers.contains(from) {
            Err(Error::AlreadyApproved)
        } else {
            Ok(())
        }
    }

    /// Records the authenticated signer `from`'s approval of the proposal
    /// under `proposal_id`, appending `from` to its approvers. On any failure
    /// the engine is left exactly as it was; in particular an identity can
    /// never appear twice among a proposal's approvers.
    pub fn approve(&mut self, from: Address, proposal_id: u64) -> (r: Result<(), Error>)
        requires
            old(self).wf(),
        ensures
            final(self).wf(),
            r == old(self).approve_check(from, proposal_id),
            r is Err ==> *final(self) == *old(self),
            r is Ok ==> final(self).ledger() =~~= old(self).ledger().update(
                proposal_id - 1,
                (ProposalView {
                    approvers: old(self).proposal(proposal_id).approvers.push(from),
                    ..old(self).proposal(proposal_id)
                }),
            ),
            final(self).is_initialized() == old(self).is_initialized(),
            final(self).signers() == old(self).signers(),
            final(self).threshold() == old(self).threshold(),
            Self::preserves_history(*old(self), *final(self)),
    {
        let st = match &mut self.state {
            None => {
                return Err(Error::NotInitialized);
            },
            Some(st) => st,
        };
        if !is_member(&st.signers, from) {
            return Err(Error::NotSigner);
        }
        if proposal_id == 0 || proposal_id > st.proposals.len() as u64 {
            return Err(Error::ProposalNotFound);
        }
        let idx: usize = (proposal_id - 1) as usize;
        if st.proposals[idx].executed {
            return Err(Error::ProposalExecuted);
        }
        if is_member(&st.proposals[idx].approvers, from) {
            return Err(Error::AlreadyApproved);
        }
        let p = &mut st.proposals[idx];
        p.approvers.push(from);
        proof {
            assert(self.ledger() =~~= old(self).ledger().update(
                proposal_id - 1,
                (ProposalView {
                    approvers: old(self).proposal(proposal_id).approvers.push(from),
                    ..old(self).proposal(proposal_id)
                }),
            ));
        }
        Ok(())
    }

    /// The exact precondition check `execute` owes for a given pre-state and
    /// inputs: the attempt may proceed to the transfer exactly when the
    /// engine is initialized, the caller is a signer, the proposal exists,
    /// has not fired yet, and holds at least `threshold` approvals. Each
    /// failure is the first precondition violated, in that order.
    pub open spec fn execute_check(self, from: Address, id: u64) -> Result<(), Error> {
        if !self.is_initialized() {
            Err(Error::NotInitialized)
        } else if !self.is_signer(from) {
            Err(Error::NotSigner)
        } else if !self.has_proposal(id) {
            Err(Error::ProposalNotFound)
        } else if self.proposal(id).executed {
            Err(Error::ProposalExecuted)
        } else if self.proposal(id).approvers.len() < self.threshold() {
            Err(Error::ThresholdNotMet)
        } else {
            Ok(())
        }
    }

    /// For a signer and an existing proposal, an execution attempt reaches
    /// the transfer exactly when the proposal has not fired yet and holds at
    /// least `threshold` approvals; `execute`'s contract then marks it
    /// executed exactly when the transfer collaborator reports success.
    pub proof fn lemma_execute_proceeds_iff(w: Self, from: Address, id: u64)
        requires
            w.is_initialized(),
            w.is_signer(from),
            w.has_proposal(id),
        ensures
            w.execute_check(from, id) is Ok <==> (!w.proposal(id).executed
                && w.proposal(id).approvers.len() >= w.threshold()),
    {
    }

    /// A caller outside the signer set can never mutate an initialized
    /// engine: the outcome every mutating operation owes it is `NotSigner`,
    /// whatever the proposal, and the operations' contracts then leave the
    /// engine unchanged. Authentication happens outside the engine and
    /// cannot widen this: it only vouches for the identity, and the identity
    /// is not a signer.
    pub proof fn lemma_non_signer_cannot_act(w: Self, who: Address)
        requires
            w.is_initialized(),
            !w.is_signer(who),
        ensures
            w.propose_check(who) == Err::<(), Error>(Error::NotSigner),
            forall|id: u64| #[trigger] w.approve_check(who, id) == Err::<(), Error>(
                Error::NotSigner,
            ),
            forall|id: u64| #[trigger] w.execute_check(who, id) == Err::<(), Error>(
                Error::NotSigner,
            ),
    {
    }

    /// Fires the proposal under `proposal_id` on behalf of the authenticated
    /// signer `from`. Any signer may trigger execution once the threshold is
    /// met; no right beyond signer membership is needed.
    ///
    /// The asset transfer itself is an external collaborator, handed in as
    /// `transfer`: once every precondition holds, it is invoked exactly once
    /// with the proposal's asset, recipient and amount, and its verdict is
    /// returned verbatim. Only when it reports success is the proposal marked
    /// executed — permanently, so the transfer can never fire a second time.
    /// On any failure, the collaborator's included, the engine is left
    /// exactly as it was, so a proposal whose transfer failed stays eligible
    /// for a future attempt.
    pub fn execute<F: FnOnce(Address, Address, i128) -> Result<(), Error>>(
        &mut self,
        from: Address,
        proposal_id: u64,
        transfer: F,
    ) -> (r: Result<(), Error>)
        requires
            old(self).wf(),
            forall|args: (Address, Address, i128)| #[trigger] call_requires(transfer, args),
        ensures
            final(self).wf(),
            old(self).execute_check(from, proposal_id) is Err ==> {
                &&& r == old(self).execute_check(from, proposal_id)
                &&& *final(self) == *old(self)
            },
            old(self).execute_check(from, proposal_id) is Ok ==> call_ensures(
                transfer,
                (
                    old(self).proposal(proposal_id).token,
                    old(self).proposal(proposal_id).to,
                    old(self).proposal(proposal_id).amount,
                ),
                r,
            ),
            r is Ok ==> old(self).execute_check(from, proposal_id) is Ok,
            r is Ok ==> final(self).ledger() =~~= old(self).ledger().update(
                proposal_id - 1,
                (ProposalView { executed: true, ..old(self).proposal(proposal_id) }),
            ),
            r is Err ==> *final(self) == *old(self),
            final(self).is_initialized() == old(self).is_initialized(),
            final(self).signers() == old(self).signers(),
            final(self).threshold() == old(self).threshold(),
            Self::preserves_history(*old(self), *final(self)),
    {
        let st = match &mut self.state {
            None => {
                return Err(Error::NotInitialized);
            },
            Some(st) => st,
        };
        if !is_member(&st.signers, from) {
            return Err(Error::NotSigner);
        }
        if proposal_id == 0 || proposal_id > st.proposals.len() as u64 {
            return Err(Error::ProposalNotFound);
        }
        let idx: usize = (proposal_id - 1) as usize;
        if st.proposals[idx].executed {
            return Err(Error::ProposalExecuted);
        }
        if (st.proposals[idx].approvers.len() as u64) < st.threshold as u64 {
            return Err(Error::ThresholdNotMet);
        }
        let token_v: Address = st.proposals[idx].token;
        let to_v: Address = st.proposals[idx].to;
        let amount_v: i128 = st.proposals[idx].amount;
        proof {
            assert(st.proposals@[proposal_id - 1]@ == old(self).proposal(proposal_id));
        }
        let outcome = transfer(token_v, to_v, amount_v);
        if outcome.is_ok() {
            let p = &mut st.proposals[idx];
            p.executed = true;
            proof {
                assert(self.ledger() =~~= old(self).ledger().update(
                    proposal_id - 1,
                    (ProposalView { executed: true, ..old(self).proposal(proposal_id) }),
                ));
            }
        }
        outcome
    }

    /// Reads the signer set, verbatim as it was stored at initialization.
    /// A pure read: no authentication, no mutation.
    pub fn get_signers(&self) -> (r: Result<Vec<Address>, Error>)
        ensures
            r is Ok <==> self.is_initialized(),
            r is Ok ==> r->Ok_0@ == self.signers(),
            r is Err ==> r->Err_0 == Error::NotInitialized,
    {
        match &self.state {
            None => Err(Error::NotInitialized),
            Some(st) => Ok(clone_addresses(&st.signers)),
        }
    }

    /// Reads the approval threshold. A pure read: no authentication, no
    /// mutation.
    pub fn get_threshold(&self) -> (r: Result<u32, Error>)
        ensures
            r is Ok <==> self.is_initialized(),
            r is Ok ==> r->Ok_0 == self.threshold(),
            r is Err ==> r->Err_0 == Error::NotInitialized,
    {
        match &self.state {
            None => Err(Error::NotInitialized),
            Some(st) => Ok(st.threshold),
        }
    }

    /// Reads the proposal stored under `id`, exactly as the ledger holds it.
    /// A pure read: no authentication, no mutation.
    pub fn get_proposal(&self, id: u64) -> (r: Result<Proposal, Error>)
        ensures
            r is Ok <==> self.is_initialized() && self.has_proposal(id),
            r is Ok ==> r->Ok_0@ == self.proposal(id),
            !self.is_initialized() ==> r == Err::<Proposal, Error>(Error::NotInitialized),
            self.is_initialized() && !self.has_proposal(id) ==> r == Err::<Proposal, Error>(
                Error::ProposalNotFound,
            ),
    {
        let st = match &self.state {
            None => {
                return Err(Error::NotInitialized);
            },
            Some(st) => st,
        };
        if id == 0 || id > st.proposals.len() as u64 {
            return Err(Error::ProposalNotFound);
        }
        let idx: usize = (id - 1) as usize;
        let p = &st.proposals[idx];
        let copy = Proposal {
            to: p.to,
            token: p.token,
            amount: p.amount,
            approvers: clone_addresses(&p.approvers),
            executed: p.executed,
        };
        proof {
            assert(copy@ =~= self.proposal(id));
        }
        Ok(copy)
    }
}

} // verus!
