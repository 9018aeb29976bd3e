//! The relay engine: configuration, the per-user nonce table, the
//! authorization gates and the owner-gated administration.

use vstd::prelude::*;

use crate::error::PaymasterError;
use crate::hashing::{compute_hash, message_hash};
use crate::recovery::{
    decode_recovered, output_view, recovered_signer, recovery_input, recovery_input_spec,
};
use crate::types::{modulus, Address, B256, U256};

verus! {

/// An entry of the audit log.
#[derive(Clone, Copy, Debug, PartialEq, Eq)]
pub enum Event {
    /// A request was accepted; `success` tells whether the forwarded call succeeded.
    MetaTxExecuted { user: Address, target: Address, nonce: U256, success: bool },
    /// The allowed target changed.
    TargetUpdated { old_target: Address, new_target: Address },
    /// Execution was paused or resumed.
    PausedStateChanged { paused: bool },
    /// The owner changed.
    OwnershipTransferred { previous_owner: Address, new_owner: Address },
}

/// The next expected nonce of one user.
#[derive(Clone, Copy, Debug)]
pub struct NonceEntry {
    pub user: Address,
    pub next: U256,
}

/// The state of the relay: its configuration, the nonce table and the audit log.
#[derive(Debug)]
pub struct Paymaster {
    owner: Address,
    allowed_target: Address,
    paused: bool,
    initialized: bool,
    nonces: Vec<NonceEntry>,
    events: Vec<Event>,
}

/// What the engine needs from its host: a place to persist a consumed
/// nonce, the recovery primitive, and the call that forwards a request.
/// The recovery and the call may fail (`None`).
pub trait Host {
    /// Persists `next` as `user`'s next expected nonce.
    fn store_nonce(&mut self, user: Address, next: U256);

    /// Runs the recovery primitive on a 128-byte input.
    fn recover(&mut self, input: &Vec<u8>) -> Option<Vec<u8>>;

    /// Calls `to`, sending `value` and `data`; the returned bytes on success.
    fn call(&mut self, to: Address, value: U256, data: &Vec<u8>) -> Option<Vec<u8>>;
}

/// One interaction with the host, with what it answered.
pub enum HostCall {
    /// `next` was persisted as `user`'s next nonce.
    NonceStored { user: Address, next: U256 },
    /// The recovery primitive ran on `input`.
    Recover { input: Seq<u8>, output: Option<Seq<u8>> },
    /// `to` was called with `value` and `data`.
    Forward { to: Address, value: U256, data: Seq<u8>, output: Option<Seq<u8>> },
}

/// A host together with the record of every interaction made through it,
/// oldest first.
pub struct HostLog<H: Host> {
    pub host: H,
    trace: Ghost<Seq<HostCall>>,
}

impl<H: Host> HostLog<H> {
    pub closed spec fn trace(&self) -> Seq<HostCall> {
        self.trace@
    }

    pub closed spec fn spec_host(&self) -> H {
        self.host
    }

    pub fn new(host: H) -> (r: HostLog<H>)
        ensures
            r.trace() == Seq::<HostCall>::empty(),
            r.spec_host() == host,
    {
        HostLog { host, trace: Ghost(Seq::empty()) }
    }

    /// Persists a nonce through the host and records it.
    pub fn store_nonce(&mut self, user: Address, next: U256)
        ensures
            final(self).trace() == old(self).trace().push(HostCall::NonceStored { user, next }),
    {
        self.host.store_nonce(user, next);
        self.trace = Ghost(self.trace@.push(HostCall::NonceStored { user, next }));
    }

    /// Runs the host's recovery primitive and records input and answer.
    pub fn recover(&mut self, input: &Vec<u8>) -> (r: Option<Vec<u8>>)
        ensures
            final(self).trace() == old(self).trace().push(
                HostCall::Recover { input: input@, output: output_view(r) },
            ),
    {
        let r = self.host.recover(input);
        self.trace = Ghost(
            self.trace@.push(HostCall::Recover { input: input@, output: output_view(r) }),
        );
        r
    }

    /// Makes the host's forwarded call and records request and answer.
    pub fn call(&mut self, to: Address, value: U256, data: &Vec<u8>) -> (r: Option<Vec<u8>>)
        ensures
            final(self).trace() == old(self).trace().push(
                HostCall::Forward { to, value, data: data@, output: output_view(r) },
            ),
    {
        let r = self.host.call(to, value, data);
        self.trace = Ghost(
            self.trace@.push(HostCall::Forward { to, value, data: data@, output: output_view(r) }),
        );
        r
    }
}

impl Paymaster {
    /// The nonce table holds at most one entry per user.
    pub closed spec fn wf(&self) -> bool {
        forall|i: int, j: int|
            0 <= i < j < self.nonces@.len() ==> (#[trigger] self.nonces@[i]).user@ != (
            #[trigger] self.nonces@[j]).user@
    }

    pub closed spec fn spec_owner(&self) -> Address {
        self.owner
    }

    pub closed spec fn spec_target(&self) -> Address {
        self.allowed_target
    }

    pub closed spec fn spec_paused(&self) -> bool {
        self.paused
    }

    pub closed spec fn spec_initialized(&self) -> bool {
        self.initialized
    }

    pub closed spec fn spec_events(&self) -> Seq<Event> {
        self.events@
    }

    /// The next nonce expected from `user`: zero for a user never seen.
    pub closed spec fn spec_nonce(&self, user: Seq<u8>) -> U256 {
        if exists|i: int| 0 <= i < self.nonces@.len() && (#[trigger] self.nonces@[i]).user@ == user {
            self.nonces@[choose|i: int|
                0 <= i < self.nonces@.len() && (#[trigger] self.nonces@[i]).user@ == user].next
        } else {
            U256 { hi: 0, lo: 0 }
        }
    }

    /// Everything but the nonce table and the log is the same in `self` and `other`.
    pub open spec fn same_config(&self, other: &Paymaster) -> bool {
        &&& self.spec_owner() == other.spec_owner()
        &&& self.spec_target() == other.spec_target()
        &&& self.spec_paused() == other.spec_paused()
        &&& self.spec_initialized() == other.spec_initialized()
    }

    /// Every user's nonce is the same in `self` and `other`.
    pub open spec fn same_nonces(&self, other: &Paymaster) -> bool {
        forall|u: Seq<u8>| #[trigger] self.spec_nonce(u) == other.spec_nonce(u)
    }

    /// `other` is `self` with `user`'s nonce advanced by one (wrapping).
    pub open spec fn nonce_advanced(&self, other: &Paymaster, user: Seq<u8>) -> bool {
        &&& other.spec_nonce(user)@ == (self.spec_nonce(user)@ + 1) % modulus()
        &&& forall|u: Seq<u8>| u != user ==> #[trigger] other.spec_nonce(u) == self.spec_nonce(u)
    }

    /// The first gate that a request fails, in the order: initialized, not
    /// paused, deadline not passed, allowed target, expected nonce.
    pub open spec fn gate_error(
        &self,
        now: U256,
        from: Address,
        to: Address,
        nonce: U256,
        deadline: U256,
    ) -> Option<PaymasterError> {
        if !self.spec_initialized() {
            Some(PaymasterError::NotInitialized)
        } else if self.spec_paused() {
            Some(PaymasterError::ContractPaused)
        } else if now@ > deadline@ {
            Some(PaymasterError::DeadlineExpired { deadline, current_time: now })
        } else if to@ != self.spec_target()@ {
            Some(PaymasterError::TargetNotAllowed { target: to })
        } else if nonce@ != self.spec_nonce(from@)@ {
            Some(PaymasterError::InvalidNonce { expected: self.spec_nonce(from@), provided: nonce })
        } else {
            None
        }
    }

    proof fn lemma_same_table(&self, other: &Paymaster)
        requires
            self.nonces@ == other.nonces@,
        ensures
            self.same_nonces(other),
    {
        assert forall|u: Seq<u8>| #[trigger] self.spec_nonce(u) == other.spec_nonce(u) by {}
    }

    proof fn lemma_nonce_at(&self, k: int)
        requires
            self.wf(),
            0 <= k < self.nonces@.len(),
        ensures
            self.spec_nonce(self.nonces@[k].user@) == self.nonces@[k].next,
    {
        let u = self.nonces@[k].user@;
        assert(0 <= k < self.nonces@.len() && self.nonces@[k].user@ == u);
    }

    /// A relay that is not yet initialized: no owner, no target, no nonces, no events.
    pub fn new() -> (r: Paymaster)
        ensures
            r.wf(),
            !r.spec_initialized(),
            !r.spec_paused(),
            r.spec_owner().is_zero_spec(),
            r.spec_target().is_zero_spec(),
            r.spec_events() == Seq::<Event>::empty(),
            forall|u: Seq<u8>| #[trigger] r.spec_nonce(u)@ == 0,
    {
        Paymaster {
            owner: Address::zero(),
            allowed_target: Address::zero(),
            paused: false,
            initialized: false,
            nonces: Vec::new(),
            events: Vec::new(),
        }
    }

    /// Rebuilds a relay from persisted configuration and the nonce of one
    /// user, with an empty log: a host that keeps each field in its own
    /// storage slot loads the part a request reads.
    pub fn restore(
        owner: Address,
        allowed_target: Address,
        paused: bool,
        initialized: bool,
        user: Address,
        nonce: U256,
    ) -> (r: Paymaster)
        ensures
            r.wf(),
            r.spec_owner() == owner,
            r.spec_target() == allowed_target,
            r.spec_paused() == paused,
            r.spec_initialized() == initialized,
            r.spec_events() == Seq::<Event>::empty(),
            r.spec_nonce(user@) == nonce,
            forall|u: Seq<u8>| u != user@ ==> #[trigger] r.spec_nonce(u)@ == 0,
    {
        let mut r = Paymaster::new();
        let ghost empty = r;
        r.owner = owner;
        r.allowed_target = allowed_target;
        r.paused = paused;
        r.initialized = initialized;
        proof {
            r.lemma_same_table(&empty);
        }
        r.set_nonce(user, nonce);
        r
    }

    /// The index of `user`'s entry in the nonce table, if any.
    fn find_entry(&self, user: &Address) -> (r: Option<usize>)
        ensures
            match r {
                Some(k) => k < self.nonces@.len() && self.nonces@[k as int].user@ == user@,
                None => forall|i: int|
                    0 <= i < self.nonces@.len() ==> (#[trigger] self.nonces@[i]).user@ != user@,
            },
    {
        let mut i: usize = 0;
        while i < self.nonces.len()
            invariant
                i <= self.nonces@.len(),
                forall|j: int| 0 <= j < i ==> (#[trigger] self.nonces@[j]).user@ != user@,
            decreases self.nonces@.len() - i,
        {
            if self.nonces[i].user.same_as(user) {
                return Some(i);
            }
            i += 1;
        }
        None
    }

    /// The next nonce expected from `user`.
    pub fn get_nonce(&self, user: Address) -> (r: U256)
        requires
            self.wf(),
        ensures
            r == self.spec_nonce(user@),
    {
        match self.find_entry(&user) {
            Some(k) => {
                proof {
                    self.lemma_nonce_at(k as int);
                }
                self.nonces[k].next
            },
            None => U256::zero(),
        }
    }

    /// Records `next` as `user`'s next nonce.
    fn set_nonce(&mut self, user: Address, next: U256)
        requires
            old(self).wf(),
        ensures
            final(self).wf(),
            final(self).spec_nonce(user@) == next,
            forall|u: Seq<u8>| u != user@ ==> #[trigger] final(self).spec_nonce(u) == old(self).spec_nonce(u),
            final(self).same_config(old(self)),
            final(self).spec_events() == old(self).spec_events(),
    {
        let ghost before = *self;
        match self.find_entry(&user) {
            Some(k) => {
                self.nonces.set(k, NonceEntry { user, next });
                proof {
                    assert(self.wf());
                    self.lemma_nonce_at(k as int);
                    assert forall|u: Seq<u8>| u != user@ implies #[trigger] self.spec_nonce(u)
                        == before.spec_nonce(u) by {
                        if exists|i: int|
                            0 <= i < before.nonces@.len() && (#[trigger] before.nonces@[i]).user@
                                == u {
                            let i = choose|i: int|
                                0 <= i < before.nonces@.len() && (#[trigger] before.nonces@[i]).user@
                                    == u;
                            before.lemma_nonce_at(i);
                            self.lemma_nonce_at(i);
                        } else {
                            assert(!exists|i: int|
                                0 <= i < self.nonces@.len() && (#[trigger] self.nonces@[i]).user@
                                    == u);
                        }
                    }
                }
            },
            None => {
                self.nonces.push(NonceEntry { user, next });
                proof {
                    let n = before.nonces@.len() as int;
                    assert(self.nonces@[n].user@ == user@);
                    assert(self.wf());
                    self.lemma_nonce_at(n);
                    assert forall|u: Seq<u8>| u != user@ implies #[trigger] self.spec_nonce(u)
                        == before.spec_nonce(u) by {
                        if exists|i: int|
                            0 <= i < before.nonces@.len() && (#[trigger] before.nonces@[i]).user@
                                == u {
                            let i = choose|i: int|
                                0 <= i < before.nonces@.len() && (#[trigger] before.nonces@[i]).user@
                                    == u;
                            before.lemma_nonce_at(i);
                            assert(self.nonces@[i] == before.nonces@[i]);
                            self.lemma_nonce_at(i);
                        } else {
                            assert(!exists|i: int|
                                0 <= i < self.nonces@.len() && (#[trigger] self.nonces@[i]).user@
                                    == u) by {
                                if exists|i: int|
                                    0 <= i < self.nonces@.len() && (#[trigger] self.nonces@[i]).user@
                                        == u {
                                    let i = choose|i: int|
                                        0 <= i < self.nonces@.len() && (
                                        #[trigger] self.nonces@[i]).user@ == u;
                                    if i < n {
                                        assert(before.nonces@[i] == self.nonces@[i]);
                                    }
                                }
                            }
                        }
                    }
                }
            },
        }
    }

    /// One-time setup: `caller` becomes the owner and `target` the allowed target.
    pub fn initialize(&mut self, caller: Address, target: Address) -> (r: Result<(), PaymasterError>)
        requires
            old(self).wf(),
        ensures
            final(self).wf(),
            old(self).spec_initialized() ==> r == Err::<(), PaymasterError>(
                PaymasterError::AlreadyInitialized,
            ) && *final(self) == *old(self),
            !old(self).spec_initialized() ==> {
                &&& r is Ok
                &&& final(self).spec_owner() == caller
                &&& final(self).spec_target() == target
                &&& final(self).spec_initialized()
                &&& !final(self).spec_paused()
                &&& final(self).same_nonces(old(self))
                &&& final(self).spec_events() == old(self).spec_events()
            },
    {
        if self.initialized {
            return Err(PaymasterError::AlreadyInitialized);
        }
        self.owner = caller;
        self.allowed_target = target;
        self.initialized = true;
        self.paused = false;
        proof {
            self.lemma_same_table(old(self));
        }
        Ok(())
    }

    /// The authorization gates and the replay guard of a request: on success
    /// the author's nonce is consumed, before anything is called.
    pub fn begin_execute(
        &mut self,
        now: U256,
        from: Address,
        to: Address,
        nonce: U256,
        deadline: U256,
    ) -> (r: Result<(), PaymasterError>)
        requires
            old(self).wf(),
        ensures
            final(self).wf(),
            match old(self).gate_error(now, from, to, nonce, deadline) {
                Some(e) => r == Err::<(), PaymasterError>(e) && *final(self) == *old(self),
                None => {
                    &&& r is Ok
                    &&& old(self).nonce_advanced(final(self), from@)
                    &&& final(self).same_config(old(self))
                    &&& final(self).spec_events() == old(self).spec_events()
                },
            },
    {
        if !self.initialized {
            return Err(PaymasterError::NotInitialized);
        }
        if self.paused {
            return Err(PaymasterError::ContractPaused);
        }
        if deadline.lt(&now) {
            return Err(PaymasterError::DeadlineExpired { deadline, current_time: now });
        }
        if !to.same_as(&self.allowed_target) {
            return Err(PaymasterError::TargetNotAllowed { target: to });
        }
        let expected = self.get_nonce(from);
        if !nonce.same_as(&expected) {
            return Err(PaymasterError::InvalidNonce { expected, provided: nonce });
        }
        let next = expected.wrapping_inc();
        self.set_nonce(from, next);
        Ok(())
    }

    /// The signer check of a request: reads what the recovery primitive
    /// returned (`None`: the call failed) and compares it with the author.
    pub fn check_signer(from: Address, output: Option<Vec<u8>>) -> (r: Result<(), PaymasterError>)
        ensures
            match recovered_signer(output_view(output)) {
                None => r == Err::<(), PaymasterError>(PaymasterError::EcrecoverFailed),
                Some(a) => if a == from@ {
                    r is Ok
                } else {
                    r matches Err(PaymasterError::InvalidSignature { expected, recovered }) && expected
                        == from && recovered@ == a
                },
            },
    {
        let recovered = match decode_recovered(output) {
            Ok(a) => a,
            Err(e) => {
                return Err(e);
            },
        };
        if !recovered.same_as(&from) {
            return Err(PaymasterError::InvalidSignature { expected: from, recovered });
        }
        Ok(())
    }

    /// Logs the outcome of the forwarded call of an accepted request and
    /// reports it: its output, or `CallFailed`. The nonce stays consumed.
    pub fn finish_execute(
        &mut self,
        from: Address,
        to: Address,
        nonce: U256,
        call_output: Option<Vec<u8>>,
    ) -> (r: Result<Vec<u8>, PaymasterError>)
        requires
            old(self).wf(),
        ensures
            final(self).wf(),
            final(self).same_config(old(self)),
            final(self).same_nonces(old(self)),
            final(self).spec_events() == old(self).spec_events().push(
                Event::MetaTxExecuted { user: from, target: to, nonce, success: call_output is Some },
            ),
            match call_output {
                Some(o) => r matches Ok(out) && out@ == o@,
                None => r == Err::<Vec<u8>, PaymasterError>(PaymasterError::CallFailed),
            },
    {
        let success = call_output.is_some();
        self.events.push(Event::MetaTxExecuted { user: from, target: to, nonce, success });
        proof {
            self.lemma_same_table(old(self));
        }
        match call_output {
            Some(o) => Ok(o),
            None => Err(PaymasterError::CallFailed),
        }
    }

    /// What the host is asked, in order, for an accepted request: the
    /// consumed nonce is stored first, then the signer is recovered from the
    /// signed hash, and only if it is the author is the target called.
    pub open spec fn host_calls_of(
        &self,
        post: &Paymaster,
        from: Address,
        to: Address,
        value: U256,
        data: Seq<u8>,
        nonce: U256,
        deadline: U256,
        v: u8,
        r: B256,
        s: B256,
        calls: Seq<HostCall>,
    ) -> bool {
        let input = recovery_input_spec(message_hash(from@, to@, value, data, nonce, deadline), v, r@, s@);
        &&& calls.len() >= 2
        &&& calls[0] == HostCall::NonceStored { user: from, next: post.spec_nonce(from@) }
        &&& calls[1] matches HostCall::Recover { input: i, output: o } && i == input && if recovered_signer(o) == Some(from@) {
            &&& calls.len() == 3
            &&& calls[2] matches HostCall::Forward { to: t, value: w, data: d, output: _ } && t == to && w == value && d == data
        } else {
            calls.len() == 2
        }
    }

    /// The outcome of an accepted request, given what the host answered.
    pub open spec fn outcome_of(
        &self,
        post: &Paymaster,
        res: Result<Vec<u8>, PaymasterError>,
        from: Address,
        to: Address,
        nonce: U256,
        calls: Seq<HostCall>,
    ) -> bool {
        let recovered = match calls[1] {
            HostCall::Recover { input: _, output: o } => recovered_signer(o),
            _ => None,
        };
        match recovered {
            None => res == Err::<Vec<u8>, PaymasterError>(PaymasterError::EcrecoverFailed)
                && post.spec_events() == self.spec_events(),
            Some(a) => if a != from@ {
                &&& res matches Err(PaymasterError::InvalidSignature { expected, recovered })
                    && expected == from && recovered@ == a
                &&& post.spec_events() == self.spec_events()
            } else {
                match calls[2] {
                    HostCall::Forward { to: _, value: _, data: _, output: co } => {
                        &&& post.spec_events() == self.spec_events().push(
                            Event::MetaTxExecuted { user: from, target: to, nonce, success: co is Some },
                        )
                        &&& match co {
                            Some(o) => res matches Ok(out) && out@ == o,
                            None => res == Err::<Vec<u8>, PaymasterError>(PaymasterError::CallFailed),
                        }
                    },
                    _ => false,
                }
            },
        }
    }

    /// Runs a signed request: the gates and the replay guard, then (the
    /// consumed nonce stored) the signature check and, if the author signed,
    /// the forwarded call, each through `host`.
    pub fn execute<H: Host>(
        &mut self,
        host: &mut HostLog<H>,
        now: U256,
        from: Address,
        to: Address,
        value: U256,
        data: Vec<u8>,
        nonce: U256,
        deadline: U256,
        v: u8,
        r: B256,
        s: B256,
    ) -> (res: Result<Vec<u8>, PaymasterError>)
        requires
            old(self).wf(),
        ensures
            final(self).wf(),
            final(self).same_config(old(self)),
            match old(self).gate_error(now, from, to, nonce, deadline) {
                Some(e) => {
                    &&& res == Err::<Vec<u8>, PaymasterError>(e)
                    &&& *final(self) == *old(self)
                    &&& *final(host) == *old(host)
                },
                None => {
                    let calls = final(host).trace().subrange(
                        old(host).trace().len() as int,
                        final(host).trace().len() as int,
                    );
                    &&& final(host).trace().len() >= old(host).trace().len()
                    &&& final(host).trace().subrange(0, old(host).trace().len() as int)
                        == old(host).trace()
                    &&& old(self).nonce_advanced(final(self), from@)
                    &&& old(self).host_calls_of(
                        final(self),
                        from,
                        to,
                        value,
                        data@,
                        nonce,
                        deadline,
                        v,
                        r,
                        s,
                        calls,
                    )
                    &&& old(self).outcome_of(final(self), res, from, to, nonce, calls)
                },
            },
    {
        let ghost start = host.trace();
        self.begin_execute(now, from, to, nonce, deadline)?;
        let next = self.get_nonce(from);
        host.store_nonce(from, next);
        let hash = compute_hash(&from, &to, &value, data.as_slice(), &nonce, &deadline);
        let input = recovery_input(&hash, v, &r, &s);
        let output = host.recover(&input);
        let ghost after_recover = host.trace();
        let checked = Self::check_signer(from, output);
        if let Err(e) = checked {
            proof {
                let calls = host.trace().subrange(start.len() as int, host.trace().len() as int);
                assert(host.trace().subrange(0, start.len() as int) =~= start);
                assert(calls =~= seq![calls[0], calls[1]]);
            }
            return Err(e);
        }
        let call_output = host.call(to, value, &data);
        let result = self.finish_execute(from, to, nonce, call_output);
        proof {
            let calls = host.trace().subrange(start.len() as int, host.trace().len() as int);
            assert(host.trace().subrange(0, start.len() as int) =~= start);
            assert(calls.len() == 3);
            assert(calls[1] == after_recover[start.len() as int + 1]);
        }
        result
    }

    /// Whether `caller` may administer: the relay is initialized and `caller` owns it.
    pub open spec fn is_owner(&self, caller: Address) -> bool {
        self.spec_initialized() && caller@ == self.spec_owner()@
    }

    fn only_owner(&self, caller: Address) -> (r: Result<(), PaymasterError>)
        ensures
            r == if self.is_owner(caller) {
                Ok::<(), PaymasterError>(())
            } else {
                Err(PaymasterError::NotOwner)
            },
    {
        if !self.initialized || !caller.same_as(&self.owner) {
            return Err(PaymasterError::NotOwner);
        }
        Ok(())
    }

    /// Replaces the allowed target (owner only).
    pub fn set_allowed_target(&mut self, caller: Address, new_target: Address) -> (r: Result<
        (),
        PaymasterError,
    >)
        requires
            old(self).wf(),
        ensures
            final(self).wf(),
            !old(self).is_owner(caller) ==> r == Err::<(), PaymasterError>(PaymasterError::NotOwner)
                && *final(self) == *old(self),
            old(self).is_owner(caller) ==> {
                &&& r is Ok
                &&& final(self).spec_target() == new_target
                &&& final(self).spec_owner() == old(self).spec_owner()
                &&& final(self).spec_paused() == old(self).spec_paused()
                &&& final(self).spec_initialized() == old(self).spec_initialized()
                &&& final(self).same_nonces(old(self))
                &&& final(self).spec_events() == old(self).spec_events().push(
                    Event::TargetUpdated { old_target: old(self).spec_target(), new_target },
                )
            },
    {
        self.only_owner(caller)?;
        let old_target = self.allowed_target;
        self.allowed_target = new_target;
        self.events.push(Event::TargetUpdated { old_target, new_target });
        proof {
            self.lemma_same_table(old(self));
        }
        Ok(())
    }

    fn set_paused(&mut self, caller: Address, paused: bool) -> (r: Result<(), PaymasterError>)
        requires
            old(self).wf(),
        ensures
            final(self).wf(),
            !old(self).is_owner(caller) ==> r == Err::<(), PaymasterError>(PaymasterError::NotOwner)
                && *final(self) == *old(self),
            old(self).is_owner(caller) ==> {
                &&& r is Ok
                &&& final(self).spec_paused() == paused
                &&& final(self).spec_owner() == old(self).spec_owner()
                &&& final(self).spec_target() == old(self).spec_target()
                &&& final(self).spec_initialized() == old(self).spec_initialized()
                &&& final(self).same_nonces(old(self))
                &&& final(self).spec_events() == old(self).spec_events().push(
                    Event::PausedStateChanged { paused },
                )
            },
    {
        self.only_owner(caller)?;
        self.paused = paused;
        self.events.push(Event::PausedStateChanged { paused });
        proof {
            self.lemma_same_table(old(self));
        }
        Ok(())
    }

    /// Stops execution of requests (owner only).
    pub fn pause(&mut self, caller: Address) -> (r: Result<(), PaymasterError>)
        requires
            old(self).wf(),
        ensures
            final(self).wf(),
            !old(self).is_owner(caller) ==> r == Err::<(), PaymasterError>(PaymasterError::NotOwner)
                && *final(self) == *old(self),
            old(self).is_owner(caller) ==> {
                &&& r is Ok
                &&& final(self).spec_paused()
                &&& final(self).spec_owner() == old(self).spec_owner()
                &&& final(self).spec_target() == old(self).spec_target()
                &&& final(self).spec_initialized() == old(self).spec_initialized()
                &&& final(self).same_nonces(old(self))
                &&& final(self).spec_events() == old(self).spec_events().push(
                    Event::PausedStateChanged { paused: true },
                )
            },
    {
        self.set_paused(caller, true)
    }

    /// Resumes execution of requests (owner only).
    pub fn unpause(&mut self, caller: Address) -> (r: Result<(), PaymasterError>)
        requires
            old(self).wf(),
        ensures
            final(self).wf(),
            !old(self).is_owner(caller) ==> r == Err::<(), PaymasterError>(PaymasterError::NotOwner)
                && *final(self) == *old(self),
            old(self).is_owner(caller) ==> {
                &&& r is Ok
                &&& !final(self).spec_paused()
                &&& final(self).spec_owner() == old(self).spec_owner()
                &&& final(self).spec_target() == old(self).spec_target()
                &&& final(self).spec_initialized() == old(self).spec_initialized()
                &&& final(self).same_nonces(old(self))
                &&& final(self).spec_events() == old(self).spec_events().push(
                    Event::PausedStateChanged { paused: false },
                )
            },
    {
        self.set_paused(caller, false)
    }

    /// Hands the relay to `new_owner` (owner only).
    pub fn transfer_ownership(&mut self, caller: Address, new_owner: Address) -> (r: Result<
        (),
        PaymasterError,
    >)
        requires
            old(self).wf(),
        ensures
            final(self).wf(),
            !old(self).is_owner(caller) ==> r == Err::<(), PaymasterError>(PaymasterError::NotOwner)
                && *final(self) == *old(self),
            old(self).is_owner(caller) ==> {
                &&& r is Ok
                &&& final(self).spec_owner() == new_owner
                &&& final(self).spec_target() == old(self).spec_target()
                &&& final(self).spec_paused() == old(self).spec_paused()
                &&& final(self).spec_initialized() == old(self).spec_initialized()
                &&& final(self).same_nonces(old(self))
                &&& final(self).spec_events() == old(self).spec_events().push(
                    Event::OwnershipTransferred { previous_owner: old(self).spec_owner(), new_owner },
                )
            },
    {
        self.only_owner(caller)?;
        let previous_owner = self.owner;
        self.owner = new_owner;
        self.events.push(Event::OwnershipTransferred { previous_owner, new_owner });
        proof {
            self.lemma_same_table(old(self));
        }
        Ok(())
    }

    pub fn get_allowed_target(&self) -> (r: Address)
        ensures
            r == self.spec_target(),
    {
        self.allowed_target
    }

    pub fn get_owner(&self) -> (r: Address)
        ensures
            r == self.spec_owner(),
    {
        self.owner
    }

    pub fn is_paused(&self) -> (r: bool)
        ensures
            r == self.spec_paused(),
    {
        self.paused
    }

    pub fn is_initialized(&self) -> (r: bool)
        ensures
            r == self.spec_initialized(),
    {
        self.initialized
    }

    /// The audit log, oldest entry first.
    pub fn get_events(&self) -> (r: &Vec<Event>)
        ensures
            r@ == self.spec_events(),
    {
        &self.events
    }

    /// The hash that the author of the request must sign.
    pub fn get_message_hash(
        &self,
        from: Address,
        to: Address,
        value: U256,
        data: Vec<u8>,
        nonce: U256,
        deadline: U256,
    ) -> (r: B256)
        ensures
            r@ == message_hash(from@, to@, value, data@, nonce, deadline),
    {
        compute_hash(&from, &to, &value, data.as_slice(), &nonce, &deadline)
    }
}

} // verus!
