use vstd::prelude::*;
use crate::errors::OracleError;
use crate::ledger::AssetLedger;

verus! {

/// The value recorded for one epoch.
#[derive(Clone, Copy, Debug, PartialEq, Eq, Structural)]
pub struct EpochData {
    pub value: u32,
}

/// Tags of the flat key-value layout under which a host persists oracle
/// state: one key per concept, plus one `EpochData(epoch)` entry per reported
/// epoch. External indexers that read raw storage key it this way, so glue
/// code that loads or stores a [`WeatherOracle`] on a durable store must keep
/// this one-key-per-concept shape.
#[derive(Clone, Copy, Debug, PartialEq, Eq, Structural)]
pub enum DataKey {
    Initialized,
    ContractOwner,
    EpochData(u32),
    Relayer,
    EpochDuration,
    ContinuityRequirement,
    Threshold,
    Continuity,
    LatestUpdate,
    Token,
    Recipient,
}

/// Index of the epoch containing the instant `now` (seconds), for windows of
/// `duration` seconds.
pub open spec fn epoch_of(now: u64, duration: u32) -> int
    recommends
        duration > 0,
{
    now as int / duration as int
}

/// The oracle: configuration fixed at initialization, the gap-free series of
/// epoch records, and the continuity bookkeeping.
///
/// Identities (owner, relayer, asset, recipient, the contract's own address)
/// are plain identity numbers; the host that authenticates callers and holds
/// the asset ledger lives outside this crate and hands every entry point the
/// authenticated-caller flag and the current timestamp as arguments.
pub struct WeatherOracle {
    contract_address: u64,
    initialized: bool,
    contract_owner: u64,
    relayer: u64,
    epoch_duration: u32,
    continuity_requirement: u32,
    threshold: u32,
    token: u64,
    recipient: u64,
    continuity: u32,
    genesis_epoch: u32,
    latest_update: u32,
    records: Vec<u32>,
}

impl WeatherOracle {
    /// Whether `initialize` has run.
    pub closed spec fn is_initialized(self) -> bool {
        self.initialized
    }

    /// The address the oracle itself holds assets under.
    pub closed spec fn spec_contract_address(self) -> u64 {
        self.contract_address
    }

    /// The identity allowed to change threshold and continuity requirement.
    pub closed spec fn spec_owner(self) -> u64 {
        self.contract_owner
    }

    /// The single identity allowed to report values.
    pub closed spec fn spec_relayer(self) -> u64 {
        self.relayer
    }

    /// Length of one epoch, in seconds; positive once initialized.
    pub closed spec fn spec_epoch_duration(self) -> u32 {
        self.epoch_duration
    }

    /// Streak length at which the payout fires.
    pub closed spec fn spec_continuity_requirement(self) -> u32 {
        self.continuity_requirement
    }

    /// Values must exceed this to extend the streak.
    pub closed spec fn spec_threshold(self) -> u32 {
        self.threshold
    }

    /// Identity of the escrowed asset.
    pub closed spec fn spec_token(self) -> u64 {
        self.token
    }

    /// Identity the payout goes to.
    pub closed spec fn spec_recipient(self) -> u64 {
        self.recipient
    }

    /// Count of consecutive accepted reports whose value exceeded the
    /// threshold.
    pub closed spec fn spec_continuity(self) -> u32 {
        self.continuity
    }

    /// The epoch seeded with a zero record at initialization.
    pub closed spec fn spec_genesis_epoch(self) -> u32 {
        self.genesis_epoch
    }

    /// The epoch of the most recently accepted report.
    pub closed spec fn spec_latest_update(self) -> u32 {
        self.latest_update
    }

    /// The recorded values, in epoch order: entry `i` belongs to epoch
    /// `genesis + i`.
    pub closed spec fn records(self) -> Seq<u32> {
        self.records@
    }

    /// Structural invariant: once initialized, the epoch duration is
    /// positive, the record series runs gap-free from the genesis epoch to
    /// the latest updated epoch, and the streak never exceeds the number of
    /// reports accepted since genesis.
    pub open spec fn wf(self) -> bool {
        &&& (self.is_initialized() ==> {
            &&& self.spec_epoch_duration() > 0
            &&& self.records().len() >= 1
            &&& self.spec_latest_update() == self.spec_genesis_epoch() + self.records().len() - 1
            &&& self.spec_continuity() <= self.spec_latest_update() - self.spec_genesis_epoch()
        })
        &&& (!self.is_initialized() ==> self.records().len() == 0)
    }

    /// A value has been recorded for `epoch`: exactly the contiguous range
    /// from genesis to the latest updated epoch.
    pub open spec fn has_record(self, epoch: u32) -> bool {
        self.is_initialized() && self.spec_genesis_epoch() <= epoch <= self.spec_latest_update()
    }

    /// The value recorded for `epoch`.
    pub open spec fn record_at(self, epoch: u32) -> u32
        recommends
            self.wf(),
            self.has_record(epoch),
    {
        self.records()[epoch - self.spec_genesis_epoch()]
    }

    /// The epoch the clock reads at `now` under this oracle's configuration.
    pub open spec fn spec_current_epoch(self, now: u64) -> int
        recommends
            self.spec_epoch_duration() > 0,
    {
        epoch_of(now, self.spec_epoch_duration())
    }

    /// The two-part submission check: the host authenticated the caller, and
    /// the caller is the configured relayer.
    pub open spec fn relayer_auth_ok(self, caller: u64, caller_authorized: bool) -> bool {
        caller_authorized && caller == self.spec_relayer()
    }

    /// The two-part administration check: the host authenticated the caller,
    /// and the caller is the configured owner.
    pub open spec fn owner_auth_ok(self, caller: u64, caller_authorized: bool) -> bool {
        caller_authorized && caller == self.spec_owner()
    }

    /// The streak right after accepting `value`: one longer when the value
    /// exceeds the threshold, reset to zero otherwise.
    pub open spec fn new_streak(self, value: u32) -> int {
        if value > self.spec_threshold() {
            self.spec_continuity() + 1
        } else {
            0
        }
    }

    /// Accepting `value` brings the streak up to the requirement, so the
    /// payout fires. Checked on every accepted report, not only at the first
    /// crossing.
    pub open spec fn pays_out(self, value: u32) -> bool {
        self.new_streak(value) >= self.spec_continuity_requirement()
    }

    /// The payout transfer (the oracle's full balance to the recipient) can
    /// go through on ledger `l`.
    pub open spec fn payout_admissible(self, l: AssetLedger) -> bool {
        AssetLedger::transfer_admissible(
            l,
            self.spec_contract_address(),
            self.spec_recipient(),
            l.spec_balance(self.spec_contract_address()),
        )
    }

    /// The first check a `set_value(caller, value, epoch)` submission fails,
    /// in order: initialization, authorization, a fully elapsed epoch,
    /// strict sequencing. `None` when every check passes.
    pub open spec fn set_value_error(
        self,
        caller: u64,
        caller_authorized: bool,
        epoch: u32,
        now: u64,
    ) -> Option<OracleError> {
        if !self.is_initialized() {
            Some(OracleError::NotInitialized)
        } else if !self.relayer_auth_ok(caller, caller_authorized) {
            Some(OracleError::Unauthorized)
        } else if !((epoch as int) < self.spec_current_epoch(now)) {
            Some(OracleError::FutureOrPresentEpoch)
        } else if epoch != self.spec_latest_update() + 1 {
            Some(OracleError::NonSequentialEpoch)
        } else {
            None
        }
    }
}

/// The recorded epochs form a gap-free range: whenever two epochs both have
/// records, so does every epoch between them. Strict sequencing enforces
/// this; reports cannot be skipped, reordered, or resubmitted.
pub proof fn lemma_records_gap_free(o: WeatherOracle, e1: u32, e2: u32, e: u32)
    requires
        o.has_record(e1),
        o.has_record(e2),
        e1 <= e <= e2,
    ensures
        o.has_record(e),
{
}

/// Once the streak has reached the requirement, any further report whose
/// value exceeds the threshold triggers the payout again: the condition is
/// re-evaluated on every accepted report, not only at the first crossing.
pub proof fn lemma_streak_at_requirement_pays_out(o: WeatherOracle, value: u32)
    requires
        o.spec_continuity() >= o.spec_continuity_requirement(),
        value > o.spec_threshold(),
    ensures
        o.pays_out(value),
{
}

/// The two oracles agree on everything set at initialization: the flag
/// itself, the identities, the epoch duration, and the genesis epoch.
pub open spec fn same_config(a: WeatherOracle, b: WeatherOracle) -> bool {
    &&& a.is_initialized() == b.is_initialized()
    &&& a.spec_contract_address() == b.spec_contract_address()
    &&& a.spec_owner() == b.spec_owner()
    &&& a.spec_relayer() == b.spec_relayer()
    &&& a.spec_epoch_duration() == b.spec_epoch_duration()
    &&& a.spec_token() == b.spec_token()
    &&& a.spec_recipient() == b.spec_recipient()
    &&& a.spec_genesis_epoch() == b.spec_genesis_epoch()
}

/// The two oracles agree on the owner-adjustable parameters.
pub open spec fn same_params(a: WeatherOracle, b: WeatherOracle) -> bool {
    &&& a.spec_threshold() == b.spec_threshold()
    &&& a.spec_continuity_requirement() == b.spec_continuity_requirement()
}

/// The two oracles agree on the record series and the continuity bookkeeping.
pub open spec fn same_history(a: WeatherOracle, b: WeatherOracle) -> bool {
    &&& a.spec_latest_update() == b.spec_latest_update()
    &&& a.spec_continuity() == b.spec_continuity()
    &&& a.records() == b.records()
}

/// Nothing observable about the oracle differs.
pub open spec fn same_oracle_state(a: WeatherOracle, b: WeatherOracle) -> bool {
    same_config(a, b) && same_params(a, b) && same_history(a, b)
}

/// State of the oracle right after a report `(value, epoch)` was accepted on
/// state `pre`: the value appended at `epoch`, the streak stepped, every
/// earlier record untouched, nothing else changed.
pub open spec fn accepted_post(
    pre: WeatherOracle,
    post: WeatherOracle,
    value: u32,
    epoch: u32,
) -> bool {
    &&& same_config(post, pre)
    &&& same_params(post, pre)
    &&& post.spec_latest_update() == epoch
    &&& post.spec_continuity() == pre.new_streak(value)
    &&& post.records() == pre.records().push(value)
    &&& post.has_record(epoch)
    &&& post.record_at(epoch) == value
    &&& forall|e: u32|
        pre.has_record(e) ==> post.has_record(e) && post.record_at(e) == pre.record_at(e)
}

/// Balances after a report with value `value` was accepted on oracle state
/// `o` and ledger `l0`: when the payout fires and the oracle is not its own
/// recipient, the oracle's full balance moves to the recipient and every
/// other balance stays; otherwise no balance changes.
pub open spec fn ledger_post(
    o: WeatherOracle,
    l0: AssetLedger,
    l1: AssetLedger,
    value: u32,
) -> bool {
    if o.pays_out(value) && o.spec_contract_address() != o.spec_recipient() {
        &&& l1.spec_balance(o.spec_contract_address()) == 0
        &&& l1.spec_balance(o.spec_recipient()) == l0.spec_balance(o.spec_recipient())
            + l0.spec_balance(o.spec_contract_address())
        &&& forall|q: u64|
            q != o.spec_contract_address() && q != o.spec_recipient() ==> l1.spec_balance(q)
                == l0.spec_balance(q)
    } else {
        AssetLedger::same_balances(l1, l0)
    }
}

impl WeatherOracle {
    /// A freshly deployed, not yet initialized oracle holding assets under
    /// `contract_address`.
    pub fn new(contract_address: u64) -> (r: WeatherOracle)
        ensures
            r.wf(),
            !r.is_initialized(),
            r.spec_contract_address() == contract_address,
    {
        WeatherOracle {
            contract_address,
            initialized: false,
            contract_owner: 0,
            relayer: 0,
            epoch_duration: 0,
            continuity_requirement: 0,
            threshold: 0,
            token: 0,
            recipient: 0,
            continuity: 0,
            genesis_epoch: 0,
            latest_update: 0,
            records: Vec::new(),
        }
    }

    /// The loaded parts describe a state this oracle can actually be in: a
    /// positive epoch duration, at least the genesis record, a record series
    /// that spans exactly `[genesis_epoch, latest_update]`, and a streak no
    /// longer than the number of reports accepted since genesis.
    pub open spec fn restorable(
        epoch_duration: u32,
        continuity: u32,
        genesis_epoch: u32,
        latest_update: u32,
        records: Seq<u32>,
    ) -> bool {
        &&& epoch_duration > 0
        &&& records.len() >= 1
        &&& latest_update == genesis_epoch + records.len() - 1
        &&& continuity <= latest_update - genesis_epoch
    }

    /// Rebuild an initialized oracle from state previously persisted under
    /// the [`DataKey`] layout: the per-concept values plus the record series
    /// in epoch order, the entry for `genesis_epoch` first. Returns `None`
    /// exactly when the parts do not describe a reachable oracle state.
    pub fn restore(
        contract_address: u64,
        contract_owner: u64,
        relayer: u64,
        epoch_duration: u32,
        continuity_requirement: u32,
        threshold: u32,
        token: u64,
        recipient: u64,
        continuity: u32,
        genesis_epoch: u32,
        latest_update: u32,
        records: Vec<u32>,
    ) -> (r: Option<WeatherOracle>)
        ensures
            r is Some <==> Self::restorable(
                epoch_duration,
                continuity,
                genesis_epoch,
                latest_update,
                records@,
            ),
            r matches Some(o) ==> {
                &&& o.wf()
                &&& o.is_initialized()
                &&& o.spec_contract_address() == contract_address
                &&& o.spec_owner() == contract_owner
                &&& o.spec_relayer() == relayer
                &&& o.spec_epoch_duration() == epoch_duration
                &&& o.spec_continuity_requirement() == continuity_requirement
                &&& o.spec_threshold() == threshold
                &&& o.spec_token() == token
                &&& o.spec_recipient() == recipient
                &&& o.spec_continuity() == continuity
                &&& o.spec_genesis_epoch() == genesis_epoch
                &&& o.spec_latest_update() == latest_update
                &&& o.records() == records@
            },
    {
        if epoch_duration == 0 || records.len() == 0 {
            return None;
        }
        let span: usize = records.len() - 1;
        if span as u64 > (u32::MAX as u64) - (genesis_epoch as u64) {
            return None;
        }
        if (genesis_epoch as u64) + (span as u64) != latest_update as u64 {
            return None;
        }
        if (continuity as u64) > span as u64 {
            return None;
        }
        Some(
            WeatherOracle {
                contract_address,
                initialized: true,
                contract_owner,
                relayer,
                epoch_duration,
                continuity_requirement,
                threshold,
                token,
                recipient,
                continuity,
                genesis_epoch,
                latest_update,
                records,
            },
        )
    }

    /// One-time setup: records the configuration verbatim, zeroes the streak,
    /// and seeds the sequencing invariant with a zero-value record at the
    /// epoch `now` falls in, so the first real report must target its
    /// successor. A second call fails with `AlreadyInitialized` and changes
    /// nothing.
    pub fn initialize(
        &mut self,
        caller: u64,
        relayer: u64,
        epoch_duration: u32,
        continuity_requirement: u32,
        threshold: u32,
        token: u64,
        recipient: u64,
        now: u64,
    ) -> (r: Result<(), OracleError>)
        requires
            old(self).wf(),
            epoch_duration > 0,
            epoch_of(now, epoch_duration) <= u32::MAX,
        ensures
            final(self).wf(),
            old(self).is_initialized() ==> r == Err::<(), OracleError>(
                OracleError::AlreadyInitialized,
            ) && same_oracle_state(*final(self), *old(self)),
            !old(self).is_initialized() ==> {
                &&& r == Ok::<(), OracleError>(())
                &&& final(self).is_initialized()
                &&& final(self).spec_contract_address() == old(self).spec_contract_address()
                &&& final(self).spec_owner() == caller
                &&& final(self).spec_relayer() == relayer
                &&& final(self).spec_epoch_duration() == epoch_duration
                &&& final(self).spec_continuity_requirement() == continuity_requirement
                &&& final(self).spec_threshold() == threshold
                &&& final(self).spec_token() == token
                &&& final(self).spec_recipient() == recipient
                &&& final(self).spec_continuity() == 0
                &&& final(self).spec_genesis_epoch() == epoch_of(now, epoch_duration)
                &&& final(self).spec_latest_update() == final(self).spec_genesis_epoch()
                &&& final(self).records().len() == 1
                &&& final(self).record_at(final(self).spec_genesis_epoch()) == 0
            },
    {
        if self.initialized {
            return Err(OracleError::AlreadyInitialized);
        }
        let current_epoch_wide: u64 = now / (epoch_duration as u64);
        let current_epoch: u32 = current_epoch_wide as u32;
        self.contract_owner = caller;
        self.initialized = true;
        self.relayer = relayer;
        self.epoch_duration = epoch_duration;
        self.continuity_requirement = continuity_requirement;
        self.threshold = threshold;
        self.token = token;
        self.recipient = recipient;
        self.continuity = 0;
        self.genesis_epoch = current_epoch;
        self.latest_update = current_epoch;
        let mut seeded: Vec<u32> = Vec::new();
        seeded.push(0);
        self.records = seeded;
        Ok(())
    }

    /// The submission path, one atomic unit: authenticate the relayer,
    /// require a fully elapsed and strictly sequential epoch, append the
    /// record, step the streak, and — when the streak meets the requirement —
    /// move the oracle's entire balance on `ledger` to the recipient. On any
    /// failure, including a failing payout transfer, neither the oracle nor
    /// the ledger changes.
    pub fn set_value(
        &mut self,
        ledger: &mut AssetLedger,
        caller: u64,
        caller_authorized: bool,
        value: u32,
        epoch: u32,
        now: u64,
    ) -> (r: Result<(), OracleError>)
        requires
            old(self).wf(),
            old(self).is_initialized() ==> old(self).spec_current_epoch(now) <= u32::MAX,
        ensures
            final(self).wf(),
            final(self).spec_latest_update() >= old(self).spec_latest_update(),
            (match old(self).set_value_error(caller, caller_authorized, epoch, now) {
                Some(e) => r == Err::<(), OracleError>(e) && same_oracle_state(
                    *final(self),
                    *old(self),
                ) && AssetLedger::same_balances(*final(ledger), *old(ledger)),
                None => if old(self).pays_out(value) && !old(self).payout_admissible(
                    *old(ledger),
                ) {
                    r == Err::<(), OracleError>(OracleError::TransferFailed) && same_oracle_state(
                        *final(self),
                        *old(self),
                    ) && AssetLedger::same_balances(*final(ledger), *old(ledger))
                } else {
                    r == Ok::<(), OracleError>(()) && accepted_post(
                        *old(self),
                        *final(self),
                        value,
                        epoch,
                    ) && ledger_post(*old(self), *old(ledger), *final(ledger), value)
                },
            }),
    {
        if !self.initialized {
            return Err(OracleError::NotInitialized);
        }
        if !(caller_authorized && caller == self.relayer) {
            return Err(OracleError::Unauthorized);
        }
        let current_epoch: u64 = now / (self.epoch_duration as u64);
        if !((epoch as u64) < current_epoch) {
            return Err(OracleError::FutureOrPresentEpoch);
        }
        if !((epoch as u64) == (self.latest_update as u64) + 1) {
            return Err(OracleError::NonSequentialEpoch);
        }
        let new_streak: u32 = if value > self.threshold {
            proof {
                assert(self.spec_continuity() < u32::MAX);
            }
            self.continuity + 1
        } else {
            0
        };
        if new_streak >= self.continuity_requirement {
            let balance = ledger.balance(self.contract_address);
            match ledger.transfer(self.contract_address, self.recipient, balance) {
                Ok(()) => {},
                Err(_) => {
                    return Err(OracleError::TransferFailed);
                },
            }
        }
        self.records.push(value);
        self.latest_update = epoch;
        self.continuity = new_streak;
        proof {
            assert(self.records() =~= old(self).records().push(value));
            assert forall|e: u32| old(self).has_record(e) implies self.has_record(e)
                && self.record_at(e) == old(self).record_at(e) by {
                assert(self.records()[e - self.spec_genesis_epoch()] == old(self).records()[e - old(
                    self,
                ).spec_genesis_epoch()]);
            }
        }
        Ok(())
    }

    /// Owner-only update of the continuity requirement; takes effect on the
    /// next report, with no recomputation of past streaks.
    pub fn set_continuity_requirement(
        &mut self,
        caller: u64,
        caller_authorized: bool,
        continuity_requirement: u32,
    ) -> (r: Result<(), OracleError>)
        requires
            old(self).wf(),
        ensures
            final(self).wf(),
            !old(self).is_initialized() ==> r == Err::<(), OracleError>(OracleError::NotInitialized)
                && same_oracle_state(*final(self), *old(self)),
            old(self).is_initialized() && !old(self).owner_auth_ok(caller, caller_authorized)
                ==> r == Err::<(), OracleError>(OracleError::Unauthorized) && same_oracle_state(
                *final(self),
                *old(self),
            ),
            old(self).is_initialized() && old(self).owner_auth_ok(caller, caller_authorized) ==> r
                == Ok::<(), OracleError>(()) && final(self).spec_continuity_requirement()
                == continuity_requirement && final(self).spec_threshold()
                == old(self).spec_threshold() && same_config(*final(self), *old(self))
                && same_history(*final(self), *old(self)),
    {
        if !self.initialized {
            return Err(OracleError::NotInitialized);
        }
        if !(caller_authorized && caller == self.contract_owner) {
            return Err(OracleError::Unauthorized);
        }
        self.continuity_requirement = continuity_requirement;
        Ok(())
    }

    /// Owner-only update of the threshold; takes effect on the next report,
    /// with no recomputation of past streaks.
    pub fn set_threshold(&mut self, caller: u64, caller_authorized: bool, threshold: u32) -> (r:
        Result<(), OracleError>)
        requires
            old(self).wf(),
        ensures
            final(self).wf(),
            !old(self).is_initialized() ==> r == Err::<(), OracleError>(OracleError::NotInitialized)
                && same_oracle_state(*final(self), *old(self)),
            old(self).is_initialized() && !old(self).owner_auth_ok(caller, caller_authorized)
                ==> r == Err::<(), OracleError>(OracleError::Unauthorized) && same_oracle_state(
                *final(self),
                *old(self),
            ),
            old(self).is_initialized() && old(self).owner_auth_ok(caller, caller_authorized) ==> r
                == Ok::<(), OracleError>(()) && final(self).spec_threshold() == threshold
                && final(self).spec_continuity_requirement()
                == old(self).spec_continuity_requirement()
                && same_config(*final(self), *old(self)) && same_history(*final(self), *old(self)),
    {
        if !self.initialized {
            return Err(OracleError::NotInitialized);
        }
        if !(caller_authorized && caller == self.contract_owner) {
            return Err(OracleError::Unauthorized);
        }
        self.threshold = threshold;
        Ok(())
    }

    /// The value reported for `epoch`. Succeeds exactly on the contiguous
    /// range of recorded epochs, from genesis to the latest update.
    pub fn get_value(&self, epoch: u32) -> (r: Result<u32, OracleError>)
        requires
            self.wf(),
        ensures
            r is Ok <==> self.has_record(epoch),
            self.has_record(epoch) ==> r == Ok::<u32, OracleError>(self.record_at(epoch)),
            !self.has_record(epoch) ==> r == Err::<u32, OracleError>(OracleError::RecordNotFound),
    {
        if !self.initialized {
            return Err(OracleError::RecordNotFound);
        }
        if epoch < self.genesis_epoch || epoch > self.latest_update {
            return Err(OracleError::RecordNotFound);
        }
        let idx: usize = (epoch - self.genesis_epoch) as usize;
        Ok(self.records[idx])
    }

    /// The full record for `epoch`, under the record shape persisted per
    /// epoch.
    pub fn get_epoch_data(&self, epoch: u32) -> (r: Result<EpochData, OracleError>)
        requires
            self.wf(),
        ensures
            r is Ok <==> self.has_record(epoch),
            self.has_record(epoch) ==> r is Ok && r->Ok_0.value == self.record_at(epoch),
            !self.has_record(epoch) ==> r == Err::<EpochData, OracleError>(
                OracleError::RecordNotFound,
            ),
    {
        match self.get_value(epoch) {
            Ok(value) => Ok(EpochData { value }),
            Err(e) => Err(e),
        }
    }

    /// The identity allowed to adjust threshold and continuity requirement.
    pub fn get_contract_owner(&self) -> (r: Result<u64, OracleError>)
        ensures
            self.is_initialized() ==> r == Ok::<u64, OracleError>(self.spec_owner()),
            !self.is_initialized() ==> r == Err::<u64, OracleError>(OracleError::NotInitialized),
    {
        if !self.initialized {
            return Err(OracleError::NotInitialized);
        }
        Ok(self.contract_owner)
    }

    /// The single identity allowed to report values.
    pub fn get_relayer(&self) -> (r: Result<u64, OracleError>)
        ensures
            self.is_initialized() ==> r == Ok::<u64, OracleError>(self.spec_relayer()),
            !self.is_initialized() ==> r == Err::<u64, OracleError>(OracleError::NotInitialized),
    {
        if !self.initialized {
            return Err(OracleError::NotInitialized);
        }
        Ok(self.relayer)
    }

    /// The configured streak length at which the payout fires.
    pub fn get_continuity_requirement(&self) -> (r: Result<u32, OracleError>)
        ensures
            self.is_initialized() ==> r == Ok::<u32, OracleError>(
                self.spec_continuity_requirement(),
            ),
            !self.is_initialized() ==> r == Err::<u32, OracleError>(OracleError::NotInitialized),
    {
        if !self.initialized {
            return Err(OracleError::NotInitialized);
        }
        Ok(self.continuity_requirement)
    }

    /// The configured threshold a value must exceed to extend the streak.
    pub fn get_threshold(&self) -> (r: Result<u32, OracleError>)
        ensures
            self.is_initialized() ==> r == Ok::<u32, OracleError>(self.spec_threshold()),
            !self.is_initialized() ==> r == Err::<u32, OracleError>(OracleError::NotInitialized),
    {
        if !self.initialized {
            return Err(OracleError::NotInitialized);
        }
        Ok(self.threshold)
    }

    /// The epoch index of the most recently accepted report, widened to the
    /// timestamp-sized integer this entry point hands out.
    pub fn get_last_update_time(&self) -> (r: Result<u64, OracleError>)
        ensures
            self.is_initialized() ==> r == Ok::<u64, OracleError>(
                self.spec_latest_update() as u64,
            ),
            !self.is_initialized() ==> r == Err::<u64, OracleError>(OracleError::NotInitialized),
    {
        if !self.initialized {
            return Err(OracleError::NotInitialized);
        }
        Ok(self.latest_update as u64)
    }

    /// The epoch the clock reads at `now`: `now` divided by the epoch
    /// duration, rounded down.
    pub fn get_current_epoch(&self, now: u64) -> (r: Result<u32, OracleError>)
        requires
            self.wf(),
            self.is_initialized() ==> self.spec_current_epoch(now) <= u32::MAX,
        ensures
            self.is_initialized() ==> r is Ok && r->Ok_0 == self.spec_current_epoch(now),
            !self.is_initialized() ==> r == Err::<u32, OracleError>(OracleError::NotInitialized),
    {
        if !self.initialized {
            return Err(OracleError::NotInitialized);
        }
        let current_epoch: u64 = now / (self.epoch_duration as u64);
        Ok(current_epoch as u32)
    }

    /// The current consecutive-streak counter.
    pub fn get_continuity(&self) -> (r: Result<u32, OracleError>)
        ensures
            self.is_initialized() ==> r == Ok::<u32, OracleError>(self.spec_continuity()),
            !self.is_initialized() ==> r == Err::<u32, OracleError>(OracleError::NotInitialized),
    {
        if !self.initialized {
            return Err(OracleError::NotInitialized);
        }
        Ok(self.continuity)
    }
}

} // verus!
