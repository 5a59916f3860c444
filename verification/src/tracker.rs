//! The transaction tracker: what one sender has in flight, which nonce and
//! fees its next transaction needs, and what the chain says of the ones it
//! sent.
//!
//! The tracker itself does no input or output. Its caller asks the chain and
//! the transaction sender what each step names, and hands the answers back.

use crate::primitives::{
    increased_by_percent, lemma_saturating_values, lemma_u256_from_nat, saturate,
    spec_saturating_add, u256_from_nat, H256, U256,
};
use vstd::prelude::*;

verus! {

/// The two fees of a transaction.
#[derive(Clone, Copy, Debug, PartialEq, Eq, Structural, Default)]
pub struct GasFees {
    pub max_fee_per_gas: U256,
    pub max_priority_fee_per_gas: U256,
}

impl GasFees {
    /// Both fees raised by `percent` hundredths, each raise rounded up and
    /// each fee capped at 2^256 - 1.
    pub open spec fn spec_increase_by_percent(self, percent: u64) -> GasFees {
        GasFees {
            max_fee_per_gas: u256_from_nat(
                saturate(
                    increased_by_percent(
                        self.max_fee_per_gas@,
                        percent as nat,
                    ) as int,
                ),
            ),
            max_priority_fee_per_gas: u256_from_nat(
                saturate(
                    increased_by_percent(
                        self.max_priority_fee_per_gas@,
                        percent as nat,
                    ) as int,
                ),
            ),
        }
    }

    /// Both fees raised by `percent` hundredths.
    pub fn increase_by_percent(self, percent: u64) -> (raised: GasFees)
        ensures
            raised == self.spec_increase_by_percent(percent),
    {
        let max_fee_per_gas = self.max_fee_per_gas.increase_by_percent(percent);
        let max_priority_fee_per_gas = self.max_priority_fee_per_gas.increase_by_percent(percent);
        proof {
            let fee = saturate(
                increased_by_percent(self.max_fee_per_gas@, percent as nat)
                    as int,
            );
            let priority = saturate(
                increased_by_percent(
                    self.max_priority_fee_per_gas@,
                    percent as nat,
                ) as int,
            );
            lemma_u256_from_nat(fee);
            lemma_u256_from_nat(priority);
            max_fee_per_gas.lemma_view_injective(u256_from_nat(fee));
            max_priority_fee_per_gas.lemma_view_injective(
                u256_from_nat(priority),
            );
        }
        GasFees { max_fee_per_gas, max_priority_fee_per_gas }
    }

    /// Whether both fees are at least those of `required`.
    pub open spec fn covers(self, required: GasFees) -> bool {
        self.max_fee_per_gas@ >= required.max_fee_per_gas@ && self.max_priority_fee_per_gas@
            >= required.max_priority_fee_per_gas@
    }
}

/// The fees that a transaction names, by the kind of the transaction.
#[derive(Clone, Copy, Debug, PartialEq, Eq, Structural)]
pub enum TransactionFees {
    /// A transaction with a fee and a priority fee of its own.
    Eip1559 { max_fee_per_gas: Option<U256>, max_priority_fee_per_gas: Option<U256> },
    /// A transaction with one gas price.
    Legacy { gas_price: Option<U256> },
}

impl GasFees {
    /// The two fees of a transaction: those that it names, where it names
    /// two, and its gas price for both, where it names one; zero for what it
    /// leaves open.
    pub fn from_transaction(fees: TransactionFees) -> (gas_fees: GasFees)
        ensures
            gas_fees == match fees {
                TransactionFees::Eip1559 { max_fee_per_gas, max_priority_fee_per_gas } => GasFees {
                    max_fee_per_gas: match max_fee_per_gas {
                        Some(fee) => fee,
                        None => U256 { w3: 0, w2: 0, w1: 0, w0: 0 },
                    },
                    max_priority_fee_per_gas: match max_priority_fee_per_gas {
                        Some(fee) => fee,
                        None => U256 { w3: 0, w2: 0, w1: 0, w0: 0 },
                    },
                },
                TransactionFees::Legacy { gas_price } => GasFees {
                    max_fee_per_gas: match gas_price {
                        Some(price) => price,
                        None => U256 { w3: 0, w2: 0, w1: 0, w0: 0 },
                    },
                    max_priority_fee_per_gas: match gas_price {
                        Some(price) => price,
                        None => U256 { w3: 0, w2: 0, w1: 0, w0: 0 },
                    },
                },
            },
    {
        match fees {
            TransactionFees::Eip1559 { max_fee_per_gas, max_priority_fee_per_gas } => GasFees {
                max_fee_per_gas: match max_fee_per_gas {
                    Some(fee) => fee,
                    None => U256::zero(),
                },
                max_priority_fee_per_gas: match max_priority_fee_per_gas {
                    Some(fee) => fee,
                    None => U256::zero(),
                },
            },
            TransactionFees::Legacy { gas_price } => {
                let price = match gas_price {
                    Some(price) => price,
                    None => U256::zero(),
                };
                GasFees { max_fee_per_gas: price, max_priority_fee_per_gas: price }
            },
        }
    }
}

/// How the tracker is to work.
#[derive(Clone, Copy, Debug, PartialEq, Eq, Structural)]
pub struct Settings {
    /// How long the caller sleeps between two looks at the chain, in
    /// milliseconds.
    pub poll_interval_millis: u64,
    /// After how many new blocks a wait gives up.
    pub max_blocks_to_wait_for_mine: u64,
    /// By how many hundredths a new attempt must raise the fees of the last.
    pub replacement_fee_percent_increase: u64,
    /// Whether a transaction that the sender reports as dropped is reported
    /// as dropped; where not, it counts as still pending.
    pub report_dropped: bool,
}

/// One transaction that was sent and is not known to be mined.
#[derive(Clone, Copy, Debug, PartialEq, Eq, Structural)]
pub struct PendingTransaction {
    pub tx_hash: H256,
    pub gas_fees: GasFees,
    pub attempt_number: u64,
}

/// What the transaction sender says of a transaction.
#[derive(Clone, Copy, Debug, PartialEq, Eq, Structural)]
pub enum TxStatus {
    Pending,
    Mined { block_number: u64 },
    Dropped,
}

/// Why the transaction sender did not send.
#[derive(Clone, Copy, Debug, PartialEq, Eq, Structural)]
pub enum TxSenderError {
    /// A transaction with the same nonce and fees at least as high waits
    /// already.
    ReplacementUnderpriced,
    /// Anything else.
    Other,
}

/// What the tracker found out.
#[derive(Clone, Copy, Debug, PartialEq, Eq, Structural)]
pub enum TrackerUpdate {
    /// One of the transactions was mined.
    Mined {
        tx_hash: H256,
        nonce: U256,
        block_number: u64,
        attempt_number: u64,
        gas_limit: Option<U256>,
        gas_used: Option<U256>,
    },
    /// Blocks went by and nothing happened.
    StillPendingAfterWait,
    /// The latest transaction was dropped.
    LatestTxDropped { nonce: U256 },
    /// The nonce of the sender went up, and none of the transactions was
    /// mined.
    NonceUsedForOtherTx { nonce: U256 },
    /// The transaction sender refused a replacement for its fees.
    ReplacementUnderpriced,
}

/// What sending a transaction came to.
#[derive(Clone, Copy, Debug, PartialEq, Eq, Structural)]
pub enum SendResult {
    /// The transaction was sent under this hash.
    TxHash(H256),
    /// It was not sent, for what the tracker found out meanwhile.
    TrackerUpdate(TrackerUpdate),
}

/// Why the tracker refuses a transaction before it is sent.
#[derive(Clone, Copy, Debug, PartialEq, Eq, Structural)]
pub enum ValidationError {
    /// The transaction has no nonce.
    NonceNotSet,
    /// The nonce of the transaction is not the one of the tracker.
    NonceMismatch { given: U256, required: U256 },
    /// A fee of the transaction is below what a replacement needs.
    FeesTooLow,
}

/// What the caller is to do next while the tracker looks for an update.
#[derive(Clone, Copy, Debug, PartialEq, Eq, Structural)]
pub enum CheckAction {
    /// Ask the transaction sender for the status of `tx_hash` and hand it,
    /// with `cursor`, to [`TransactionTracker::on_status`].
    GetStatus { tx_hash: H256, cursor: CheckCursor },
    /// Ask the chain for the gas limit and the gas used of `tx_hash` and
    /// hand them, with `cursor`, to [`TransactionTracker::on_gas_info`].
    GetGasInfo { tx_hash: H256, cursor: CheckCursor },
    /// The look is over, with this outcome.
    Done(Option<TrackerUpdate>),
}

/// Where a look for an update stands.
#[derive(Clone, Copy, Debug, PartialEq, Eq, Structural)]
pub enum CheckCursor {
    /// The nonce of the sender went up to `external_nonce`; the attempt at
    /// `attempt` is asked about, those after it are not mined.
    Scan { external_nonce: U256, attempt: usize },
    /// As `Scan`, and the attempt is mined in `block_number`.
    ScanMined { external_nonce: U256, attempt: usize, block_number: u64 },
    /// The nonce stands; the latest attempt is asked about.
    Latest,
    /// The latest attempt is mined, and the tracker has moved on.
    LatestMined { update: TrackerUpdate },
}

/// What the caller is to do next while it waits for an update.
#[derive(Clone, Copy, Debug, PartialEq, Eq, Structural)]
pub enum WaitAction {
    /// The wait is over, with this outcome.
    Return(TrackerUpdate),
    /// Ask the chain for the number of its latest block and hand it to
    /// [`wait_after_block`].
    GetBlockNumber,
    /// Sleep for the poll interval, then look for an update again.
    Sleep,
}

/// What the gauges of a tracker show.
#[derive(Clone, Copy, Debug, PartialEq, Eq, Structural)]
pub struct TrackerMetrics {
    pub num_pending_transactions: usize,
    pub nonce: U256,
    pub attempt_count: u64,
    pub current_max_fee_per_gas: U256,
    pub current_max_priority_fee_per_gas: U256,
}

/// The tracker as a mathematical value.
pub struct TrackerView {
    pub settings: Settings,
    pub nonce: U256,
    pub transactions: Seq<PendingTransaction>,
    pub has_dropped: bool,
    pub attempt_count: u64,
}

impl TrackerView {
    /// The attempts are numbered as they stand, and the attempt count is
    /// their number. Nothing counts as dropped unless the settings ask for
    /// drops to be reported; and where they do not, each attempt after the
    /// first offers at least the fees of the one before it, raised by the
    /// percentage of the settings.
    pub open spec fn wf(self) -> bool {
        &&& self.attempt_count == self.transactions.len()
        &&& forall|i: int|
            0 <= i < self.transactions.len() ==> (#[trigger] self.transactions[i]).attempt_number
                == i
        &&& self.has_dropped ==> self.settings.report_dropped
        &&& !self.settings.report_dropped ==> forall|i: int|
            0 <= i < self.transactions.len() - 1 ==> (#[trigger] self.transactions[i
                + 1]).gas_fees.covers(
                self.transactions[i].gas_fees.spec_increase_by_percent(
                    self.settings.replacement_fee_percent_increase,
                ),
            )
    }

    /// The tracker after it moved on to `nonce`: no attempts, nothing
    /// dropped.
    pub open spec fn reset(self, nonce: U256) -> TrackerView {
        TrackerView {
            nonce,
            transactions: Seq::empty(),
            has_dropped: false,
            attempt_count: 0,
            ..self
        }
    }

    /// The fees that the next transaction must offer at least: those of the
    /// latest attempt raised by the percentage of the settings; none where
    /// there is no attempt or the latest was dropped.
    pub open spec fn required_fees(self) -> Option<GasFees> {
        if self.has_dropped || self.transactions.len() == 0 {
            None
        } else {
            Some(
                self.transactions.last().gas_fees.spec_increase_by_percent(
                    self.settings.replacement_fee_percent_increase,
                ),
            )
        }
    }

    /// What the tracker says of a transaction with the given nonce and fees
    /// before it is sent.
    pub open spec fn validate(self, nonce: Option<U256>, gas_fees: GasFees) -> Result<
        (),
        ValidationError,
    > {
        match nonce {
            None => Err(ValidationError::NonceNotSet),
            Some(given) => if given != self.nonce {
                Err(ValidationError::NonceMismatch { given, required: self.nonce })
            } else if self.required_fees() matches Some(required) && !gas_fees.covers(required) {
                Err(ValidationError::FeesTooLow)
            } else {
                Ok(())
            },
        }
    }

    /// The tracker after a transaction was sent under `tx_hash`.
    pub open spec fn sent(self, tx_hash: H256, gas_fees: GasFees) -> TrackerView {
        TrackerView {
            transactions: self.transactions.push(
                PendingTransaction { tx_hash, gas_fees, attempt_number: self.attempt_count },
            ),
            has_dropped: false,
            attempt_count: (self.attempt_count + 1) as u64,
            ..self
        }
    }

    /// What the update is when the attempt at `attempt` turns out mined
    /// while the nonce stands at that of the tracker.
    pub open spec fn mined_update(
        self,
        attempt: int,
        block_number: u64,
        gas_limit: Option<U256>,
        gas_used: Option<U256>,
    ) -> TrackerUpdate {
        TrackerUpdate::Mined {
            tx_hash: self.transactions[attempt].tx_hash,
            nonce: self.nonce,
            block_number,
            attempt_number: self.transactions[attempt].attempt_number,
            gas_limit,
            gas_used,
        }
    }

    /// Whether a cursor belongs to this tracker: the attempt that it names
    /// is there.
    pub open spec fn accepts(self, cursor: CheckCursor) -> bool {
        match cursor {
            CheckCursor::Scan { attempt, .. } => attempt < self.transactions.len(),
            CheckCursor::ScanMined { attempt, .. } => attempt < self.transactions.len(),
            CheckCursor::Latest => self.transactions.len() > 0,
            CheckCursor::LatestMined { .. } => true,
        }
    }

    /// The first step of a look for an update, when the chain says that the
    /// nonce of the sender is `external_nonce`.
    pub open spec fn start_action(self, external_nonce: U256) -> CheckAction {
        if self.nonce@ < external_nonce@ {
            if self.transactions.len() == 0 {
                CheckAction::Done(Some(TrackerUpdate::NonceUsedForOtherTx { nonce: self.nonce }))
            } else {
                CheckAction::GetStatus {
                    tx_hash: self.transactions.last().tx_hash,
                    cursor: CheckCursor::Scan {
                        external_nonce,
                        attempt: (self.transactions.len() - 1) as usize,
                    },
                }
            }
        } else if self.has_dropped || self.transactions.len() == 0 {
            CheckAction::Done(None)
        } else {
            CheckAction::GetStatus {
                tx_hash: self.transactions.last().tx_hash,
                cursor: CheckCursor::Latest,
            }
        }
    }

    /// The tracker after the first step.
    pub open spec fn started(self, external_nonce: U256) -> TrackerView {
        if self.nonce@ < external_nonce@ && self.transactions.len() == 0 {
            self.reset(external_nonce)
        } else {
            self
        }
    }

    /// The step that follows a status.
    pub open spec fn status_action(self, cursor: CheckCursor, status: TxStatus) -> CheckAction {
        match cursor {
            CheckCursor::Scan { external_nonce, attempt } => match status {
                TxStatus::Mined { block_number } => CheckAction::GetGasInfo {
                    tx_hash: self.transactions[attempt as int].tx_hash,
                    cursor: CheckCursor::ScanMined { external_nonce, attempt, block_number },
                },
                _ => if attempt == 0 {
                    CheckAction::Done(
                        Some(TrackerUpdate::NonceUsedForOtherTx { nonce: self.nonce }),
                    )
                } else {
                    CheckAction::GetStatus {
                        tx_hash: self.transactions[attempt - 1].tx_hash,
                        cursor: CheckCursor::Scan {
                            external_nonce,
                            attempt: (attempt - 1) as usize,
                        },
                    }
                },
            },
            CheckCursor::Latest => match status {
                TxStatus::Pending => CheckAction::Done(None),
                TxStatus::Dropped => if self.settings.report_dropped {
                    CheckAction::Done(Some(TrackerUpdate::LatestTxDropped { nonce: self.nonce }))
                } else {
                    CheckAction::Done(None)
                },
                TxStatus::Mined { block_number } => CheckAction::GetGasInfo {
                    tx_hash: self.transactions.last().tx_hash,
                    cursor: CheckCursor::LatestMined {
                        update: self.mined_update(
                            self.transactions.len() - 1,
                            block_number,
                            None,
                            None,
                        ),
                    },
                },
            },
            _ => CheckAction::Done(None),
        }
    }

    /// The tracker after a status.
    pub open spec fn after_status(self, cursor: CheckCursor, status: TxStatus) -> TrackerView {
        match cursor {
            CheckCursor::Scan { external_nonce, attempt } => match status {
                TxStatus::Mined { .. } => self,
                _ => if attempt == 0 {
                    self.reset(external_nonce)
                } else {
                    self
                },
            },
            CheckCursor::Latest => match status {
                TxStatus::Pending => self,
                TxStatus::Dropped => if self.settings.report_dropped {
                    TrackerView { has_dropped: true, ..self }
                } else {
                    self
                },
                TxStatus::Mined { .. } => self.reset(
                    spec_saturating_add(
                        self.nonce,
                        U256 { w3: 0, w2: 0, w1: 0, w0: 1 },
                    ),
                ),
            },
            _ => self,
        }
    }

    /// The update that ends a look, once the gas of the mined transaction
    /// is known.
    pub open spec fn gas_info_update(
        self,
        cursor: CheckCursor,
        gas_limit: Option<U256>,
        gas_used: Option<U256>,
    ) -> Option<TrackerUpdate> {
        match cursor {
            CheckCursor::ScanMined { attempt, block_number, .. } => Some(
                self.mined_update(attempt as int, block_number, gas_limit, gas_used),
            ),
            CheckCursor::LatestMined { update } => match update {
                TrackerUpdate::Mined { tx_hash, nonce, block_number, attempt_number, .. } => Some(
                    TrackerUpdate::Mined {
                        tx_hash,
                        nonce,
                        block_number,
                        attempt_number,
                        gas_limit,
                        gas_used,
                    },
                ),
                other => Some(other),
            },
            _ => None,
        }
    }

    /// The tracker after the gas of the mined transaction is known.
    pub open spec fn after_gas_info(self, cursor: CheckCursor) -> TrackerView {
        match cursor {
            CheckCursor::ScanMined { external_nonce, .. } => self.reset(external_nonce),
            _ => self,
        }
    }
}

impl TrackerView {
    /// Whether nothing is in flight.
    pub open spec fn is_idle(self) -> bool {
        self.transactions.len() == 0
    }

    /// A look for an update that finds the nonce used, by a transaction of
    /// the tracker or by another, leaves the tracker with nothing in flight
    /// and at a higher nonce; one that finds nothing leaves it as it was.
    pub proof fn lemma_look_ends_idle(self, cursor: CheckCursor, status: TxStatus)
        requires
            self.wf(),
            self.accepts(cursor),
            cursor matches CheckCursor::Scan { external_nonce, .. } ==> self.nonce@
                < external_nonce@,
        ensures
            self.status_action(cursor, status) matches CheckAction::Done(
                Some(TrackerUpdate::NonceUsedForOtherTx { nonce }),
            ) ==> nonce == self.nonce && self.after_status(cursor, status).is_idle()
                && self.after_status(cursor, status).nonce@ > self.nonce@,
            self.status_action(cursor, status) matches CheckAction::GetGasInfo {
                cursor: CheckCursor::LatestMined { update },
                ..
            } ==> update matches TrackerUpdate::Mined { nonce, .. } && nonce == self.nonce
                && self.after_status(cursor, status).is_idle() && self.after_status(
                cursor,
                status,
            ).nonce@ >= self.nonce@,
            self.status_action(cursor, status) matches CheckAction::GetGasInfo {
                cursor: CheckCursor::ScanMined { external_nonce, .. },
                ..
            } ==> self.after_status(cursor, status) == self && self.after_gas_info(
                CheckCursor::ScanMined { external_nonce, attempt: 0, block_number: 0 },
            ).is_idle() && self.after_gas_info(
                CheckCursor::ScanMined { external_nonce, attempt: 0, block_number: 0 },
            ).nonce@ > self.nonce@,
            self.status_action(cursor, status) == CheckAction::Done(None) ==> self.after_status(
                cursor,
                status,
            ) == self,
    {
        lemma_saturating_values(self.nonce, U256 { w3: 0, w2: 0, w1: 0, w0: 1 });
    }
}

/// What one sender has in flight.
#[derive(Debug)]
pub struct TransactionTracker {
    settings: Settings,
    nonce: U256,
    transactions: Vec<PendingTransaction>,
    has_dropped: bool,
    attempt_count: u64,
}

impl View for TransactionTracker {
    type V = TrackerView;

    closed spec fn view(&self) -> TrackerView {
        TrackerView {
            settings: self.settings,
            nonce: self.nonce,
            transactions: self.transactions@,
            has_dropped: self.has_dropped,
            attempt_count: self.attempt_count,
        }
    }
}

impl TransactionTracker {
    /// A tracker with no attempt, at the nonce that the chain reports for
    /// the sender; at zero where the chain could not be asked.
    pub fn new(settings: Settings, external_nonce: Option<U256>) -> (tracker: TransactionTracker)
        ensures
            tracker@.wf(),
            tracker@ == (TrackerView {
                settings,
                nonce: match external_nonce {
                    Some(nonce) => nonce,
                    None => U256 { w3: 0, w2: 0, w1: 0, w0: 0 },
                },
                transactions: Seq::empty(),
                has_dropped: false,
                attempt_count: 0,
            }),
    {
        let nonce = match external_nonce {
            Some(nonce) => nonce,
            None => U256::zero(),
        };
        TransactionTracker {
            settings,
            nonce,
            transactions: Vec::new(),
            has_dropped: false,
            attempt_count: 0,
        }
    }

    /// The settings of the tracker.
    pub fn settings(&self) -> (settings: Settings)
        ensures
            settings == self@.settings,
    {
        self.settings
    }

    /// The nonce that the next transaction must have, and the fees that it
    /// must offer at least.
    pub fn get_nonce_and_required_fees(&self) -> (result: (U256, Option<GasFees>))
        ensures
            result.0 == self@.nonce,
            result.1 == self@.required_fees(),
    {
        let gas_fees = if self.has_dropped || self.transactions.len() == 0 {
            None
        } else {
            let last = self.transactions[self.transactions.len() - 1];
            Some(last.gas_fees.increase_by_percent(self.settings.replacement_fee_percent_increase))
        };
        (self.nonce, gas_fees)
    }

    /// Whether a transaction with the given nonce and fees may be sent: it
    /// must have the nonce of the tracker and offer the required fees.
    pub fn validate_transaction(&self, nonce: Option<U256>, gas_fees: GasFees) -> (result: Result<
        (),
        ValidationError,
    >)
        ensures
            result == self@.validate(nonce, gas_fees),
    {
        let given = match nonce {
            Some(given) => given,
            None => {
                return Err(ValidationError::NonceNotSet);
            },
        };
        let (required_nonce, required_gas_fees) = self.get_nonce_and_required_fees();
        if given != required_nonce {
            return Err(ValidationError::NonceMismatch { given, required: required_nonce });
        }
        match required_gas_fees {
            Some(required) => {
                if gas_fees.max_fee_per_gas.lt(&required.max_fee_per_gas)
                    || gas_fees.max_priority_fee_per_gas.lt(&required.max_priority_fee_per_gas) {
                    return Err(ValidationError::FeesTooLow);
                }
            },
            None => {},
        }
        Ok(())
    }

    /// Takes note that a transaction with the nonce of the tracker and with
    /// fees that the tracker accepts was sent under `tx_hash`.
    pub fn record_sent(&mut self, tx_hash: H256, gas_fees: GasFees) -> (result: SendResult)
        requires
            old(self)@.wf(),
            old(self)@.validate(Some(old(self)@.nonce), gas_fees) is Ok,
        ensures
            final(self)@.wf(),
            final(self)@ == old(self)@.sent(tx_hash, gas_fees),
            final(self)@.nonce == old(self)@.nonce,
            result == SendResult::TxHash(tx_hash),
    {
        self.transactions.push(
            PendingTransaction { tx_hash, gas_fees, attempt_number: self.attempt_count },
        );
        let count = self.transactions.len();
        self.has_dropped = false;
        self.attempt_count = self.attempt_count + 1;
        proof {
            let before = old(self)@.transactions;
            let after = self@.transactions;
            assert forall|i: int| 0 <= i < after.len() - 1 && !self@.settings.report_dropped implies (
            #[trigger] after[i + 1]).gas_fees.covers(
                after[i].gas_fees.spec_increase_by_percent(
                    self@.settings.replacement_fee_percent_increase,
                ),
            ) by {
                if i + 1 < before.len() {
                    assert(after[i + 1] == before[i + 1]);
                    assert(after[i] == before[i]);
                } else {
                    assert(after[i] == before.last());
                }
            }
        }
        SendResult::TxHash(tx_hash)
    }

    fn set_nonce_and_clear_state(&mut self, nonce: U256)
        ensures
            final(self)@ == old(self)@.reset(nonce),
            final(self)@.wf(),
    {
        self.nonce = nonce;
        self.transactions.clear();
        self.has_dropped = false;
        self.attempt_count = 0;
    }

    /// Whether [`TransactionTracker::on_status`] takes `cursor`: it asks
    /// about an attempt that is there, and where it follows the nonce going
    /// up, the nonce that it names is above the one of the tracker.
    pub fn takes_status(&self, cursor: &CheckCursor) -> (r: bool)
        ensures
            r == (self@.accepts(*cursor) && match *cursor {
                CheckCursor::Scan { external_nonce, .. } => self@.nonce@ < external_nonce@,
                CheckCursor::Latest => true,
                _ => false,
            }),
    {
        match cursor {
            CheckCursor::Scan { external_nonce, attempt } => *attempt < self.transactions.len()
                && self.nonce.lt(external_nonce),
            CheckCursor::Latest => self.transactions.len() > 0,
            _ => false,
        }
    }

    /// Whether [`TransactionTracker::on_gas_info`] takes `cursor`: it names
    /// a mined attempt that is there, and where it follows the nonce going
    /// up, the nonce that it names is above the one of the tracker.
    pub fn takes_gas_info(&self, cursor: &CheckCursor) -> (r: bool)
        ensures
            r == (self@.accepts(*cursor) && match *cursor {
                CheckCursor::ScanMined { external_nonce, .. } => self@.nonce@ < external_nonce@,
                CheckCursor::LatestMined { .. } => true,
                _ => false,
            }),
    {
        match cursor {
            CheckCursor::ScanMined { external_nonce, attempt, .. } => *attempt
                < self.transactions.len() && self.nonce.lt(external_nonce),
            CheckCursor::LatestMined { .. } => true,
            _ => false,
        }
    }

    /// Starts a look for an update, with the nonce that the chain reports
    /// for the sender.
    ///
    /// Where that nonce is above the one of the tracker, the attempts are
    /// asked about from the latest back; without attempts the tracker
    /// moves on to the new nonce at once. Where the nonce stands, the
    /// latest attempt is asked about, unless there is none or it was
    /// dropped.
    pub fn start_check(&mut self, external_nonce: U256) -> (action: CheckAction)
        requires
            old(self)@.wf(),
        ensures
            final(self)@.wf(),
            action == old(self)@.start_action(external_nonce),
            final(self)@ == old(self)@.started(external_nonce),
            final(self)@.nonce@ >= old(self)@.nonce@,
            action matches CheckAction::GetStatus { cursor, .. } ==> final(self)@.accepts(cursor)
                && (cursor is Scan || cursor is Latest) && (cursor matches CheckCursor::Scan {
                external_nonce: named,
                ..
            } ==> final(self)@.nonce@ < named@),
    {
        if self.nonce.lt(&external_nonce) {
            if self.transactions.len() == 0 {
                let nonce = self.nonce;
                self.set_nonce_and_clear_state(external_nonce);
                CheckAction::Done(Some(TrackerUpdate::NonceUsedForOtherTx { nonce }))
            } else {
                let attempt = self.transactions.len() - 1;
                CheckAction::GetStatus {
                    tx_hash: self.transactions[attempt].tx_hash,
                    cursor: CheckCursor::Scan { external_nonce, attempt },
                }
            }
        } else if self.has_dropped || self.transactions.len() == 0 {
            CheckAction::Done(None)
        } else {
            CheckAction::GetStatus {
                tx_hash: self.transactions[self.transactions.len() - 1].tx_hash,
                cursor: CheckCursor::Latest,
            }
        }
    }

    /// Goes on with a look for an update, with the status of the
    /// transaction that the last step asked about.
    ///
    /// While the attempts are asked about after the nonce went up: a mined
    /// one is the update, once its gas is known; else the attempt before
    /// it is asked about; after the first attempt the tracker moves on to
    /// the new nonce and reports that another transaction used the old
    /// one. While the nonce stands: a pending transaction is no update; a
    /// dropped one is none either, unless the settings ask for it; a mined
    /// one makes the tracker move on to the next nonce at once, and is the
    /// update once its gas is known.
    pub fn on_status(&mut self, cursor: CheckCursor, status: TxStatus) -> (action: CheckAction)
        requires
            old(self)@.wf(),
            old(self)@.accepts(cursor),
            cursor is Scan || cursor is Latest,
            cursor matches CheckCursor::Scan { external_nonce, .. } ==> old(self)@.nonce@
                < external_nonce@,
        ensures
            final(self)@.wf(),
            action == old(self)@.status_action(cursor, status),
            final(self)@ == old(self)@.after_status(cursor, status),
            final(self)@.nonce@ >= old(self)@.nonce@,
            action matches CheckAction::GetStatus { cursor: next, .. } ==> final(self)@.accepts(
                next,
            ) && (next matches CheckCursor::Scan { external_nonce: named, .. }
                && final(self)@.nonce@ < named@),
            action matches CheckAction::GetGasInfo { cursor: next, .. } ==> final(self)@.accepts(
                next,
            ) && (next is ScanMined || next is LatestMined) && (next matches CheckCursor::ScanMined {
                external_nonce: named,
                ..
            } ==> final(self)@.nonce@ < named@),
    {
        match cursor {
            CheckCursor::Scan { external_nonce, attempt } => match status {
                TxStatus::Mined { block_number } => CheckAction::GetGasInfo {
                    tx_hash: self.transactions[attempt].tx_hash,
                    cursor: CheckCursor::ScanMined { external_nonce, attempt, block_number },
                },
                _ => {
                    if attempt == 0 {
                        let nonce = self.nonce;
                        self.set_nonce_and_clear_state(external_nonce);
                        CheckAction::Done(Some(TrackerUpdate::NonceUsedForOtherTx { nonce }))
                    } else {
                        CheckAction::GetStatus {
                            tx_hash: self.transactions[attempt - 1].tx_hash,
                            cursor: CheckCursor::Scan { external_nonce, attempt: attempt - 1 },
                        }
                    }
                },
            },
            CheckCursor::Latest => match status {
                TxStatus::Pending => CheckAction::Done(None),
                TxStatus::Dropped => {
                    if self.settings.report_dropped {
                        self.has_dropped = true;
                        CheckAction::Done(
                            Some(TrackerUpdate::LatestTxDropped { nonce: self.nonce }),
                        )
                    } else {
                        CheckAction::Done(None)
                    }
                },
                TxStatus::Mined { block_number } => {
                    let last = self.transactions[self.transactions.len() - 1];
                    let nonce = self.nonce;
                    let update = TrackerUpdate::Mined {
                        tx_hash: last.tx_hash,
                        nonce,
                        block_number,
                        attempt_number: last.attempt_number,
                        gas_limit: None,
                        gas_used: None,
                    };
                    self.set_nonce_and_clear_state(nonce.saturating_add(U256::from_u64(1)));
                    CheckAction::GetGasInfo {
                        tx_hash: last.tx_hash,
                        cursor: CheckCursor::LatestMined { update },
                    }
                },
            },
            _ => CheckAction::Done(None),
        }
    }

    /// Ends a look for an update, with the gas limit and the gas used of
    /// the transaction that turned out mined; either may be unknown.
    pub fn on_gas_info(
        &mut self,
        cursor: CheckCursor,
        gas_limit: Option<U256>,
        gas_used: Option<U256>,
    ) -> (action: CheckAction)
        requires
            old(self)@.wf(),
            old(self)@.accepts(cursor),
            cursor is ScanMined || cursor is LatestMined,
            cursor matches CheckCursor::ScanMined { external_nonce, .. } ==> old(self)@.nonce@
                < external_nonce@,
        ensures
            final(self)@.wf(),
            action == CheckAction::Done(old(self)@.gas_info_update(cursor, gas_limit, gas_used)),
            final(self)@ == old(self)@.after_gas_info(cursor),
            final(self)@.nonce@ >= old(self)@.nonce@,
    {
        match cursor {
            CheckCursor::ScanMined { external_nonce, attempt, block_number } => {
                let tx = self.transactions[attempt];
                let update = TrackerUpdate::Mined {
                    tx_hash: tx.tx_hash,
                    nonce: self.nonce,
                    block_number,
                    attempt_number: tx.attempt_number,
                    gas_limit,
                    gas_used,
                };
                self.set_nonce_and_clear_state(external_nonce);
                CheckAction::Done(Some(update))
            },
            CheckCursor::LatestMined { update } => match update {
                TrackerUpdate::Mined { tx_hash, nonce, block_number, attempt_number, .. } => {
                    CheckAction::Done(
                        Some(
                            TrackerUpdate::Mined {
                                tx_hash,
                                nonce,
                                block_number,
                                attempt_number,
                                gas_limit,
                                gas_used,
                            },
                        ),
                    )
                },
                other => CheckAction::Done(Some(other)),
            },
            _ => CheckAction::Done(None),
        }
    }

    /// What the gauges of the tracker show.
    pub fn metrics(&self) -> (metrics: TrackerMetrics)
        ensures
            metrics.num_pending_transactions == self@.transactions.len(),
            metrics.nonce == self@.nonce,
            metrics.attempt_count == self@.attempt_count,
            self@.transactions.len() > 0 ==> metrics.current_max_fee_per_gas
                == self@.transactions.last().gas_fees.max_fee_per_gas
                && metrics.current_max_priority_fee_per_gas
                == self@.transactions.last().gas_fees.max_priority_fee_per_gas,
            self@.transactions.len() == 0 ==> metrics.current_max_fee_per_gas@ == 0
                && metrics.current_max_priority_fee_per_gas@ == 0,
    {
        let fees = if self.transactions.len() > 0 {
            self.transactions[self.transactions.len() - 1].gas_fees
        } else {
            GasFees { max_fee_per_gas: U256::zero(), max_priority_fee_per_gas: U256::zero() }
        };
        TrackerMetrics {
            num_pending_transactions: self.transactions.len(),
            nonce: self.nonce,
            attempt_count: self.attempt_count,
            current_max_fee_per_gas: fees.max_fee_per_gas,
            current_max_priority_fee_per_gas: fees.max_priority_fee_per_gas,
        }
    }
}

/// What becomes of a failure to send: a refusal for the fees is an update
/// of its own; after any other failure the tracker is to look for an update
/// once (`None`).
pub fn handle_send_error(error: TxSenderError) -> (update: Option<TrackerUpdate>)
    ensures
        update == match error {
            TxSenderError::ReplacementUnderpriced => Some(TrackerUpdate::ReplacementUnderpriced),
            TxSenderError::Other => None::<TrackerUpdate>,
        },
{
    match error {
        TxSenderError::ReplacementUnderpriced => Some(TrackerUpdate::ReplacementUnderpriced),
        TxSenderError::Other => None,
    }
}

/// What sending comes to after a failure and one look for an update: the
/// update, where a transaction was mined or the nonce was used otherwise;
/// else nothing, and the failure stands.
pub fn resolve_send_error(update: Option<TrackerUpdate>) -> (result: Option<SendResult>)
    ensures
        result == match update {
            None => None::<SendResult>,
            Some(TrackerUpdate::StillPendingAfterWait) => None::<SendResult>,
            Some(TrackerUpdate::LatestTxDropped { .. }) => None::<SendResult>,
            Some(other) => Some(SendResult::TrackerUpdate(other)),
        },
{
    match update {
        None => None,
        Some(TrackerUpdate::StillPendingAfterWait) => None,
        Some(TrackerUpdate::LatestTxDropped { .. }) => None,
        Some(other) => Some(SendResult::TrackerUpdate(other)),
    }
}

/// The gas limit and the gas used of a mined transaction, from what the
/// chain has of the transaction and of its receipt: the limit is the gas of
/// the transaction, the use is what the receipt reports, and either is
/// unknown where the chain has nothing.
pub fn mined_tx_gas_info(transaction_gas: Option<U256>, receipt_gas_used: Option<Option<U256>>)
    -> (info: (Option<U256>, Option<U256>))
    ensures
        info.0 == transaction_gas,
        info.1 == match receipt_gas_used {
            Some(gas_used) => gas_used,
            None => None::<U256>,
        },
{
    let gas_used = match receipt_gas_used {
        Some(gas_used) => gas_used,
        None => None,
    };
    (transaction_gas, gas_used)
}

/// The block at which a wait that starts at `start_block_number` gives up.
pub fn wait_deadline(settings: &Settings, start_block_number: u64) -> (end_block_number: u64)
    ensures
        end_block_number == if start_block_number + settings.max_blocks_to_wait_for_mine
            > u64::MAX {
            u64::MAX
        } else {
            (start_block_number + settings.max_blocks_to_wait_for_mine) as u64
        },
{
    start_block_number.saturating_add(settings.max_blocks_to_wait_for_mine)
}

/// What a wait does after a look for an update: it ends with the update, or
/// it asks for the block number.
pub fn wait_after_check(update: Option<TrackerUpdate>) -> (action: WaitAction)
    ensures
        action == match update {
            Some(found) => WaitAction::Return(found),
            None => WaitAction::GetBlockNumber,
        },
{
    match update {
        Some(found) => WaitAction::Return(found),
        None => WaitAction::GetBlockNumber,
    }
}

/// What a wait does once it knows the block number: it gives up where the
/// chain has reached `end_block_number`, and sleeps before the next look
/// where it has not.
pub fn wait_after_block(end_block_number: u64, current_block_number: u64) -> (action: WaitAction)
    ensures
        action == if end_block_number <= current_block_number {
            WaitAction::Return(TrackerUpdate::StillPendingAfterWait)
        } else {
            WaitAction::Sleep
        },
{
    if end_block_number <= current_block_number {
        WaitAction::Return(TrackerUpdate::StillPendingAfterWait)
    } else {
        WaitAction::Sleep
    }
}

} // verus!
