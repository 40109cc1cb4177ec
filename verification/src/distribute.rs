//! The distribution engine: walks the configured fee entries against one
//! incoming payment and produces transfer instructions, accounting events,
//! and the leftover payment, plus a trailing instruction persisting the
//! new decay clock.

use vstd::prelude::*;

use crate::error::Error;
use crate::fee::{calculate_fee, spec_calculate_fee};
use crate::rate::{spec_rate_valid, Coin, CoinV, RateInfo, RateInfoV};
use crate::text::{
    coin_string, spec_coin_str, spec_payment_attr_str, PaymentAttribute,
};
use vstd::string::StringExecFns;
use vstd::arithmetic::div_mod::lemma_fundamental_div_mod;

verus! {

/// An amount held on a token contract's internal ledger.
#[derive(Debug, PartialEq)]
pub struct Cw20Coin {
    /// The token contract's address.
    pub address: String,
    pub amount: u128,
}

/// Ghost image of a `Cw20Coin`.
pub struct Cw20CoinV {
    pub address: Seq<char>,
    pub amount: u128,
}

impl View for Cw20Coin {
    type V = Cw20CoinV;

    open spec fn view(&self) -> Cw20CoinV {
        Cw20CoinV { address: self.address@, amount: self.amount }
    }
}

impl DeepView for Cw20Coin {
    type V = Cw20CoinV;

    open spec fn deep_view(&self) -> Cw20CoinV {
        self.view()
    }
}

/// An incoming payment: a native ledger asset, or an amount denominated in
/// a token contract.
#[derive(Debug, PartialEq)]
pub enum Funds {
    Native(Coin),
    Cw20(Cw20Coin),
}

/// Ghost image of `Funds`.
pub enum FundsV {
    Native(CoinV),
    Cw20(Cw20CoinV),
}

impl View for Funds {
    type V = FundsV;

    open spec fn view(&self) -> FundsV {
        match self {
            Funds::Native(coin) => FundsV::Native(coin@),
            Funds::Cw20(coin) => FundsV::Cw20(coin@),
        }
    }
}

impl DeepView for Funds {
    type V = FundsV;

    open spec fn deep_view(&self) -> FundsV {
        self.view()
    }
}

/// One outbound instruction for the caller to execute.
#[derive(Debug, PartialEq)]
#[allow(inconsistent_fields)]
pub enum Instruction {
    /// A direct ledger transfer of `amount` to `to_address`.
    NativeTransfer { to_address: String, amount: Coin },
    /// A "transfer" execution addressed to the token contract of the
    /// amount's denomination, naming the recipient and the amount.
    Cw20Transfer { contract_addr: String, recipient: String, amount: u128 },
    /// The trailing instruction, addressed to the calling contract itself,
    /// persisting the new "last evaluated" timestamp.
    UpdateTimestamp { last_timestamp: u64 },
}

/// Ghost image of an `Instruction`.
#[allow(inconsistent_fields)]
pub enum InstructionV {
    NativeTransfer { to_address: Seq<char>, amount: CoinV },
    Cw20Transfer { contract_addr: Seq<char>, recipient: Seq<char>, amount: u128 },
    UpdateTimestamp { last_timestamp: u64 },
}

impl View for Instruction {
    type V = InstructionV;

    open spec fn view(&self) -> InstructionV {
        match self {
            Instruction::NativeTransfer { to_address, amount } => InstructionV::NativeTransfer {
                to_address: to_address@,
                amount: amount@,
            },
            Instruction::Cw20Transfer { contract_addr, recipient, amount } => (
            InstructionV::Cw20Transfer {
                contract_addr: contract_addr@,
                recipient: recipient@,
                amount: *amount,
            }),
            Instruction::UpdateTimestamp { last_timestamp } => InstructionV::UpdateTimestamp {
                last_timestamp: *last_timestamp,
            },
        }
    }
}

impl DeepView for Instruction {
    type V = InstructionV;

    open spec fn deep_view(&self) -> InstructionV {
        self.view()
    }
}

/// One key-value pair of an accounting event.
#[derive(Debug, PartialEq)]
pub struct Attribute {
    pub key: String,
    pub value: String,
}

/// Ghost image of an `Attribute`.
pub struct AttributeV {
    pub key: Seq<char>,
    pub value: Seq<char>,
}

impl View for Attribute {
    type V = AttributeV;

    open spec fn view(&self) -> AttributeV {
        AttributeV { key: self.key@, value: self.value@ }
    }
}

impl DeepView for Attribute {
    type V = AttributeV;

    open spec fn deep_view(&self) -> AttributeV {
        self.view()
    }
}

/// One human-readable accounting event: `"tax"` for an additive entry,
/// `"royalty"` for a deducted one, with its attributes.
#[derive(Debug, PartialEq)]
pub struct Event {
    pub ty: String,
    pub attributes: Vec<Attribute>,
}

/// Ghost image of an `Event`.
pub struct EventV {
    pub ty: Seq<char>,
    pub attributes: Seq<AttributeV>,
}

impl View for Event {
    type V = EventV;

    open spec fn view(&self) -> EventV {
        EventV { ty: self.ty@, attributes: self.attributes.deep_view() }
    }
}

impl DeepView for Event {
    type V = EventV;

    open spec fn deep_view(&self) -> EventV {
        self.view()
    }
}

/// The engine's output: ordered transfer instructions (with the trailing
/// timestamp instruction last), ordered accounting events, and the
/// leftover payment in the same representation as the input.
#[derive(Debug, PartialEq)]
pub struct DistributionResult {
    pub msgs: Vec<Instruction>,
    pub events: Vec<Event>,
    pub leftover_funds: Funds,
}

/// Ghost image of a `DistributionResult`.
pub struct DistributionResultV {
    pub msgs: Seq<InstructionV>,
    pub events: Seq<EventV>,
    pub leftover_funds: FundsV,
}

impl View for DistributionResult {
    type V = DistributionResultV;

    open spec fn view(&self) -> DistributionResultV {
        DistributionResultV {
            msgs: self.msgs.deep_view(),
            events: self.events.deep_view(),
            leftover_funds: self.leftover_funds@,
        }
    }
}

/// The payment as one coin: a native payment is its coin; a token payment
/// is its amount under the token contract's address as denomination.
pub open spec fn spec_base_coin(funds: FundsV) -> CoinV {
    match funds {
        FundsV::Native(coin) => coin,
        FundsV::Cw20(coin) => CoinV { amount: coin.amount, denom: coin.address },
    }
}

/// Recipient `j`'s share of `total` split equally among `k` recipients;
/// the division remainder goes to the first recipient.
pub open spec fn spec_share(total: u128, k: int, j: int) -> int
    recommends
        k > 0,
        0 <= j < k,
{
    if j == 0 {
        total as int / k + total as int % k
    } else {
        total as int / k
    }
}

/// One entry's fee: the entry's rate is validated, then evaluated against
/// the payment coin with the entry's decay rule.
pub open spec fn spec_entry_fee(
    entry: RateInfoV,
    coin: CoinV,
    cur: u64,
    last: u64,
) -> Result<CoinV, Error> {
    if !spec_rate_valid(entry.rate) {
        Err(Error::InvalidRate)
    } else {
        spec_calculate_fee(entry.rate, coin, entry.threshold, cur, last)
    }
}

/// One entry's transfer instructions, one per recipient in configured
/// order. A native payment yields direct transfers; a token payment yields
/// "transfer" executions addressed to the contract of the fee's
/// denomination.
pub open spec fn spec_entry_msgs(entry: RateInfoV, fee: CoinV, funds: FundsV) -> Seq<
    InstructionV,
> {
    Seq::new(
        entry.recipients.len(),
        |j: int|
            {
                let amount = spec_share(fee.amount, entry.recipients.len() as int, j) as u128;
                match funds {
                    FundsV::Native(_) => InstructionV::NativeTransfer {
                        to_address: entry.recipients[j],
                        amount: CoinV { amount, denom: fee.denom },
                    },
                    FundsV::Cw20(_) => InstructionV::Cw20Transfer {
                        contract_addr: fee.denom,
                        recipient: entry.recipients[j],
                        amount,
                    },
                }
            },
    )
}

/// One entry's payment attributes, one per recipient in configured order.
pub open spec fn spec_payment_attrs(entry: RateInfoV, fee: CoinV) -> Seq<AttributeV> {
    Seq::new(
        entry.recipients.len(),
        |j: int|
            AttributeV {
                key: "payment"@,
                value: spec_payment_attr_str(
                    entry.recipients[j],
                    CoinV {
                        amount: spec_share(fee.amount, entry.recipients.len() as int, j) as u128,
                        denom: fee.denom,
                    },
                ),
            },
    )
}

/// One entry's accounting event: kind `"tax"` for an additive entry,
/// `"royalty"` otherwise; the description when present; for a deducted
/// entry the `"deducted"` attribute carrying the whole fee; then one
/// `"payment"` record per recipient.
pub open spec fn spec_entry_event(entry: RateInfoV, fee: CoinV) -> EventV {
    EventV {
        ty: if entry.is_additive {
            "tax"@
        } else {
            "royalty"@
        },
        attributes: (match entry.description {
            Option::Some(d) => seq![AttributeV { key: "description"@, value: d }],
            Option::None => Seq::<AttributeV>::empty(),
        }) + (if entry.is_additive {
            Seq::<AttributeV>::empty()
        } else {
            seq![AttributeV { key: "deducted"@, value: spec_coin_str(fee) }]
        }) + spec_payment_attrs(entry, fee),
    }
}

/// Folds the entries in configured order against a running leftover
/// amount. An additive entry leaves the leftover unchanged; a deducted one
/// subtracts its fee, and fees exceeding the leftover are an `Underflow`
/// error. Any entry error aborts the whole evaluation.
pub open spec fn spec_run(
    entries: Seq<RateInfoV>,
    funds: FundsV,
    cur: u64,
    last: u64,
    leftover: u128,
) -> Result<(Seq<InstructionV>, Seq<EventV>, u128), Error>
    decreases entries.len(),
{
    if entries.len() == 0 {
        Ok((Seq::<InstructionV>::empty(), Seq::<EventV>::empty(), leftover))
    } else {
        let entry = entries[0];
        match spec_entry_fee(entry, spec_base_coin(funds), cur, last) {
            Err(e) => Err(e),
            Ok(fee) => {
                if !entry.is_additive && fee.amount > leftover {
                    Err(Error::Underflow)
                } else {
                    let new_leftover = if entry.is_additive {
                        leftover
                    } else {
                        (leftover - fee.amount) as u128
                    };
                    match spec_run(entries.drop_first(), funds, cur, last, new_leftover) {
                        Err(e) => Err(e),
                        Ok(rest) => Ok(
                            (
                                spec_entry_msgs(entry, fee, funds) + rest.0,
                                seq![spec_entry_event(entry, fee)] + rest.1,
                                rest.2,
                            ),
                        ),
                    }
                }
            },
        }
    }
}

/// The leftover in the payment's own representation.
pub open spec fn spec_rebuild_funds(funds: FundsV, amount: u128) -> FundsV {
    match funds {
        FundsV::Native(coin) => FundsV::Native(CoinV { amount, denom: coin.denom }),
        FundsV::Cw20(coin) => FundsV::Cw20(Cw20CoinV { amount, address: coin.address }),
    }
}

/// The whole distribution: the fold over the entries, then the trailing
/// timestamp instruction and the leftover payment.
pub open spec fn spec_distribute(
    entries: Seq<RateInfoV>,
    funds: FundsV,
    cur: u64,
    last: u64,
) -> Result<DistributionResultV, Error> {
    match spec_run(entries, funds, cur, last, spec_base_coin(funds).amount) {
        Err(e) => Err(e),
        Ok(r) => Ok(
            DistributionResultV {
                msgs: r.0.push(InstructionV::UpdateTimestamp { last_timestamp: cur }),
                events: r.1,
                leftover_funds: spec_rebuild_funds(funds, r.2),
            },
        ),
    }
}

/// The per-entry transfer instructions of all entries, concatenated in
/// configured order (an entry whose fee fails contributes nothing; on a
/// successful run every entry's fee succeeds).
pub open spec fn spec_msgs_concat(
    entries: Seq<RateInfoV>,
    funds: FundsV,
    cur: u64,
    last: u64,
) -> Seq<InstructionV>
    decreases entries.len(),
{
    if entries.len() == 0 {
        Seq::<InstructionV>::empty()
    } else {
        (match spec_entry_fee(entries[0], spec_base_coin(funds), cur, last) {
            Ok(fee) => spec_entry_msgs(entries[0], fee, funds),
            Err(_) => Seq::<InstructionV>::empty(),
        }) + spec_msgs_concat(entries.drop_first(), funds, cur, last)
    }
}

/// The sum of the fees of the non-additive ("royalty") entries; additive
/// ("tax") entries contribute nothing.
pub open spec fn spec_royalty_sum(
    entries: Seq<RateInfoV>,
    funds: FundsV,
    cur: u64,
    last: u64,
) -> int
    decreases entries.len(),
{
    if entries.len() == 0 {
        0
    } else {
        (match spec_entry_fee(entries[0], spec_base_coin(funds), cur, last) {
            Ok(fee) => if entries[0].is_additive {
                0
            } else {
                fee.amount as int
            },
            Err(_) => 0,
        }) + spec_royalty_sum(entries.drop_first(), funds, cur, last)
    }
}

proof fn lemma_run_shape(
    entries: Seq<RateInfoV>,
    funds: FundsV,
    cur: u64,
    last: u64,
    leftover: u128,
)
    ensures
        spec_run(entries, funds, cur, last, leftover) matches Ok(r) ==> {
            &&& forall|i: int|
                0 <= i < entries.len() ==> #[trigger] spec_entry_fee(
                    entries[i],
                    spec_base_coin(funds),
                    cur,
                    last,
                ) is Ok
            &&& r.1.len() == entries.len()
            &&& forall|i: int|
                0 <= i < entries.len() ==> #[trigger] r.1[i] == spec_entry_event(
                    entries[i],
                    spec_entry_fee(entries[i], spec_base_coin(funds), cur, last)->Ok_0,
                )
            &&& r.0 == spec_msgs_concat(entries, funds, cur, last)
            &&& spec_royalty_sum(entries, funds, cur, last) <= leftover
            &&& r.2 == leftover - spec_royalty_sum(entries, funds, cur, last)
        },
    decreases entries.len(),
{
    if entries.len() > 0 {
        let run = spec_run(entries, funds, cur, last, leftover);
        if run is Ok {
            let entry = entries[0];
            let fee = spec_entry_fee(entry, spec_base_coin(funds), cur, last)->Ok_0;
            let new_leftover = if entry.is_additive {
                leftover
            } else {
                (leftover - fee.amount) as u128
            };
            lemma_run_shape(entries.drop_first(), funds, cur, last, new_leftover);
            let rest = spec_run(entries.drop_first(), funds, cur, last, new_leftover)->Ok_0;
            assert forall|i: int| 0 <= i < entries.len() implies #[trigger] spec_entry_fee(
                entries[i],
                spec_base_coin(funds),
                cur,
                last,
            ) is Ok by {
                if i > 0 {
                    assert(entries.drop_first()[i - 1] == entries[i]);
                }
            }
            assert forall|i: int| 0 <= i < entries.len() implies #[trigger] run->Ok_0.1[i]
                == spec_entry_event(
                entries[i],
                spec_entry_fee(entries[i], spec_base_coin(funds), cur, last)->Ok_0,
            ) by {
                if i > 0 {
                    assert(entries.drop_first()[i - 1] == entries[i]);
                    assert(run->Ok_0.1[i] == rest.1[i - 1]);
                }
            }
        }
    }
}

/// The distribution is order-preserving: on success there is exactly one
/// event per configured entry, the i-th event is the i-th entry's event
/// (so event order matches configured entry order), every entry's fee
/// evaluation succeeded, and the instruction list is the entries'
/// per-recipient transfers concatenated in configured order, followed by
/// the single trailing timestamp instruction.
pub proof fn lemma_distribute_order(entries: Seq<RateInfoV>, funds: FundsV, cur: u64, last: u64)
    ensures
        spec_distribute(entries, funds, cur, last) matches Ok(res) ==> {
            &&& forall|i: int|
                0 <= i < entries.len() ==> #[trigger] spec_entry_fee(
                    entries[i],
                    spec_base_coin(funds),
                    cur,
                    last,
                ) is Ok
            &&& res.events.len() == entries.len()
            &&& forall|i: int|
                0 <= i < entries.len() ==> #[trigger] res.events[i] == spec_entry_event(
                    entries[i],
                    spec_entry_fee(entries[i], spec_base_coin(funds), cur, last)->Ok_0,
                )
            &&& res.msgs == spec_msgs_concat(entries, funds, cur, last).push(
                InstructionV::UpdateTimestamp { last_timestamp: cur },
            )
        },
{
    lemma_run_shape(entries, funds, cur, last, spec_base_coin(funds).amount);
}

/// The leftover invariant: on success the leftover payment keeps the
/// incoming payment's representation and its amount is the payment amount
/// minus the sum of the non-additive ("royalty") fees — additive ("tax")
/// entries never change the leftover, and the royalty fees never exceed
/// the payment.
pub proof fn lemma_distribute_leftover(entries: Seq<RateInfoV>, funds: FundsV, cur: u64, last: u64)
    ensures
        spec_distribute(entries, funds, cur, last) matches Ok(res) ==> {
            &&& 0 <= spec_royalty_sum(entries, funds, cur, last) <= spec_base_coin(funds).amount
            &&& res.leftover_funds == spec_rebuild_funds(
                funds,
                (spec_base_coin(funds).amount - spec_royalty_sum(entries, funds, cur, last)) as u128,
            )
        },
{
    lemma_royalty_sum_nonneg(entries, funds, cur, last);
    lemma_run_shape(entries, funds, cur, last, spec_base_coin(funds).amount);
}

proof fn lemma_royalty_sum_nonneg(entries: Seq<RateInfoV>, funds: FundsV, cur: u64, last: u64)
    ensures
        spec_royalty_sum(entries, funds, cur, last) >= 0,
    decreases entries.len(),
{
    if entries.len() > 0 {
        lemma_royalty_sum_nonneg(entries.drop_first(), funds, cur, last);
    }
}

/// A configuration of additive ("tax") entries only deducts nothing: its
/// royalty sum is zero, so the leftover equals the payment.
pub proof fn lemma_additive_entries_keep_leftover(
    entries: Seq<RateInfoV>,
    funds: FundsV,
    cur: u64,
    last: u64,
)
    requires
        forall|i: int| 0 <= i < entries.len() ==> (#[trigger] entries[i]).is_additive,
    ensures
        spec_royalty_sum(entries, funds, cur, last) == 0,
        spec_distribute(entries, funds, cur, last) matches Ok(res) ==> res.leftover_funds
            == spec_rebuild_funds(funds, spec_base_coin(funds).amount),
    decreases entries.len(),
{
    if entries.len() > 0 {
        assert forall|i: int| 0 <= i < entries.drop_first().len() implies (
        #[trigger] entries.drop_first()[i]).is_additive by {
            assert(entries.drop_first()[i] == entries[i + 1]);
        }
        lemma_additive_entries_keep_leftover(entries.drop_first(), funds, cur, last);
    }
    lemma_run_shape(entries, funds, cur, last, spec_base_coin(funds).amount);
}

/// Distributes one payment across the configured fee entries.
///
/// In configured order, each entry's rate is validated and its fee
/// calculated; the fee is split equally among the entry's recipients
/// (remainder to the first) into one transfer instruction per recipient;
/// one accounting event is emitted per entry; a deducted ("royalty")
/// entry's fee is subtracted from the running leftover. A trailing
/// instruction persisting `current_timestamp` is always appended. Any
/// error aborts the whole evaluation with no partial result.
pub fn distribute(
    rate_entries: &Vec<RateInfo>,
    payment: &Funds,
    current_timestamp: u64,
    last_timestamp: u64,
) -> (r: Result<DistributionResult, Error>)
    requires
        forall|t: int|
            0 <= t < rate_entries@.len() ==> match (#[trigger] rate_entries@[t])@.threshold {
                Option::Some(th) => th.duration > 0,
                Option::None => true,
            },
    ensures
        match r {
            Ok(res) => spec_distribute(
                rate_entries.deep_view(),
                payment@,
                current_timestamp,
                last_timestamp,
            ) == Ok::<DistributionResultV, Error>(res@),
            Err(e) => spec_distribute(
                rate_entries.deep_view(),
                payment@,
                current_timestamp,
                last_timestamp,
            ) == Err::<DistributionResultV, Error>(e),
        },
{
    let ghost entries_v = rate_entries.deep_view();
    let ghost funds_v = payment@;
    let base = match payment {
        Funds::Native(coin) => coin.clone(),
        Funds::Cw20(coin) => Coin { amount: coin.amount, denom: coin.address.clone() },
    };
    proof {
        assert(base@ == spec_base_coin(funds_v));
    }
    let mut leftover: u128 = base.amount;
    let mut msgs: Vec<Instruction> = Vec::new();
    let mut events: Vec<Event> = Vec::new();
    let n = rate_entries.len();
    proof {
        assert(entries_v.skip(0) =~= entries_v);
        assert(msgs.deep_view() + Seq::<InstructionV>::empty() =~= Seq::<
            InstructionV,
        >::empty());
        assert(events.deep_view() + Seq::<EventV>::empty() =~= Seq::<EventV>::empty());
    }
    let mut i: usize = 0;
    while i < n
        invariant
            n == rate_entries@.len(),
            0 <= i <= n,
            entries_v == rate_entries.deep_view(),
            funds_v == payment@,
            base@ == spec_base_coin(funds_v),
            forall|t: int|
                0 <= t < rate_entries@.len() ==> match (
                #[trigger] rate_entries@[t])@.threshold {
                    Option::Some(th) => th.duration > 0,
                    Option::None => true,
                },
            (match spec_run(
                entries_v.skip(i as int),
                funds_v,
                current_timestamp,
                last_timestamp,
                leftover,
            ) {
                Ok(rest) => spec_run(
                    entries_v,
                    funds_v,
                    current_timestamp,
                    last_timestamp,
                    spec_base_coin(funds_v).amount,
                ) == Ok::<(Seq<InstructionV>, Seq<EventV>, u128), Error>(
                    (msgs.deep_view() + rest.0, events.deep_view() + rest.1, rest.2),
                ),
                Err(e) => spec_run(
                    entries_v,
                    funds_v,
                    current_timestamp,
                    last_timestamp,
                    spec_base_coin(funds_v).amount,
                ) == Err::<(Seq<InstructionV>, Seq<EventV>, u128), Error>(e),
            }),
        decreases n - i,
    {
        let entry = &rate_entries[i];
        let ghost entry_v = entries_v[i as int];
        let ghost old_leftover = leftover;
        let ghost s_i = entries_v.skip(i as int);
        let ghost s_i1 = entries_v.skip(i as int + 1);
        proof {
            assert(entry_v == entry@);
            assert(s_i[0] == entry_v);
            assert(s_i.drop_first() =~= s_i1);
        }
        let validated = match entry.rate.validate() {
            Ok(v) => v,
            Err(e) => {
                proof {
                    assert(spec_run(
                        s_i,
                        funds_v,
                        current_timestamp,
                        last_timestamp,
                        leftover,
                    ) == Err::<(Seq<InstructionV>, Seq<EventV>, u128), Error>(e));
                }
                return Err(e);
            },
        };
        let fee = match calculate_fee(
            validated,
            &base,
            entry.threshold,
            current_timestamp,
            last_timestamp,
        ) {
            Ok(f) => f,
            Err(e) => {
                proof {
                    assert(spec_run(
                        s_i,
                        funds_v,
                        current_timestamp,
                        last_timestamp,
                        leftover,
                    ) == Err::<(Seq<InstructionV>, Seq<EventV>, u128), Error>(e));
                }
                return Err(e);
            },
        };
        let ghost fee_v = fee@;
        proof {
            assert(spec_entry_fee(entry_v, spec_base_coin(funds_v), current_timestamp,
                last_timestamp) == Ok::<CoinV, Error>(fee_v));
        }
        let ghost desc_part = (match entry_v.description {
            Option::Some(d) => seq![AttributeV { key: "description"@, value: d }],
            Option::None => Seq::<AttributeV>::empty(),
        });
        let ghost deducted_part = (if entry_v.is_additive {
            Seq::<AttributeV>::empty()
        } else {
            seq![AttributeV { key: "deducted"@, value: spec_coin_str(fee_v) }]
        });
        let mut attributes: Vec<Attribute> = Vec::new();
        if let Some(desc) = &entry.description {
            attributes.push(Attribute { key: "description".to_owned(), value: desc.clone() });
        }
        proof {
            assert(attributes.deep_view() =~= desc_part);
        }
        if !entry.is_additive {
            if fee.amount > leftover {
                proof {
                    assert(spec_run(
                        s_i,
                        funds_v,
                        current_timestamp,
                        last_timestamp,
                        leftover,
                    ) == Err::<(Seq<InstructionV>, Seq<EventV>, u128), Error>(
                        Error::Underflow,
                    ));
                }
                return Err(Error::Underflow);
            }
            leftover = leftover - fee.amount;
            attributes.push(Attribute { key: "deducted".to_owned(), value: coin_string(&fee) });
        }
        proof {
            assert(attributes.deep_view() =~= desc_part + deducted_part);
        }
        let ghost msgs_before = msgs.deep_view();
        let ghost attrs_before = attributes.deep_view();
        let k = entry.recipients.len();
        proof {
            assert(k == entry_v.recipients.len());
            assert(msgs.deep_view() =~= msgs_before + spec_entry_msgs(
                entry_v,
                fee_v,
                funds_v,
            ).take(0));
            assert(attributes.deep_view() =~= attrs_before + spec_payment_attrs(
                entry_v,
                fee_v,
            ).take(0));
        }
        let mut j: usize = 0;
        while j < k
            invariant
                0 <= j <= k,
                k == entry_v.recipients.len(),
                entry_v == entry@,
                funds_v == payment@,
                fee_v == fee@,
                msgs.deep_view() == msgs_before + spec_entry_msgs(entry_v, fee_v, funds_v).take(
                    j as int,
                ),
                attributes.deep_view() == attrs_before + spec_payment_attrs(entry_v, fee_v).take(
                    j as int,
                ),
            decreases k - j,
        {
            let k128 = k as u128;
            let q = fee.amount / k128;
            let rem = fee.amount % k128;
            proof {
                lemma_fundamental_div_mod(fee_v.amount as int, k128 as int);
                assert(q + rem <= fee_v.amount) by (nonlinear_arith)
                    requires
                        k128 >= 1,
                        fee_v.amount == k128 * q + rem,
                        0 <= q,
                        0 <= rem,
                ;
            }
            let amount = if j == 0 {
                q + rem
            } else {
                q
            };
            let recipient = entry.recipients[j].clone();
            let instr = match payment {
                Funds::Native(_) => Instruction::NativeTransfer {
                    to_address: recipient.clone(),
                    amount: Coin { amount, denom: fee.denom.clone() },
                },
                Funds::Cw20(_) => Instruction::Cw20Transfer {
                    contract_addr: fee.denom.clone(),
                    recipient: recipient.clone(),
                    amount,
                },
            };
            let ghost msgs_pre = msgs.deep_view();
            proof {
                assert(amount == spec_share(fee_v.amount, k as int, j as int));
                assert(recipient@ == entry_v.recipients[j as int]);
                assert(instr@ == spec_entry_msgs(entry_v, fee_v, funds_v)[j as int]);
            }
            msgs.push(instr);
            let record = PaymentAttribute {
                amount: Coin { amount, denom: fee.denom.clone() },
                receiver: recipient,
            };
            let ghost attrs_pre = attributes.deep_view();
            let attr = Attribute { key: "payment".to_owned(), value: record.to_string() };
            proof {
                assert(attr@ == spec_payment_attrs(entry_v, fee_v)[j as int]);
            }
            attributes.push(attr);
            proof {
                assert(msgs.deep_view() =~= msgs_pre.push(
                    spec_entry_msgs(entry_v, fee_v, funds_v)[j as int],
                ));
                assert(spec_entry_msgs(entry_v, fee_v, funds_v).take(j as int + 1)
                    =~= spec_entry_msgs(entry_v, fee_v, funds_v).take(j as int).push(
                    spec_entry_msgs(entry_v, fee_v, funds_v)[j as int],
                ));
                assert(msgs.deep_view() =~= msgs_before + spec_entry_msgs(
                    entry_v,
                    fee_v,
                    funds_v,
                ).take(j as int + 1));
                assert(attributes.deep_view() =~= attrs_pre.push(
                    spec_payment_attrs(entry_v, fee_v)[j as int],
                ));
                assert(spec_payment_attrs(entry_v, fee_v).take(j as int + 1)
                    =~= spec_payment_attrs(entry_v, fee_v).take(j as int).push(
                    spec_payment_attrs(entry_v, fee_v)[j as int],
                ));
                assert(attributes.deep_view() =~= attrs_before + spec_payment_attrs(
                    entry_v,
                    fee_v,
                ).take(j as int + 1));
            }
            j = j + 1;
        }
        let ty = if entry.is_additive {
            "tax"
        } else {
            "royalty"
        };
        let event = Event { ty: ty.to_owned(), attributes };
        proof {
            assert(spec_payment_attrs(entry_v, fee_v).take(k as int) =~= spec_payment_attrs(
                entry_v,
                fee_v,
            ));
            assert(event@.attributes =~= (desc_part + deducted_part) + spec_payment_attrs(
                entry_v,
                fee_v,
            ));
            assert(event@ == spec_entry_event(entry_v, fee_v));
        }
        let ghost events_before = events.deep_view();
        events.push(event);
        proof {
            assert(events.deep_view() =~= events_before + seq![
                spec_entry_event(entry_v, fee_v),
            ]);
            assert(spec_entry_msgs(entry_v, fee_v, funds_v).take(k as int)
                =~= spec_entry_msgs(entry_v, fee_v, funds_v));
            assert(msgs.deep_view() =~= msgs_before + spec_entry_msgs(entry_v, fee_v, funds_v));
            let run_i = spec_run(s_i, funds_v, current_timestamp, last_timestamp, old_leftover);
            let run_i1 = spec_run(s_i1, funds_v, current_timestamp, last_timestamp, leftover);
            match run_i1 {
                Ok(rest) => {
                    assert(run_i == Ok::<(Seq<InstructionV>, Seq<EventV>, u128), Error>(
                        (
                            spec_entry_msgs(entry_v, fee_v, funds_v) + rest.0,
                            seq![spec_entry_event(entry_v, fee_v)] + rest.1,
                            rest.2,
                        ),
                    ));
                    assert(msgs.deep_view() + rest.0 =~= msgs_before + (spec_entry_msgs(
                        entry_v,
                        fee_v,
                        funds_v,
                    ) + rest.0));
                    assert(events.deep_view() + rest.1 =~= events_before + (seq![
                        spec_entry_event(entry_v, fee_v),
                    ] + rest.1));
                },
                Err(e) => {
                    assert(run_i == Err::<(Seq<InstructionV>, Seq<EventV>, u128), Error>(e));
                },
            }
        }
        i = i + 1;
    }
    proof {
        assert(entries_v.skip(n as int) =~= Seq::<RateInfoV>::empty());
        assert(spec_run(
            entries_v.skip(n as int),
            funds_v,
            current_timestamp,
            last_timestamp,
            leftover,
        ) == Ok::<(Seq<InstructionV>, Seq<EventV>, u128), Error>(
            (Seq::<InstructionV>::empty(), Seq::<EventV>::empty(), leftover),
        ));
        assert(msgs.deep_view() + Seq::<InstructionV>::empty() =~= msgs.deep_view());
        assert(events.deep_view() + Seq::<EventV>::empty() =~= events.deep_view());
    }
    let ghost final_msgs = msgs.deep_view();
    msgs.push(Instruction::UpdateTimestamp { last_timestamp: current_timestamp });
    let leftover_funds = match payment {
        Funds::Native(coin) => Funds::Native(Coin { amount: leftover, denom: coin.denom.clone() }),
        Funds::Cw20(coin) => Funds::Cw20(
            Cw20Coin { amount: leftover, address: coin.address.clone() },
        ),
    };
    let result = DistributionResult { msgs, events, leftover_funds };
    proof {
        assert(result@.msgs =~= final_msgs.push(
            InstructionV::UpdateTimestamp { last_timestamp: current_timestamp },
        ));
        assert(result@.leftover_funds == spec_rebuild_funds(funds_v, leftover));
    }
    Ok(result)
}

} // verus!
