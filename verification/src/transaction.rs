use crate::amount::{in_eur, gain_of, loss_of, split_gain_loss, to_eur, MAX_AMOUNT};
use crate::date::CalendarDate;
use crate::decimal::SCALE;
use vstd::prelude::*;

verus! {

/// What a transaction says: the day of a sale, its gain, loss and proceeds
/// in USD and in EUR, and the exchange rate between them. Amounts and the
/// rate are in millionths.
pub struct TransactionView {
    pub sell_date: CalendarDate,
    pub usd_gain: nat,
    pub usd_loss: nat,
    pub eur_gain: nat,
    pub eur_loss: nat,
    pub exr: nat,
    pub usd_proceeds: nat,
    pub eur_proceeds: nat,
}

impl TransactionView {
    /// What holds of every transaction: the day exists, the rate is
    /// positive, gain and loss are not both there, each amount in EUR is
    /// the amount in USD divided by the rate, and no amount is above
    /// `MAX_AMOUNT`.
    pub open spec fn wf(self) -> bool {
        &&& self.sell_date.is_valid()
        &&& self.exr > 0
        &&& self.usd_gain == 0 || self.usd_loss == 0
        &&& self.eur_gain == in_eur(self.usd_gain, self.exr)
        &&& self.eur_loss == in_eur(self.usd_loss, self.exr)
        &&& self.eur_proceeds == in_eur(self.usd_proceeds, self.exr)
        &&& self.usd_gain <= MAX_AMOUNT
        &&& self.usd_loss <= MAX_AMOUNT
        &&& self.usd_proceeds <= MAX_AMOUNT
        &&& self.eur_gain <= MAX_AMOUNT
        &&& self.eur_loss <= MAX_AMOUNT
        &&& self.eur_proceeds <= MAX_AMOUNT
    }
}

/// One sale: made once from a row of a sheet and a rate, and not changed
/// afterwards.
#[derive(Clone, Copy, Debug, PartialEq, Eq)]
pub struct Transaction {
    sell_date: CalendarDate,
    usd_gain: u64,
    usd_loss: u64,
    eur_gain: u64,
    eur_loss: u64,
    exr: u64,
    usd_proceeds: u64,
    eur_proceeds: u64,
}

impl View for Transaction {
    type V = TransactionView;

    closed spec fn view(&self) -> TransactionView {
        TransactionView {
            sell_date: self.sell_date,
            usd_gain: self.usd_gain as nat,
            usd_loss: self.usd_loss as nat,
            eur_gain: self.eur_gain as nat,
            eur_loss: self.eur_loss as nat,
            exr: self.exr as nat,
            usd_proceeds: self.usd_proceeds as nat,
            eur_proceeds: self.eur_proceeds as nat,
        }
    }
}

/// The transaction that a sale on `sell_date` with the signed figure
/// `gain_loss`, the proceeds `usd_proceeds` and the rate `exr` makes, where
/// it makes one: the day must exist, the rate be positive, the proceeds not
/// negative, and no amount in EUR be above `MAX_AMOUNT`.
pub open spec fn transaction_of(
    sell_date: CalendarDate,
    gain_loss: int,
    usd_proceeds: int,
    exr: nat,
) -> Option<TransactionView> {
    let t = TransactionView {
        sell_date,
        usd_gain: gain_of(gain_loss),
        usd_loss: loss_of(gain_loss),
        eur_gain: in_eur(gain_of(gain_loss), exr),
        eur_loss: in_eur(loss_of(gain_loss), exr),
        exr,
        usd_proceeds: usd_proceeds as nat,
        eur_proceeds: in_eur(usd_proceeds as nat, exr),
    };
    if usd_proceeds >= 0 && t.wf() {
        Some(t)
    } else {
        None
    }
}

/// The views of the transactions of `ts`, in order.
pub open spec fn views(ts: Seq<Transaction>) -> Seq<TransactionView> {
    ts.map_values(|t: Transaction| t@)
}

impl Transaction {
    /// What holds of every transaction.
    #[verifier::type_invariant]
    pub open spec fn well_formed(self) -> bool {
        self@.wf()
    }

    /// Makes the transaction of a sale. `None` where the day does not
    /// exist, the rate is zero, the proceeds are negative, or an amount in
    /// EUR would be above `MAX_AMOUNT`.
    pub fn new(sell_date: CalendarDate, gain_loss: i64, usd_proceeds: i64, exr: u64) -> (r: Option<
        Transaction,
    >)
        ensures
            match r {
                Some(t) => transaction_of(
                    sell_date,
                    gain_loss as int,
                    usd_proceeds as int,
                    exr as nat,
                ) == Some(t@) && t@.wf(),
                None => transaction_of(
                    sell_date,
                    gain_loss as int,
                    usd_proceeds as int,
                    exr as nat,
                ) is None,
            },
    {
        if !sell_date.valid() || exr == 0 || usd_proceeds < 0 {
            return None;
        }
        let (usd_gain, usd_loss) = split_gain_loss(gain_loss);
        let usd_proceeds: u64 = usd_proceeds as u64;
        let eur_gain = match to_eur(usd_gain, exr) {
            Some(amount) => amount,
            None => {
                return None;
            },
        };
        let eur_loss = match to_eur(usd_loss, exr) {
            Some(amount) => amount,
            None => {
                return None;
            },
        };
        let eur_proceeds = match to_eur(usd_proceeds, exr) {
            Some(amount) => amount,
            None => {
                return None;
            },
        };
        Some(
            Transaction {
                sell_date,
                usd_gain,
                usd_loss,
                eur_gain,
                eur_loss,
                exr,
                usd_proceeds,
                eur_proceeds,
            },
        )
    }

    /// The day of the sale.
    pub fn sell_date(&self) -> (r: CalendarDate)
        ensures
            r == self@.sell_date,
    {
        self.sell_date
    }

    /// The gain in USD.
    pub fn usd_gain(&self) -> (r: u64)
        ensures
            r == self@.usd_gain,
    {
        self.usd_gain
    }

    /// The loss in USD.
    pub fn usd_loss(&self) -> (r: u64)
        ensures
            r == self@.usd_loss,
    {
        self.usd_loss
    }

    /// The gain in EUR.
    pub fn eur_gain(&self) -> (r: u64)
        ensures
            r == self@.eur_gain,
    {
        self.eur_gain
    }

    /// The loss in EUR.
    pub fn eur_loss(&self) -> (r: u64)
        ensures
            r == self@.eur_loss,
    {
        self.eur_loss
    }

    /// The exchange rate that was applied.
    pub fn exr(&self) -> (r: u64)
        ensures
            r == self@.exr,
    {
        self.exr
    }

    /// The proceeds in USD.
    pub fn usd_proceeds(&self) -> (r: u64)
        ensures
            r == self@.usd_proceeds,
    {
        self.usd_proceeds
    }

    /// The proceeds in EUR.
    pub fn eur_proceeds(&self) -> (r: u64)
        ensures
            r == self@.eur_proceeds,
    {
        self.eur_proceeds
    }
}

/// Of the gain and the loss of a transaction at least one is zero, and
/// neither is negative.
pub proof fn lemma_gain_or_loss_is_zero(t: TransactionView)
    requires
        t.wf(),
    ensures
        t.usd_gain == 0 || t.usd_loss == 0,
        t.usd_gain >= 0 && t.usd_loss >= 0,
{
}

/// A sale whose signed figure is not zero has exactly one of gain and loss
/// at zero: the loss where the figure is positive, the gain where it is
/// negative.
pub proof fn lemma_exactly_one_is_zero(
    sell_date: CalendarDate,
    gain_loss: int,
    usd_proceeds: int,
    exr: nat,
)
    requires
        gain_loss != 0,
        transaction_of(sell_date, gain_loss, usd_proceeds, exr) is Some,
    ensures
        ({
            let t = transaction_of(sell_date, gain_loss, usd_proceeds, exr)->0;
            (t.usd_gain == 0) != (t.usd_loss == 0) && (gain_loss > 0 <==> t.usd_loss == 0)
        }),
{
}

/// Each amount in EUR of a transaction is the amount in USD divided by the
/// rate, to the millionth below: the difference to the exact quotient is
/// less than one millionth.
pub proof fn lemma_eur_is_usd_over_rate(t: TransactionView)
    requires
        t.wf(),
    ensures
        t.eur_gain == t.usd_gain * SCALE / (t.exr as int),
        t.eur_loss == t.usd_loss * SCALE / (t.exr as int),
        t.eur_proceeds == t.usd_proceeds * SCALE / (t.exr as int),
        t.eur_gain * t.exr <= t.usd_gain * SCALE < (t.eur_gain + 1) * t.exr,
        t.eur_loss * t.exr <= t.usd_loss * SCALE < (t.eur_loss + 1) * t.exr,
        t.eur_proceeds * t.exr <= t.usd_proceeds * SCALE < (t.eur_proceeds + 1) * t.exr,
{
    lemma_quotient_bounds(t.usd_gain * (SCALE as nat), t.exr);
    lemma_quotient_bounds(t.usd_loss * (SCALE as nat), t.exr);
    lemma_quotient_bounds(t.usd_proceeds * (SCALE as nat), t.exr);
}

/// A quotient rounded down, times the divisor, is at most the dividend and
/// misses it by less than the divisor.
pub proof fn lemma_quotient_bounds(a: nat, b: nat)
    requires
        b > 0,
    ensures
        (a / b) * b <= a < (a / b + 1) * b,
{
    vstd::arithmetic::div_mod::lemma_fundamental_div_mod(a as int, b as int);
    vstd::arithmetic::div_mod::lemma_mod_bound(a as int, b as int);
    assert((a / b + 1) * b == (a / b) * b + b) by (nonlinear_arith);
    assert((a / b) * b == b * (a / b)) by (nonlinear_arith);
}

} // verus!
