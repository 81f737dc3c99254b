use vstd::prelude::*;
use crate::digits::{dec_digits, u128_to_dec, u64_to_dec, u64_to_dec_padded, zero_pad};
use crate::store::Order;

verus! {

/// A token amount: `<amount>` units of `<denom>`.
#[derive(Debug, PartialEq, Eq)]
pub struct Coin {
    pub denom: String,
    pub amount: u128,
}

impl Coin {
    pub fn new(amount: u128, denom: &str) -> (coin: Coin)
        ensures
            coin.amount == amount,
            coin.denom@ == denom@,
    {
        Coin { denom: denom.to_owned(), amount }
    }
}

impl Clone for Coin {
    fn clone(&self) -> (other: Self)
        ensures
            other.amount == self.amount,
            other.denom@ == self.denom@,
    {
        Coin { denom: self.denom.clone(), amount: self.amount }
    }
}

/// `<amount><denom>`, the canonical text of a coin.
pub open spec fn coin_chars(amount: nat, denom: Seq<char>) -> Seq<char> {
    dec_digits(amount) + denom
}

pub fn coin_string(coin: &Coin) -> (s: String)
    ensures
        s@ == coin_chars(coin.amount as nat, coin.denom@),
{
    let mut s = u128_to_dec(coin.amount);
    s.append(coin.denom.as_str());
    s
}

/// `<seconds>.<nanos>`, the canonical text of a nanosecond timestamp, the
/// fractional part always nine digits.
pub open spec fn timestamp_chars(nanos: nat) -> Seq<char> {
    dec_digits(nanos / 1000000000) + "."@ + zero_pad(dec_digits(nanos % 1000000000), 9)
}

pub fn timestamp_string(nanos: u64) -> (s: String)
    ensures
        s@ == timestamp_chars(nanos as nat),
{
    let mut s = u64_to_dec(nanos / 1000000000);
    s.append(".");
    let frac = u64_to_dec_padded(nanos % 1000000000, 9);
    s.append(frac.as_str());
    proof {
        assert(s@ =~= timestamp_chars(nanos as nat));
    }
    s
}

/// Why a burn was refused; each leaves the ledger untouched.
#[derive(Debug, Clone, Copy, PartialEq, Eq, Structural)]
pub enum SinkError {
    /// More than one coin was attached.
    TooManyCoins,
    /// No coin was attached.
    NoCoins,
    /// The attached coin is not of the burnable denomination.
    WrongDenom,
    /// A balance burn takes no attached funds.
    NonPayableMessage,
    /// The balance to burn is zero.
    NoFundsToBurn,
}

/// One burned amount, kept for the record: who burned (nobody for a balance
/// burn), what, and when.
#[derive(Debug)]
pub struct Ash {
    pub burner: Option<String>,
    pub amount: Coin,
    pub time: u64,
}

/// Like [`Ash`] but together with its sequential id; built on read.
#[derive(Debug, PartialEq, Eq)]
pub struct QueriedAsh {
    pub id: u32,
    pub burner: Option<String>,
    pub amount: Coin,
    pub time: u64,
}

/// Field-wise agreement of a read projection with a stored row.
pub open spec fn queried_like(q: QueriedAsh, a: Ash) -> bool {
    &&& q.burner.deep_view() == a.burner.deep_view()
    &&& q.amount.amount == a.amount.amount
    &&& q.amount.denom@ == a.amount.denom@
    &&& q.time == a.time
}

/// What one accepted burn produced: the row id, the coins handed to the
/// bank's burn command, and the response attributes.
#[derive(Debug)]
pub struct BurnReceipt {
    pub id: u32,
    pub burn: Vec<Coin>,
    pub attributes: Vec<(String, String)>,
}

/// Ledger of burned funds. Rows carry sequential ids starting at 1: the row
/// with id `i` sits at index `i - 1`.
pub struct AshStore {
    pub ashes: Vec<Ash>,
}

impl AshStore {
    pub fn new() -> (store: Self)
        ensures
            store.ashes@.len() == 0,
    {
        AshStore { ashes: Vec::new() }
    }

    /// Burn the single attached coin of the burnable denomination, recording
    /// who burned it and when; anything else is refused without a state
    /// change.
    pub fn burn(&mut self, burner: String, funds: Vec<Coin>, time: u64) -> (receipt: Result<
        BurnReceipt,
        SinkError,
    >)
        requires
            old(self).ashes@.len() < u32::MAX,
        ensures
            receipt is Err ==> final(self).ashes@ == old(self).ashes@,
            funds@.len() > 1 ==> receipt == Err::<BurnReceipt, SinkError>(SinkError::TooManyCoins),
            funds@.len() == 0 ==> receipt == Err::<BurnReceipt, SinkError>(SinkError::NoCoins),
            funds@.len() == 1 && funds@[0].denom@ != "unois"@ ==> receipt == Err::<
                BurnReceipt,
                SinkError,
            >(SinkError::WrongDenom),
            funds@.len() == 1 && funds@[0].denom@ == "unois"@ ==> (receipt matches Ok(r) && {
                &&& final(self).ashes@.len() == old(self).ashes@.len() + 1
                &&& final(self).ashes@.drop_last() == old(self).ashes@
                &&& final(self).ashes@.last().burner.deep_view() == Some(burner@)
                &&& final(self).ashes@.last().amount == funds@[0]
                &&& final(self).ashes@.last().time == time
                &&& r.id == old(self).ashes@.len() + 1
                &&& r.burn@.len() == 1
                &&& r.burn@[0].amount == funds@[0].amount
                &&& r.burn@[0].denom@ == funds@[0].denom@
                &&& r.attributes@.len() == 3
                &&& r.attributes@[0].0@ == "burnt_amount"@
                &&& r.attributes@[0].1@ == coin_chars(funds@[0].amount as nat, funds@[0].denom@)
                &&& r.attributes@[1].0@ == "burner"@
                &&& r.attributes@[1].1@ == burner@
                &&& r.attributes@[2].0@ == "time"@
                &&& r.attributes@[2].1@ == timestamp_chars(time as nat)
            }),
    {
        let mut funds = funds;
        if funds.len() > 1 {
            return Err(SinkError::TooManyCoins);
        }
        let coin = match funds.pop() {
            Some(coin) => coin,
            None => {
                return Err(SinkError::NoCoins);
            },
        };
        let expected = String::from_str("unois");
        if !(coin.denom == expected) {
            return Err(SinkError::WrongDenom);
        }
        let id_u: usize = self.ashes.len() + 1;
        let id: u32 = id_u as u32;
        let mut attributes: Vec<(String, String)> = Vec::new();
        attributes.push((String::from_str("burnt_amount"), coin_string(&coin)));
        attributes.push((String::from_str("burner"), burner.clone()));
        attributes.push((String::from_str("time"), timestamp_string(time)));
        let burn_coin = coin.clone();
        let mut burn: Vec<Coin> = Vec::new();
        burn.push(burn_coin);
        self.ashes.push(Ash { burner: Some(burner), amount: coin, time });
        Ok(BurnReceipt { id, burn, attributes })
    }

    /// Burn the whole balance the host reports for this ledger's account,
    /// attributed to nobody. The caller passes the attached funds (which must
    /// be empty) and the fetched balance.
    pub fn burn_balance(&mut self, funds: &Vec<Coin>, contract_balance: Coin, time: u64) -> (receipt:
        Result<BurnReceipt, SinkError>)
        requires
            old(self).ashes@.len() < u32::MAX,
        ensures
            receipt is Err ==> final(self).ashes@ == old(self).ashes@,
            funds@.len() > 0 ==> receipt == Err::<BurnReceipt, SinkError>(
                SinkError::NonPayableMessage,
            ),
            funds@.len() == 0 && contract_balance.amount == 0 ==> receipt == Err::<
                BurnReceipt,
                SinkError,
            >(SinkError::NoFundsToBurn),
            funds@.len() == 0 && contract_balance.amount > 0 ==> (receipt matches Ok(r) && {
                &&& final(self).ashes@.len() == old(self).ashes@.len() + 1
                &&& final(self).ashes@.drop_last() == old(self).ashes@
                &&& final(self).ashes@.last().burner is None
                &&& final(self).ashes@.last().amount == contract_balance
                &&& final(self).ashes@.last().time == time
                &&& r.id == old(self).ashes@.len() + 1
                &&& r.burn@.len() == 1
                &&& r.burn@[0].amount == contract_balance.amount
                &&& r.burn@[0].denom@ == contract_balance.denom@
                &&& r.attributes@.len() == 2
                &&& r.attributes@[0].0@ == "burnt_amount"@
                &&& r.attributes@[0].1@ == coin_chars(
                    contract_balance.amount as nat,
                    contract_balance.denom@,
                )
                &&& r.attributes@[1].0@ == "time"@
                &&& r.attributes@[1].1@ == timestamp_chars(time as nat)
            }),
    {
        if funds.len() > 0 {
            return Err(SinkError::NonPayableMessage);
        }
        if contract_balance.amount == 0 {
            return Err(SinkError::NoFundsToBurn);
        }
        let id_u: usize = self.ashes.len() + 1;
        let id: u32 = id_u as u32;
        let mut attributes: Vec<(String, String)> = Vec::new();
        attributes.push((String::from_str("burnt_amount"), coin_string(&contract_balance)));
        attributes.push((String::from_str("time"), timestamp_string(time)));
        let burn_coin = contract_balance.clone();
        let mut burn: Vec<Coin> = Vec::new();
        burn.push(burn_coin);
        self.ashes.push(Ash { burner: None, amount: contract_balance, time });
        Ok(BurnReceipt { id, burn, attributes })
    }

    /// First row index an ascending listing starts at.
    pub open spec fn asc_start(&self, start_after: Option<u32>) -> int {
        let c: int = match start_after {
            Option::None => 0,
            Option::Some(c) => c as int,
        };
        if c <= self.ashes@.len() {
            c
        } else {
            self.ashes@.len() as int
        }
    }

    /// Row index bound (exclusive) a descending listing starts below.
    pub open spec fn desc_stop(&self, start_after: Option<u32>) -> int {
        let c: int = match start_after {
            Option::None => self.ashes@.len() as int,
            Option::Some(c) => if c == 0 {
                0
            } else {
                c - 1
            },
        };
        if c <= self.ashes@.len() {
            c
        } else {
            self.ashes@.len() as int
        }
    }

    /// How many rows a listing returns out of `avail`: the caller's limit,
    /// 100 by default.
    pub open spec fn take_count(avail: int, limit: Option<u32>) -> int {
        let lim: int = match limit {
            Option::None => 100,
            Option::Some(l) => l as int,
        };
        if lim <= avail {
            lim
        } else {
            avail
        }
    }

    /// List burned rows from the exclusive `start_after` id on, in the given
    /// direction, at most `limit` rows (100 by default).
    pub fn query_ashes(&self, start_after: Option<u32>, limit: Option<u32>, order: Order) -> (out:
        Vec<QueriedAsh>)
        requires
            self.ashes@.len() < u32::MAX,
        ensures
            order == Order::Ascending ==> {
                &&& out@.len() == Self::take_count(
                    self.ashes@.len() - self.asc_start(start_after),
                    limit,
                )
                &&& forall|k: int|
                    0 <= k < out@.len() ==> (#[trigger] out@[k]).id == self.asc_start(start_after)
                        + k + 1 && queried_like(
                        out@[k],
                        self.ashes@[self.asc_start(start_after) + k],
                    )
            },
            order == Order::Descending ==> {
                &&& out@.len() == Self::take_count(self.desc_stop(start_after), limit)
                &&& forall|k: int|
                    0 <= k < out@.len() ==> (#[trigger] out@[k]).id == self.desc_stop(start_after)
                        - k && queried_like(
                        out@[k],
                        self.ashes@[self.desc_stop(start_after) - 1 - k],
                    )
            },
    {
        let lim: usize = match limit {
            None => 100,
            Some(l) => l as usize,
        };
        let mut out: Vec<QueriedAsh> = Vec::new();
        match order {
            Order::Ascending => {
                let start: usize = match start_after {
                    None => 0,
                    Some(c) => if (c as usize) <= self.ashes.len() {
                        c as usize
                    } else {
                        self.ashes.len()
                    },
                };
                let mut i: usize = start;
                while i < self.ashes.len() && out.len() < lim
                    invariant
                        start <= i <= self.ashes@.len(),
                        self.ashes@.len() < u32::MAX,
                        out@.len() == i - start,
                        out@.len() <= lim,
                        forall|k: int|
                            0 <= k < out@.len() ==> (#[trigger] out@[k]).id == start + k + 1
                                && queried_like(out@[k], self.ashes@[start + k]),
                    decreases self.ashes@.len() - i,
                {
                    let ash = &self.ashes[i];
                    out.push(
                        QueriedAsh {
                            id: (i + 1) as u32,
                            burner: match &ash.burner {
                                Some(b) => Some(b.clone()),
                                None => None,
                            },
                            amount: ash.amount.clone(),
                            time: ash.time,
                        },
                    );
                    i += 1;
                }
                out
            },
            Order::Descending => {
                let stop: usize = match start_after {
                    None => self.ashes.len(),
                    Some(c) => {
                        let m: usize = if c == 0 {
                            0
                        } else {
                            (c - 1) as usize
                        };
                        if m <= self.ashes.len() {
                            m
                        } else {
                            self.ashes.len()
                        }
                    },
                };
                let mut i: usize = stop;
                while i > 0 && out.len() < lim
                    invariant
                        0 <= i <= stop <= self.ashes@.len(),
                        self.ashes@.len() < u32::MAX,
                        out@.len() == stop - i,
                        out@.len() <= lim,
                        forall|k: int|
                            0 <= k < out@.len() ==> (#[trigger] out@[k]).id == stop - k
                                && queried_like(out@[k], self.ashes@[stop - 1 - k]),
                    decreases i,
                {
                    i -= 1;
                    let ash = &self.ashes[i];
                    out.push(
                        QueriedAsh {
                            id: (i + 1) as u32,
                            burner: match &ash.burner {
                                Some(b) => Some(b.clone()),
                                None => None,
                            },
                            amount: ash.amount.clone(),
                            time: ash.time,
                        },
                    );
                }
                out
            },
        }
    }
}

} // verus!
