use vstd::prelude::*;
use crate::error::ClientError;
use crate::text::{all_digits, dec_value, parse_usize};

verus! {

/// One OHLCV sample of a quote series. Prices and volume are fixed-point
/// integers in a unit chosen by the caller (the facade uses micro-units);
/// the site's decimal values are scaled at the boundary, and samples that
/// carry no number there are dropped before they reach this type.
#[derive(Debug)]
pub struct QuoteTab {
    pub date: String,
    pub close: u64,
    pub high: u64,
    pub low: u64,
    pub open_price: u64,
    pub volume: u64,
}

pub struct QuoteTabView {
    pub date: Seq<char>,
    pub close: u64,
    pub high: u64,
    pub low: u64,
    pub open_price: u64,
    pub volume: u64,
}

impl View for QuoteTab {
    type V = QuoteTabView;

    open spec fn view(&self) -> QuoteTabView {
        QuoteTabView {
            date: self.date@,
            close: self.close,
            high: self.high,
            low: self.low,
            open_price: self.open_price,
            volume: self.volume,
        }
    }
}

impl Clone for QuoteTab {
    fn clone(&self) -> (r: Self)
        ensures
            r@ == self@,
    {
        QuoteTab {
            date: self.date.clone(),
            close: self.close,
            high: self.high,
            low: self.low,
            open_price: self.open_price,
            volume: self.volume,
        }
    }
}

/// A chronological quote series; insertion order is chronological order.
#[derive(Debug)]
pub struct Ticks {
    pub quote_tab: Vec<QuoteTab>,
}

pub open spec fn sum_volumes(s: Seq<QuoteTab>) -> int
    decreases s.len(),
{
    if s.len() == 0 {
        0
    } else {
        sum_volumes(s.drop_last()) + s.last().volume
    }
}

pub open spec fn sum_closes(s: Seq<QuoteTab>) -> int
    decreases s.len(),
{
    if s.len() == 0 {
        0
    } else {
        sum_closes(s.drop_last()) + s.last().close
    }
}

impl Ticks {
    /// The maximum of the samples' `high` fields; no value on an empty
    /// series.
    pub fn get_highest_value(&self) -> (r: Option<u64>)
        ensures
            match r {
                Some(m) => {
                    &&& self.quote_tab@.len() > 0
                    &&& exists|i: int| 0 <= i < self.quote_tab@.len() && self.quote_tab@[i].high == m
                    &&& forall|i: int| 0 <= i < self.quote_tab@.len() ==> self.quote_tab@[i].high <= m
                },
                None => self.quote_tab@.len() == 0,
            },
    {
        if self.quote_tab.len() == 0 {
            return None;
        }
        let mut m: u64 = self.quote_tab[0].high;
        let mut i: usize = 1;
        while i < self.quote_tab.len()
            invariant
                1 <= i <= self.quote_tab@.len(),
                exists|k: int| 0 <= k < i && self.quote_tab@[k].high == m,
                forall|k: int| 0 <= k < i ==> self.quote_tab@[k].high <= m,
            decreases self.quote_tab@.len() - i,
        {
            if self.quote_tab[i].high > m {
                m = self.quote_tab[i].high;
            }
            i += 1;
        }
        Some(m)
    }

    /// The minimum of the samples' `low` fields; no value on an empty
    /// series.
    pub fn get_lowest_value(&self) -> (r: Option<u64>)
        ensures
            match r {
                Some(m) => {
                    &&& self.quote_tab@.len() > 0
                    &&& exists|i: int| 0 <= i < self.quote_tab@.len() && self.quote_tab@[i].low == m
                    &&& forall|i: int| 0 <= i < self.quote_tab@.len() ==> self.quote_tab@[i].low >= m
                },
                None => self.quote_tab@.len() == 0,
            },
    {
        if self.quote_tab.len() == 0 {
            return None;
        }
        let mut m: u64 = self.quote_tab[0].low;
        let mut i: usize = 1;
        while i < self.quote_tab.len()
            invariant
                1 <= i <= self.quote_tab@.len(),
                exists|k: int| 0 <= k < i && self.quote_tab@[k].low == m,
                forall|k: int| 0 <= k < i ==> self.quote_tab@[k].low >= m,
            decreases self.quote_tab@.len() - i,
        {
            if self.quote_tab[i].low < m {
                m = self.quote_tab[i].low;
            }
            i += 1;
        }
        Some(m)
    }

    /// The sum of the samples' `volume` fields; no value on an empty series.
    pub fn get_volume(&self) -> (r: Option<u128>)
        ensures
            match r {
                Some(v) => self.quote_tab@.len() > 0 && v as int == sum_volumes(self.quote_tab@),
                None => self.quote_tab@.len() == 0,
            },
    {
        if self.quote_tab.len() == 0 {
            return None;
        }
        let mut acc: u128 = 0;
        let mut i: usize = 0;
        while i < self.quote_tab.len()
            invariant
                i <= self.quote_tab@.len(),
                acc as int == sum_volumes(self.quote_tab@.take(i as int)),
                acc as int <= i * (u64::MAX as int),
            decreases self.quote_tab@.len() - i,
        {
            proof {
                assert(self.quote_tab@.take(i + 1).drop_last() =~= self.quote_tab@.take(i as int));
                assert(self.quote_tab@.take(i + 1).last() == self.quote_tab@[i as int]);
            }
            acc = acc + self.quote_tab[i].volume as u128;
            i += 1;
        }
        proof {
            assert(self.quote_tab@.take(self.quote_tab@.len() as int) =~= self.quote_tab@);
        }
        Some(acc)
    }

    /// The arithmetic mean of the samples' `close` fields, rounded down to
    /// the fixed-point unit; no value on an empty series.
    pub fn get_average_value(&self) -> (r: Option<u128>)
        ensures
            match r {
                Some(a) => self.quote_tab@.len() > 0 && a as int == sum_closes(self.quote_tab@)
                    / (self.quote_tab@.len() as int),
                None => self.quote_tab@.len() == 0,
            },
    {
        let n = self.quote_tab.len();
        if n == 0 {
            return None;
        }
        let mut acc: u128 = 0;
        let mut i: usize = 0;
        while i < n
            invariant
                n == self.quote_tab@.len(),
                i <= n,
                acc as int == sum_closes(self.quote_tab@.take(i as int)),
                acc as int <= i * (u64::MAX as int),
            decreases n - i,
        {
            proof {
                assert(self.quote_tab@.take(i + 1).drop_last() =~= self.quote_tab@.take(i as int));
                assert(self.quote_tab@.take(i + 1).last() == self.quote_tab@[i as int]);
            }
            acc = acc + self.quote_tab[i].close as u128;
            i += 1;
        }
        proof {
            assert(self.quote_tab@.take(n as int) =~= self.quote_tab@);
        }
        Some(acc / (n as u128))
    }

    /// The chronologically last sample; no value on an empty series.
    pub fn get_last_quote(&self) -> (r: Option<QuoteTab>)
        ensures
            match r {
                Some(q) => self.quote_tab@.len() > 0 && q@ == self.quote_tab@[self.quote_tab@.len()
                    - 1]@,
                None => self.quote_tab@.len() == 0,
            },
    {
        if self.quote_tab.len() == 0 {
            return None;
        }
        Some(self.quote_tab[self.quote_tab.len() - 1].clone())
    }
}

/// Accept a decoded quote response, or classify it: a response that did not
/// decode, or decoded to an empty series, means the symbol is unknown.
pub fn ticks_from_response(parsed: Option<Ticks>) -> (r: Result<Ticks, ClientError>)
    ensures
        match parsed {
            None => r == Err::<Ticks, ClientError>(ClientError::SymbolNotFound),
            Some(t) => {
                if t.quote_tab@.len() == 0 {
                    r == Err::<Ticks, ClientError>(ClientError::SymbolNotFound)
                } else {
                    r == Ok::<Ticks, ClientError>(t)
                }
            },
        },
{
    match parsed {
        None => Err(ClientError::SymbolNotFound),
        Some(t) => {
            if t.quote_tab.len() == 0 {
                Err(ClientError::SymbolNotFound)
            } else {
                Ok(t)
            }
        },
    }
}

/// Decode one optional request parameter that must be a decimal number,
/// falling back to `default` when it is absent. A present but non-numeric
/// or oversized value is a malformed request.
pub fn parse_param(p: &Option<String>, default: usize) -> (r: Option<usize>)
    ensures
        match *p {
            None => r == Some(default),
            Some(s) => match r {
                Some(v) => s@.len() > 0 && all_digits(s@) && v as int == dec_value(s@),
                None => s@.len() == 0 || !all_digits(s@) || dec_value(s@) > usize::MAX,
            },
        },
{
    match p {
        None => Some(default),
        Some(s) => parse_usize(s.as_str()),
    }
}

/// The `length` and `interval` parameters of a quote request, with the
/// defaults the facade documents (30 samples, interval 0); a parameter that
/// is present but not a decimal number is a malformed request.
pub fn ticks_params(length: &Option<String>, interval: &Option<String>) -> (r: Result<
    (usize, usize),
    ClientError,
>)
    ensures
        match r {
            Ok(p) => {
                &&& match *length {
                    None => p.0 == 30,
                    Some(s) => s@.len() > 0 && all_digits(s@) && p.0 as int == dec_value(s@),
                }
                &&& match *interval {
                    None => p.1 == 0,
                    Some(s) => s@.len() > 0 && all_digits(s@) && p.1 as int == dec_value(s@),
                }
            },
            Err(e) => {
                &&& e == ClientError::MalformedPayload
                &&& {
                    ||| (length matches Some(s) && (s@.len() == 0 || !all_digits(s@) || dec_value(
                        s@,
                    ) > usize::MAX))
                    ||| (interval matches Some(s) && (s@.len() == 0 || !all_digits(s@)
                        || dec_value(s@) > usize::MAX))
                }
            },
        },
{
    let l = parse_param(length, 30);
    let iv = parse_param(interval, 0);
    match (l, iv) {
        (Some(a), Some(b)) => Ok((a, b)),
        _ => Err(ClientError::MalformedPayload),
    }
}

} // verus!
