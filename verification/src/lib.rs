//! Currency conversion over a cached table of exchange rates.
//!
//! The library decides; its caller reads the cache file, talks to the provider and
//! computes with the rates. Each operation is a function from what the caller has
//! learnt so far to what it has to do next.

pub mod cache;
pub mod exchange_api;
pub mod interactive;
pub mod rates;

pub use cache::Cache;

use cache::CacheError;
use exchange_api::ProviderError;
use rates::RateTable;
use vstd::prelude::*;
use vstd::string::StrSliceExecFns;

verus! {

/// Why a conversion was refused.
#[derive(Debug, PartialEq, Eq)]
pub enum ConvertError {
    /// The code does not have the shape of a currency code.
    InvalidCurrencyFormat(String),
    /// The code has the right shape but the rate table does not list it.
    UnknownCurrency(String),
    /// The rate table could not be had.
    Provider(ProviderError),
}

/// A refusal as contracts speak of it: with codes as sequences of characters.
pub enum Refusal {
    /// This code does not have the shape of a currency code.
    InvalidCurrencyFormat(Seq<char>),
    /// The rate table does not list this code.
    UnknownCurrency(Seq<char>),
    /// The rate table could not be had, for this reason.
    Provider(ProviderError),
}

impl View for ConvertError {
    type V = Refusal;

    open spec fn view(&self) -> Refusal {
        match self {
            ConvertError::InvalidCurrencyFormat(code) => Refusal::InvalidCurrencyFormat(code@),
            ConvertError::UnknownCurrency(code) => Refusal::UnknownCurrency(code@),
            ConvertError::Provider(e) => Refusal::Provider(*e),
        }
    }
}

/// A currency code is well formed when it is made of exactly three characters.
/// Nothing is asked of the characters themselves.
pub open spec fn well_formed_code(code: Seq<char>) -> bool {
    code.len() == 3
}

/// Offline check of the currency code format.
pub fn check_currency_format(code: &str) -> (r: Result<(), ConvertError>)
    ensures
        well_formed_code(code@) ==> r is Ok,
        !well_formed_code(code@) ==> (r matches Err(e) && e@ == Refusal::InvalidCurrencyFormat(
            code@,
        )),
{
    if code.unicode_len() == 3 {
        Ok(())
    } else {
        Err(ConvertError::InvalidCurrencyFormat(code.to_owned()))
    }
}

/// What a conversion has come to.
#[derive(Debug, PartialEq, Eq)]
pub enum Conversion<R> {
    /// The amount is zero: the converted amount and the rate are both zero.
    Zero,
    /// The table of rates is needed to go on.
    NeedsRates,
    /// Both currencies are listed, with these rates. The rate of the conversion is
    /// `target` divided by `source`, the converted amount that rate times the amount.
    Rates { source: R, target: R },
}

/// The outcome of a conversion from `from` to `to`. `zero` says whether the amount
/// is zero; `rates` is `None` as long as nobody has asked for the table, and then
/// the table or the reason for which it could not be had.
///
/// The codes are checked first, the source before the target. A zero amount needs
/// no table. Then the codes are looked up, again the source before the target.
pub open spec fn conversion<R>(
    from: Seq<char>,
    to: Seq<char>,
    zero: bool,
    rates: Option<Result<Map<Seq<char>, R>, ProviderError>>,
) -> Result<Conversion<R>, Refusal> {
    if !well_formed_code(from) {
        Err(Refusal::InvalidCurrencyFormat(from))
    } else if !well_formed_code(to) {
        Err(Refusal::InvalidCurrencyFormat(to))
    } else if zero {
        Ok(Conversion::Zero)
    } else {
        match rates {
            None => Ok(Conversion::NeedsRates),
            Some(Err(e)) => Err(Refusal::Provider(e)),
            Some(Ok(table)) => if !table.dom().contains(from) {
                Err(Refusal::UnknownCurrency(from))
            } else if !table.dom().contains(to) {
                Err(Refusal::UnknownCurrency(to))
            } else {
                Ok(Conversion::Rates { source: table[from], target: table[to] })
            },
        }
    }
}

/// The table that `rates` holds, as contracts speak of it.
pub open spec fn known<R>(rates: Option<Result<&RateTable<R>, ProviderError>>) -> Option<
    Result<Map<Seq<char>, R>, ProviderError>,
> {
    match rates {
        None => None,
        Some(Err(e)) => Some(Err(e)),
        Some(Ok(table)) => Some(Ok(table@)),
    }
}

/// Converts an amount from a source currency to a target currency, as far as the
/// decisions go: the caller says whether the amount is zero and, once it has been
/// asked to, hands in the table of rates; it divides and multiplies itself.
pub fn convert<R: Copy>(
    from: &str,
    to: &str,
    zero: bool,
    rates: Option<Result<&RateTable<R>, ProviderError>>,
) -> (r: Result<Conversion<R>, ConvertError>)
    requires
        rates matches Some(Ok(table)) ==> table.wf(),
    ensures
        match r {
            Ok(c) => conversion(from@, to@, zero, known(rates)) == Ok::<Conversion<R>, Refusal>(c),
            Err(e) => conversion(from@, to@, zero, known(rates)) == Err::<Conversion<R>, Refusal>(
                e@,
            ),
        },
{
    check_currency_format(from)?;
    check_currency_format(to)?;
    if zero {
        return Ok(Conversion::Zero);
    }
    match rates {
        None => Ok(Conversion::NeedsRates),
        Some(Err(e)) => Err(ConvertError::Provider(e)),
        Some(Ok(table)) => {
            let source = match table.get(from) {
                Some(rate) => *rate,
                None => {
                    return Err(ConvertError::UnknownCurrency(from.to_owned()));
                },
            };
            let target = match table.get(to) {
                Some(rate) => *rate,
                None => {
                    return Err(ConvertError::UnknownCurrency(to.to_owned()));
                },
            };
            Ok(Conversion::Rates { source, target })
        },
    }
}

/// A conversion of a zero amount between well-formed codes is settled at once,
/// whatever is known of the rates.
pub proof fn lemma_zero_amount<R>(
    from: Seq<char>,
    to: Seq<char>,
    rates: Option<Result<Map<Seq<char>, R>, ProviderError>>,
)
    requires
        well_formed_code(from),
        well_formed_code(to),
    ensures
        conversion(from, to, true, rates) == Ok::<Conversion<R>, Refusal>(Conversion::Zero),
{
}

/// Where the cached table of rates is kept, relative to the working directory.
pub const CACHE_FILE: &'static str = ".currencies";

/// What the reading of the rates is waiting for.
#[derive(Debug, Clone, Copy, PartialEq, Eq, Structural)]
pub enum Stage {
    /// The cache is being read.
    Cache,
    /// The provider has been asked for a fresh table.
    Provider,
    /// The fresh table is being written to the cache.
    Store,
    /// The reading has ended.
    Over,
}

/// What the caller reports back.
#[derive(Debug)]
pub enum Event<T> {
    /// What the cache gave: a table that is still fresh, or the reason for none.
    Loaded(Result<T, CacheError>),
    /// What the provider gave.
    Fetched(Result<T, ProviderError>),
    /// The table that was to be written, and how the writing went.
    Stored(T, Result<(), CacheError>),
}

/// What the caller has to do next.
#[derive(Debug)]
pub enum Step<T> {
    /// Ask the provider for a fresh table.
    Fetch,
    /// Write this table to the cache, and hand it back.
    Store(T),
    /// The reading has ended with this result.
    Return(Result<T, ProviderError>),
    /// The event does not belong to the stage; nothing has changed.
    Rejected,
}

/// The read-through rule. A table from the cache is returned as it is. Whatever
/// the reason for which the cache gave none, the provider is asked; its failure is
/// the result. A fresh table is written to the cache and then returned, whether or
/// not the writing went well.
pub open spec fn next<T>(stage: Stage, event: Event<T>) -> (Stage, Step<T>) {
    match (stage, event) {
        (Stage::Cache, Event::Loaded(Ok(table))) => (Stage::Over, Step::Return(Ok(table))),
        (Stage::Cache, Event::Loaded(Err(_))) => (Stage::Provider, Step::Fetch),
        (Stage::Provider, Event::Fetched(Ok(table))) => (Stage::Store, Step::Store(table)),
        (Stage::Provider, Event::Fetched(Err(e))) => (Stage::Over, Step::Return(Err(e))),
        (Stage::Store, Event::Stored(table, _)) => (Stage::Over, Step::Return(Ok(table))),
        (stage, _) => (stage, Step::Rejected),
    }
}

/// Takes the reading of the available currencies and their rates one step further.
/// A reading starts in `Stage::Cache`, with the cache being read.
pub fn get_available_currencies<T>(stage: Stage, event: Event<T>) -> (r: (Stage, Step<T>))
    ensures
        r == next(stage, event),
{
    match (stage, event) {
        (Stage::Cache, Event::Loaded(Ok(table))) => (Stage::Over, Step::Return(Ok(table))),
        (Stage::Cache, Event::Loaded(Err(_))) => (Stage::Provider, Step::Fetch),
        (Stage::Provider, Event::Fetched(Ok(table))) => (Stage::Store, Step::Store(table)),
        (Stage::Provider, Event::Fetched(Err(e))) => (Stage::Over, Step::Return(Err(e))),
        (Stage::Store, Event::Stored(table, _)) => (Stage::Over, Step::Return(Ok(table))),
        (stage, _) => (stage, Step::Rejected),
    }
}

/// How often the provider is asked while `events` are taken in, one after the
/// other, from `stage` on.
pub open spec fn fetches<T>(stage: Stage, events: Seq<Event<T>>) -> nat
    decreases events.len(),
{
    if events.len() == 0 {
        0
    } else {
        let (then, step) = next(stage, events[0]);
        let asked: nat = if step is Fetch {
            1
        } else {
            0
        };
        asked + fetches(then, events.drop_first())
    }
}

/// Only a reading that still waits for the cache can come to ask the provider,
/// and it does so once at most.
pub proof fn lemma_fetches_bounded<T>(stage: Stage, events: Seq<Event<T>>)
    ensures
        fetches(stage, events) <= 1,
        stage != Stage::Cache ==> fetches(stage, events) == 0,
    decreases events.len(),
{
    if events.len() > 0 {
        let (then, step) = next(stage, events[0]);
        lemma_fetches_bounded(then, events.drop_first());
    }
}

/// A table from the cache ends the reading: it is the result, and the provider is
/// not asked, whatever is reported afterwards.
pub proof fn lemma_cache_hit_avoids_fetch<T>(table: T, events: Seq<Event<T>>)
    requires
        events.len() > 0,
        events[0] == Event::Loaded(Ok::<T, CacheError>(table)),
    ensures
        next(Stage::Cache, events[0]) == (Stage::Over, Step::Return(Ok::<T, ProviderError>(table))),
        fetches(Stage::Cache, events) == 0,
{
    lemma_fetches_bounded(Stage::Over, events.drop_first());
}

/// Where the cache gives no table, whatever the reason, the provider is asked, and
/// that exactly once, whatever is reported afterwards.
pub proof fn lemma_refresh_on_miss<T>(reason: CacheError, events: Seq<Event<T>>)
    requires
        events.len() > 0,
        events[0] == Event::Loaded(Err::<T, CacheError>(reason)),
    ensures
        next(Stage::Cache, events[0]) == (Stage::Provider, Step::<T>::Fetch),
        fetches(Stage::Cache, events) == 1,
{
    lemma_fetches_bounded(Stage::Provider, events.drop_first());
}

/// The steps that the caller is told to take while `events` are taken in, one
/// after the other, from `stage` on.
pub open spec fn steps<T>(stage: Stage, events: Seq<Event<T>>) -> Seq<Step<T>>
    decreases events.len(),
{
    if events.len() == 0 {
        Seq::empty()
    } else {
        let (then, step) = next(stage, events[0]);
        seq![step] + steps(then, events.drop_first())
    }
}

/// The course of a refresh: after a cache that gave nothing the provider is asked,
/// its table goes to the cache, and it is the result whether or not the cache
/// could be written.
pub proof fn lemma_course_of_a_refresh<T>(
    reason: CacheError,
    table: T,
    written: Result<(), CacheError>,
)
    ensures
        steps(
            Stage::Cache,
            seq![
                Event::Loaded(Err::<T, CacheError>(reason)),
                Event::Fetched(Ok::<T, ProviderError>(table)),
                Event::Stored(table, written),
            ],
        ) == seq![Step::Fetch, Step::Store(table), Step::Return(Ok::<T, ProviderError>(table))],
{
    let e0 = Event::Loaded(Err::<T, CacheError>(reason));
    let e1 = Event::Fetched(Ok::<T, ProviderError>(table));
    let e2 = Event::Stored(table, written);
    assert(seq![e0, e1, e2].drop_first() =~= seq![e1, e2]);
    assert(seq![e1, e2].drop_first() =~= seq![e2]);
    assert(seq![e2].drop_first() =~= Seq::<Event<T>>::empty());
    assert(steps(Stage::Over, Seq::<Event<T>>::empty()) =~= Seq::<Step<T>>::empty());
    assert(steps(Stage::Store, seq![e2]) =~= seq![Step::Return(Ok::<T, ProviderError>(table))]);
    assert(steps(Stage::Provider, seq![e1, e2]) =~= seq![
        Step::Store(table),
        Step::Return(Ok::<T, ProviderError>(table)),
    ]);
    assert(steps(Stage::Cache, seq![e0, e1, e2]) =~= seq![
        Step::Fetch,
        Step::Store(table),
        Step::Return(Ok::<T, ProviderError>(table)),
    ]);
}

/// The course of a failed refresh: the failure of the provider is the result, and
/// nothing goes to the cache.
pub proof fn lemma_course_of_a_failed_fetch<T>(reason: CacheError, failure: ProviderError)
    ensures
        steps(
            Stage::Cache,
            seq![
                Event::Loaded(Err::<T, CacheError>(reason)),
                Event::Fetched(Err::<T, ProviderError>(failure)),
            ],
        ) == seq![Step::<T>::Fetch, Step::Return(Err::<T, ProviderError>(failure))],
{
    let e0 = Event::Loaded(Err::<T, CacheError>(reason));
    let e1 = Event::Fetched(Err::<T, ProviderError>(failure));
    assert(seq![e0, e1].drop_first() =~= seq![e1]);
    assert(seq![e1].drop_first() =~= Seq::<Event<T>>::empty());
    assert(steps(Stage::Over, Seq::<Event<T>>::empty()) =~= Seq::<Step<T>>::empty());
    assert(steps(Stage::Provider, seq![e1]) =~= seq![
        Step::Return(Err::<T, ProviderError>(failure)),
    ]);
    assert(steps(Stage::Cache, seq![e0, e1]) =~= seq![
        Step::<T>::Fetch,
        Step::Return(Err::<T, ProviderError>(failure)),
    ]);
}

/// What can be asked to be printed.
#[derive(Debug, Clone, Copy, PartialEq, Eq, Structural)]
pub enum PrintRequest {
    /// The list of currencies, each with its current rate.
    CurrencyList,
}

/// The request by its name.
pub open spec fn named_request(request: Seq<char>) -> Option<PrintRequest> {
    if request == "currency-list"@ {
        Some(PrintRequest::CurrencyList)
    } else {
        None
    }
}

/// Tells which information is asked for, by the name of the request; `None` for a
/// name that stands for nothing. Getting the information and printing it are the
/// caller's.
pub fn print_request(request: &str) -> (r: Option<PrintRequest>)
    ensures
        r == named_request(request@),
{
    if request.to_owned() == "currency-list".to_owned() {
        Some(PrintRequest::CurrencyList)
    } else {
        None
    }
}

} // verus!
