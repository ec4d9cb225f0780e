use vstd::prelude::*;
use crate::market::{currency_of_text, market_of_mic, mic_of_text, Currency, Market, Mic};
use crate::text::same_text;

verus! {

/// Number of columns in one row of the data source.
pub const ROW_COLUMNS: usize = 11;

/// One listing of an instrument on one exchange.
#[derive(Debug, PartialEq, Eq, PartialOrd, Ord)]
pub struct SymbolData {
    pub title: String,
    pub long_title: String,
    pub subtitle: String,
    pub currency: Currency,
    pub isa_eligible: bool,
    pub sipp_eligible: bool,
    pub isin: String,
    pub mic: Mic,
    pub symbol: String,
    pub fractional_enabled: String,
    pub plus_only: bool,
}

/// A raw row that does not have the column count of the data source.
#[derive(Debug, PartialEq, Eq, Structural, Clone, Copy)]
pub struct StructuralDecodeError {
    pub columns: usize,
}

/// A flag field is set only when its text is exactly `TRUE`.
pub open spec fn flag_of_text(s: Seq<char>) -> bool {
    s == "TRUE"@
}

/// The record that a row of `ROW_COLUMNS` text fields decodes to. The
/// columns are, in order: title, long title, subtitle, currency, ISA
/// eligibility, SIPP eligibility, ISIN, MIC, symbol, fractional trading,
/// plus-only.
pub open spec fn decoded_row(row: Seq<String>) -> SymbolData {
    SymbolData {
        title: row[0],
        long_title: row[1],
        subtitle: row[2],
        currency: currency_of_text(row[3]@),
        isa_eligible: flag_of_text(row[4]@),
        sipp_eligible: flag_of_text(row[5]@),
        isin: row[6],
        mic: mic_of_text(row[7]@),
        symbol: row[8],
        fractional_enabled: row[9],
        plus_only: flag_of_text(row[10]@),
    }
}

/// Reads a flag field: exactly `TRUE` is `true`, any other text is `false`.
pub fn deserialize_bool(text: &str) -> (r: bool)
    ensures
        r == flag_of_text(text@),
{
    same_text(text, "TRUE")
}

/// Reads a currency field; unrecognised text is `UNKNOWN`.
pub fn deserialize_currency(text: &str) -> (r: Currency)
    ensures
        r == currency_of_text(text@),
{
    Currency::from_text(text)
}

/// Reads a market identifier code field; unrecognised text is `UNKNOWN`.
pub fn deserialize_mic(text: &str) -> (r: Mic)
    ensures
        r == mic_of_text(text@),
{
    Mic::from_text(text)
}

impl SymbolData {
    /// Decodes one column-positional raw row. Malformed flag or enum text
    /// never fails; only a row with the wrong number of columns does.
    pub fn from_row(row: &Vec<String>) -> (r: Result<SymbolData, StructuralDecodeError>)
        ensures
            r is Ok <==> row@.len() == ROW_COLUMNS,
            r is Ok ==> r->Ok_0 == decoded_row(row@),
            r is Err ==> r->Err_0.columns == row@.len(),
    {
        if row.len() != ROW_COLUMNS {
            return Err(StructuralDecodeError { columns: row.len() });
        }
        Ok(SymbolData {
            title: row[0].clone(),
            long_title: row[1].clone(),
            subtitle: row[2].clone(),
            currency: deserialize_currency(row[3].as_str()),
            isa_eligible: deserialize_bool(row[4].as_str()),
            sipp_eligible: deserialize_bool(row[5].as_str()),
            isin: row[6].clone(),
            mic: deserialize_mic(row[7].as_str()),
            symbol: row[8].clone(),
            fractional_enabled: row[9].clone(),
            plus_only: deserialize_bool(row[10].as_str()),
        })
    }

    /// The market of this listing's exchange; an error where the exchange
    /// maps to no market.
    pub fn market(&self) -> (r: Result<Market, ()>)
        ensures
            match market_of_mic(self.mic) {
                Some(m) => r == Ok::<Market, ()>(m),
                None => r is Err,
            },
    {
        Market::from_exchange(&self.mic)
    }
}

} // verus!
