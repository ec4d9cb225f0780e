use vstd::prelude::*;
use crate::text::same_text;

verus! {

/// A currency-denominated trading region.
#[derive(Debug, PartialEq, Eq, Structural, Clone, Copy)]
pub enum Market {
    USD,
    GBP,
    SEK,
    EUR,
    UNKNOWN,
}

/// The currency an instrument is quoted in.
#[derive(Debug, PartialEq, Eq, Structural, Clone, Copy, PartialOrd, Ord)]
pub enum Currency {
    EUR,
    GBP,
    USD,
    SEK,
    UNKNOWN,
}

/// Market identifier code: the exchange an instrument is listed on.
#[derive(Debug, PartialEq, Eq, Structural, Clone, Copy, PartialOrd, Ord, Hash)]
pub enum Mic {
    XETR,
    XLON,
    XNAS,
    XNYS,
    XLIS,
    PINK,
    XHEL,
    XWBO,
    XAMS,
    XBRU,
    XSTO,
    UNKNOWN,
}

/// The glyph shown for a market's currency.
pub open spec fn glyph_of(m: Market) -> Seq<char> {
    match m {
        Market::USD => seq!['$'],
        Market::GBP => seq!['£'],
        Market::EUR => seq!['€'],
        Market::SEK => seq!['k', 'r'],
        Market::UNKNOWN => seq!['$'],
    }
}

/// The market named by the first character of a currency glyph.
pub open spec fn market_of_glyph(s: Seq<char>) -> Market {
    if s.len() == 0 {
        Market::UNKNOWN
    } else if s[0] == '$' {
        Market::USD
    } else if s[0] == '£' {
        Market::GBP
    } else if s[0] == '€' {
        Market::EUR
    } else {
        Market::UNKNOWN
    }
}

/// The market of an exchange display name, if the name is one that is known.
pub open spec fn market_of_name(s: Seq<char>) -> Option<Market> {
    if s == "NASDAQ"@ || s == "NYSE"@ || s == "NYSE ARCA"@ {
        Some(Market::USD)
    } else if s == "LSE"@ {
        Some(Market::GBP)
    } else {
        None
    }
}

/// The market of an exchange, for the exchanges that map to one.
pub open spec fn market_of_mic(m: Mic) -> Option<Market> {
    match m {
        Mic::XNAS => Some(Market::USD),
        Mic::XNYS => Some(Market::USD),
        Mic::XLON => Some(Market::GBP),
        _ => None,
    }
}

/// The currency written as `text`; unrecognised text is `UNKNOWN`.
pub open spec fn currency_of_text(s: Seq<char>) -> Currency {
    if s == "eur"@ {
        Currency::EUR
    } else if s == "gbp"@ {
        Currency::GBP
    } else if s == "usd"@ {
        Currency::USD
    } else if s == "sek"@ {
        Currency::SEK
    } else {
        Currency::UNKNOWN
    }
}

/// The exchange written as `text`; unrecognised text is `UNKNOWN`.
pub open spec fn mic_of_text(s: Seq<char>) -> Mic {
    if s == "XETR"@ {
        Mic::XETR
    } else if s == "XLON"@ {
        Mic::XLON
    } else if s == "XNAS"@ {
        Mic::XNAS
    } else if s == "XNYS"@ {
        Mic::XNYS
    } else if s == "XLIS"@ {
        Mic::XLIS
    } else if s == "PINK"@ {
        Mic::PINK
    } else if s == "XHEL"@ {
        Mic::XHEL
    } else if s == "XWBO"@ {
        Mic::XWBO
    } else if s == "XAMS"@ {
        Mic::XAMS
    } else if s == "XBRU"@ {
        Mic::XBRU
    } else if s == "XSTO"@ {
        Mic::XSTO
    } else {
        Mic::UNKNOWN
    }
}

impl Market {
    /// The currency glyph of this market.
    pub fn as_symbol(&self) -> (r: String)
        ensures
            r@ == glyph_of(*self),
    {
        proof {
            reveal_strlit("$");
            reveal_strlit("£");
            reveal_strlit("€");
            reveal_strlit("kr");
        }
        match self {
            Market::USD => "$".to_owned(),
            Market::GBP => "£".to_owned(),
            Market::EUR => "€".to_owned(),
            Market::SEK => "kr".to_owned(),
            _ => "$".to_owned(),
        }
    }

    /// The market named by the first character of a currency glyph; an
    /// empty or unrecognised glyph gives `UNKNOWN`. Never an error.
    pub fn from_symbol(symbol: &str) -> (r: Result<Market, ()>)
        ensures
            r == Ok::<Market, ()>(market_of_glyph(symbol@)),
    {
        broadcast use vstd::string::axiom_spec_iter, vstd::string::next_postcondition;

        let mut chars = symbol.chars();
        let first = chars.next();
        match first {
            None => Ok(Market::UNKNOWN),
            Some(c) => {
                if c == '$' {
                    Ok(Market::USD)
                } else if c == '£' {
                    Ok(Market::GBP)
                } else if c == '€' {
                    Ok(Market::EUR)
                } else {
                    Ok(Market::UNKNOWN)
                }
            },
        }
    }

    /// The market of an exchange display name; an unknown name is an error.
    pub fn from_name(name: &str) -> (r: Result<Market, ()>)
        ensures
            match market_of_name(name@) {
                Some(m) => r == Ok::<Market, ()>(m),
                None => r is Err,
            },
    {
        if same_text(name, "NASDAQ") || same_text(name, "NYSE") || same_text(name, "NYSE ARCA") {
            Ok(Market::USD)
        } else if same_text(name, "LSE") {
            Ok(Market::GBP)
        } else {
            Err(())
        }
    }

    /// The market of an exchange; exchanges outside the mapping are an error.
    pub fn from_exchange(exchange: &Mic) -> (r: Result<Market, ()>)
        ensures
            match market_of_mic(*exchange) {
                Some(m) => r == Ok::<Market, ()>(m),
                None => r is Err,
            },
    {
        match exchange {
            Mic::XNAS => Ok(Market::USD),
            Mic::XNYS => Ok(Market::USD),
            Mic::XLON => Ok(Market::GBP),
            _ => Err(()),
        }
    }
}

impl Currency {
    /// Reads a currency code as the data source writes it (`"eur"`, `"gbp"`,
    /// `"usd"`, `"sek"`); anything else, a header echo included, is `UNKNOWN`.
    pub fn from_text(text: &str) -> (r: Currency)
        ensures
            r == currency_of_text(text@),
    {
        if same_text(text, "eur") {
            Currency::EUR
        } else if same_text(text, "gbp") {
            Currency::GBP
        } else if same_text(text, "usd") {
            Currency::USD
        } else if same_text(text, "sek") {
            Currency::SEK
        } else {
            Currency::UNKNOWN
        }
    }
}

impl Mic {
    /// Reads an upper-case market identifier code; anything else, a header
    /// echo included, is `UNKNOWN`.
    pub fn from_text(text: &str) -> (r: Mic)
        ensures
            r == mic_of_text(text@),
    {
        if same_text(text, "XETR") {
            Mic::XETR
        } else if same_text(text, "XLON") {
            Mic::XLON
        } else if same_text(text, "XNAS") {
            Mic::XNAS
        } else if same_text(text, "XNYS") {
            Mic::XNYS
        } else if same_text(text, "XLIS") {
            Mic::XLIS
        } else if same_text(text, "PINK") {
            Mic::PINK
        } else if same_text(text, "XHEL") {
            Mic::XHEL
        } else if same_text(text, "XWBO") {
            Mic::XWBO
        } else if same_text(text, "XAMS") {
            Mic::XAMS
        } else if same_text(text, "XBRU") {
            Mic::XBRU
        } else if same_text(text, "XSTO") {
            Mic::XSTO
        } else {
            Mic::UNKNOWN
        }
    }
}

} // verus!
