use freetrade_data::index::FreetradeData;
use freetrade_data::market::{Currency, Market, Mic};

fn row(symbol: &str, mic: &str, isa: &str) -> Vec<String> {
    vec![
        format!("{} Inc", symbol),
        format!("{} Incorporated", symbol),
        String::from("Shares"),
        String::from("usd"),
        String::from(isa),
        String::from("FALSE"),
        format!("US{}0001", symbol),
        String::from(mic),
        String::from(symbol),
        String::from("TRUE"),
        String::from("FALSE"),
    ]
}

fn header() -> Vec<String> {
    vec![
        "Title", "Long Title", "Subtitle", "Currency", "ISA", "SIPP", "ISIN", "MIC", "Symbol",
        "Fractional", "Plus",
    ]
    .into_iter()
    .map(String::from)
    .collect()
}

fn sample() -> FreetradeData {
    FreetradeData::new(&vec![
        header(),
        row("AAPL", "XNAS", "TRUE"),
        row("WALB", "XNYS", "FALSE"),
        row("AAPL", "XLON", "FALSE"),
        row("VOD", "XLON", "TRUE"),
        row("SAP", "XETR", "TRUE"),
        row("IBM", "XNYS", "TRUE"),
        row("ODD", "ZZZZ", "TRUE"),
    ])
}

fn symbols_of(records: Vec<&freetrade_data::record::SymbolData>) -> Vec<String> {
    let mut out: Vec<String> = records.iter().map(|r| format!("{}:{:?}", r.symbol, r.mic)).collect();
    out.sort();
    out
}

#[test]
fn present_and_eligible_works() {
    let freetrade_data = sample();
    assert_eq!(freetrade_data.is_isa_eligible("AAPL", Mic::XNAS), true);
}

#[test]
fn present_and_not_eligible_works() {
    let freetrade_data = sample();
    assert_eq!(freetrade_data.is_isa_eligible("WALB", Mic::XNYS), false);
}

#[test]
fn not_present_and_eligible_works() {
    let freetrade_data = sample();
    assert_eq!(freetrade_data.is_isa_eligible("ZZZZZZ", Mic::XLON), false);
}

#[test]
fn eligibility_upper_cases_the_ticker() {
    let data = sample();
    assert!(data.is_isa_eligible("aapl", Mic::XNAS));
    assert!(data.is_isa_eligible("Vod", Mic::XLON));
    assert!(!data.isa_eligible_at("aapl", Mic::XNAS));
    assert!(data.isa_eligible_at("AAPL", Mic::XNAS));
}

#[test]
fn exact_lookup_is_case_sensitive() {
    let data = sample();
    assert!(data.symbol_in_exchange("aapl", Mic::XNAS).is_none());
    let found = data.symbol_in_exchange("AAPL", Mic::XNAS).unwrap();
    assert_eq!(found.title, "AAPL Inc");
    assert_eq!(found.currency, Currency::USD);
    assert!(data.symbol_in_exchange("AAPL", Mic::XETR).is_none());
}

#[test]
fn header_row_is_dropped() {
    let data = FreetradeData::new(&vec![row("HDR", "XNAS", "TRUE"), row("AAPL", "XNAS", "TRUE")]);
    assert!(data.symbol_in_exchange("HDR", Mic::XNAS).is_none());
    assert!(data.symbol_in_exchange("AAPL", Mic::XNAS).is_some());
    assert_eq!(data.symbols().len(), 1);
}

#[test]
fn empty_table_gives_empty_index() {
    let data = FreetradeData::new(&vec![]);
    assert!(data.symbols().is_empty());
    assert_eq!(data.rejected_rows(), 0);
    let header_only = FreetradeData::new(&vec![header()]);
    assert!(header_only.symbols().is_empty());
}

#[test]
fn incomplete_rows_are_rejected_and_counted() {
    let mut short = row("SHORT", "XNAS", "TRUE");
    short.pop();
    let mut long = row("LONG", "XNAS", "TRUE");
    long.push(String::from("extra"));
    let data = FreetradeData::new(&vec![header(), short, row("AAPL", "XNAS", "TRUE"), long]);
    assert_eq!(data.rejected_rows(), 2);
    assert_eq!(data.symbols().len(), 1);
    assert!(data.symbol_in_exchange("SHORT", Mic::XNAS).is_none());
}

#[test]
fn later_duplicate_key_wins() {
    let mut later = row("AAPL", "XNAS", "FALSE");
    later[0] = String::from("Apple (revised)");
    let rows = vec![header(), row("AAPL", "XNAS", "TRUE"), row("MSFT", "XNAS", "TRUE"), later];
    for _ in 0..2 {
        let data = FreetradeData::new(&rows);
        let found = data.symbol_in_exchange("AAPL", Mic::XNAS).unwrap();
        assert_eq!(found.title, "Apple (revised)");
        assert!(!found.isa_eligible);
        assert!(!data.is_isa_eligible("AAPL", Mic::XNAS));
        assert_eq!(data.symbols().len(), 2);
        assert_eq!(data.symbol("AAPL").len(), 1);
    }
}

#[test]
fn cross_listed_ticker_scenario() {
    let data = FreetradeData::new(&vec![
        header(),
        row("AAPL", "XNAS", "TRUE"),
        row("AAPL", "XLON", "FALSE"),
    ]);
    assert_eq!(symbols_of(data.symbol("AAPL")), vec!["AAPL:XLON", "AAPL:XNAS"]);
    assert!(data.is_isa_eligible("AAPL", Mic::XNAS));
    assert!(!data.is_isa_eligible("AAPL", Mic::XLON));
    assert_eq!(symbols_of(data.isa_eligible_symbols()), vec!["AAPL:XNAS"]);
}

#[test]
fn unrecognised_mic_scenario() {
    let data = FreetradeData::new(&vec![header(), row("ODD", "ZZZZ", "TRUE"), row("IBM", "XNYS", "TRUE")]);
    let odd = data.symbol_in_exchange("ODD", Mic::UNKNOWN).unwrap();
    assert_eq!(odd.mic, Mic::UNKNOWN);
    assert_eq!(symbols_of(data.symbols_in_exchange(&Mic::UNKNOWN)), vec!["ODD:UNKNOWN"]);
    assert_eq!(symbols_of(data.symbols_in_market(&Market::USD)), vec!["IBM:XNYS"]);
}

#[test]
fn usd_market_is_nasdaq_and_nyse() {
    let data = sample();
    let mut union = symbols_of(data.symbols_in_exchange(&Mic::XNAS));
    union.extend(symbols_of(data.symbols_in_exchange(&Mic::XNYS)));
    union.sort();
    assert_eq!(symbols_of(data.symbols_in_market(&Market::USD)), union);
    assert_eq!(union, vec!["AAPL:XNAS", "IBM:XNYS", "WALB:XNYS"]);
}

#[test]
fn market_filters() {
    let data = sample();
    assert_eq!(symbols_of(data.symbols_in_market(&Market::GBP)), vec!["AAPL:XLON", "VOD:XLON"]);
    assert!(data.symbols_in_market(&Market::EUR).is_empty());
    assert!(data.symbols_in_market(&Market::UNKNOWN).is_empty());
    let usd = Market::USD;
    let gbp = Market::GBP;
    assert_eq!(
        symbols_of(data.symbols_in_markets(vec![&usd, &gbp])),
        vec!["AAPL:XLON", "AAPL:XNAS", "IBM:XNYS", "VOD:XLON", "WALB:XNYS"]
    );
    let unknown = Market::UNKNOWN;
    assert!(data.symbols_in_markets(vec![&unknown]).is_empty());
    assert!(data.symbols_in_markets(vec![]).is_empty());
}

#[test]
fn eligibility_filters() {
    let data = sample();
    assert_eq!(
        symbols_of(data.isa_eligible_symbols()),
        vec!["AAPL:XNAS", "IBM:XNYS", "ODD:UNKNOWN", "SAP:XETR", "VOD:XLON"]
    );
    assert_eq!(symbols_of(data.isa_eligible_symbol("AAPL")), vec!["AAPL:XNAS"]);
    assert!(data.isa_eligible_symbol("WALB").is_empty());
    assert!(data.isa_eligible_symbol("NONE").is_empty());
    assert_eq!(data.symbols().len(), 7);
}

#[test]
fn listing_order_is_stable() {
    let data = sample();
    let first: Vec<String> = data.symbols().iter().map(|r| r.symbol.clone()).collect();
    let second: Vec<String> = data.symbols().iter().map(|r| r.symbol.clone()).collect();
    assert_eq!(first, second);
    assert_eq!(first, vec!["AAPL", "WALB", "AAPL", "VOD", "SAP", "IBM", "ODD"]);
}
