use charts_rs::quote::StockJsonAlphavantage;
use charts_rs::stocks::{alpha_url, headers, Api, Json, Stocks, PROGRESS_END};

fn strings(items: &[&str]) -> Vec<String> {
    items.iter().map(|s| s.to_string()).collect()
}

#[test]
fn alpha_url_embeds_symbol() {
    assert_eq!(
        alpha_url("IBM"),
        "https://www.alphavantage.co/query?function=GLOBAL_QUOTE&symbol=IBM&apikey=1FGPYOV8MJGHJ1IC"
    );
}

#[test]
fn headers_are_the_table_columns() {
    assert_eq!(headers(), [" Symbol ", " Price  ", " Prev   ", " Change ", " Pct %  "]);
}

#[test]
fn fetch_plan_uses_alpha_for_first_five() {
    let symbols = strings(&["A", "B", "C", "D", "E", "F", "G"]);
    let mut stocks = Stocks::from(symbols.clone());
    let mut seen = Vec::new();
    while let Some(f) = stocks.next_fetch() {
        seen.push((f.symbol.clone(), f.api, f.marker));
        stocks.record(Json::Empty);
    }
    assert_eq!(seen.len(), 7);
    for (i, (symbol, api, marker)) in seen.iter().enumerate() {
        assert_eq!(symbol, &symbols[i]);
        assert_eq!(*api, if i < 5 { Api::Alphavantage } else { Api::MsFinance });
        assert_eq!(*marker, if i == 0 { "Loading[" } else { "=" });
    }
    assert_eq!(seen.iter().filter(|s| s.1 == Api::Alphavantage).count(), 5);
    assert!(stocks.next_fetch().is_none());
    assert_eq!(PROGRESS_END, "]\n\n\n");
}

#[test]
fn no_symbols_no_fetch() {
    let stocks = Stocks::from(Vec::new());
    assert!(stocks.next_fetch().is_none());
}

#[test]
fn table_text_empty() {
    let stocks = Stocks::from(strings(&["A"]));
    assert_eq!(
        stocks.table_text(),
        "\t Symbol \t Price  \t Prev   \t Change \t Pct %  \n\t--------\t--------\t--------\t--------\t--------\n"
    );
}

#[test]
fn table_text_rows() {
    let mut stocks = Stocks::from(strings(&["IBM", "B", "C", "D", "E", "X"]));
    stocks.start_display();
    let q = StockJsonAlphavantage { quote: vec![("01. symbol".to_string(), "IBM".to_string())] };
    stocks.record(Json::from_alpha(Some(q)));
    for _ in 0..4 {
        stocks.record(Json::from_alpha(None));
    }
    stocks.record(Json::from_ms(Some("null".to_string())));
    let empty = "---------------------------------------------------\n\n";
    let expected = String::from("\t Symbol \t Price  \t Prev   \t Change \t Pct %  \n")
        + "\t--------\t--------\t--------\t--------\t--------\n"
        + "\t IBM    \t N      \t N      \t N      \t %      \t\n\n"
        + empty
        + empty
        + empty
        + empty
        + "MsFinance got\n\n";
    assert_eq!(stocks.table_text(), expected);
    assert!(stocks.next_fetch().is_none());
}

#[test]
fn failed_fetches_become_empty() {
    assert!(matches!(Json::from_ms(None), Json::Empty));
    assert!(matches!(Json::from_alpha(None), Json::Empty));
}

#[test]
fn second_display_fetches_all_again() {
    let symbols = strings(&["A", "B", "C", "D", "E", "F"]);
    let mut stocks = Stocks::from(symbols.clone());
    for round in 0..3 {
        stocks.start_display();
        let mut fetched = Vec::new();
        let mut marks = String::new();
        while let Some(f) = stocks.next_fetch() {
            marks.push_str(f.marker);
            fetched.push((f.symbol.clone(), f.api));
            stocks.record(Json::Empty);
        }
        assert_eq!(fetched.len(), 6, "round {round}");
        assert_eq!(fetched.iter().filter(|f| f.1 == Api::Alphavantage).count(), 5);
        assert_eq!(marks, "Loading[=====");
        let table = stocks.table_text();
        assert_eq!(table.matches("-----------------------------------------------").count(), 6 * (round + 1));
    }
}
