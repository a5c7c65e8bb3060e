use charts_rs::market::{
    format_ms, ms_autocomplete_url, ms_lookup_report, ms_placeholder, ms_quotes, ms_realtime_url,
    performance_id, performance_id_from_text, strip_outer,
};

fn strings(items: &[&str]) -> Vec<String> {
    items.iter().map(|s| s.to_string()).collect()
}

const SEARCH: &str = r#"{"results":[{"ticker":"IBM","performanceId":"0P000002YQ"}]}"#;

#[test]
fn format_ms_is_empty() {
    assert_eq!(format_ms(vec![serde_json::Value::Null]), "");
}

#[test]
fn autocomplete_url_embeds_symbol() {
    assert_eq!(
        ms_autocomplete_url("IBM"),
        "https://ms-finance.p.rapidapi.com/market/v2/auto-complete?q=IBM"
    );
}

#[test]
fn realtime_url_cuts_near_end() {
    let base = "https://ms-finance.p.rapidapi.com/market/v2/get-realtime-data?performanceIds=";
    assert_eq!(ms_realtime_url(&strings(&["AB"])), format!("{base}AC"));
    assert_eq!(ms_realtime_url(&strings(&["AAPL", "MSFT"])), format!("{base}AAPL%2CMSFC"));
    assert_eq!(ms_realtime_url(&strings(&["AB", ""])), format!("{base}AB%2C"));
}

#[test]
fn strip_outer_removes_quotes() {
    assert_eq!(strip_outer("\"0P000002YQ\"".to_string()), "0P000002YQ");
    assert_eq!(strip_outer("ab".to_string()), "");
    assert_eq!(strip_outer("éxa".to_string()), "x");
}

#[test]
fn performance_id_from_search() {
    assert_eq!(performance_id(SEARCH), Some("0P000002YQ".to_string()));
    assert_eq!(performance_id("not json"), None);
    assert_eq!(performance_id("{}"), Some("ul".to_string()));
    assert_eq!(performance_id(r#"{"results":[{"performanceId":7}]}"#), None);
}

#[test]
fn lookup_report_names_ticker_and_id() {
    assert_eq!(
        ms_lookup_report(SEARCH),
        Some("Symbol of request is: \"IBM\"\nPerformance ID is: \"0P000002YQ\"".to_string())
    );
    assert_eq!(ms_lookup_report("{"), None);
}

#[test]
fn placeholder_parses() {
    assert_eq!(ms_placeholder(), Some(r#"{"test":"value"}"#.to_string()));
}

#[test]
fn quotes_follow_ids() {
    let q = ms_quotes(r#"{"A":1,"B":[2]}"#, &strings(&["B", "Z", "A"])).unwrap();
    assert_eq!(q, strings(&["[2]", "null", "1"]));
    assert!(ms_quotes("nope", &strings(&["A"])).is_none());
}

#[test]
fn performance_id_from_text_strips_or_refuses() {
    assert_eq!(performance_id_from_text("\"0P000002YQ\"".to_string()), Some("0P000002YQ".to_string()));
    assert_eq!(performance_id_from_text("7".to_string()), None);
    assert_eq!(performance_id_from_text("\"aé".to_string()), None);
    assert_eq!(performance_id_from_text("null".to_string()), Some("ul".to_string()));
}
