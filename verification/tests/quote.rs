use charts_rs::quote::{format_alpha, quote_get, quote_or_empty, StockJsonAlphavantage};
use charts_rs::stocks::headers;

fn quote(fields: &[(&str, &str)]) -> StockJsonAlphavantage {
    StockJsonAlphavantage {
        quote: fields.iter().map(|(k, v)| (k.to_string(), v.to_string())).collect(),
    }
}

fn ibm() -> StockJsonAlphavantage {
    quote(&[
        ("01. symbol", "IBM"),
        ("02. open", "133.0000"),
        ("05. price", "134.5600"),
        ("08. previous close", "133.2100"),
        ("09. change", "1.3500"),
        ("10. change percent", "1.0135%"),
    ])
}

#[test]
fn format_alpha_full_quote() {
    assert_eq!(
        format_alpha(&ibm(), &headers()),
        "\t IBM    \t 134.56 \t 133.21 \t 1.35   \t 1.01%  \t"
    );
}

#[test]
fn format_alpha_missing_fields() {
    assert_eq!(
        format_alpha(&quote(&[]), &headers()),
        "\t N/A    \t N      \t N      \t N      \t %      \t"
    );
}

#[test]
fn format_alpha_long_values_unpadded() {
    let q = quote(&[("01. symbol", "LONGSYMBOL"), ("05. price", "12345678.9000")]);
    assert_eq!(
        format_alpha(&q, &headers()),
        "\t LONGSYMBOL\t 12345678.90\t N      \t N      \t %      \t"
    );
}

#[test]
fn format_alpha_pads_by_bytes() {
    let q = quote(&[("01. symbol", "É")]);
    assert_eq!(
        format_alpha(&q, &headers()),
        "\t É     \t N      \t N      \t N      \t %      \t"
    );
}

#[test]
fn format_alpha_short_values_trimmed_to_nothing() {
    let q = quote(&[("05. price", "1"), ("10. change percent", "%")]);
    assert_eq!(
        format_alpha(&q, &headers()),
        "\t N/A    \t        \t N      \t N      \t %      \t"
    );
}

#[test]
fn format_alpha_repeated_header_uses_last_position() {
    let h = [" A ", " A ", " C ", " D ", " E "];
    assert_eq!(
        format_alpha(&ibm(), &h),
        "\t 134.5600\t 134.56 \t 133.21 \t 1.35   \t 1.01%  \t"
    );
}

#[test]
fn quote_get_finds_first_match() {
    let q = quote(&[("k", "1"), ("k", "2")]);
    assert_eq!(quote_get(&q, &"k".to_string()), Some("1".to_string()));
    assert_eq!(quote_get(&q, &"x".to_string()), None);
}

#[test]
fn quote_or_empty_falls_back() {
    assert!(quote_or_empty(None).quote.is_empty());
    assert_eq!(quote_or_empty(Some(ibm())).quote.len(), 6);
    assert!(StockJsonAlphavantage::empty().quote.is_empty());
}

#[test]
fn other_fields_keep_row() {
    let mut q = ibm();
    q.quote.push(("03. high".to_string(), "999.9999".to_string()));
    q.quote.insert(0, ("07. latest trading day".to_string(), "2024-01-01".to_string()));
    assert_eq!(format_alpha(&q, &headers()), format_alpha(&ibm(), &headers()));
}
