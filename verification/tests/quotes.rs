use bourso_core::error::ClientError;
use bourso_core::tick::{QuoteTab, Ticks, ticks_from_response, ticks_params};

fn sample(close: u64, high: u64, low: u64, volume: u64) -> QuoteTab {
    QuoteTab {
        date: "2024-01-02".to_string(),
        close,
        high,
        low,
        open_price: close,
        volume,
    }
}

#[test]
fn empty_series_has_no_values() {
    let t = Ticks { quote_tab: vec![] };
    assert!(t.get_highest_value().is_none());
    assert!(t.get_lowest_value().is_none());
    assert!(t.get_average_value().is_none());
    assert!(t.get_volume().is_none());
    assert!(t.get_last_quote().is_none());
}

#[test]
fn single_sample_series_returns_that_sample_everywhere() {
    let t = Ticks { quote_tab: vec![sample(11, 14, 9, 250)] };
    assert_eq!(t.get_highest_value(), Some(14));
    assert_eq!(t.get_lowest_value(), Some(9));
    assert_eq!(t.get_average_value(), Some(11));
    assert_eq!(t.get_volume(), Some(250));
    let last = t.get_last_quote().unwrap();
    assert_eq!(last.close, 11);
    assert_eq!(last.date, "2024-01-02".to_string());
}

#[test]
fn average_of_ten_and_twenty_is_fifteen() {
    let t = Ticks { quote_tab: vec![sample(10, 10, 10, 0), sample(20, 20, 20, 0)] };
    assert_eq!(t.get_average_value(), Some(15));
    assert_eq!(t.get_average_value().unwrap() as f64, 15.0);
}

#[test]
fn volumes_sum_in_fixed_point() {
    // 1.5 and 2.5 in milli-units sum to 4.0.
    let t = Ticks { quote_tab: vec![sample(1, 1, 1, 1500), sample(1, 1, 1, 2500)] };
    assert_eq!(t.get_volume(), Some(4000));
    assert_eq!(t.get_volume().unwrap() as f64 / 1000.0, 4.0);
}

#[test]
fn highest_and_lowest_over_three_samples() {
    let t = Ticks {
        quote_tab: vec![sample(1, 5, 5, 0), sample(1, 9, 9, 0), sample(1, 3, 3, 0)],
    };
    assert_eq!(t.get_highest_value(), Some(9));
    assert_eq!(t.get_lowest_value(), Some(3));
}

#[test]
fn last_quote_is_the_final_sample() {
    let t = Ticks { quote_tab: vec![sample(1, 1, 1, 0), sample(2, 2, 2, 0)] };
    assert_eq!(t.get_last_quote().unwrap().close, 2);
}

#[test]
fn average_rounds_down_to_the_unit() {
    let t = Ticks { quote_tab: vec![sample(10, 0, 0, 0), sample(21, 0, 0, 0)] };
    assert_eq!(t.get_average_value(), Some(15));
}

#[test]
fn missing_or_empty_tick_response_is_symbol_not_found() {
    assert_eq!(ticks_from_response(None).unwrap_err(), ClientError::SymbolNotFound);
    let empty = Ticks { quote_tab: vec![] };
    assert_eq!(ticks_from_response(Some(empty)).unwrap_err(), ClientError::SymbolNotFound);
    let full = Ticks { quote_tab: vec![sample(1, 1, 1, 1)] };
    assert_eq!(ticks_from_response(Some(full)).unwrap().quote_tab.len(), 1);
}

#[test]
fn ticks_params_defaults_and_parses() {
    assert_eq!(ticks_params(&None, &None).unwrap(), (30, 0));
    assert_eq!(ticks_params(&Some("45".to_string()), &Some("7".to_string())).unwrap(), (45, 7));
    assert_eq!(
        ticks_params(&Some("abc".to_string()), &None).unwrap_err(),
        ClientError::MalformedPayload
    );
    assert_eq!(
        ticks_params(&None, &Some("".to_string())).unwrap_err(),
        ClientError::MalformedPayload
    );
}

#[test]
fn ticks_params_accepts_the_largest_length_and_rejects_overflow() {
    let max = usize::MAX.to_string();
    assert_eq!(ticks_params(&Some(max), &None).unwrap().0, usize::MAX);
    let over = "18446744073709551616".to_string();
    assert_eq!(
        ticks_params(&Some(over), &None).unwrap_err(),
        ClientError::MalformedPayload
    );
}
