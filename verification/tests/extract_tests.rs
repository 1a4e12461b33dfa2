use roadwork::errors::ExtractError;
use roadwork::extract::{double_of_matches, string_of_matches};
use roadwork::jsonio::JsonValue;
use roadwork::polygon::{is_multi_polygon as multi_test, polygons_of_matches};
use roadwork::text::{is_float_text, is_zero_float_text, parse_epoch_text, parse_i64_text};

fn num(t: &str) -> JsonValue {
    JsonValue::Num(t.to_string())
}

fn pair(x: &str, y: &str) -> JsonValue {
    JsonValue::Arr(vec![num(x), num(y)])
}

#[test]
fn is_multi_polygon() {
    let json = JsonValue::Str(
        "[
            [
              [
                2.352152402234131,
                48.87953656405322
              ],
              [
                2.3524563598371353,
                48.87932070314852
              ]
            ]
          ]"
            .to_string(),
    );
    // A string scalar does not have the multi-polygon shape.
    assert!(!multi_test(&vec![json]));
}

#[test]
fn string_extraction_shapes() {
    assert_eq!(string_of_matches(&vec![]), Err(ExtractError::PathNotFound));
    assert_eq!(
        string_of_matches(&vec![JsonValue::Str("road A".to_string())]),
        Ok("road A".to_string())
    );
    assert_eq!(string_of_matches(&vec![num("4")]), Err(ExtractError::TypeMismatch));
    // Only the first match counts.
    assert_eq!(
        string_of_matches(&vec![JsonValue::Null, JsonValue::Str("x".to_string())]),
        Err(ExtractError::TypeMismatch)
    );
}

#[test]
fn double_extraction_shapes() {
    assert_eq!(double_of_matches(&vec![]), Err(ExtractError::PathNotFound));
    assert_eq!(double_of_matches(&vec![num("48.853")]), Ok("48.853".to_string()));
    // A string scalar is accepted exactly when a float parser accepts it.
    assert_eq!(
        double_of_matches(&vec![JsonValue::Str("2.34".to_string())]),
        Ok("2.34".to_string())
    );
    assert_eq!(
        double_of_matches(&vec![JsonValue::Str("inf".to_string())]),
        Ok("inf".to_string())
    );
    assert_eq!(
        double_of_matches(&vec![JsonValue::Str("2,34".to_string())]),
        Err(ExtractError::TypeMismatch)
    );
    assert_eq!(double_of_matches(&vec![JsonValue::Bool(true)]), Err(ExtractError::TypeMismatch));
}

#[test]
fn float_text_grammar() {
    assert!(is_float_text("1"));
    assert!(is_float_text("-1.5"));
    assert!(is_float_text("+.5"));
    assert!(is_float_text("1."));
    assert!(is_float_text("2e10"));
    assert!(is_float_text("2.5E-3"));
    assert!(is_float_text("inf"));
    assert!(is_float_text("-Infinity"));
    assert!(is_float_text("NaN"));
    assert!(!is_float_text(""));
    assert!(!is_float_text("."));
    assert!(!is_float_text("1e"));
    assert!(!is_float_text("1e+"));
    assert!(!is_float_text("2,5"));
    assert!(!is_float_text("abc"));
}

#[test]
fn zero_float_texts() {
    assert!(is_zero_float_text("0"));
    assert!(is_zero_float_text("0.0"));
    assert!(is_zero_float_text("-0.0"));
    assert!(is_zero_float_text("0e5"));
    assert!(is_zero_float_text("00.000"));
    assert!(!is_zero_float_text("0.1"));
    assert!(!is_zero_float_text("10"));
    assert!(!is_zero_float_text("inf"));
    assert!(!is_zero_float_text("NaN"));
    assert!(!is_zero_float_text("abc"));
}

#[test]
fn integer_text_parsing() {
    assert_eq!(parse_i64_text("42"), Some(42));
    assert_eq!(parse_i64_text("+42"), Some(42));
    assert_eq!(parse_i64_text("-42"), Some(-42));
    assert_eq!(parse_i64_text("9223372036854775807"), Some(i64::MAX));
    assert_eq!(parse_i64_text("9223372036854775808"), None);
    assert_eq!(parse_i64_text("-9223372036854775808"), Some(i64::MIN));
    assert_eq!(parse_i64_text("-9223372036854775809"), None);
    assert_eq!(parse_i64_text(""), None);
    assert_eq!(parse_i64_text("-"), None);
    assert_eq!(parse_i64_text("4a"), None);
}

#[test]
fn epoch_heuristic() {
    // Ten digits, below the millisecond-epoch threshold: seconds, scaled.
    assert_eq!(parse_epoch_text("1746113416"), Some(1746113416000));
    // Thirteen digits: already milliseconds.
    assert_eq!(parse_epoch_text("1746113416000"), Some(1746113416000));
    assert_eq!(parse_epoch_text("999999999999"), Some(999999999999000));
    assert_eq!(parse_epoch_text("1000000000000"), Some(1000000000000));
    assert_eq!(parse_epoch_text("-5"), Some(-5000));
    assert_eq!(parse_epoch_text("x"), None);
}

#[test]
fn single_ring_yields_one_polygon() {
    let ring = JsonValue::Arr(vec![
        pair("2.3521", "48.8795"),
        pair("2.3524", "48.8793"),
        pair("2.3530", "48.8790"),
    ]);
    let polys = polygons_of_matches(&vec![ring]).unwrap();
    assert_eq!(polys.len(), 1);
    assert_eq!(polys[0].xpoints, vec!["2.3521", "2.3524", "2.3530"]);
    assert_eq!(polys[0].ypoints, vec!["48.8795", "48.8793", "48.8790"]);
}

#[test]
fn two_rings_yield_two_polygons() {
    let ring1 = JsonValue::Arr(vec![pair("2.1", "48.1"), pair("2.2", "48.2")]);
    let ring2 = JsonValue::Arr(vec![pair("3.1", "49.1"), pair("3.2", "49.2")]);
    let polys = polygons_of_matches(&vec![ring1, ring2]).unwrap();
    assert_eq!(polys.len(), 2);
    assert_eq!(polys[0].xpoints, vec!["2.1", "2.2"]);
    assert_eq!(polys[1].xpoints, vec!["3.1", "3.2"]);
}

#[test]
fn malformed_pair_drops_all_polygons() {
    let good = JsonValue::Arr(vec![pair("2.1", "48.1")]);
    let bad = JsonValue::Arr(vec![JsonValue::Arr(vec![num("2.0")])]);
    assert!(polygons_of_matches(&vec![good, bad]).is_none());
}

#[test]
fn non_array_match_yields_nothing() {
    assert!(polygons_of_matches(&vec![]).is_none());
    assert!(polygons_of_matches(&vec![num("1")]).is_none());
}
