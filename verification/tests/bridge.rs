//! Conversion, materialization and dispatch behaviour on concrete values:
//! the round trip, float handling, order preservation, and the error
//! taxonomy.

use nu_plugin_json_path::convert::value_to_json_value;
use nu_plugin_json_path::dispatch::{run_query, RunError};
use nu_plugin_json_path::json::{ConvError, JsonDoc};
use nu_plugin_json_path::value::{PathMember, Span, TypedValue};

const HEAD: Span = Span { start: 3, end: 9 };
const AT: Span = Span { start: 21, end: 30 };

fn s(text: &str) -> TypedValue {
    TypedValue::Str(text.to_string(), AT)
}

fn run(input: TypedValue, query: &str) -> Result<TypedValue, RunError> {
    run_query(&input, &Some(query.to_string()), HEAD)
}

#[test]
fn scalar_round_trip_through_query() {
    let input = s(r#"{"flag": true, "count": -12, "name": "pax", "gap": null}"#);
    let got = run(input, "$.*").expect("query should succeed");
    assert_eq!(
        got,
        TypedValue::List(
            vec![
                TypedValue::Int(-12, HEAD),
                TypedValue::Bool(true, HEAD),
                TypedValue::Nothing(HEAD),
                TypedValue::Str("pax".to_string(), HEAD),
            ],
            HEAD,
        )
    );
}

#[test]
fn record_input_round_trips_losslessly() {
    // A record travels: canonicalizer -> engine value -> JSON text -> parser
    // -> query -> materializer. Whole-document query gives it back, keys in
    // the engine map's sorted order, floats bit-identical.
    let rec = TypedValue::Record(
        vec![
            ("zeta".to_string(), TypedValue::Float((0.1f64).to_bits(), AT)),
            ("alpha".to_string(), TypedValue::Int(7, AT)),
            (
                "items".to_string(),
                TypedValue::List(
                    vec![TypedValue::Bool(false, AT), TypedValue::Str("x".to_string(), AT)],
                    AT,
                ),
            ),
        ],
        AT,
    );
    let got = run(rec, "$").expect("query should succeed");
    let expected = TypedValue::Record(
        vec![
            ("alpha".to_string(), TypedValue::Int(7, HEAD)),
            (
                "items".to_string(),
                TypedValue::List(
                    vec![TypedValue::Bool(false, HEAD), TypedValue::Str("x".to_string(), HEAD)],
                    HEAD,
                ),
            ),
            ("zeta".to_string(), TypedValue::Float((0.1f64).to_bits(), HEAD)),
        ],
        HEAD,
    );
    assert_eq!(got, TypedValue::List(vec![expected], HEAD));
}

#[test]
fn finite_floats_convert_bit_identically() {
    for x in [0.0f64, -0.0, 8.95, 1.0e300, -2.5e-300, f64::MIN, f64::MAX, f64::EPSILON] {
        let r = value_to_json_value(&TypedValue::Float(x.to_bits(), AT));
        assert_eq!(r, Ok(JsonDoc::Float(x.to_bits())));
    }
}

#[test]
fn float_survives_text_round_trip_exactly() {
    let rec = TypedValue::Record(
        vec![("x".to_string(), TypedValue::Float((8.95f64).to_bits(), AT))],
        AT,
    );
    let got = run(rec, "$.x").expect("query should succeed");
    assert_eq!(
        got,
        TypedValue::List(vec![TypedValue::Float((8.95f64).to_bits(), HEAD)], HEAD)
    );
}

#[test]
fn nan_is_rejected_as_non_finite() {
    let bits = f64::NAN.to_bits();
    let r = value_to_json_value(&TypedValue::Float(bits, AT));
    assert_eq!(r, Err(ConvError::NonFiniteNumber { bits, span: AT }));
}

#[test]
fn infinities_are_rejected_as_non_finite() {
    for x in [f64::INFINITY, f64::NEG_INFINITY] {
        let bits = x.to_bits();
        let r = value_to_json_value(&TypedValue::Float(bits, AT));
        assert_eq!(r, Err(ConvError::NonFiniteNumber { bits, span: AT }));
    }
}

#[test]
fn nested_non_finite_float_poisons_record_conversion() {
    let bits = f64::INFINITY.to_bits();
    let rec = TypedValue::Record(
        vec![
            ("ok".to_string(), TypedValue::Int(1, AT)),
            ("bad".to_string(), TypedValue::Float(bits, AT)),
        ],
        AT,
    );
    let r = run(rec, "$");
    assert_eq!(
        r,
        Err(RunError::Conversion { err: ConvError::NonFiniteNumber { bits, span: AT } })
    );
}

#[test]
fn embedded_error_poisons_conversion() {
    let rec = TypedValue::Record(
        vec![("oops".to_string(), TypedValue::Error("broken pipe".to_string(), AT))],
        AT,
    );
    let r = run(rec, "$");
    assert_eq!(
        r,
        Err(RunError::Conversion {
            err: ConvError::EmbeddedError { msg: "broken pipe".to_string(), span: AT },
        })
    );
}

#[test]
fn conversion_keeps_record_and_list_order() {
    let rec = TypedValue::Record(
        vec![
            ("zz".to_string(), TypedValue::Int(1, AT)),
            ("aa".to_string(), TypedValue::Int(2, AT)),
            ("mm".to_string(), TypedValue::List(
                vec![TypedValue::Int(3, AT), TypedValue::Int(4, AT)],
                AT,
            )),
        ],
        AT,
    );
    let r = value_to_json_value(&rec).expect("conversion should succeed");
    assert_eq!(
        r,
        JsonDoc::Obj(vec![
            ("zz".to_string(), JsonDoc::Int(1)),
            ("aa".to_string(), JsonDoc::Int(2)),
            ("mm".to_string(), JsonDoc::Arr(vec![JsonDoc::Int(3), JsonDoc::Int(4)])),
        ])
    );
}

#[test]
fn array_order_is_kept_through_the_whole_bridge() {
    let got = run(s("[3, 1, 2, 1]"), "$[*]").expect("query should succeed");
    assert_eq!(
        got,
        TypedValue::List(
            vec![
                TypedValue::Int(3, HEAD),
                TypedValue::Int(1, HEAD),
                TypedValue::Int(2, HEAD),
                TypedValue::Int(1, HEAD),
            ],
            HEAD,
        )
    );
}

#[test]
fn binary_converts_to_byte_array() {
    let r = value_to_json_value(&TypedValue::Binary(vec![0, 7, 255], AT));
    assert_eq!(
        r,
        Ok(JsonDoc::Arr(vec![JsonDoc::Int(0), JsonDoc::Int(7), JsonDoc::Int(255)]))
    );
}

#[test]
fn cell_path_converts_to_member_array() {
    let r = value_to_json_value(&TypedValue::CellPath(
        vec![PathMember::Name("store".to_string()), PathMember::Index(2)],
        AT,
    ));
    assert_eq!(
        r,
        Ok(JsonDoc::Arr(vec![JsonDoc::Str("store".to_string()), JsonDoc::UInt(2)]))
    );
}

#[test]
fn unit_scalars_convert_to_numbers_and_text() {
    assert_eq!(
        value_to_json_value(&TypedValue::Duration(90, AT)),
        Ok(JsonDoc::Int(90))
    );
    assert_eq!(
        value_to_json_value(&TypedValue::Filesize(4096, AT)),
        Ok(JsonDoc::Int(4096))
    );
    assert_eq!(
        value_to_json_value(&TypedValue::Date("2020-01-02 03:04:05 UTC".to_string(), AT)),
        Ok(JsonDoc::Str("2020-01-02 03:04:05 UTC".to_string()))
    );
}

#[test]
fn executable_variants_convert_to_null() {
    for v in [TypedValue::Closure(AT), TypedValue::Block(AT), TypedValue::Range(AT)] {
        assert_eq!(value_to_json_value(&v), Ok(JsonDoc::Null));
    }
}

#[test]
fn unterminated_bracket_query_is_invalid_query() {
    let r = run(s("[1, 2, 3]"), "$..book[");
    match r {
        Err(RunError::InvalidQuery { span, .. }) => assert_eq!(span, HEAD),
        other => panic!("expected an invalid-query error, got {other:?}"),
    }
}

#[test]
fn missing_query_is_reported() {
    let r = run_query(&s("[1]"), &None, HEAD);
    assert_eq!(r, Err(RunError::MissingQuery { span: HEAD }));
}

#[test]
fn bool_input_is_unsupported_and_named() {
    let r = run(TypedValue::Bool(true, AT), "$");
    match r {
        Err(RunError::UnsupportedInput { input_type, span }) => {
            assert_eq!(input_type, "bool");
            assert_eq!(span, HEAD);
        },
        other => panic!("expected an unsupported-input error, got {other:?}"),
    }
}

#[test]
fn other_inputs_are_unsupported_too() {
    let r = run(TypedValue::Int(5, AT), "$");
    match r {
        Err(RunError::UnsupportedInput { input_type, .. }) => assert_eq!(input_type, "int"),
        other => panic!("expected an unsupported-input error, got {other:?}"),
    }
}

#[test]
fn malformed_json_text_is_invalid_json() {
    let r = run(s("{\"open\": "), "$");
    match r {
        Err(RunError::InvalidJson { msg, span }) => {
            assert_eq!(span, HEAD);
            assert!(!msg.is_empty());
        },
        other => panic!("expected an invalid-json error, got {other:?}"),
    }
}

#[test]
fn missing_query_wins_over_bad_input() {
    let r = run_query(&TypedValue::Bool(false, AT), &None, HEAD);
    assert_eq!(r, Err(RunError::MissingQuery { span: HEAD }));
}

#[test]
fn empty_result_is_an_empty_list() {
    let got = run(s(r#"{"a": 1}"#), "$.nothere").expect("query should succeed");
    assert_eq!(got, TypedValue::List(vec![], HEAD));
}

#[test]
fn numbers_classify_by_storage() {
    // Integer-valued tokens in signed range become integers; real-valued
    // tokens and integers beyond the signed range become floats.
    let text = "[2, 2.0, -9223372036854775808, 9223372036854775807, 18446744073709551615]";
    let got = run(s(text), "$[*]").expect("query should succeed");
    assert_eq!(
        got,
        TypedValue::List(
            vec![
                TypedValue::Int(2, HEAD),
                TypedValue::Float((2.0f64).to_bits(), HEAD),
                TypedValue::Int(i64::MIN, HEAD),
                TypedValue::Int(i64::MAX, HEAD),
                TypedValue::Float((18446744073709551615u64 as f64).to_bits(), HEAD),
            ],
            HEAD,
        )
    );
}

#[test]
fn values_carry_their_span_and_variant_name() {
    let v = TypedValue::Int(1, AT);
    assert_eq!(v.span(), AT);
    assert_eq!(v.variant_name(), "int");
    let w = TypedValue::Bool(false, HEAD);
    assert_eq!(w.span(), HEAD);
    assert_eq!(w.variant_name(), "bool");
}

#[test]
fn duplicate_result_nodes_are_kept() {
    let got = run(s("[5]"), "$[0,0]").expect("query should succeed");
    assert_eq!(
        got,
        TypedValue::List(vec![TypedValue::Int(5, HEAD), TypedValue::Int(5, HEAD)], HEAD)
    );
}
