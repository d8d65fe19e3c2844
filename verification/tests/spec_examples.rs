//! The bookstore scenarios, driven through the dispatcher on JSON text input.

use nu_plugin_json_path::dispatch::run_query;
use nu_plugin_json_path::value::{Span, TypedValue};

const HEAD: Span = Span { start: 7, end: 13 };

fn bookstore_text() -> String {
    r#"{
        "store": {
            "book": [
                {
                    "category": "reference",
                    "author": "Nigel Rees",
                    "title": "Sayings of the Century",
                    "price": 8.95
                },
                {
                    "category": "fiction",
                    "author": "Evelyn Waugh",
                    "title": "Sword of Honour",
                    "price": 12.99
                },
                {
                    "category": "fiction",
                    "author": "Herman Melville",
                    "title": "Moby Dick",
                    "isbn": "0-553-21311-3",
                    "price": 8.99
                },
                {
                    "category": "fiction",
                    "author": "J. R. R. Tolkien",
                    "title": "The Lord of the Rings",
                    "isbn": "0-395-19395-8",
                    "price": 22.99
                }
            ],
            "bicycle": {
                "color": "red",
                "price": 399
            }
        }
    }"#
    .to_string()
}

fn query_bookstore(query: &str) -> Vec<TypedValue> {
    let input = TypedValue::Str(bookstore_text(), Span { start: 0, end: 1 });
    let r = run_query(&input, &Some(query.to_string()), HEAD);
    match r.expect("query should succeed") {
        TypedValue::List(items, span) => {
            assert_eq!(span, HEAD);
            items
        },
        other => panic!("expected a list, got {other:?}"),
    }
}

fn s(text: &str) -> TypedValue {
    TypedValue::Str(text.to_string(), HEAD)
}

fn f(x: f64) -> TypedValue {
    TypedValue::Float(x.to_bits(), HEAD)
}

fn entry(key: &str, val: TypedValue) -> (String, TypedValue) {
    (key.to_string(), val)
}

/// A book record as the materializer yields it: keys in the engine map's
/// sorted order.
fn book(category: &str, author: &str, title: &str, isbn: Option<&str>, price: f64) -> TypedValue {
    let mut fields = vec![entry("author", s(author)), entry("category", s(category))];
    if let Some(i) = isbn {
        fields.push(entry("isbn", s(i)));
    }
    fields.push(entry("price", f(price)));
    fields.push(entry("title", s(title)));
    TypedValue::Record(fields, HEAD)
}

fn book_list() -> TypedValue {
    TypedValue::List(
        vec![
            book("reference", "Nigel Rees", "Sayings of the Century", None, 8.95),
            book("fiction", "Evelyn Waugh", "Sword of Honour", None, 12.99),
            book("fiction", "Herman Melville", "Moby Dick", Some("0-553-21311-3"), 8.99),
            book("fiction", "J. R. R. Tolkien", "The Lord of the Rings", Some("0-395-19395-8"), 22.99),
        ],
        HEAD,
    )
}

#[test]
fn spec_example_1() {
    let nodes = query_bookstore("$.store.book[*].author");
    assert_eq!(
        nodes,
        vec![s("Nigel Rees"), s("Evelyn Waugh"), s("Herman Melville"), s("J. R. R. Tolkien")]
    );
}

#[test]
fn spec_example_2() {
    let nodes = query_bookstore("$..author");
    assert_eq!(
        nodes,
        vec![s("Nigel Rees"), s("Evelyn Waugh"), s("Herman Melville"), s("J. R. R. Tolkien")]
    );
}

#[test]
fn spec_example_3() {
    let nodes = query_bookstore("$.store.*");
    assert_eq!(nodes.len(), 2);
    assert!(nodes.iter().any(|node| *node == book_list()));
}

#[test]
fn spec_example_4() {
    let nodes = query_bookstore("$.store..price");
    assert_eq!(
        nodes,
        vec![TypedValue::Int(399, HEAD), f(8.95), f(12.99), f(8.99), f(22.99)]
    );
}

#[test]
fn spec_example_5() {
    let nodes = query_bookstore("$..book[2]");
    assert_eq!(nodes.len(), 1);
    assert_eq!(
        nodes[0],
        book("fiction", "Herman Melville", "Moby Dick", Some("0-553-21311-3"), 8.99)
    );
}

#[test]
fn spec_example_6() {
    let nodes = query_bookstore("$..book[-1]");
    assert_eq!(nodes.len(), 1);
    assert_eq!(
        nodes[0],
        book("fiction", "J. R. R. Tolkien", "The Lord of the Rings", Some("0-395-19395-8"), 22.99)
    );
}

#[test]
fn spec_example_7() {
    let nodes = query_bookstore("$..book[0,1]");
    assert_eq!(nodes.len(), 2);
    let sliced = query_bookstore("$..book[:2]");
    assert_eq!(sliced.len(), 2);
}

#[test]
fn spec_example_8() {
    let nodes = query_bookstore("$..book[?(@.isbn)]");
    assert_eq!(nodes.len(), 2);
}

#[test]
fn spec_example_9() {
    let nodes = query_bookstore("$..book[?(@.price<10)]");
    assert_eq!(nodes.len(), 2);
}

#[test]
fn spec_example_10() {
    let nodes = query_bookstore("$..*");
    assert_eq!(nodes.len(), 27);
}
