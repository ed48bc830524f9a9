use dynarust::get::{batch_keys, key_attributes, read_batch_response, read_found_item};
use dynarust::list::{decode_items, list_query};
use dynarust::value::{Attribute, Value};
use dynarust::{DynarustError, ListOptions};

fn s(x: &str) -> String {
    x.to_string()
}

#[test]
fn list_options_default_to_first_page_of_25_ascending() {
    let o = ListOptions::default();
    assert_eq!(o.from, None);
    assert_eq!(o.limit, 25);
    assert!(!o.sort_desc);
}

#[test]
fn ascending_listing_starts_after_low_sentinel() {
    let q = list_query("T", "creates_lists_resources", &ListOptions { limit: 3, ..ListOptions::default() });
    assert_eq!(q.table, "T");
    assert_eq!(q.key_condition_expression, "#pk = :pk and #sk > :sk");
    assert_eq!(
        q.names,
        vec![(s("#pk"), s("PrimaryKey")), (s("#sk"), s("SecondaryKey"))]
    );
    assert_eq!(
        q.values,
        vec![
            (s(":pk"), Attribute::S(s("creates_lists_resources"))),
            (s(":sk"), Attribute::S(s("+++++++++"))),
        ]
    );
    assert_eq!(q.limit, 3);
    assert!(q.scan_index_forward);
}

#[test]
fn descending_listing_starts_before_high_sentinel() {
    let q = list_query(
        "T",
        "p",
        &ListOptions { limit: 3, sort_desc: true, ..ListOptions::default() },
    );
    assert_eq!(q.key_condition_expression, "#pk = :pk and #sk < :sk");
    assert_eq!(q.values[1], (s(":sk"), Attribute::S(s("zzzzzzzzzz"))));
    assert!(!q.scan_index_forward);
}

#[test]
fn descending_listing_continues_before_cursor() {
    let q = list_query(
        "T",
        "p",
        &ListOptions { from: Some(s("7")), limit: 3, sort_desc: true },
    );
    assert_eq!(q.key_condition_expression, "#pk = :pk and #sk < :sk");
    assert_eq!(q.values[1], (s(":sk"), Attribute::S(s("7"))));
    assert_eq!(q.limit, 3);
}

#[test]
fn page_items_are_decoded_in_order() {
    let items = vec![
        vec![(s("sk"), Attribute::S(s("9")))],
        vec![(s("sk"), Attribute::S(s("8")))],
    ];
    let docs = decode_items(&items).unwrap();
    assert_eq!(
        docs,
        vec![vec![(s("sk"), Value::Str(s("9")))], vec![(s("sk"), Value::Str(s("8")))]]
    );
    let bad = vec![vec![(s("n"), Attribute::N(s("x1")))]];
    assert!(matches!(decode_items(&bad), Err(DynarustError::AttributeParseError(_))));
}

#[test]
fn single_read_of_absent_item_is_none() {
    assert_eq!(read_found_item(None).unwrap(), None);
    let found = read_found_item(Some(vec![(s("int"), Attribute::N(s("3")))])).unwrap();
    assert_eq!(found, Some(vec![(s("int"), Value::Number(s("3")))]));
}

#[test]
fn batch_keys_name_both_key_attributes() {
    let keys = batch_keys(vec![(s("p"), s("0")), (s("p"), s("1"))]);
    assert_eq!(keys.len(), 2);
    assert_eq!(
        keys[1],
        vec![
            (s("PrimaryKey"), Attribute::S(s("p"))),
            (s("SecondaryKey"), Attribute::S(s("1"))),
        ]
    );
    assert_eq!(key_attributes((s("a"), s("b"))).len(), 2);
}

#[test]
fn batch_response_is_read_for_the_table() {
    assert!(read_batch_response("T", None).unwrap().is_empty());
    let missing = read_batch_response("T", Some(vec![(s("Other"), vec![])])).unwrap_err();
    assert_eq!(
        missing,
        DynarustError::UnexpectedError(s("Table was not returned in that batch items response"))
    );
    let responses = vec![
        (s("Other"), vec![vec![(s("x"), Attribute::Bool(true))]]),
        (s("T"), vec![vec![(s("int"), Attribute::N(s("0")))], vec![(s("int"), Attribute::N(s("1")))]]),
    ];
    let docs = read_batch_response("T", Some(responses)).unwrap();
    assert_eq!(docs.len(), 2);
    assert_eq!(docs[1], vec![(s("int"), Value::Number(s("1")))]);
}
