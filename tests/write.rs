use dynarust::condition::ConditionCheckInfo;
use dynarust::patch::merge_patch;
use dynarust::value::{Attribute, Document, Value};
use dynarust::write::{create_operation, delete_operation, force_create_operation, update_operation};
use dynarust::{
    begin_transaction, condition_check_exists, condition_check_not_exists,
    condition_check_number_with_seed, transact_condition_check, transact_create,
    transact_create_with_checks, transact_delete, transact_delete_with_checks, transact_update,
    transact_update_with_checks, DynamoOperator, DynarustError, WriteOperation,
};

fn s(x: &str) -> String {
    x.to_string()
}

fn key(pk: &str, sk: &str) -> (String, String) {
    (s(pk), s(sk))
}

fn resource_document(pk: &str, sk: &str) -> Document {
    vec![
        (s("pk"), Value::Str(s(pk))),
        (s("sk"), Value::Str(s(sk))),
        (s("string"), Value::Str(s("asda"))),
        (s("int"), Value::Number(s("0"))),
    ]
}

#[test]
fn create_writes_fields_then_keys_under_not_exists() {
    let doc = resource_document("p", "1");
    let op = create_operation("Table", key("p", "1"), &doc, vec![]);
    match op {
        WriteOperation::Put { table, item, condition } => {
            assert_eq!(table, "Table");
            assert_eq!(item.len(), 6);
            assert_eq!(item[2], (s("string"), Attribute::S(s("asda"))));
            assert_eq!(item[4], (s("PrimaryKey"), Attribute::S(s("p"))));
            assert_eq!(item[5], (s("SecondaryKey"), Attribute::S(s("1"))));
            assert_eq!(condition, Some(condition_check_not_exists()));
        }
        other => panic!("unexpected operation {:?}", other),
    }
}

#[test]
fn create_with_checks_merges_them_after_not_exists() {
    let doc = resource_document("p", "1");
    let check = condition_check_number_with_seed("z", "field", DynamoOperator::Eq, 1);
    let op = create_operation("T", key("p", "1"), &doc, vec![check]);
    let WriteOperation::Put { condition, .. } = op else {
        panic!("not a put")
    };
    let condition = condition.unwrap();
    assert_eq!(
        condition.expression,
        "(attribute_not_exists(#pk) and attribute_not_exists(#sk)) and (#z = :z)"
    );
    assert_eq!(condition.names.len(), 3);
}

#[test]
fn force_create_has_no_precondition() {
    let doc = resource_document("p", "1");
    let op = force_create_operation("T", key("p", "1"), &doc);
    let WriteOperation::Put { condition, item, .. } = op else {
        panic!("not a put")
    };
    assert_eq!(condition, None);
    assert_eq!(item.len(), 6);
}

#[test]
fn update_with_empty_patch_writes_nothing() {
    let patch: Document = vec![];
    let r = update_operation("T", key("p", "1"), key("p", "1"), &patch, vec![]).unwrap();
    assert!(r.is_none());
    let mut ctx = begin_transaction();
    transact_update("T", key("p", "1"), key("p", "1"), &patch, &mut ctx).unwrap();
    assert!(ctx.is_empty());
}

#[test]
fn update_refuses_key_mutation() {
    let patch: Document = vec![(s("sk"), Value::Str(s("2")))];
    let err = update_operation("T", key("p", "1"), key("p", "2"), &patch, vec![]).unwrap_err();
    assert_eq!(err, DynarustError::InvalidRequestError(s("Cannot update PK and/or SK")));
    assert_eq!(err.message(), "Invalid request: Cannot update PK and/or SK");
    let mut ctx = begin_transaction();
    let r = transact_update_with_checks("T", key("p", "1"), key("q", "1"), &patch, vec![], &mut ctx);
    assert!(matches!(r, Err(DynarustError::InvalidRequestError(_))));
    assert!(ctx.is_empty());
}

#[test]
fn update_numbers_each_patched_field() {
    let patch: Document = vec![
        (s("string"), Value::Str(s("updated"))),
        (s("string_arr"), Value::List(vec![Value::Str(s("foo"))])),
    ];
    let op = update_operation("T", key("p", "1"), key("p", "1"), &patch, vec![])
        .unwrap()
        .unwrap();
    let WriteOperation::Update { table, key: k, update_expression, names, values, condition } = op
    else {
        panic!("not an update")
    };
    assert_eq!(table, "T");
    assert_eq!(k, key("p", "1"));
    assert_eq!(
        update_expression,
        "set #updateAttr0 = :updateAttr0, #updateAttr1 = :updateAttr1"
    );
    assert_eq!(
        names,
        vec![(s("#updateAttr0"), s("string")), (s("#updateAttr1"), s("string_arr"))]
    );
    assert_eq!(values[0], (s(":updateAttr0"), Attribute::S(s("updated"))));
    assert_eq!(
        values[1],
        (s(":updateAttr1"), Attribute::L(vec![Attribute::S(s("foo"))]))
    );
    assert_eq!(condition, Some(condition_check_exists()));
}

#[test]
fn update_with_checks_adds_them_to_exists() {
    let patch: Document = vec![(s("int"), Value::Number(s("2")))];
    let check = condition_check_number_with_seed("n", "int", DynamoOperator::NEq, 1);
    let mut ctx = begin_transaction();
    transact_update_with_checks("T", key("p", "1"), key("p", "1"), &patch, vec![check], &mut ctx)
        .unwrap();
    assert_eq!(ctx.len(), 1);
    let WriteOperation::Update { condition, .. } = &ctx[0] else {
        panic!("not an update")
    };
    assert_eq!(
        condition.as_ref().unwrap().expression,
        "(attribute_exists(#pk) and attribute_exists(#sk)) and (#n <> :n)"
    );
}

#[test]
fn patch_replaces_listed_fields_only() {
    let doc = resource_document("p", "1");
    let patch: Document = vec![(s("string"), Value::Str(s("x")))];
    let merged = merge_patch(&doc, &patch);
    assert_eq!(merged.len(), 4);
    assert_eq!(merged[0], doc[0]);
    assert_eq!(merged[1], doc[1]);
    assert_eq!(merged[2], (s("string"), Value::Str(s("x"))));
    assert_eq!(merged[3], doc[3]);
}

#[test]
fn patch_adds_new_fields_at_the_end_and_replaces_whole_values() {
    let doc: Document = vec![(
        s("nested"),
        Value::Object(vec![(s("code"), Value::Number(s("1"))), (s("msg"), Value::Str(s("a")))]),
    )];
    let patch: Document = vec![
        (s("nested"), Value::Object(vec![(s("code"), Value::Number(s("2")))])),
        (s("nullable"), Value::Str(s("updated"))),
    ];
    let merged = merge_patch(&doc, &patch);
    assert_eq!(
        merged,
        vec![
            (s("nested"), Value::Object(vec![(s("code"), Value::Number(s("2")))])),
            (s("nullable"), Value::Str(s("updated"))),
        ]
    );
    assert_eq!(merge_patch(&doc, &vec![]), doc);
}

#[test]
fn delete_carries_only_the_extra_checks() {
    let op = delete_operation("T", key("p", "1"), vec![]);
    assert_eq!(
        op,
        WriteOperation::Delete { table: s("T"), key: key("p", "1"), condition: None }
    );
    let check = condition_check_number_with_seed("g", "int", DynamoOperator::Gt, 1);
    let op = delete_operation("T", key("p", "1"), vec![check]);
    let WriteOperation::Delete { condition, .. } = op else {
        panic!("not a delete")
    };
    assert_eq!(
        condition,
        Some(condition_check_number_with_seed("g", "int", DynamoOperator::Gt, 1))
    );
}

#[test]
fn transaction_collects_operations_in_order() {
    let mut ctx = begin_transaction();
    assert!(ctx.is_empty());
    let doc = resource_document("creates_only_if_other_exists", "1");
    transact_create("T", key("creates_only_if_other_exists", "1"), &doc, &mut ctx);
    transact_condition_check("T", key("non", "existing"), condition_check_exists(), &mut ctx);
    assert_eq!(ctx.len(), 2);
    assert!(matches!(ctx[0], WriteOperation::Put { .. }));
    assert_eq!(
        ctx[1],
        WriteOperation::ConditionCheck {
            table: s("T"),
            key: key("non", "existing"),
            condition: Some(condition_check_exists()),
        }
    );
    transact_delete("T", key("a", "b"), &mut ctx);
    transact_delete_with_checks("T", key("a", "c"), vec![ConditionCheckInfo::default()], &mut ctx);
    transact_create_with_checks("T", key("a", "d"), &doc, vec![], &mut ctx);
    assert_eq!(ctx.len(), 5);
    assert!(matches!(ctx[3], WriteOperation::Delete { condition: None, .. }));
}

#[test]
fn standalone_check_without_expression_attaches_nothing() {
    let mut ctx = begin_transaction();
    transact_condition_check("T", key("a", "b"), ConditionCheckInfo::default(), &mut ctx);
    assert!(matches!(ctx[0], WriteOperation::ConditionCheck { condition: None, .. }));
}
