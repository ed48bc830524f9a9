use vstd::prelude::*;
use vstd::string::*;

use crate::condition::{
    condition_check_exists, condition_check_not_exists, conditions_view, exists_expression,
    key_condition, merge_all, not_exists_expression, ConditionCheckInfo, ConditionModel, PK, SK,
};
use crate::errors::DynarustError;
use crate::text::{nat_text, u64_to_text};
use crate::value::{
    canonical_fields, decode_attribute, decode_map, document_view, encode_document, encode_fields,
    encode_value, item_view, lemma_round_trip_fields, value_to_attribute, Attribute,
    AttributeModel, Document, Item, ValueModel,
};

verus! {

/// A write on one item, ready to be sent alone or as part of a transaction.
#[derive(Debug, PartialEq, Eq)]
pub enum WriteOperation {
    /// Writes a whole item.
    Put { table: String, item: Item, condition: Option<ConditionCheckInfo> },
    /// Sets some fields of an item. The update's placeholders are kept apart from those of
    /// its condition.
    Update {
        table: String,
        key: (String, String),
        update_expression: String,
        names: Vec<(String, String)>,
        values: Item,
        condition: Option<ConditionCheckInfo>,
    },
    /// Removes an item.
    Delete { table: String, key: (String, String), condition: Option<ConditionCheckInfo> },
    /// Checks a condition on an item without writing it.
    ConditionCheck {
        table: String,
        key: (String, String),
        condition: Option<ConditionCheckInfo>,
    },
}

/// A write operation as the logic sees it.
pub enum OperationModel {
    Put { table: Seq<char>, item: Seq<(Seq<char>, AttributeModel)>, condition: Option<ConditionModel> },
    Update {
        table: Seq<char>,
        key: (Seq<char>, Seq<char>),
        update_expression: Seq<char>,
        names: Seq<(Seq<char>, Seq<char>)>,
        values: Seq<(Seq<char>, AttributeModel)>,
        condition: Option<ConditionModel>,
    },
    Delete { table: Seq<char>, key: (Seq<char>, Seq<char>), condition: Option<ConditionModel> },
    ConditionCheck {
        table: Seq<char>,
        key: (Seq<char>, Seq<char>),
        condition: Option<ConditionModel>,
    },
}

/// The model of an optional condition.
pub open spec fn condition_view(c: Option<ConditionCheckInfo>) -> Option<ConditionModel> {
    match c {
        Some(x) => Some(x@),
        None => None,
    }
}

impl View for WriteOperation {
    type V = OperationModel;

    open spec fn view(&self) -> OperationModel {
        match self {
            WriteOperation::Put { table, item, condition } => OperationModel::Put {
                table: table@,
                item: item_view(item@),
                condition: condition_view(*condition),
            },
            WriteOperation::Update { table, key, update_expression, names, values, condition } =>
                OperationModel::Update {
                table: table@,
                key: key@,
                update_expression: update_expression@,
                names: crate::condition::names_view(names@),
                values: item_view(values@),
                condition: condition_view(*condition),
            },
            WriteOperation::Delete { table, key, condition } => OperationModel::Delete {
                table: table@,
                key: key@,
                condition: condition_view(*condition),
            },
            WriteOperation::ConditionCheck { table, key, condition } =>
                OperationModel::ConditionCheck {
                table: table@,
                key: key@,
                condition: condition_view(*condition),
            },
        }
    }
}

/// The models of a sequence of operations.
pub open spec fn operations_view(ops: Seq<WriteOperation>) -> Seq<OperationModel> {
    Seq::new(ops.len(), |i: int| ops[i]@)
}

/// The key attributes of an item.
pub open spec fn key_item(key: (Seq<char>, Seq<char>)) -> Seq<(Seq<char>, AttributeModel)> {
    seq![(PK@, AttributeModel::S(key.0)), (SK@, AttributeModel::S(key.1))]
}

/// The fragments merged into a base, as a precondition: none where nothing is asked.
pub open spec fn checked_condition(base: ConditionModel, checks: Seq<ConditionModel>) -> Option<
    ConditionModel,
> {
    let m = merge_all(base, checks);
    if m.expression.len() == 0 {
        None
    } else {
        Some(m)
    }
}

/// The put that writes a document under a key: its fields encoded, then the two key
/// attributes, which win over fields of the same names.
pub open spec fn put_model(
    table: Seq<char>,
    key: (Seq<char>, Seq<char>),
    doc: Seq<(Seq<char>, ValueModel)>,
    condition: Option<ConditionModel>,
) -> OperationModel {
    OperationModel::Put { table, item: encode_fields(doc) + key_item(key), condition }
}

/// The put that creates a document: it fails where the item exists or a check fails.
pub open spec fn create_model(
    table: Seq<char>,
    key: (Seq<char>, Seq<char>),
    doc: Seq<(Seq<char>, ValueModel)>,
    checks: Seq<ConditionModel>,
) -> OperationModel {
    put_model(table, key, doc, checked_condition(key_condition(not_exists_expression()), checks))
}

/// The placeholder for the name of the `i`-th updated field.
pub open spec fn update_name(i: nat) -> Seq<char> {
    "#updateAttr"@ + nat_text(i)
}

/// The placeholder for the value of the `i`-th updated field.
pub open spec fn update_token(i: nat) -> Seq<char> {
    ":updateAttr"@ + nat_text(i)
}

/// The assignment of the `i`-th updated field.
pub open spec fn set_clause(i: nat) -> Seq<char> {
    update_name(i) + " = "@ + update_token(i)
}

/// The first `n` assignments, separated by commas.
pub open spec fn set_clauses(n: nat) -> Seq<char>
    decreases n,
{
    if n == 0 {
        Seq::empty()
    } else if n == 1 {
        set_clause(0)
    } else {
        set_clauses((n - 1) as nat) + ", "@ + set_clause((n - 1) as nat)
    }
}

/// The update that sets each field of the patch, numbered in order, on the item under
/// `key`, where the item exists and every check passes.
pub open spec fn update_model(
    table: Seq<char>,
    key: (Seq<char>, Seq<char>),
    patch: Seq<(Seq<char>, ValueModel)>,
    checks: Seq<ConditionModel>,
) -> OperationModel {
    OperationModel::Update {
        table,
        key,
        update_expression: "set "@ + set_clauses(patch.len()),
        names: Seq::new(patch.len(), |i: int| (update_name(i as nat), patch[i].0)),
        values: Seq::new(patch.len(), |i: int| (update_token(i as nat), encode_value(patch[i].1))),
        condition: checked_condition(key_condition(exists_expression()), checks),
    }
}

/// The delete of the item under `key`, where every check passes.
pub open spec fn delete_model(
    table: Seq<char>,
    key: (Seq<char>, Seq<char>),
    checks: Seq<ConditionModel>,
) -> OperationModel {
    OperationModel::Delete {
        table,
        key,
        condition: checked_condition(crate::condition::empty_condition(), checks),
    }
}

fn checked(base: ConditionCheckInfo, checks: Vec<ConditionCheckInfo>) -> (r: Option<
    ConditionCheckInfo,
>)
    ensures
        condition_view(r) == checked_condition(base@, conditions_view(checks@)),
{
    base.merge(checks).into_condition()
}

fn put_operation(
    table: &str,
    pk_sk: &(String, String),
    document: &Document,
    condition: Option<ConditionCheckInfo>,
) -> (r: WriteOperation)
    ensures
        r@ == put_model(table@, pk_sk@, document_view(document@), condition_view(condition)),
{
    let mut item = encode_document(document);
    let ghost fields = item_view(item@);
    item.push((String::from_str(PK), Attribute::S(pk_sk.0.clone())));
    item.push((String::from_str(SK), Attribute::S(pk_sk.1.clone())));
    proof {
        assert(item_view(item@) =~= fields + key_item(pk_sk@));
    }
    WriteOperation::Put { table: String::from_str(table), item, condition }
}

/// The put that creates a resource from its document: it carries a precondition that
/// the item does not exist yet, merged with the extra checks.
pub fn create_operation(
    table: &str,
    pk_sk: (String, String),
    document: &Document,
    condition_checks: Vec<ConditionCheckInfo>,
) -> (r: WriteOperation)
    ensures
        r@ == create_model(table@, pk_sk@, document_view(document@), conditions_view(condition_checks@)),
{
    let condition = checked(condition_check_not_exists(), condition_checks);
    put_operation(table, &pk_sk, document, condition)
}

/// The put that writes a resource from its document whether or not it exists.
pub fn force_create_operation(table: &str, pk_sk: (String, String), document: &Document) -> (r:
    WriteOperation)
    ensures
        r@ == put_model(table@, pk_sk@, document_view(document@), None),
{
    put_operation(table, &pk_sk, document, None)
}

/// Starts an empty transaction context.
pub fn begin_transaction() -> (r: Vec<WriteOperation>)
    ensures
        r@.len() == 0,
{
    Vec::new()
}

/// Adds a create operation to the transaction context.
pub fn transact_create(
    table: &str,
    pk_sk: (String, String),
    document: &Document,
    transaction_context: &mut Vec<WriteOperation>,
)
    ensures
        operations_view(final(transaction_context)@) == operations_view(
            old(transaction_context)@,
        ).push(create_model(table@, pk_sk@, document_view(document@), Seq::empty())),
{
    transact_create_with_checks(table, pk_sk, document, Vec::new(), transaction_context);
    proof {
        assert(conditions_view(Seq::<ConditionCheckInfo>::empty()) =~= Seq::<ConditionModel>::empty());
    }
}

/// Adds a create operation, with extra checks on the created item, to the transaction
/// context.
pub fn transact_create_with_checks(
    table: &str,
    pk_sk: (String, String),
    document: &Document,
    condition_checks: Vec<ConditionCheckInfo>,
    transaction_context: &mut Vec<WriteOperation>,
)
    ensures
        operations_view(final(transaction_context)@) == operations_view(
            old(transaction_context)@,
        ).push(
            create_model(table@, pk_sk@, document_view(document@), conditions_view(condition_checks@)),
        ),
{
    let op = create_operation(table, pk_sk, document, condition_checks);
    transaction_context.push(op);
    proof {
        assert(operations_view(transaction_context@) =~= operations_view(
            old(transaction_context)@,
        ).push(op@));
    }
}

/// The update that sets the fields of `patch` on the item under `pk_sk`.
///
/// `updated_pk_sk` is the key pair of the resource with the patch applied. An empty patch
/// writes nothing: the answer is `Ok(None)`. A patch that changes the key pair is
/// refused with `InvalidRequestError`. Otherwise the update carries a precondition that
/// the item exists, merged with the extra checks.
pub fn update_operation(
    table: &str,
    pk_sk: (String, String),
    updated_pk_sk: (String, String),
    patch: &Document,
    condition_checks: Vec<ConditionCheckInfo>,
) -> (r: Result<Option<WriteOperation>, DynarustError>)
    ensures
        patch@.len() == 0 ==> r == Ok::<Option<WriteOperation>, DynarustError>(None),
        patch@.len() > 0 && updated_pk_sk@ != pk_sk@ ==> r is Err && r->Err_0 is InvalidRequestError,
        patch@.len() > 0 && updated_pk_sk@ == pk_sk@ ==> r is Ok && r->Ok_0 is Some
            && r->Ok_0->Some_0@ == update_model(
            table@,
            pk_sk@,
            document_view(patch@),
            conditions_view(condition_checks@),
        ),
{
    if patch.len() == 0 {
        return Ok(None);
    }
    if !(updated_pk_sk.0.eq(&pk_sk.0) && updated_pk_sk.1.eq(&pk_sk.1)) {
        return Err(DynarustError::InvalidRequestError(String::from_str("Cannot update PK and/or SK")));
    }
    let condition = checked(condition_check_exists(), condition_checks);
    let ghost p = document_view(patch@);
    let mut update_expression = String::from_str("set ");
    let mut names: Vec<(String, String)> = Vec::new();
    let mut values: Item = Vec::new();
    let mut i: usize = 0;
    while i < patch.len()
        invariant
            p == document_view(patch@),
            0 < patch.len(),
            i <= patch.len(),
            update_expression@ == "set "@ + set_clauses(i as nat),
            names.len() == i,
            values.len() == i,
            forall|j: int|
                0 <= j < i ==> (#[trigger] names[j]).0@ == update_name(j as nat) && names[j].1@
                    == p[j].0,
            forall|j: int|
                0 <= j < i ==> (#[trigger] values[j]).0@ == update_token(j as nat)
                    && values[j].1@ == encode_value(p[j].1),
        decreases patch.len() - i,
    {
        let number = u64_to_text(i as u64);
        let name = String::from_str("#updateAttr").concat(number.as_str());
        let token = String::from_str(":updateAttr").concat(number.as_str());
        if i > 0 {
            update_expression.append(", ");
        }
        update_expression.append(name.as_str());
        update_expression.append(" = ");
        update_expression.append(token.as_str());
        proof {
            if i == 0 {
                assert(update_expression@ =~= "set "@ + set_clauses(1));
            } else {
                assert(update_expression@ =~= "set "@ + set_clauses((i + 1) as nat));
            }
        }
        names.push((name, patch[i].0.clone()));
        values.push((token, value_to_attribute(&patch[i].1)));
        i = i + 1;
    }
    let op = WriteOperation::Update {
        table: String::from_str(table),
        key: pk_sk,
        update_expression,
        names,
        values,
        condition,
    };
    proof {
        let m = update_model(table@, pk_sk@, p, conditions_view(condition_checks@));
        assert(crate::condition::names_view(names@) =~= m->Update_names);
        assert(item_view(values@) =~= m->Update_values);
    }
    Ok(Some(op))
}

/// Adds an update operation to the transaction context.
pub fn transact_update(
    table: &str,
    pk_sk: (String, String),
    updated_pk_sk: (String, String),
    patch: &Document,
    transaction_context: &mut Vec<WriteOperation>,
) -> (r: Result<(), DynarustError>)
    ensures
        patch@.len() == 0 ==> r is Ok && final(transaction_context)@ == old(transaction_context)@,
        patch@.len() > 0 && updated_pk_sk@ != pk_sk@ ==> r is Err && r->Err_0 is InvalidRequestError
            && final(transaction_context)@ == old(transaction_context)@,
        patch@.len() > 0 && updated_pk_sk@ == pk_sk@ ==> r is Ok && operations_view(
            final(transaction_context)@,
        ) == operations_view(old(transaction_context)@).push(
            update_model(table@, pk_sk@, document_view(patch@), Seq::empty()),
        ),
{
    proof {
        assert(conditions_view(Seq::<ConditionCheckInfo>::empty()) =~= Seq::<ConditionModel>::empty());
    }
    transact_update_with_checks(table, pk_sk, updated_pk_sk, patch, Vec::new(), transaction_context)
}

/// Adds an update operation, with extra checks on the updated item, to the transaction
/// context. Nothing is added for an empty patch, nor for one that changes the key pair,
/// which is refused.
pub fn transact_update_with_checks(
    table: &str,
    pk_sk: (String, String),
    updated_pk_sk: (String, String),
    patch: &Document,
    condition_checks: Vec<ConditionCheckInfo>,
    transaction_context: &mut Vec<WriteOperation>,
) -> (r: Result<(), DynarustError>)
    ensures
        patch@.len() == 0 ==> r is Ok && final(transaction_context)@ == old(transaction_context)@,
        patch@.len() > 0 && updated_pk_sk@ != pk_sk@ ==> r is Err && r->Err_0 is InvalidRequestError
            && final(transaction_context)@ == old(transaction_context)@,
        patch@.len() > 0 && updated_pk_sk@ == pk_sk@ ==> r is Ok && operations_view(
            final(transaction_context)@,
        ) == operations_view(old(transaction_context)@).push(
            update_model(table@, pk_sk@, document_view(patch@), conditions_view(condition_checks@)),
        ),
{
    match update_operation(table, pk_sk, updated_pk_sk, patch, condition_checks) {
        Ok(Some(op)) => {
            transaction_context.push(op);
            proof {
                assert(operations_view(transaction_context@) =~= operations_view(
                    old(transaction_context)@,
                ).push(op@));
            }
            Ok(())
        },
        Ok(None) => Ok(()),
        Err(e) => Err(e),
    }
}

/// The delete of the item under `pk_sk`, conditioned on the extra checks alone.
pub fn delete_operation(
    table: &str,
    pk_sk: (String, String),
    condition_checks: Vec<ConditionCheckInfo>,
) -> (r: WriteOperation)
    ensures
        r@ == delete_model(table@, pk_sk@, conditions_view(condition_checks@)),
{
    let condition = checked(ConditionCheckInfo::default(), condition_checks);
    WriteOperation::Delete { table: String::from_str(table), key: pk_sk, condition }
}

/// Adds a delete operation to the transaction context.
pub fn transact_delete(
    table: &str,
    pk_sk: (String, String),
    transaction_context: &mut Vec<WriteOperation>,
)
    ensures
        operations_view(final(transaction_context)@) == operations_view(
            old(transaction_context)@,
        ).push(delete_model(table@, pk_sk@, Seq::empty())),
{
    proof {
        assert(conditions_view(Seq::<ConditionCheckInfo>::empty()) =~= Seq::<ConditionModel>::empty());
    }
    transact_delete_with_checks(table, pk_sk, Vec::new(), transaction_context)
}

/// Adds a delete operation, with checks on the deleted item, to the transaction context.
pub fn transact_delete_with_checks(
    table: &str,
    pk_sk: (String, String),
    condition_checks: Vec<ConditionCheckInfo>,
    transaction_context: &mut Vec<WriteOperation>,
)
    ensures
        operations_view(final(transaction_context)@) == operations_view(
            old(transaction_context)@,
        ).push(delete_model(table@, pk_sk@, conditions_view(condition_checks@))),
{
    let op = delete_operation(table, pk_sk, condition_checks);
    transaction_context.push(op);
    proof {
        assert(operations_view(transaction_context@) =~= operations_view(
            old(transaction_context)@,
        ).push(op@));
    }
}

/// Adds a standalone condition check on the item under `pk_sk` to the transaction
/// context, for a fact about an item that the transaction does not otherwise write.
pub fn transact_condition_check(
    table: &str,
    pk_sk: (String, String),
    info: ConditionCheckInfo,
    transaction_context: &mut Vec<WriteOperation>,
)
    ensures
        operations_view(final(transaction_context)@) == operations_view(
            old(transaction_context)@,
        ).push(
            OperationModel::ConditionCheck {
                table: table@,
                key: pk_sk@,
                condition: if info@.expression.len() == 0 {
                    None
                } else {
                    Some(info@)
                },
            },
        ),
{
    let condition = info.into_condition();
    let op = WriteOperation::ConditionCheck { table: String::from_str(table), key: pk_sk, condition };
    transaction_context.push(op);
    proof {
        assert(operations_view(transaction_context@) =~= operations_view(
            old(transaction_context)@,
        ).push(op@));
    }
}

/// What a create writes reads back as the resource's document followed by its two key
/// attributes, where the document's numbers are canonical.
pub proof fn lemma_created_item_reads_back(
    table: Seq<char>,
    key: (Seq<char>, Seq<char>),
    doc: Seq<(Seq<char>, ValueModel)>,
    checks: Seq<ConditionModel>,
)
    requires
        canonical_fields(doc),
    ensures
        decode_map(create_model(table, key, doc, checks)->Put_item) == Some(
            doc + seq![(PK@, ValueModel::Str(key.0)), (SK@, ValueModel::Str(key.1))],
        ),
{
    let e = encode_fields(doc);
    let item = e + key_item(key);
    let n = e.len() as int;
    lemma_round_trip_fields(doc);
    assert(item.subrange(0, n + 1).subrange(0, n) =~= e);
    assert(item.subrange(0, n + 1)[n] == (PK@, AttributeModel::S(key.0)));
    assert(decode_attribute(AttributeModel::S(key.0)) == Some(ValueModel::Str(key.0)));
    assert(decode_attribute(AttributeModel::S(key.1)) == Some(ValueModel::Str(key.1)));
    assert(decode_map(item.subrange(0, n + 1)) == Some(doc.push((PK@, ValueModel::Str(key.0)))));
    assert(item.subrange(0, item.len() - 1) =~= item.subrange(0, n + 1));
    assert(doc.push((PK@, ValueModel::Str(key.0))).push((SK@, ValueModel::Str(key.1))) =~= doc
        + seq![(PK@, ValueModel::Str(key.0)), (SK@, ValueModel::Str(key.1))]);
}

} // verus!
