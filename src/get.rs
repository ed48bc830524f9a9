use vstd::prelude::*;
use vstd::string::*;

use crate::condition::{PK, SK};
use crate::errors::DynarustError;
use crate::list::{decode_all, decode_items, documents_view, items_view};
use crate::value::{decode_item, decode_map, document_view, item_view, Attribute, Document, Item};
use crate::write::key_item;

verus! {

/// The key attributes that identify the item under `pk_sk`.
pub fn key_attributes(pk_sk: (String, String)) -> (r: Item)
    ensures
        item_view(r@) == key_item(pk_sk@),
{
    let (pk, sk) = pk_sk;
    let mut r: Item = Vec::new();
    r.push((String::from_str(PK), Attribute::S(pk)));
    r.push((String::from_str(SK), Attribute::S(sk)));
    proof {
        assert(item_view(r@) =~= key_item(pk_sk@));
    }
    r
}

/// The keys of a batch read, one per key pair, in order.
pub fn batch_keys(items: Vec<(String, String)>) -> (r: Vec<Item>)
    ensures
        r@.len() == items@.len(),
        forall|i: int| 0 <= i < items@.len() ==> item_view((#[trigger] r@[i])@) == key_item(items@[i]@),
{
    let ghost all = items@;
    let mut rest = items;
    let mut out: Vec<Item> = Vec::new();
    let ghost done: int = 0;
    while rest.len() > 0
        invariant
            0 <= done <= all.len(),
            out.len() == done,
            rest@ == all.subrange(done, all.len() as int),
            forall|i: int| 0 <= i < done ==> item_view((#[trigger] out@[i])@) == key_item(all[i]@),
        decreases rest.len(),
    {
        let key = rest.remove(0);
        proof {
            assert(all[done] == key);
            assert(rest@ =~= all.subrange(done + 1, all.len() as int));
            done = done + 1;
        }
        out.push(key_attributes(key));
    }
    out
}

/// Reads back the answer to a single read: absent where the store found no item.
pub fn read_found_item(found: Option<Item>) -> (r: Result<Option<Document>, DynarustError>)
    ensures
        found is None ==> r == Ok::<Option<Document>, DynarustError>(None),
        found is Some ==> match decode_map(item_view(found->Some_0@)) {
            Some(d) => r is Ok && r->Ok_0 is Some && document_view(r->Ok_0->Some_0@) == d,
            None => r is Err && r->Err_0 is AttributeParseError,
        },
{
    match found {
        None => Ok(None),
        Some(item) => match decode_item(&item) {
            Ok(d) => Ok(Some(d)),
            Err(e) => Err(e),
        },
    }
}

/// Whether the answer of a batch read holds a list of items for `table`.
pub open spec fn has_table(responses: Seq<(String, Vec<Item>)>, table: Seq<char>) -> bool {
    exists|i: int| 0 <= i < responses.len() && (#[trigger] responses[i]).0@ == table
}

/// Reads back the answer to a batch read from `table`. No answer at all means nothing was
/// found; an answer that lacks the table breaks the protocol and fails with
/// `UnexpectedError`; otherwise the items listed for the first entry of the table are read
/// back in order.
pub fn read_batch_response(table: &str, responses: Option<Vec<(String, Vec<Item>)>>) -> (r: Result<
    Vec<Document>,
    DynarustError,
>)
    ensures
        responses is None ==> r is Ok && r->Ok_0@.len() == 0,
        responses is Some && !has_table(responses->Some_0@, table@) ==> r is Err && r->Err_0 is UnexpectedError,
        responses is Some && has_table(responses->Some_0@, table@) ==> exists|i: int|
            0 <= i < responses->Some_0@.len() && responses->Some_0@[i].0@ == table@ && (forall|j: int|
                0 <= j < i ==> (#[trigger] responses->Some_0@[j]).0@ != table@) && match decode_all(
                items_view(responses->Some_0@[i].1@),
            ) {
                Some(ds) => r is Ok && documents_view(r->Ok_0@) == ds,
                None => r is Err && r->Err_0 is AttributeParseError,
            },
{
    match responses {
        None => Ok(Vec::new()),
        Some(rs) => {
            let wanted = String::from_str(table);
            let mut i: usize = 0;
            while i < rs.len()
                invariant
                    wanted@ == table@,
                    responses == Some(rs),
                    i <= rs.len(),
                    forall|j: int| 0 <= j < i ==> (#[trigger] rs@[j]).0@ != table@,
                decreases rs.len() - i,
            {
                if rs[i].0.eq(&wanted) {
                    proof {
                        assert(rs@[i as int].0@ == table@);
                    }
                    return decode_items(&rs[i].1);
                }
                i = i + 1;
            }
            proof {
                assert(!has_table(rs@, table@)) by {
                    if has_table(rs@, table@) {
                        let w = choose|j: int| 0 <= j < rs@.len() && (#[trigger] rs@[j]).0@ == table@;
                        assert(rs@[w].0@ != table@);
                    }
                }
            }
            Err(
                DynarustError::UnexpectedError(
                    String::from_str("Table was not returned in that batch items response"),
                ),
            )
        },
    }
}

} // verus!
