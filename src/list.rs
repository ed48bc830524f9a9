use vstd::prelude::*;
use vstd::string::*;

use crate::condition::{PK, SK};
use crate::errors::DynarustError;
use crate::value::{
    decode_item, decode_map, document_view, item_view, Attribute, AttributeModel, Document, Item,
    ValueModel,
};

verus! {

/// Options for listing the resources under one partition key.
#[derive(Debug, PartialEq, Eq)]
pub struct ListOptions {
    /// Sort key to continue after; where absent, the listing starts from the first item.
    pub from: Option<String>,
    /// The most items on one page; 25 by default.
    pub limit: i32,
    /// Whether to list in descending order; ascending by default.
    pub sort_desc: bool,
}

impl Default for ListOptions {
    fn default() -> (r: Self)
        ensures
            r.from is None,
            r.limit == 25,
            !r.sort_desc,
    {
        ListOptions { from: None, limit: 25, sort_desc: false }
    }
}

/// A range read under one partition key.
#[derive(Debug, PartialEq, Eq)]
pub struct QueryRequest {
    pub table: String,
    pub key_condition_expression: String,
    pub names: Vec<(String, String)>,
    pub values: Item,
    pub limit: i32,
    pub scan_index_forward: bool,
}

/// A range read as the logic sees it.
pub struct QueryModel {
    pub table: Seq<char>,
    pub key_condition_expression: Seq<char>,
    pub names: Seq<(Seq<char>, Seq<char>)>,
    pub values: Seq<(Seq<char>, AttributeModel)>,
    pub limit: i32,
    pub scan_index_forward: bool,
}

impl View for QueryRequest {
    type V = QueryModel;

    open spec fn view(&self) -> QueryModel {
        QueryModel {
            table: self.table@,
            key_condition_expression: self.key_condition_expression@,
            names: crate::condition::names_view(self.names@),
            values: item_view(self.values@),
            limit: self.limit,
            scan_index_forward: self.scan_index_forward,
        }
    }
}

/// The bound that an ascending listing starts after when no cursor is given. Sort keys
/// are assumed to sort after it.
pub open spec fn ascending_sentinel() -> Seq<char> {
    "+++++++++"@
}

/// The bound that a descending listing starts before when no cursor is given. Sort keys
/// are assumed to sort before it.
pub open spec fn descending_sentinel() -> Seq<char> {
    "zzzzzzzzzz"@
}

/// The exclusive bound on the sort key: the cursor where there is one, else the sentinel
/// of the direction.
pub open spec fn list_bound(from: Option<Seq<char>>, sort_desc: bool) -> Seq<char> {
    match from {
        Some(s) => s,
        None => if sort_desc {
            descending_sentinel()
        } else {
            ascending_sentinel()
        },
    }
}

/// The comparison against the bound: `<` when descending, `>` when ascending.
pub open spec fn list_operator(sort_desc: bool) -> Seq<char> {
    if sort_desc {
        "<"@
    } else {
        ">"@
    }
}

/// The range read that a listing issues: partition key equal to `pk`, sort key beyond
/// the bound in the direction asked, at most `limit` items in that direction.
pub open spec fn list_query_model(
    table: Seq<char>,
    pk: Seq<char>,
    from: Option<Seq<char>>,
    limit: i32,
    sort_desc: bool,
) -> QueryModel {
    QueryModel {
        table,
        key_condition_expression: "#pk = :pk and #sk "@ + list_operator(sort_desc) + " :sk"@,
        names: seq![("#pk"@, PK@), ("#sk"@, SK@)],
        values: seq![
            (":pk"@, AttributeModel::S(pk)),
            (":sk"@, AttributeModel::S(list_bound(from, sort_desc))),
        ],
        limit,
        scan_index_forward: !sort_desc,
    }
}

/// The model of an optional string.
pub open spec fn opt_text(o: Option<String>) -> Option<Seq<char>> {
    match o {
        Some(s) => Some(s@),
        None => None,
    }
}

/// The range read for one page of the listing under `pk`.
pub fn list_query(table: &str, pk: &str, options: &ListOptions) -> (r: QueryRequest)
    ensures
        r@ == list_query_model(table@, pk@, opt_text(options.from), options.limit, options.sort_desc),
{
    let operator = if options.sort_desc {
        "<"
    } else {
        ">"
    };
    let bound = match &options.from {
        Some(s) => s.clone(),
        None => if options.sort_desc {
            String::from_str("zzzzzzzzzz")
        } else {
            String::from_str("+++++++++")
        },
    };
    let expression = String::from_str("#pk = :pk and #sk ").concat(operator).concat(" :sk");
    let mut names: Vec<(String, String)> = Vec::new();
    names.push((String::from_str("#pk"), String::from_str(PK)));
    names.push((String::from_str("#sk"), String::from_str(SK)));
    let mut values: Item = Vec::new();
    values.push((String::from_str(":pk"), Attribute::S(String::from_str(pk))));
    values.push((String::from_str(":sk"), Attribute::S(bound)));
    let r = QueryRequest {
        table: String::from_str(table),
        key_condition_expression: expression,
        names,
        values,
        limit: options.limit,
        scan_index_forward: !options.sort_desc,
    };
    proof {
        let m = list_query_model(table@, pk@, opt_text(options.from), options.limit, options.sort_desc);
        assert(r@.names =~= m.names);
        assert(r@.values =~= m.values);
    }
    r
}

/// Reads back every item of a page, in order, or nothing where one of them cannot be read.
pub open spec fn decode_all(items: Seq<Seq<(Seq<char>, AttributeModel)>>) -> Option<
    Seq<Seq<(Seq<char>, ValueModel)>>,
>
    decreases items.len(),
{
    if items.len() == 0 {
        Some(Seq::empty())
    } else {
        match (decode_all(items.drop_last()), decode_map(items.last())) {
            (Some(p), Some(d)) => Some(p.push(d)),
            _ => None,
        }
    }
}

/// The models of a sequence of items.
pub open spec fn items_view(items: Seq<Item>) -> Seq<Seq<(Seq<char>, AttributeModel)>> {
    Seq::new(items.len(), |i: int| item_view(items[i]@))
}

/// The models of a sequence of documents.
pub open spec fn documents_view(docs: Seq<Document>) -> Seq<Seq<(Seq<char>, ValueModel)>> {
    Seq::new(docs.len(), |i: int| document_view(docs[i]@))
}

proof fn lemma_decode_all_prefix_fails(items: Seq<Seq<(Seq<char>, AttributeModel)>>, i: int)
    requires
        0 <= i <= items.len(),
        decode_all(items.subrange(0, i)) is None,
    ensures
        decode_all(items) is None,
    decreases items.len() - i,
{
    if i < items.len() {
        assert(items.subrange(0, i + 1).drop_last() =~= items.subrange(0, i));
        lemma_decode_all_prefix_fails(items, i + 1);
    } else {
        assert(items.subrange(0, i) =~= items);
    }
}

/// Reads back every item of a page into a document, in order; fails with
/// `AttributeParseError` exactly where one of them cannot be read.
pub fn decode_items(items: &Vec<Item>) -> (r: Result<Vec<Document>, DynarustError>)
    ensures
        match decode_all(items_view(items@)) {
            Some(ds) => r is Ok && documents_view(r->Ok_0@) == ds,
            None => r is Err && r->Err_0 is AttributeParseError,
        },
{
    let ghost all = items_view(items@);
    let mut out: Vec<Document> = Vec::new();
    let mut i: usize = 0;
    while i < items.len()
        invariant
            all == items_view(items@),
            i <= items.len(),
            out.len() == i,
            decode_all(all.subrange(0, i as int)) is Some,
            documents_view(out@) == decode_all(all.subrange(0, i as int))->Some_0,
        decreases items.len() - i,
    {
        proof {
            assert(all.subrange(0, i + 1).drop_last() =~= all.subrange(0, i as int));
            assert(all.subrange(0, i + 1).last() == item_view(items[i as int]@));
        }
        match decode_item(&items[i]) {
            Ok(d) => {
                out.push(d);
                proof {
                    assert(documents_view(out@) =~= decode_all(all.subrange(0, i + 1))->Some_0);
                }
            },
            Err(e) => {
                proof {
                    lemma_decode_all_prefix_fails(all, i + 1);
                }
                return Err(e);
            },
        }
        i = i + 1;
    }
    proof {
        assert(all.subrange(0, items.len() as int) =~= all);
    }
    Ok(out)
}

} // verus!
