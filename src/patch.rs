use vstd::prelude::*;

use crate::value::{document_view, Document, Value, ValueModel};

verus! {

/// Whether `i` is the first position of field `k` in `d`.
pub open spec fn is_first_index(d: Seq<(Seq<char>, ValueModel)>, k: Seq<char>, i: int) -> bool {
    &&& 0 <= i < d.len()
    &&& d[i].0 == k
    &&& forall|j: int| 0 <= j < i ==> (#[trigger] d[j]).0 != k
}

/// Whether the document has a field named `k`.
pub open spec fn has_field(d: Seq<(Seq<char>, ValueModel)>, k: Seq<char>) -> bool {
    exists|i: int| 0 <= i < d.len() && (#[trigger] d[i]).0 == k
}

/// The first position of field `k` in `d`, where there is one.
pub open spec fn first_index(d: Seq<(Seq<char>, ValueModel)>, k: Seq<char>) -> int {
    choose|i: int| is_first_index(d, k, i)
}

/// The value of field `k` in a document, if it has one.
pub open spec fn lookup(d: Seq<(Seq<char>, ValueModel)>, k: Seq<char>) -> Option<ValueModel> {
    if has_field(d, k) {
        Some(d[first_index(d, k)].1)
    } else {
        None
    }
}

/// The document with field `k` set to `v`: replaced in place where it is present, added
/// at the end where it is not.
pub open spec fn set_field(d: Seq<(Seq<char>, ValueModel)>, k: Seq<char>, v: ValueModel) -> Seq<
    (Seq<char>, ValueModel),
> {
    if has_field(d, k) {
        d.update(first_index(d, k), (k, v))
    } else {
        d.push((k, v))
    }
}

/// The document with each field of the patch set in turn: whole fields are replaced, not
/// merged into.
pub open spec fn apply_patch(
    d: Seq<(Seq<char>, ValueModel)>,
    patch: Seq<(Seq<char>, ValueModel)>,
) -> Seq<(Seq<char>, ValueModel)>
    decreases patch.len(),
{
    if patch.len() == 0 {
        d
    } else {
        set_field(apply_patch(d, patch.drop_last()), patch.last().0, patch.last().1)
    }
}

proof fn lemma_first_index(d: Seq<(Seq<char>, ValueModel)>, k: Seq<char>, i: int)
    requires
        is_first_index(d, k, i),
    ensures
        has_field(d, k),
        first_index(d, k) == i,
{
    let c = first_index(d, k);
    assert(is_first_index(d, k, c));
    if c < i {
        assert(d[c].0 != k);
    } else if c > i {
        assert(d[i].0 != k);
    }
}

proof fn lemma_first_index_exists(d: Seq<(Seq<char>, ValueModel)>, k: Seq<char>)
    requires
        has_field(d, k),
    ensures
        is_first_index(d, k, first_index(d, k)),
    decreases d.len(),
{
    let w = choose|i: int| 0 <= i < d.len() && (#[trigger] d[i]).0 == k;
    let front = d.drop_last();
    if has_field(front, k) {
        lemma_first_index_exists(front, k);
        let f = first_index(front, k);
        assert forall|j: int| 0 <= j < f implies (#[trigger] d[j]).0 != k by {
            assert(d[j] == front[j]);
        }
        assert(is_first_index(d, k, f));
    } else {
        assert forall|j: int| 0 <= j < d.len() - 1 implies (#[trigger] d[j]).0 != k by {
            assert(d[j] == front[j]);
        }
        assert(is_first_index(d, k, w));
    }
}

/// Setting one field leaves every other field as it was.
pub proof fn lemma_set_field_other(
    d: Seq<(Seq<char>, ValueModel)>,
    k: Seq<char>,
    v: ValueModel,
    other: Seq<char>,
)
    requires
        other != k,
    ensures
        lookup(set_field(d, k, v), other) == lookup(d, other),
{
    let r = set_field(d, k, v);
    if has_field(d, k) {
        lemma_first_index_exists(d, k);
    }
    if has_field(d, other) {
        lemma_first_index_exists(d, other);
        let f = first_index(d, other);
        assert(r[f] == d[f]);
        assert forall|j: int| 0 <= j < f implies (#[trigger] r[j]).0 != other by {
            assert(d[j].0 != other);
        }
        lemma_first_index(r, other, f);
    } else {
        assert forall|j: int| 0 <= j < r.len() implies (#[trigger] r[j]).0 != other by {
            if j < d.len() {
                assert(d[j].0 != other);
            }
        }
    }
}

/// After a field is set, it holds the value it was set to.
pub proof fn lemma_set_field_same(d: Seq<(Seq<char>, ValueModel)>, k: Seq<char>, v: ValueModel)
    ensures
        lookup(set_field(d, k, v), k) == Some(v),
{
    let r = set_field(d, k, v);
    if has_field(d, k) {
        lemma_first_index_exists(d, k);
        let f = first_index(d, k);
        assert forall|j: int| 0 <= j < f implies (#[trigger] r[j]).0 != k by {
            assert(d[j].0 != k);
        }
        lemma_first_index(r, k, f);
    } else {
        assert forall|j: int| 0 <= j < d.len() implies (#[trigger] r[j]).0 != k by {
            assert(d[j].0 != k);
        }
        lemma_first_index(r, k, d.len() as int);
    }
}

/// A patch changes only the fields it lists: every field that the patch does not name
/// keeps its prior value.
pub proof fn lemma_patch_keeps_unlisted(
    d: Seq<(Seq<char>, ValueModel)>,
    patch: Seq<(Seq<char>, ValueModel)>,
    k: Seq<char>,
)
    requires
        !has_field(patch, k),
    ensures
        lookup(apply_patch(d, patch), k) == lookup(d, k),
    decreases patch.len(),
{
    if patch.len() > 0 {
        let front = patch.drop_last();
        assert(!has_field(front, k)) by {
            if has_field(front, k) {
                let w = choose|i: int| 0 <= i < front.len() && (#[trigger] front[i]).0 == k;
                assert(patch[w] == front[w]);
            }
        }
        lemma_patch_keeps_unlisted(d, front, k);
        assert(patch.last().0 != k) by {
            assert(patch[patch.len() - 1] == patch.last());
        }
        lemma_set_field_other(apply_patch(d, front), patch.last().0, patch.last().1, k);
    }
}

/// A field listed in the patch takes the value that the patch gives it last.
pub proof fn lemma_patch_sets_listed(
    d: Seq<(Seq<char>, ValueModel)>,
    patch: Seq<(Seq<char>, ValueModel)>,
)
    requires
        patch.len() > 0,
    ensures
        lookup(apply_patch(d, patch), patch.last().0) == Some(patch.last().1),
{
    lemma_set_field_same(apply_patch(d, patch.drop_last()), patch.last().0, patch.last().1);
}

/// Sets one field of a document.
pub fn set_field_exec(doc: &mut Document, k: &String, v: Value)
    ensures
        document_view(final(doc)@) == set_field(document_view(old(doc)@), k@, v@),
{
    let ghost d = document_view(doc@);
    let mut i: usize = 0;
    while i < doc.len()
        invariant
            d == document_view(doc@),
            d == document_view(old(doc)@),
            i <= doc.len(),
            forall|j: int| 0 <= j < i ==> (#[trigger] d[j]).0 != k@,
        decreases doc.len() - i,
    {
        if doc[i].0.eq(k) {
            proof {
                assert(d[i as int].0 == k@);
                lemma_first_index(d, k@, i as int);
            }
            let ghost vm = v@;
            doc.set(i, (k.clone(), v));
            proof {
                assert(document_view(doc@) =~= d.update(i as int, (k@, vm)));
            }
            return ;
        }
        proof {
            assert(d[i as int].0 != k@);
        }
        i = i + 1;
    }
    proof {
        assert(!has_field(d, k@)) by {
            if has_field(d, k@) {
                let w = choose|j: int| 0 <= j < d.len() && (#[trigger] d[j]).0 == k@;
                assert(d[w].0 != k@);
            }
        }
    }
    let ghost vm = v@;
    doc.push((k.clone(), v));
    proof {
        assert(document_view(doc@) =~= d.push((k@, vm)));
    }
}

/// The document with the patch applied: each field of the patch, in order, replaces the
/// field of that name or is added at the end.
pub fn merge_patch(current: &Document, patch: &Document) -> (r: Document)
    ensures
        document_view(r@) == apply_patch(document_view(current@), document_view(patch@)),
{
    let mut out = clone_document(current);
    let ghost p = document_view(patch@);
    let mut i: usize = 0;
    while i < patch.len()
        invariant
            p == document_view(patch@),
            i <= patch.len(),
            document_view(out@) == apply_patch(document_view(current@), p.subrange(0, i as int)),
        decreases patch.len() - i,
    {
        proof {
            assert(p.subrange(0, i + 1).drop_last() =~= p.subrange(0, i as int));
        }
        let v = clone_value(&patch[i].1);
        set_field_exec(&mut out, &patch[i].0, v);
        i = i + 1;
    }
    proof {
        assert(p.subrange(0, patch.len() as int) =~= p);
    }
    out
}

/// A copy of a value.
pub fn clone_value(v: &Value) -> (r: Value)
    ensures
        r@ == v@,
    decreases v,
{
    match v {
        Value::Null => Value::Null,
        Value::Bool(b) => Value::Bool(*b),
        Value::Number(t) => Value::Number(t.clone()),
        Value::Str(s) => Value::Str(s.clone()),
        Value::List(l) => {
            let mut out: Vec<Value> = Vec::new();
            let mut i: usize = 0;
            while i < l.len()
                invariant
                    *v == Value::List(*l),
                    i <= l.len(),
                    out.len() == i,
                    forall|j: int| 0 <= j < i ==> (#[trigger] out[j])@ == l[j]@,
                decreases l.len() - i,
            {
                proof {
                    assert(decreases_to!(*v => (*v)->List_0));
                    assert(decreases_to!(*l => l[i as int]));
                }
                out.push(clone_value(&l[i]));
                i = i + 1;
            }
            let r = Value::List(out);
            proof {
                reveal_with_fuel(<Value as View>::view, 2);
                assert(r@->List_0 =~= v@->List_0);
            }
            r
        },
        Value::Object(o) => {
            let mut out: Vec<(String, Value)> = Vec::new();
            let mut i: usize = 0;
            while i < o.len()
                invariant
                    *v == Value::Object(*o),
                    i <= o.len(),
                    out.len() == i,
                    forall|j: int|
                        0 <= j < i ==> (#[trigger] out[j]).0@ == o[j].0@ && out[j].1@ == o[j].1@,
                decreases o.len() - i,
            {
                proof {
                    assert(decreases_to!(*v => (*v)->Object_0));
                    assert(decreases_to!(*o => o[i as int]));
                    assert(decreases_to!(o[i as int] => o[i as int].1));
                }
                out.push((o[i].0.clone(), clone_value(&o[i].1)));
                i = i + 1;
            }
            let r = Value::Object(out);
            proof {
                reveal_with_fuel(<Value as View>::view, 2);
                assert forall|j: int| 0 <= j < o.len() implies r@->Object_0[j] == v@->Object_0[j] by {
                    assert(out[j].0@ == o[j].0@);
                }
                assert(r@->Object_0 =~= v@->Object_0);
            }
            r
        },
    }
}

/// A copy of a document.
pub fn clone_document(d: &Document) -> (r: Document)
    ensures
        document_view(r@) == document_view(d@),
{
    let mut out: Document = Vec::new();
    let mut i: usize = 0;
    while i < d.len()
        invariant
            i <= d.len(),
            out.len() == i,
            forall|j: int| 0 <= j < i ==> (#[trigger] out[j]).0@ == d[j].0@ && out[j].1@ == d[j].1@,
        decreases d.len() - i,
    {
        out.push((d[i].0.clone(), clone_value(&d[i].1)));
        i = i + 1;
    }
    proof {
        assert(document_view(out@) =~= document_view(d@));
    }
    out
}

} // verus!
