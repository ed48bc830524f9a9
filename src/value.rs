use vstd::prelude::*;
use vstd::string::*;

use crate::errors::DynarustError;

verus! {

/// A semi-structured value as the logic sees it.
pub enum ValueModel {
    Null,
    Bool(bool),
    /// A number, held as its decimal text.
    Number(Seq<char>),
    Str(Seq<char>),
    List(Seq<ValueModel>),
    Object(Seq<(Seq<char>, ValueModel)>),
}

/// A typed wire attribute as the logic sees it.
pub enum AttributeModel {
    S(Seq<char>),
    N(Seq<char>),
    Bool(bool),
    Null(bool),
    L(Seq<AttributeModel>),
    M(Seq<(Seq<char>, AttributeModel)>),
    Unsupported,
}

/// A semi-structured value: the six shapes a resource is made of.
/// Numbers are held as decimal text, so that no precision is lost inside the library.
#[derive(Debug, PartialEq, Eq)]
pub enum Value {
    Null,
    Bool(bool),
    Number(String),
    Str(String),
    List(Vec<Value>),
    /// Fields in order; a field name occurs once.
    Object(Vec<(String, Value)>),
}

/// A typed attribute of the store's wire format.
#[derive(Debug, PartialEq, Eq)]
pub enum Attribute {
    /// A string.
    S(String),
    /// A number, as decimal text.
    N(String),
    Bool(bool),
    Null(bool),
    /// An ordered list.
    L(Vec<Attribute>),
    /// A map from field names to attributes.
    M(Vec<(String, Attribute)>),
    /// A wire kind that the document model has no shape for (binary, sets, ...),
    /// named by its kind.
    Unsupported(String),
}

/// A document: the generic form of a resource, its fields in insertion order.
pub type Document = Vec<(String, Value)>;

/// An item of the store: its attributes in the order they were set.
pub type Item = Vec<(String, Attribute)>;

impl View for Value {
    type V = ValueModel;

    open spec fn view(&self) -> ValueModel
        decreases self,
    {
        match self {
            Value::Null => ValueModel::Null,
            Value::Bool(b) => ValueModel::Bool(*b),
            Value::Number(t) => ValueModel::Number(t@),
            Value::Str(s) => ValueModel::Str(s@),
            Value::List(l) => ValueModel::List(
                Seq::new(
                    l.len() as nat,
                    |i: int|
                        if 0 <= i < l.len() {
                            l[i].view()
                        } else {
                            ValueModel::Null
                        },
                ),
            ),
            Value::Object(o) => ValueModel::Object(
                Seq::new(
                    o.len() as nat,
                    |i: int|
                        if 0 <= i < o.len() {
                            (o[i].0@, o[i].1.view())
                        } else {
                            (Seq::empty(), ValueModel::Null)
                        },
                ),
            ),
        }
    }
}

impl View for Attribute {
    type V = AttributeModel;

    open spec fn view(&self) -> AttributeModel
        decreases self,
    {
        match self {
            Attribute::S(s) => AttributeModel::S(s@),
            Attribute::N(t) => AttributeModel::N(t@),
            Attribute::Bool(b) => AttributeModel::Bool(*b),
            Attribute::Null(b) => AttributeModel::Null(*b),
            Attribute::L(l) => AttributeModel::L(
                Seq::new(
                    l.len() as nat,
                    |i: int|
                        if 0 <= i < l.len() {
                            l[i].view()
                        } else {
                            AttributeModel::Unsupported
                        },
                ),
            ),
            Attribute::M(m) => AttributeModel::M(
                Seq::new(
                    m.len() as nat,
                    |i: int|
                        if 0 <= i < m.len() {
                            (m[i].0@, m[i].1.view())
                        } else {
                            (Seq::empty(), AttributeModel::Unsupported)
                        },
                ),
            ),
            Attribute::Unsupported(_) => AttributeModel::Unsupported,
        }
    }
}

/// The model of a document.
pub open spec fn document_view(d: Seq<(String, Value)>) -> Seq<(Seq<char>, ValueModel)> {
    Seq::new(d.len(), |i: int| (d[i].0@, d[i].1@))
}

/// The model of an item.
pub open spec fn item_view(d: Seq<(String, Attribute)>) -> Seq<(Seq<char>, AttributeModel)> {
    Seq::new(d.len(), |i: int| (d[i].0@, d[i].1@))
}

/// How a value crosses to the wire: each shape to its attribute kind, recursively.
pub open spec fn encode_value(v: ValueModel) -> AttributeModel
    decreases v,
{
    match v {
        ValueModel::Null => AttributeModel::Null(true),
        ValueModel::Bool(b) => AttributeModel::Bool(b),
        ValueModel::Number(t) => AttributeModel::N(t),
        ValueModel::Str(s) => AttributeModel::S(s),
        ValueModel::List(l) => AttributeModel::L(
            Seq::new(
                l.len(),
                |i: int|
                    if 0 <= i < l.len() {
                        encode_value(l[i])
                    } else {
                        AttributeModel::Unsupported
                    },
            ),
        ),
        ValueModel::Object(o) => AttributeModel::M(
            Seq::new(
                o.len(),
                |i: int|
                    if 0 <= i < o.len() {
                        (o[i].0, encode_value(o[i].1))
                    } else {
                        (Seq::empty(), AttributeModel::Unsupported)
                    },
            ),
        ),
    }
}

/// Encodes every field of a document, keeping names and order.
pub open spec fn encode_fields(d: Seq<(Seq<char>, ValueModel)>) -> Seq<(Seq<char>, AttributeModel)> {
    Seq::new(d.len(), |i: int| (d[i].0, encode_value(d[i].1)))
}

/// Encodes a value for the wire. Encoding is total: each of the six shapes has its
/// attribute kind.
pub fn value_to_attribute(v: &Value) -> (r: Attribute)
    ensures
        r@ == encode_value(v@),
    decreases v,
{
    match v {
        Value::Null => {
            proof {
                assert(v@ == ValueModel::Null);
            }
            Attribute::Null(true)
        },
        Value::Bool(b) => Attribute::Bool(*b),
        Value::Number(t) => Attribute::N(t.clone()),
        Value::Str(s) => Attribute::S(s.clone()),
        Value::List(l) => {
            let mut out: Vec<Attribute> = Vec::new();
            let mut i: usize = 0;
            while i < l.len()
                invariant
                    *v == Value::List(*l),
                    i <= l.len(),
                    out.len() == i,
                    forall|j: int| 0 <= j < i ==> (#[trigger] out[j])@ == encode_value(l[j]@),
                decreases l.len() - i,
            {
                proof {
                    assert(decreases_to!(*v => (*v)->List_0));
                    assert(decreases_to!(*l => l[i as int]));
                }
                let a = value_to_attribute(&l[i]);
                out.push(a);
                i = i + 1;
            }
            let r = Attribute::L(out);
            proof {
                reveal_with_fuel(<Value as View>::view, 2);
                reveal_with_fuel(<Attribute as View>::view, 2);
                if let ValueModel::List(lm) = v@ {
                    if let AttributeModel::L(rm) = r@ {
                        assert(rm =~= encode_value(v@)->L_0);
                    }
                }
                assert(r@ == encode_value(v@));
            }
            r
        },
        Value::Object(o) => {
            proof {
                reveal_with_fuel(<Value as View>::view, 2);
            }
            let mut out: Vec<(String, Attribute)> = Vec::new();
            let mut i: usize = 0;
            while i < o.len()
                invariant
                    *v == Value::Object(*o),
                    i <= o.len(),
                    out.len() == i,
                    forall|j: int|
                        0 <= j < i ==> (#[trigger] out[j]).0@ == o[j].0@ && out[j].1@
                            == encode_value(o[j].1@),
                decreases o.len() - i,
            {
                proof {
                    assert(decreases_to!(*v => (*v)->Object_0));
                    assert(decreases_to!(*o => o[i as int]));
                    assert(decreases_to!(o[i as int] => o[i as int].1));
                }
                let a = value_to_attribute(&o[i].1);
                out.push((o[i].0.clone(), a));
                i = i + 1;
            }
            let r = Attribute::M(out);
            proof {
                reveal_with_fuel(<Value as View>::view, 2);
                reveal_with_fuel(<Attribute as View>::view, 2);
                if let ValueModel::Object(om) = v@ {
                    if let AttributeModel::M(rm) = r@ {
                        assert forall|k: int| 0 <= k < rm.len() implies rm[k] == (
                            om[k].0,
                            encode_value(om[k].1),
                        ) by {
                            assert(out[k].0@ == o[k].0@);
                        }
                        assert(rm =~= encode_value(v@)->M_0);
                    }
                }
                assert(r@ == encode_value(v@));
            }
            r
        },
    }
}

/// The canonical text of the number that a decimal text parses to, or nothing where the
/// text is not a number.
pub uninterp spec fn number_text(s: Seq<char>) -> Option<Seq<char>>;

/// Relies on `serde_json::Number`'s `FromStr` to parse a JSON number and its `Display` to
/// print it back; the outcome depends on the text alone.
#[verifier::external_body]
fn parse_number(s: &str) -> (r: Option<String>)
    ensures
        match r {
            Some(t) => number_text(s@) == Some(t@),
            None => number_text(s@) is None,
        },
{
    match s.parse::<serde_json::Number>() {
        Ok(n) => Some(n.to_string()),
        Err(_) => None,
    }
}

/// How a wire attribute is read back: each supported kind to its shape, numbers through
/// their canonical text; nothing where any part is of an unsupported kind or is a number
/// that does not parse.
pub open spec fn decode_attribute(a: AttributeModel) -> Option<ValueModel>
    decreases a,
{
    match a {
        AttributeModel::S(s) => Some(ValueModel::Str(s)),
        AttributeModel::N(t) => match number_text(t) {
            Some(c) => Some(ValueModel::Number(c)),
            None => None,
        },
        AttributeModel::Bool(b) => Some(ValueModel::Bool(b)),
        AttributeModel::Null(_) => Some(ValueModel::Null),
        AttributeModel::L(l) => match decode_list(l) {
            Some(vs) => Some(ValueModel::List(vs)),
            None => None,
        },
        AttributeModel::M(m) => match decode_map(m) {
            Some(fs) => Some(ValueModel::Object(fs)),
            None => None,
        },
        AttributeModel::Unsupported => None,
    }
}

/// Reads back every attribute of a list, or nothing where one of them cannot be read.
pub open spec fn decode_list(l: Seq<AttributeModel>) -> Option<Seq<ValueModel>>
    decreases l,
{
    if l.len() == 0 {
        Some(Seq::empty())
    } else {
        match (decode_list(l.subrange(0, l.len() - 1)), decode_attribute(l[l.len() - 1])) {
            (Some(p), Some(x)) => Some(p.push(x)),
            _ => None,
        }
    }
}

/// Reads back every field of a map, keeping names and order, or nothing where one of them
/// cannot be read.
pub open spec fn decode_map(m: Seq<(Seq<char>, AttributeModel)>) -> Option<
    Seq<(Seq<char>, ValueModel)>,
>
    decreases m,
{
    if m.len() == 0 {
        Some(Seq::empty())
    } else {
        match (decode_map(m.subrange(0, m.len() - 1)), decode_attribute(m[m.len() - 1].1)) {
            (Some(p), Some(x)) => Some(p.push((m[m.len() - 1].0, x))),
            _ => None,
        }
    }
}

proof fn lemma_decode_list_prefix_fails(l: Seq<AttributeModel>, i: int)
    requires
        0 <= i <= l.len(),
        decode_list(l.subrange(0, i)) is None,
    ensures
        decode_list(l) is None,
    decreases l.len() - i,
{
    if i < l.len() {
        assert(l.subrange(0, i + 1).subrange(0, i) =~= l.subrange(0, i));
        lemma_decode_list_prefix_fails(l, i + 1);
    } else {
        assert(l.subrange(0, i) =~= l);
    }
}

proof fn lemma_decode_map_prefix_fails(m: Seq<(Seq<char>, AttributeModel)>, i: int)
    requires
        0 <= i <= m.len(),
        decode_map(m.subrange(0, i)) is None,
    ensures
        decode_map(m) is None,
    decreases m.len() - i,
{
    if i < m.len() {
        assert(m.subrange(0, i + 1).subrange(0, i) =~= m.subrange(0, i));
        lemma_decode_map_prefix_fails(m, i + 1);
    } else {
        assert(m.subrange(0, i) =~= m);
    }
}

/// Whether `r` is what decoding gives for an attribute whose reading is `d`.
pub open spec fn decoded_as(r: Result<Value, DynarustError>, d: Option<ValueModel>) -> bool {
    match d {
        Some(v) => r is Ok && r->Ok_0@ == v,
        None => r is Err && r->Err_0 is AttributeParseError,
    }
}

fn parse_error(prefix: &str, detail: &str) -> (r: DynarustError)
    ensures
        r is AttributeParseError,
{
    DynarustError::AttributeParseError(String::from_str(prefix).concat(detail))
}

/// Decodes a wire attribute; fails with `AttributeParseError` exactly where some part of
/// it is of an unsupported kind or is a number that does not parse.
pub fn attribute_to_value(a: &Attribute) -> (r: Result<Value, DynarustError>)
    ensures
        decoded_as(r, decode_attribute(a@)),
    decreases a,
{
    match a {
        Attribute::S(s) => Ok(Value::Str(s.clone())),
        Attribute::N(t) => match parse_number(t.as_str()) {
            Some(c) => Ok(Value::Number(c)),
            None => Err(parse_error("invalid number ", t.as_str())),
        },
        Attribute::Bool(b) => Ok(Value::Bool(*b)),
        Attribute::Null(_) => Ok(Value::Null),
        Attribute::L(l) => {
            let ghost lm = a@->L_0;
            proof {
                reveal_with_fuel(<Attribute as View>::view, 2);
                assert(lm.len() == l.len());
                assert(forall|j: int| 0 <= j < l.len() ==> lm[j] == (#[trigger] l[j])@);
            }
            let mut out: Vec<Value> = Vec::new();
            let mut i: usize = 0;
            while i < l.len()
                invariant
                    *a == Attribute::L(*l),
                    lm == a@->L_0,
                    lm.len() == l.len(),
                    forall|j: int| 0 <= j < l.len() ==> lm[j] == (#[trigger] l[j])@,
                    i <= l.len(),
                    out.len() == i,
                    decode_list(lm.subrange(0, i as int)) is Some,
                    forall|j: int|
                        0 <= j < i ==> (#[trigger] out[j])@ == decode_list(
                            lm.subrange(0, i as int),
                        )->Some_0[j],
                    decode_list(lm.subrange(0, i as int))->Some_0.len() == i,
                decreases l.len() - i,
            {
                proof {
                    assert(decreases_to!(*a => (*a)->L_0));
                    assert(decreases_to!(*l => l[i as int]));
                    assert(lm.subrange(0, i + 1).subrange(0, i as int) =~= lm.subrange(0, i as int));
                    assert(lm.subrange(0, i + 1)[i as int] == l[i as int]@);
                }
                match attribute_to_value(&l[i]) {
                    Ok(v) => {
                        out.push(v);
                    },
                    Err(e) => {
                        proof {
                            lemma_decode_list_prefix_fails(lm, i + 1);
                        }
                        return Err(e);
                    },
                }
                i = i + 1;
            }
            let r = Value::List(out);
            proof {
                reveal_with_fuel(<Value as View>::view, 2);
                assert(lm.subrange(0, l.len() as int) =~= lm);
                assert(r@->List_0 =~= decode_list(lm)->Some_0);
            }
            Ok(r)
        },
        Attribute::M(m) => {
            let ghost mm = a@->M_0;
            proof {
                reveal_with_fuel(<Attribute as View>::view, 2);
                assert(mm.len() == m.len());
                assert(forall|j: int|
                    0 <= j < m.len() ==> mm[j] == ((#[trigger] m[j]).0@, m[j].1@));
            }
            let mut out: Vec<(String, Value)> = Vec::new();
            let mut i: usize = 0;
            while i < m.len()
                invariant
                    *a == Attribute::M(*m),
                    mm == a@->M_0,
                    mm.len() == m.len(),
                    forall|j: int| 0 <= j < m.len() ==> mm[j] == ((#[trigger] m[j]).0@, m[j].1@),
                    i <= m.len(),
                    out.len() == i,
                    decode_map(mm.subrange(0, i as int)) is Some,
                    forall|j: int|
                        0 <= j < i ==> ((#[trigger] out[j]).0@, out[j].1@) == decode_map(
                            mm.subrange(0, i as int),
                        )->Some_0[j],
                    decode_map(mm.subrange(0, i as int))->Some_0.len() == i,
                decreases m.len() - i,
            {
                proof {
                    assert(decreases_to!(*a => (*a)->M_0));
                    assert(decreases_to!(*m => m[i as int]));
                    assert(decreases_to!(m[i as int] => m[i as int].1));
                    assert(mm.subrange(0, i + 1).subrange(0, i as int) =~= mm.subrange(0, i as int));
                    assert(mm.subrange(0, i + 1)[i as int] == (m[i as int].0@, m[i as int].1@));
                }
                match attribute_to_value(&m[i].1) {
                    Ok(v) => {
                        out.push((m[i].0.clone(), v));
                    },
                    Err(e) => {
                        proof {
                            lemma_decode_map_prefix_fails(mm, i + 1);
                        }
                        return Err(e);
                    },
                }
                i = i + 1;
            }
            let r = Value::Object(out);
            proof {
                reveal_with_fuel(<Value as View>::view, 2);
                assert(mm.subrange(0, m.len() as int) =~= mm);
                assert(r@->Object_0 =~= decode_map(mm)->Some_0);
            }
            Ok(r)
        },
        Attribute::Unsupported(kind) => Err(
            parse_error("Error parsing attribute value ", kind.as_str()),
        ),
    }
}

/// Whether every number inside a value is already written the way reading it back
/// writes it.
pub open spec fn canonical(v: ValueModel) -> bool
    decreases v,
{
    match v {
        ValueModel::Number(t) => number_text(t) == Some(t),
        ValueModel::List(l) => canonical_list(l),
        ValueModel::Object(o) => canonical_fields(o),
        _ => true,
    }
}

/// Whether every value of a list is canonical.
pub open spec fn canonical_list(l: Seq<ValueModel>) -> bool
    decreases l,
{
    l.len() == 0 || (canonical_list(l.subrange(0, l.len() - 1)) && canonical(l[l.len() - 1]))
}

/// Whether every field value of a document is canonical.
pub open spec fn canonical_fields(o: Seq<(Seq<char>, ValueModel)>) -> bool
    decreases o,
{
    o.len() == 0 || (canonical_fields(o.subrange(0, o.len() - 1)) && canonical(o[o.len() - 1].1))
}

/// Decoding undoes encoding: a value whose numbers are canonical comes back unchanged
/// from the wire.
pub proof fn lemma_round_trip(v: ValueModel)
    requires
        canonical(v),
    ensures
        decode_attribute(encode_value(v)) == Some(v),
    decreases v,
{
    match v {
        ValueModel::List(l) => {
            lemma_round_trip_list(l);
        },
        ValueModel::Object(o) => {
            lemma_round_trip_fields(o);
            assert(encode_value(v)->M_0 =~= encode_fields(o));
        },
        _ => {},
    }
}

proof fn lemma_round_trip_list(l: Seq<ValueModel>)
    requires
        canonical_list(l),
    ensures
        decode_list(encode_value(ValueModel::List(l))->L_0) == Some(l),
    decreases l,
{
    let e = encode_value(ValueModel::List(l))->L_0;
    if l.len() == 0 {
        assert(e =~= Seq::<AttributeModel>::empty());
    } else {
        let n = l.len() - 1;
        let front = l.subrange(0, n);
        lemma_round_trip_list(front);
        lemma_round_trip(l[n]);
        assert(e.subrange(0, n) =~= encode_value(ValueModel::List(front))->L_0);
        assert(front.push(l[n]) =~= l);
    }
}

/// Encoding a document field by field and reading it back gives the same document, where
/// its numbers are canonical.
pub proof fn lemma_round_trip_fields(d: Seq<(Seq<char>, ValueModel)>)
    requires
        canonical_fields(d),
    ensures
        decode_map(encode_fields(d)) == Some(d),
    decreases d,
{
    let e = encode_fields(d);
    if d.len() == 0 {
        assert(e =~= Seq::<(Seq<char>, AttributeModel)>::empty());
    } else {
        let n = d.len() - 1;
        let front = d.subrange(0, n);
        lemma_round_trip_fields(front);
        lemma_round_trip(d[n].1);
        assert(e.subrange(0, n) =~= encode_fields(front));
        assert(front.push((d[n].0, d[n].1)) =~= d);
    }
}

/// Encodes every field of a document for the wire, keeping names and order.
pub fn encode_document(doc: &Document) -> (r: Item)
    ensures
        item_view(r@) == encode_fields(document_view(doc@)),
{
    let mut out: Item = Vec::new();
    let mut i: usize = 0;
    while i < doc.len()
        invariant
            i <= doc.len(),
            out.len() == i,
            forall|j: int|
                0 <= j < i ==> (#[trigger] out[j]).0@ == doc[j].0@ && out[j].1@ == encode_value(
                    doc[j].1@,
                ),
        decreases doc.len() - i,
    {
        let a = value_to_attribute(&doc[i].1);
        out.push((doc[i].0.clone(), a));
        i = i + 1;
    }
    proof {
        assert(item_view(out@) =~= encode_fields(document_view(doc@)));
    }
    out
}

/// Reads an item of the store back into a document; fails with `AttributeParseError`
/// exactly where one of its attributes cannot be read.
pub fn decode_item(item: &Item) -> (r: Result<Document, DynarustError>)
    ensures
        match decode_map(item_view(item@)) {
            Some(d) => r is Ok && document_view(r->Ok_0@) == d,
            None => r is Err && r->Err_0 is AttributeParseError,
        },
{
    let ghost mm = item_view(item@);
    let mut out: Document = Vec::new();
    let mut i: usize = 0;
    while i < item.len()
        invariant
            mm == item_view(item@),
            i <= item.len(),
            out.len() == i,
            decode_map(mm.subrange(0, i as int)) is Some,
            document_view(out@) == decode_map(mm.subrange(0, i as int))->Some_0,
        decreases item.len() - i,
    {
        proof {
            assert(mm.subrange(0, i + 1).subrange(0, i as int) =~= mm.subrange(0, i as int));
            assert(mm.subrange(0, i + 1)[i as int] == (item[i as int].0@, item[i as int].1@));
        }
        match attribute_to_value(&item[i].1) {
            Ok(v) => {
                out.push((item[i].0.clone(), v));
                proof {
                    assert(document_view(out@) =~= decode_map(mm.subrange(0, i + 1))->Some_0);
                }
            },
            Err(e) => {
                proof {
                    lemma_decode_map_prefix_fails(mm, i + 1);
                }
                return Err(e);
            },
        }
        i = i + 1;
    }
    proof {
        assert(mm.subrange(0, item.len() as int) =~= mm);
    }
    Ok(out)
}

} // verus!
