use dynarust::value::{
    attribute_to_value, decode_item, encode_document, value_to_attribute, Attribute, Document,
    Value,
};
use dynarust::DynarustError;

fn s(x: &str) -> String {
    x.to_string()
}

fn sample_document() -> Document {
    vec![
        (s("string"), Value::Str(s("text"))),
        (s("int"), Value::Number(s("-42"))),
        (s("float"), Value::Number(s("0.0001"))),
        (s("bool"), Value::Bool(true)),
        (s("nullable"), Value::Null),
        (
            s("string_arr"),
            Value::List(vec![Value::Str(s("foo")), Value::Str(s("bar"))]),
        ),
        (
            s("nested"),
            Value::Object(vec![
                (s("code"), Value::Number(s("1"))),
                (s("msg"), Value::Str(s("foo"))),
            ]),
        ),
    ]
}

#[test]
fn encodes_each_shape_to_its_kind() {
    assert_eq!(value_to_attribute(&Value::Str(s("a"))), Attribute::S(s("a")));
    assert_eq!(value_to_attribute(&Value::Number(s("12"))), Attribute::N(s("12")));
    assert_eq!(value_to_attribute(&Value::Bool(false)), Attribute::Bool(false));
    assert_eq!(value_to_attribute(&Value::Null), Attribute::Null(true));
    assert_eq!(
        value_to_attribute(&Value::List(vec![Value::Null, Value::Str(s("x"))])),
        Attribute::L(vec![Attribute::Null(true), Attribute::S(s("x"))])
    );
    assert_eq!(
        value_to_attribute(&Value::Object(vec![(s("k"), Value::Bool(true))])),
        Attribute::M(vec![(s("k"), Attribute::Bool(true))])
    );
}

#[test]
fn document_round_trips_through_the_wire() {
    let doc = sample_document();
    let item = encode_document(&doc);
    assert_eq!(item.len(), doc.len());
    assert_eq!(item[1], (s("int"), Attribute::N(s("-42"))));
    let back = decode_item(&item).unwrap();
    assert_eq!(back, doc);
}

#[test]
fn empty_document_round_trips() {
    let doc: Document = vec![];
    let item = encode_document(&doc);
    assert!(item.is_empty());
    assert_eq!(decode_item(&item).unwrap(), doc);
}

#[test]
fn numbers_are_read_back_in_canonical_form() {
    assert_eq!(
        attribute_to_value(&Attribute::N(s("1.50"))).unwrap(),
        Value::Number(s("1.5"))
    );
    assert_eq!(
        attribute_to_value(&Attribute::N(s("7"))).unwrap(),
        Value::Number(s("7"))
    );
}

#[test]
fn null_attribute_reads_as_null_whatever_its_flag() {
    assert_eq!(attribute_to_value(&Attribute::Null(false)).unwrap(), Value::Null);
}

#[test]
fn invalid_number_fails_to_parse() {
    let err = attribute_to_value(&Attribute::N(s("abc"))).unwrap_err();
    assert!(matches!(err, DynarustError::AttributeParseError(_)));
    assert_eq!(err.message(), "Attribute parse error: invalid number abc");
}

#[test]
fn unsupported_kind_fails_even_when_nested() {
    let nested = Attribute::M(vec![(
        s("bin"),
        Attribute::L(vec![Attribute::S(s("ok")), Attribute::Unsupported(s("B"))]),
    )]);
    let err = attribute_to_value(&nested).unwrap_err();
    assert!(matches!(err, DynarustError::AttributeParseError(_)));
    let item = vec![(s("a"), Attribute::S(s("x"))), (s("b"), Attribute::Unsupported(s("SS")))];
    assert!(matches!(
        decode_item(&item),
        Err(DynarustError::AttributeParseError(_))
    ));
}
