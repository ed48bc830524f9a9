use dynarust::condition::is_single_group_exec;
use dynarust::text::{i64_to_text, u64_to_text};
use dynarust::value::Attribute;
use dynarust::{
    condition_check_exists, condition_check_not_exists, condition_check_number,
    condition_check_number_with_seed, condition_check_string, condition_check_string_with_seed,
    ConditionCheckInfo, DynamoOperator, PK, SK,
};

fn s(x: &str) -> String {
    x.to_string()
}

fn fragment(expression: &str) -> ConditionCheckInfo {
    ConditionCheckInfo::default().condition_expression(s(expression))
}

#[test]
fn exists_checks_both_keys() {
    let c = condition_check_exists();
    assert_eq!(c.expression, "attribute_exists(#pk) and attribute_exists(#sk)");
    assert_eq!(c.names, vec![(s("#pk"), s(PK)), (s("#sk"), s(SK))]);
    assert!(c.values.is_empty());
    let n = condition_check_not_exists();
    assert_eq!(
        n.expression,
        "attribute_not_exists(#pk) and attribute_not_exists(#sk)"
    );
    assert_eq!(n.names, vec![(s("#pk"), s("PrimaryKey")), (s("#sk"), s("SecondaryKey"))]);
}

#[test]
fn operators_are_written_as_symbols() {
    assert_eq!(DynamoOperator::Eq.symbol(), "=");
    assert_eq!(DynamoOperator::NEq.symbol(), "<>");
    assert_eq!(DynamoOperator::Gt.symbol(), ">");
    assert_eq!(DynamoOperator::GtEq.symbol(), ">=");
    assert_eq!(DynamoOperator::Ls.symbol(), "<");
    assert_eq!(DynamoOperator::LsEq.symbol(), "<=");
}

#[test]
fn number_check_uses_seed_for_both_placeholders() {
    let c = condition_check_number_with_seed("abc1234", "int", DynamoOperator::NEq, 1);
    assert_eq!(c.expression, "#abc1234 <> :abc1234");
    assert_eq!(c.names, vec![(s("#abc1234"), s("int"))]);
    assert_eq!(c.values, vec![(s(":abc1234"), Attribute::N(s("1")))]);
    let neg = condition_check_number_with_seed("x", "n", DynamoOperator::Gt, -9007);
    assert_eq!(neg.values, vec![(s(":x"), Attribute::N(s("-9007")))]);
}

#[test]
fn string_check_carries_string_value() {
    let c = condition_check_string_with_seed("q", "name", DynamoOperator::Eq, "John");
    assert_eq!(c.expression, "#q = :q");
    assert_eq!(c.values, vec![(s(":q"), Attribute::S(s("John")))]);
}

#[test]
fn random_seed_is_seven_alphanumerics() {
    let c = condition_check_number("int", DynamoOperator::Gt, 1);
    let name = &c.names[0].0;
    assert_eq!(name.len(), 8);
    let seed = &name[1..];
    assert!(seed.chars().all(|ch| ch.is_ascii_alphanumeric()));
    assert_eq!(c.expression, format!("#{} > :{}", seed, seed));
    let other = condition_check_string("name", DynamoOperator::Eq, "x");
    assert_eq!(other.names[0].0.len(), 8);
}

#[test]
fn merge_into_empty_base_yields_fragment_unchanged() {
    let f = condition_check_number_with_seed("k", "int", DynamoOperator::Eq, 3);
    let merged = ConditionCheckInfo::default().merge(vec![f]);
    let expected = condition_check_number_with_seed("k", "int", DynamoOperator::Eq, 3);
    assert_eq!(merged, expected);
}

#[test]
fn merge_does_not_wrap_single_group_base_twice() {
    let merged = fragment("(a = b)").merge(vec![fragment("c = d")]);
    assert_eq!(merged.expression, "(a = b) and (c = d)");
    let again = fragment("(a)").merge(vec![fragment("(b)")]);
    assert_eq!(again.expression, "(a) and (b)");
}

#[test]
fn merge_wraps_compound_operands_and_joins_placeholders() {
    let check = condition_check_number_with_seed("s", "int", DynamoOperator::Gt, 1);
    let merged = condition_check_not_exists().merge(vec![check]);
    assert_eq!(
        merged.expression,
        "(attribute_not_exists(#pk) and attribute_not_exists(#sk)) and (#s > :s)"
    );
    assert_eq!(
        merged.names,
        vec![(s("#pk"), s(PK)), (s("#sk"), s(SK)), (s("#s"), s("int"))]
    );
    assert_eq!(merged.values, vec![(s(":s"), Attribute::N(s("1")))]);
    let twice = fragment("(a) and (b)").merge(vec![fragment("c")]);
    assert_eq!(twice.expression, "((a) and (b)) and (c)");
}

#[test]
fn merge_skips_empty_fragments() {
    let merged = fragment("a").merge(vec![ConditionCheckInfo::default(), fragment("b")]);
    assert_eq!(merged.expression, "(a) and (b)");
    assert_eq!(ConditionCheckInfo::default().merge(vec![]).expression, "");
}

#[test]
fn single_group_detection() {
    assert!(is_single_group_exec("(a)"));
    assert!(is_single_group_exec("((a) and (b))"));
    assert!(!is_single_group_exec("(a) and (b)"));
    assert!(!is_single_group_exec("a"));
    assert!(!is_single_group_exec("()x"));
    assert!(!is_single_group_exec("("));
    assert!(!is_single_group_exec("(a))"));
}

#[test]
fn empty_fragment_attaches_no_condition() {
    assert!(ConditionCheckInfo::default().into_condition().is_none());
    assert!(fragment("a").into_condition().is_some());
}

#[test]
fn decimal_text() {
    assert_eq!(u64_to_text(0), "0");
    assert_eq!(u64_to_text(1234567890), "1234567890");
    assert_eq!(u64_to_text(u64::MAX), u64::MAX.to_string());
    assert_eq!(i64_to_text(-5), "-5");
    assert_eq!(i64_to_text(i64::MIN), i64::MIN.to_string());
    assert_eq!(i64_to_text(i64::MAX), i64::MAX.to_string());
}
