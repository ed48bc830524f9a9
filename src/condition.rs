use rand::Rng;
use vstd::prelude::*;
use vstd::string::*;

use crate::text::{i64_to_text, int_text};
use crate::value::{item_view, Attribute, AttributeModel};

verus! {

/// The attribute that holds an item's partition key.
pub const PK: &'static str = "PrimaryKey";

/// The attribute that holds an item's sort key.
pub const SK: &'static str = "SecondaryKey";

/// Operator for comparing a field to a value.
#[derive(Clone, Copy, Debug, PartialEq, Eq)]
pub enum DynamoOperator {
    /// Equals.
    Eq,
    /// Not equals.
    NEq,
    /// Greater.
    Gt,
    /// Greater or equal.
    GtEq,
    /// Less than.
    Ls,
    /// Less or equal.
    LsEq,
}

/// How an operator is written in an expression.
pub open spec fn operator_symbol(op: DynamoOperator) -> Seq<char> {
    match op {
        DynamoOperator::Eq => "="@,
        DynamoOperator::NEq => "<>"@,
        DynamoOperator::Gt => ">"@,
        DynamoOperator::GtEq => ">="@,
        DynamoOperator::Ls => "<"@,
        DynamoOperator::LsEq => "<="@,
    }
}

impl DynamoOperator {
    /// The operator as it is written in an expression.
    pub fn symbol(&self) -> (r: &'static str)
        ensures
            r@ == operator_symbol(*self),
    {
        match self {
            DynamoOperator::Eq => "=",
            DynamoOperator::NEq => "<>",
            DynamoOperator::Gt => ">",
            DynamoOperator::GtEq => ">=",
            DynamoOperator::Ls => "<",
            DynamoOperator::LsEq => "<=",
        }
    }
}

/// A condition fragment as the logic sees it.
pub struct ConditionModel {
    pub expression: Seq<char>,
    pub names: Seq<(Seq<char>, Seq<char>)>,
    pub values: Seq<(Seq<char>, AttributeModel)>,
}

/// A boolean precondition on an item: an expression, with the field names and the values
/// that its placeholders stand for. The side lists are read in order, so a later entry for
/// a placeholder replaces an earlier one.
#[derive(Debug, PartialEq, Eq)]
pub struct ConditionCheckInfo {
    pub expression: String,
    pub names: Vec<(String, String)>,
    pub values: Vec<(String, Attribute)>,
}

/// The model of a list of placeholder names.
pub open spec fn names_view(n: Seq<(String, String)>) -> Seq<(Seq<char>, Seq<char>)> {
    Seq::new(n.len(), |i: int| (n[i].0@, n[i].1@))
}

impl View for ConditionCheckInfo {
    type V = ConditionModel;

    open spec fn view(&self) -> ConditionModel {
        ConditionModel {
            expression: self.expression@,
            names: names_view(self.names@),
            values: item_view(self.values@),
        }
    }
}

/// The fragment that asks nothing.
pub open spec fn empty_condition() -> ConditionModel {
    ConditionModel { expression: Seq::empty(), names: Seq::empty(), values: Seq::empty() }
}

impl Default for ConditionCheckInfo {
    fn default() -> (r: Self)
        ensures
            r@ == empty_condition(),
    {
        let r = ConditionCheckInfo {
            expression: String::new(),
            names: Vec::new(),
            values: Vec::new(),
        };
        proof {
            assert(r@.names =~= Seq::<(Seq<char>, Seq<char>)>::empty());
            assert(r@.values =~= Seq::<(Seq<char>, AttributeModel)>::empty());
        }
        r
    }
}

/// The depth of parentheses at the end of `s`: opened minus closed.
pub open spec fn paren_depth(s: Seq<char>) -> int
    decreases s.len(),
{
    if s.len() == 0 {
        0
    } else {
        paren_depth(s.drop_last()) + if s.last() == '(' {
            1int
        } else if s.last() == ')' {
            -1int
        } else {
            0int
        }
    }
}

/// Whether `s` is one parenthesized group: it opens with `(` and the parenthesis that
/// closes that one is its last character.
pub open spec fn is_single_group(s: Seq<char>) -> bool {
    &&& s.len() >= 2
    &&& s[0] == '('
    &&& paren_depth(s) == 0
    &&& forall|k: int| 1 <= k < s.len() ==> paren_depth(#[trigger] s.subrange(0, k)) > 0
}

/// An operand of a conjunction, parenthesized unless it is one group already.
pub open spec fn as_operand(e: Seq<char>) -> Seq<char> {
    if is_single_group(e) {
        e
    } else {
        "("@ + e + ")"@
    }
}

/// The conjunction of two expressions; an empty expression asks nothing and drops out.
pub open spec fn conjoin(acc: Seq<char>, e: Seq<char>) -> Seq<char> {
    if e.len() == 0 {
        acc
    } else if acc.len() == 0 {
        e
    } else {
        as_operand(acc) + " and "@ + as_operand(e)
    }
}

/// Folds fragments into a base, in order: expressions conjoined, side lists concatenated.
pub open spec fn merge_all(base: ConditionModel, others: Seq<ConditionModel>) -> ConditionModel
    decreases others.len(),
{
    if others.len() == 0 {
        base
    } else {
        let acc = merge_all(base, others.drop_last());
        let o = others.last();
        ConditionModel {
            expression: conjoin(acc.expression, o.expression),
            names: acc.names + o.names,
            values: acc.values + o.values,
        }
    }
}

/// The models of a list of fragments.
pub open spec fn conditions_view(v: Seq<ConditionCheckInfo>) -> Seq<ConditionModel> {
    Seq::new(v.len(), |i: int| v[i]@)
}

/// Whether `s` is one parenthesized group.
pub fn is_single_group_exec(s: &str) -> (r: bool)
    ensures
        r == is_single_group(s@),
{
    let n = s.unicode_len();
    if n < 2 {
        return false;
    }
    if s.get_char(0) != '(' {
        return false;
    }
    let mut depth: usize = 0;
    let mut i: usize = 0;
    while i < n
        invariant
            n == s@.len(),
            n >= 2,
            s@[0] == '(',
            i <= n,
            depth <= i,
            depth as int == paren_depth(s@.subrange(0, i as int)),
            forall|k: int| 1 <= k <= i && k < n ==> paren_depth(#[trigger] s@.subrange(0, k)) > 0,
        decreases n - i,
    {
        let c = s.get_char(i);
        proof {
            assert(s@.subrange(0, i + 1).drop_last() =~= s@.subrange(0, i as int));
            assert(s@.subrange(0, i + 1).last() == c);
        }
        if c == '(' {
            depth = depth + 1;
        } else if c == ')' {
            if depth == 0 {
                proof {
                    assert(i >= 1) by {
                        assert(s@.subrange(0, 1).drop_last() =~= Seq::<char>::empty());
                    }
                }
                return false;
            }
            depth = depth - 1;
        }
        i = i + 1;
        if i < n && depth == 0 {
            return false;
        }
    }
    proof {
        assert(s@.subrange(0, n as int) =~= s@);
    }
    depth == 0
}

fn as_operand_exec(e: &str) -> (r: String)
    ensures
        r@ == as_operand(e@),
{
    if is_single_group_exec(e) {
        String::from_str(e)
    } else {
        String::from_str("(").concat(e).concat(")")
    }
}

fn conjoin_exec(acc: String, e: String) -> (r: String)
    ensures
        r@ == conjoin(acc@, e@),
{
    if e.unicode_len() == 0 {
        acc
    } else if acc.unicode_len() == 0 {
        e
    } else {
        as_operand_exec(acc.as_str()).concat(" and ").concat(as_operand_exec(e.as_str()).as_str())
    }
}

impl ConditionCheckInfo {
    /// Sets the expression.
    pub fn condition_expression(self, input: String) -> (r: Self)
        ensures
            r@ == (ConditionModel { expression: input@, names: self@.names, values: self@.values }),
    {
        ConditionCheckInfo { expression: input, names: self.names, values: self.values }
    }

    /// Adds a placeholder for a field name.
    pub fn expression_attribute_names(self, k: String, v: String) -> (r: Self)
        ensures
            r@ == (ConditionModel {
                expression: self@.expression,
                names: self@.names.push((k@, v@)),
                values: self@.values,
            }),
    {
        let mut names = self.names;
        names.push((k, v));
        let r = ConditionCheckInfo { expression: self.expression, names, values: self.values };
        proof {
            assert(r@.names =~= self@.names.push((k@, v@)));
        }
        r
    }

    /// Adds a placeholder for a value.
    pub fn expression_attribute_values(self, k: String, v: Attribute) -> (r: Self)
        ensures
            r@ == (ConditionModel {
                expression: self@.expression,
                names: self@.names,
                values: self@.values.push((k@, v@)),
            }),
    {
        let mut values = self.values;
        values.push((k, v));
        let r = ConditionCheckInfo { expression: self.expression, names: self.names, values };
        proof {
            assert(r@.values =~= self@.values.push((k@, v@)));
        }
        r
    }

    /// Folds fragments into this one, in order: the expressions are joined with `and`,
    /// each operand parenthesized unless it is one group already, and the placeholder
    /// lists are concatenated.
    pub fn merge(self, others: Vec<ConditionCheckInfo>) -> (r: Self)
        ensures
            r@ == merge_all(self@, conditions_view(others@)),
    {
        let ghost all = conditions_view(others@);
        let mut acc = self;
        let mut rest = others;
        let ghost done: int = 0;
        while rest.len() > 0
            invariant
                0 <= done <= all.len(),
                conditions_view(rest@) == all.subrange(done, all.len() as int),
                acc@ == merge_all(self@, all.subrange(0, done)),
            decreases rest.len(),
        {
            let ghost before = rest@;
            proof {
                assert(conditions_view(before).len() == before.len());
                assert(done + 1 <= all.len());
            }
            let other = rest.remove(0);
            proof {
                assert(conditions_view(before)[0] == other@);
                assert(all.subrange(done, all.len() as int)[0] == other@);
                assert(all.subrange(0, done + 1).drop_last() =~= all.subrange(0, done));
                assert forall|j: int| 0 <= j < rest@.len() implies conditions_view(rest@)[j]
                    == all.subrange(done + 1, all.len() as int)[j] by {
                    assert(rest@[j] == before[j + 1]);
                    assert(conditions_view(before)[j + 1] == all.subrange(
                        done,
                        all.len() as int,
                    )[j + 1]);
                }
                assert(conditions_view(rest@) =~= all.subrange(done + 1, all.len() as int));
            }
            let ConditionCheckInfo { expression, names, values } = other;
            let mut acc_names = acc.names;
            let mut other_names = names;
            acc_names.append(&mut other_names);
            let mut acc_values = acc.values;
            let mut other_values = values;
            acc_values.append(&mut other_values);
            let new_acc = ConditionCheckInfo {
                expression: conjoin_exec(acc.expression, expression),
                names: acc_names,
                values: acc_values,
            };
            proof {
                assert(new_acc@.names =~= acc@.names + other@.names);
                assert(new_acc@.values =~= acc@.values + other@.values);
                done = done + 1;
            }
            acc = new_acc;
        }
        proof {
            assert(all.subrange(0, done) =~= all);
        }
        acc
    }

    /// The fragment as a precondition to attach to an operation: none where its
    /// expression is empty, since then it asks nothing.
    pub fn into_condition(self) -> (r: Option<ConditionCheckInfo>)
        ensures
            self@.expression.len() == 0 ==> r is None,
            self@.expression.len() > 0 ==> r is Some && r->Some_0@ == self@,
    {
        if self.expression.unicode_len() == 0 {
            None
        } else {
            Some(self)
        }
    }
}

/// The expression that requires both key attributes to be present.
pub open spec fn exists_expression() -> Seq<char> {
    "attribute_exists(#pk) and attribute_exists(#sk)"@
}

/// The expression that requires both key attributes to be absent.
pub open spec fn not_exists_expression() -> Seq<char> {
    "attribute_not_exists(#pk) and attribute_not_exists(#sk)"@
}

/// A fragment over the two key attributes with the given expression.
pub open spec fn key_condition(expression: Seq<char>) -> ConditionModel {
    ConditionModel {
        expression,
        names: seq![("#pk"@, PK@), ("#sk"@, SK@)],
        values: Seq::empty(),
    }
}

fn key_condition_exec(expression: &str) -> (r: ConditionCheckInfo)
    ensures
        r@ == key_condition(expression@),
{
    let r = ConditionCheckInfo::default().condition_expression(
        String::from_str(expression),
    ).expression_attribute_names(String::from_str("#pk"), String::from_str(PK))
        .expression_attribute_names(String::from_str("#sk"), String::from_str(SK));
    proof {
        assert(r@.names =~= seq![("#pk"@, PK@), ("#sk"@, SK@)]);
        assert(r@.values =~= Seq::<(Seq<char>, AttributeModel)>::empty());
    }
    r
}

/// Creates a condition that passes if the referenced item exists.
pub fn condition_check_exists() -> (r: ConditionCheckInfo)
    ensures
        r@ == key_condition(exists_expression()),
{
    key_condition_exec("attribute_exists(#pk) and attribute_exists(#sk)")
}

/// Creates a condition that passes if the referenced item does not exist.
pub fn condition_check_not_exists() -> (r: ConditionCheckInfo)
    ensures
        r@ == key_condition(not_exists_expression()),
{
    key_condition_exec("attribute_not_exists(#pk) and attribute_not_exists(#sk)")
}

/// Whether `c` is an ASCII letter or digit.
pub open spec fn is_alphanumeric(c: char) -> bool {
    ||| ('a' as u32 <= c as u32 && c as u32 <= 'z' as u32)
    ||| ('A' as u32 <= c as u32 && c as u32 <= 'Z' as u32)
    ||| ('0' as u32 <= c as u32 && c as u32 <= '9' as u32)
}

/// Whether `s` has the shape of a placeholder seed: seven ASCII letters or digits.
pub open spec fn is_seed(s: Seq<char>) -> bool {
    &&& s.len() == 7
    &&& forall|i: int| 0 <= i < s.len() ==> is_alphanumeric(#[trigger] s[i])
}

/// Relies on rand's `thread_rng` sampled through the `Alphanumeric` distribution, which
/// draws each character from `A-Z`, `a-z` and `0-9`; seven are taken.
#[verifier::external_body]
fn seed() -> (r: String)
    ensures
        is_seed(r@),
{
    rand::thread_rng().sample_iter(&rand::distributions::Alphanumeric).take(7).map(char::from).collect()
}

/// The fragment that compares `field` to a value, with `seed` naming both placeholders:
/// `#seed op :seed`, where `#seed` stands for the field and `:seed` for the value.
pub open spec fn comparison_condition(
    seed: Seq<char>,
    field: Seq<char>,
    op: DynamoOperator,
    value: AttributeModel,
) -> ConditionModel {
    ConditionModel {
        expression: "#"@ + seed + " "@ + operator_symbol(op) + " :"@ + seed,
        names: seq![("#"@ + seed, field)],
        values: seq![(":"@ + seed, value)],
    }
}

fn comparison_exec(seed: &str, attr: &str, operator: DynamoOperator, value: Attribute) -> (r:
    ConditionCheckInfo)
    ensures
        r@ == comparison_condition(seed@, attr@, operator, value@),
{
    let ghost value_model = value@;
    let name = String::from_str("#").concat(seed);
    let token = String::from_str(":").concat(seed);
    let expression = name.clone().concat(" ").concat(operator.symbol()).concat(" ").concat(
        token.as_str(),
    );
    proof {
        assert(expression@ =~= "#"@ + seed@ + " "@ + operator_symbol(operator) + " :"@ + seed@)
            by {
            reveal_strlit(" :");
            reveal_strlit(" ");
            reveal_strlit(":");
        }
    }
    let r = ConditionCheckInfo::default().condition_expression(expression).expression_attribute_names(
        name,
        String::from_str(attr),
    ).expression_attribute_values(token, value);
    proof {
        assert(r@.names =~= seq![("#"@ + seed@, attr@)]);
        assert(r@.values =~= seq![(":"@ + seed@, value_model)]);
    }
    r
}

/// A numeric comparison of `attr`, with placeholders named after `seed`.
pub fn condition_check_number_with_seed(
    seed: &str,
    attr: &str,
    operator: DynamoOperator,
    value: i64,
) -> (r: ConditionCheckInfo)
    ensures
        r@ == comparison_condition(seed@, attr@, operator, AttributeModel::N(int_text(value as int))),
{
    comparison_exec(seed, attr, operator, Attribute::N(i64_to_text(value)))
}

/// A string comparison of `attr`, with placeholders named after `seed`.
pub fn condition_check_string_with_seed(
    seed: &str,
    attr: &str,
    operator: DynamoOperator,
    value: &str,
) -> (r: ConditionCheckInfo)
    ensures
        r@ == comparison_condition(seed@, attr@, operator, AttributeModel::S(value@)),
{
    comparison_exec(seed, attr, operator, Attribute::S(String::from_str(value)))
}

/// Creates a condition for checking a number's value: `attr` compared by `operator` to
/// `value`, under a fresh random placeholder seed. Fragments merged together rely on their
/// seeds differing; seven random letters or digits make a clash negligible.
pub fn condition_check_number(attr: &str, operator: DynamoOperator, value: i64) -> (r:
    ConditionCheckInfo)
    ensures
        exists|s: Seq<char>|
            is_seed(s) && r@ == comparison_condition(
                s,
                attr@,
                operator,
                AttributeModel::N(int_text(value as int)),
            ),
{
    let s = seed();
    condition_check_number_with_seed(s.as_str(), attr, operator, value)
}

/// Creates a condition for checking a string's value: `attr` compared by `operator` to
/// `value`, under a fresh random placeholder seed.
pub fn condition_check_string(attr: &str, operator: DynamoOperator, value: &str) -> (r:
    ConditionCheckInfo)
    ensures
        exists|s: Seq<char>|
            is_seed(s) && r@ == comparison_condition(s, attr@, operator, AttributeModel::S(value@)),
{
    let s = seed();
    condition_check_string_with_seed(s.as_str(), attr, operator, value)
}

/// Merging one fragment into an empty base yields exactly that fragment.
pub proof fn lemma_merge_into_empty(f: ConditionModel)
    ensures
        merge_all(empty_condition(), seq![f]) == f,
{
    reveal_with_fuel(merge_all, 2);
    assert(seq![f].drop_last() =~= Seq::<ConditionModel>::empty());
    let r = merge_all(empty_condition(), seq![f]);
    assert(r.names =~= f.names);
    assert(r.values =~= f.values);
    assert(r.expression == f.expression);
}

/// A base that is one parenthesized group is not wrapped again when a fragment is merged
/// into it: it stands unchanged before the `and`.
pub proof fn lemma_merge_keeps_single_group(base: ConditionModel, other: ConditionModel)
    requires
        is_single_group(base.expression),
        other.expression.len() > 0,
    ensures
        merge_all(base, seq![other]).expression == base.expression + " and "@ + as_operand(
            other.expression,
        ),
{
    reveal_with_fuel(merge_all, 2);
    assert(seq![other].drop_last() =~= Seq::<ConditionModel>::empty());
    assert(merge_all(base, Seq::<ConditionModel>::empty()) == base);
}

} // verus!
