use vstd::prelude::*;
use crate::error::{Error, ErrorType};
use crate::syntax::json::JsonValue;
use crate::syntax::{
    definition_views,
    spec_category_name,
    Associativity,
    Category,
    CategoryEntryView,
    RuleCategoryDefinition,
    RuleCategoryDefinitionView,
    RuleCollectionDefinition,
    RuleDefinition,
    RuleDefinitionView,
};
use crate::text::same_text;

verus! {

/// The member of an object that is named `key`: the first one, if any.
pub open spec fn spec_member(members: Seq<(String, JsonValue)>, key: Seq<char>) -> Option<JsonValue>
    decreases members.len(),
{
    if members.len() == 0 {
        None
    } else if members[0].0@ == key {
        Some(members[0].1)
    } else {
        spec_member(members.drop_first(), key)
    }
}

/// A member that may be missing: a member that is `null` counts as missing.
pub open spec fn spec_optional(members: Seq<(String, JsonValue)>, key: Seq<char>) -> Option<JsonValue> {
    match spec_member(members, key) {
        Some(JsonValue::Null) => None,
        other => other,
    }
}

/// The category that `name` names.
pub open spec fn spec_category_named(name: Seq<char>) -> Option<Category> {
    if name == spec_category_name(Category::Operators) {
        Some(Category::Operators)
    } else if name == spec_category_name(Category::ImplicitOperators) {
        Some(Category::ImplicitOperators)
    } else if name == spec_category_name(Category::Functions) {
        Some(Category::Functions)
    } else if name == spec_category_name(Category::Literals) {
        Some(Category::Literals)
    } else if name == spec_category_name(Category::Constants) {
        Some(Category::Constants)
    } else if name == spec_category_name(Category::Variables) {
        Some(Category::Variables)
    } else if name == spec_category_name(Category::OpenBrackets) {
        Some(Category::OpenBrackets)
    } else if name == spec_category_name(Category::CloseBrackets) {
        Some(Category::CloseBrackets)
    } else if name == spec_category_name(Category::Separators) {
        Some(Category::Separators)
    } else if name == spec_category_name(Category::Fluff) {
        Some(Category::Fluff)
    } else {
        None
    }
}

/// The associativity that `name` names.
pub open spec fn spec_associativity_named(name: Seq<char>) -> Option<Associativity> {
    if name == "LeftToRight"@ {
        Some(Associativity::LeftToRight)
    } else if name == "RightToLeft"@ {
        Some(Associativity::RightToLeft)
    } else {
        None
    }
}

/// What an optional member holds, read with `read`: nothing where it is
/// missing; the outer `None` where it is there and `read` refuses it.
pub open spec fn spec_maybe<V>(member: Option<JsonValue>, read: spec_fn(JsonValue) -> Option<V>) -> Option<Option<V>> {
    match member {
        None => Some(None),
        Some(value) => match read(value) {
            Some(v) => Some(Some(v)),
            None => None,
        },
    }
}

/// A text.
pub open spec fn spec_text(value: JsonValue) -> Option<Seq<char>> {
    match value {
        JsonValue::Text(s) => Some(s@),
        _ => None,
    }
}

/// A truth value.
pub open spec fn spec_flag(value: JsonValue) -> Option<bool> {
    match value {
        JsonValue::Bool(b) => Some(b),
        _ => None,
    }
}

/// An unsigned integer of 32 bits.
pub open spec fn spec_u32(value: JsonValue) -> Option<u32> {
    match value {
        JsonValue::Number(_, Some(n)) => if n <= u32::MAX {
            Some(n as u32)
        } else {
            None
        },
        _ => None,
    }
}

/// A signed integer of 32 bits.
pub open spec fn spec_i32(value: JsonValue) -> Option<i32> {
    match value {
        JsonValue::Number(Some(n), _) => if i32::MIN <= n <= i32::MAX {
            Some(n as i32)
        } else {
            None
        },
        _ => None,
    }
}

/// An associativity, by its name.
pub open spec fn spec_associativity(value: JsonValue) -> Option<Associativity> {
    match value {
        JsonValue::Text(s) => spec_associativity_named(s@),
        _ => None,
    }
}

/// The categories that the first `n` items name.
pub open spec fn spec_categories_upto(items: Seq<JsonValue>, n: int) -> Option<Seq<Category>>
    decreases n,
{
    if n <= 0 {
        Some(Seq::empty())
    } else {
        match (spec_categories_upto(items, n - 1), items[n - 1]) {
            (Some(list), JsonValue::Text(s)) => match spec_category_named(s@) {
                Some(category) => Some(list.push(category)),
                None => None,
            },
            _ => None,
        }
    }
}

/// A list of categories, by their names.
pub open spec fn spec_categories(value: JsonValue) -> Option<Seq<Category>> {
    match value {
        JsonValue::Array(items) => spec_categories_upto(items@, items@.len() as int),
        _ => None,
    }
}

/// The rule definition that a JSON value holds: an object whose members
/// `pattern`, `pattern_is_regex`, `precedence`, `associativity`, `binding`,
/// `may_follow` and `context` are each missing or of the right kind. Other
/// members are not looked at.
pub open spec fn spec_rule_definition(value: JsonValue) -> Option<RuleDefinitionView> {
    match value {
        JsonValue::Object(members) => {
            let m = members@;
            match (
                spec_maybe(spec_optional(m, "pattern"@), |v: JsonValue| spec_text(v)),
                spec_maybe(spec_optional(m, "pattern_is_regex"@), |v: JsonValue| spec_flag(v)),
                spec_maybe(spec_optional(m, "precedence"@), |v: JsonValue| spec_u32(v)),
                spec_maybe(spec_optional(m, "associativity"@), |v: JsonValue| spec_associativity(v)),
                spec_maybe(spec_optional(m, "binding"@), |v: JsonValue| spec_text(v)),
                spec_maybe(spec_optional(m, "may_follow"@), |v: JsonValue| spec_categories(v)),
                spec_maybe(spec_optional(m, "context"@), |v: JsonValue| spec_i32(v)),
            ) {
                (
                    Some(pattern),
                    Some(pattern_is_regex),
                    Some(precedence),
                    Some(associativity),
                    Some(binding),
                    Some(may_follow),
                    Some(context),
                ) => Some(
                    RuleDefinitionView {
                        pattern,
                        pattern_is_regex,
                        precedence,
                        associativity,
                        binding,
                        may_follow,
                        context,
                    },
                ),
                _ => None,
            }
        },
        _ => None,
    }
}

/// The rule definitions that the first `n` items hold.
pub open spec fn spec_rule_definitions_upto(items: Seq<JsonValue>, n: int) -> Option<Seq<RuleDefinitionView>>
    decreases n,
{
    if n <= 0 {
        Some(Seq::empty())
    } else {
        match (spec_rule_definitions_upto(items, n - 1), spec_rule_definition(items[n - 1])) {
            (Some(list), Some(rule)) => Some(list.push(rule)),
            _ => None,
        }
    }
}

/// A list of rule definitions.
pub open spec fn spec_rule_definitions(value: JsonValue) -> Option<Seq<RuleDefinitionView>> {
    match value {
        JsonValue::Array(items) => spec_rule_definitions_upto(items@, items@.len() as int),
        _ => None,
    }
}

/// The definition of a category that a JSON value holds: an object with the
/// members `may_follow` and `rules`, and with `default_associativity` and
/// `default_precedence` missing or of the right kind.
pub open spec fn spec_category_definition(value: JsonValue) -> Option<RuleCategoryDefinitionView> {
    match value {
        JsonValue::Object(members) => {
            let m = members@;
            match (
                spec_maybe(spec_optional(m, "default_associativity"@), |v: JsonValue| spec_associativity(v)),
                spec_maybe(spec_optional(m, "default_precedence"@), |v: JsonValue| spec_u32(v)),
                spec_maybe(spec_member(m, "may_follow"@), |v: JsonValue| spec_categories(v)),
                spec_maybe(spec_member(m, "rules"@), |v: JsonValue| spec_rule_definitions(v)),
            ) {
                (Some(default_associativity), Some(default_precedence), Some(Some(may_follow)), Some(Some(rules))) => Some(
                    RuleCategoryDefinitionView { default_associativity, default_precedence, may_follow, rules },
                ),
                _ => None,
            }
        },
        _ => None,
    }
}

/// Whether `entries` has the category `category`.
pub open spec fn has_category(entries: Seq<CategoryEntryView>, category: Category) -> bool {
    exists|i: int| 0 <= i < entries.len() && (#[trigger] entries[i]).category == category
}

/// The categories that the first `n` members of the root object define: each
/// member is named after a category that no earlier member is named after.
pub open spec fn spec_collection_upto(members: Seq<(String, JsonValue)>, n: int) -> Option<Seq<CategoryEntryView>>
    decreases n,
{
    if n <= 0 {
        Some(Seq::empty())
    } else {
        match (
            spec_collection_upto(members, n - 1),
            spec_category_named(members[n - 1].0@),
            spec_category_definition(members[n - 1].1),
        ) {
            (Some(entries), Some(category), Some(definition)) => if has_category(entries, category) {
                None
            } else {
                Some(entries.push(CategoryEntryView { category, definition }))
            },
            _ => None,
        }
    }
}

/// The grammar definition that a JSON value holds: an object with one member
/// for each category that the grammar uses.
pub open spec fn spec_decode(tree: JsonValue) -> Option<Seq<CategoryEntryView>> {
    match tree {
        JsonValue::Object(members) => spec_collection_upto(members@, members@.len() as int),
        _ => None,
    }
}

/// Where `members[i]` is the first member named `key`, `spec_member` finds it.
proof fn lemma_member_first(members: Seq<(String, JsonValue)>, key: Seq<char>, i: int)
    requires
        0 <= i <= members.len(),
        forall|j: int| 0 <= j < i ==> (#[trigger] members[j]).0@ != key,
        i < members.len() ==> members[i].0@ == key,
    ensures
        spec_member(members, key) == if i < members.len() {
            Some(members[i].1)
        } else {
            None
        },
    decreases members.len(),
{
    if members.len() > 0 && i > 0 {
        let rest = members.drop_first();
        assert(members[0].0@ != key);
        assert forall|j: int| 0 <= j < i - 1 implies (#[trigger] rest[j]).0@ != key by {
            assert(members[j + 1].0@ != key);
        }
        lemma_member_first(rest, key, i - 1);
    }
}

/// The member of an object that is named `key`.
pub fn member<'a>(members: &'a Vec<(String, JsonValue)>, key: &str) -> (r: Option<&'a JsonValue>)
    ensures
        match r {
            Some(v) => spec_member(members@, key@) == Some(*v),
            None => spec_member(members@, key@).is_none(),
        },
{
    let mut i: usize = 0;
    while i < members.len()
        invariant
            i <= members@.len(),
            forall|j: int| 0 <= j < i ==> (#[trigger] members@[j]).0@ != key@,
        decreases members@.len() - i,
    {
        if same_text(members[i].0.as_str(), key) {
            proof {
                lemma_member_first(members@, key@, i as int);
            }
            return Some(&members[i].1);
        }
        i += 1;
    }
    proof {
        lemma_member_first(members@, key@, i as int);
    }
    None
}

/// A member that may be missing or `null`.
pub fn optional<'a>(members: &'a Vec<(String, JsonValue)>, key: &str) -> (r: Option<&'a JsonValue>)
    ensures
        match r {
            Some(v) => spec_optional(members@, key@) == Some(*v),
            None => spec_optional(members@, key@).is_none(),
        },
{
    match member(members, key) {
        Some(JsonValue::Null) => None,
        other => other,
    }
}

/// The category that `name` names.
pub fn category_named(name: &str) -> (r: Option<Category>)
    ensures
        r == spec_category_named(name@),
{
    if same_text(name, "Operators") {
        Some(Category::Operators)
    } else if same_text(name, "ImplicitOperators") {
        Some(Category::ImplicitOperators)
    } else if same_text(name, "Functions") {
        Some(Category::Functions)
    } else if same_text(name, "Literals") {
        Some(Category::Literals)
    } else if same_text(name, "Constants") {
        Some(Category::Constants)
    } else if same_text(name, "Variables") {
        Some(Category::Variables)
    } else if same_text(name, "OpenBrackets") {
        Some(Category::OpenBrackets)
    } else if same_text(name, "CloseBrackets") {
        Some(Category::CloseBrackets)
    } else if same_text(name, "Separators") {
        Some(Category::Separators)
    } else if same_text(name, "Fluff") {
        Some(Category::Fluff)
    } else {
        None
    }
}

fn read_text(member: Option<&JsonValue>) -> (r: Option<Option<String>>)
    ensures
        match r {
            Some(Some(s)) => member matches Some(v) && spec_text(*v) == Some(s@),
            Some(None) => member.is_none(),
            None => member matches Some(v) && spec_text(*v).is_none(),
        },
{
    match member {
        None => Some(None),
        Some(JsonValue::Text(s)) => Some(Some(s.clone())),
        Some(_) => None,
    }
}

fn read_flag(member: Option<&JsonValue>) -> (r: Option<Option<bool>>)
    ensures
        match r {
            Some(Some(b)) => member matches Some(v) && spec_flag(*v) == Some(b),
            Some(None) => member.is_none(),
            None => member matches Some(v) && spec_flag(*v).is_none(),
        },
{
    match member {
        None => Some(None),
        Some(JsonValue::Bool(b)) => Some(Some(*b)),
        Some(_) => None,
    }
}

fn read_u32(member: Option<&JsonValue>) -> (r: Option<Option<u32>>)
    ensures
        match r {
            Some(Some(n)) => member matches Some(v) && spec_u32(*v) == Some(n),
            Some(None) => member.is_none(),
            None => member matches Some(v) && spec_u32(*v).is_none(),
        },
{
    match member {
        None => Some(None),
        Some(JsonValue::Number(_, Some(n))) => if *n <= 0xFFFF_FFFF {
            Some(Some(*n as u32))
        } else {
            None
        },
        Some(_) => None,
    }
}

fn read_i32(member: Option<&JsonValue>) -> (r: Option<Option<i32>>)
    ensures
        match r {
            Some(Some(n)) => member matches Some(v) && spec_i32(*v) == Some(n),
            Some(None) => member.is_none(),
            None => member matches Some(v) && spec_i32(*v).is_none(),
        },
{
    match member {
        None => Some(None),
        Some(JsonValue::Number(Some(n), _)) => if -0x8000_0000 <= *n && *n <= 0x7FFF_FFFF {
            Some(Some(*n as i32))
        } else {
            None
        },
        Some(_) => None,
    }
}

fn read_associativity(member: Option<&JsonValue>) -> (r: Option<Option<Associativity>>)
    ensures
        match r {
            Some(Some(a)) => member matches Some(v) && spec_associativity(*v) == Some(a),
            Some(None) => member.is_none(),
            None => member matches Some(v) && spec_associativity(*v).is_none(),
        },
{
    match member {
        None => Some(None),
        Some(JsonValue::Text(s)) => if same_text(s.as_str(), "LeftToRight") {
            Some(Some(Associativity::LeftToRight))
        } else if same_text(s.as_str(), "RightToLeft") {
            Some(Some(Associativity::RightToLeft))
        } else {
            None
        },
        Some(_) => None,
    }
}

/// Once an item is refused, the list is.
proof fn lemma_categories_refused(items: Seq<JsonValue>, n: int, m: int)
    requires
        0 <= n <= m,
        spec_categories_upto(items, n).is_none(),
    ensures
        spec_categories_upto(items, m).is_none(),
    decreases m - n,
{
    if n < m {
        lemma_categories_refused(items, n, m - 1);
    }
}

/// A list of categories, by their names.
pub fn categories(value: &JsonValue) -> (r: Option<Vec<Category>>)
    ensures
        match r {
            Some(list) => spec_categories(*value) == Some(list@),
            None => spec_categories(*value).is_none(),
        },
{
    match value {
        JsonValue::Array(items) => {
            let mut list: Vec<Category> = Vec::new();
            let mut i: usize = 0;
            while i < items.len()
                invariant
                    *value matches JsonValue::Array(v) && v == *items,
                    i <= items@.len(),
                    spec_categories_upto(items@, i as int) == Some(list@),
                decreases items@.len() - i,
            {
                let category = match &items[i] {
                    JsonValue::Text(s) => category_named(s.as_str()),
                    _ => None,
                };
                match category {
                    Some(category) => {
                        list.push(category);
                    },
                    None => {
                        proof {
                            lemma_categories_refused(items@, i + 1, items@.len() as int);
                        }
                        return None;
                    },
                }
                i += 1;
            }
            Some(list)
        },
        _ => None,
    }
}

fn read_categories(member: Option<&JsonValue>) -> (r: Option<Option<Vec<Category>>>)
    ensures
        match r {
            Some(Some(list)) => member matches Some(v) && spec_categories(*v) == Some(list@),
            Some(None) => member.is_none(),
            None => member matches Some(v) && spec_categories(*v).is_none(),
        },
{
    match member {
        None => Some(None),
        Some(value) => match categories(value) {
            Some(list) => Some(Some(list)),
            None => None,
        },
    }
}

/// The rule definition that a JSON value holds.
pub fn rule_definition(value: &JsonValue) -> (r: Option<RuleDefinition>)
    ensures
        match r {
            Some(d) => spec_rule_definition(*value) == Some(d@),
            None => spec_rule_definition(*value).is_none(),
        },
{
    let members = match value {
        JsonValue::Object(members) => members,
        _ => {
            return None;
        },
    };
    let pattern = read_text(optional(members, "pattern"));
    let pattern_is_regex = read_flag(optional(members, "pattern_is_regex"));
    let precedence = read_u32(optional(members, "precedence"));
    let associativity = read_associativity(optional(members, "associativity"));
    let binding = read_text(optional(members, "binding"));
    let may_follow = read_categories(optional(members, "may_follow"));
    let context = read_i32(optional(members, "context"));
    match (pattern, pattern_is_regex, precedence, associativity, binding, may_follow, context) {
        (
            Some(pattern),
            Some(pattern_is_regex),
            Some(precedence),
            Some(associativity),
            Some(binding),
            Some(may_follow),
            Some(context),
        ) => Some(
            RuleDefinition { pattern, pattern_is_regex, precedence, associativity, binding, may_follow, context },
        ),
        _ => None,
    }
}

/// Once an item is refused, the list is.
proof fn lemma_rule_definitions_refused(items: Seq<JsonValue>, n: int, m: int)
    requires
        0 <= n <= m,
        spec_rule_definitions_upto(items, n).is_none(),
    ensures
        spec_rule_definitions_upto(items, m).is_none(),
    decreases m - n,
{
    if n < m {
        lemma_rule_definitions_refused(items, n, m - 1);
    }
}

/// A list of rule definitions.
pub fn rule_definitions(value: &JsonValue) -> (r: Option<Vec<RuleDefinition>>)
    ensures
        match r {
            Some(list) => spec_rule_definitions(*value) == Some(definition_views(list@)),
            None => spec_rule_definitions(*value).is_none(),
        },
{
    match value {
        JsonValue::Array(items) => {
            let mut list: Vec<RuleDefinition> = Vec::new();
            let mut i: usize = 0;
            assert(definition_views(list@) =~= Seq::empty());
            while i < items.len()
                invariant
                    *value matches JsonValue::Array(v) && v == *items,
                    i <= items@.len(),
                    spec_rule_definitions_upto(items@, i as int) == Some(definition_views(list@)),
                decreases items@.len() - i,
            {
                match rule_definition(&items[i]) {
                    Some(rule) => {
                        let ghost before = definition_views(list@);
                        let ghost view = rule@;
                        list.push(rule);
                        assert(definition_views(list@) =~= before.push(view));
                    },
                    None => {
                        proof {
                            lemma_rule_definitions_refused(items@, i + 1, items@.len() as int);
                        }
                        return None;
                    },
                }
                i += 1;
            }
            Some(list)
        },
        _ => None,
    }
}

/// The definition of a category that a JSON value holds.
pub fn category_definition(value: &JsonValue) -> (r: Option<RuleCategoryDefinition>)
    ensures
        match r {
            Some(d) => spec_category_definition(*value) == Some(d@),
            None => spec_category_definition(*value).is_none(),
        },
{
    let members = match value {
        JsonValue::Object(members) => members,
        _ => {
            return None;
        },
    };
    let default_associativity = read_associativity(optional(members, "default_associativity"));
    let default_precedence = read_u32(optional(members, "default_precedence"));
    let may_follow = read_categories(member(members, "may_follow"));
    let rules = match member(members, "rules") {
        Some(value) => rule_definitions(value),
        None => None,
    };
    match (default_associativity, default_precedence, may_follow, rules) {
        (Some(default_associativity), Some(default_precedence), Some(Some(may_follow)), Some(rules)) => Some(
            RuleCategoryDefinition { default_associativity, default_precedence, may_follow, rules },
        ),
        _ => None,
    }
}

/// Once a member is refused, the definition is.
proof fn lemma_collection_refused(members: Seq<(String, JsonValue)>, n: int, m: int)
    requires
        0 <= n <= m,
        spec_collection_upto(members, n).is_none(),
    ensures
        spec_collection_upto(members, m).is_none(),
    decreases m - n,
{
    if n < m {
        lemma_collection_refused(members, n, m - 1);
    }
}

/// The grammar definition that a JSON value holds; see `spec_decode`. A value
/// that holds none is a `RuleParseError`.
pub fn decode_definitions(tree: &JsonValue) -> (r: Result<RuleCollectionDefinition, Error>)
    ensures
        match r {
            Ok(d) => d.wf() && spec_decode(*tree) == Some(d@),
            Err(e) => e.error_type == ErrorType::RuleParseError && spec_decode(*tree).is_none(),
        },
{
    let members = match tree {
        JsonValue::Object(members) => members,
        _ => {
            return Err(Error::new(ErrorType::RuleParseError, "A rule definition is a JSON object"));
        },
    };
    let mut definitions = RuleCollectionDefinition::new();
    let mut i: usize = 0;
    assert(definitions@ =~= Seq::empty());
    while i < members.len()
        invariant
            *tree matches JsonValue::Object(m) && m == *members,
            i <= members@.len(),
            definitions.wf(),
            spec_collection_upto(members@, i as int) == Some(definitions@),
        decreases members@.len() - i,
    {
        let name = members[i].0.as_str();
        let entry = match category_named(name) {
            Some(category) => match category_definition(&members[i].1) {
                Some(definition) => Some((category, definition)),
                None => None,
            },
            None => None,
        };
        let ghost before = definitions@;
        let added = match entry {
            Some((category, definition)) => {
                let ghost view = CategoryEntryView { category, definition: definition@ };
                proof {
                    if has_category(before, category) {
                        let k = choose|k: int| 0 <= k < before.len() && (#[trigger] before[k]).category == category;
                        assert(definitions.entries@[k].category == category);
                    }
                    if definitions.spec_position(category).is_some() {
                        let k = definitions.spec_position(category).unwrap();
                        assert(before[k].category == category);
                    }
                }
                match definitions.insert(category, definition) {
                    None => {
                        assert(definitions@ =~= before.push(view));
                        true
                    },
                    Some(_) => false,
                }
            },
            None => false,
        };
        if !added {
            proof {
                lemma_collection_refused(members@, i + 1, members@.len() as int);
            }
            return Err(
                Error::with_detail(ErrorType::RuleParseError, "JSON error in rule definition at category ", name),
            );
        }
        i += 1;
    }
    Ok(definitions)
}

} // verus!
