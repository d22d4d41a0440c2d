use vstd::prelude::*;
use crate::error::{Error, ErrorType};
use crate::syntax::decode::{decode_definitions, spec_decode};
use crate::syntax::grammars::{LATEX, STANDARD};
use crate::syntax::json::{load, spec_load, JsonValue};
use crate::syntax::members::{spec_written_members, written_members};

pub mod decode;
pub mod grammars;
pub mod json;
pub mod members;
pub mod pattern;
pub mod ruleset;

verus! {

/// The grammars that the library ships.
#[derive(Clone, Copy, Debug, PartialEq, Eq, Structural)]
pub enum Syntax {
    Standard,
    LaTeX,
}

/// The class of a token.
#[derive(Clone, Copy, Debug, PartialEq, Eq, Hash, Structural)]
pub enum Category {
    /// An operation on two values, such as `+`, `*`, `^`.
    Operators,
    /// An operation on two values that matches no characters and is implied by context.
    ImplicitOperators,
    /// A function of one or more arguments, such as `sin`, `ln`.
    Functions,
    /// A number, such as `2` or `0.5`.
    Literals,
    /// A mathematical constant, such as `pi` or `e`.
    Constants,
    /// A placeholder for a value that can change between evaluations.
    Variables,
    /// An opening bracket.
    OpenBrackets,
    /// A closing bracket.
    CloseBrackets,
    /// A token the syntax needs but that computes nothing, such as the comma
    /// between the arguments of a function.
    Separators,
    /// A token without meaning, to be skipped.
    Fluff,
}

/// The order in which operators of equal precedence are resolved.
#[derive(Clone, Copy, Debug, PartialEq, Eq, Structural)]
pub enum Associativity {
    LeftToRight,
    RightToLeft,
}

impl Category {
    /// Whether a token of this category may begin an expression.
    pub open spec fn spec_allowed_at_start(self) -> bool {
        match self {
            Category::Constants
            | Category::Functions
            | Category::Literals
            | Category::OpenBrackets
            | Category::Fluff
            | Category::Variables => true,
            _ => false,
        }
    }

    /// Whether a token of this category may end an expression.
    pub open spec fn spec_allowed_at_end(self) -> bool {
        match self {
            Category::CloseBrackets
            | Category::Constants
            | Category::Literals
            | Category::Fluff
            | Category::Variables => true,
            _ => false,
        }
    }

    /// The rank of the category where several rules match at one place: the
    /// higher is tried first.
    pub open spec fn spec_priority(self) -> u32 {
        match self {
            Category::OpenBrackets | Category::CloseBrackets | Category::Separators => 5,
            Category::Operators => 4,
            Category::Functions | Category::Constants => 3,
            Category::Literals => 2,
            Category::Variables => 1,
            Category::ImplicitOperators | Category::Fluff => 0,
        }
    }

    pub fn allowed_at_start(self) -> (r: bool)
        ensures
            r == self.spec_allowed_at_start(),
    {
        match self {
            Category::Constants
            | Category::Functions
            | Category::Literals
            | Category::OpenBrackets
            | Category::Fluff
            | Category::Variables => true,
            _ => false,
        }
    }

    pub fn allowed_at_end(self) -> (r: bool)
        ensures
            r == self.spec_allowed_at_end(),
    {
        match self {
            Category::CloseBrackets
            | Category::Constants
            | Category::Literals
            | Category::Fluff
            | Category::Variables => true,
            _ => false,
        }
    }

    pub fn priority(self) -> (r: u32)
        ensures
            r == self.spec_priority(),
    {
        match self {
            Category::OpenBrackets | Category::CloseBrackets | Category::Separators => 5,
            Category::Operators => 4,
            Category::Functions | Category::Constants => 3,
            Category::Literals => 2,
            Category::Variables => 1,
            Category::ImplicitOperators | Category::Fluff => 0,
        }
    }

    /// The category in words, as messages write it.
    pub fn title(self) -> (r: &'static str)
        ensures
            r@ == spec_category_title(self),
    {
        match self {
            Category::Operators => "Operators",
            Category::ImplicitOperators => "Implicit Operators",
            Category::Functions => "Functions",
            Category::Literals => "Literals",
            Category::Constants => "Constants",
            Category::Variables => "Variables",
            Category::OpenBrackets => "Opening Brackets",
            Category::CloseBrackets => "Closing Brackets",
            Category::Separators => "Separators",
            Category::Fluff => "Fluff",
        }
    }

    /// The name of the category, as definitions write it.
    pub fn name(self) -> (r: &'static str)
        ensures
            r@ == spec_category_name(self),
    {
        match self {
            Category::Operators => "Operators",
            Category::ImplicitOperators => "ImplicitOperators",
            Category::Functions => "Functions",
            Category::Literals => "Literals",
            Category::Constants => "Constants",
            Category::Variables => "Variables",
            Category::OpenBrackets => "OpenBrackets",
            Category::CloseBrackets => "CloseBrackets",
            Category::Separators => "Separators",
            Category::Fluff => "Fluff",
        }
    }
}

/// A category in words.
pub open spec fn spec_category_title(category: Category) -> Seq<char> {
    match category {
        Category::Operators => "Operators"@,
        Category::ImplicitOperators => "Implicit Operators"@,
        Category::Functions => "Functions"@,
        Category::Literals => "Literals"@,
        Category::Constants => "Constants"@,
        Category::Variables => "Variables"@,
        Category::OpenBrackets => "Opening Brackets"@,
        Category::CloseBrackets => "Closing Brackets"@,
        Category::Separators => "Separators"@,
        Category::Fluff => "Fluff"@,
    }
}

/// The name of a category.
pub open spec fn spec_category_name(category: Category) -> Seq<char> {
    match category {
        Category::Operators => "Operators"@,
        Category::ImplicitOperators => "ImplicitOperators"@,
        Category::Functions => "Functions"@,
        Category::Literals => "Literals"@,
        Category::Constants => "Constants"@,
        Category::Variables => "Variables"@,
        Category::OpenBrackets => "OpenBrackets"@,
        Category::CloseBrackets => "CloseBrackets"@,
        Category::Separators => "Separators"@,
        Category::Fluff => "Fluff"@,
    }
}

/// Whether `list` holds `category`.
pub fn contains_category(list: &Vec<Category>, category: Category) -> (r: bool)
    ensures
        r == list@.contains(category),
{
    let mut i: usize = 0;
    while i < list.len()
        invariant
            i <= list@.len(),
            forall|j: int| 0 <= j < i ==> list@[j] != category,
        decreases list@.len() - i,
    {
        if list[i] == category {
            return true;
        }
        i += 1;
    }
    false
}

/// One rule of a grammar, as a definition gives it.
#[derive(Clone, Debug)]
pub struct RuleDefinition {
    pub pattern: Option<String>,
    pub pattern_is_regex: Option<bool>,
    pub precedence: Option<u32>,
    pub associativity: Option<Associativity>,
    pub binding: Option<String>,
    pub may_follow: Option<Vec<Category>>,
    pub context: Option<i32>,
}

/// The rules of one category, with the defaults that they share.
#[derive(Clone, Debug)]
pub struct RuleCategoryDefinition {
    pub default_associativity: Option<Associativity>,
    pub default_precedence: Option<u32>,
    pub may_follow: Vec<Category>,
    pub rules: Vec<RuleDefinition>,
}

/// One category of a definition with its rules.
#[derive(Clone, Debug)]
pub struct CategoryEntry {
    pub category: Category,
    pub definition: RuleCategoryDefinition,
}

/// The definition of a grammar: for each category that it uses, the rules of
/// that category. No category occurs twice.
#[derive(Clone, Debug)]
pub struct RuleCollectionDefinition {
    pub entries: Vec<CategoryEntry>,
}

/// A rule definition as contracts speak of it.
pub struct RuleDefinitionView {
    pub pattern: Option<Seq<char>>,
    pub pattern_is_regex: Option<bool>,
    pub precedence: Option<u32>,
    pub associativity: Option<Associativity>,
    pub binding: Option<Seq<char>>,
    pub may_follow: Option<Seq<Category>>,
    pub context: Option<i32>,
}

impl View for RuleDefinition {
    type V = RuleDefinitionView;

    open spec fn view(&self) -> RuleDefinitionView {
        RuleDefinitionView {
            pattern: match self.pattern {
                Some(p) => Some(p@),
                None => None,
            },
            pattern_is_regex: self.pattern_is_regex,
            precedence: self.precedence,
            associativity: self.associativity,
            binding: match self.binding {
                Some(b) => Some(b@),
                None => None,
            },
            may_follow: match self.may_follow {
                Some(list) => Some(list@),
                None => None,
            },
            context: self.context,
        }
    }
}

/// The views of `rules`, in order.
pub open spec fn definition_views(rules: Seq<RuleDefinition>) -> Seq<RuleDefinitionView> {
    Seq::new(rules.len(), |i: int| rules[i]@)
}

/// The rules of a category as contracts speak of them.
pub struct RuleCategoryDefinitionView {
    pub default_associativity: Option<Associativity>,
    pub default_precedence: Option<u32>,
    pub may_follow: Seq<Category>,
    pub rules: Seq<RuleDefinitionView>,
}

impl View for RuleCategoryDefinition {
    type V = RuleCategoryDefinitionView;

    open spec fn view(&self) -> RuleCategoryDefinitionView {
        RuleCategoryDefinitionView {
            default_associativity: self.default_associativity,
            default_precedence: self.default_precedence,
            may_follow: self.may_follow@,
            rules: definition_views(self.rules@),
        }
    }
}

/// A category of a definition as contracts speak of it.
pub struct CategoryEntryView {
    pub category: Category,
    pub definition: RuleCategoryDefinitionView,
}

impl View for CategoryEntry {
    type V = CategoryEntryView;

    open spec fn view(&self) -> CategoryEntryView {
        CategoryEntryView { category: self.category, definition: self.definition@ }
    }
}

impl View for RuleCollectionDefinition {
    type V = Seq<CategoryEntryView>;

    open spec fn view(&self) -> Seq<CategoryEntryView> {
        Seq::new(self.entries@.len(), |i: int| self.entries@[i]@)
    }
}

/// Whether no category occurs twice in `entries`.
pub open spec fn categories_distinct(entries: Seq<CategoryEntry>) -> bool {
    forall|i: int, j: int|
        0 <= i < j < entries.len() ==> (#[trigger] entries[i]).category != (#[trigger] entries[j]).category
}

/// Whether no category occurs twice in a definition, as contracts speak of it.
pub open spec fn spec_names_each_once(entries: Seq<CategoryEntryView>) -> bool {
    forall|i: int, j: int|
        0 <= i < j < entries.len() ==> (#[trigger] entries[i]).category != (#[trigger] entries[j]).category
}

impl RuleCollectionDefinition {
    pub open spec fn wf(&self) -> bool {
        categories_distinct(self.entries@)
    }

    /// Whether no category occurs twice.
    pub fn names_each_once(&self) -> (r: bool)
        ensures
            r == self.wf(),
            r == spec_names_each_once(self@),
    {
        assert(self.wf() == spec_names_each_once(self@)) by {
            if self.wf() {
                assert forall|i: int, j: int| 0 <= i < j < self@.len() implies (#[trigger] self@[i]).category != (
                #[trigger] self@[j]).category by {
                    assert(self.entries@[i].category != self.entries@[j].category);
                }
            }
            if spec_names_each_once(self@) {
                assert forall|i: int, j: int| 0 <= i < j < self.entries@.len() implies (
                #[trigger] self.entries@[i]).category != (#[trigger] self.entries@[j]).category by {
                    assert(self@[i].category != self@[j].category);
                }
            }
        }
        let mut j: usize = 0;
        while j < self.entries.len()
            invariant
                self.wf() == spec_names_each_once(self@),
                j <= self.entries@.len(),
                forall|a: int, b: int|
                    0 <= a < b < j ==> (#[trigger] self.entries@[a]).category != (#[trigger] self.entries@[b]).category,
            decreases self.entries@.len() - j,
        {
            let mut i: usize = 0;
            while i < j
                invariant
                    self.wf() == spec_names_each_once(self@),
                    i <= j < self.entries@.len(),
                    forall|a: int, b: int|
                        0 <= a < b < j ==> (#[trigger] self.entries@[a]).category != (
                        #[trigger] self.entries@[b]).category,
                    forall|a: int| 0 <= a < i ==> (#[trigger] self.entries@[a]).category != self.entries@[j as int].category,
                decreases j - i,
            {
                if self.entries[i].category == self.entries[j].category {
                    assert(self.entries@[i as int].category == self.entries@[j as int].category);
                    return false;
                }
                i += 1;
            }
            j += 1;
        }
        true
    }

    /// The place of `category` among the entries, if it has one.
    pub open spec fn spec_position(&self, category: Category) -> Option<int> {
        if exists|i: int| 0 <= i < self.entries@.len() && self.entries@[i].category == category {
            Some(choose|i: int| 0 <= i < self.entries@.len() && self.entries@[i].category == category)
        } else {
            None
        }
    }

    /// A definition without categories.
    pub fn new() -> (d: RuleCollectionDefinition)
        ensures
            d.wf(),
            d.entries@.len() == 0,
    {
        RuleCollectionDefinition { entries: Vec::new() }
    }

    fn position(&self, category: Category) -> (r: Option<usize>)
        requires
            self.wf(),
        ensures
            match r {
                Some(i) => self.spec_position(category) == Some(i as int) && i < self.entries@.len()
                    && self.entries@[i as int].category == category,
                None => self.spec_position(category).is_none(),
            },
    {
        let mut i: usize = 0;
        while i < self.entries.len()
            invariant
                self.wf(),
                i <= self.entries@.len(),
                forall|j: int| 0 <= j < i ==> (#[trigger] self.entries@[j]).category != category,
            decreases self.entries@.len() - i,
        {
            if self.entries[i].category == category {
                assert(self.spec_position(category) == Some(i as int)) by {
                    let c = choose|c: int|
                        0 <= c < self.entries@.len() && self.entries@[c].category == category;
                    if c < i {
                        assert(self.entries@[c].category != category);
                    } else if c > i {
                        assert(self.entries@[i as int].category != self.entries@[c].category);
                    }
                }
                return Some(i);
            }
            i += 1;
        }
        None
    }

    /// The rules of `category`, if the definition has that category.
    pub fn get(&self, category: &Category) -> (r: Option<&RuleCategoryDefinition>)
        requires
            self.wf(),
        ensures
            match r {
                Some(d) => self.spec_position(*category) matches Some(i) && *d == self.entries@[i].definition,
                None => self.spec_position(*category).is_none(),
            },
    {
        match self.position(*category) {
            Some(i) => Some(&self.entries[i].definition),
            None => None,
        }
    }

    /// The rules of `category`, to change them.
    pub fn get_mut(&mut self, category: &Category) -> (r: Option<&mut RuleCategoryDefinition>)
        requires
            old(self).wf(),
        ensures
            final(self).wf(),
            match r {
                Some(d) => old(self).spec_position(*category) matches Some(i) && *d == old(
                    self,
                ).entries@[i].definition && final(self).entries@ == old(self).entries@.update(
                    i,
                    CategoryEntry { category: *category, definition: *final(d) },
                ),
                None => old(self).spec_position(*category).is_none() && *final(self) == *old(self),
            },
    {
        match self.position(*category) {
            Some(i) => Some(&mut self.entries[i].definition),
            None => None,
        }
    }

    /// Adds `category` with its rules; a category that the definition already
    /// has is handed back unchanged.
    pub fn insert(&mut self, category: Category, definition: RuleCategoryDefinition) -> (r: Option<
        RuleCategoryDefinition,
    >)
        requires
            old(self).wf(),
        ensures
            final(self).wf(),
            match r {
                None => old(self).spec_position(category).is_none() && final(self).entries@ == old(
                    self,
                ).entries@.push(CategoryEntry { category, definition }),
                Some(d) => old(self).spec_position(category).is_some() && d == definition && *final(self)
                    == *old(self),
            },
    {
        match self.position(category) {
            Some(_) => Some(definition),
            None => {
                self.entries.push(CategoryEntry { category, definition });
                None
            },
        }
    }
}

/// The text of the definition of a built-in grammar.
pub open spec fn spec_builtin_ruleset(syntax: Syntax) -> Seq<char> {
    match syntax {
        Syntax::Standard => STANDARD@,
        Syntax::LaTeX => LATEX@,
    }
}

/// The text of the definition of a built-in grammar, in JSON.
pub fn get_builtin_ruleset(syntax: &Syntax) -> (r: Option<&'static str>)
    ensures
        r matches Some(text) && text@ == spec_builtin_ruleset(*syntax),
{
    match syntax {
        Syntax::Standard => Some(STANDARD),
        Syntax::LaTeX => Some(LATEX),
    }
}

/// Whether the outermost object of a JSON text is written with a name
/// twice: it is written with more members than the tree of the text holds.
pub open spec fn spec_repeats_a_name(json: Seq<char>, tree: JsonValue) -> bool {
    tree matches JsonValue::Object(members) && spec_written_members(vstd::utf8::encode_utf8(json))
        != members@.len()
}

/// The grammar definition that a JSON text holds, where it is well-formed
/// JSON, names no category twice, and holds a definition.
pub open spec fn spec_definitions(json: Seq<char>) -> Option<Seq<CategoryEntryView>> {
    match spec_load(json) {
        Some(tree) => if spec_repeats_a_name(json, tree) {
            None
        } else {
            spec_decode(tree)
        },
        None => None,
    }
}

/// Reads a grammar definition from a JSON text. A text that is not
/// well-formed JSON, that names a category twice or that holds no definition
/// is a `RuleParseError`.
pub fn definitions_from_json(json: &str) -> (r: Result<RuleCollectionDefinition, Error>)
    ensures
        match r {
            Ok(d) => d.wf() && spec_definitions(json@) == Some(d@),
            Err(e) => e.error_type == ErrorType::RuleParseError && spec_definitions(json@).is_none(),
        },
{
    match load(json) {
        Some(tree) => {
            let repeats = match &tree {
                JsonValue::Object(members) => written_members(json) != members.len(),
                _ => false,
            };
            if repeats {
                Err(Error::new(ErrorType::RuleParseError, "JSON error in rule definition: a category is named twice"))
            } else {
                decode_definitions(&tree)
            }
        },
        None => Err(Error::new(ErrorType::RuleParseError, "JSON error in rule definition")),
    }
}

/// The definition of a built-in grammar, to change it or to build a parser from it.
pub fn get_definitions(syntax: Syntax) -> (r: Result<RuleCollectionDefinition, Error>)
    ensures
        match r {
            Ok(d) => d.wf() && spec_definitions(spec_builtin_ruleset(syntax)) == Some(d@),
            Err(e) => e.error_type == ErrorType::RuleParseError && spec_definitions(
                spec_builtin_ruleset(syntax),
            ).is_none(),
        },
{
    match syntax {
        Syntax::Standard => definitions_from_json(STANDARD),
        Syntax::LaTeX => definitions_from_json(LATEX),
    }
}

} // verus!
