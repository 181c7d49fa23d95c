//! The technique tree: identifiers, items, conditions and reporting policies.
use vstd::prelude::*;

verus! {

/// Free-form YAML metadata attached to techniques and items; carried as is.
#[verifier::external_type_specification]
#[verifier::external_body]
pub struct ExYamlValue(serde_yaml::Value);

/// A character allowed in an identifier: ASCII letter or digit, `-` or `_`.
pub open spec fn id_char(c: char) -> bool {
    ('a' <= c && c <= 'z') || ('A' <= c && c <= 'Z') || ('0' <= c && c <= '9') || c == '-' || c
        == '_'
}

/// A string made of identifier characters only.
pub open spec fn valid_id(s: Seq<char>) -> bool {
    forall|i: int| 0 <= i < s.len() ==> id_char(#[trigger] s[i])
}

pub fn is_id_char(c: char) -> (r: bool)
    ensures
        r == id_char(c),
{
    ('a' <= c && c <= 'z') || ('A' <= c && c <= 'Z') || ('0' <= c && c <= '9') || c == '-' || c
        == '_'
}

/// Error raised when a string cannot be used as an identifier.
#[derive(Debug, Clone, PartialEq, Eq)]
pub enum IdError {
    /// The offending string.
    InvalidIdentifier(String),
}

/// Valid id for techniques, methods, etc.
///
/// Lowest common denominator between target platforms.
#[derive(Debug, PartialEq, Eq)]
pub struct Id {
    inner: String,
}

impl View for Id {
    type V = Seq<char>;

    closed spec fn view(&self) -> Seq<char> {
        self.inner@
    }
}

impl Clone for Id {
    fn clone(&self) -> (r: Id)
        ensures
            r@ == self@,
    {
        proof {
            use_type_invariant(self);
        }
        Id { inner: self.inner.clone() }
    }
}

impl Id {
    #[verifier::type_invariant]
    spec fn inv(&self) -> bool {
        valid_id(self.inner@)
    }

    /// Builds an id, refusing any string with a character that is not an ASCII
    /// letter, digit, `-` or `_`.
    pub fn from_str(s: &str) -> (r: Result<Id, IdError>)
        ensures
            valid_id(s@) <==> r is Ok,
            r matches Ok(id) ==> id@ == s@,
            r matches Err(IdError::InvalidIdentifier(t)) ==> t@ == s@,
    {
        let n = s.unicode_len();
        let mut i: usize = 0;
        while i < n
            invariant
                n == s@.len(),
                i <= n,
                forall|j: int| 0 <= j < i ==> id_char(#[trigger] s@[j]),
            decreases n - i,
        {
            if !is_id_char(s.get_char(i)) {
                return Err(IdError::InvalidIdentifier(String::from_str(s)));
            }
            i = i + 1;
        }
        Ok(Id { inner: String::from_str(s) })
    }

    /// The identifier's text.
    pub fn as_ref(&self) -> (r: &String)
        ensures
            r@ == self@,
            valid_id(r@),
    {
        proof {
            use_type_invariant(self);
        }
        &self.inner
    }

    /// The identifier's text, as an owned string.
    pub fn to_string(&self) -> (r: String)
        ensures
            r@ == self@,
    {
        self.inner.clone()
    }

    /// Gives up the identifier, keeping its text.
    pub fn into_string(self) -> (r: String)
        ensures
            r@ == self@,
    {
        self.inner
    }
}

/// Guard on an item's execution.
#[derive(Debug, Clone, PartialEq, Eq)]
pub enum Condition {
    /// Always run.
    Defined,
    /// Never run, by design.
    NotDefined,
    /// Run when the agent evaluates the expression to true.
    Expression(String),
}

/// A condition, with its expression as plain text.
pub enum ConditionModel {
    Defined,
    NotDefined,
    Expression(Seq<char>),
}

impl View for Condition {
    type V = ConditionModel;

    open spec fn view(&self) -> ConditionModel {
        match self {
            Condition::Defined => ConditionModel::Defined,
            Condition::NotDefined => ConditionModel::NotDefined,
            Condition::Expression(e) => ConditionModel::Expression(e@),
        }
    }
}

/// The text of a condition as the agent reads it.
pub open spec fn condition_text(c: ConditionModel) -> Seq<char> {
    match c {
        ConditionModel::Defined => "true"@,
        ConditionModel::NotDefined => "false"@,
        ConditionModel::Expression(e) => e,
    }
}

impl Condition {
    /// A copy of the condition.
    pub fn duplicate(&self) -> (r: Condition)
        ensures
            r@ == self@,
    {
        match self {
            Condition::Defined => Condition::Defined,
            Condition::NotDefined => Condition::NotDefined,
            Condition::Expression(e) => Condition::Expression(e.clone()),
        }
    }

    pub fn to_text(&self) -> (r: String)
        ensures
            r@ == condition_text(self@),
    {
        match self {
            Condition::Defined => String::from_str("true"),
            Condition::NotDefined => String::from_str("false"),
            Condition::Expression(e) => e.clone(),
        }
    }
}

/// How a block aggregates the compliance of its children.
#[derive(Debug, Clone, PartialEq, Eq)]
pub enum BlockReporting {
    WorstCaseWeightedSum,
    WorstCaseWeightedOne,
    Focus(String),
    Weighted,
    Disabled,
}

/// Canonical label of a block reporting policy.
pub open spec fn block_reporting_label(r: BlockReporting) -> Seq<char> {
    match r {
        BlockReporting::Disabled => "disabled"@,
        BlockReporting::Weighted => "weighted"@,
        BlockReporting::WorstCaseWeightedOne => "worst-case-weighted-one"@,
        BlockReporting::WorstCaseWeightedSum => "worst-case-weighted-sum"@,
        BlockReporting::Focus(s) => "focus("@ + s@ + ")"@,
    }
}

impl BlockReporting {
    /// The policy's canonical lowercase label.
    pub fn fmt(&self) -> (r: String)
        ensures
            r@ == block_reporting_label(*self),
    {
        match self {
            BlockReporting::Disabled => String::from_str("disabled"),
            BlockReporting::Weighted => String::from_str("weighted"),
            BlockReporting::WorstCaseWeightedOne => String::from_str("worst-case-weighted-one"),
            BlockReporting::WorstCaseWeightedSum => String::from_str("worst-case-weighted-sum"),
            BlockReporting::Focus(s) => {
                let mut r = String::from_str("focus(");
                r.append(s.as_str());
                r.append(")");
                r
            },
        }
    }

    pub fn to_string(&self) -> (r: String)
        ensures
            r@ == block_reporting_label(*self),
    {
        self.fmt()
    }
}

impl Default for BlockReporting {
    fn default() -> (r: BlockReporting)
        ensures
            r == BlockReporting::Weighted,
    {
        BlockReporting::Weighted
    }
}

/// Whether a leaf's outcome counts toward compliance.
#[derive(Debug, Clone, Copy, PartialEq, Eq)]
pub enum LeafReporting {
    Enabled,
    Disabled,
}

/// Canonical label of a leaf reporting policy.
pub open spec fn leaf_reporting_label(r: LeafReporting) -> Seq<char> {
    match r {
        LeafReporting::Enabled => "enabled"@,
        LeafReporting::Disabled => "disabled"@,
    }
}

impl LeafReporting {
    /// The policy's canonical lowercase label.
    pub fn to_string(&self) -> (r: String)
        ensures
            r@ == leaf_reporting_label(*self),
    {
        match self {
            LeafReporting::Enabled => String::from_str("enabled"),
            LeafReporting::Disabled => String::from_str("disabled"),
        }
    }
}

impl Default for LeafReporting {
    fn default() -> (r: LeafReporting)
        ensures
            r == LeafReporting::Enabled,
    {
        LeafReporting::Enabled
    }
}

/// A parameter declared by a technique.
#[derive(Debug, Clone, PartialEq, Eq)]
pub struct Parameter {
    pub id: Id,
    pub name: String,
    pub description: Option<String>,
    /// Name of the declared type.
    pub _type: String,
    pub may_be_empty: bool,
}

impl Parameter {
    /// Whether a parameter may be empty when the definition does not say.
    pub fn may_be_empty_default() -> (r: bool)
        ensures
            !r,
    {
        false
    }
}

/// A group of items sharing a condition and a reporting policy.
#[derive(Debug, PartialEq, Eq)]
pub struct Block {
    pub condition: Condition,
    pub name: String,
    pub tags: Option<serde_yaml::Value>,
    pub items: Vec<ItemKind>,
    pub id: Id,
    pub reporting: BlockReporting,
}

/// A call to a module.
#[derive(Debug, Clone, PartialEq, Eq)]
pub struct Module {
    pub name: String,
    pub tags: Option<serde_yaml::Value>,
    pub condition: Condition,
    /// Supplied parameter values, by parameter name.
    pub params: Vec<(String, String)>,
    pub module: String,
    pub id: Id,
    pub reporting: LeafReporting,
}

/// A call to a method of the library; `method` is the key under which its
/// metadata is looked up.
#[derive(Debug, Clone, PartialEq, Eq)]
pub struct Method {
    pub name: String,
    pub tags: Option<serde_yaml::Value>,
    pub condition: Condition,
    /// Supplied parameter values, by parameter name.
    pub params: Vec<(String, String)>,
    pub method: String,
    pub id: Id,
    pub reporting: LeafReporting,
}

/// A node of a technique's execution tree.
#[derive(Debug, PartialEq, Eq)]
pub enum ItemKind {
    Block(Block),
    Module(Module),
    Method(Method),
}

/// A technique: an ordered tree of items, with its metadata.
#[derive(Debug, PartialEq, Eq)]
pub struct Technique {
    pub format: usize,
    pub id: Id,
    pub name: String,
    pub version: String,
    pub tags: Option<serde_yaml::Value>,
    pub category: Option<String>,
    pub description: Option<String>,
    pub documentation: Option<String>,
    pub items: Vec<ItemKind>,
    pub parameters: Vec<Parameter>,
}

/// The variant an item record decodes to.
#[derive(Debug, Clone, Copy, PartialEq, Eq)]
pub enum ItemTag {
    Block,
    Method,
    Module,
}

/// Why an item record could not be classified.
#[derive(Debug, Clone, PartialEq, Eq)]
pub enum ItemError {
    /// None of `items`, `method`, `module` is present.
    Missing,
    /// Two or more of them are present; the keys found, in record order.
    Ambiguous(Vec<String>),
}

/// Whether a key is one of those that tell the variants apart.
pub open spec fn tag_key(k: Seq<char>) -> bool {
    k == "items"@ || k == "method"@ || k == "module"@
}

/// The disambiguating keys among `keys`, in order.
pub open spec fn tag_keys(keys: Seq<Seq<char>>) -> Seq<Seq<char>> {
    keys.filter(|k: Seq<char>| tag_key(k))
}

pub open spec fn tag_of_key(k: Seq<char>) -> ItemTag {
    if k == "items"@ {
        ItemTag::Block
    } else if k == "method"@ {
        ItemTag::Method
    } else {
        ItemTag::Module
    }
}

fn is_tag_key(k: &String) -> (r: bool)
    ensures
        r == tag_key(k@),
{
    let a = String::from_str("items");
    let b = String::from_str("method");
    let c = String::from_str("module");
    proof {
        reveal_strlit("items");
        reveal_strlit("method");
        reveal_strlit("module");
    }
    *k == a || *k == b || *k == c
}

/// Classifies an item record by the keys it holds: exactly one of `items`
/// (a block), `method` or `module` must be present.
pub fn classify_item(keys: &Vec<String>) -> (r: Result<ItemTag, ItemError>)
    ensures
        tag_keys(keys@.map_values(|k: String| k@)).len() == 1 ==> r == Ok::<ItemTag, ItemError>(
            tag_of_key(tag_keys(keys@.map_values(|k: String| k@))[0]),
        ),
        tag_keys(keys@.map_values(|k: String| k@)).len() == 0 ==> r == Err::<ItemTag, ItemError>(
            ItemError::Missing,
        ),
        tag_keys(keys@.map_values(|k: String| k@)).len() > 1 ==> (r matches Err(
            ItemError::Ambiguous(found),
        ) && found@.map_values(|k: String| k@) == tag_keys(keys@.map_values(|k: String| k@))),
{
    let ghost all = keys@.map_values(|k: String| k@);
    let mut found: Vec<String> = Vec::new();
    let mut i: usize = 0;
    while i < keys.len()
        invariant
            i <= keys@.len(),
            all == keys@.map_values(|k: String| k@),
            found@.map_values(|k: String| k@) == tag_keys(all.take(i as int)),
        decreases keys.len() - i,
    {
        let ghost before = found@;
        assert(all.take(i + 1) == all.take(i as int).push(all[i as int]));
        proof {
            all.take(i as int).lemma_filter_push(all[i as int], |k: Seq<char>| tag_key(k));
        }
        if is_tag_key(&keys[i]) {
            found.push(keys[i].clone());
            assert(found@.map_values(|k: String| k@) =~= before.map_values(|k: String| k@).push(
                keys@[i as int]@,
            ));
        }
        i = i + 1;
    }
    assert(all.take(keys@.len() as int) =~= all);
    if found.len() == 0 {
        Err(ItemError::Missing)
    } else if found.len() == 1 {
        let a = String::from_str("items");
        let b = String::from_str("method");
        proof {
            reveal_strlit("items");
            reveal_strlit("method");
        }
        if found[0] == a {
            Ok(ItemTag::Block)
        } else if found[0] == b {
            Ok(ItemTag::Method)
        } else {
            Ok(ItemTag::Module)
        }
    } else {
        Err(ItemError::Ambiguous(found))
    }
}

} // verus!
