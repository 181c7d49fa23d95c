//! Lowering of a method call into an agent bundle and the promise that calls it.
//!
//! The generated bundle carries the reporting boilerplate (reporting context,
//! not-applicable report) around the method call itself.
use vstd::prelude::*;

use crate::technique::{Condition, ConditionModel, LeafReporting, Method, condition_text};

verus! {

/// Agent variants a method may be available on.
#[derive(Debug, Clone, Copy, PartialEq, Eq)]
pub enum Agent {
    CfengineCommunity,
    Dsc,
}

/// Metadata of a library method, as found in the method registry.
#[derive(Debug, Clone, PartialEq, Eq)]
pub struct MethodInfo {
    /// Human readable name of the method.
    pub name: String,
    /// Bundle implementing the method.
    pub bundle_name: String,
    /// Name of the primary key parameter.
    pub class_parameter: String,
    /// Formal parameter names, in signature order.
    pub parameter: Vec<String>,
    /// Agents the method is available on.
    pub agent_support: Vec<Agent>,
}

/// A method's metadata over plain values.
pub struct MethodInfoModel {
    pub name: Seq<char>,
    pub bundle_name: Seq<char>,
    pub class_parameter: Seq<char>,
    pub parameter: Seq<Seq<char>>,
    /// Whether the method runs on the classic agent.
    pub supported: bool,
}

pub open spec fn strings_view(v: Seq<String>) -> Seq<Seq<char>> {
    v.map_values(|s: String| s@)
}

impl View for MethodInfo {
    type V = MethodInfoModel;

    open spec fn view(&self) -> MethodInfoModel {
        MethodInfoModel {
            name: self.name@,
            bundle_name: self.bundle_name@,
            class_parameter: self.class_parameter@,
            parameter: strings_view(self.parameter@),
            supported: self.agent_support@.contains(Agent::CfengineCommunity),
        }
    }
}

/// A method call over plain values.
pub struct MethodModel {
    pub name: Seq<char>,
    pub condition: ConditionModel,
    pub params: Seq<(Seq<char>, Seq<char>)>,
    pub id: Seq<char>,
    pub reporting: LeafReporting,
}

pub open spec fn pairs_view(v: Seq<(String, String)>) -> Seq<(Seq<char>, Seq<char>)> {
    v.map_values(|p: (String, String)| (p.0@, p.1@))
}

pub open spec fn method_model(m: Method) -> MethodModel {
    MethodModel {
        name: m.name@,
        condition: m.condition@,
        params: pairs_view(m.params@),
        id: m.id@,
        reporting: m.reporting,
    }
}

/// An argument handed to a bundle.
#[derive(Debug, Clone, PartialEq, Eq)]
pub enum Arg {
    /// A string, to be quoted and escaped by the renderer.
    Quoted(String),
    /// A bare reference to a variable of the bundle.
    Var(String),
    /// Text written as it is.
    Raw(String),
}

pub enum ArgModel {
    Quoted(Seq<char>),
    Var(Seq<char>),
    Raw(Seq<char>),
}

impl View for Arg {
    type V = ArgModel;

    open spec fn view(&self) -> ArgModel {
        match self {
            Arg::Quoted(s) => ArgModel::Quoted(s@),
            Arg::Var(s) => ArgModel::Var(s@),
            Arg::Raw(s) => ArgModel::Raw(s@),
        }
    }
}

/// When a promise applies.
#[derive(Debug, Clone, PartialEq, Eq)]
pub enum Guard {
    Always,
    /// Only where the condition holds.
    If(Condition),
    /// Only where the condition does not hold.
    Unless(Condition),
}

pub enum GuardModel {
    Always,
    If(ConditionModel),
    Unless(ConditionModel),
}

impl View for Guard {
    type V = GuardModel;

    open spec fn view(&self) -> GuardModel {
        match self {
            Guard::Always => GuardModel::Always,
            Guard::If(c) => GuardModel::If(c@),
            Guard::Unless(c) => GuardModel::Unless(c@),
        }
    }
}

pub open spec fn opt_view(o: Option<String>) -> Option<Seq<char>> {
    match o {
        Some(s) => Some(s@),
        None => None,
    }
}

pub open spec fn args_view(v: Seq<Arg>) -> Seq<ArgModel> {
    v.map_values(|a: Arg| a@)
}

/// A single statement: a call of a bundle, tagged with reporting metadata.
#[derive(Debug, Clone, PartialEq, Eq)]
pub struct Promise {
    pub bundle: String,
    pub component: Option<String>,
    pub id: Option<String>,
    pub args: Vec<Arg>,
    pub guard: Guard,
}

pub struct PromiseModel {
    pub bundle: Seq<char>,
    pub component: Option<Seq<char>>,
    pub id: Option<Seq<char>>,
    pub args: Seq<ArgModel>,
    pub guard: GuardModel,
}

impl View for Promise {
    type V = PromiseModel;

    open spec fn view(&self) -> PromiseModel {
        PromiseModel {
            bundle: self.bundle@,
            component: opt_view(self.component),
            id: opt_view(self.id),
            args: args_view(self.args@),
            guard: self.guard@,
        }
    }
}

/// A named group of promises with formal parameters.
#[derive(Debug, Clone, PartialEq, Eq)]
pub struct Bundle {
    pub name: String,
    pub parameters: Vec<String>,
    pub promises: Vec<Promise>,
}

pub struct BundleModel {
    pub name: Seq<char>,
    pub parameters: Seq<Seq<char>>,
    pub promises: Seq<PromiseModel>,
}

impl View for Bundle {
    type V = BundleModel;

    open spec fn view(&self) -> BundleModel {
        BundleModel {
            name: self.name@,
            parameters: strings_view(self.parameters@),
            promises: self.promises@.map_values(|p: Promise| p@),
        }
    }
}

/// A call of `bundle` with the reporting metadata of a method.
pub open spec fn use_bundle(
    bundle: Seq<char>,
    component: Option<Seq<char>>,
    id: Option<Seq<char>>,
    args: Seq<ArgModel>,
) -> PromiseModel {
    PromiseModel { bundle, component, id, args, guard: GuardModel::Always }
}

fn usebundle(bundle: String, component: Option<String>, id: Option<String>, args: Vec<Arg>) -> (r:
    Promise)
    ensures
        r@ == use_bundle(bundle@, opt_view(component), opt_view(id), args_view(args@)),
{
    Promise { bundle, component, id, args, guard: Guard::Always }
}

/// Token telling apart the reports of one method across directives.
pub open spec fn unique_token(id: Seq<char>) -> Seq<char> {
    id + "_${report_data.directive_id}"@
}

/// Reference to the value of the primary key parameter.
pub open spec fn key_reference(class_parameter: Seq<char>) -> Seq<char> {
    "${"@ + class_parameter + "}"@
}

/// A character kept by canonification: ASCII letter, digit or `_`.
pub open spec fn canon_keeps(c: char) -> bool {
    ('a' <= c && c <= 'z') || ('A' <= c && c <= 'Z') || ('0' <= c && c <= '9') || c == '_'
}

/// Every other character becomes `_`.
pub open spec fn canonify(s: Seq<char>) -> Seq<char> {
    s.map_values(|c: char| if canon_keeps(c) { c } else { '_' })
}

/// The value supplied for parameter `k`: the first pair with that name.
pub open spec fn lookup(ps: Seq<(Seq<char>, Seq<char>)>, k: Seq<char>) -> Option<Seq<char>>
    decreases ps.len(),
{
    if ps.len() == 0 {
        None
    } else if ps[0].0 == k {
        Some(ps[0].1)
    } else {
        lookup(ps.drop_first(), k)
    }
}

/// The values of the formal parameters, in order, or the first formal
/// parameter that has no value.
pub open spec fn resolve(ps: Seq<(Seq<char>, Seq<char>)>, formals: Seq<Seq<char>>) -> Result<
    Seq<Seq<char>>,
    Seq<char>,
>
    decreases formals.len(),
{
    if formals.len() == 0 {
        Ok(Seq::empty())
    } else {
        match resolve(ps, formals.drop_last()) {
            Err(p) => Err(p),
            Ok(vals) => match lookup(ps, formals.last()) {
                None => Err(formals.last()),
                Some(v) => Ok(vals.push(v)),
            },
        }
    }
}

pub open spec fn quoted_all(vals: Seq<Seq<char>>) -> Seq<ArgModel> {
    vals.map_values(|v: Seq<char>| ArgModel::Quoted(v))
}

/// A promise of the generated bundle, tagged with the method's reporting data.
pub open spec fn leaf(m: MethodModel, bundle: Seq<char>, args: Seq<ArgModel>) -> PromiseModel {
    use_bundle(bundle, Some(m.name), Some(unique_token(m.id)), args)
}

pub open spec fn reporting_context(m: MethodModel) -> PromiseModel {
    leaf(
        m,
        "_method_reporting_context_v4"@,
        seq![ArgModel::Var("c_name"@), ArgModel::Var("c_key"@), ArgModel::Var("report_id"@)],
    )
}

pub open spec fn method_promise(
    m: MethodModel,
    info: MethodInfoModel,
    vals: Seq<Seq<char>>,
) -> PromiseModel {
    leaf(m, info.bundle_name, quoted_all(vals))
}

/// Class raised to report the method as not applicable.
pub open spec fn na_condition(info: MethodInfoModel) -> Seq<char> {
    "canonify(\"${class_prefix}_"@ + info.bundle_name + "_"@ + key_reference(
        info.class_parameter,
    ) + "\")"@
}

pub open spec fn na_marker(m: MethodModel, info: MethodInfoModel) -> PromiseModel {
    leaf(m, "_classes_noop"@, seq![ArgModel::Raw(na_condition(info))])
}

pub open spec fn skip_message(m: MethodModel, info: MethodInfoModel) -> Seq<char> {
    "Skipping method '"@ + info.name + "' with key parameter '"@ + key_reference(
        info.class_parameter,
    ) + "' since condition '"@ + condition_text(m.condition) + "' is not reached"@
}

pub open spec fn skip_log(m: MethodModel, info: MethodInfoModel) -> PromiseModel {
    leaf(
        m,
        "log_rudder"@,
        seq![
            ArgModel::Quoted(skip_message(m, info)),
            ArgModel::Quoted(key_reference(info.class_parameter)),
            ArgModel::Raw(na_condition(info)),
            ArgModel::Raw(na_condition(info)),
            ArgModel::Raw("@{args}"@),
        ],
    )
}

pub open spec fn unavailable_message(info: MethodInfoModel) -> Seq<char> {
    "'"@ + key_reference(info.class_parameter)
        + "' method is not available on classic Rudder agent, skip"@
}

pub open spec fn unavailable_log(m: MethodModel, info: MethodInfoModel) -> PromiseModel {
    leaf(
        m,
        "log_na_rudder"@,
        seq![
            ArgModel::Quoted(unavailable_message(info)),
            ArgModel::Quoted(key_reference(info.class_parameter)),
            ArgModel::Quoted(unique_token(m.id)),
            ArgModel::Raw("@{args}"@),
        ],
    )
}

pub open spec fn guarded(p: PromiseModel, g: GuardModel) -> PromiseModel {
    PromiseModel { guard: g, ..p }
}

/// The promises selected by the condition and the agent's support.
pub open spec fn branch(m: MethodModel, info: MethodInfoModel, vals: Seq<Seq<char>>) -> Seq<
    PromiseModel,
> {
    if !info.supported {
        seq![reporting_context(m), unavailable_log(m, info)]
    } else {
        match m.condition {
            ConditionModel::Expression(_) => seq![
                reporting_context(m),
                guarded(method_promise(m, info, vals), GuardModel::If(m.condition)),
                guarded(na_marker(m, info), GuardModel::Unless(m.condition)),
                guarded(skip_log(m, info), GuardModel::Unless(m.condition)),
            ],
            ConditionModel::NotDefined => seq![
                reporting_context(m),
                na_marker(m, info),
                skip_log(m, info),
            ],
            ConditionModel::Defined => seq![reporting_context(m), method_promise(m, info, vals)],
        }
    }
}

pub open spec fn reporting_switch(m: MethodModel, bundle: Seq<char>) -> PromiseModel {
    leaf(m, bundle, Seq::empty())
}

/// The generated bundle's promises.
pub open spec fn bundle_body(m: MethodModel, info: MethodInfoModel, vals: Seq<Seq<char>>) -> Seq<
    PromiseModel,
> {
    match m.reporting {
        LeafReporting::Disabled => seq![reporting_switch(m, "disable_reporting"@)] + branch(
            m,
            info,
            vals,
        ) + seq![reporting_switch(m, "enable_reporting"@)],
        LeafReporting::Enabled => branch(m, info, vals),
    }
}

pub open spec fn call_bundle_name(m: MethodModel) -> Seq<char> {
    "call_"@ + canonify(m.id)
}

pub open spec fn calling_promise(
    m: MethodModel,
    info: MethodInfoModel,
    vals: Seq<Seq<char>>,
) -> PromiseModel {
    use_bundle(
        call_bundle_name(m),
        None,
        Some(unique_token(m.id)),
        seq![
            ArgModel::Quoted(m.name),
            ArgModel::Quoted(key_reference(info.class_parameter)),
            ArgModel::Quoted(m.id),
            ArgModel::Raw("@{args}"@),
        ] + quoted_all(vals),
    )
}

pub open spec fn bundle_parameters(info: MethodInfoModel) -> Seq<Seq<char>> {
    seq!["c_name"@, "c_key"@, "report_id"@, "args"@] + info.parameter
}

/// The calling promise and the bundle generated for a method, or the first
/// formal parameter that has no value.
pub open spec fn compiled(m: MethodModel, info: MethodInfoModel) -> Result<
    (PromiseModel, BundleModel),
    Seq<char>,
> {
    match resolve(m.params, info.parameter) {
        Err(p) => Err(p),
        Ok(vals) => Ok(
            (
                calling_promise(m, info, vals),
                BundleModel {
                    name: call_bundle_name(m),
                    parameters: bundle_parameters(info),
                    promises: bundle_body(m, info, vals),
                },
            ),
        ),
    }
}

/// Errors met while lowering a method.
#[derive(Debug, Clone, PartialEq, Eq)]
pub enum CompileError {
    /// A formal parameter of the method has no value; its name.
    MissingParameter(String),
}

pub open spec fn compiled_result(r: Result<(Promise, Bundle), CompileError>) -> Result<
    (PromiseModel, BundleModel),
    Seq<char>,
> {
    match r {
        Ok((p, b)) => Ok((p@, b@)),
        Err(CompileError::MissingParameter(n)) => Err(n@),
    }
}

fn str_of(s: &str) -> (r: String)
    ensures
        r@ == s@,
{
    String::from_str(s)
}

/// Replaces every character but ASCII letters, digits and `_` with `_`.
pub fn canonify_str(s: &str) -> (r: String)
    ensures
        r@ == canonify(s@),
{
    let n = s.unicode_len();
    let mut r = String::new();
    let mut i: usize = 0;
    proof {
        reveal_strlit("_");
        assert(canonify(s@.take(0)) =~= Seq::<char>::empty());
    }
    while i < n
        invariant
            n == s@.len(),
            i <= n,
            "_"@ == seq!['_'],
            r@ == canonify(s@.take(i as int)),
        decreases n - i,
    {
        let c = s.get_char(i);
        let keep = ('a' <= c && c <= 'z') || ('A' <= c && c <= 'Z') || ('0' <= c && c <= '9') || c
            == '_';
        if keep {
            let t = s.substring_char(i, i + 1);
            assert(t@ =~= seq![c]);
            r.append(t);
        } else {
            r.append("_");
        }
        assert(canonify(s@.take(i + 1)) =~= canonify(s@.take(i as int)).push(
            if canon_keeps(c) { c } else { '_' },
        ));
        i = i + 1;
    }
    assert(s@.take(n as int) =~= s@);
    r
}

/// The value supplied for parameter `k`.
fn lookup_param(ps: &Vec<(String, String)>, k: &String) -> (r: Option<String>)
    ensures
        opt_view(r) == lookup(pairs_view(ps@), k@),
{
    let ghost all = pairs_view(ps@);
    let mut i: usize = 0;
    assert(all.skip(0) =~= all);
    while i < ps.len()
        invariant
            i <= ps@.len(),
            all == pairs_view(ps@),
            lookup(all, k@) == lookup(all.skip(i as int), k@),
        decreases ps.len() - i,
    {
        assert(all.skip(i as int)[0] == all[i as int]);
        assert(all.skip(i as int).drop_first() =~= all.skip(i + 1));
        if ps[i].0 == *k {
            return Some(ps[i].1.clone());
        }
        i = i + 1;
    }
    None
}

/// The values of the formal parameters of `info`, in order.
fn resolve_params(m: &Method, info: &MethodInfo) -> (r: Result<Vec<String>, CompileError>)
    ensures
        match r {
            Ok(v) => resolve(pairs_view(m.params@), info@.parameter) == Ok::<
                Seq<Seq<char>>,
                Seq<char>,
            >(strings_view(v@)),
            Err(CompileError::MissingParameter(n)) => resolve(
                pairs_view(m.params@),
                info@.parameter,
            ) == Err::<Seq<Seq<char>>, Seq<char>>(n@),
        },
{
    let ghost ps = pairs_view(m.params@);
    let ghost formals = info@.parameter;
    let mut vals: Vec<String> = Vec::new();
    let mut i: usize = 0;
    assert(formals.take(0) =~= Seq::<Seq<char>>::empty());
    assert(strings_view(vals@) =~= Seq::<Seq<char>>::empty());
    while i < info.parameter.len()
        invariant
            i <= info.parameter@.len(),
            ps == pairs_view(m.params@),
            formals == info@.parameter,
            formals.len() == info.parameter@.len(),
            resolve(ps, formals.take(i as int)) == Ok::<Seq<Seq<char>>, Seq<char>>(
                strings_view(vals@),
            ),
        decreases info.parameter.len() - i,
    {
        let name = &info.parameter[i];
        assert(formals.take(i + 1).drop_last() =~= formals.take(i as int));
        assert(formals.take(i + 1).last() == name@);
        match lookup_param(&m.params, name) {
            Some(v) => {
                let ghost before = vals@;
                vals.push(v);
                assert(strings_view(vals@) =~= strings_view(before).push(v@));
            },
            None => {
                proof {
                    lemma_resolve_prefix_err(ps, formals, i as int + 1);
                }
                return Err(CompileError::MissingParameter(name.clone()));
            },
        }
        i = i + 1;
    }
    assert(formals.take(info.parameter@.len() as int) =~= formals);
    Ok(vals)
}

/// A missing parameter in a prefix of the formal parameters is reported for
/// the whole list.
proof fn lemma_resolve_prefix_err(
    ps: Seq<(Seq<char>, Seq<char>)>,
    formals: Seq<Seq<char>>,
    n: int,
)
    requires
        0 <= n <= formals.len(),
        resolve(ps, formals.take(n)) is Err,
    ensures
        resolve(ps, formals) == resolve(ps, formals.take(n)),
    decreases formals.len() - n,
{
    if n < formals.len() {
        assert(formals.take(n + 1).drop_last() =~= formals.take(n));
        lemma_resolve_prefix_err(ps, formals, n + 1);
    } else {
        assert(formals.take(n) =~= formals);
    }
}

fn quoted_args(vals: &Vec<String>) -> (r: Vec<Arg>)
    ensures
        args_view(r@) == quoted_all(strings_view(vals@)),
{
    let mut r: Vec<Arg> = Vec::new();
    let mut i: usize = 0;
    while i < vals.len()
        invariant
            i <= vals@.len(),
            args_view(r@) =~= quoted_all(strings_view(vals@.take(i as int))),
        decreases vals.len() - i,
    {
        let ghost before = r@;
        r.push(Arg::Quoted(vals[i].clone()));
        assert(args_view(r@) =~= args_view(before).push(ArgModel::Quoted(vals@[i as int]@)));
        assert(vals@.take(i + 1) =~= vals@.take(i as int).push(vals@[i as int]));
        assert(quoted_all(strings_view(vals@.take(i + 1))) =~= quoted_all(
            strings_view(vals@.take(i as int)),
        ).push(ArgModel::Quoted(vals@[i as int]@)));
        i = i + 1;
    }
    assert(vals@.take(vals@.len() as int) =~= vals@);
    r
}

fn key_ref(cp: &String) -> (r: String)
    ensures
        r@ == key_reference(cp@),
{
    let mut r = str_of("${");
    r.append(cp.as_str());
    r.append("}");
    r
}

fn unique_of(id: &String) -> (r: String)
    ensures
        r@ == unique_token(id@),
{
    let mut r = id.clone();
    r.append("_${report_data.directive_id}");
    r
}

fn na_cond(info: &MethodInfo) -> (r: String)
    ensures
        r@ == na_condition(info@),
{
    let mut r = str_of("canonify(\"${class_prefix}_");
    r.append(info.bundle_name.as_str());
    r.append("_");
    let k = key_ref(&info.class_parameter);
    r.append(k.as_str());
    r.append("\")");
    r
}

fn leaf_promise(m: &Method, bundle: &str, args: Vec<Arg>) -> (r: Promise)
    ensures
        r@ == leaf(method_model(*m), bundle@, args_view(args@)),
{
    usebundle(str_of(bundle), Some(m.name.clone()), Some(unique_of(m.id.as_ref())), args)
}

fn skip_msg(m: &Method, info: &MethodInfo) -> (r: String)
    ensures
        r@ == skip_message(method_model(*m), info@),
{
    let mut r = str_of("Skipping method '");
    r.append(info.name.as_str());
    r.append("' with key parameter '");
    let k = key_ref(&info.class_parameter);
    r.append(k.as_str());
    r.append("' since condition '");
    let c = m.condition.to_text();
    r.append(c.as_str());
    r.append("' is not reached");
    r
}

fn na_promise(m: &Method, info: &MethodInfo) -> (r: Promise)
    ensures
        r@ == na_marker(method_model(*m), info@),
{
    let mut args: Vec<Arg> = Vec::new();
    args.push(Arg::Raw(na_cond(info)));
    let r = leaf_promise(m, "_classes_noop", args);
    assert(args_view(args@) =~= seq![ArgModel::Raw(na_condition(info@))]);
    r
}

fn skip_promise(m: &Method, info: &MethodInfo) -> (r: Promise)
    ensures
        r@ == skip_log(method_model(*m), info@),
{
    let mut args: Vec<Arg> = Vec::new();
    args.push(Arg::Quoted(skip_msg(m, info)));
    args.push(Arg::Quoted(key_ref(&info.class_parameter)));
    args.push(Arg::Raw(na_cond(info)));
    args.push(Arg::Raw(na_cond(info)));
    args.push(Arg::Raw(str_of("@{args}")));
    let r = leaf_promise(m, "log_rudder", args);
    assert(args_view(args@) =~= seq![
        ArgModel::Quoted(skip_message(method_model(*m), info@)),
        ArgModel::Quoted(key_reference(info@.class_parameter)),
        ArgModel::Raw(na_condition(info@)),
        ArgModel::Raw(na_condition(info@)),
        ArgModel::Raw("@{args}"@),
    ]);
    r
}

fn unavailable_promise(m: &Method, info: &MethodInfo) -> (r: Promise)
    ensures
        r@ == unavailable_log(method_model(*m), info@),
{
    let mut msg = str_of("'");
    let k = key_ref(&info.class_parameter);
    msg.append(k.as_str());
    msg.append("' method is not available on classic Rudder agent, skip");
    let mut args: Vec<Arg> = Vec::new();
    args.push(Arg::Quoted(msg));
    args.push(Arg::Quoted(key_ref(&info.class_parameter)));
    args.push(Arg::Quoted(unique_of(m.id.as_ref())));
    args.push(Arg::Raw(str_of("@{args}")));
    let r = leaf_promise(m, "log_na_rudder", args);
    assert(args_view(args@) =~= seq![
        ArgModel::Quoted(unavailable_message(info@)),
        ArgModel::Quoted(key_reference(info@.class_parameter)),
        ArgModel::Quoted(unique_token(method_model(*m).id)),
        ArgModel::Raw("@{args}"@),
    ]);
    r
}

fn context_promise(m: &Method) -> (r: Promise)
    ensures
        r@ == reporting_context(method_model(*m)),
{
    let mut args: Vec<Arg> = Vec::new();
    args.push(Arg::Var(str_of("c_name")));
    args.push(Arg::Var(str_of("c_key")));
    args.push(Arg::Var(str_of("report_id")));
    let r = leaf_promise(m, "_method_reporting_context_v4", args);
    assert(args_view(args@) =~= seq![
        ArgModel::Var("c_name"@),
        ArgModel::Var("c_key"@),
        ArgModel::Var("report_id"@),
    ]);
    r
}

fn is_supported(info: &MethodInfo) -> (r: bool)
    ensures
        r == info@.supported,
{
    let mut i: usize = 0;
    while i < info.agent_support.len()
        invariant
            i <= info.agent_support@.len(),
            forall|j: int| 0 <= j < i ==> info.agent_support@[j] != Agent::CfengineCommunity,
        decreases info.agent_support.len() - i,
    {
        if let Agent::CfengineCommunity = info.agent_support[i] {
            assert(info.agent_support@[i as int] == Agent::CfengineCommunity);
            return true;
        }
        i = i + 1;
    }
    false
}

fn switch_promise(m: &Method, bundle: &str) -> (r: Promise)
    ensures
        r@ == reporting_switch(method_model(*m), bundle@),
{
    let args: Vec<Arg> = Vec::new();
    assert(args_view(args@) =~= Seq::<ArgModel>::empty());
    leaf_promise(m, bundle, args)
}

fn with_guard(p: Promise, g: Guard) -> (r: Promise)
    ensures
        r@ == guarded(p@, g@),
{
    Promise { bundle: p.bundle, component: p.component, id: p.id, args: p.args, guard: g }
}

pub open spec fn promises_view(v: Seq<Promise>) -> Seq<PromiseModel> {
    v.map_values(|p: Promise| p@)
}

/// Lowers a method call into the promise that calls its generated bundle and
/// that bundle, which holds the reporting context, the call itself under the
/// method's condition, the not-applicable report when it is skipped, and the
/// switches of reporting when the method's reporting is disabled.
///
/// Fails with the name of the first formal parameter of `info` for which the
/// method supplies no value.
pub fn compile_method(m: &Method, info: &MethodInfo) -> (r: Result<(Promise, Bundle), CompileError>)
    requires
        m.name@.len() > 0,
    ensures
        compiled_result(r) == compiled(method_model(*m), info@),
{
    let ghost mm = method_model(*m);
    let vals = match resolve_params(m, info) {
        Ok(v) => v,
        Err(e) => return Err(e),
    };
    let ghost vs = strings_view(vals@);
    let supported = is_supported(info);
    let mut promises: Vec<Promise> = Vec::new();
    if let LeafReporting::Disabled = m.reporting {
        promises.push(switch_promise(m, "disable_reporting"));
    }
    let ghost head = promises_view(promises@);
    promises.push(context_promise(m));
    if !supported {
        promises.push(unavailable_promise(m, info));
    } else {
        match &m.condition {
            Condition::Expression(_) => {
                let call = leaf_promise(m, info.bundle_name.as_str(), quoted_args(&vals));
                promises.push(with_guard(call, Guard::If(m.condition.duplicate())));
                promises.push(with_guard(na_promise(m, info), Guard::Unless(m.condition.duplicate())));
                promises.push(with_guard(skip_promise(m, info), Guard::Unless(m.condition.duplicate())));
            },
            Condition::NotDefined => {
                promises.push(na_promise(m, info));
                promises.push(skip_promise(m, info));
            },
            Condition::Defined => {
                promises.push(leaf_promise(m, info.bundle_name.as_str(), quoted_args(&vals)));
            },
        }
    }
    assert(promises_view(promises@) =~= head + branch(mm, info@, vs));
    let ghost mid = promises_view(promises@);
    if let LeafReporting::Disabled = m.reporting {
        promises.push(switch_promise(m, "enable_reporting"));
        assert(promises_view(promises@) =~= mid + seq![reporting_switch(mm, "enable_reporting"@)]);
    }
    assert(promises_view(promises@) =~= bundle_body(mm, info@, vs));
    let mut name = str_of("call_");
    let c = canonify_str(m.id.as_ref().as_str());
    name.append(c.as_str());
    let mut call_args: Vec<Arg> = Vec::new();
    call_args.push(Arg::Quoted(m.name.clone()));
    call_args.push(Arg::Quoted(key_ref(&info.class_parameter)));
    call_args.push(Arg::Quoted(m.id.as_ref().clone()));
    call_args.push(Arg::Raw(str_of("@{args}")));
    let ghost fixed = args_view(call_args@);
    assert(fixed =~= seq![
        ArgModel::Quoted(mm.name),
        ArgModel::Quoted(key_reference(info@.class_parameter)),
        ArgModel::Quoted(mm.id),
        ArgModel::Raw("@{args}"@),
    ]);
    let mut rest = quoted_args(&vals);
    call_args.append(&mut rest);
    assert(args_view(call_args@) =~= fixed + quoted_all(vs));
    let call = usebundle(name.clone(), None, Some(unique_of(m.id.as_ref())), call_args);
    let mut parameters: Vec<String> = Vec::new();
    parameters.push(str_of("c_name"));
    parameters.push(str_of("c_key"));
    parameters.push(str_of("report_id"));
    parameters.push(str_of("args"));
    let ghost fixed_params = strings_view(parameters@);
    let mut i: usize = 0;
    while i < info.parameter.len()
        invariant
            i <= info.parameter@.len(),
            strings_view(parameters@) =~= fixed_params + strings_view(info.parameter@.take(i as int)),
        decreases info.parameter.len() - i,
    {
        let ghost before = parameters@;
        parameters.push(info.parameter[i].clone());
        assert(info.parameter@.take(i + 1) =~= info.parameter@.take(i as int).push(info.parameter@[i as int]));
        assert(strings_view(parameters@) =~= strings_view(before).push(info.parameter@[i as int]@));
        i = i + 1;
    }
    assert(info.parameter@.take(info.parameter@.len() as int) =~= info.parameter@);
    assert(strings_view(parameters@) =~= bundle_parameters(info@));
    let b = Bundle { name, parameters, promises };
    assert(b@.promises =~= bundle_body(mm, info@, vs));
    Ok((call, b))
}

/// The values that a compiled method hands to its bundle.
pub open spec fn resolved_values(m: MethodModel, info: MethodInfoModel) -> Seq<Seq<char>> {
    resolve(m.params, info.parameter)->Ok_0
}

/// An unconditional method on an agent that supports it, with reporting
/// enabled, compiles to a bundle that sets the reporting context and calls the
/// method, and nothing else.
pub proof fn lemma_defined_body(m: MethodModel, info: MethodInfoModel)
    requires
        m.condition == ConditionModel::Defined,
        info.supported,
        m.reporting == LeafReporting::Enabled,
    ensures
        compiled(m, info) matches Ok((_, b)) ==> b.promises == seq![
            reporting_context(m),
            method_promise(m, info, resolved_values(m, info)),
        ],
{
}

/// A method whose condition never holds, on an agent that supports it, with
/// reporting enabled, compiles to a bundle that sets the reporting context,
/// reports the method as not applicable and logs the skip; the method is
/// never called.
pub proof fn lemma_not_defined_body(m: MethodModel, info: MethodInfoModel)
    requires
        m.condition == ConditionModel::NotDefined,
        info.supported,
        m.reporting == LeafReporting::Enabled,
    ensures
        compiled(m, info) matches Ok((_, b)) ==> b.promises == seq![
            reporting_context(m),
            na_marker(m, info),
            skip_log(m, info),
        ],
{
}

/// On an agent that does not support the method, whatever its condition and
/// with reporting enabled, the bundle sets the reporting context and logs that
/// the method is unavailable, and nothing else.
pub proof fn lemma_unsupported_body(m: MethodModel, info: MethodInfoModel)
    requires
        !info.supported,
        m.reporting == LeafReporting::Enabled,
    ensures
        compiled(m, info) matches Ok((_, b)) ==> b.promises == seq![
            reporting_context(m),
            unavailable_log(m, info),
        ],
{
}

/// Disabling a method's reporting wraps the promises that it would have with
/// reporting enabled between a switch that disables reporting and one that
/// enables it again; the rest of the output is the same.
pub proof fn lemma_disabled_reporting_wraps(m: MethodModel, info: MethodInfoModel)
    requires
        m.reporting == LeafReporting::Disabled,
    ensures
        ({
            let enabled = MethodModel { reporting: LeafReporting::Enabled, ..m };
            match (compiled(m, info), compiled(enabled, info)) {
                (Ok((p, b)), Ok((pe, be))) => p == pe && b.name == be.name && b.parameters
                    == be.parameters && b.promises == seq![
                    reporting_switch(m, "disable_reporting"@),
                ] + be.promises + seq![reporting_switch(m, "enable_reporting"@)],
                (Err(e), Err(ee)) => e == ee,
                _ => false,
            }
        }),
{
    let enabled = MethodModel { reporting: LeafReporting::Enabled, ..m };
    assert(reporting_context(enabled) == reporting_context(m));
}

proof fn lemma_resolve_missing(
    ps: Seq<(Seq<char>, Seq<char>)>,
    formals: Seq<Seq<char>>,
    p: Seq<char>,
)
    requires
        formals.contains(p),
        lookup(ps, p) is None,
    ensures
        resolve(ps, formals) matches Err(q) && formals.contains(q) && lookup(ps, q) is None,
    decreases formals.len(),
{
    let init = formals.drop_last();
    if formals.last() != p {
        let k = choose|k: int| 0 <= k < formals.len() && formals[k] == p;
        assert(init[k] == p);
        lemma_resolve_missing(ps, init, p);
        let q = resolve(ps, init)->Err_0;
        let j = choose|j: int| 0 <= j < init.len() && init[j] == q;
        assert(formals[j] == q);
    } else {
        match resolve(ps, init) {
            Err(q) => {
                lemma_resolve_err_in(ps, init);
                let j = choose|j: int| 0 <= j < init.len() && init[j] == q;
                assert(formals[j] == q);
            },
            Ok(_) => {
                assert(formals[formals.len() - 1] == p);
            },
        }
    }
}

proof fn lemma_resolve_err_in(ps: Seq<(Seq<char>, Seq<char>)>, formals: Seq<Seq<char>>)
    requires
        resolve(ps, formals) is Err,
    ensures
        resolve(ps, formals) matches Err(q) && formals.contains(q) && lookup(ps, q) is None,
    decreases formals.len(),
{
    let init = formals.drop_last();
    match resolve(ps, init) {
        Err(q) => {
            lemma_resolve_err_in(ps, init);
            let j = choose|j: int| 0 <= j < init.len() && init[j] == q;
            assert(formals[j] == q);
        },
        Ok(_) => {
            assert(formals[formals.len() - 1] == formals.last());
        },
    }
}

/// A method that supplies no value for a formal parameter `p` fails to
/// compile, whatever its condition and reporting, naming a missing formal
/// parameter; when `p` is the only one missing, it names `p`.
pub proof fn lemma_missing_parameter(m: MethodModel, info: MethodInfoModel, p: Seq<char>)
    requires
        info.parameter.contains(p),
        lookup(m.params, p) is None,
    ensures
        compiled(m, info) matches Err(q) && info.parameter.contains(q) && lookup(m.params, q) is None,
        (forall|k: int|
            0 <= k < info.parameter.len() && info.parameter[k] != p ==> lookup(
                m.params,
                #[trigger] info.parameter[k],
            ) is Some) ==> compiled(m, info) == Err::<(PromiseModel, BundleModel), Seq<char>>(p),
{
    lemma_resolve_missing(m.params, info.parameter, p);
}

/// Compiling equal methods against equal metadata gives equal results, so two
/// compilations of one method agree whatever was compiled in between.
pub proof fn lemma_compile_deterministic(
    m1: Method,
    info1: MethodInfo,
    r1: Result<(Promise, Bundle), CompileError>,
    m2: Method,
    info2: MethodInfo,
    r2: Result<(Promise, Bundle), CompileError>,
)
    requires
        method_model(m1) == method_model(m2),
        info1@ == info2@,
        compiled_result(r1) == compiled(method_model(m1), info1@),
        compiled_result(r2) == compiled(method_model(m2), info2@),
    ensures
        compiled_result(r1) == compiled_result(r2),
{
}

} // verus!
