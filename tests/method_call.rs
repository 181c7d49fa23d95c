use rudderc::method_call::{
    canonify_str, compile_method, Agent, Arg, Bundle, CompileError, Guard, MethodInfo, Promise,
};
use rudderc::technique::{Condition, Id, LeafReporting, Method};

fn s(x: &str) -> String {
    x.to_string()
}

fn method(condition: Condition, reporting: LeafReporting) -> Method {
    Method {
        name: s("Package present"),
        tags: None,
        condition,
        params: vec![(s("name"), s("nginx"))],
        method: s("package_present"),
        id: Id::from_str("m1").unwrap(),
        reporting,
    }
}

fn info(agents: Vec<Agent>) -> MethodInfo {
    MethodInfo {
        name: s("Package present"),
        bundle_name: s("package_present"),
        class_parameter: s("name"),
        parameter: vec![s("name")],
        agent_support: agents,
    }
}

fn leaf(bundle: &str, args: Vec<Arg>, guard: Guard) -> Promise {
    Promise {
        bundle: s(bundle),
        component: Some(s("Package present")),
        id: Some(s("m1_${report_data.directive_id}")),
        args,
        guard,
    }
}

fn context() -> Promise {
    leaf(
        "_method_reporting_context_v4",
        vec![Arg::Var(s("c_name")), Arg::Var(s("c_key")), Arg::Var(s("report_id"))],
        Guard::Always,
    )
}

fn call(guard: Guard) -> Promise {
    leaf("package_present", vec![Arg::Quoted(s("nginx"))], guard)
}

const NA: &str = "canonify(\"${class_prefix}_package_present_${name}\")";

fn na(guard: Guard) -> Promise {
    leaf("_classes_noop", vec![Arg::Raw(s(NA))], guard)
}

fn skip(condition: &str, guard: Guard) -> Promise {
    leaf(
        "log_rudder",
        vec![
            Arg::Quoted(format!(
                "Skipping method 'Package present' with key parameter '${{name}}' since condition '{}' is not reached",
                condition
            )),
            Arg::Quoted(s("${name}")),
            Arg::Raw(s(NA)),
            Arg::Raw(s(NA)),
            Arg::Raw(s("@{args}")),
        ],
        guard,
    )
}

fn body(m: &Method, i: &MethodInfo) -> Vec<Promise> {
    compile_method(m, i).unwrap().1.promises
}

#[test]
fn package_present_example() {
    let m = method(Condition::Defined, LeafReporting::Enabled);
    let (p, b) = compile_method(&m, &info(vec![Agent::CfengineCommunity])).unwrap();
    assert_eq!(
        p,
        Promise {
            bundle: s("call_m1"),
            component: None,
            id: Some(s("m1_${report_data.directive_id}")),
            args: vec![
                Arg::Quoted(s("Package present")),
                Arg::Quoted(s("${name}")),
                Arg::Quoted(s("m1")),
                Arg::Raw(s("@{args}")),
                Arg::Quoted(s("nginx")),
            ],
            guard: Guard::Always,
        }
    );
    assert_eq!(
        b,
        Bundle {
            name: s("call_m1"),
            parameters: vec![s("c_name"), s("c_key"), s("report_id"), s("args"), s("name")],
            promises: vec![context(), call(Guard::Always)],
        }
    );
}

#[test]
fn defined_condition_calls_method() {
    let m = method(Condition::Defined, LeafReporting::Enabled);
    let i = info(vec![Agent::Dsc, Agent::CfengineCommunity]);
    assert_eq!(body(&m, &i), vec![context(), call(Guard::Always)]);
}

#[test]
fn not_defined_condition_reports_na() {
    let m = method(Condition::NotDefined, LeafReporting::Enabled);
    let i = info(vec![Agent::CfengineCommunity]);
    assert_eq!(
        body(&m, &i),
        vec![context(), na(Guard::Always), skip("false", Guard::Always)]
    );
}

#[test]
fn expression_condition_guards_call_and_na() {
    let c = Condition::Expression(s("debian"));
    let m = method(c.clone(), LeafReporting::Enabled);
    let i = info(vec![Agent::CfengineCommunity]);
    assert_eq!(
        body(&m, &i),
        vec![
            context(),
            call(Guard::If(c.clone())),
            na(Guard::Unless(c.clone())),
            skip("debian", Guard::Unless(c)),
        ]
    );
}

#[test]
fn unsupported_method_is_unavailable() {
    let unavailable = leaf(
        "log_na_rudder",
        vec![
            Arg::Quoted(s(
                "'${name}' method is not available on classic Rudder agent, skip",
            )),
            Arg::Quoted(s("${name}")),
            Arg::Quoted(s("m1_${report_data.directive_id}")),
            Arg::Raw(s("@{args}")),
        ],
        Guard::Always,
    );
    for c in [
        Condition::Defined,
        Condition::NotDefined,
        Condition::Expression(s("linux")),
    ] {
        let m = method(c, LeafReporting::Enabled);
        assert_eq!(
            body(&m, &info(vec![Agent::Dsc])),
            vec![context(), unavailable.clone()]
        );
    }
}

#[test]
fn disabled_reporting_wraps_body() {
    let m = method(Condition::Defined, LeafReporting::Disabled);
    let i = info(vec![Agent::CfengineCommunity]);
    assert_eq!(
        body(&m, &i),
        vec![
            leaf("disable_reporting", vec![], Guard::Always),
            context(),
            call(Guard::Always),
            leaf("enable_reporting", vec![], Guard::Always),
        ]
    );
}

#[test]
fn missing_parameter_is_named() {
    for c in [
        Condition::Defined,
        Condition::NotDefined,
        Condition::Expression(s("linux")),
    ] {
        for r in [LeafReporting::Enabled, LeafReporting::Disabled] {
            let mut m = method(c.clone(), r);
            m.params = vec![(s("version"), s("1.0"))];
            let mut i = info(vec![Agent::CfengineCommunity]);
            i.parameter = vec![s("version"), s("name"), s("state")];
            assert_eq!(
                compile_method(&m, &i),
                Err(CompileError::MissingParameter(s("name")))
            );
        }
    }
}

#[test]
fn parameters_follow_signature_order() {
    let mut m = method(Condition::Defined, LeafReporting::Enabled);
    m.params = vec![(s("state"), s("present")), (s("name"), s("nginx"))];
    let mut i = info(vec![Agent::CfengineCommunity]);
    i.parameter = vec![s("name"), s("state")];
    let (p, b) = compile_method(&m, &i).unwrap();
    assert_eq!(&p.args[4..], &[Arg::Quoted(s("nginx")), Arg::Quoted(s("present"))]);
    assert_eq!(
        b.parameters,
        vec![s("c_name"), s("c_key"), s("report_id"), s("args"), s("name"), s("state")]
    );
}

#[test]
fn compilation_is_deterministic() {
    let m = method(Condition::Expression(s("linux")), LeafReporting::Disabled);
    let i = info(vec![Agent::CfengineCommunity]);
    let first = compile_method(&m, &i);
    let other = method(Condition::NotDefined, LeafReporting::Enabled);
    let _ = compile_method(&other, &i);
    assert_eq!(compile_method(&m, &i), first);
}

#[test]
fn bundle_name_is_canonified_id() {
    let mut m = method(Condition::Defined, LeafReporting::Enabled);
    m.id = Id::from_str("my-method-1").unwrap();
    let (p, b) = compile_method(&m, &info(vec![Agent::CfengineCommunity])).unwrap();
    assert_eq!(b.name, "call_my_method_1");
    assert_eq!(p.bundle, "call_my_method_1");
    assert_eq!(canonify_str("a-b.c_d é"), "a_b_c_d__");
}
