use native_bridge::composer::{
    entry_point, providers, Capability, ComposeError, EntryPoint, Phase, Platform, RuntimeContext,
};
use native_bridge::greeting::greet;
use native_bridge::registry::{dispatch, Arg, CommandRegistry, Handler, InvokeError, RegisterError};

fn serving() -> RuntimeContext {
    RuntimeContext::compose(&providers(), &vec![true, true, true, true]).unwrap()
}

#[test]
fn greet_world() {
    assert_eq!(greet("World"), "Hello, World! You've been greeted from Rust!");
}

#[test]
fn greet_empty_name() {
    assert_eq!(greet(""), "Hello, ! You've been greeted from Rust!");
}

#[test]
fn greet_non_ascii_name() {
    assert_eq!(greet("Zoë"), "Hello, Zoë! You've been greeted from Rust!");
}

#[test]
fn registered_greeting_invoked_with_world() {
    let mut reg = CommandRegistry::new();
    assert_eq!(reg.register("greet", Handler::Greet), Ok(()));
    let r = reg.invoke("greet", &vec![Arg::Text(String::from("World"))]);
    assert_eq!(r, Ok(String::from("Hello, World! You've been greeted from Rust!")));
}

#[test]
fn registering_a_name_twice_is_refused() {
    let mut reg = CommandRegistry::new();
    assert_eq!(reg.register("greet", Handler::Greet), Ok(()));
    assert_eq!(reg.register("greet", Handler::Greet), Err(RegisterError::DuplicateName));
    assert_eq!(reg.len(), 1);
}

#[test]
fn distinct_names_can_share_a_handler() {
    let mut reg = CommandRegistry::new();
    assert_eq!(reg.register("greet", Handler::Greet), Ok(()));
    assert_eq!(reg.register("hello", Handler::Greet), Ok(()));
    assert_eq!(reg.len(), 2);
    let r = reg.invoke("hello", &vec![Arg::Text(String::from("Ann"))]);
    assert_eq!(r, Ok(String::from("Hello, Ann! You've been greeted from Rust!")));
}

#[test]
fn unregistered_name_is_not_found() {
    let ctx = serving();
    let args = vec![Arg::Text(String::from("World"))];
    assert_eq!(ctx.invoke("greeting", &args), Err(InvokeError::NotFound));
    assert_eq!(ctx.invoke("", &vec![]), Err(InvokeError::NotFound));
    assert_eq!(ctx.invoke("Greet", &args), Err(InvokeError::NotFound));
    // a successful call in between changes nothing
    assert!(ctx.invoke("greet", &args).is_ok());
    assert_eq!(ctx.invoke("greeting", &args), Err(InvokeError::NotFound));
}

#[test]
fn empty_registry_finds_nothing() {
    let reg = CommandRegistry::new();
    assert_eq!(reg.invoke("greet", &vec![Arg::Text(String::from("x"))]), Err(InvokeError::NotFound));
}

#[test]
fn malformed_arguments_are_rejected() {
    let ctx = serving();
    assert_eq!(ctx.invoke("greet", &vec![]), Err(InvokeError::InvalidArguments));
    assert_eq!(ctx.invoke("greet", &vec![Arg::Number(3)]), Err(InvokeError::InvalidArguments));
    assert_eq!(ctx.invoke("greet", &vec![Arg::Flag(true)]), Err(InvokeError::InvalidArguments));
    let two = vec![Arg::Text(String::from("a")), Arg::Text(String::from("b"))];
    assert_eq!(ctx.invoke("greet", &two), Err(InvokeError::InvalidArguments));
}

#[test]
fn dispatch_runs_the_handler() {
    assert_eq!(
        dispatch(Handler::Greet, &vec![Arg::Text(String::from("Bob"))]),
        Ok(String::from("Hello, Bob! You've been greeted from Rust!"))
    );
    assert_eq!(dispatch(Handler::Greet, &vec![Arg::Number(1)]), Err(InvokeError::InvalidArguments));
}

#[test]
fn registered_commands_succeed_repeatedly() {
    let ctx = serving();
    let args = vec![Arg::Text(String::from("World"))];
    let first = ctx.invoke("greet", &args);
    let second = ctx.invoke("greet", &args);
    assert_eq!(first, second);
    assert!(first.is_ok());
}

#[test]
fn provider_order_is_fixed() {
    assert_eq!(
        providers(),
        vec![Capability::Opener, Capability::Storage, Capability::Filesystem, Capability::Network]
    );
}

#[test]
fn all_providers_ready_reaches_serving() {
    let ctx = serving();
    assert_eq!(ctx.phase_now(), Phase::Serving);
    assert_eq!(ctx.capability_list(), providers());
    assert!(ctx.has_capability(Capability::Storage));
    assert!(ctx.has_capability(Capability::Network));
}

#[test]
fn composition_is_deterministic() {
    let a = serving();
    let b = serving();
    assert_eq!(a.capability_list(), b.capability_list());
    let ready = vec![true, false, true, true];
    let e1 = RuntimeContext::compose(&providers(), &ready).err();
    let e2 = RuntimeContext::compose(&providers(), &ready).err();
    assert_eq!(e1, e2);
    assert!(e1.is_some());
}

#[test]
fn any_single_failure_aborts() {
    let order = providers();
    for k in 0..4 {
        let mut ready = vec![true, true, true, true];
        ready[k] = false;
        let r = RuntimeContext::compose(&order, &ready);
        assert_eq!(r.err(), Some(ComposeError { failed: order[k], position: k }));
    }
}

#[test]
fn first_failure_is_reported() {
    let r = RuntimeContext::compose(&providers(), &vec![true, true, false, false]);
    assert_eq!(r.err(), Some(ComposeError { failed: Capability::Filesystem, position: 2 }));
}

#[test]
fn subset_of_providers_is_attached_in_order() {
    let order = vec![Capability::Network, Capability::Opener];
    let ctx = RuntimeContext::compose(&order, &vec![true, true]).unwrap();
    assert_eq!(ctx.capability_list(), order);
    assert!(!ctx.has_capability(Capability::Storage));
}

#[test]
fn empty_composition_serves() {
    let ctx = RuntimeContext::compose(&vec![], &vec![]).unwrap();
    assert_eq!(ctx.phase_now(), Phase::Serving);
    assert_eq!(ctx.capability_list(), vec![]);
}

#[test]
fn terminate_keeps_providers() {
    let mut ctx = serving();
    ctx.terminate();
    assert_eq!(ctx.phase_now(), Phase::Terminated);
    assert_eq!(ctx.capability_list(), providers());
}

#[test]
fn entry_points_by_platform() {
    assert_eq!(entry_point(Platform::Desktop), EntryPoint::ProcessMain);
    assert_eq!(entry_point(Platform::Mobile), EntryPoint::PlatformLauncher);
}
