use pyo3_binding::binder::{BindError, ParamDescription};
use pyo3_binding::call::{CallOutcome, FunctionDescription, HostError, HostState};
use pyo3_binding::module_def::{BuildAction, BuildEvent, BuildState, ModuleDef};

#[test]
fn panicking_calls_release_region() {
    let mut s: HostState<String> = HostState::new();
    for _ in 0..3 {
        s.enter();
        assert_eq!(s.open_regions, 1);
        let r = s.complete::<i32>(CallOutcome::Panicked);
        assert_eq!(r, None);
        assert_eq!(s.open_regions, 0);
        assert_eq!(s.error, Some(HostError::Runtime));
    }
}

#[test]
fn call_outcomes_reported() {
    let mut s: HostState<String> = HostState::new();
    s.enter();
    assert_eq!(s.complete(CallOutcome::Returned(5)), Some(5));
    assert_eq!(s.error, None);
    s.enter();
    assert_eq!(s.complete::<i32>(CallOutcome::Raised("bad".to_string())), None);
    assert_eq!(s.error, Some(HostError::Raised("bad".to_string())));
    s.enter();
    let b = BindError::DuplicateArgument("a".to_string());
    assert_eq!(s.complete::<i32>(CallOutcome::BindFailed(b.clone())), None);
    assert_eq!(s.error, Some(HostError::Type(b)));
    assert_eq!(s.open_regions, 0);
}

#[test]
fn module_entry_name() {
    let m = ModuleDef::new("mymod");
    assert_eq!(m.name(), "mymod");
    assert_eq!(m.init_symbol(), "PyInit_mymod");
}

#[test]
fn module_build_success() {
    let m = ModuleDef::new("mymod");
    let (s, a) = m.build_step::<u32, String>(BuildState::Start, BuildEvent::Begin);
    assert_eq!(a, BuildAction::AllocateModule);
    let (s, a) = m.build_step::<u32, String>(s, BuildEvent::Allocated(Ok(7)));
    assert_eq!(a, BuildAction::AttachDoc(7));
    let (s, a) = m.build_step::<u32, String>(s, BuildEvent::DocAttached(Ok(())));
    assert_eq!(a, BuildAction::RunInitializer(7));
    let (s, a) = m.build_step::<u32, String>(s, BuildEvent::Initialized(Ok(())));
    assert_eq!(a, BuildAction::ReturnModule(7));
    assert_eq!(s, BuildState::Finished);
}

#[test]
fn module_build_failures() {
    let m = ModuleDef::new("mymod");
    let (s, a) = m.build_step::<u32, String>(
        BuildState::Allocating,
        BuildEvent::Allocated(Err("no memory".to_string())),
    );
    assert_eq!(a, BuildAction::ReturnError("no memory".to_string()));
    assert_eq!(s, BuildState::Finished);
    let (s, a) = m.build_step::<u32, String>(
        BuildState::Initializing(3),
        BuildEvent::Initialized(Err("init".to_string())),
    );
    assert_eq!(a, BuildAction::ReturnError("init".to_string()));
    assert_eq!(s, BuildState::Finished);
}

#[test]
fn function_binds_with_its_capture() {
    let f = FunctionDescription {
        name: "f",
        doc: "",
        params: vec![ParamDescription { name: "a", is_optional: false, kw_only: false }],
        accept_args: true,
        accept_kwargs: false,
        pass_module: false,
    };
    let (slots, rest, rest_kw) = f.bind_call::<i32>(&[4, 5, 6], None).unwrap();
    assert_eq!(slots, vec![Some(4)]);
    assert_eq!(rest, vec![5, 6]);
    assert!(rest_kw.is_none());
    let e = f.bind_call::<i32>(&[], None).err();
    assert_eq!(e, Some(BindError::MissingRequiredPositionalArgument("a".to_string())));
}
