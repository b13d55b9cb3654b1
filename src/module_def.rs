//! Building a host module: its loader entry name and the order of the steps
//! that allocate, document and initialise it.
use vstd::prelude::*;
use vstd::string::StringExecFns;

verus! {

/// A name the host can use for a module: not empty and without the
/// terminator character.
pub open spec fn valid_module_name(name: Seq<char>) -> bool {
    name.len() > 0 && !name.contains('\0')
}

/// The name of the loader entry point of the module `name`.
pub open spec fn init_symbol_of(name: Seq<char>) -> Seq<char> {
    "PyInit_"@ + name
}

/// The definition of one host module, made once per module.
pub struct ModuleDef {
    name: String,
}

impl View for ModuleDef {
    type V = Seq<char>;

    closed spec fn view(&self) -> Seq<char> {
        self.name@
    }
}

/// Where the building of a module stands.
#[derive(Debug, Clone, Copy, PartialEq, Eq)]
pub enum BuildState<M> {
    /// Nothing has been asked of the host yet.
    Start,
    /// The host was asked to allocate the module object.
    Allocating,
    /// The documentation is being attached to the module.
    Documenting(M),
    /// The caller's initializer runs on the module.
    Initializing(M),
    /// The module was returned or a failure was reported.
    Finished,
}

/// What the host reported on the last step.
pub enum BuildEvent<M, E> {
    /// Building is asked for.
    Begin,
    /// The module object, or the host's error when allocation failed.
    Allocated(Result<M, E>),
    /// The documentation was attached, or the host's error.
    DocAttached(Result<(), E>),
    /// The initializer returned.
    Initialized(Result<(), E>),
}

/// What is to be done next.
#[derive(Debug, Clone, PartialEq, Eq)]
pub enum BuildAction<M, E> {
    /// Ask the host to allocate the module object.
    AllocateModule,
    /// Attach the documentation to the module.
    AttachDoc(M),
    /// Run the caller's initializer on the module.
    RunInitializer(M),
    /// Hand the module to the loader.
    ReturnModule(M),
    /// Report this failure to the loader.
    ReturnError(E),
}

/// The event that `state` waits for has the right kind.
pub open spec fn expects<M, E>(state: BuildState<M>, event: BuildEvent<M, E>) -> bool {
    match state {
        BuildState::Start => event is Begin,
        BuildState::Allocating => event is Allocated,
        BuildState::Documenting(_) => event is DocAttached,
        BuildState::Initializing(_) => event is Initialized,
        BuildState::Finished => false,
    }
}

impl ModuleDef {
    /// A module definition named `name`.
    pub fn new(name: &str) -> (r: Self)
        requires
            valid_module_name(name@),
        ensures
            r@ == name@,
    {
        ModuleDef { name: String::from_str(name) }
    }

    /// The name of the module.
    pub fn name(&self) -> (r: String)
        ensures
            r@ == self@,
    {
        self.name.clone()
    }

    /// The name under which the host's loader finds the entry point that
    /// builds this module.
    pub fn init_symbol(&self) -> (r: String)
        ensures
            r@ == init_symbol_of(self@),
    {
        let mut r = String::from_str("PyInit_");
        r.append(self.name.as_str());
        r
    }

    /// The next step of building the module, from where it stands and what
    /// the host reported last: allocate, attach the documentation, run the
    /// initializer, then hand the module over; any failure the host reports
    /// is handed back at once and ends the build.
    pub fn build_step<M: Copy, E>(&self, state: BuildState<M>, event: BuildEvent<M, E>) -> (r: (
        BuildState<M>,
        BuildAction<M, E>,
    ))
        requires
            expects(state, event),
        ensures
            match event {
                BuildEvent::Begin => r == (BuildState::<M>::Allocating, BuildAction::<
                    M,
                    E,
                >::AllocateModule),
                BuildEvent::Allocated(Ok(m)) => r == (BuildState::Documenting(m), BuildAction::<
                    M,
                    E,
                >::AttachDoc(m)),
                BuildEvent::DocAttached(Ok(())) => match state {
                    BuildState::Documenting(m) => r == (
                        BuildState::Initializing(m),
                        BuildAction::<M, E>::RunInitializer(m),
                    ),
                    _ => false,
                },
                BuildEvent::Initialized(Ok(())) => match state {
                    BuildState::Initializing(m) => r == (
                        BuildState::<M>::Finished,
                        BuildAction::<M, E>::ReturnModule(m),
                    ),
                    _ => false,
                },
                BuildEvent::Allocated(Err(e)) => r == (
                    BuildState::<M>::Finished,
                    BuildAction::<M, E>::ReturnError(e),
                ),
                BuildEvent::DocAttached(Err(e)) => r == (
                    BuildState::<M>::Finished,
                    BuildAction::<M, E>::ReturnError(e),
                ),
                BuildEvent::Initialized(Err(e)) => r == (
                    BuildState::<M>::Finished,
                    BuildAction::<M, E>::ReturnError(e),
                ),
            },
    {
        match event {
            BuildEvent::Begin => (BuildState::Allocating, BuildAction::AllocateModule),
            BuildEvent::Allocated(Ok(m)) => (BuildState::Documenting(m), BuildAction::AttachDoc(m)),
            BuildEvent::DocAttached(Ok(())) => match state {
                BuildState::Documenting(m) => (
                    BuildState::Initializing(m),
                    BuildAction::RunInitializer(m),
                ),
                _ => (BuildState::Finished, BuildAction::AllocateModule),
            },
            BuildEvent::Initialized(Ok(())) => match state {
                BuildState::Initializing(m) => (BuildState::Finished, BuildAction::ReturnModule(m)),
                _ => (BuildState::Finished, BuildAction::AllocateModule),
            },
            BuildEvent::Allocated(Err(e)) => (BuildState::Finished, BuildAction::ReturnError(e)),
            BuildEvent::DocAttached(Err(e)) => (BuildState::Finished, BuildAction::ReturnError(e)),
            BuildEvent::Initialized(Err(e)) => (BuildState::Finished, BuildAction::ReturnError(e)),
        }
    }
}

} // verus!
