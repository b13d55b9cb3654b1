//! The protocol of one call through a native entry point: the scoped region
//! that gives access to host objects, and how each way a call can end is
//! reported to the host.
use vstd::prelude::*;

use crate::binder::{bind, kw_entries, kw_view, parse_fn_args, BindError, BindFault, ParamDescription};
use crate::kwargs::KwArgs;

verus! {

/// A failure as the host sees it.
#[derive(Debug, Clone, PartialEq, Eq)]
pub enum HostError<E> {
    /// The arguments did not fit the declared parameters.
    Type(BindError),
    /// An error raised by extraction, by the native function or by the
    /// conversion of its result, passed through as it is.
    Raised(E),
    /// The native code terminated abnormally.
    Runtime,
}

/// How the work inside one call ended.
pub enum CallOutcome<R, E> {
    /// The result, converted for the host.
    Returned(R),
    /// Binding the arguments failed; no native code ran.
    BindFailed(BindError),
    /// Extraction, the native function or the conversion raised an error.
    Raised(E),
    /// The native code terminated abnormally.
    Panicked,
}

/// The host's error indicator, and how many scoped regions are open.
pub struct HostState<E> {
    pub error: Option<HostError<E>>,
    pub open_regions: u64,
}

/// The error that the host sees for an outcome, if any.
pub open spec fn error_of<R, E>(outcome: CallOutcome<R, E>) -> Option<HostError<E>> {
    match outcome {
        CallOutcome::Returned(_) => None,
        CallOutcome::BindFailed(b) => Some(HostError::Type(b)),
        CallOutcome::Raised(e) => Some(HostError::Raised(e)),
        CallOutcome::Panicked => Some(HostError::Runtime),
    }
}

/// What a generated entry point knows of the native function it calls.
pub struct FunctionDescription {
    /// The name under which the host sees the function.
    pub name: &'static str,
    /// The documentation the host shows for it.
    pub doc: &'static str,
    /// The declared parameters, in order; without the module receiver.
    pub params: Vec<ParamDescription>,
    /// Positional arguments past the declared ones are captured.
    pub accept_args: bool,
    /// Keywords that name no parameter are captured.
    pub accept_kwargs: bool,
    /// The owning module is passed as an implicit first argument.
    pub pass_module: bool,
}

impl FunctionDescription {
    /// Binds the arguments of one call to the declared parameters, with the
    /// capture this function declares: the slots, then the positional
    /// arguments and keyword entries left over.
    pub fn bind_call<V: Copy>(&self, args: &[V], kwargs: Option<&KwArgs<V>>) -> (r: Result<
        (Vec<Option<V>>, Vec<V>, Option<KwArgs<V>>),
        BindError,
    >)
        requires
            match kwargs {
                Some(k) => k.wf(),
                None => true,
            },
        ensures
            match r {
                Ok((slots, a, k)) => bind(
                    self.params@,
                    args@,
                    kw_entries(kwargs),
                    self.accept_args,
                    self.accept_kwargs,
                ) == Ok::<_, BindFault>((slots@, a@, kw_view(k))),
                Err(e) => bind(
                    self.params@,
                    args@,
                    kw_entries(kwargs),
                    self.accept_args,
                    self.accept_kwargs,
                ) is Err && bind(
                    self.params@,
                    args@,
                    kw_entries(kwargs),
                    self.accept_args,
                    self.accept_kwargs,
                )->Err_0 == e@,
            },
    {
        let n = self.params.len();
        let mut slots: Vec<Option<V>> = Vec::new();
        while slots.len() < n
            invariant
                n == self.params@.len(),
                slots@.len() <= n,
            decreases n - slots@.len(),
        {
            slots.push(None);
        }
        match parse_fn_args(
            self.params.as_slice(),
            args,
            kwargs,
            self.accept_args,
            self.accept_kwargs,
            &mut slots,
        ) {
            Ok((a, k)) => Ok((slots, a, k)),
            Err(e) => Err(e),
        }
    }
}

/// The host state once a call has opened its region.
pub open spec fn entered<E>(s: HostState<E>) -> HostState<E> {
    HostState { error: s.error, open_regions: (s.open_regions + 1) as u64 }
}

/// The host state once a call that ended with `outcome` has closed its
/// region.
pub open spec fn completed<R, E>(s: HostState<E>, outcome: CallOutcome<R, E>) -> HostState<E> {
    HostState {
        error: match outcome {
            CallOutcome::Returned(_) => s.error,
            _ => error_of(outcome),
        },
        open_regions: (s.open_regions - 1) as u64,
    }
}

impl<E> HostState<E> {
    /// No error set and no region open.
    pub fn new() -> (r: Self)
        ensures
            r.error is None,
            r.open_regions == 0,
    {
        HostState { error: None, open_regions: 0 }
    }

    /// Opens the scoped region of a call.
    pub fn enter(&mut self)
        requires
            old(self).open_regions < u64::MAX,
        ensures
            final(self).open_regions == old(self).open_regions + 1,
            *final(self) == entered(*old(self)),
    {
        self.open_regions = self.open_regions + 1;
    }

    /// Ends a call: closes its region whatever the outcome, sets the error
    /// indicator on a failure, and hands back the result on success.
    pub fn complete<R>(&mut self, outcome: CallOutcome<R, E>) -> (r: Option<R>)
        requires
            old(self).open_regions > 0,
        ensures
            final(self).open_regions == old(self).open_regions - 1,
            *final(self) == completed(*old(self), outcome),
            match outcome {
                CallOutcome::Returned(v) => r == Some(v),
                _ => r is None,
            },
    {
        self.open_regions = self.open_regions - 1;
        match outcome {
            CallOutcome::Returned(v) => Some(v),
            CallOutcome::BindFailed(b) => {
                self.error = Some(HostError::Type(b));
                None
            },
            CallOutcome::Raised(e) => {
                self.error = Some(HostError::Raised(e));
                None
            },
            CallOutcome::Panicked => {
                self.error = Some(HostError::Runtime);
                None
            },
        }
    }
}

/// A call that terminates abnormally, entered and completed `k` times in a
/// row, leaves as many regions open as before and the host error indicator
/// set to the one runtime error.
pub proof fn law_failing_calls_release<E>(s: HostState<E>, k: nat)
    requires
        s.open_regions < u64::MAX,
    ensures
        after_failing_calls(s, k).open_regions == s.open_regions,
        k > 0 ==> after_failing_calls(s, k).error == Some(HostError::<E>::Runtime),
    decreases k,
{
    if k > 0 {
        law_failing_calls_release(s, (k - 1) as nat);
    }
}

/// The host state after `k` calls that each open their region, terminate
/// abnormally and complete.
pub open spec fn after_failing_calls<E>(s: HostState<E>, k: nat) -> HostState<E>
    decreases k,
{
    if k == 0 {
        s
    } else {
        completed(
            entered(after_failing_calls(s, (k - 1) as nat)),
            CallOutcome::<(), E>::Panicked,
        )
    }
}

} // verus!
