//! Binding the positional and keyword arguments of a call to the declared
//! parameters of a native function.
use vstd::prelude::*;

use crate::kwargs::{has_key, keys_distinct, lookup, KwArgs};

verus! {

/// One declared parameter of a native function, in declaration order.
pub struct ParamDescription {
    /// The name of the parameter.
    pub name: &'static str,
    /// Whether the parameter may be left out.
    pub is_optional: bool,
    /// Whether the parameter can only be given by keyword.
    pub kw_only: bool,
}

/// Why a call's arguments could not be bound to the declared parameters.
#[derive(Debug, Clone, PartialEq, Eq)]
pub enum BindError {
    /// The parameter was given both by position and by keyword.
    DuplicateArgument(String),
    /// A required keyword-only parameter was not given.
    MissingRequiredKeywordArgument(String),
    /// A required positional parameter was not given.
    MissingRequiredPositionalArgument(String),
    /// A keyword names no declared parameter.
    UnexpectedKeywordArgument(String),
    /// More positional arguments were given than parameters take them.
    TooManyPositionalArguments { expected: usize, got: usize },
}

/// What a [`BindError`] says, with names as character sequences.
pub enum BindFault {
    Duplicate(Seq<char>),
    MissingKeyword(Seq<char>),
    MissingPositional(Seq<char>),
    Unexpected(Seq<char>),
    TooMany(nat, nat),
}

impl View for BindError {
    type V = BindFault;

    open spec fn view(&self) -> BindFault {
        match self {
            BindError::DuplicateArgument(n) => BindFault::Duplicate(n@),
            BindError::MissingRequiredKeywordArgument(n) => BindFault::MissingKeyword(n@),
            BindError::MissingRequiredPositionalArgument(n) => BindFault::MissingPositional(n@),
            BindError::UnexpectedKeywordArgument(n) => BindFault::Unexpected(n@),
            BindError::TooManyPositionalArguments { expected, got } => BindFault::TooMany(
                *expected as nat,
                *got as nat,
            ),
        }
    }
}

/// Some parameter before index `i` is named `name`.
pub open spec fn declared_before(params: Seq<ParamDescription>, i: int, name: Seq<char>) -> bool {
    exists|j: int| 0 <= j < i && j < params.len() && params[j].name@ == name
}

/// Some parameter is named `name`.
pub open spec fn is_declared(params: Seq<ParamDescription>, name: Seq<char>) -> bool {
    declared_before(params, params.len() as int, name)
}

/// The keyword value that parameter `i` receives: the one under its name,
/// unless an earlier parameter of the same name has taken it.
pub open spec fn keyword_for<V>(
    params: Seq<ParamDescription>,
    kw: Seq<(Seq<char>, V)>,
    i: int,
) -> Option<V> {
    if declared_before(params, i, params[i].name@) {
        None
    } else {
        lookup(kw, params[i].name@)
    }
}

/// Parameter `i` takes the positional argument at its own index.
pub open spec fn takes_positional<V>(
    params: Seq<ParamDescription>,
    nargs: nat,
    kw: Seq<(Seq<char>, V)>,
    i: int,
) -> bool {
    keyword_for(params, kw, i) is None && !params[i].kw_only && i < nargs
}

/// The failure that parameter `i` causes on its own, if any.
pub open spec fn param_error<V>(
    params: Seq<ParamDescription>,
    nargs: nat,
    kw: Seq<(Seq<char>, V)>,
    i: int,
) -> Option<BindFault> {
    let p = params[i];
    if keyword_for(params, kw, i) is Some {
        if i < nargs {
            Some(BindFault::Duplicate(p.name@))
        } else {
            None
        }
    } else if p.kw_only {
        if !p.is_optional {
            Some(BindFault::MissingKeyword(p.name@))
        } else {
            None
        }
    } else if i < nargs || p.is_optional {
        None
    } else {
        Some(BindFault::MissingPositional(p.name@))
    }
}

/// The failure of the first parameter from index `i` on that causes one.
pub open spec fn first_param_error<V>(
    params: Seq<ParamDescription>,
    nargs: nat,
    kw: Seq<(Seq<char>, V)>,
    i: int,
) -> Option<BindFault>
    decreases params.len() - i,
{
    if i < 0 || i >= params.len() {
        None
    } else if param_error(params, nargs, kw, i) is Some {
        param_error(params, nargs, kw, i)
    } else {
        first_param_error(params, nargs, kw, i + 1)
    }
}

/// How many of the first `i` parameters take a positional argument.
pub open spec fn positional_used<V>(
    params: Seq<ParamDescription>,
    nargs: nat,
    kw: Seq<(Seq<char>, V)>,
    i: int,
) -> nat
    decreases i,
{
    if i <= 0 {
        0
    } else {
        positional_used(params, nargs, kw, i - 1) + if takes_positional(params, nargs, kw, i - 1) {
            1nat
        } else {
            0nat
        }
    }
}

/// The value bound to parameter `i`, if any.
pub open spec fn slot<V>(
    params: Seq<ParamDescription>,
    args: Seq<V>,
    kw: Seq<(Seq<char>, V)>,
    i: int,
) -> Option<V> {
    match keyword_for(params, kw, i) {
        Some(v) => Some(v),
        None => if !params[i].kw_only && i < args.len() {
            Some(args[i])
        } else {
            None
        },
    }
}

/// The keyword entries that name no declared parameter, in their order.
pub open spec fn unmatched<V>(params: Seq<ParamDescription>, kw: Seq<(Seq<char>, V)>) -> Seq<
    (Seq<char>, V),
> {
    kw.filter(undeclared_key(params))
}

/// Holds of a keyword entry whose key names no declared parameter.
pub open spec fn undeclared_key<V>(params: Seq<ParamDescription>) -> spec_fn((Seq<char>, V)) -> bool {
    |e: (Seq<char>, V)| !is_declared(params, e.0)
}

/// The outcome of binding `args` and `kw` to `params`: the slots, the
/// positional arguments left over, and the keyword entries left over.
pub open spec fn bind<V>(
    params: Seq<ParamDescription>,
    args: Seq<V>,
    kw: Seq<(Seq<char>, V)>,
    accept_args: bool,
    accept_kwargs: bool,
) -> Result<(Seq<Option<V>>, Seq<V>, Option<Seq<(Seq<char>, V)>>), BindFault> {
    let nargs = args.len();
    let used = positional_used(params, nargs, kw, params.len() as int);
    let rest = unmatched(params, kw);
    if first_param_error(params, nargs, kw, 0) is Some {
        Err(first_param_error(params, nargs, kw, 0)->Some_0)
    } else if !accept_kwargs && rest.len() > 0 {
        Err(BindFault::Unexpected(rest[0].0))
    } else if !accept_args && used < nargs {
        Err(BindFault::TooMany(used, nargs))
    } else {
        Ok(
            (
                Seq::new(params.len(), |i: int| slot(params, args, kw, i)),
                if accept_args {
                    args.subrange(used as int, nargs as int)
                } else {
                    args
                },
                if accept_kwargs && rest.len() > 0 {
                    Some(rest)
                } else {
                    None
                },
            ),
        )
    }
}

/// The entries of an optional keyword mapping; none when it is absent.
pub open spec fn kw_entries<V>(kwargs: Option<&KwArgs<V>>) -> Seq<(Seq<char>, V)> {
    match kwargs {
        Some(k) => k@,
        None => Seq::empty(),
    }
}

/// The entries of an optional keyword mapping, if it is there.
pub open spec fn kw_view<V>(kwargs: Option<KwArgs<V>>) -> Option<Seq<(Seq<char>, V)>> {
    match kwargs {
        Some(k) => Some(k@),
        None => None,
    }
}

/// Skipping parameters that cause no failure leaves the first failure as it is.
pub proof fn lemma_first_error_skip<V>(
    params: Seq<ParamDescription>,
    nargs: nat,
    kw: Seq<(Seq<char>, V)>,
    s: int,
    i: int,
)
    requires
        0 <= s <= i <= params.len(),
        forall|j: int| s <= j < i ==> param_error(params, nargs, kw, j) is None,
    ensures
        first_param_error(params, nargs, kw, s) == first_param_error(params, nargs, kw, i),
    decreases i - s,
{
    if s < i {
        lemma_first_error_skip(params, nargs, kw, s + 1, i);
    }
}

/// The first parameter that causes a failure decides the outcome of binding.
pub proof fn lemma_bind_fails_at<V>(
    params: Seq<ParamDescription>,
    args: Seq<V>,
    kw: Seq<(Seq<char>, V)>,
    accept_args: bool,
    accept_kwargs: bool,
    i: int,
)
    requires
        0 <= i < params.len(),
        forall|j: int| 0 <= j < i ==> param_error(params, args.len(), kw, j) is None,
        param_error(params, args.len(), kw, i) is Some,
    ensures
        bind(params, args, kw, accept_args, accept_kwargs) is Err,
        bind(params, args, kw, accept_args, accept_kwargs)->Err_0 == param_error(
            params,
            args.len(),
            kw,
            i,
        )->Some_0,
{
    lemma_first_error_skip(params, args.len(), kw, 0, i);
}

/// No more positional arguments are used than there are parameters or arguments.
pub proof fn lemma_positional_used_bound<V>(
    params: Seq<ParamDescription>,
    nargs: nat,
    kw: Seq<(Seq<char>, V)>,
    i: int,
)
    ensures
        positional_used(params, nargs, kw, i) <= if i <= 0 {
            0
        } else {
            i
        },
        positional_used(params, nargs, kw, i) <= nargs,
    decreases i,
{
    if i > 0 {
        lemma_positional_used_bound(params, nargs, kw, i - 1);
    }
}

/// Binds the positional arguments `args` and the keyword arguments `kwargs`
/// of one call to the declared parameters `params`.
///
/// Each parameter takes the keyword entry under its name, else (when it is
/// not keyword-only) the positional argument at its index. `output` receives
/// one slot per parameter. With `accept_args` the positional arguments that
/// no parameter took are handed back, else `args` as given; with
/// `accept_kwargs` the keyword entries that name no parameter are handed back
/// when there are any. The caller's mapping is only read.
pub fn parse_fn_args<V: Copy>(
    params: &[ParamDescription],
    args: &[V],
    kwargs: Option<&KwArgs<V>>,
    accept_args: bool,
    accept_kwargs: bool,
    output: &mut Vec<Option<V>>,
) -> (r: Result<(Vec<V>, Option<KwArgs<V>>), BindError>)
    requires
        old(output)@.len() == params@.len(),
        match kwargs {
            Some(k) => k.wf(),
            None => true,
        },
    ensures
        final(output)@.len() == params@.len(),
        match r {
            Ok((a, k)) => bind(params@, args@, kw_entries(kwargs), accept_args, accept_kwargs)
                == Ok::<_, BindFault>((final(output)@, a@, kw_view(k))) && match k {
                Some(m) => m.wf(),
                None => true,
            },
            Err(e) => bind(params@, args@, kw_entries(kwargs), accept_args, accept_kwargs) is Err
                && bind(params@, args@, kw_entries(kwargs), accept_args, accept_kwargs)->Err_0
                == e@,
        },
{
    let n = params.len();
    let nargs = args.len();
    let none_given: KwArgs<V> = KwArgs::new();
    let kw: &KwArgs<V> = match kwargs {
        Some(k) => k,
        None => &none_given,
    };
    let ghost kv = kw_entries(kwargs);
    let ghost ps = params@;
    assert(kw@ == kv);
    assert(ps == params@);
    let nk = kw.len();
    let mut taken: Vec<bool> = Vec::new();
    while taken.len() < nk
        invariant
            nk == kv.len(),
            taken@.len() <= nk,
            forall|k: int| 0 <= k < taken@.len() ==> !taken@[k],
        decreases nk - taken@.len(),
    {
        taken.push(false);
    }
    proof {
        assert forall|k: int| 0 <= k < kv.len() implies taken@[k] == declared_before(
            ps,
            0,
            kv[k].0,
        ) by {}
    }
    let mut used_args: usize = 0;
    let mut i: usize = 0;
    while i < n
        invariant
            ps == params@,
            n == ps.len(),
            nargs == args@.len(),
            kw.wf(),
            kw@ == kv,
            kv == kw_entries(kwargs),
            taken@.len() == kv.len(),
            output@.len() == n,
            i <= n,
            forall|j: int| 0 <= j < i ==> param_error(ps, nargs as nat, kv, j) is None,
            used_args == positional_used(ps, nargs as nat, kv, i as int),
            forall|j: int| 0 <= j < i ==> output@[j] == slot(ps, args@, kv, j),
            forall|k: int|
                0 <= k < kv.len() ==> taken@[k] == declared_before(ps, i as int, kv[k].0),
        decreases n - i,
    {
        let p = &params[i];
        let ghost name = p.name@;
        let ghost before = taken@;
        let found: Option<V> = match kw.position(p.name) {
            Some(k) => {
                if taken[k] {
                    None
                } else {
                    taken.set(k, true);
                    proof {
                        let c = choose|j: int| 0 <= j < kv.len() && kv[j].0 == name;
                        assert(c == k as int);
                    }
                    Some(kw.value_at(k))
                }
            },
            None => None,
        };
        proof {
            assert(found == keyword_for(ps, kv, i as int));
            assert forall|k: int| 0 <= k < kv.len() implies taken@[k] == declared_before(
                ps,
                i as int + 1,
                kv[k].0,
            ) by {
                if kv[k].0 == name {
                    assert(ps[i as int].name@ == kv[k].0);
                } else {
                    assert(taken@[k] == before[k]);
                    if declared_before(ps, i as int + 1, kv[k].0) {
                        let j = choose|j: int|
                            0 <= j < i as int + 1 && j < ps.len() && ps[j].name@ == kv[k].0;
                        assert(j != i as int);
                    }
                }
            }
        }
        match found {
            Some(v) => {
                if i < nargs {
                    proof {
                        lemma_bind_fails_at(ps, args@, kv, accept_args, accept_kwargs, i as int);
                    }
                    let e = BindError::DuplicateArgument(p.name.to_owned());
                    assert(param_error(ps, args@.len(), kv, i as int) == Some(
                        BindFault::Duplicate(name),
                    ));
                    assert(e@ == BindFault::Duplicate(name));
                    return Err(e);
                }
                output.set(i, Some(v));
            },
            None => {
                if p.kw_only {
                    if !p.is_optional {
                        proof {
                            lemma_bind_fails_at(ps, args@, kv, accept_args, accept_kwargs, i as int);
                        }
                        return Err(BindError::MissingRequiredKeywordArgument(p.name.to_owned()));
                    }
                    output.set(i, None);
                } else if i < nargs {
                    proof {
                        lemma_positional_used_bound(ps, nargs as nat, kv, i as int);
                    }
                    used_args = used_args + 1;
                    output.set(i, Some(args[i]));
                } else {
                    if !p.is_optional {
                        proof {
                            lemma_bind_fails_at(ps, args@, kv, accept_args, accept_kwargs, i as int);
                        }
                        let e = BindError::MissingRequiredPositionalArgument(p.name.to_owned());
                        assert(param_error(ps, args@.len(), kv, i as int) == Some(
                            BindFault::MissingPositional(name),
                        ));
                        assert(e@ == BindFault::MissingPositional(name));
                        return Err(e);
                    }
                    output.set(i, None);
                }
            },
        }
        i = i + 1;
    }
    proof {
        lemma_first_error_skip(ps, nargs as nat, kv, 0, n as int);
        lemma_positional_used_bound(ps, nargs as nat, kv, n as int);
        assert(output@ =~= Seq::new(ps.len(), |j: int| slot(ps, args@, kv, j)));
    }
    let mut rest: KwArgs<V> = KwArgs::new();
    let mut k: usize = 0;
    while k < nk
        invariant
            nk == kv.len(),
            kw.wf(),
            kw@ == kv,
            kv == kw_entries(kwargs),
            ps == params@,
            taken@.len() == kv.len(),
            k <= nk,
            rest.wf(),
            rest@ == unmatched(ps, kv.take(k as int)),
            forall|m: int| 0 <= m < kv.len() ==> taken@[m] == is_declared(ps, kv[m].0),
        decreases nk - k,
    {
        let ghost pre = kv.take(k as int);
        proof {
            reveal(Seq::filter);
            assert(kv.take(k as int + 1).drop_last() =~= pre);
        }
        if !taken[k] {
            proof {
                if has_key(rest@, kv[k as int].0) {
                    let m = choose|m: int| 0 <= m < rest@.len() && rest@[m].0 == kv[k as int].0;
                    assert(rest@.contains(rest@[m]));
                    pre.lemma_filter_contains_rev(undeclared_key(ps), rest@[m]);
                    let q = choose|q: int| 0 <= q < pre.len() && pre[q] == rest@[m];
                    assert(kv[q].0 == kv[k as int].0);
                }
            }
            rest.push_new(kw.key_at(k), kw.value_at(k));
        }
        k = k + 1;
    }
    assert(kv.take(nk as int) =~= kv);
    if !accept_kwargs && rest.len() > 0 {
        return Err(BindError::UnexpectedKeywordArgument(rest.key_at(0)));
    }
    if !accept_args && used_args < nargs {
        return Err(BindError::TooManyPositionalArguments { expected: used_args, got: nargs });
    }
    let start: usize = if accept_args {
        used_args
    } else {
        0
    };
    let mut left: Vec<V> = Vec::new();
    let mut m: usize = start;
    while m < nargs
        invariant
            start <= m <= nargs,
            nargs == args@.len(),
            left@ == args@.subrange(start as int, m as int),
        decreases nargs - m,
    {
        left.push(args[m]);
        m = m + 1;
        assert(left@ =~= args@.subrange(start as int, m as int));
    }
    assert(args@.subrange(0, nargs as int) =~= args@);
    let rest_kw = if accept_kwargs && rest.len() > 0 {
        Some(rest)
    } else {
        None
    };
    Ok((left, rest_kw))
}

} // verus!
