//! Properties of argument binding that relate its inputs to its outcome.
use vstd::prelude::*;

use crate::binder::{
    bind, declared_before, first_param_error, is_declared, keyword_for, lemma_first_error_skip,
    param_error, positional_used, slot, undeclared_key, unmatched, BindFault, ParamDescription,
};
use crate::kwargs::{has_key, lookup};

verus! {

/// The number of parameters that are not keyword-only.
pub open spec fn count_positional(params: Seq<ParamDescription>) -> nat
    decreases params.len(),
{
    if params.len() == 0 {
        0
    } else {
        count_positional(params.drop_last()) + if params.last().kw_only {
            0nat
        } else {
            1nat
        }
    }
}

/// Without keywords, no parameter receives a keyword value.
proof fn lemma_no_keywords<V>(params: Seq<ParamDescription>, i: int)
    ensures
        keyword_for(params, Seq::<(Seq<char>, V)>::empty(), i) is None,
{
}

/// The first failure, when every failure up to `i` is a duplicate and
/// parameter `i` fails, is a duplicate.
proof fn lemma_first_error_duplicate<V>(
    params: Seq<ParamDescription>,
    nargs: nat,
    kw: Seq<(Seq<char>, V)>,
    s: int,
    i: int,
)
    requires
        0 <= s <= i < params.len(),
        param_error(params, nargs, kw, i) is Some,
        forall|j: int|
            s <= j <= i ==> match #[trigger] param_error(params, nargs, kw, j) {
                Some(f) => f is Duplicate,
                None => true,
            },
    ensures
        first_param_error(params, nargs, kw, s) is Some,
        first_param_error(params, nargs, kw, s)->Some_0 is Duplicate,
    decreases i - s,
{
    if s < i && param_error(params, nargs, kw, s) is None {
        lemma_first_error_duplicate(params, nargs, kw, s + 1, i);
    }
}

/// Without keywords and with only positional parameters, the first `k` of
/// them required: a call with at least `k` and at most all of them given by
/// position binds each argument to the parameter at its index, leaves the
/// other parameters empty, and leaves nothing over.
pub proof fn law_positional_fill<V>(
    params: Seq<ParamDescription>,
    args: Seq<V>,
    k: int,
    accept_args: bool,
    accept_kwargs: bool,
)
    requires
        0 <= k <= args.len() <= params.len(),
        forall|j: int| 0 <= j < params.len() ==> !(#[trigger] params[j]).kw_only,
        forall|j: int| 0 <= j < params.len() ==> ((#[trigger] params[j]).is_optional <==> j >= k),
    ensures
        bind(params, args, Seq::empty(), accept_args, accept_kwargs) is Ok,
        bind(params, args, Seq::empty(), accept_args, accept_kwargs)->Ok_0 == (
            Seq::new(
                params.len(),
                |j: int|
                    if j < args.len() {
                        Some(args[j])
                    } else {
                        None
                    },
            ),
            if accept_args {
                Seq::<V>::empty()
            } else {
                args
            },
            None::<Seq<(Seq<char>, V)>>,
        ),
{
    let kw = Seq::<(Seq<char>, V)>::empty();
    let n = params.len();
    let nargs = args.len();
    assert forall|j: int| 0 <= j < n implies param_error(params, nargs, kw, j) is None by {
        lemma_no_keywords::<V>(params, j);
    }
    lemma_first_error_skip(params, nargs, kw, 0, n as int);
    assert forall|i: int| 0 <= i <= n implies positional_used(params, nargs, kw, i) == if i
        <= nargs {
        i
    } else {
        nargs as int
    } by {
        lemma_used_no_keywords(params, args, i);
    }
    reveal(Seq::filter);
    assert(unmatched(params, kw) =~= kw);
    assert forall|j: int| 0 <= j < n implies slot(params, args, kw, j) == if j < args.len() {
        Some(args[j])
    } else {
        None
    } by {
        lemma_no_keywords::<V>(params, j);
    }
    let b = bind(params, args, kw, accept_args, accept_kwargs);
    assert(b->Ok_0.0 =~= Seq::new(
        params.len(),
        |j: int|
            if j < args.len() {
                Some(args[j])
            } else {
                None
            },
    ));
    assert(args.subrange(nargs as int, nargs as int) =~= Seq::<V>::empty());
}

/// Without keywords and with only positional parameters, the first
/// `min(i, nargs)` of the first `i` parameters take a positional argument.
proof fn lemma_used_no_keywords<V>(params: Seq<ParamDescription>, args: Seq<V>, i: int)
    requires
        0 <= i <= params.len(),
        forall|j: int| 0 <= j < params.len() ==> !(#[trigger] params[j]).kw_only,
    ensures
        positional_used(params, args.len(), Seq::<(Seq<char>, V)>::empty(), i) == if i
            <= args.len() {
            i
        } else {
            args.len() as int
        },
    decreases i,
{
    if i > 0 {
        lemma_used_no_keywords(params, args, i - 1);
        lemma_no_keywords::<V>(params, i - 1);
    }
}

/// A parameter given both by position and by keyword makes binding fail
/// with a duplicate-argument error, whatever else the call holds, when no
/// required keyword-only parameter stands before it.
pub proof fn law_duplicate<V>(
    params: Seq<ParamDescription>,
    args: Seq<V>,
    kw: Seq<(Seq<char>, V)>,
    accept_args: bool,
    accept_kwargs: bool,
    i: int,
)
    requires
        0 <= i < params.len(),
        i < args.len(),
        has_key(kw, params[i].name@),
        forall|j: int|
            0 <= j < i ==> !((#[trigger] params[j]).kw_only && !params[j].is_optional),
    ensures
        bind(params, args, kw, accept_args, accept_kwargs) is Err,
        bind(params, args, kw, accept_args, accept_kwargs)->Err_0 is Duplicate,
    decreases i,
{
    let nargs = args.len();
    if declared_before(params, i, params[i].name@) {
        let j = choose|j: int| 0 <= j < i && j < params.len() && params[j].name@ == params[i].name@;
        law_duplicate(params, args, kw, accept_args, accept_kwargs, j);
    } else {
        assert forall|j: int| 0 <= j <= i implies match #[trigger] param_error(
            params,
            nargs,
            kw,
            j,
        ) {
            Some(f) => f is Duplicate,
            None => true,
        } by {}
        lemma_first_error_duplicate(params, nargs, kw, 0, i);
    }
}

/// A required parameter that receives neither a positional argument nor a
/// keyword makes binding fail with the missing-argument error of its kind,
/// naming it, when no parameter before it fails.
pub proof fn law_missing<V>(
    params: Seq<ParamDescription>,
    args: Seq<V>,
    kw: Seq<(Seq<char>, V)>,
    accept_args: bool,
    accept_kwargs: bool,
    i: int,
)
    requires
        0 <= i < params.len(),
        !params[i].is_optional,
        keyword_for(params, kw, i) is None,
        params[i].kw_only || i >= args.len(),
        forall|j: int| 0 <= j < i ==> param_error(params, args.len(), kw, j) is None,
    ensures
        bind(params, args, kw, accept_args, accept_kwargs) is Err,
        bind(params, args, kw, accept_args, accept_kwargs)->Err_0 == if params[i].kw_only {
            BindFault::MissingKeyword(params[i].name@)
        } else {
            BindFault::MissingPositional(params[i].name@)
        },
{
    lemma_first_error_skip(params, args.len(), kw, 0, i);
}

/// Without keywords, the parameters among the first `i` that are not
/// keyword-only all take a positional argument when there are more
/// arguments than parameters.
proof fn lemma_used_counts_positional<V>(params: Seq<ParamDescription>, args: Seq<V>, i: int)
    requires
        0 <= i <= params.len(),
        params.len() < args.len(),
    ensures
        positional_used(params, args.len(), Seq::<(Seq<char>, V)>::empty(), i)
            == count_positional(params.take(i)),
    decreases i,
{
    if i > 0 {
        lemma_used_counts_positional(params, args, i - 1);
        lemma_no_keywords::<V>(params, i - 1);
        assert(params.take(i).drop_last() =~= params.take(i - 1));
    }
}

/// Without keywords and with no required keyword-only parameter, more
/// positional arguments than parameters make binding fail with a too-many
/// error when positional capture is off; with it on, the arguments past
/// those the parameters take come back in their order.
pub proof fn law_extra_positional<V>(
    params: Seq<ParamDescription>,
    args: Seq<V>,
    accept_args: bool,
    accept_kwargs: bool,
)
    requires
        params.len() < args.len(),
        forall|j: int|
            0 <= j < params.len() ==> !((#[trigger] params[j]).kw_only && !params[j].is_optional),
    ensures
        !accept_args ==> bind(params, args, Seq::empty(), accept_args, accept_kwargs) is Err
            && bind(params, args, Seq::empty(), accept_args, accept_kwargs)->Err_0
            == BindFault::TooMany(count_positional(params), args.len()),
        accept_args ==> bind(params, args, Seq::empty(), accept_args, accept_kwargs) is Ok
            && bind(params, args, Seq::empty(), accept_args, accept_kwargs)->Ok_0.1
            == args.subrange(count_positional(params) as int, args.len() as int),
{
    let kw = Seq::<(Seq<char>, V)>::empty();
    let n = params.len();
    let nargs = args.len();
    assert forall|j: int| 0 <= j < n implies param_error(params, nargs, kw, j) is None by {
        lemma_no_keywords::<V>(params, j);
    }
    lemma_first_error_skip(params, nargs, kw, 0, n as int);
    lemma_used_counts_positional(params, args, n as int);
    assert(params.take(n as int) =~= params);
    lemma_count_positional_bound(params);
    reveal(Seq::filter);
    assert(unmatched(params, kw) =~= kw);
}

/// No more parameters are positional than there are parameters.
proof fn lemma_count_positional_bound(params: Seq<ParamDescription>)
    ensures
        count_positional(params) <= params.len(),
    decreases params.len(),
{
    if params.len() > 0 {
        lemma_count_positional_bound(params.drop_last());
    }
}

/// A keyword that names no parameter makes binding fail with an
/// unexpected-keyword error when keyword capture is off and no parameter
/// fails first; with capture on, a successful binding hands back every such
/// entry with its value.
pub proof fn law_extra_keyword<V>(
    params: Seq<ParamDescription>,
    args: Seq<V>,
    kw: Seq<(Seq<char>, V)>,
    accept_args: bool,
    accept_kwargs: bool,
    key: Seq<char>,
)
    requires
        has_key(kw, key),
        !is_declared(params, key),
        first_param_error(params, args.len(), kw, 0) is None,
    ensures
        !accept_kwargs ==> bind(params, args, kw, accept_args, accept_kwargs) is Err
            && bind(params, args, kw, accept_args, accept_kwargs)->Err_0 is Unexpected,
        accept_kwargs && bind(params, args, kw, accept_args, accept_kwargs) is Ok ==> bind(
            params,
            args,
            kw,
            accept_args,
            accept_kwargs,
        )->Ok_0.2 == Some(unmatched(params, kw)) && forall|m: int|
            0 <= m < kw.len() && !is_declared(params, kw[m].0) ==> unmatched(params, kw).contains(
                kw[m],
            ),
{
    let m0 = choose|m: int| 0 <= m < kw.len() && kw[m].0 == key;
    assert forall|m: int|
        0 <= m < kw.len() && !is_declared(params, kw[m].0) implies unmatched(params, kw).contains(
        kw[m],
    ) by {
        kw.lemma_filter_contains(undeclared_key(params), m);
    }
    kw.lemma_filter_contains(undeclared_key(params), m0);
    assert(unmatched(params, kw).len() > 0);
}

} // verus!
