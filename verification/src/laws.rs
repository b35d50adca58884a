//! Engine-wide laws: statements that relate several engine operations,
//! proved once over every environment, directory and input they speak of.

use vstd::prelude::*;

use crate::engine::{
    apply_assigns, args1_of, args_of, assign_pair, assigns_of, final_args, is_absolute_path,
    is_background, path_join, spec_dispatch, spec_execute, spec_expand, spec_resolve, SpecStep,
};
use crate::text::{
    eq_scan, has_eq, is_space_char, lemma_eq_scan_bounds, lemma_single_token_line,
    lemma_skip_scan_bounds, skip_scan, strip_leading,
};

verus! {

/// Helper: a token with no `=` anywhere is never an assignment.
pub proof fn lemma_no_eq_token(t: Seq<char>)
    requires
        forall|j: int| 0 <= j < t.len() ==> t[j] != '=',
    ensures
        !has_eq(t),
{
    lemma_eq_scan_bounds(t, 0);
}

/// Helper: stripping a character that does not lead the token leaves it
/// unchanged.
pub proof fn lemma_strip_absent(t: Seq<char>, c: char)
    requires
        t.len() == 0 || t[0] != c,
    ensures
        strip_leading(t, c) == t,
{
    lemma_skip_scan_bounds(t, c, 0);
    if skip_scan(t, c, 0) != 0 {
        assert(t[0] == c);
    }
    assert(t.subrange(0, t.len() as int) =~= t);
}

/// A single assignment token `KEY=VALUE` submitted alone writes exactly
/// that pair into the environment and spawns nothing, and a later `$KEY`
/// token expands to exactly `VALUE` under the updated environment.
pub proof fn lemma_assignment_then_expansion(
    env: Map<Seq<char>, Seq<char>>,
    cwd: Seq<char>,
    k: Seq<char>,
    v: Seq<char>,
)
    requires
        k.len() > 0,
        k[0] != '$',
        forall|j: int| 0 <= j < k.len() ==> k[j] != '=',
        v.len() > 0 ==> v[0] != '=',
    ensures
        spec_dispatch(env, cwd, seq![k + seq!['='] + v]).0 == SpecStep::Assigned(seq![(k, v)]),
        spec_dispatch(env, cwd, seq![k + seq!['='] + v]).1 == env.insert(k, v),
        !(spec_dispatch(env, cwd, seq![k + seq!['='] + v]).0 is Spawn),
        spec_expand(env.insert(k, v), seq!['$'] + k) == v,
{
    let t = k + seq!['='] + v;

    // The first `=` of the token is exactly the one separating key and value.
    lemma_eq_scan_bounds(t, 0);
    let e = eq_scan(t, 0);
    assert(t[k.len() as int] == '=');
    if e < k.len() {
        assert(t[e] == k[e]);
    }
    assert(e == k.len());
    assert(has_eq(t));

    // The pair the token denotes is (k, v).
    assert(t.subrange(0, k.len() as int) =~= k);
    lemma_strip_absent(k, '$');
    let w = t.subrange(k.len() as int, t.len() as int);
    assert(w =~= seq!['='] + v);
    lemma_skip_scan_bounds(w, '=', 0);
    let sk = skip_scan(w, '=', 0);
    assert(w[0] == '=');
    if sk >= 2 {
        assert(w[1] == '=');
        assert(w[1] == v[0]);
    }
    assert(sk == 1);
    assert(strip_leading(w, '=') =~= v);
    assert(assign_pair(t) == (k, v));

    // One token, one pair; the dispatch writes it and runs nothing.
    let toks = seq![t];
    assert(toks.last() == t);
    assert(toks.drop_last() =~= Seq::<Seq<char>>::empty());
    assert(assigns_of(Seq::<Seq<char>>::empty()) == Seq::<(Seq<char>, Seq<char>)>::empty());
    assert(assigns_of(toks) =~= seq![(k, v)]);
    let pv = seq![(k, v)];
    assert(pv.last() == (k, v));
    assert(pv.drop_last() =~= Seq::<(Seq<char>, Seq<char>)>::empty());
    assert(apply_assigns(env, Seq::<(Seq<char>, Seq<char>)>::empty()) == env);
    assert(apply_assigns(env, pv) == env.insert(k, v));

    // A `$KEY` token expands to the stored value.
    let u = seq!['$'] + k;
    lemma_skip_scan_bounds(u, '$', 0);
    let su = skip_scan(u, '$', 0);
    assert(u[0] == '$');
    if su >= 2 {
        assert(u[1] == '$');
        assert(u[1] == k[0]);
    }
    assert(su == 1);
    assert(strip_leading(u, '$') =~= k);
    assert(env.insert(k, v).contains_key(k));
}

/// The whole-line form of the assignment law: a line holding exactly one
/// assignment token `KEY=VALUE` writes that pair into the environment and
/// spawns nothing.
pub proof fn lemma_assignment_line(
    env: Map<Seq<char>, Seq<char>>,
    cwd: Seq<char>,
    k: Seq<char>,
    v: Seq<char>,
)
    requires
        k.len() > 0,
        k[0] != '$',
        forall|j: int| 0 <= j < k.len() ==> k[j] != '=' && !is_space_char(k[j]),
        v.len() > 0 ==> v[0] != '=',
        forall|j: int| 0 <= j < v.len() ==> !is_space_char(v[j]),
    ensures
        spec_execute(env, cwd, k + seq!['='] + v).0 == SpecStep::Assigned(seq![(k, v)]),
        spec_execute(env, cwd, k + seq!['='] + v).1 == env.insert(k, v),
        !(spec_execute(env, cwd, k + seq!['='] + v).0 is Spawn),
{
    let line = k + seq!['='] + v;
    assert(forall|j: int| 0 <= j < line.len() ==> !is_space_char(line[j]));
    lemma_single_token_line(line);
    lemma_assignment_then_expansion(env, cwd, k, v);
}

/// A relative `cd` target resolves to the target joined onto the current
/// working directory.
pub proof fn lemma_relative_cd_resolution(cwd: Seq<char>, target: Seq<char>)
    requires
        !is_absolute_path(target),
    ensures
        spec_resolve(cwd, target) == path_join(cwd, target),
{
}

/// A line `cd <target>` with a plain relative target directs the caller to
/// probe exactly the target resolved against the current working
/// directory, and changes no environment state.
pub proof fn lemma_cd_relative_target(
    env: Map<Seq<char>, Seq<char>>,
    cwd: Seq<char>,
    target: Seq<char>,
)
    requires
        target.len() > 0,
        target[0] != '$',
        target[0] != '/',
        target != "&"@,
        forall|j: int| 0 <= j < target.len() ==> target[j] != '=',
    ensures
        spec_dispatch(env, cwd, seq!["cd"@, target]).0 == SpecStep::Cd(path_join(cwd, target)),
        spec_dispatch(env, cwd, seq!["cd"@, target]).1 == env,
{
    reveal_strlit("cd");
    let toks = seq!["cd"@, target];
    assert("cd"@.len() == 2);
    assert(forall|j: int| 0 <= j < 2 ==> "cd"@[j] != '=') by {
        assert("cd"@[0] == 'c');
        assert("cd"@[1] == 'd');
    }
    lemma_no_eq_token("cd"@);
    lemma_no_eq_token(target);
    assert(toks.last() == target);
    assert(toks.drop_last() =~= seq!["cd"@]);
    let t1 = seq!["cd"@];
    assert(t1.last() == "cd"@);
    assert(t1.drop_last() =~= Seq::<Seq<char>>::empty());
    assert(assigns_of(Seq::<Seq<char>>::empty()) == Seq::<(Seq<char>, Seq<char>)>::empty());
    assert(assigns_of(t1) =~= Seq::<(Seq<char>, Seq<char>)>::empty());
    assert(assigns_of(toks) =~= Seq::<(Seq<char>, Seq<char>)>::empty());
    assert(args1_of(Seq::<Seq<char>>::empty(), env) == Seq::<Seq<char>>::empty());
    assert(args1_of(t1, env) == Seq::<Seq<char>>::empty());
    assert(args1_of(toks, env) =~= seq![spec_expand(env, target)]);
    assert(spec_expand(env, target) == target);
    assert(args_of(toks, env) =~= seq![target]);
    assert(!is_background(args_of(toks, env)));
    assert(final_args(args_of(toks, env)) == seq![target]);
    assert(toks[0] == "cd"@);
    assert(spec_resolve(cwd, target) == path_join(cwd, target));
}

/// `unset` with zero arguments never changes the environment and always
/// asks the caller for the usage line.
pub proof fn lemma_unset_without_argument(env: Map<Seq<char>, Seq<char>>, cwd: Seq<char>)
    ensures
        spec_dispatch(env, cwd, seq!["unset"@]).0 is UnsetUsage,
        spec_dispatch(env, cwd, seq!["unset"@]).1 == env,
{
    reveal_strlit("unset");
    reveal_strlit("cd");
    reveal_strlit("exit");
    let toks = seq!["unset"@];
    assert("unset"@.len() == 5);
    assert(forall|j: int| 0 <= j < 5 ==> "unset"@[j] != '=') by {
        assert("unset"@[0] == 'u');
        assert("unset"@[1] == 'n');
        assert("unset"@[2] == 's');
        assert("unset"@[3] == 'e');
        assert("unset"@[4] == 't');
    }
    lemma_no_eq_token("unset"@);
    assert(toks.last() == "unset"@);
    assert(toks.drop_last() =~= Seq::<Seq<char>>::empty());
    assert(assigns_of(Seq::<Seq<char>>::empty()) == Seq::<(Seq<char>, Seq<char>)>::empty());
    assert(assigns_of(toks) =~= Seq::<(Seq<char>, Seq<char>)>::empty());
    assert(args1_of(toks, env) =~= Seq::<Seq<char>>::empty());
    assert(args_of(toks, env) =~= Seq::<Seq<char>>::empty());
    assert("cd"@.len() == 2);
    assert("exit"@.len() == 4);
    assert(toks[0] != "cd"@);
    assert(toks[0] != "exit"@);
}

/// A command line whose expanded arguments end in `&` dispatches as a
/// background spawn of the command name with the marker removed, leaving
/// the whole engine state unchanged.
pub proof fn lemma_background_spawn(
    env: Map<Seq<char>, Seq<char>>,
    cwd: Seq<char>,
    toks: Seq<Seq<char>>,
)
    requires
        toks.len() > 0,
        assigns_of(toks).len() == 0,
        toks[0] != "cd"@,
        toks[0] != "exit"@,
        toks[0] != "unset"@,
        toks[0] != "help"@,
        is_background(args_of(toks, env)),
    ensures
        spec_dispatch(env, cwd, toks).0 == (SpecStep::Spawn {
            name: toks[0],
            args: args_of(toks, env).drop_last(),
            background: true,
        }),
        spec_dispatch(env, cwd, toks).1 == env,
{
}

} // verus!
