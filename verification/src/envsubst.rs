//! `$VAR` / `${VAR}` expansion of configuration text.
//!
//! A reference is `$` followed by a name, or `${`, a name and `}`. A name starts with an
//! ASCII letter or `_` and goes on with ASCII letters, digits and `_`, as far as it can.
//! Each reference is replaced by the value of the variable, or by nothing where the
//! variable is not set. Every other character, including a `$` that starts no reference
//! (as in the shell's default syntax `${VAR:-default}`), is kept as it stands.

use vstd::prelude::*;
use crate::text::{chars_of, push_char};

verus! {

/// May a variable name start with `c`?
pub open spec fn is_name_start(c: char) -> bool {
    ('a' <= c && c <= 'z') || ('A' <= c && c <= 'Z') || c == '_'
}

/// May `c` stand inside a variable name?
pub open spec fn is_name_char(c: char) -> bool {
    is_name_start(c) || ('0' <= c && c <= '9')
}

/// The number of name characters in `s` from position `i` on.
pub open spec fn name_run(s: Seq<char>, i: int) -> nat
    decreases s.len() - i,
{
    if 0 <= i < s.len() && is_name_char(s[i]) {
        1 + name_run(s, i + 1)
    } else {
        0
    }
}

/// `$NAME` starts at position `i` of `s`.
pub open spec fn plain_ref_at(s: Seq<char>, i: int) -> bool {
    0 <= i && i + 1 < s.len() && s[i] == '$' && is_name_start(s[i + 1])
}

/// `${NAME}` starts at position `i` of `s`.
pub open spec fn braced_ref_at(s: Seq<char>, i: int) -> bool {
    &&& 0 <= i && i + 2 < s.len()
    &&& s[i] == '$' && s[i + 1] == '{' && is_name_start(s[i + 2])
    &&& i + 2 + name_run(s, i + 2) < s.len()
    &&& s[i + 2 + name_run(s, i + 2)] == '}'
}

/// A reference starts at position `i` of `s`.
pub open spec fn reference_at(s: Seq<char>, i: int) -> bool {
    plain_ref_at(s, i) || braced_ref_at(s, i)
}

/// The views of the variables, name first.
pub open spec fn env_view(env: Seq<(String, String)>) -> Seq<(Seq<char>, Seq<char>)> {
    env.map_values(|p: (String, String)| (p.0@, p.1@))
}

/// The value of the first variable named `name` from position `k` of `env` on, or
/// nothing where there is none.
pub open spec fn lookup_from(env: Seq<(Seq<char>, Seq<char>)>, name: Seq<char>, k: int) -> Seq<char>
    decreases env.len() - k,
{
    if 0 <= k < env.len() {
        if env[k].0 == name {
            env[k].1
        } else {
            lookup_from(env, name, k + 1)
        }
    } else {
        Seq::empty()
    }
}

/// The value of `name` in `env`: that of its first entry, or nothing where it has none.
pub open spec fn env_lookup(env: Seq<(Seq<char>, Seq<char>)>, name: Seq<char>) -> Seq<char> {
    lookup_from(env, name, 0)
}

pub proof fn lemma_name_run_bound(s: Seq<char>, i: int)
    requires
        0 <= i <= s.len(),
    ensures
        name_run(s, i) <= s.len() - i,
    decreases s.len() - i,
{
    if i < s.len() && is_name_char(s[i]) {
        lemma_name_run_bound(s, i + 1);
    }
}

/// The expansion of `s` from position `i` on.
pub open spec fn expand_from(s: Seq<char>, env: Seq<(Seq<char>, Seq<char>)>, i: int) -> Seq<char>
    decreases s.len() - i,
{
    if i < 0 || i >= s.len() {
        Seq::empty()
    } else if plain_ref_at(s, i) {
        let n = name_run(s, i + 1);
        proof {
            lemma_name_run_bound(s, i + 1);
        }
        env_lookup(env, s.subrange(i + 1, i + 1 + n)) + expand_from(s, env, i + 1 + n)
    } else if braced_ref_at(s, i) {
        let n = name_run(s, i + 2);
        env_lookup(env, s.subrange(i + 2, i + 2 + n)) + expand_from(s, env, i + 3 + n)
    } else {
        seq![s[i]] + expand_from(s, env, i + 1)
    }
}

/// `s` with every reference replaced by the value it names in `env`.
pub open spec fn envsubst_spec(s: Seq<char>, env: Seq<(Seq<char>, Seq<char>)>) -> Seq<char> {
    expand_from(s, env, 0)
}


/// `name` is a variable name.
pub open spec fn is_name(name: Seq<char>) -> bool {
    &&& name.len() > 0
    &&& is_name_start(name[0])
    &&& forall|k: int| 0 <= k < name.len() ==> is_name_char(#[trigger] name[k])
}

proof fn lemma_name_run_of(s: Seq<char>, i: int, n: int)
    requires
        0 <= i,
        0 <= n,
        i + n <= s.len(),
        forall|k: int| i <= k < i + n ==> is_name_char(#[trigger] s[k]),
        i + n == s.len() || !is_name_char(s[i + n]),
    ensures
        name_run(s, i) == n,
    decreases n,
{
    if n > 0 {
        lemma_name_run_of(s, i + 1, n - 1);
    }
}

proof fn lemma_expand_unchanged(s: Seq<char>, env: Seq<(Seq<char>, Seq<char>)>, i: int)
    requires
        0 <= i <= s.len(),
        forall|j: int| i <= j < s.len() ==> !#[trigger] reference_at(s, j),
    ensures
        expand_from(s, env, i) == s.subrange(i, s.len() as int),
    decreases s.len() - i,
{
    if i < s.len() {
        assert(!reference_at(s, i));
        lemma_expand_unchanged(s, env, i + 1);
        assert(seq![s[i]] + s.subrange(i + 1, s.len() as int) =~= s.subrange(i, s.len() as int));
    } else {
        assert(s.subrange(i, s.len() as int) =~= Seq::<char>::empty());
    }
}

/// Text in which no reference starts comes back unchanged, whatever the variables.
pub proof fn law_text_without_references_is_unchanged(s: Seq<char>, env: Seq<(Seq<char>, Seq<char>)>)
    requires
        forall|j: int| 0 <= j < s.len() ==> !#[trigger] reference_at(s, j),
    ensures
        envsubst_spec(s, env) == s,
{
    lemma_expand_unchanged(s, env, 0);
    assert(s.subrange(0, s.len() as int) =~= s);
}

/// `$NAME` expands to the value of `NAME`.
pub proof fn law_plain_reference_expands_to_value(name: Seq<char>, env: Seq<(Seq<char>, Seq<char>)>)
    requires
        is_name(name),
    ensures
        envsubst_spec(seq!['$'] + name, env) == env_lookup(env, name),
{
    let s = seq!['$'] + name;
    assert forall|k: int| 1 <= k < 1 + name.len() implies is_name_char(#[trigger] s[k]) by {
        assert(s[k] == name[k - 1]);
    }
    lemma_name_run_of(s, 1, name.len() as int);
    assert(plain_ref_at(s, 0));
    assert(s.subrange(1, 1 + name.len() as int) =~= name);
    assert(expand_from(s, env, s.len() as int) == Seq::<char>::empty());
    assert(env_lookup(env, name) + Seq::<char>::empty() =~= env_lookup(env, name));
}

/// `${NAME}` expands to the value of `NAME`.
pub proof fn law_braced_reference_expands_to_value(name: Seq<char>, env: Seq<(Seq<char>, Seq<char>)>)
    requires
        is_name(name),
    ensures
        envsubst_spec(seq!['$', '{'] + name + seq!['}'], env) == env_lookup(env, name),
{
    let s = seq!['$', '{'] + name + seq!['}'];
    let n = name.len() as int;
    assert forall|k: int| 2 <= k < 2 + n implies is_name_char(#[trigger] s[k]) by {
        assert(s[k] == name[k - 2]);
    }
    assert(s[2 + n] == '}');
    lemma_name_run_of(s, 2, n);
    assert(!plain_ref_at(s, 0));
    assert(braced_ref_at(s, 0));
    assert(s.subrange(2, 2 + n) =~= name);
    assert(expand_from(s, env, 3 + n) == Seq::<char>::empty());
    assert(env_lookup(env, name) + Seq::<char>::empty() =~= env_lookup(env, name));
}

proof fn lemma_lookup_absent(env: Seq<(Seq<char>, Seq<char>)>, name: Seq<char>, k: int)
    requires
        0 <= k,
        forall|j: int| 0 <= j < env.len() ==> (#[trigger] env[j]).0 != name,
    ensures
        lookup_from(env, name, k) == Seq::<char>::empty(),
    decreases env.len() - k,
{
    if k < env.len() {
        lemma_lookup_absent(env, name, k + 1);
    }
}

/// A variable that the environment does not hold has the empty value.
pub proof fn law_missing_variable_is_empty(env: Seq<(Seq<char>, Seq<char>)>, name: Seq<char>)
    requires
        forall|j: int| 0 <= j < env.len() ==> (#[trigger] env[j]).0 != name,
    ensures
        env_lookup(env, name) == Seq::<char>::empty(),
{
    lemma_lookup_absent(env, name, 0);
}

/// The shell's default syntax `${NAME:-default}` is left as it stands, where the default
/// holds no `$`.
pub proof fn law_default_syntax_is_unchanged(
    name: Seq<char>,
    default: Seq<char>,
    env: Seq<(Seq<char>, Seq<char>)>,
)
    requires
        is_name(name),
        forall|k: int| 0 <= k < default.len() ==> #[trigger] default[k] != '$',
    ensures
        envsubst_spec(seq!['$', '{'] + name + seq![':', '-'] + default + seq!['}'], env)
            == seq!['$', '{'] + name + seq![':', '-'] + default + seq!['}'],
{
    let s = seq!['$', '{'] + name + seq![':', '-'] + default + seq!['}'];
    let n = name.len() as int;
    assert forall|k: int| 2 <= k < 2 + n implies is_name_char(#[trigger] s[k]) by {
        assert(s[k] == name[k - 2]);
    }
    assert(s[2 + n] == ':');
    lemma_name_run_of(s, 2, n);
    assert forall|j: int| 0 <= j < s.len() implies !#[trigger] reference_at(s, j) by {
        if j == 0 {
            assert(!plain_ref_at(s, 0));
            assert(!braced_ref_at(s, 0));
        } else if j < 2 + n {
            assert(s[j] != '$');
        } else if j < 4 + n {
            assert(s[j] != '$');
        } else if j < 4 + n + default.len() {
            assert(s[j] == default[j - 4 - n]);
        } else {
            assert(s[j] == '}');
        }
    }
    law_text_without_references_is_unchanged(s, env);
}

proof fn lemma_name_run_shift(a: Seq<char>, b: Seq<char>, j: int)
    requires
        0 <= j,
    ensures
        name_run(a + b, a.len() + j) == name_run(b, j),
    decreases b.len() - j,
{
    let s = a + b;
    if j < b.len() {
        assert(s[a.len() + j] == b[j]);
        lemma_name_run_shift(a, b, j + 1);
        assert(a.len() + j + 1 == a.len() + (j + 1));
    }
}

proof fn lemma_expand_shift(
    a: Seq<char>,
    b: Seq<char>,
    env: Seq<(Seq<char>, Seq<char>)>,
    j: int,
)
    requires
        0 <= j <= b.len(),
    ensures
        expand_from(a + b, env, a.len() + j) == expand_from(b, env, j),
    decreases b.len() - j,
{
    let s = a + b;
    let i = a.len() + j;
    if j < b.len() {
        assert(s[i] == b[j]);
        if j + 1 < b.len() {
            assert(s[i + 1] == b[j + 1]);
        }
        if j + 2 < b.len() {
            assert(s[i + 2] == b[j + 2]);
        }
        lemma_name_run_shift(a, b, j + 1);
        lemma_name_run_shift(a, b, j + 2);
        assert(a.len() + (j + 1) == i + 1);
        assert(a.len() + (j + 2) == i + 2);
        lemma_name_run_bound(b, j + 1);
        if j + 2 <= b.len() {
            lemma_name_run_bound(b, j + 2);
        }
        let n1 = name_run(b, j + 1);
        let n2 = name_run(b, j + 2);
        if j + 2 + n2 < b.len() {
            assert(s[i + 2 + n2] == b[j + 2 + n2]);
        }
        assert(plain_ref_at(s, i) == plain_ref_at(b, j));
        assert(braced_ref_at(s, i) == braced_ref_at(b, j));
        if plain_ref_at(b, j) {
            assert(s.subrange(i + 1, i + 1 + n1) =~= b.subrange(j + 1, j + 1 + n1));
            lemma_expand_shift(a, b, env, j + 1 + n1);
        } else if braced_ref_at(b, j) {
            assert(s.subrange(i + 2, i + 2 + n2) =~= b.subrange(j + 2, j + 2 + n2));
            lemma_expand_shift(a, b, env, j + 3 + n2);
        } else {
            lemma_expand_shift(a, b, env, j + 1);
        }
    }
}

/// `b` can follow text without joining a reference to it: it is empty, or it starts with a
/// character that can neither go on a name nor open or close braces.
pub open spec fn clean_start(b: Seq<char>) -> bool {
    b.len() == 0 || (!is_name_char(b[0]) && b[0] != '{' && b[0] != '}')
}

proof fn lemma_name_run_prefix(a: Seq<char>, b: Seq<char>, k: int)
    requires
        0 <= k <= a.len(),
        clean_start(b),
    ensures
        name_run(a + b, k) == name_run(a, k),
    decreases a.len() - k,
{
    let s = a + b;
    if k < a.len() {
        assert(s[k] == a[k]);
        lemma_name_run_prefix(a, b, k + 1);
    } else if b.len() > 0 {
        assert(s[k] == b[0]);
    }
}

proof fn lemma_expand_prefix(
    a: Seq<char>,
    b: Seq<char>,
    env: Seq<(Seq<char>, Seq<char>)>,
    i: int,
)
    requires
        0 <= i <= a.len(),
        clean_start(b),
    ensures
        expand_from(a + b, env, i) == expand_from(a, env, i) + expand_from(b, env, 0),
    decreases a.len() - i,
{
    let s = a + b;
    if i == a.len() {
        lemma_expand_shift(a, b, env, 0);
        assert(expand_from(a, env, i) == Seq::<char>::empty());
        assert(Seq::<char>::empty() + expand_from(b, env, 0) =~= expand_from(b, env, 0));
        assert(a.len() + 0 == i);
    } else {
        assert(s[i] == a[i]);
        if i + 1 < a.len() {
            assert(s[i + 1] == a[i + 1]);
        } else if b.len() > 0 {
            assert(s[i + 1] == b[0]);
        }
        if i + 2 < a.len() {
            assert(s[i + 2] == a[i + 2]);
        } else if i + 2 == a.len() && b.len() > 0 {
            assert(s[i + 2] == b[0]);
        }
        lemma_name_run_bound(a, i + 1);
        lemma_name_run_prefix(a, b, i + 1);
        let n1 = name_run(a, i + 1);
        if i + 2 <= a.len() {
            lemma_name_run_bound(a, i + 2);
            lemma_name_run_prefix(a, b, i + 2);
            let n2 = name_run(a, i + 2);
            if i + 2 + n2 < a.len() {
                assert(s[i + 2 + n2] == a[i + 2 + n2]);
            } else if b.len() > 0 {
                assert(s[i + 2 + n2] == b[0]);
            }
            assert(braced_ref_at(s, i) == braced_ref_at(a, i));
        } else {
            assert(!braced_ref_at(s, i));
            assert(!braced_ref_at(a, i));
        }
        assert(plain_ref_at(s, i) == plain_ref_at(a, i));
        if plain_ref_at(a, i) {
            assert(s.subrange(i + 1, i + 1 + n1) =~= a.subrange(i + 1, i + 1 + n1));
            lemma_expand_prefix(a, b, env, i + 1 + n1);
            let v = env_lookup(env, a.subrange(i + 1, i + 1 + n1));
            assert(v + (expand_from(a, env, i + 1 + n1) + expand_from(b, env, 0)) =~= (v
                + expand_from(a, env, i + 1 + n1)) + expand_from(b, env, 0));
        } else if braced_ref_at(a, i) {
            let n2 = name_run(a, i + 2);
            assert(s.subrange(i + 2, i + 2 + n2) =~= a.subrange(i + 2, i + 2 + n2));
            lemma_expand_prefix(a, b, env, i + 3 + n2);
            let v = env_lookup(env, a.subrange(i + 2, i + 2 + n2));
            assert(v + (expand_from(a, env, i + 3 + n2) + expand_from(b, env, 0)) =~= (v
                + expand_from(a, env, i + 3 + n2)) + expand_from(b, env, 0));
        } else {
            lemma_expand_prefix(a, b, env, i + 1);
            assert(seq![a[i]] + (expand_from(a, env, i + 1) + expand_from(b, env, 0)) =~= (seq![
                a[i],
            ] + expand_from(a, env, i + 1)) + expand_from(b, env, 0));
        }
    }
}

/// Expansion goes piece by piece: text `a` followed by text `b` that cannot join a
/// reference to `a` (see `clean_start`) expands to the expansion of `a` followed by that
/// of `b`. In particular the character that follows a reference is kept.
pub proof fn law_expansion_splits_at_a_clean_boundary(
    a: Seq<char>,
    b: Seq<char>,
    env: Seq<(Seq<char>, Seq<char>)>,
)
    requires
        clean_start(b),
    ensures
        envsubst_spec(a + b, env) == envsubst_spec(a, env) + envsubst_spec(b, env),
{
    lemma_expand_prefix(a, b, env, 0);
}

fn is_name_start_char(c: char) -> (b: bool)
    ensures
        b == is_name_start(c),
{
    ('a' <= c && c <= 'z') || ('A' <= c && c <= 'Z') || c == '_'
}

fn is_name_char_exec(c: char) -> (b: bool)
    ensures
        b == is_name_char(c),
{
    is_name_start_char(c) || ('0' <= c && c <= '9')
}

/// The end of the name that starts at `start`.
fn name_end(s: &Vec<char>, start: usize) -> (end: usize)
    requires
        start <= s@.len(),
    ensures
        end == start + name_run(s@, start as int),
        end <= s@.len(),
{
    let mut j = start;
    while j < s.len() && is_name_char_exec(s[j])
        invariant
            start <= j <= s@.len(),
            name_run(s@, start as int) == (j - start) + name_run(s@, j as int),
        decreases s@.len() - j,
    {
        j = j + 1;
    }
    j
}

/// The characters of `s` from `from` up to `to`, as a string.
fn collect_range(s: &Vec<char>, from: usize, to: usize) -> (r: String)
    requires
        from <= to <= s@.len(),
    ensures
        r@ == s@.subrange(from as int, to as int),
{
    let mut r = String::new();
    let mut k = from;
    while k < to
        invariant
            from <= k <= to <= s@.len(),
            r@ == s@.subrange(from as int, k as int),
        decreases to - k,
    {
        push_char(&mut r, s[k]);
        k = k + 1;
        assert(r@ =~= s@.subrange(from as int, k as int));
    }
    r
}

/// The value of `name` in `env`.
fn lookup(env: &Vec<(String, String)>, name: &String) -> (v: String)
    ensures
        v@ == env_lookup(env_view(env@), name@),
{
    let ghost ev = env_view(env@);
    let mut k: usize = 0;
    while k < env.len()
        invariant
            k <= env@.len(),
            ev == env_view(env@),
            env_lookup(ev, name@) == lookup_from(ev, name@, k as int),
        decreases env@.len() - k,
    {
        if env[k].0 == *name {
            return env[k].1.clone();
        }
        k = k + 1;
    }
    String::new()
}

/// `content` with `$NAME` and `${NAME}` replaced by the values of the variables in `env`
/// (name, value); a variable that `env` does not hold expands to nothing.
pub fn envsubst(content: &str, env: &Vec<(String, String)>) -> (out: String)
    ensures
        out@ == envsubst_spec(content@, env_view(env@)),
{
    let ghost ev = env_view(env@);
    let s = chars_of(content);
    let len = s.len();
    let mut out = String::new();
    let mut i: usize = 0;
    while i < len
        invariant
            len == s@.len(),
            s@ == content@,
            ev == env_view(env@),
            i <= len,
            expand_from(s@, ev, 0) == out@ + expand_from(s@, ev, i as int),
        decreases len - i,
    {
        let ghost before = out@;
        if s[i] == '$' && i + 1 < len && is_name_start_char(s[i + 1]) {
            let end = name_end(&s, i + 1);
            let name = collect_range(&s, i + 1, end);
            let value = lookup(env, &name);
            out.append(value.as_str());
            assert(expand_from(s@, ev, i as int) == value@ + expand_from(s@, ev, end as int));
            assert(before + (value@ + expand_from(s@, ev, end as int)) =~= out@ + expand_from(
                s@,
                ev,
                end as int,
            ));
            i = end;
        } else if s[i] == '$' && len - i > 2 && s[i + 1] == '{' && is_name_start_char(s[i + 2]) {
            let end = name_end(&s, i + 2);
            if end < len && s[end] == '}' {
                let name = collect_range(&s, i + 2, end);
                let value = lookup(env, &name);
                out.append(value.as_str());
                assert(expand_from(s@, ev, i as int) == value@ + expand_from(
                    s@,
                    ev,
                    end + 1,
                ));
                assert(before + (value@ + expand_from(s@, ev, end + 1)) =~= out@ + expand_from(
                    s@,
                    ev,
                    end + 1,
                ));
                i = end + 1;
            } else {
                push_char(&mut out, '$');
                assert(expand_from(s@, ev, i as int) == seq!['$'] + expand_from(
                    s@,
                    ev,
                    i + 1,
                ));
                assert(before + (seq!['$'] + expand_from(s@, ev, i + 1)) =~= out@ + expand_from(
                    s@,
                    ev,
                    i + 1,
                ));
                i = i + 1;
            }
        } else {
            let c = s[i];
            push_char(&mut out, c);
            assert(expand_from(s@, ev, i as int) == seq![c] + expand_from(s@, ev, i + 1));
            assert(before + (seq![c] + expand_from(s@, ev, i + 1)) =~= out@ + expand_from(
                s@,
                ev,
                i + 1,
            ));
            i = i + 1;
        }
    }
    assert(out@ + expand_from(s@, ev, len as int) =~= out@);
    out
}

} // verus!
