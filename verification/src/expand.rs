//! Substitution of environment references inside configuration values.
//!
//! A value may name a variable as `$NAME` or `${NAME}`; every reference is
//! replaced by the variable's value, taken from a table of name/value pairs
//! handed in by the caller. An unterminated `${` or a name absent from the
//! table is an error.

use vstd::prelude::*;

verus! {

/// Characters allowed in a bare `$NAME` reference.
pub open spec fn is_var_char(c: char) -> bool {
    ('a' as u32 <= c as u32 && c as u32 <= 'z' as u32) || ('A' as u32 <= c as u32 && c as u32
        <= 'Z' as u32) || ('0' as u32 <= c as u32 && c as u32 <= '9' as u32) || c == '_'
}

/// Index of the first `}` at or after `a`, or `t.len()` if there is none.
pub open spec fn close_scan(t: Seq<char>, a: int) -> int
    decreases t.len() - a,
{
    if a < 0 || a >= t.len() {
        t.len() as int
    } else if t[a] == '}' {
        a
    } else {
        close_scan(t, a + 1)
    }
}

/// Index of the first character at or after `a` that cannot continue a bare
/// variable name, or `t.len()` if the name runs to the end.
pub open spec fn var_scan(t: Seq<char>, a: int) -> int
    decreases t.len() - a,
{
    if a < 0 || a >= t.len() {
        t.len() as int
    } else if is_var_char(t[a]) {
        var_scan(t, a + 1)
    } else {
        a
    }
}

/// First value bound to `key` in the table, scanning front to back.
pub open spec fn env_value(env: Seq<(String, String)>, key: Seq<char>) -> Option<Seq<char>>
    decreases env.len(),
{
    if env.len() == 0 {
        None
    } else if env[0].0@ == key {
        Some(env[0].1@)
    } else {
        env_value(env.drop_first(), key)
    }
}

/// How an expansion can fail.
pub enum ExpandIssue {
    /// A `${` with no closing `}`.
    Unclosed,
    /// A reference to a name the table does not bind.
    Missing(Seq<char>),
}

/// The expansion of `t` under `env`: references replaced front to back, the
/// first failing reference deciding the error.
pub open spec fn expand_view(t: Seq<char>, env: Seq<(String, String)>) -> Result<
    Seq<char>,
    ExpandIssue,
>
    decreases t.len(),
{
    if t.len() == 0 {
        Ok(Seq::empty())
    } else if t[0] == '$' && t.len() >= 2 && t[1] == '{' {
        let j = close_scan(t, 2);
        if !(2 <= j && j < t.len()) {
            Err(ExpandIssue::Unclosed)
        } else {
            let key = t.subrange(2, j);
            match env_value(env, key) {
                None => Err(ExpandIssue::Missing(key)),
                Some(v) => match expand_view(t.skip(j + 1), env) {
                    Ok(rest) => Ok(v + rest),
                    Err(e) => Err(e),
                },
            }
        }
    } else if t[0] == '$' && 1 < var_scan(t, 1) && var_scan(t, 1) <= t.len() {
        let j = var_scan(t, 1);
        let key = t.subrange(1, j);
        match env_value(env, key) {
            None => Err(ExpandIssue::Missing(key)),
            Some(v) => match expand_view(t.skip(j), env) {
                Ok(rest) => Ok(v + rest),
                Err(e) => Err(e),
            },
        }
    } else {
        match expand_view(t.skip(1), env) {
            Ok(rest) => Ok(seq![t[0]] + rest),
            Err(e) => Err(e),
        }
    }
}

/// Failure of an expansion, carrying what the report to the user needs.
#[derive(Debug)]
pub enum ExpandError {
    /// A `${` with no closing `}`; carries the whole value being expanded.
    UnclosedEnvVar(String),
    /// A reference to an unbound name; carries the name.
    MissingEnvVar(String),
}

impl View for ExpandError {
    type V = ExpandIssue;

    open spec fn view(&self) -> ExpandIssue {
        match self {
            ExpandError::UnclosedEnvVar(_) => ExpandIssue::Unclosed,
            ExpandError::MissingEnvVar(k) => ExpandIssue::Missing(k@),
        }
    }
}

proof fn lemma_close_scan_pins(t: Seq<char>, a: int, j: int)
    requires
        0 <= a <= j <= t.len(),
        forall|k: int| a <= k < j ==> t[k] != '}',
        j < t.len() ==> t[j] == '}',
    ensures
        close_scan(t, a) == j,
    decreases j - a,
{
    if a < j {
        lemma_close_scan_pins(t, a + 1, j);
    }
}

proof fn lemma_var_scan_pins(t: Seq<char>, a: int, j: int)
    requires
        0 <= a <= j <= t.len(),
        forall|k: int| a <= k < j ==> is_var_char(t[k]),
        j < t.len() ==> !is_var_char(t[j]),
    ensures
        var_scan(t, a) == j,
    decreases j - a,
{
    if a < j {
        lemma_var_scan_pins(t, a + 1, j);
    }
}

proof fn lemma_env_value_skip(env: Seq<(String, String)>, key: Seq<char>, i: int)
    requires
        0 <= i <= env.len(),
        forall|k: int| 0 <= k < i ==> #[trigger] env[k].0@ != key,
    ensures
        env_value(env, key) == env_value(env.skip(i), key),
    decreases i,
{
    if i > 0 {
        assert(env[0].0@ != key);
        assert forall|k: int| 0 <= k < i - 1 implies #[trigger] env.drop_first()[k].0@ != key by {
            assert(env.drop_first()[k] == env[k + 1]);
        }
        lemma_env_value_skip(env.drop_first(), key, i - 1);
        assert(env.drop_first().skip(i - 1) =~= env.skip(i));
    } else {
        assert(env.skip(0) =~= env);
    }
}

/// Looks `key` up in the table, first binding wins.
pub fn env_lookup(env: &Vec<(String, String)>, key: &str) -> (r: Option<String>)
    ensures
        match r {
            Some(v) => env_value(env@, key@) == Some(v@),
            None => env_value(env@, key@) is None,
        },
{
    let n = env.len();
    let mut i: usize = 0;
    while i < n
        invariant
            0 <= i <= n,
            n == env@.len(),
            forall|k: int| 0 <= k < i ==> #[trigger] env@[k].0@ != key@,
        decreases n - i,
    {
        if crate::text::str_eq(env[i].0.as_str(), key) {
            proof {
                lemma_env_value_skip(env@, key@, i as int);
                assert(env@.skip(i as int)[0] == env@[i as int]);
            }
            return Some(env[i].1.clone());
        }
        i = i + 1;
    }
    proof {
        lemma_env_value_skip(env@, key@, n as int);
    }
    None
}

fn var_char(c: char) -> (r: bool)
    ensures
        r == is_var_char(c),
{
    ('a' as u32 <= c as u32 && c as u32 <= 'z' as u32) || ('A' as u32 <= c as u32 && c as u32
        <= 'Z' as u32) || ('0' as u32 <= c as u32 && c as u32 <= '9' as u32) || c == '_'
}

/// Expands the suffix of `s` that starts at `i`.
fn expand_suffix(s: &str, i: usize, env: &Vec<(String, String)>) -> (r: Result<String, ExpandError>)
    requires
        i <= s@.len(),
    ensures
        match r {
            Ok(out) => expand_view(s@.skip(i as int), env@) == Ok::<Seq<char>, ExpandIssue>(out@),
            Err(e) => expand_view(s@.skip(i as int), env@) == Err::<Seq<char>, ExpandIssue>(e@)
                && (e matches ExpandError::UnclosedEnvVar(inp) ==> inp@ == s@),
        },
    decreases s@.len() - i,
{
    let ghost t = s@.skip(i as int);
    let len = s.unicode_len();
    if i == len {
        let out = String::new();
        proof {
            assert(t.len() == 0);
        }
        return Ok(out);
    }
    let c = s.get_char(i);
    proof {
        assert(t[0] == s@[i as int]);
    }
    if c == '$' {
        if i + 1 < len && s.get_char(i + 1) == '{' {
            proof {
                assert(t[1] == s@[i as int + 1]);
            }
            let mut j = i + 2;
            while j < len && s.get_char(j) != '}'
                invariant
                    i + 2 <= j <= len,
                    len == s@.len(),
                    forall|k: int| i + 2 <= k < j ==> s@[k] != '}',
                decreases len - j,
            {
                j = j + 1;
            }
            proof {
                assert forall|k: int| 2 <= k < j - i implies t[k] != '}' by {
                    assert(t[k] == s@[k + i]);
                }
                if j < len {
                    assert(t[j - i] == s@[j as int]);
                }
                lemma_close_scan_pins(t, 2, j - i);
            }
            if j == len {
                return Err(ExpandError::UnclosedEnvVar(s.to_owned()));
            }
            let key = s.substring_char(i + 2, j).to_owned();
            proof {
                assert(key@ =~= t.subrange(2, j - i));
                assert(s@.skip(j as int + 1) =~= t.skip(j - i + 1));
            }
            match env_lookup(env, key.as_str()) {
                None => Err(ExpandError::MissingEnvVar(key)),
                Some(v) => {
                    match expand_suffix(s, j + 1, env) {
                        Ok(rest) => {
                            proof {
                                assert(s@.skip(j as int + 1) =~= t.skip(j - i + 1));
                            }
                            Ok(v.concat(rest.as_str()))
                        },
                        Err(e) => Err(e),
                    }
                },
            }
        } else {
            let mut j = i + 1;
            while j < len && var_char(s.get_char(j))
                invariant
                    i + 1 <= j <= len,
                    len == s@.len(),
                    forall|k: int| i + 1 <= k < j ==> is_var_char(s@[k]),
                decreases len - j,
            {
                j = j + 1;
            }
            proof {
                assert forall|k: int| 1 <= k < j - i implies is_var_char(t[k]) by {
                    assert(t[k] == s@[k + i]);
                }
                if j < len {
                    assert(t[j - i] == s@[j as int]);
                }
                lemma_var_scan_pins(t, 1, j - i);
                // The branch on `${` did not fire, so either the input ends
                // right after `$` or the next character is not `{`.
                if t.len() >= 2 {
                    assert(t[1] == s@[i as int + 1]);
                }
            }
            if j > i + 1 {
                let key = s.substring_char(i + 1, j).to_owned();
                proof {
                    assert(key@ =~= t.subrange(1, j - i));
                    assert(s@.skip(j as int) =~= t.skip(j - i));
                }
                match env_lookup(env, key.as_str()) {
                    None => Err(ExpandError::MissingEnvVar(key)),
                    Some(v) => {
                        match expand_suffix(s, j, env) {
                            Ok(rest) => {
                                proof {
                                    assert(s@.skip(j as int) =~= t.skip(j - i));
                                }
                                Ok(v.concat(rest.as_str()))
                            },
                            Err(e) => Err(e),
                        }
                    },
                }
            } else {
                proof {
                    assert(s@.skip(i as int + 1) =~= t.skip(1));
                }
                match expand_suffix(s, i + 1, env) {
                    Ok(rest) => {
                        proof {
                            assert(s@.skip(i as int + 1) =~= t.skip(1));
                        }
                        let one = s.substring_char(i, i + 1).to_owned();
                        proof {
                            assert(one@ =~= seq![t[0]]);
                        }
                        Ok(one.concat(rest.as_str()))
                    },
                    Err(e) => Err(e),
                }
            }
        }
    } else {
        proof {
            assert(s@.skip(i as int + 1) =~= t.skip(1));
        }
        match expand_suffix(s, i + 1, env) {
            Ok(rest) => {
                proof {
                    assert(s@.skip(i as int + 1) =~= t.skip(1));
                }
                let one = s.substring_char(i, i + 1).to_owned();
                proof {
                    assert(one@ =~= seq![t[0]]);
                }
                Ok(one.concat(rest.as_str()))
            },
            Err(e) => Err(e),
        }
    }
}

/// The expansion of an optional value: an absent value stays absent.
pub open spec fn expand_opt(o: Option<Seq<char>>, env: Seq<(String, String)>) -> Result<
    Option<Seq<char>>,
    ExpandIssue,
> {
    match o {
        None => Ok(None),
        Some(s) => match expand_view(s, env) {
            Ok(v) => Ok(Some(v)),
            Err(e) => Err(e),
        },
    }
}

/// The elementwise expansion of a list of values, the first failure deciding
/// the error.
pub open spec fn expand_all(xs: Seq<Seq<char>>, env: Seq<(String, String)>) -> Result<
    Seq<Seq<char>>,
    ExpandIssue,
>
    decreases xs.len(),
{
    if xs.len() == 0 {
        Ok(Seq::empty())
    } else {
        match expand_view(xs[0], env) {
            Err(e) => Err(e),
            Ok(v) => match expand_all(xs.drop_first(), env) {
                Err(e) => Err(e),
                Ok(rest) => Ok(seq![v] + rest),
            },
        }
    }
}

/// The elementwise expansion of an optional list: an absent list stays
/// absent.
pub open spec fn expand_all_opt(o: Option<Seq<Seq<char>>>, env: Seq<(String, String)>) -> Result<
    Option<Seq<Seq<char>>>,
    ExpandIssue,
> {
    match o {
        None => Ok(None),
        Some(xs) => match expand_all(xs, env) {
            Ok(v) => Ok(Some(v)),
            Err(e) => Err(e),
        },
    }
}

/// Expands an optional value.
pub fn expand_opt_value(o: &Option<String>, env: &Vec<(String, String)>) -> (r: Result<
    Option<String>,
    ExpandError,
>)
    ensures
        match r {
            Ok(out) => expand_opt(o.deep_view(), env@) == Ok::<Option<Seq<char>>, ExpandIssue>(
                out.deep_view(),
            ),
            Err(e) => expand_opt(o.deep_view(), env@) == Err::<Option<Seq<char>>, ExpandIssue>(e@),
        },
{
    match o {
        None => Ok(None),
        Some(s) => match expand_env_vars(s.as_str(), env) {
            Ok(v) => Ok(Some(v)),
            Err(e) => Err(e),
        },
    }
}

fn expand_vec_from(xs: &Vec<String>, i: usize, env: &Vec<(String, String)>) -> (r: Result<
    Vec<String>,
    ExpandError,
>)
    requires
        i <= xs.len(),
    ensures
        match r {
            Ok(out) => expand_all(xs.deep_view().skip(i as int), env@) == Ok::<
                Seq<Seq<char>>,
                ExpandIssue,
            >(out.deep_view()),
            Err(e) => expand_all(xs.deep_view().skip(i as int), env@) == Err::<
                Seq<Seq<char>>,
                ExpandIssue,
            >(e@),
        },
    decreases xs.len() - i,
{
    let ghost t = xs.deep_view().skip(i as int);
    if i == xs.len() {
        let out: Vec<String> = Vec::new();
        proof {
            assert(t.len() == 0);
            assert(out.deep_view() =~= Seq::<Seq<char>>::empty());
        }
        return Ok(out);
    }
    proof {
        assert(t[0] == xs.deep_view()[i as int]);
        assert(xs.deep_view().skip(i as int + 1) =~= t.drop_first());
    }
    match expand_env_vars(xs[i].as_str(), env) {
        Err(e) => Err(e),
        Ok(v) => {
            match expand_vec_from(xs, i + 1, env) {
                Err(e) => Err(e),
                Ok(rest) => {
                    let ghost restv = rest.deep_view();
                    let mut out = rest;
                    out.insert(0, v);
                    proof {
                        assert(out.deep_view() =~= seq![out@[0]@] + restv);
                    }
                    Ok(out)
                },
            }
        },
    }
}

/// Expands every element of a list of values.
pub fn expand_values(xs: &Vec<String>, env: &Vec<(String, String)>) -> (r: Result<
    Vec<String>,
    ExpandError,
>)
    ensures
        match r {
            Ok(out) => expand_all(xs.deep_view(), env@) == Ok::<Seq<Seq<char>>, ExpandIssue>(
                out.deep_view(),
            ),
            Err(e) => expand_all(xs.deep_view(), env@) == Err::<Seq<Seq<char>>, ExpandIssue>(e@),
        },
{
    proof {
        assert(xs.deep_view().skip(0) =~= xs.deep_view());
    }
    expand_vec_from(xs, 0, env)
}

/// Expands every element of an optional list of values.
pub fn expand_opt_values(o: &Option<Vec<String>>, env: &Vec<(String, String)>) -> (r: Result<
    Option<Vec<String>>,
    ExpandError,
>)
    ensures
        match r {
            Ok(out) => expand_all_opt(o.deep_view(), env@) == Ok::<
                Option<Seq<Seq<char>>>,
                ExpandIssue,
            >(out.deep_view()),
            Err(e) => expand_all_opt(o.deep_view(), env@) == Err::<
                Option<Seq<Seq<char>>>,
                ExpandIssue,
            >(e@),
        },
{
    match o {
        None => Ok(None),
        Some(xs) => match expand_values(xs, env) {
            Ok(v) => Ok(Some(v)),
            Err(e) => Err(e),
        },
    }
}

/// Replaces every `$NAME` and `${NAME}` reference in `input` by its value
/// from `env`; fails on an unterminated `${` or an unbound name.
pub fn expand_env_vars(input: &str, env: &Vec<(String, String)>) -> (r: Result<String, ExpandError>)
    ensures
        match r {
            Ok(out) => expand_view(input@, env@) == Ok::<Seq<char>, ExpandIssue>(out@),
            Err(e) => expand_view(input@, env@) == Err::<Seq<char>, ExpandIssue>(e@) && (
            e matches ExpandError::UnclosedEnvVar(inp) ==> inp@ == input@),
        },
{
    proof {
        assert(input@.skip(0) =~= input@);
    }
    expand_suffix(input, 0, env)
}

} // verus!
