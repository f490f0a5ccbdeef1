use vstd::prelude::*;

use crate::store::VarStore;
use crate::strutil::{push_char, spec_digits, str_eq, u64_to_string};
use crate::value::{plain_text, spec_plain, ValueV};
use vstd::string::StrSliceExecFns;
use vstd::string::StringExecFns;

verus! {

/// The first closing brace at or after position `i`, as the token scan sees
/// it: a newline ends the search, as the scan never crosses a line.
pub open spec fn spec_first_brace(s: Seq<char>, i: int) -> Option<int>
    decreases s.len() - i when 0 <= i
{
    if i >= s.len() {
        None
    } else if s[i] == '}' {
        Some(i)
    } else if s[i] == '\n' {
        None
    } else {
        spec_first_brace(s, i + 1)
    }
}

pub proof fn lemma_first_brace_bounds(s: Seq<char>, i: int)
    requires
        0 <= i,
    ensures
        match spec_first_brace(s, i) {
            Some(j) => i <= j < s.len() && s[j] == '}',
            None => true,
        },
    decreases s.len() - i,
{
    if i < s.len() && s[i] != '}' && s[i] != '\n' {
        lemma_first_brace_bounds(s, i + 1);
    }
}

/// Where a `${name}` token starts at position `p`: the position of its
/// closing brace, if the token is complete.
pub open spec fn spec_token_close(s: Seq<char>, p: int) -> Option<int> {
    if 0 <= p && p + 1 < s.len() && s[p] == '$' && s[p + 1] == '{' {
        spec_first_brace(s, p + 2)
    } else {
        None
    }
}

/// The name inside a token that starts at `p` and closes at `j`.
pub open spec fn spec_token_name(s: Seq<char>, p: int, j: int) -> Seq<char> {
    s.subrange(p + 2, j)
}

/// Plain substitution from position `p` on: each complete `${name}` token is
/// replaced by the plain rendering of the variable's value; a token whose
/// name is not bound stays verbatim; everything else is copied.
pub open spec fn spec_emit_plain_from(s: Seq<char>, p: int, env: Map<Seq<char>, ValueV>) -> Seq<
    char,
>
    decreases s.len() - p when 0 <= p via spec_emit_plain_from_dec
{
    if p >= s.len() {
        Seq::empty()
    } else {
        match spec_token_close(s, p) {
            Some(j) => {
                let name = spec_token_name(s, p, j);
                let rendered = if env.contains_key(name) {
                    spec_plain(env[name])
                } else {
                    s.subrange(p, j + 1)
                };
                rendered + spec_emit_plain_from(s, j + 1, env)
            },
            None => seq![s[p]] + spec_emit_plain_from(s, p + 1, env),
        }
    }
}

#[via_fn]
proof fn spec_emit_plain_from_dec(s: Seq<char>, p: int, env: Map<Seq<char>, ValueV>) {
    if 0 <= p && p < s.len() {
        lemma_first_brace_bounds(s, p + 2);
    }
}

/// Plain substitution of a whole string.
pub open spec fn spec_emit_plain(s: Seq<char>, env: Map<Seq<char>, ValueV>) -> Seq<char> {
    spec_emit_plain_from(s, 0, env)
}

/// The position a name has in the ordered list of seen names, if any.
pub open spec fn spec_pos(vars: Seq<Seq<char>>, name: Seq<char>) -> Option<int>
    decreases vars,
{
    if vars.len() == 0 {
        None
    } else if vars[0] == name {
        Some(0)
    } else {
        match spec_pos(vars.skip(1), name) {
            Some(k) => Some(k + 1),
            None => None,
        }
    }
}

/// The text an argument reference reads as.
pub open spec fn spec_arg_ref(k: nat) -> Seq<char> {
    "arguments["@ + spec_digits(k) + "]"@
}

/// Script-argument substitution from position `p` on, with the text built
/// so far and the names seen so far: each complete `${name}` token becomes
/// a positional argument reference, a name seen before reusing its index.
pub open spec fn spec_emit_custom_from(
    s: Seq<char>,
    p: int,
    text: Seq<char>,
    vars: Seq<Seq<char>>,
) -> (Seq<char>, Seq<Seq<char>>)
    decreases s.len() - p when 0 <= p via spec_emit_custom_from_dec
{
    if p >= s.len() {
        (text, vars)
    } else {
        match spec_token_close(s, p) {
            Some(j) => {
                let name = spec_token_name(s, p, j);
                match spec_pos(vars, name) {
                    Some(k) => spec_emit_custom_from(
                        s,
                        j + 1,
                        text + spec_arg_ref(k as nat),
                        vars,
                    ),
                    None => spec_emit_custom_from(
                        s,
                        j + 1,
                        text + spec_arg_ref(vars.len()),
                        vars.push(name),
                    ),
                }
            },
            None => spec_emit_custom_from(s, p + 1, text + seq![s[p]], vars),
        }
    }
}

#[via_fn]
proof fn spec_emit_custom_from_dec(s: Seq<char>, p: int, text: Seq<char>, vars: Seq<Seq<char>>) {
    if 0 <= p && p < s.len() {
        lemma_first_brace_bounds(s, p + 2);
    }
}

/// Script-argument substitution of a whole string, starting with nothing
/// seen.
pub open spec fn spec_emit_custom(s: Seq<char>) -> (Seq<char>, Seq<Seq<char>>) {
    spec_emit_custom_from(s, 0, Seq::empty(), Seq::empty())
}

/// The views of a list of names.
pub open spec fn names_of(vars: Seq<String>) -> Seq<Seq<char>> {
    vars.map_values(|v: String| v@)
}

/// The closing brace of the token starting at `from - 2`, by scanning.
fn scan_close(s: &str, from: usize) -> (r: Option<usize>)
    requires
        from <= s@.len(),
    ensures
        match r {
            Some(j) => spec_first_brace(s@, from as int) == Some(j as int) && from <= j
                < s@.len(),
            None => spec_first_brace(s@, from as int) is None,
        },
{
    let n = s.unicode_len();
    let mut j = from;
    while j < n
        invariant
            from <= j <= n,
            n == s@.len(),
            spec_first_brace(s@, from as int) == spec_first_brace(s@, j as int),
        decreases n - j,
    {
        let c = s.get_char(j);
        if c == '}' {
            return Some(j);
        }
        if c == '\n' {
            return None;
        }
        j += 1;
    }
    None
}

proof fn lemma_spec_pos_found(vars: Seq<Seq<char>>, i: int, name: Seq<char>)
    requires
        0 <= i < vars.len(),
        vars[i] == name,
        forall|j: int| 0 <= j < i ==> vars[j] != name,
    ensures
        spec_pos(vars, name) == Some(i),
    decreases vars,
{
    if i > 0 {
        assert(forall|j: int| 0 <= j < i - 1 ==> vars.skip(1)[j] != name);
        lemma_spec_pos_found(vars.skip(1), i - 1, name);
    }
}

proof fn lemma_spec_pos_absent(vars: Seq<Seq<char>>, name: Seq<char>)
    requires
        forall|j: int| 0 <= j < vars.len() ==> vars[j] != name,
    ensures
        spec_pos(vars, name) is None,
    decreases vars,
{
    if vars.len() > 0 {
        assert(forall|j: int| 0 <= j < vars.len() - 1 ==> vars.skip(1)[j] != name);
        lemma_spec_pos_absent(vars.skip(1), name);
    }
}

/// The position of a name in the seen list, scanning from the front.
fn find_pos(vars: &Vec<String>, name: &str) -> (r: Option<usize>)
    ensures
        match r {
            Some(k) => spec_pos(names_of(vars@), name@) == Some(k as int),
            None => spec_pos(names_of(vars@), name@) is None,
        },
{
    let mut i: usize = 0;
    while i < vars.len()
        invariant
            i <= vars@.len(),
            forall|j: int| 0 <= j < i ==> names_of(vars@)[j] != name@,
        decreases vars@.len() - i,
    {
        if str_eq(vars[i].as_str(), name) {
            proof {
                lemma_spec_pos_found(names_of(vars@), i as int, name@);
            }
            return Some(i);
        }
        i += 1;
    }
    proof {
        lemma_spec_pos_absent(names_of(vars@), name@);
    }
    None
}

/// Plain substitution: replace each complete `${name}` token by the plain
/// rendering of the variable's value; leave a token with an unbound name
/// verbatim.
pub fn emit_variables(s: &str, store: &VarStore) -> (r: String)
    ensures
        r@ == spec_emit_plain(s@, store@),
{
    let n = s.unicode_len();
    let mut out = String::new();
    let mut p: usize = 0;
    while p < n
        invariant
            p <= n,
            n == s@.len(),
            spec_emit_plain(s@, store@) == out@ + spec_emit_plain_from(s@, p as int, store@),
        decreases n - p,
    {
        let mut copied = true;
        if s.get_char(p) == '$' && p + 1 < n {
            if s.get_char(p + 1) == '{' {
                match scan_close(s, p + 2) {
                    Some(j) => {
                        copied = false;
                        let ghost out0 = out@;
                        let name = s.substring_char(p + 2, j);
                        match store.get(name) {
                            Some(v) => {
                                let rendered = plain_text(v);
                                out.append(rendered.as_str());
                            },
                            None => {
                                let token = s.substring_char(p, j + 1);
                                out.append(token);
                            },
                        }
                        proof {
                            assert(spec_token_close(s@, p as int) == Some(j as int));
                            assert(spec_emit_plain(s@, store@) =~= out@ + spec_emit_plain_from(
                                s@,
                                j + 1,
                                store@,
                            ));
                        }
                        p = j + 1;
                    },
                    None => {
                        proof {
                            assert(spec_token_close(s@, p as int) is None);
                        }
                    },
                }
            }
        }
        if copied {
            proof {
                assert(spec_token_close(s@, p as int) is None);
            }
            let ghost out0 = out@;
            push_char(&mut out, s.get_char(p));
            proof {
                assert(spec_emit_plain(s@, store@) =~= out@ + spec_emit_plain_from(
                    s@,
                    p + 1,
                    store@,
                ));
            }
            p += 1;
        }
    }
    proof {
        assert(out@ =~= out@ + spec_emit_plain_from(s@, p as int, store@));
    }
    out
}

/// Script-argument substitution: rewrite each complete `${name}` token to a
/// positional argument reference, assigning each distinct name its
/// first-seen index, and return the ordered name list beside the text.
pub fn emit_variables_custom(s: &str) -> (r: (String, Vec<String>))
    ensures
        (r.0@, names_of(r.1@)) == spec_emit_custom(s@),
{
    let n = s.unicode_len();
    let mut out = String::new();
    let mut vars: Vec<String> = Vec::new();
    let mut p: usize = 0;
    proof {
        assert(names_of(vars@) =~= Seq::<Seq<char>>::empty());
    }
    while p < n
        invariant
            p <= n,
            n == s@.len(),
            spec_emit_custom(s@) == spec_emit_custom_from(s@, p as int, out@, names_of(vars@)),
        decreases n - p,
    {
        let mut copied = true;
        if s.get_char(p) == '$' && p + 1 < n {
            if s.get_char(p + 1) == '{' {
                match scan_close(s, p + 2) {
                    Some(j) => {
                        copied = false;
                        let ghost out0 = out@;
                        let name = s.substring_char(p + 2, j);
                        let ghost vars0 = names_of(vars@);
                        let k: usize = match find_pos(&vars, name) {
                            Some(k) => k,
                            None => {
                                let fresh = vars.len();
                                vars.push(name.to_owned());
                                proof {
                                    assert(names_of(vars@) =~= vars0.push(name@));
                                }
                                fresh
                            },
                        };
                        out.append("arguments[");
                        let num = u64_to_string(k as u64);
                        out.append(num.as_str());
                        out.append("]");
                        proof {
                            assert(spec_token_close(s@, p as int) == Some(j as int));
                            assert(out@ =~= out0 + spec_arg_ref(k as nat));
                            assert(spec_emit_custom_from(s@, p as int, out0, vars0)
                                == spec_emit_custom_from(s@, j + 1, out0 + spec_arg_ref(k as nat),
                                names_of(vars@)));
                        }
                        p = j + 1;
                    },
                    None => {
                        proof {
                            assert(spec_token_close(s@, p as int) is None);
                        }
                    },
                }
            }
        }
        if copied {
            proof {
                assert(spec_token_close(s@, p as int) is None);
            }
            let ghost out0 = out@;
            push_char(&mut out, s.get_char(p));
            proof {
                assert(out@ =~= out0 + seq![s@[p as int]]);
            }
            p += 1;
        }
    }
    (out, vars)
}


proof fn lemma_first_brace_exact(s: Seq<char>, i: int, j: int)
    requires
        0 <= i <= j < s.len(),
        s[j] == '}',
        forall|k: int| i <= k < j ==> s[k] != '}' && s[k] != '\n',
    ensures
        spec_first_brace(s, i) == Some(j),
    decreases j - i,
{
    if i < j {
        lemma_first_brace_exact(s, i + 1, j);
    }
}

/// A complete token over an unbound name is left exactly as it stands:
/// substitution never invents or deletes text for a name it cannot
/// resolve. Names holding a closing brace or a line break never form a
/// token in the first place, so they stay out of this statement.
pub proof fn lemma_missing_var_token_stays(name: Seq<char>, env: Map<Seq<char>, ValueV>)
    requires
        !env.contains_key(name),
        forall|i: int| 0 <= i < name.len() ==> name[i] != '}' && name[i] != '\n',
    ensures
        spec_emit_plain(seq!['$', '{'] + name + seq!['}'], env) == seq!['$', '{'] + name
            + seq!['}'],
{
    let s = seq!['$', '{'] + name + seq!['}'];
    assert(s.len() == name.len() + 3);
    assert(s[0] == '$');
    assert(s[1] == '{');
    assert(s[s.len() - 1] == '}');
    assert forall|k: int| 2 <= k < s.len() - 1 implies s[k] != '}' && s[k] != '\n' by {
        assert(s[k] == name[k - 2]);
    }
    lemma_first_brace_exact(s, 2, s.len() - 1);
    let j = s.len() - 1;
    assert(spec_token_close(s, 0) == Some(j));
    assert(s.subrange(2, j) =~= name);
    assert(s.subrange(0, j + 1) =~= s);
    assert(spec_emit_plain_from(s, j + 1, env) == Seq::<char>::empty());
    assert(spec_emit_plain(s, env) =~= s);
}

proof fn lemma_spec_pos_none(vars: Seq<Seq<char>>, name: Seq<char>)
    requires
        spec_pos(vars, name) is None,
    ensures
        forall|j: int| 0 <= j < vars.len() ==> vars[j] != name,
    decreases vars,
{
    if vars.len() > 0 {
        lemma_spec_pos_none(vars.skip(1), name);
        assert forall|j: int| 0 <= j < vars.len() implies vars[j] != name by {
            if j > 0 {
                assert(vars.skip(1)[j - 1] == vars[j]);
            }
        }
    }
}

proof fn lemma_custom_from_distinct(
    s: Seq<char>,
    p: int,
    text: Seq<char>,
    vars: Seq<Seq<char>>,
)
    requires
        0 <= p,
        forall|i: int, j: int| 0 <= i < j < vars.len() ==> vars[i] != vars[j],
    ensures
        ({
            let out = spec_emit_custom_from(s, p, text, vars);
            &&& (forall|i: int, j: int| 0 <= i < j < out.1.len() ==> out.1[i] != out.1[j])
            &&& vars.is_prefix_of(out.1)
        }),
    decreases s.len() - p,
{
    if p < s.len() {
        match spec_token_close(s, p) {
            Some(j) => {
                lemma_first_brace_bounds(s, p + 2);
                let name = spec_token_name(s, p, j);
                match spec_pos(vars, name) {
                    Some(k) => {
                        lemma_custom_from_distinct(s, j + 1, text + spec_arg_ref(k as nat), vars);
                    },
                    None => {
                        lemma_spec_pos_none(vars, name);
                        let vars2 = vars.push(name);
                        assert(forall|i: int, j2: int|
                            0 <= i < j2 < vars2.len() ==> vars2[i] != vars2[j2]);
                        lemma_custom_from_distinct(
                            s,
                            j + 1,
                            text + spec_arg_ref(vars.len()),
                            vars2,
                        );
                        assert(vars.is_prefix_of(vars2));
                        assert(vars.is_prefix_of(
                            spec_emit_custom_from(s, j + 1, text + spec_arg_ref(vars.len()), vars2).1,
                        ));
                    },
                }
            },
            None => {
                lemma_custom_from_distinct(s, p + 1, text + seq![s[p]], vars);
            },
        }
    }
}

/// The name list of a script-argument rewrite holds each referenced name
/// once: a name seen again reuses its first-seen slot instead of taking a
/// new one.
pub proof fn lemma_custom_vars_distinct(s: Seq<char>)
    ensures
        forall|i: int, j: int|
            0 <= i < j < spec_emit_custom(s).1.len() ==> spec_emit_custom(s).1[i]
                != spec_emit_custom(s).1[j],
{
    lemma_custom_from_distinct(s, 0, Seq::empty(), Seq::empty());
}


/// A complete token over a bound name is replaced by exactly the plain
/// rendering of the name's value, and nothing else.
pub proof fn lemma_bound_var_token(name: Seq<char>, env: Map<Seq<char>, ValueV>)
    requires
        env.contains_key(name),
        forall|i: int| 0 <= i < name.len() ==> name[i] != '}' && name[i] != '\n',
    ensures
        spec_emit_plain(seq!['$', '{'] + name + seq!['}'], env) == spec_plain(env[name]),
{
    let s = seq!['$', '{'] + name + seq!['}'];
    assert(s.len() == name.len() + 3);
    assert(s[0] == '$');
    assert(s[1] == '{');
    assert(s[s.len() - 1] == '}');
    assert forall|k: int| 2 <= k < s.len() - 1 implies s[k] != '}' && s[k] != '\n' by {
        assert(s[k] == name[k - 2]);
    }
    lemma_first_brace_exact(s, 2, s.len() - 1);
    let j = s.len() - 1;
    assert(spec_token_close(s, 0) == Some(j));
    assert(s.subrange(2, j) =~= name);
    assert(spec_emit_plain_from(s, j + 1, env) == Seq::<char>::empty());
    assert(spec_emit_plain(s, env) =~= spec_plain(env[name]));
}

} // verus!
