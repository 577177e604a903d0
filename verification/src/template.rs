//! Placeholder substitution over script contents: every maximal `${IDENT}`
//! token, where `IDENT` is one or more characters of `[A-Za-z0-9_]`, is
//! replaced by the value the placeholder map binds to `IDENT`. Substitution
//! is a single pass: replacement values are not scanned again. A placeholder
//! whose name has no binding is a fatal error carrying that name.
use vstd::prelude::*;

use crate::error::Error;
use crate::error::MissingVariableTemplateError;
use crate::placeholders::Placeholders;
use crate::strutil::chars_to_string;
use crate::strutil::str_chars;

verus! {

/// A character that may occur in a placeholder name.
pub open spec fn spec_is_ident_char(c: char) -> bool {
    ('A' <= c && c <= 'Z') || ('a' <= c && c <= 'z') || ('0' <= c && c <= '9') || c == '_'
}

fn is_ident_char(c: char) -> (r: bool)
    ensures
        r == spec_is_ident_char(c),
{
    ('A' <= c && c <= 'Z') || ('a' <= c && c <= 'z') || ('0' <= c && c <= '9') || c == '_'
}

/// The first position at or after `k` that does not hold an identifier
/// character, or the length of the sequence if all the rest do.
pub open spec fn spec_ident_end(s: Seq<char>, k: int) -> int
    decreases s.len() - k,
{
    if 0 <= k && k < s.len() && spec_is_ident_char(s[k]) {
        spec_ident_end(s, k + 1)
    } else {
        k
    }
}

/// A placeholder token `${IDENT}` starts at position `i`.
pub open spec fn spec_match_at(s: Seq<char>, i: int) -> bool {
    &&& 0 <= i
    &&& i + 1 < s.len()
    &&& s[i] == '$'
    &&& s[i + 1] == '{'
    &&& spec_ident_end(s, i + 2) > i + 2
    &&& spec_ident_end(s, i + 2) < s.len()
    &&& s[spec_ident_end(s, i + 2)] == '}'
}

/// The name of the placeholder token starting at position `i`.
pub open spec fn spec_match_name(s: Seq<char>, i: int) -> Seq<char> {
    s.subrange(i + 2, spec_ident_end(s, i + 2))
}

/// The result of expanding the template from position `i` on: the expanded
/// text, or the name of the first placeholder that the map does not bind.
pub open spec fn spec_expand_from(s: Seq<char>, m: Map<Seq<char>, Seq<char>>, i: int) -> Result<
    Seq<char>,
    Seq<char>,
>
    decreases s.len() - i,
{
    if i < 0 || i >= s.len() {
        Ok(Seq::empty())
    } else if spec_match_at(s, i) {
        let name = spec_match_name(s, i);
        if m.contains_key(name) {
            match spec_expand_from(s, m, spec_ident_end(s, i + 2) + 1) {
                Ok(rest) => Ok(m[name] + rest),
                Err(x) => Err(x),
            }
        } else {
            Err(name)
        }
    } else {
        match spec_expand_from(s, m, i + 1) {
            Ok(rest) => Ok(seq![s[i]] + rest),
            Err(x) => Err(x),
        }
    }
}

/// The result of expanding a whole template under a placeholder map.
pub open spec fn spec_expand(t: Seq<char>, m: Map<Seq<char>, Seq<char>>) -> Result<
    Seq<char>,
    Seq<char>,
> {
    spec_expand_from(t, m, 0)
}

fn ident_end(cv: &Vec<char>, k: usize) -> (r: usize)
    requires
        k <= cv@.len(),
    ensures
        r as int == spec_ident_end(cv@, k as int),
        k <= r <= cv@.len(),
{
    let mut j: usize = k;
    while j < cv.len()
        invariant
            k <= j <= cv@.len(),
            spec_ident_end(cv@, k as int) == spec_ident_end(cv@, j as int),
        decreases cv@.len() - j,
    {
        if !is_ident_char(cv[j]) {
            return j;
        }
        j = j + 1;
    }
    j
}

/// Substitutes every `${IDENT}` token in the template by the value bound to
/// `IDENT`, returning the expanded text, or the missing-placeholder error
/// naming the first `IDENT` the map does not bind.
pub fn fill_template(template: &str, vars: &Placeholders) -> (r: Result<String, Error>)
    ensures
        match r {
            Ok(out) => spec_expand(template@, vars@) == Ok::<Seq<char>, Seq<char>>(out@),
            Err(e) => e matches Error::MissingVariableTemplateError(me) && spec_expand(
                template@,
                vars@,
            ) == Err::<Seq<char>, Seq<char>>(me.name@),
        },
{
    let cv = str_chars(template);
    let mut out: Vec<char> = Vec::new();
    let mut i: usize = 0;
    while i < cv.len()
        invariant
            cv@ == template@,
            i <= cv@.len(),
            match spec_expand_from(cv@, vars@, i as int) {
                Ok(rest) => spec_expand_from(cv@, vars@, 0) == Ok::<Seq<char>, Seq<char>>(
                    out@ + rest,
                ),
                Err(x) => spec_expand_from(cv@, vars@, 0) == Err::<Seq<char>, Seq<char>>(x),
            },
        decreases cv@.len() - i,
    {
        let ghost i0 = i as int;
        let ghost out0 = out@;
        let mut matched = false;
        if i + 1 < cv.len() && cv[i] == '$' && cv[i + 1] == '{' {
            let e = ident_end(&cv, i + 2);
            if e > i + 2 && e < cv.len() && cv[e] == '}' {
                matched = true;
                assert(spec_match_at(cv@, i0));
                let mut name_vec: Vec<char> = Vec::new();
                let mut j: usize = i + 2;
                while j < e
                    invariant
                        0 <= i0,
                        i0 + 2 <= j <= e,
                        e <= cv@.len(),
                        name_vec@ == cv@.subrange(i0 + 2, j as int),
                    decreases e - j,
                {
                    name_vec.push(cv[j]);
                    j = j + 1;
                    assert(name_vec@ =~= cv@.subrange(i0 + 2, j as int));
                }
                let name_str = chars_to_string(&name_vec);
                assert(name_str@ == spec_match_name(cv@, i0));
                match vars.get(&name_str) {
                    Some(value) => {
                        let vv = str_chars(value.as_str());
                        let mut j2: usize = 0;
                        let ghost outm = out@;
                        while j2 < vv.len()
                            invariant
                                j2 <= vv@.len(),
                                out@ == outm + vv@.subrange(0, j2 as int),
                            decreases vv@.len() - j2,
                        {
                            out.push(vv[j2]);
                            j2 = j2 + 1;
                            assert(out@ =~= outm + vv@.subrange(0, j2 as int));
                        }
                        assert(out@ =~= out0 + vars@[name_str@]);
                        i = e + 1;
                        proof {
                            match spec_expand_from(cv@, vars@, i as int) {
                                Ok(rest) => {
                                    assert(spec_expand_from(cv@, vars@, i0) == Ok::<
                                        Seq<char>,
                                        Seq<char>,
                                    >(vars@[name_str@] + rest));
                                    assert(out0 + (vars@[name_str@] + rest) =~= out@ + rest);
                                },
                                Err(_) => {},
                            }
                        }
                    },
                    None => {
                        assert(spec_expand_from(cv@, vars@, i0) == Err::<Seq<char>, Seq<char>>(
                            name_str@,
                        ));
                        return Err(
                            Error::MissingVariableTemplateError(
                                MissingVariableTemplateError { name: name_str },
                            ),
                        );
                    },
                }
            }
        }
        if !matched {
            proof {
                assert(!spec_match_at(cv@, i0));
            }
            out.push(cv[i]);
            i = i + 1;
            proof {
                match spec_expand_from(cv@, vars@, i as int) {
                    Ok(rest) => {
                        assert(spec_expand_from(cv@, vars@, i0) == Ok::<Seq<char>, Seq<char>>(
                            seq![cv@[i0]] + rest,
                        ));
                        assert(out0 + (seq![cv@[i0]] + rest) =~= out@ + rest);
                    },
                    Err(_) => {},
                }
            }
        }
    }
    proof {
        assert(spec_expand_from(cv@, vars@, i as int) == Ok::<Seq<char>, Seq<char>>(
            Seq::empty(),
        ));
        assert(out@ + Seq::<char>::empty() =~= out@);
    }
    Ok(chars_to_string(&out))
}

/// No placeholder token occurs anywhere in the sequence.
pub open spec fn no_placeholder(s: Seq<char>) -> bool {
    forall|i: int| !spec_match_at(s, i)
}

proof fn lemma_expand_from_no_placeholder(s: Seq<char>, m: Map<Seq<char>, Seq<char>>, i: int)
    requires
        no_placeholder(s),
        0 <= i <= s.len(),
    ensures
        spec_expand_from(s, m, i) == Ok::<Seq<char>, Seq<char>>(
            s.subrange(i, s.len() as int),
        ),
    decreases s.len() - i,
{
    if i >= s.len() {
        assert(s.subrange(i, s.len() as int) =~= Seq::<char>::empty());
    } else {
        assert(!spec_match_at(s, i));
        lemma_expand_from_no_placeholder(s, m, i + 1);
        assert(seq![s[i]] + s.subrange(i + 1, s.len() as int) =~= s.subrange(
            i,
            s.len() as int,
        ));
    }
}

/// Expanding a text that contains no placeholder token returns it unchanged,
/// whatever the map.
pub proof fn lemma_expand_no_placeholder(s: Seq<char>, m: Map<Seq<char>, Seq<char>>)
    requires
        no_placeholder(s),
    ensures
        spec_expand(s, m) == Ok::<Seq<char>, Seq<char>>(s),
{
    lemma_expand_from_no_placeholder(s, m, 0);
    assert(s.subrange(0, s.len() as int) =~= s);
}

/// Template expansion is idempotent on outputs that contain no placeholder
/// token: if expanding a template produced such an output, expanding that
/// output under the same map returns it unchanged.
pub proof fn lemma_expand_idempotent(
    t: Seq<char>,
    m: Map<Seq<char>, Seq<char>>,
    expanded: Seq<char>,
)
    requires
        spec_expand(t, m) == Ok::<Seq<char>, Seq<char>>(expanded),
        no_placeholder(expanded),
    ensures
        spec_expand(expanded, m) == Ok::<Seq<char>, Seq<char>>(expanded),
{
    lemma_expand_no_placeholder(expanded, m);
}

} // verus!
