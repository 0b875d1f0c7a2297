use vstd::prelude::*;
use vstd::string::StrSliceExecFns;
use crate::textutil::chars_to_string;

verus! {

/// The tokens of a custom launch command, from one lexing state: quotes
/// toggle their mode without joining the token, a bare space ends the
/// current token, and every other character extends it.  Unterminated
/// quotes simply end with the text.
pub open spec fn lex_tokens(
    s: Seq<char>,
    in_single: bool,
    in_double: bool,
    cur: Seq<char>,
) -> Seq<Seq<char>>
    decreases s.len(),
{
    if s.len() == 0 {
        if cur.len() == 0 {
            Seq::empty()
        } else {
            seq![cur]
        }
    } else {
        let c = s[0];
        let rest = s.drop_first();
        if c == '\'' && !in_double {
            lex_tokens(rest, !in_single, in_double, cur)
        } else if c == '"' && !in_single {
            lex_tokens(rest, in_single, !in_double, cur)
        } else if c == ' ' && !in_single && !in_double {
            if cur.len() == 0 {
                lex_tokens(rest, in_single, in_double, cur)
            } else {
                seq![cur] + lex_tokens(rest, in_single, in_double, Seq::empty())
            }
        } else {
            lex_tokens(rest, in_single, in_double, cur.push(c))
        }
    }
}

/// The tokens of a custom launch command.
pub open spec fn spec_tokenize(s: Seq<char>) -> Seq<Seq<char>> {
    lex_tokens(s, false, false, Seq::empty())
}

/// Split a custom launch command into tokens, honoring single and double
/// quotes.
pub fn tokenize_launch_command(launch_cmd: &str) -> (r: Vec<String>)
    ensures
        r.deep_view() == spec_tokenize(launch_cmd@),
{
    let len = launch_cmd.unicode_len();
    let mut tokens: Vec<String> = Vec::new();
    let mut cur: Vec<char> = Vec::new();
    let mut in_single = false;
    let mut in_double = false;
    let mut i: usize = 0;
    proof {
        assert(launch_cmd@.skip(0) =~= launch_cmd@);
        assert(tokens.deep_view() =~= Seq::<Seq<char>>::empty());
        assert((Seq::<Seq<char>>::empty() + lex_tokens(
            launch_cmd@,
            false,
            false,
            Seq::<char>::empty(),
        )) =~= lex_tokens(launch_cmd@, false, false, Seq::<char>::empty()));
    }
    while i < len
        invariant
            len == launch_cmd@.len(),
            i <= len,
            spec_tokenize(launch_cmd@) == tokens.deep_view() + lex_tokens(
                launch_cmd@.skip(i as int),
                in_single,
                in_double,
                cur@,
            ),
        decreases len - i,
    {
        let c = launch_cmd.get_char(i);
        proof {
            assert(launch_cmd@.skip(i as int)[0] == launch_cmd@[i as int]);
            assert(launch_cmd@.skip(i as int).drop_first() =~= launch_cmd@.skip(i as int + 1));
        }
        if c == '\'' && !in_double {
            in_single = !in_single;
        } else if c == '"' && !in_single {
            in_double = !in_double;
        } else if c == ' ' && !in_single && !in_double {
            if cur.len() > 0 {
                let ghost tokens_deep0 = tokens.deep_view();
                let ghost curv = cur@;
                let ghost rest = lex_tokens(
                    launch_cmd@.skip(i as int + 1),
                    in_single,
                    in_double,
                    Seq::<char>::empty(),
                );
                let t = chars_to_string(&cur);
                tokens.push(t);
                cur = Vec::new();
                proof {
                    assert(tokens.deep_view() =~= tokens_deep0.push(curv));
                    assert((tokens_deep0 + (seq![curv] + rest)) =~= (tokens_deep0.push(curv)
                        + rest));
                }
            }
        } else {
            cur.push(c);
        }
        i = i + 1;
    }
    proof {
        assert(launch_cmd@.skip(len as int) =~= Seq::<char>::empty());
    }
    if cur.len() > 0 {
        let ghost tokens_deep0 = tokens.deep_view();
        let ghost curv = cur@;
        let t = chars_to_string(&cur);
        tokens.push(t);
        proof {
            assert(tokens.deep_view() =~= tokens_deep0.push(curv));
            assert((tokens_deep0 + seq![curv]) =~= tokens_deep0.push(curv));
        }
    } else {
        proof {
            assert((tokens.deep_view() + Seq::<Seq<char>>::empty()) =~= tokens.deep_view());
        }
    }
    tokens
}

/// Whether a character counts as Unicode white space, as the standard
/// library's trim judges it.  The verdict depends on the character alone.
pub uninterp spec fn is_unicode_whitespace(c: char) -> bool;

/// Relies on char::is_whitespace: the Unicode White_Space property of the
/// character.  A plain space has it.
#[verifier::external_body]
fn char_is_whitespace(c: char) -> (r: bool)
    ensures
        r == is_unicode_whitespace(c),
        c == ' ' ==> r,
{
    c.is_whitespace()
}

/// The position of the first equals sign, or the length when there is
/// none.
pub open spec fn first_eq_index(t: Seq<char>) -> int
    decreases t.len(),
{
    if t.len() == 0 {
        0
    } else if t[0] == '=' {
        0
    } else {
        1 + first_eq_index(t.drop_first())
    }
}

/// The part of the token before its first equals sign.
pub open spec fn token_key(t: Seq<char>) -> Seq<char> {
    t.take(first_eq_index(t))
}

/// The part of the token between its first equals sign and the next one or
/// the end.
pub open spec fn token_value(t: Seq<char>) -> Seq<char> {
    let rest = t.skip(first_eq_index(t) + 1);
    rest.take(first_eq_index(rest))
}

/// Only white space.
pub open spec fn key_is_blank(k: Seq<char>) -> bool {
    forall|i: int| 0 <= i < k.len() ==> is_unicode_whitespace(k[i])
}

/// The token declares an environment variable: it has an equals sign and
/// its key is not only white space.
pub open spec fn declares_env_var(t: Seq<char>) -> bool {
    first_eq_index(t) < t.len() && !key_is_blank(token_key(t))
}

/// The predicate that keeps a token in the command line.
pub open spec fn not_env_decl() -> spec_fn(Seq<char>) -> bool {
    |t: Seq<char>| !declares_env_var(t)
}

/// The predicate that pulls a token out as an environment variable.
pub open spec fn is_env_decl() -> spec_fn(Seq<char>) -> bool {
    |t: Seq<char>| declares_env_var(t)
}

/// The (key, value) pair a declaring token contributes.
pub open spec fn key_value_of() -> spec_fn(Seq<char>) -> (Seq<char>, Seq<char>) {
    |t: Seq<char>| (token_key(t), token_value(t))
}

/// The command-line tokens extraction leaves behind, in order.
pub open spec fn kept_tokens(ts: Seq<Seq<char>>) -> Seq<Seq<char>> {
    ts.filter(not_env_decl())
}

/// The environment pairs extraction pulls out, in token order.
pub open spec fn extracted_pairs(ts: Seq<Seq<char>>) -> Seq<(Seq<char>, Seq<char>)> {
    ts.filter(is_env_decl()).map_values(key_value_of())
}

proof fn lemma_first_eq_at(t: Seq<char>, i: int)
    requires
        0 <= i <= t.len(),
        forall|j: int| 0 <= j < i ==> t[j] != '=',
        i == t.len() || t[i] == '=',
    ensures
        first_eq_index(t) == i,
    decreases t.len(),
{
    if t.len() > 0 && t[0] != '=' {
        assert(i > 0);
        assert forall|j: int| 0 <= j < i - 1 implies t.drop_first()[j] != '=' by {
            assert(t.drop_first()[j] == t[j + 1]);
        }
        lemma_first_eq_at(t.drop_first(), i - 1);
    }
}

/// The end of the run without an equals sign that starts at `start`.
fn scan_to_eq(s: &str, start: usize, len: usize) -> (e: usize)
    requires
        len == s@.len(),
        start <= len,
    ensures
        start <= e <= len,
        forall|j: int| start <= j < e ==> s@[j] != '=',
        e == len || s@[e as int] == '=',
{
    let mut e: usize = start;
    while e < len
        invariant
            len == s@.len(),
            start <= e <= len,
            forall|j: int| start <= j < e ==> s@[j] != '=',
        decreases len - e,
    {
        if s.get_char(e) == '=' {
            return e;
        }
        e = e + 1;
    }
    e
}

/// Whether the text is only white space.
fn str_is_blank(s: &str) -> (r: bool)
    ensures
        r == key_is_blank(s@),
{
    let len = s.unicode_len();
    let mut i: usize = 0;
    while i < len
        invariant
            len == s@.len(),
            i <= len,
            forall|j: int| 0 <= j < i ==> is_unicode_whitespace(s@[j]),
        decreases len - i,
    {
        if !char_is_whitespace(s.get_char(i)) {
            return false;
        }
        i = i + 1;
    }
    true
}

/// The environment pair a token declares, if it declares one.
fn classify_token(t: &String) -> (r: Option<(String, String)>)
    ensures
        match r {
            Some(p) => declares_env_var(t@) && p.0@ == token_key(t@) && p.1@ == token_value(
                t@,
            ),
            None => !declares_env_var(t@),
        },
{
    let s = t.as_str();
    let len = s.unicode_len();
    let e1 = scan_to_eq(s, 0, len);
    proof {
        lemma_first_eq_at(s@, e1 as int);
    }
    if e1 == len {
        return None;
    }
    let key = s.substring_char(0, e1);
    proof {
        assert(key@ =~= token_key(s@));
    }
    if str_is_blank(key) {
        return None;
    }
    let e2 = scan_to_eq(s, e1 + 1, len);
    let value = s.substring_char(e1 + 1, e2);
    proof {
        let rest = s@.skip(e1 as int + 1);
        assert forall|j: int| 0 <= j < e2 as int - (e1 as int + 1) implies rest[j] != '=' by {
            assert(rest[j] == s@[e1 as int + 1 + j]);
        }
        assert(e2 as int - (e1 as int + 1) == rest.len() || rest[e2 as int - (e1 as int + 1)]
            == '=');
        lemma_first_eq_at(rest, e2 as int - (e1 as int + 1));
        assert(value@ =~= rest.take(first_eq_index(rest)));
    }
    Some((key.to_owned(), value.to_owned()))
}

/// Pull the environment variable declarations out of a tokenized launch
/// command: every token with a non-blank key before an equals sign leaves
/// the command line and contributes its key and the part up to the next
/// equals sign as a (key, value) pair; every other token stays, in order.
pub fn extract_env_vars_from_tokens(tokens: &mut Vec<String>) -> (r: Vec<(String, String)>)
    ensures
        final(tokens).deep_view() == kept_tokens(old(tokens).deep_view()),
        r.deep_view() == extracted_pairs(old(tokens).deep_view()),
{
    let ghost orig = tokens.deep_view();
    let mut kept: Vec<String> = Vec::new();
    let mut pairs: Vec<(String, String)> = Vec::new();
    let mut i: usize = 0;
    proof {
        assert(orig.take(0) =~= Seq::<Seq<char>>::empty());
        assert(kept.deep_view() =~= Seq::<Seq<char>>::empty());
        assert(pairs.deep_view() =~= Seq::<(Seq<char>, Seq<char>)>::empty());
        assert(Seq::<Seq<char>>::empty().filter(not_env_decl()) =~= Seq::<Seq<char>>::empty());
        assert(Seq::<Seq<char>>::empty().filter(is_env_decl()).map_values(key_value_of())
            =~= Seq::<(Seq<char>, Seq<char>)>::empty());
    }
    while i < tokens.len()
        invariant
            i <= tokens@.len(),
            orig == tokens.deep_view(),
            orig.len() == tokens@.len(),
            kept.deep_view() == kept_tokens(orig.take(i as int)),
            pairs.deep_view() == extracted_pairs(orig.take(i as int)),
        decreases tokens@.len() - i,
    {
        let ghost tv = orig[i as int];
        proof {
            assert(tv == tokens@[i as int].deep_view());
            orig.lemma_take_succ_push(i as int);
            orig.take(i as int).lemma_filter_push(tv, not_env_decl());
            orig.take(i as int).lemma_filter_push(tv, is_env_decl());
            orig.take(i as int).filter(is_env_decl()).lemma_push_map_commute(
                key_value_of(),
                tv,
            );
        }
        match classify_token(&tokens[i]) {
            Some(p) => {
                let ghost pairs_deep0 = pairs.deep_view();
                let ghost pv = (p.0@, p.1@);
                pairs.push(p);
                proof {
                    assert(pairs.deep_view() =~= pairs_deep0.push(pv));
                    assert(pv == key_value_of()(tv));
                }
            },
            None => {
                let ghost kept_deep0 = kept.deep_view();
                let t = tokens[i].clone();
                kept.push(t);
                proof {
                    assert(kept.deep_view() =~= kept_deep0.push(tv));
                }
            },
        }
        i = i + 1;
    }
    proof {
        assert(orig.take(orig.len() as int) =~= orig);
    }
    *tokens = kept;
    pairs
}

} // verus!
