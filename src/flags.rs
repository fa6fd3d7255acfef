use vstd::prelude::*;
use crate::text::{dash_led, has_prefix, is_dash_led, same_text, starts_with, views};

verus! {

/// The token names `flag`: it is the flag itself, or the flag followed by `=`.
pub open spec fn names_flag(token: Seq<char>, flag: Seq<char>) -> bool {
    token == flag || starts_with(token, flag.push('='))
}

/// Index `i` holds the first token that names `flag`.
pub open spec fn first_occurrence(args: Seq<Seq<char>>, flag: Seq<char>, i: int) -> bool {
    &&& 0 <= i < args.len()
    &&& names_flag(args[i], flag)
    &&& forall|j: int| 0 <= j < i ==> !names_flag(args[j], flag)
}

/// The value carried by the flag token at index `i`: the text after `=`, or
/// else the next token unless it is missing or begins with a dash, in which
/// case the value is empty.
pub open spec fn value_at(args: Seq<Seq<char>>, i: int, flag: Seq<char>) -> Seq<char> {
    if starts_with(args[i], flag.push('=')) {
        args[i].subrange(flag.len() + 1 as int, args[i].len() as int)
    } else if i + 1 < args.len() && !dash_led(args[i + 1]) {
        args[i + 1]
    } else {
        Seq::empty()
    }
}

/// What extracting `flag` from `args` yields: nothing when no token names it,
/// else the value at its first occurrence.
pub open spec fn flag_value(args: Seq<Seq<char>>, flag: Seq<char>) -> Option<Seq<char>> {
    if exists|i: int| first_occurrence(args, flag, i) {
        Some(value_at(args, choose|i: int| first_occurrence(args, flag, i), flag))
    } else {
        None
    }
}

/// At most one index is the first occurrence of a flag.
pub proof fn lemma_first_occurrence_unique(args: Seq<Seq<char>>, flag: Seq<char>, i: int, k: int)
    requires
        first_occurrence(args, flag, i),
        first_occurrence(args, flag, k),
    ensures
        i == k,
{
}

/// The value of a flag at its first occurrence `i` is what extraction yields.
pub proof fn lemma_flag_value_at(args: Seq<Seq<char>>, flag: Seq<char>, i: int)
    requires
        first_occurrence(args, flag, i),
    ensures
        flag_value(args, flag) == Some(value_at(args, i, flag)),
{
    let k = choose|k: int| first_occurrence(args, flag, k);
    lemma_first_occurrence_unique(args, flag, i, k);
}

/// No token names the flag exactly when extraction yields nothing.
pub proof fn lemma_flag_absent_iff(args: Seq<Seq<char>>, flag: Seq<char>)
    ensures
        flag_value(args, flag) is None <==> forall|i: int|
            0 <= i < args.len() ==> !names_flag(#[trigger] args[i], flag),
{
    if exists|i: int| 0 <= i < args.len() && names_flag(args[i], flag) {
        let i = choose|i: int| 0 <= i < args.len() && names_flag(args[i], flag);
        lemma_first_exists(args, flag, i);
    }
}

/// A token that names the flag has a first occurrence at or before it.
pub proof fn lemma_first_exists(args: Seq<Seq<char>>, flag: Seq<char>, i: int)
    requires
        0 <= i < args.len(),
        names_flag(args[i], flag),
    ensures
        exists|k: int| k <= i && first_occurrence(args, flag, k),
    decreases i,
{
    if exists|j: int| 0 <= j < i && names_flag(args[j], flag) {
        let j = choose|j: int| 0 <= j < i && names_flag(args[j], flag);
        lemma_first_exists(args, flag, j);
    } else {
        assert(first_occurrence(args, flag, i));
    }
}

/// A list in which the only token naming `flag` is `flag=v` yields `v`,
/// the empty `v` included.
pub proof fn lemma_extract_equals_form(args: Seq<Seq<char>>, flag: Seq<char>, v: Seq<char>, i: int)
    requires
        0 <= i < args.len(),
        args[i] == flag.push('=') + v,
        forall|j: int| 0 <= j < args.len() && j != i ==> !names_flag(#[trigger] args[j], flag),
    ensures
        flag_value(args, flag) == Some(v),
{
    assert(args[i].subrange(0, flag.len() + 1 as int) =~= flag.push('='));
    assert(first_occurrence(args, flag, i));
    lemma_flag_value_at(args, flag, i);
    assert(args[i].subrange(flag.len() + 1 as int, args[i].len() as int) =~= v);
}

/// A bare `flag` with no earlier token naming it yields the next token when
/// that token exists and does not begin with a dash, and the empty value
/// otherwise; a list with no token naming the flag yields nothing.
pub proof fn lemma_extract_bare_form(args: Seq<Seq<char>>, flag: Seq<char>, i: int)
    requires
        0 <= i < args.len(),
        args[i] == flag,
        forall|j: int| 0 <= j < i ==> !names_flag(#[trigger] args[j], flag),
    ensures
        i + 1 < args.len() && !dash_led(args[i + 1]) ==> flag_value(args, flag) == Some(
            args[i + 1],
        ),
        !(i + 1 < args.len() && !dash_led(args[i + 1])) ==> flag_value(args, flag) == Some(
            Seq::<char>::empty(),
        ),
        flag_value(args, flag) is Some,
{
    assert(first_occurrence(args, flag, i));
    lemma_flag_value_at(args, flag, i);
    assert(!starts_with(args[i], flag.push('=')));
}

/// The token `token` names `flag`.
fn token_names_flag(token: &str, flag: &str, eq_form: &str) -> (r: bool)
    requires
        eq_form@ == flag@.push('='),
    ensures
        r == names_flag(token@, flag@),
{
    same_text(token, flag) || has_prefix(token, eq_form)
}

/// The text of `flag` followed by `=`.
fn with_equals(flag: &str) -> (r: String)
    ensures
        r@ == flag@.push('='),
{
    let mut r = String::from_str(flag);
    r.append("=");
    proof {
        reveal_strlit("=");
    }
    assert(r@ =~= flag@.push('='));
    r
}

/// The index of the first token of `args` that names `flag`, if any.
pub fn find_flag(args: &[String], flag: &str) -> (r: Option<usize>)
    ensures
        r matches Some(i) ==> first_occurrence(views(args@), flag@, i as int),
        r is None ==> forall|i: int|
            0 <= i < args@.len() ==> !names_flag(#[trigger] views(args@)[i], flag@),
        r is None <==> flag_value(views(args@), flag@) is None,
{
    let ghost a = views(args@);
    let eq_form = with_equals(flag);
    let mut i: usize = 0;
    while i < args.len()
        invariant
            a == views(args@),
            eq_form@ == flag@.push('='),
            i <= args@.len(),
            forall|j: int| 0 <= j < i ==> !names_flag(#[trigger] a[j], flag@),
        decreases args@.len() - i,
    {
        if token_names_flag(args[i].as_str(), flag, eq_form.as_str()) {
            assert(first_occurrence(a, flag@, i as int));
            proof {
                lemma_flag_value_at(a, flag@, i as int);
            }
            return Some(i);
        }
        i = i + 1;
    }
    proof {
        lemma_flag_absent_iff(a, flag@);
    }
    None
}

/// Finds `flag` in `args`, scanning left to right, and returns the value of
/// its first occurrence: the text after `flag=`, or the next token when the
/// flag stands alone and that token does not begin with a dash; an empty
/// string when the flag stands alone without such a token; `None` when no
/// token names the flag.
pub fn get_flag_value(args: &[String], flag: &str) -> (r: Option<String>)
    ensures
        r matches Some(v) ==> flag_value(views(args@), flag@) == Some(v@),
        r is None ==> flag_value(views(args@), flag@) is None,
{
    let ghost a = views(args@);
    match find_flag(args, flag) {
        None => None,
        Some(i) => {
            proof {
                lemma_flag_value_at(a, flag@, i as int);
            }
            let tok = args[i].as_str();
            let eq_form = with_equals(flag);
            if has_prefix(tok, eq_form.as_str()) {
                let n = tok.unicode_len();
                return Some(String::from_str(tok.substring_char(flag.unicode_len() + 1, n)));
            }
            if i + 1 < args.len() && !is_dash_led(args[i + 1].as_str()) {
                return Some(args[i + 1].clone());
            }
            Some(String::new())
        },
    }
}

} // verus!
