//! How the fields of a request are normalised: text trimmed, blank optional
//! fields dropped, tags and scopes trimmed, deduplicated and checked.
use vstd::prelude::*;
use crate::domain::{opt_str, strs};
use crate::error::AppError;
use crate::text::{concat, is_blank, lemma_starts_with_concat, starts_with, str_eq, trim, trim_str};

verus! {

/// `value` with white space trimmed, or `None` when nothing is left.
pub open spec fn opt_trim(value: Option<Seq<char>>) -> Option<Seq<char>> {
    match value {
        Some(v) => if trim(v).len() == 0 {
            None
        } else {
            Some(trim(v))
        },
        None => None,
    }
}

/// A required text field: trimmed, and refused when nothing is left.
pub fn required_trim(value: String, field: &str) -> (res: Result<String, AppError>)
    ensures
        trim(value@).len() == 0 ==> (res matches Err(e) && e is Validation && e.message_view()
            == field@ + " is required"@),
        trim(value@).len() > 0 ==> (res matches Ok(s) && s@ == trim(value@)),
{
    let trimmed = trim_str(value.as_str());
    if trimmed.unicode_len() == 0 {
        return Err(AppError::Validation(concat(field, " is required")));
    }
    Ok(trimmed)
}

/// The messages `required_trim` gives for the fields the service checks.
pub proof fn lemma_required_messages()
    ensures
        "path"@ + " is required"@ == "path is required"@,
        "password"@ + " is required"@ == "password is required"@,
        "name"@ + " is required"@ == "name is required"@,
{
    reveal_strlit("path");
    reveal_strlit("password");
    reveal_strlit("name");
    reveal_strlit(" is required");
    reveal_strlit("path is required");
    reveal_strlit("password is required");
    reveal_strlit("name is required");
    assert("path"@ + " is required"@ =~= "path is required"@);
    assert("password"@ + " is required"@ =~= "password is required"@);
    assert("name"@ + " is required"@ =~= "name is required"@);
}

/// An optional text field: trimmed, and dropped when nothing is left.
pub fn optional_trim(value: Option<String>) -> (r: Option<String>)
    ensures
        opt_str(r) == opt_trim(opt_str(value)),
{
    match value {
        Some(candidate) => {
            let trimmed = trim_str(candidate.as_str());
            if trimmed.unicode_len() == 0 {
                None
            } else {
                Some(trimmed)
            }
        },
        None => None,
    }
}

/// `s` with every repetition of an earlier element removed.
pub open spec fn dedup(s: Seq<Seq<char>>) -> Seq<Seq<char>>
    decreases s.len(),
{
    if s.len() == 0 {
        Seq::<Seq<char>>::empty()
    } else {
        let d = dedup(s.drop_last());
        if d.contains(s.last()) {
            d
        } else {
            d.push(s.last())
        }
    }
}

/// Some element of `v` is empty or all white space.
pub open spec fn has_blank(v: Seq<Seq<char>>) -> bool {
    exists|i: int| 0 <= i < v.len() && trim(#[trigger] v[i]).len() == 0
}

/// Every element of `v`, trimmed.
pub open spec fn trim_all(v: Seq<Seq<char>>) -> Seq<Seq<char>> {
    v.map_values(|t: Seq<char>| trim(t))
}

/// The tags a list normalises to: trimmed, first occurrences only; `None`
/// when one of them is blank.
pub open spec fn normalized_tags(v: Seq<Seq<char>>) -> Option<Seq<Seq<char>>> {
    if has_blank(v) {
        None
    } else {
        Some(dedup(trim_all(v)))
    }
}

proof fn lemma_dedup_props(s: Seq<Seq<char>>)
    ensures
        dedup(s).no_duplicates(),
        forall|x: Seq<char>| dedup(s).contains(x) <==> s.contains(x),
    decreases s.len(),
{
    if s.len() > 0 {
        let p = s.drop_last();
        lemma_dedup_props(p);
        let d = dedup(p);
        assert forall|x: Seq<char>| dedup(s).contains(x) <==> s.contains(x) by {
            if s.contains(x) {
                let k = choose|k: int| 0 <= k < s.len() && s[k] == x;
                if k < s.len() - 1 {
                    assert(p[k] == x);
                    assert(p.contains(x));
                }
            }
            if p.contains(x) {
                let k = choose|k: int| 0 <= k < p.len() && p[k] == x;
                assert(s[k] == x);
            }
            if !d.contains(s.last()) {
                if d.push(s.last()).contains(x) {
                    let k = choose|k: int| 0 <= k < d.push(s.last()).len() && d.push(s.last())[k] == x;
                    if k < d.len() {
                        assert(d[k] == x);
                    }
                }
                if d.contains(x) {
                    let k = choose|k: int| 0 <= k < d.len() && d[k] == x;
                    assert(d.push(s.last())[k] == x);
                }
                assert(d.push(s.last())[d.len() as int] == s.last());
            }
            assert(s[s.len() - 1] == s.last());
        }
    }
}

proof fn lemma_dedup_of_distinct(s: Seq<Seq<char>>)
    requires
        s.no_duplicates(),
    ensures
        dedup(s) == s,
    decreases s.len(),
{
    if s.len() > 0 {
        let p = s.drop_last();
        assert(p.no_duplicates());
        lemma_dedup_of_distinct(p);
        lemma_dedup_props(p);
        if p.contains(s.last()) {
            let k = choose|k: int| 0 <= k < p.len() && p[k] == s.last();
            assert(s[k] == s[s.len() - 1]);
        }
        assert(p.push(s.last()) =~= s);
    }
}

/// Normalising tags a second time changes nothing, and normalised tags hold
/// no repeated entry.
pub proof fn lemma_normalize_tags_idempotent(v: Seq<Seq<char>>)
    requires
        normalized_tags(v) is Some,
    ensures
        normalized_tags(normalized_tags(v)->0) == normalized_tags(v),
        (normalized_tags(v)->0).no_duplicates(),
{
    let tv = trim_all(v);
    let t = dedup(tv);
    lemma_dedup_props(tv);
    assert forall|i: int| 0 <= i < t.len() implies trim(#[trigger] t[i]) == t[i] && trim(t[i]).len() > 0 by {
        assert(t.contains(t[i]));
        assert(tv.contains(t[i]));
        let k = choose|k: int| 0 <= k < tv.len() && tv[k] == t[i];
        assert(tv[k] == trim(v[k]));
        crate::text::lemma_trim_idempotent(v[k]);
        if trim(v[k]).len() == 0 {
            assert(has_blank(v));
        }
    }
    assert(!has_blank(t));
    assert(trim_all(t) =~= t);
    lemma_dedup_of_distinct(t);
}

/// Whether the string `s` is among `v`.
pub fn contains_string(v: &Vec<String>, s: &String) -> (r: bool)
    ensures
        r == strs(v@).contains(s@),
{
    let mut i: usize = 0;
    while i < v.len()
        invariant
            i <= v@.len(),
            forall|k: int| 0 <= k < i ==> v@[k]@ != s@,
        decreases v@.len() - i,
    {
        if v[i] == *s {
            assert(strs(v@)[i as int] == s@);
            return true;
        }
        i = i + 1;
    }
    assert forall|k: int| 0 <= k < strs(v@).len() implies strs(v@)[k] != s@ by {
        assert(strs(v@)[k] == v@[k]@);
    }
    false
}

/// Trims every tag, drops repeated ones (keeping the first) and refuses a
/// blank one.
pub fn normalize_tags(values: Vec<String>) -> (res: Result<Vec<String>, AppError>)
    ensures
        match normalized_tags(strs(values@)) {
            Some(t) => res matches Ok(r) && strs(r@) == t,
            None => res matches Err(e) && e is Validation && e.message_view()
                == "tags cannot contain empty values"@,
        },
{
    let ghost vs = strs(values@);
    let mut result: Vec<String> = Vec::new();
    let mut i: usize = 0;
    while i < values.len()
        invariant
            vs == strs(values@),
            i <= values@.len(),
            !has_blank(vs.subrange(0, i as int)),
            strs(result@) == dedup(trim_all(vs.subrange(0, i as int))),
        decreases values@.len() - i,
    {
        let ghost pre = vs.subrange(0, i + 1);
        assert(pre.drop_last() == vs.subrange(0, i as int));
        assert(pre.last() == values@[i as int]@);
        assert(trim_all(pre).drop_last() == trim_all(vs.subrange(0, i as int)));
        let trimmed = trim_str(values[i].as_str());
        if is_blank(trimmed.as_str()) {
            proof {
                crate::text::lemma_trim_idempotent(values@[i as int]@);
                assert(trim(vs[i as int]).len() == 0);
                let ghost k = i as int;
                assert(0 <= k < vs.len() && trim(vs[k]).len() == 0);
            }
            return Err(AppError::Validation(String::from_str("tags cannot contain empty values")));
        }
        proof {
            crate::text::lemma_trim_idempotent(values@[i as int]@);
            assert forall|k: int| 0 <= k < pre.len() implies trim(#[trigger] pre[k]).len() != 0 by {
                if k < i {
                    assert(pre[k] == vs.subrange(0, i as int)[k]);
                }
            }
        }
        if !contains_string(&result, &trimmed) {
            result.push(trimmed);
            assert(strs(result@) == strs(result@).drop_last().push(trimmed@));
        }
        i = i + 1;
    }
    assert(vs.subrange(0, values@.len() as int) == vs);
    Ok(result)
}

/// The scopes a token may carry.
pub open spec fn is_allowed_scope(s: Seq<char>) -> bool {
    ||| s == "secrets.read"@
    ||| s == "secrets.write"@
    ||| s == "tokens.manage"@
    ||| s == "secrets.delete"@
    ||| s == "secrets.list"@
    ||| s == "config.read"@
    ||| s == "service.health"@
}

/// Whether `s` is a scope a token may carry.
pub fn allowed_scope(s: &str) -> (r: bool)
    ensures
        r == is_allowed_scope(s@),
{
    str_eq(s, "secrets.read") || str_eq(s, "secrets.write") || str_eq(s, "tokens.manage") || str_eq(
        s,
        "secrets.delete",
    ) || str_eq(s, "secrets.list") || str_eq(s, "config.read") || str_eq(s, "service.health")
}

/// The index of the first scope of `t` that is not allowed, or -1.
pub open spec fn first_unsupported(t: Seq<Seq<char>>) -> int
    decreases t.len(),
{
    if t.len() == 0 {
        -1
    } else {
        let f = first_unsupported(t.drop_last());
        if f >= 0 {
            f
        } else if !is_allowed_scope(t.last()) {
            t.len() - 1
        } else {
            -1
        }
    }
}

/// The scopes a list normalises to, or the message of the error.
pub open spec fn scopes_outcome(v: Seq<Seq<char>>) -> Result<Seq<Seq<char>>, Seq<char>> {
    match normalized_tags(v) {
        None => Err("tags cannot contain empty values"@),
        Some(t) => if first_unsupported(t) >= 0 {
            Err("unsupported scope: "@ + t[first_unsupported(t)])
        } else {
            Ok(t)
        },
    }
}

proof fn lemma_first_unsupported(t: Seq<Seq<char>>)
    ensures
        -1 <= first_unsupported(t) < t.len(),
        first_unsupported(t) >= 0 ==> !is_allowed_scope(t[first_unsupported(t)]) && forall|k: int|
            0 <= k < first_unsupported(t) ==> is_allowed_scope(#[trigger] t[k]),
        first_unsupported(t) < 0 ==> forall|k: int| 0 <= k < t.len() ==> is_allowed_scope(#[trigger] t[k]),
    decreases t.len(),
{
    if t.len() > 0 {
        lemma_first_unsupported(t.drop_last());
        assert forall|k: int| 0 <= k < t.len() - 1 implies t[k] == t.drop_last()[k] by {}
    }
}

/// Normalises scopes as tags, then refuses the first one that is not
/// allowed.
pub fn normalize_scopes(values: Vec<String>) -> (res: Result<Vec<String>, AppError>)
    ensures
        match scopes_outcome(strs(values@)) {
            Ok(t) => res matches Ok(r) && strs(r@) == t,
            Err(m) => res matches Err(e) && e is Validation && e.message_view() == m,
        },
{
    let ghost vs = strs(values@);
    let scopes = match normalize_tags(values) {
        Ok(v) => v,
        Err(e) => {
            return Err(e);
        },
    };
    let ghost t = strs(scopes@);
    assert(normalized_tags(vs) == Some(t));
    proof {
        lemma_first_unsupported(t);
    }
    let mut i: usize = 0;
    while i < scopes.len()
        invariant
            t == strs(scopes@),
            normalized_tags(vs) == Some(t),
            vs == strs(values@),
            i <= scopes@.len(),
            forall|k: int| 0 <= k < i ==> is_allowed_scope(#[trigger] t[k]),
            -1 <= first_unsupported(t) < t.len(),
            first_unsupported(t) >= 0 ==> !is_allowed_scope(t[first_unsupported(t)]) && forall|k: int|
                0 <= k < first_unsupported(t) ==> is_allowed_scope(#[trigger] t[k]),
            first_unsupported(t) < 0 ==> forall|k: int| 0 <= k < t.len() ==> is_allowed_scope(#[trigger] t[k]),
        decreases scopes@.len() - i,
    {
        assert(t[i as int] == scopes@[i as int]@);
        if !allowed_scope(scopes[i].as_str()) {
            proof {
                let f = first_unsupported(t);
                if f >= 0 && f < i {
                    assert(is_allowed_scope(t[f]));
                }
                if f > i {
                    assert(is_allowed_scope(t[i as int]));
                }
                if f < 0 {
                    assert(is_allowed_scope(t[i as int]));
                }
                assert(f == i);
            }
            let msg = concat("unsupported scope: ", scopes[i].as_str());
            assert(msg@ == "unsupported scope: "@ + t[first_unsupported(t)]);
            return Err(AppError::Validation(msg));
        }
        i = i + 1;
    }
    Ok(scopes)
}

} // verus!
