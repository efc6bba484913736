//! Expansion of `{{name}}` placeholders in a template.
//!
//! A placeholder is `{{`, a name, and the first `}}` that follows. Where the
//! name is a field of the map, the placeholder is replaced by the field's
//! value: as it is when the name begins with `NOESC`, escaped for markup
//! otherwise. Every other character of the template is kept, so a
//! placeholder of an unknown name stays as written. The template is read
//! once from left to right: what a value holds is never expanded again.

use vstd::prelude::*;
use crate::escape::{esc_chars, escaped, lemma_escaped_is_markup_safe, markup_safe};
use crate::fields::{is_raw, is_raw_name, FieldMap};
use crate::text::{chars_of, copy_range, push_chars, string_of};

verus! {

/// Whether `{{` stands at position `i` of `t`.
pub open spec fn opens_at(t: Seq<char>, i: int) -> bool {
    0 <= i && i + 2 <= t.len() && t[i] == '{' && t[i + 1] == '{'
}

/// Whether `}}` stands at position `j` of `t`.
pub open spec fn closes_at(t: Seq<char>, j: int) -> bool {
    0 <= j && j + 2 <= t.len() && t[j] == '}' && t[j + 1] == '}'
}

/// The position of the first `}}` at or after `j`, or the length of `t` if
/// there is none.
pub open spec fn first_close(t: Seq<char>, j: int) -> int
    decreases t.len() - j,
{
    if j < 0 || j + 2 > t.len() {
        t.len() as int
    } else if closes_at(t, j) {
        j
    } else {
        first_close(t, j + 1)
    }
}

/// The name of the placeholder that starts at position `i`, if one does.
pub open spec fn placeholder_name(t: Seq<char>, i: int) -> Option<Seq<char>> {
    if opens_at(t, i) && first_close(t, i + 2) < t.len() {
        Some(t.subrange(i + 2, first_close(t, i + 2)))
    } else {
        None
    }
}

/// The text that replaces a placeholder called `name`.
pub open spec fn substitution(vars: Map<Seq<char>, Seq<char>>, name: Seq<char>) -> Seq<char> {
    if is_raw_name(name) {
        vars[name]
    } else {
        escaped(vars[name])
    }
}

/// Whether a placeholder of a field of `vars` starts at position `i`.
pub open spec fn known_placeholder_at(
    t: Seq<char>,
    vars: Map<Seq<char>, Seq<char>>,
    i: int,
) -> bool {
    placeholder_name(t, i) matches Some(name) && vars.contains_key(name)
}

/// The expansion of the part of `t` that starts at position `i`.
pub open spec fn expanded_from(t: Seq<char>, vars: Map<Seq<char>, Seq<char>>, i: int) -> Seq<char>
    decreases t.len() - i,
{
    if i < 0 || i >= t.len() {
        Seq::empty()
    } else if known_placeholder_at(t, vars, i) {
        proof {
            lemma_first_close(t, i + 2);
        }
        substitution(vars, placeholder_name(t, i).unwrap()) + expanded_from(
            t,
            vars,
            first_close(t, i + 2) + 2,
        )
    } else {
        seq![t[i]] + expanded_from(t, vars, i + 1)
    }
}

/// The expansion of the template `t` with the fields `vars`.
pub open spec fn expanded(t: Seq<char>, vars: Map<Seq<char>, Seq<char>>) -> Seq<char> {
    expanded_from(t, vars, 0)
}

/// The name of the first placeholder, read from position `i` on as
/// expansion reads, that is no field of `vars`.
pub open spec fn unfilled_from(t: Seq<char>, vars: Map<Seq<char>, Seq<char>>, i: int) -> Option<
    Seq<char>,
>
    decreases t.len() - i,
{
    if i < 0 || i >= t.len() {
        None
    } else {
        match placeholder_name(t, i) {
            Some(name) => {
                if vars.contains_key(name) {
                    proof {
                        lemma_first_close(t, i + 2);
                    }
                    unfilled_from(t, vars, first_close(t, i + 2) + 2)
                } else {
                    Some(name)
                }
            },
            None => unfilled_from(t, vars, i + 1),
        }
    }
}

/// The name of the first placeholder of the template `t` that expansion
/// with `vars` would leave as written, if there is one.
pub open spec fn unfilled(t: Seq<char>, vars: Map<Seq<char>, Seq<char>>) -> Option<Seq<char>> {
    unfilled_from(t, vars, 0)
}

/// `{{name}}`
pub open spec fn placeholder(name: Seq<char>) -> Seq<char> {
    seq!['{', '{'] + name + seq!['}', '}']
}

/// The first `}}` at or after `j` stands between `j` and the end, and no
/// `}}` stands before it.
pub proof fn lemma_first_close(t: Seq<char>, j: int)
    requires
        0 <= j <= t.len(),
    ensures
        j <= first_close(t, j) <= t.len(),
        first_close(t, j) < t.len() ==> closes_at(t, first_close(t, j)),
        forall|k: int| j <= k < first_close(t, j) ==> !closes_at(t, k),
    decreases t.len() - j,
{
    if j + 2 <= t.len() && !closes_at(t, j) {
        lemma_first_close(t, j + 1);
    }
}

/// Finds the first `}}` at or after `j`.
fn find_close(t: &Vec<char>, j: usize) -> (r: usize)
    requires
        j <= t.len(),
    ensures
        r == first_close(t@, j as int),
        j <= r <= t.len(),
        r < t.len() ==> r + 2 <= t.len(),
{
    let n = t.len();
    let mut k: usize = j;
    while k < n && n - k >= 2
        invariant
            j <= k <= n,
            n == t.len(),
            first_close(t@, j as int) == first_close(t@, k as int),
        decreases n - k,
    {
        if t[k] == '}' && t[k + 1] == '}' {
            return k;
        }
        k += 1;
    }
    n
}

/// Expands the placeholders of `template` with the fields of `vars`.
///
/// The result is the template with each `{{name}}` whose name is a field of
/// `vars` replaced by that field's value, escaped unless the name begins
/// with `NOESC`; placeholders of other names are left as they are.
pub fn expand_template(template: &str, vars: &FieldMap) -> (out: String)
    ensures
        out@ == expanded(template@, vars@),
{
    let t = chars_of(template);
    let r = expand_chars(&t, vars);
    string_of(&r)
}

/// The name of the first placeholder of `template` that expansion with
/// `vars` would leave as written, if there is one.
pub fn first_unfilled(template: &str, vars: &FieldMap) -> (r: Option<String>)
    ensures
        r is Some <==> unfilled(template@, vars@) is Some,
        r matches Some(name) ==> Some(name@) == unfilled(template@, vars@),
{
    let t = chars_of(template);
    let n = t.len();
    let mut i: usize = 0;
    while i < n
        invariant
            i <= n,
            n == t.len(),
            t@ == template@,
            unfilled_from(t@, vars@, i as int) == unfilled(t@, vars@),
        decreases n - i,
    {
        let mut next: usize = i + 1;
        if n - i >= 2 && t[i] == '{' && t[i + 1] == '{' {
            let j = find_close(&t, i + 2);
            if j < n {
                let name = copy_range(&t, i + 2, j);
                let key = string_of(&name);
                if vars.contains_key(key.as_str()) {
                    next = j + 2;
                } else {
                    return Some(key);
                }
            }
        }
        i = next;
    }
    None
}

/// Expands the placeholders of the template `t` with the fields of `vars`.
pub fn expand_chars(t: &Vec<char>, vars: &FieldMap) -> (out: Vec<char>)
    ensures
        out@ == expanded(t@, vars@),
{
    let n = t.len();
    let mut out: Vec<char> = Vec::new();
    let mut i: usize = 0;
    while i < n
        invariant
            i <= n,
            n == t.len(),
            out@ + expanded_from(t@, vars@, i as int) == expanded(t@, vars@),
        decreases n - i,
    {
        let ghost before = out@;
        let mut next: usize = i + 1;
        let mut replaced = false;
        if n - i >= 2 && t[i] == '{' && t[i + 1] == '{' {
            let j = find_close(t, i + 2);
            if j < n {
                let name = copy_range(t, i + 2, j);
                let key = string_of(&name);
                match vars.get(key.as_str()) {
                    Some(value) => {
                        let text = chars_of(value.as_str());
                        if is_raw(key.as_str()) {
                            push_chars(&mut out, &text);
                        } else {
                            let safe = esc_chars(&text);
                            push_chars(&mut out, &safe);
                        }
                        next = j + 2;
                        replaced = true;
                    },
                    None => {},
                }
            }
        }
        if !replaced {
            out.push(t[i]);
        }
        proof {
            let rest = expanded_from(t@, vars@, next as int);
            if replaced {
                assert(known_placeholder_at(t@, vars@, i as int));
                let piece = substitution(vars@, placeholder_name(t@, i as int).unwrap());
                assert(out@ == before + piece);
                assert(out@ + rest == before + (piece + rest));
            } else {
                assert(!known_placeholder_at(t@, vars@, i as int));
                assert(out@ + rest == before + (seq![t@[i as int]] + rest));
            }
        }
        i = next;
    }
    assert(out@ + Seq::<char>::empty() == out@);
    out
}

/// What replaces the placeholder of a field whose name does not begin with
/// `NOESC` is markup-safe, whatever the field holds.
pub proof fn lemma_substitution_is_markup_safe(vars: Map<Seq<char>, Seq<char>>, name: Seq<char>)
    requires
        !is_raw_name(name),
    ensures
        markup_safe(substitution(vars, name)),
{
    lemma_escaped_is_markup_safe(vars[name]);
}

/// From a position on, a template in which no placeholder of a field of
/// `vars` starts is kept as it is.
proof fn lemma_kept_from(t: Seq<char>, vars: Map<Seq<char>, Seq<char>>, i: int)
    requires
        0 <= i <= t.len(),
        forall|k: int| 0 <= k < t.len() ==> !known_placeholder_at(t, vars, k),
    ensures
        expanded_from(t, vars, i) == t.subrange(i, t.len() as int),
    decreases t.len() - i,
{
    if i < t.len() {
        lemma_kept_from(t, vars, i + 1);
        assert(!known_placeholder_at(t, vars, i));
        assert(seq![t[i]] + t.subrange(i + 1, t.len() as int) == t.subrange(i, t.len() as int));
    } else {
        assert(t.subrange(i, t.len() as int) == Seq::<char>::empty());
    }
}

/// A template in which no placeholder of a field of `vars` starts is kept
/// as it is: placeholders of other names stay as written, and a field does
/// not touch the placeholder of a longer name.
pub proof fn lemma_expanded_without_known_placeholder(
    t: Seq<char>,
    vars: Map<Seq<char>, Seq<char>>,
)
    requires
        forall|k: int| 0 <= k < t.len() ==> !known_placeholder_at(t, vars, k),
    ensures
        expanded(t, vars) == t,
{
    lemma_kept_from(t, vars, 0);
    assert(t.subrange(0, t.len() as int) == t);
}

/// With no fields, every template is kept as it is.
pub proof fn lemma_expanded_without_fields(t: Seq<char>)
    ensures
        expanded(t, Map::<Seq<char>, Seq<char>>::empty()) == t,
{
    lemma_expanded_without_known_placeholder(t, Map::<Seq<char>, Seq<char>>::empty());
}

/// Whether `name` can stand in a placeholder: read from its start, the
/// first `}}` of `name}}` is the one behind the name.
pub open spec fn delimited(name: Seq<char>) -> bool {
    forall|j: int| 0 <= j < name.len() ==> !closes_at(name + seq!['}', '}'], j)
}

/// In `{{name}}` the first `}}` behind the opening braces is the one behind
/// the name.
proof fn lemma_placeholder_close(name: Seq<char>, j: int)
    requires
        delimited(name),
        2 <= j <= name.len() + 2,
    ensures
        first_close(placeholder(name), j) == name.len() + 2,
    decreases name.len() + 2 - j,
{
    let p = placeholder(name);
    let tail = name + seq!['}', '}'];
    assert(p.len() == name.len() + 4);
    if j < name.len() + 2 {
        assert(!closes_at(tail, j - 2));
        assert(p[j] == tail[j - 2]);
        assert(p[j + 1] == tail[j - 1]);
        lemma_placeholder_close(name, j + 1);
    } else {
        assert(p[j] == '}');
        assert(p[j + 1] == '}');
    }
}

/// The placeholder of a field is replaced by the field's value: as it is
/// where the name begins with `NOESC`, escaped otherwise.
pub proof fn lemma_expanded_placeholder(name: Seq<char>, vars: Map<Seq<char>, Seq<char>>)
    requires
        delimited(name),
        vars.contains_key(name),
    ensures
        expanded(placeholder(name), vars) == substitution(vars, name),
        is_raw_name(name) ==> expanded(placeholder(name), vars) == vars[name],
        !is_raw_name(name) ==> expanded(placeholder(name), vars) == escaped(vars[name]),
{
    let p = placeholder(name);
    let n = name.len() as int;
    lemma_placeholder_close(name, 2);
    assert(p[0] == '{' && p[1] == '{');
    assert(p.subrange(2, n + 2) == name);
    assert(placeholder_name(p, 0) == Some(name));
    assert(expanded_from(p, vars, n + 4) == Seq::<char>::empty());
    assert(substitution(vars, name) + Seq::<char>::empty() == substitution(vars, name));
}

/// The placeholder of a name that is no field is kept as written, whatever
/// fields there are: a field called `owner` does not touch `{{ownerphone}}`.
pub proof fn lemma_unknown_placeholder_is_kept(name: Seq<char>, vars: Map<Seq<char>, Seq<char>>)
    requires
        delimited(name),
        !vars.contains_key(name),
        forall|i: int| 0 <= i < name.len() ==> name[i] != '{',
    ensures
        expanded(placeholder(name), vars) == placeholder(name),
{
    let p = placeholder(name);
    let n = name.len() as int;
    lemma_placeholder_close(name, 2);
    assert(p.subrange(2, n + 2) == name);
    assert forall|k: int| 0 <= k < p.len() implies !known_placeholder_at(p, vars, k) by {
        if k == 0 {
            assert(placeholder_name(p, 0) == Some(name));
        } else if k + 2 <= p.len() {
            if k < n + 2 {
                if k + 1 < n + 2 {
                    assert(p[k + 1] == name[k - 1]);
                } else {
                    assert(p[k + 1] == '}');
                }
            } else {
                assert(p[k] == '}');
            }
            assert(!opens_at(p, k));
        }
    }
    lemma_expanded_without_known_placeholder(p, vars);
}

/// Behind a text `a`, the first `}}` of `t` stands where it stands in `t`,
/// moved by the length of `a`.
proof fn lemma_first_close_shifted(a: Seq<char>, t: Seq<char>, j: int)
    requires
        0 <= j <= t.len(),
    ensures
        first_close(a + t, a.len() + j) == a.len() + first_close(t, j),
    decreases t.len() - j,
{
    let s = a + t;
    if j + 2 <= t.len() {
        assert(s[a.len() + j] == t[j]);
        assert(s[a.len() + j + 1] == t[j + 1]);
        if !closes_at(t, j) {
            lemma_first_close_shifted(a, t, j + 1);
        }
    }
}

/// Behind a text `a`, the template `t` expands as it does alone.
proof fn lemma_expanded_shifted(a: Seq<char>, t: Seq<char>, vars: Map<Seq<char>, Seq<char>>, i: int)
    requires
        0 <= i <= t.len(),
    ensures
        expanded_from(a + t, vars, a.len() + i) == expanded_from(t, vars, i),
    decreases t.len() - i,
{
    let s = a + t;
    if i < t.len() {
        assert(s[a.len() + i] == t[i]);
        if i + 2 <= t.len() {
            assert(s[a.len() + i + 1] == t[i + 1]);
            lemma_first_close_shifted(a, t, i + 2);
            lemma_first_close(t, i + 2);
        }
        if opens_at(t, i) && first_close(t, i + 2) < t.len() {
            let end = first_close(t, i + 2);
            assert(s.subrange(a.len() + i + 2, a.len() + end) == t.subrange(i + 2, end));
            lemma_expanded_shifted(a, t, vars, end + 2);
        }
        lemma_expanded_shifted(a, t, vars, i + 1);
    }
}

/// Text without an opening brace in front of a template is kept, and the
/// template behind it expands as it does alone.
pub proof fn lemma_expanded_behind_text(a: Seq<char>, t: Seq<char>, vars: Map<Seq<char>, Seq<char>>)
    requires
        forall|k: int| 0 <= k < a.len() ==> a[k] != '{',
    ensures
        expanded(a + t, vars) == a + expanded(t, vars),
{
    lemma_behind_text_from(a, t, vars, 0);
    assert(a.subrange(0, a.len() as int) == a);
}

/// From a position of the text `a` on, `a` is kept and the template behind
/// it expands as it does alone.
proof fn lemma_behind_text_from(
    a: Seq<char>,
    t: Seq<char>,
    vars: Map<Seq<char>, Seq<char>>,
    i: int,
)
    requires
        0 <= i <= a.len(),
        forall|k: int| 0 <= k < a.len() ==> a[k] != '{',
    ensures
        expanded_from(a + t, vars, i) == a.subrange(i, a.len() as int) + expanded(t, vars),
    decreases a.len() - i,
{
    let s = a + t;
    if i < a.len() {
        assert(s[i] == a[i]);
        assert(!opens_at(s, i));
        lemma_behind_text_from(a, t, vars, i + 1);
        assert(seq![a[i]] + (a.subrange(i + 1, a.len() as int) + expanded(t, vars))
            == a.subrange(i, a.len() as int) + expanded(t, vars));
    } else {
        lemma_expanded_shifted(a, t, vars, 0);
        assert(a.subrange(i, a.len() as int) + expanded(t, vars) == expanded(t, vars));
    }
}

/// From a position on, a template none of whose placeholders is left as
/// written has no unfilled placeholder.
proof fn lemma_filled_from(t: Seq<char>, vars: Map<Seq<char>, Seq<char>>, i: int)
    requires
        0 <= i <= t.len(),
        forall|k: int|
            0 <= k < t.len() && placeholder_name(t, k) is Some ==> known_placeholder_at(t, vars, k),
    ensures
        unfilled_from(t, vars, i) is None,
    decreases t.len() - i,
{
    if i < t.len() {
        if placeholder_name(t, i) is Some {
            assert(known_placeholder_at(t, vars, i));
            lemma_first_close(t, i + 2);
            lemma_filled_from(t, vars, first_close(t, i + 2) + 2);
        } else {
            lemma_filled_from(t, vars, i + 1);
        }
    }
}

/// A template all of whose placeholders bear names of fields of `vars` has
/// no unfilled placeholder.
pub proof fn lemma_all_known_is_filled(t: Seq<char>, vars: Map<Seq<char>, Seq<char>>)
    requires
        forall|k: int|
            0 <= k < t.len() && placeholder_name(t, k) is Some ==> known_placeholder_at(t, vars, k),
    ensures
        unfilled(t, vars) is None,
{
    lemma_filled_from(t, vars, 0);
}

/// The name of an unfilled placeholder is the name of a placeholder of the
/// template and no field of `vars`.
pub proof fn lemma_unfilled_is_unknown(t: Seq<char>, vars: Map<Seq<char>, Seq<char>>, i: int)
    requires
        0 <= i <= t.len(),
        unfilled_from(t, vars, i) is Some,
    ensures
        !vars.contains_key(unfilled_from(t, vars, i).unwrap()),
        exists|k: int|
            i <= k < t.len() && #[trigger] placeholder_name(t, k) == unfilled_from(t, vars, i),
    decreases t.len() - i,
{
    if i < t.len() {
        match placeholder_name(t, i) {
            Some(name) => {
                if vars.contains_key(name) {
                    lemma_first_close(t, i + 2);
                    let next = first_close(t, i + 2) + 2;
                    lemma_unfilled_is_unknown(t, vars, next);
                    let k = choose|k: int|
                        next <= k < t.len() && #[trigger] placeholder_name(t, k) == unfilled_from(
                            t,
                            vars,
                            next,
                        );
                    assert(i <= k < t.len() && placeholder_name(t, k) == unfilled_from(t, vars, i));
                } else {
                    assert(placeholder_name(t, i) == unfilled_from(t, vars, i));
                }
            },
            None => {
                lemma_unfilled_is_unknown(t, vars, i + 1);
                let k = choose|k: int|
                    i + 1 <= k < t.len() && #[trigger] placeholder_name(t, k) == unfilled_from(
                        t,
                        vars,
                        i + 1,
                    );
                assert(i <= k < t.len() && placeholder_name(t, k) == unfilled_from(t, vars, i));
            },
        }
    }
}

} // verus!
