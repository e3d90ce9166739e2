use vstd::prelude::*;

use crate::pattern::{parse_config_file_for_pattern, properties_of, PatternError};
use crate::properties::{map_of, PropertyMap};
use crate::text::{same_text, slice, trim, trimmed, views};

verus! {

/// The offset of the `}` that closes a placeholder whose name starts `r`:
/// the first `}` before any line feed.
pub open spec fn brace_end(r: Seq<char>) -> Option<nat>
    decreases r.len(),
{
    if r.len() == 0 {
        None
    } else if r[0] == '}' {
        Some(0)
    } else if r[0] == '\n' {
        None
    } else {
        match brace_end(r.drop_first()) {
            Some(k) => Some(k + 1),
            None => None,
        }
    }
}

/// The names of the `{name}` placeholders of `s`, in the order in which they
/// appear, repeats kept. A `{` opens a placeholder when a `}` follows it on
/// the same line; the name is the shortest text between them.
pub open spec fn placeholders(s: Seq<char>) -> Seq<Seq<char>>
    decreases s.len(),
{
    if s.len() == 0 {
        Seq::empty()
    } else if s[0] == '{' && brace_end(s.drop_first()) is Some && brace_end(s.drop_first())->0 + 2
        <= s.len() {
        let k = brace_end(s.drop_first())->0 as int;
        seq![s.subrange(1, k + 1)] + placeholders(s.skip(k + 2))
    } else {
        placeholders(s.drop_first())
    }
}

/// `s` with each placeholder whose name `answers` holds replaced by the
/// trimmed answer; all other text is kept as it is.
pub open spec fn fill(s: Seq<char>, answers: Map<Seq<char>, Seq<char>>) -> Seq<char>
    decreases s.len(),
{
    if s.len() == 0 {
        Seq::empty()
    } else if s[0] == '{' && brace_end(s.drop_first()) is Some && brace_end(s.drop_first())->0 + 2
        <= s.len() {
        let k = brace_end(s.drop_first())->0 as int;
        let name = s.subrange(1, k + 1);
        if answers.contains_key(name) {
            trim(answers[name]) + fill(s.skip(k + 2), answers)
        } else {
            s.take(k + 2) + fill(s.skip(k + 2), answers)
        }
    } else {
        seq![s[0]] + fill(s.drop_first(), answers)
    }
}

/// The items of `s` without repeats, each where it first appears.
pub open spec fn first_occurrences(s: Seq<Seq<char>>) -> Seq<Seq<char>>
    decreases s.len(),
{
    if s.len() == 0 {
        Seq::empty()
    } else if s.drop_last().contains(s.last()) {
        first_occurrences(s.drop_last())
    } else {
        first_occurrences(s.drop_last()).push(s.last())
    }
}

proof fn lemma_first_occurrences_contains(s: Seq<Seq<char>>)
    ensures
        forall|x: Seq<char>| first_occurrences(s).contains(x) <==> s.contains(x),
    decreases s.len(),
{
    if s.len() > 0 {
        lemma_first_occurrences_contains(s.drop_last());
        let t = s.drop_last();
        assert forall|x: Seq<char>| first_occurrences(s).contains(x) <==> s.contains(x) by {
            if s.contains(x) && x != s.last() {
                let i = choose|i: int| 0 <= i < s.len() && s[i] == x;
                assert(t[i] == x);
            }
            if t.contains(x) {
                let i = choose|i: int| 0 <= i < t.len() && t[i] == x;
                assert(s[i] == x);
            }
            if first_occurrences(s).contains(x) && !t.contains(s.last()) {
                let f = first_occurrences(t);
                let i = choose|i: int| 0 <= i < f.push(s.last()).len() && f.push(s.last())[i] == x;
                if i < f.len() {
                    assert(f[i] == x);
                }
            }
            if !t.contains(s.last()) && x == s.last() {
                let f = first_occurrences(t);
                assert(f.push(s.last())[f.len() as int] == x);
            }
            if !t.contains(s.last()) && t.contains(x) {
                let f = first_occurrences(t);
                let i = choose|i: int| 0 <= i < f.len() && f[i] == x;
                assert(f.push(s.last())[i] == x);
            }
            assert(s.last() == s[s.len() - 1]);
        }
    }
}

/// The position of the `}` that closes a placeholder whose name starts at `from`.
fn find_brace_end(s: &str, from: usize) -> (r: Option<usize>)
    requires
        from <= s@.len(),
    ensures
        match r {
            Some(j) => from <= j < s@.len() && brace_end(s@.skip(from as int)) == Some(
                (j - from) as nat,
            ),
            None => brace_end(s@.skip(from as int)) is None,
        },
{
    let n = s.unicode_len();
    let mut j: usize = from;
    while j < n
        invariant
            n == s@.len(),
            from <= j <= n,
            brace_end(s@.skip(from as int)) == match brace_end(s@.skip(j as int)) {
                Some(k) => Some(k + (j - from) as nat),
                None => None,
            },
        decreases n - j,
    {
        assert(s@.skip(j as int).drop_first() =~= s@.skip(j + 1));
        let c = s.get_char(j);
        if c == '}' {
            return Some(j);
        }
        if c == '\n' {
            return None;
        }
        j += 1;
    }
    None
}

/// The names of the placeholders of `value`, in order, repeats kept.
pub fn collect_user_input_from_string(value: &str) -> (r: Vec<String>)
    ensures
        views(r@) == placeholders(value@),
{
    let n = value.unicode_len();
    let mut names: Vec<String> = Vec::new();
    let mut i: usize = 0;
    assert(value@.skip(0) =~= value@);
    while i < n
        invariant
            n == value@.len(),
            i <= n,
            views(names@) + placeholders(value@.skip(i as int)) == placeholders(value@),
        decreases n - i,
    {
        let ghost rest = value@.skip(i as int);
        assert(rest.drop_first() =~= value@.skip(i + 1));
        let ghost before = views(names@);
        if value.get_char(i) == '{' {
            match find_brace_end(value, i + 1) {
                Some(j) => {
                    let name = slice(value, i + 1, j);
                    assert(name@ =~= rest.subrange(1, (j - i) as int));
                    assert(rest.skip((j - i) + 1) =~= value@.skip(j + 1));
                    names.push(name);
                    assert(views(names@) =~= before.push(name@));
                    assert(before.push(name@) + placeholders(value@.skip(j + 1)) =~= before + (
                    seq![name@] + placeholders(value@.skip(j + 1))));
                    i = j + 1;
                },
                None => {
                    i += 1;
                },
            }
        } else {
            i += 1;
        }
    }
    assert(views(names@) + placeholders(value@.skip(n as int)) =~= views(names@));
    names
}

/// The names of the placeholders of `template`, each once, in the order of
/// their first appearance: the values to ask for.
pub fn placeholders_to_ask(template: &str) -> (r: Vec<String>)
    ensures
        views(r@) == first_occurrences(placeholders(template@)),
{
    let all = collect_user_input_from_string(template);
    distinct_strings(&all)
}

/// The strings of `items` without repeats, each where it first appears.
pub fn distinct_strings(items: &Vec<String>) -> (r: Vec<String>)
    ensures
        views(r@) == first_occurrences(views(items@)),
{
    let all = items;
    let ghost ph = views(all@);
    let mut names: Vec<String> = Vec::new();
    let mut i: usize = 0;
    assert(ph.take(0) =~= Seq::<Seq<char>>::empty());
    assert(views(names@) =~= Seq::<Seq<char>>::empty());
    while i < all.len()
        invariant
            ph == views(all@),
            i <= all@.len(),
            views(names@) == first_occurrences(ph.take(i as int)),
        decreases all.len() - i,
    {
        let name = all[i].as_str();
        let ghost upto = ph.take(i + 1);
        assert(upto.drop_last() =~= ph.take(i as int));
        assert(upto.last() == name@);
        proof {
            lemma_first_occurrences_contains(ph.take(i as int));
        }
        let mut seen = false;
        let mut j: usize = 0;
        while j < names.len()
            invariant
                j <= names@.len(),
                seen == exists|m: int| 0 <= m < j && views(names@)[m] == name@,
            decreases names.len() - j,
        {
            let same = same_text(names[j].as_str(), name);
            proof {
                assert(views(names@)[j as int] == names@[j as int]@);
                if seen {
                    let m = choose|m: int| 0 <= m < j && views(names@)[m] == name@;
                    assert(0 <= m < j + 1 && views(names@)[m] == name@);
                }
                if same {
                    assert(0 <= j < j + 1 && views(names@)[j as int] == name@);
                }
            }
            if same {
                seen = true;
            }
            j += 1;
        }
        if !seen {
            let ghost before = views(names@);
            names.push(name.to_owned());
            assert(views(names@) =~= before.push(name@));
        } else {
            proof {
                let m = choose|m: int| 0 <= m < names@.len() && views(names@)[m] == name@;
                assert(views(names@).contains(name@));
            }
        }
        i += 1;
    }
    assert(ph.take(all@.len() as int) =~= ph);
    names
}

/// `string_with_variables` with each placeholder whose name `user_input`
/// holds replaced by the trimmed value given for it.
pub fn replace_string_variables_with_value(
    string_with_variables: &str,
    user_input: &PropertyMap,
) -> (r: String)
    ensures
        r@ == fill(string_with_variables@, user_input.view()),
{
    let s = string_with_variables;
    let n = s.unicode_len();
    let mut out = "".to_owned();
    let mut i: usize = 0;
    let mut start: usize = 0;
    proof {
        reveal_strlit("");
    }
    assert(s@.skip(0) =~= s@);
    assert(out@ + s@.subrange(0, 0) =~= Seq::<char>::empty());
    while i < n
        invariant
            n == s@.len(),
            start <= i <= n,
            out@ + s@.subrange(start as int, i as int) + fill(s@.skip(i as int), user_input.view())
                == fill(s@, user_input.view()),
        decreases n - i,
    {
        let ghost rest = s@.skip(i as int);
        assert(rest.drop_first() =~= s@.skip(i + 1));
        let ghost m = user_input.view();
        let c = s.get_char(i);
        let closing = if c == '{' {
            find_brace_end(s, i + 1)
        } else {
            None
        };
        match closing {
            Some(j) => {
                let name = slice(s, i + 1, j);
                assert(name@ =~= rest.subrange(1, (j - i) as int));
                assert(rest.skip((j - i) + 1) =~= s@.skip(j + 1));
                match user_input.get(name.as_str()) {
                    Some(v) => {
                        let ghost prev = out@ + s@.subrange(start as int, i as int);
                        let head = slice(s, start, i);
                        out.append(head.as_str());
                        let value = trimmed(v.as_str());
                        out.append(value.as_str());
                        assert(out@ =~= prev + trim(m[name@]));
                        assert(fill(rest, m) == trim(m[name@]) + fill(s@.skip(j + 1), m));
                        assert(out@ + s@.subrange(j + 1, j + 1) + fill(s@.skip(j + 1), m) =~= prev
                            + fill(rest, m));
                        start = j + 1;
                    },
                    None => {
                        assert(fill(rest, m) == rest.take((j - i) + 1) + fill(s@.skip(j + 1), m));
                        assert(s@.subrange(start as int, j + 1) =~= s@.subrange(start as int, i as int)
                            + rest.take((j - i) + 1));
                    },
                }
                i = j + 1;
            },
            None => {
                assert(fill(rest, m) == seq![c] + fill(s@.skip(i + 1), m));
                assert(s@.subrange(start as int, i + 1) =~= s@.subrange(start as int, i as int)
                    + seq![c]);
                i += 1;
            },
        }
    }
    assert(s@.skip(n as int) =~= Seq::<char>::empty());
    let tail = slice(s, start, n);
    out.append(tail.as_str());
    assert(out@ =~= out@ + fill(s@.skip(n as int), user_input.view()));
    out
}

/// True for the error of a pattern `name` that the store does not register:
/// the lookup's failure, in the context of handling that pattern. Its
/// message is "Failed to handle pattern <name>: No property named <name> in
/// wdapty.ini".
pub open spec fn not_handled(e: PatternError, name: Seq<char>) -> bool {
    &&& e is FailedToHandle
    &&& e->FailedToHandle_0@ == name
    &&& *e->FailedToHandle_1 is NotFound
    &&& e->FailedToHandle_1->NotFound_0@ == name
}

/// The template registered under `pattern_name` in a store of `lines`,
/// with its placeholders filled from `answers`. A failed lookup is reported
/// in the context of the pattern being handled.
pub fn handle_pattern(lines: &Vec<String>, pattern_name: &str, answers: &PropertyMap) -> (r: Result<
    String,
    PatternError,
>)
    ensures
        map_of(properties_of(views(lines@))).contains_key(pattern_name@) ==> r is Ok && r->Ok_0@
            == fill(map_of(properties_of(views(lines@)))[pattern_name@], answers.view()),
        !map_of(properties_of(views(lines@))).contains_key(pattern_name@) ==> r is Err
            && not_handled(r->Err_0, pattern_name@),
{
    match parse_config_file_for_pattern(lines, pattern_name) {
        Ok(template) => Ok(replace_string_variables_with_value(template.as_str(), answers)),
        Err(cause) => Err(PatternError::FailedToHandle(pattern_name.to_owned(), Box::new(cause))),
    }
}

/// The path to read: the filled template of `pattern` when one is named,
/// else `file_name`; refused when neither is given.
pub fn acquire_file_name(
    lines: &Vec<String>,
    pattern: Option<String>,
    answers: &PropertyMap,
    file_name: Option<String>,
) -> (r: Result<String, PatternError>)
    ensures
        pattern is Some && map_of(properties_of(views(lines@))).contains_key(pattern->0@) ==> r is Ok
            && r->Ok_0@ == fill(
            map_of(properties_of(views(lines@)))[pattern->0@],
            answers.view(),
        ),
        pattern is Some && !map_of(properties_of(views(lines@))).contains_key(pattern->0@) ==> r is Err
            && not_handled(r->Err_0, pattern->0@),
        pattern is None && file_name is Some ==> r == Ok::<String, PatternError>(file_name->0),
        pattern is None && file_name is None ==> r == Err::<String, PatternError>(
            PatternError::MissingFileName,
        ),
{
    match pattern {
        Some(p) => handle_pattern(lines, p.as_str(), answers),
        None => match file_name {
            Some(f) => Ok(f),
            None => Err(PatternError::MissingFileName),
        },
    }
}

} // verus!
