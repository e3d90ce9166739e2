use vstd::prelude::*;

use crate::properties::{lemma_map_of_absent, map_of, PropertyMap};
use crate::text::{
    cut, cut_at, is_space, is_space_char, lacks, lemma_cut_joined, same_text, trim, trimmed, views,
};

verus! {

/// Why a change to the pattern store, or a lookup in it, was refused.
#[derive(Debug, PartialEq, Eq)]
pub enum PatternError {
    /// A pattern of this name is already registered.
    AlreadyExists(String),
    /// The line `name=value` does not follow the pattern grammar.
    FormatError(String),
    /// No line of the store sets this name.
    NotFound(String),
    /// Neither a pattern nor a file name was given.
    MissingFileName,
    /// The pattern of this name could not be handled, for the cause given.
    FailedToHandle(String, Box<PatternError>),
}

/// The account of a pattern error.
pub open spec fn pattern_message(e: PatternError) -> Seq<char>
    decreases e,
{
    match e {
        PatternError::AlreadyExists(name) => "Pattern supplied with name "@ + name@
            + " is already in config"@,
        PatternError::FormatError(line) => "Pattern "@ + line@
            + " is not compliant with pattern_format name=value"@,
        PatternError::NotFound(name) => "No property named "@ + name@ + " in wdapty.ini"@,
        PatternError::MissingFileName => "file name should be valued by option or by setting pattern and reading file"@,
        PatternError::FailedToHandle(name, cause) => "Failed to handle pattern "@ + name@ + ": "@
            + pattern_message(*cause),
    }
}

impl PatternError {
    /// A human-readable account of the error.
    pub fn message(&self) -> (r: String)
        ensures
            r@ == pattern_message(*self),
        decreases self,
    {
        match self {
            PatternError::AlreadyExists(name) => {
                let mut m = "Pattern supplied with name ".to_owned();
                m.append(name.as_str());
                m.append(" is already in config");
                m
            },
            PatternError::FormatError(line) => {
                let mut m = "Pattern ".to_owned();
                m.append(line.as_str());
                m.append(" is not compliant with pattern_format name=value");
                m
            },
            PatternError::NotFound(name) => {
                let mut m = "No property named ".to_owned();
                m.append(name.as_str());
                m.append(" in wdapty.ini");
                m
            },
            PatternError::MissingFileName => "file name should be valued by option or by setting pattern and reading file".to_owned(),
            PatternError::FailedToHandle(name, cause) => {
                let mut m = "Failed to handle pattern ".to_owned();
                m.append(name.as_str());
                m.append(": ");
                let inner = cause.message();
                m.append(inner.as_str());
                m
            },
        }
    }
}

/// Characters allowed in a pattern's name: ASCII letters and digits, `_`, `-` and `.`.
pub open spec fn is_name_char(c: char) -> bool {
    ('A' <= c && c <= 'Z') || ('a' <= c && c <= 'z') || ('0' <= c && c <= '9') || c == '_' || c
        == '-' || c == '.'
}

/// True for a line `name=value` of the store's grammar: a non-empty name of
/// name characters, then `=`, then a non-empty value without white space.
pub open spec fn is_pattern_line(s: Seq<char>) -> bool {
    match cut(s, '=') {
        Some(parts) => parts.0.len() > 0 && (forall|i: int|
            0 <= i < parts.0.len() ==> is_name_char(#[trigger] parts.0[i])) && parts.1.len() > 0
            && (forall|i: int| 0 <= i < parts.1.len() ==> !is_space(#[trigger] parts.1[i])),
        None => false,
    }
}

/// The name and value of a line, split at its first `=`.
pub open spec fn name_value(s: Seq<char>) -> (Seq<char>, Seq<char>) {
    cut(s, '=')->0
}

/// The registered patterns of a store, one per line of the grammar, in
/// order; lines outside the grammar are passed over.
pub open spec fn pattern_entries(lines: Seq<Seq<char>>) -> Seq<(Seq<char>, Seq<char>)>
    decreases lines.len(),
{
    if lines.len() == 0 {
        Seq::empty()
    } else if is_pattern_line(lines.last()) {
        pattern_entries(lines.drop_last()).push(name_value(lines.last()))
    } else {
        pattern_entries(lines.drop_last())
    }
}

/// The registered patterns of a store, by name; a later line wins.
pub open spec fn patterns_of(lines: Seq<Seq<char>>) -> Map<Seq<char>, Seq<char>> {
    map_of(pattern_entries(lines))
}

/// The store's line that registers `name` with `value`.
pub open spec fn pattern_line(name: Seq<char>, value: Seq<char>) -> Seq<char> {
    name + seq!['='] + value
}

/// The outcome of adding a pattern to a store: the line to append.
pub open spec fn add_outcome(lines: Seq<Seq<char>>, name: Seq<char>, value: Seq<char>) -> Result<
    Seq<char>,
    (),
> {
    if patterns_of(lines).contains_key(name) || !is_pattern_line(pattern_line(name, value)) {
        Err(())
    } else {
        Ok(pattern_line(name, value))
    }
}

/// True when the text of `line` before its first `=` is `name`.
pub open spec fn has_key(line: Seq<char>, name: Seq<char>) -> bool {
    match cut(line, '=') {
        Some(parts) => parts.0 == name,
        None => false,
    }
}

/// The lines of a store whose key is not `name`, in order; a line without
/// `=` has no key and stays.
pub open spec fn lines_kept(lines: Seq<Seq<char>>, name: Seq<char>) -> Seq<Seq<char>>
    decreases lines.len(),
{
    if lines.len() == 0 {
        Seq::empty()
    } else {
        let before = lines_kept(lines.drop_last(), name);
        if has_key(lines.last(), name) {
            before
        } else {
            before.push(lines.last())
        }
    }
}

/// The trimmed name and value of every line that holds a `=`, in order.
pub open spec fn properties_of(lines: Seq<Seq<char>>) -> Seq<(Seq<char>, Seq<char>)>
    decreases lines.len(),
{
    if lines.len() == 0 {
        Seq::empty()
    } else {
        match cut(lines.last(), '=') {
            Some(parts) => properties_of(lines.drop_last()).push((trim(parts.0), trim(parts.1))),
            None => properties_of(lines.drop_last()),
        }
    }
}

/// Whether `pattern` follows the grammar `name=value` of the store.
pub fn does_pattern_match_pattern_format(pattern: &str) -> (r: bool)
    ensures
        r == is_pattern_line(pattern@),
{
    let parts = match cut_at(pattern, '=') {
        Some(parts) => parts,
        None => {
            return false;
        },
    };
    let name = parts.0.as_str();
    let value = parts.1.as_str();
    let n = name.unicode_len();
    let v = value.unicode_len();
    if n == 0 || v == 0 {
        return false;
    }
    let mut i: usize = 0;
    while i < n
        invariant
            n == name@.len(),
            i <= n,
            cut(pattern@, '=') == Some((name@, value@)),
            forall|j: int| 0 <= j < i ==> is_name_char(#[trigger] name@[j]),
        decreases n - i,
    {
        let c = name.get_char(i);
        if !(('A' <= c && c <= 'Z') || ('a' <= c && c <= 'z') || ('0' <= c && c <= '9') || c
            == '_' || c == '-' || c == '.') {
            assert(!is_name_char(name@[i as int]));
            assert(name_value(pattern@).0 == name@);
            assert(!(forall|j: int| 0 <= j < name@.len() ==> is_name_char(#[trigger] name@[j])));
            return false;
        }
        i += 1;
    }
    let mut i: usize = 0;
    while i < v
        invariant
            v == value@.len(),
            i <= v,
            n > 0,
            n == name@.len(),
            forall|j: int| 0 <= j < n ==> is_name_char(#[trigger] name@[j]),
            cut(pattern@, '=') == Some((name@, value@)),
            forall|j: int| 0 <= j < i ==> !is_space(#[trigger] value@[j]),
        decreases v - i,
    {
        if is_space_char(value.get_char(i)) {
            assert(is_space(value@[i as int]));
            assert(name_value(pattern@).1 == value@);
            assert(!(forall|j: int| 0 <= j < value@.len() ==> !is_space(#[trigger] value@[j])));
            return false;
        }
        i += 1;
    }
    true
}

/// The patterns registered in a store of `lines`.
pub fn get_available_patterns(lines: &Vec<String>) -> (r: PropertyMap)
    ensures
        r.view() == patterns_of(views(lines@)),
{
    let ghost ls = views(lines@);
    let mut patterns = PropertyMap::new();
    let mut i: usize = 0;
    assert(ls.take(0) =~= Seq::<Seq<char>>::empty());
    while i < lines.len()
        invariant
            ls == views(lines@),
            i <= lines@.len(),
            patterns.view() == patterns_of(ls.take(i as int)),
        decreases lines.len() - i,
    {
        let line = lines[i].as_str();
        let ghost upto = ls.take(i + 1);
        assert(upto.drop_last() =~= ls.take(i as int));
        assert(upto.last() == line@);
        if does_pattern_match_pattern_format(line) {
            match cut_at(line, '=') {
                Some(parts) => {
                    let ghost pe = pattern_entries(ls.take(i as int));
                    assert(pe.push((parts.0@, parts.1@)).drop_last() =~= pe);
                    patterns.insert(parts.0, parts.1);
                },
                None => {},
            }
        }
        i += 1;
    }
    assert(ls.take(lines@.len() as int) =~= ls);
    patterns
}

/// The line to append to a store of `lines` that registers `name` with
/// `value`; refused when the name is registered already, or when the line
/// falls outside the grammar.
pub fn add_pattern_to_config(lines: &Vec<String>, name: String, value: String) -> (r: Result<
    String,
    PatternError,
>)
    ensures
        patterns_of(views(lines@)).contains_key(name@) ==> r == Err::<String, PatternError>(
            PatternError::AlreadyExists(name),
        ),
        !patterns_of(views(lines@)).contains_key(name@) && !is_pattern_line(
            pattern_line(name@, value@),
        ) ==> (r is Err && r->Err_0 is FormatError && r->Err_0->FormatError_0@ == pattern_line(
            name@,
            value@,
        )),
        r is Ok ==> add_outcome(views(lines@), name@, value@) == Ok::<Seq<char>, ()>(r->Ok_0@),
        add_outcome(views(lines@), name@, value@) is Ok ==> r is Ok,
{
    let available = get_available_patterns(lines);
    if available.contains_key(name.as_str()) {
        return Err(PatternError::AlreadyExists(name));
    }
    let mut line = name.clone();
    line.append("=");
    line.append(value.as_str());
    assert(line@ =~= pattern_line(name@, value@)) by {
        reveal_strlit("=");
    }
    if does_pattern_match_pattern_format(line.as_str()) {
        Ok(line)
    } else {
        Err(PatternError::FormatError(line))
    }
}

/// The lines of a store once every line whose key, the text before its
/// first `=`, is `name` is taken out. Taking out a name that is not there
/// changes nothing.
pub fn remove_pattern_from_config(lines: &Vec<String>, name: &str) -> (r: Vec<String>)
    ensures
        views(r@) == lines_kept(views(lines@), name@),
{
    let ghost ls = views(lines@);
    let mut kept: Vec<String> = Vec::new();
    let mut i: usize = 0;
    assert(ls.take(0) =~= Seq::<Seq<char>>::empty());
    assert(views(kept@) =~= Seq::<Seq<char>>::empty());
    while i < lines.len()
        invariant
            ls == views(lines@),
            i <= lines@.len(),
            views(kept@) == lines_kept(ls.take(i as int), name@),
        decreases lines.len() - i,
    {
        let line = &lines[i];
        let ghost upto = ls.take(i + 1);
        assert(upto.drop_last() =~= ls.take(i as int));
        assert(upto.last() == line@);
        let keyed = match cut_at(line.as_str(), '=') {
            Some(parts) => same_text(parts.0.as_str(), name),
            None => false,
        };
        if !keyed {
            let ghost before = views(kept@);
            let copy = line.clone();
            kept.push(copy);
            assert(views(kept@) =~= before.push(line@));
        }
        i += 1;
    }
    assert(ls.take(lines@.len() as int) =~= ls);
    kept
}

/// The template that the store registers under `pattern_name`: the trimmed
/// text after the first `=` of the last line whose trimmed text before it is
/// that name.
pub fn parse_config_file_for_pattern(lines: &Vec<String>, pattern_name: &str) -> (r: Result<
    String,
    PatternError,
>)
    ensures
        map_of(properties_of(views(lines@))).contains_key(pattern_name@) ==> r is Ok && r->Ok_0@
            == map_of(properties_of(views(lines@)))[pattern_name@],
        !map_of(properties_of(views(lines@))).contains_key(pattern_name@) ==> r is Err
            && r->Err_0 is NotFound && r->Err_0->NotFound_0@ == pattern_name@,
{
    let ghost ls = views(lines@);
    let mut found = PropertyMap::new();
    let mut i: usize = 0;
    assert(ls.take(0) =~= Seq::<Seq<char>>::empty());
    while i < lines.len()
        invariant
            ls == views(lines@),
            i <= lines@.len(),
            found.view() == map_of(properties_of(ls.take(i as int))),
        decreases lines.len() - i,
    {
        let line = lines[i].as_str();
        let ghost upto = ls.take(i + 1);
        assert(upto.drop_last() =~= ls.take(i as int));
        assert(upto.last() == line@);
        match cut_at(line, '=') {
            Some(parts) => {
                let key = trimmed(parts.0.as_str());
                let value = trimmed(parts.1.as_str());
                let ghost pe = properties_of(ls.take(i as int));
                assert(pe.push((key@, value@)).drop_last() =~= pe);
                found.insert(key, value);
            },
            None => {},
        }
        i += 1;
    }
    assert(ls.take(lines@.len() as int) =~= ls);
    match found.get(pattern_name) {
        Some(template) => Ok(template.clone()),
        None => Err(PatternError::NotFound(pattern_name.to_owned())),
    }
}

/// Once a pattern is added, the store lists it with its value: appending the
/// line that the addition gives registers the name with that value. A name
/// that holds `=` itself is left out, since its line splits at that `=`.
pub proof fn lemma_add_then_list(
    lines: Seq<Seq<char>>,
    name: Seq<char>,
    value: Seq<char>,
    line: Seq<char>,
)
    requires
        lacks(name, '='),
        add_outcome(lines, name, value) == Ok::<Seq<char>, ()>(line),
    ensures
        patterns_of(lines.push(line)).contains_key(name),
        patterns_of(lines.push(line))[name] == value,
{
    lemma_cut_joined(name, '=', value);
    assert(lines.push(line).drop_last() =~= lines);
    assert(name_value(line) == (name, value));
}

/// The entries of a store that keeps no line with key `k` hold no name `k`.
proof fn lemma_kept_entries(lines: Seq<Seq<char>>, k: Seq<char>)
    ensures
        forall|i: int|
            0 <= i < pattern_entries(lines_kept(lines, k)).len() ==> (#[trigger] pattern_entries(
                lines_kept(lines, k),
            )[i]).0 != k,
    decreases lines.len(),
{
    if lines.len() > 0 {
        lemma_kept_entries(lines.drop_last(), k);
        let before = lines_kept(lines.drop_last(), k);
        let pb = pattern_entries(before);
        let l = lines.last();
        if !has_key(l, k) {
            let after = before.push(l);
            assert(lines_kept(lines, k) == after);
            assert(after.drop_last() =~= before);
            assert(after.last() == l);
            if is_pattern_line(l) {
                let pa = pattern_entries(after);
                assert(pa == pb.push(name_value(l)));
                assert forall|i: int| 0 <= i < pa.len() implies (#[trigger] pa[i]).0 != k by {
                    if i < pb.len() {
                        assert(pa[i] == pb[i]);
                    }
                }
            } else {
                assert(pattern_entries(after) == pb);
            }
        }
    }
}

/// Once a name is removed, the store no longer lists it.
pub proof fn lemma_remove_then_list(lines: Seq<Seq<char>>, name: Seq<char>)
    ensures
        !patterns_of(lines_kept(lines, name)).contains_key(name),
{
    lemma_kept_entries(lines, name);
    lemma_map_of_absent(pattern_entries(lines_kept(lines, name)), name);
}

/// Removing a name that no line has as its key leaves the store as it was;
/// so a second removal of the same name changes nothing.
pub proof fn lemma_remove_absent(lines: Seq<Seq<char>>, name: Seq<char>)
    requires
        forall|i: int| 0 <= i < lines.len() ==> !has_key(#[trigger] lines[i], name),
    ensures
        lines_kept(lines, name) == lines,
    decreases lines.len(),
{
    if lines.len() > 0 {
        let t = lines.drop_last();
        assert forall|i: int| 0 <= i < t.len() implies !has_key(#[trigger] t[i], name) by {
            assert(t[i] == lines[i]);
        }
        lemma_remove_absent(t, name);
        assert(!has_key(lines[lines.len() - 1], name));
        assert(t.push(lines.last()) =~= lines);
    }
}

} // verus!
