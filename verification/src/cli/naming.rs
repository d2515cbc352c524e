//! Naming conventions: snake_case, PascalCase, kebab-case and camelCase
//! conversions used for models, tables, modules and imports.

use vstd::prelude::*;
use crate::chars::{
    is_uppercase, lower_first, lower_first_char, spec_is_uppercase, spec_str_to_lower, spec_to_upper,
    str_to_lower, to_upper, upper_first, upper_first_char,
};
use crate::text::{chars_of, push_all, split_chars, split_on_any, split_char, split_seps, string_from, string_of, views};

verus! {

/// PascalCase to snake_case: each upper-case character after the first is
/// preceded by `_`, and every character is replaced by the first character of
/// its lower-case mapping.
pub open spec fn snake_of(s: Seq<char>) -> Seq<char>
    decreases s.len(),
{
    if s.len() == 0 {
        Seq::empty()
    } else {
        let c = s.last();
        snake_of(s.drop_last()) + (if spec_is_uppercase(c) && s.len() - 1 > 0 {
            seq!['_']
        } else {
            Seq::empty()
        }) + seq![lower_first(c)]
    }
}

/// English plural of a table name: `es` after `s`, `x` or `z`, else `s`.
pub open spec fn plural_of(s: Seq<char>) -> Seq<char> {
    if s.len() > 0 && (s.last() == 's' || s.last() == 'x' || s.last() == 'z') {
        s + seq!['e', 's']
    } else {
        s + seq!['s']
    }
}

/// A word with its first character upper-cased (by its full upper-case
/// mapping) and the rest as given.
pub open spec fn capitalized(w: Seq<char>) -> Seq<char> {
    if w.len() == 0 {
        Seq::empty()
    } else {
        spec_to_upper(w[0]) + w.drop_first()
    }
}

/// The concatenation of the capitalized words.
pub open spec fn capitalized_words(ws: Seq<Seq<char>>) -> Seq<char>
    decreases ws.len(),
{
    if ws.len() == 0 {
        Seq::empty()
    } else {
        capitalized_words(ws.drop_last()) + capitalized(ws.last())
    }
}

/// snake_case to PascalCase: `user_profile` → `UserProfile`.
pub open spec fn pascal_of_snake(s: Seq<char>) -> Seq<char> {
    capitalized_words(split_char(s, '_'))
}

/// The concatenation of the non-empty words, each with its first character
/// upper-cased and the rest lower-cased.
pub open spec fn title_words(ws: Seq<Seq<char>>) -> Seq<char>
    decreases ws.len(),
{
    if ws.len() == 0 {
        Seq::empty()
    } else {
        let w = ws.last();
        title_words(ws.drop_last()) + (if w.len() == 0 {
            Seq::empty()
        } else {
            spec_to_upper(w[0]) + spec_str_to_lower(w.drop_first())
        })
    }
}

pub open spec fn word_separators() -> Seq<char> {
    seq!['_', '-', ' ']
}

/// Any string to PascalCase: words separated by `_`, `-` or spaces.
pub open spec fn pascal_of(s: Seq<char>) -> Seq<char> {
    title_words(split_seps(s, word_separators()))
}

/// Any string to kebab-case.
pub open spec fn kebab_of(s: Seq<char>) -> Seq<char>
    decreases s.len(),
{
    if s.len() == 0 {
        Seq::empty()
    } else {
        let c = s.last();
        kebab_of(s.drop_last()) + if spec_is_uppercase(c) && s.len() - 1 > 0 {
            seq!['-', lower_first(c)]
        } else if c == '_' || c == ' ' {
            seq!['-']
        } else {
            seq![lower_first(c)]
        }
    }
}

/// The text so far and whether the next character is to be upper-cased,
/// while converting hyphen-case to camelCase.
pub open spec fn camel_state(s: Seq<char>) -> (Seq<char>, bool)
    decreases s.len(),
{
    if s.len() == 0 {
        (Seq::empty(), false)
    } else {
        let (out, cap) = camel_state(s.drop_last());
        let c = s.last();
        if c == '-' {
            (out, true)
        } else if cap {
            (out.push(upper_first(c)), false)
        } else {
            (out.push(c), false)
        }
    }
}

/// hyphen-case to camelCase: `file-uploads` → `fileUploads`.
pub open spec fn camel_of(s: Seq<char>) -> Seq<char> {
    camel_state(s).0
}

/// Converts PascalCase to snake_case. "UserProfile" → "user_profile"
pub fn to_snake(name: &str) -> (r: String)
    ensures
        r@ == snake_of(name@),
{
    let v = chars_of(name);
    let mut out: Vec<char> = Vec::new();
    let mut i: usize = 0;
    while i < v.len()
        invariant
            i <= v.len(),
            out@ == snake_of(v@.subrange(0, i as int)),
        decreases v.len() - i,
    {
        let c = v[i];
        assert(v@.subrange(0, i + 1).drop_last() =~= v@.subrange(0, i as int));
        let ghost pre = out@;
        if is_uppercase(c) && i > 0 {
            out.push('_');
        }
        out.push(lower_first_char(c));
        assert(out@ =~= snake_of(v@.subrange(0, i + 1)));
        i = i + 1;
    }
    assert(v@.subrange(0, v@.len() as int) =~= v@);
    string_from(&out)
}

/// Appends the plural suffix to a snake_case name.
pub fn pluralize(snake: &str) -> (r: String)
    ensures
        r@ == plural_of(snake@),
{
    let v = chars_of(snake);
    let mut out = string_from(&v);
    let n = v.len();
    if n > 0 && (v[n - 1] == 's' || v[n - 1] == 'x' || v[n - 1] == 'z') {
        crate::text::push_char(&mut out, 'e');
        crate::text::push_char(&mut out, 's');
        assert(out@ =~= snake@ + seq!['e', 's']);
    } else {
        crate::text::push_char(&mut out, 's');
        assert(out@ =~= snake@ + seq!['s']);
    }
    out
}

/// Converts PascalCase to a plural snake_case table name. "Post" → "posts",
/// "UserProfile" → "user_profiles"
pub fn to_snake_plural(name: &str) -> (r: String)
    ensures
        r@ == plural_of(snake_of(name@)),
{
    let snake = to_snake(name);
    pluralize(snake.as_str())
}

/// A word with its first character upper-cased.
fn capitalize(w: &Vec<char>) -> (r: Vec<char>)
    ensures
        r@ == capitalized(w@),
{
    if w.len() == 0 {
        return Vec::new();
    }
    let up = to_upper(w[0]);
    let mut r = chars_of(up.as_str());
    let mut i: usize = 1;
    while i < w.len()
        invariant
            1 <= i <= w.len(),
            r@ == spec_to_upper(w@[0]) + w@.subrange(1, i as int),
        decreases w.len() - i,
    {
        r.push(w[i]);
        assert(w@.subrange(1, i + 1) =~= w@.subrange(1, i as int).push(w@[i as int]));
        i = i + 1;
    }
    assert(w@.subrange(1, w@.len() as int) =~= w@.drop_first());
    r
}

/// Converts snake_case to PascalCase. `user_profile` → `UserProfile`.
pub fn snake_to_pascal(s: &str) -> (r: String)
    ensures
        r@ == pascal_of_snake(s@),
{
    let v = chars_of(s);
    let parts = split_chars(&v, '_');
    let ghost ps = views(parts@);
    let mut out: Vec<char> = Vec::new();
    let mut i: usize = 0;
    while i < parts.len()
        invariant
            ps == views(parts@),
            i <= parts.len(),
            out@ == capitalized_words(ps.subrange(0, i as int)),
        decreases parts.len() - i,
    {
        assert(ps.subrange(0, i + 1).drop_last() =~= ps.subrange(0, i as int));
        assert(ps[i as int] == parts@[i as int]@);
        let c = capitalize(&parts[i]);
        push_all(&mut out, &c);
        i = i + 1;
    }
    assert(ps.subrange(0, ps.len() as int) =~= ps);
    string_from(&out)
}

/// Converts any string to PascalCase. "user_profile" / "user-profile" → "UserProfile"
pub fn to_pascal_case(name: &str) -> (r: String)
    ensures
        r@ == pascal_of(name@),
{
    let v = chars_of(name);
    let seps = vec!['_', '-', ' '];
    assert(seps@ =~= word_separators());
    let parts = split_on_any(&v, &seps);
    let ghost ps = views(parts@);
    let mut out: Vec<char> = Vec::new();
    let mut i: usize = 0;
    while i < parts.len()
        invariant
            ps == views(parts@),
            i <= parts.len(),
            out@ == title_words(ps.subrange(0, i as int)),
        decreases parts.len() - i,
    {
        assert(ps.subrange(0, i + 1).drop_last() =~= ps.subrange(0, i as int));
        assert(ps[i as int] == parts@[i as int]@);
        let w = &parts[i];
        if w.len() > 0 {
            let up = to_upper(w[0]);
            let rest = string_of(w, 1, w.len());
            assert(rest@ =~= w@.drop_first());
            let low = str_to_lower(rest.as_str());
            let a = chars_of(up.as_str());
            let b = chars_of(low.as_str());
            push_all(&mut out, &a);
            push_all(&mut out, &b);
        }
        i = i + 1;
    }
    assert(ps.subrange(0, ps.len() as int) =~= ps);
    string_from(&out)
}

/// Converts any string to kebab-case. "MyModule" / "my_module" → "my-module"
pub fn to_kebab_case(name: &str) -> (r: String)
    ensures
        r@ == kebab_of(name@),
{
    let v = chars_of(name);
    let mut out: Vec<char> = Vec::new();
    let mut i: usize = 0;
    while i < v.len()
        invariant
            i <= v.len(),
            out@ == kebab_of(v@.subrange(0, i as int)),
        decreases v.len() - i,
    {
        let c = v[i];
        assert(v@.subrange(0, i + 1).drop_last() =~= v@.subrange(0, i as int));
        if is_uppercase(c) && i > 0 {
            out.push('-');
            out.push(lower_first_char(c));
        } else if c == '_' || c == ' ' {
            out.push('-');
        } else {
            out.push(lower_first_char(c));
        }
        assert(out@ =~= kebab_of(v@.subrange(0, i + 1)));
        i = i + 1;
    }
    assert(v@.subrange(0, v@.len() as int) =~= v@);
    string_from(&out)
}

/// Converts hyphen-case to camelCase for use in import statements.
/// "file-uploads" → "fileUploads"
pub fn to_camel(name: &str) -> (r: String)
    ensures
        r@ == camel_of(name@),
{
    let v = chars_of(name);
    let mut out: Vec<char> = Vec::new();
    let mut capitalize_next = false;
    let mut i: usize = 0;
    while i < v.len()
        invariant
            i <= v.len(),
            (out@, capitalize_next) == camel_state(v@.subrange(0, i as int)),
        decreases v.len() - i,
    {
        let c = v[i];
        assert(v@.subrange(0, i + 1).drop_last() =~= v@.subrange(0, i as int));
        if c == '-' {
            capitalize_next = true;
        } else if capitalize_next {
            out.push(upper_first_char(c));
            capitalize_next = false;
        } else {
            out.push(c);
        }
        i = i + 1;
    }
    assert(v@.subrange(0, v@.len() as int) =~= v@);
    string_from(&out)
}

} // verus!
