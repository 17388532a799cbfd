use vstd::prelude::*;
use vstd::string::*;
use crate::naming::push_char;

verus! {

/// A policy that renames all fields or variants of a type.
#[derive(Clone, Copy, Debug, PartialEq, Eq, Structural)]
pub enum Inflection {
    Lower,
    Upper,
    Camel,
    Snake,
    Pascal,
    ScreamingSnake,
    Kebab,
}

pub open spec fn is_upper(c: char) -> bool {
    'A' <= c && c <= 'Z'
}

pub open spec fn is_lower(c: char) -> bool {
    'a' <= c && c <= 'z'
}

pub open spec fn to_lower(c: char) -> char {
    if is_upper(c) { ((c as u8) + 32u8) as char } else { c }
}

pub open spec fn to_upper(c: char) -> char {
    if is_lower(c) { ((c as u8) - 32u8) as char } else { c }
}

pub fn ascii_lower(c: char) -> (r: char)
    ensures
        r == to_lower(c),
{
    if 'A' <= c && c <= 'Z' { ((c as u8) + 32u8) as char } else { c }
}

pub fn ascii_upper(c: char) -> (r: char)
    ensures
        r == to_upper(c),
{
    if 'a' <= c && c <= 'z' { ((c as u8) - 32u8) as char } else { c }
}

/// Capitalizes the first letter and each letter after an underscore, dropping
/// the underscores; `cap` says whether the next letter is capitalized.
pub open spec fn pascal_from(s: Seq<char>, cap: bool) -> Seq<char>
    decreases s.len(),
{
    if s.len() == 0 {
        Seq::empty()
    } else if s[0] == '_' {
        pascal_from(s.drop_first(), true)
    } else if cap {
        seq![to_upper(s[0])] + pascal_from(s.drop_first(), false)
    } else {
        seq![s[0]] + pascal_from(s.drop_first(), false)
    }
}

/// Lowercases each letter, with `sep` before an upper-case letter that follows
/// a character other than `sep`; `after` says whether such a character precedes.
pub open spec fn separated_from(s: Seq<char>, sep: char, after: bool) -> Seq<char>
    decreases s.len(),
{
    if s.len() == 0 {
        Seq::empty()
    } else if after && is_upper(s[0]) {
        seq![sep, to_lower(s[0])] + separated_from(s.drop_first(), sep, true)
    } else {
        seq![to_lower(s[0])] + separated_from(s.drop_first(), sep, s[0] != sep)
    }
}

pub open spec fn replace_underscores(s: Seq<char>, with: char) -> Seq<char> {
    s.map_values(|c: char| if c == '_' { with } else { c })
}

/// `s` renamed by the policy `i`.
pub open spec fn inflect(i: Inflection, s: Seq<char>) -> Seq<char> {
    match i {
        Inflection::Lower => s.map_values(|c: char| to_lower(c)),
        Inflection::Upper => s.map_values(|c: char| to_upper(c)),
        Inflection::Pascal => pascal_from(s, true),
        Inflection::Camel => {
            let p = pascal_from(s, true);
            if p.len() == 0 { p } else { seq![to_lower(p[0])] + p.drop_first() }
        },
        Inflection::Snake => separated_from(s, '_', false),
        Inflection::ScreamingSnake => separated_from(s, '_', false).map_values(|c: char| to_upper(c)),
        Inflection::Kebab => replace_underscores(separated_from(s, '_', false), '-'),
    }
}

/// `s` renamed by `i` where a policy is set, else `s` itself.
pub open spec fn inflect_opt(i: Option<Inflection>, s: Seq<char>) -> Seq<char> {
    match i {
        Some(i) => inflect(i, s),
        None => s,
    }
}

fn pascal(s: &str) -> (r: String)
    ensures
        r@ == pascal_from(s@, true),
{
    let n = s.unicode_len();
    let mut r = String::new();
    let mut cap = true;
    let mut i: usize = 0;
    assert(s@.subrange(0, n as int) =~= s@);
    assert(r@ + pascal_from(s@, true) =~= pascal_from(s@, true));
    while i < n
        invariant
            n == s@.len(),
            i <= n,
            r@ + pascal_from(s@.subrange(i as int, n as int), cap) == pascal_from(s@, true),
        decreases n - i,
    {
        let c = s.get_char(i);
        proof {
            assert(s@.subrange(i as int, n as int).drop_first() =~= s@.subrange(i + 1, n as int));
        }
        let ghost before = r@;
        if c == '_' {
            cap = true;
        } else if cap {
            push_char(&mut r, ascii_upper(c));
            cap = false;
            assert(r@ + pascal_from(s@.subrange(i + 1, n as int), cap) =~= before + pascal_from(s@.subrange(i as int, n as int), true));
        } else {
            push_char(&mut r, c);
            assert(r@ + pascal_from(s@.subrange(i + 1, n as int), cap) =~= before + pascal_from(s@.subrange(i as int, n as int), false));
        }
        i = i + 1;
    }
    assert(s@.subrange(n as int, n as int) =~= Seq::<char>::empty());
    assert(r@ + pascal_from(Seq::empty(), cap) =~= r@);
    r
}

fn separated(s: &str, sep: char) -> (r: String)
    ensures
        r@ == separated_from(s@, sep, false),
{
    let n = s.unicode_len();
    let mut r = String::new();
    let mut after = false;
    let mut i: usize = 0;
    assert(s@.subrange(0, n as int) =~= s@);
    assert(r@ + separated_from(s@, sep, false) =~= separated_from(s@, sep, false));
    while i < n
        invariant
            n == s@.len(),
            i <= n,
            r@ + separated_from(s@.subrange(i as int, n as int), sep, after) == separated_from(s@, sep, false),
        decreases n - i,
    {
        let c = s.get_char(i);
        proof {
            assert(s@.subrange(i as int, n as int).drop_first() =~= s@.subrange(i + 1, n as int));
        }
        let ghost before = r@;
        let ghost was = after;
        if after && 'A' <= c && c <= 'Z' {
            push_char(&mut r, sep);
            push_char(&mut r, ascii_lower(c));
            after = true;
        } else {
            push_char(&mut r, ascii_lower(c));
            after = c != sep;
        }
        assert(r@ + separated_from(s@.subrange(i + 1, n as int), sep, after) =~= before + separated_from(s@.subrange(i as int, n as int), sep, was));
        i = i + 1;
    }
    assert(s@.subrange(n as int, n as int) =~= Seq::<char>::empty());
    assert(r@ + separated_from(Seq::empty(), sep, after) =~= r@);
    r
}

/// Maps each character of `s` by `f`, one of the three mappings the policies use.
fn map_chars(s: &str, f: u8) -> (r: String)
    requires
        f < 3,
    ensures
        f == 0 ==> r@ == s@.map_values(|c: char| to_lower(c)),
        f == 1 ==> r@ == s@.map_values(|c: char| to_upper(c)),
        f == 2 ==> r@ == replace_underscores(s@, '-'),
{
    let n = s.unicode_len();
    let mut r = String::new();
    let mut i: usize = 0;
    while i < n
        invariant
            n == s@.len(),
            i <= n,
            r@.len() == i,
            f < 3,
            forall|j: int| 0 <= j < i ==> #[trigger] r@[j] == if f == 0 {
                to_lower(s@[j])
            } else if f == 1 {
                to_upper(s@[j])
            } else if s@[j] == '_' {
                '-'
            } else {
                s@[j]
            },
        decreases n - i,
    {
        let c = s.get_char(i);
        let m = if f == 0 {
            ascii_lower(c)
        } else if f == 1 {
            ascii_upper(c)
        } else if c == '_' {
            '-'
        } else {
            c
        };
        push_char(&mut r, m);
        i = i + 1;
    }
    proof {
        if f == 0 {
            assert(r@ =~= s@.map_values(|c: char| to_lower(c)));
        } else if f == 1 {
            assert(r@ =~= s@.map_values(|c: char| to_upper(c)));
        } else {
            assert(r@ =~= replace_underscores(s@, '-'));
        }
    }
    r
}

/// Renames `s` by the policy `i`.
pub fn apply_inflection(i: Inflection, s: &str) -> (r: String)
    ensures
        r@ == inflect(i, s@),
{
    match i {
        Inflection::Lower => map_chars(s, 0),
        Inflection::Upper => map_chars(s, 1),
        Inflection::Pascal => pascal(s),
        Inflection::Camel => {
            let p = pascal(s);
            let n = p.as_str().unicode_len();
            if n == 0 {
                p
            } else {
                let mut r = String::new();
                push_char(&mut r, ascii_lower(p.as_str().get_char(0)));
                r.append(p.as_str().substring_char(1, n));
                assert(r@ =~= seq![to_lower(p@[0])] + p@.drop_first());
                r
            }
        },
        Inflection::Snake => separated(s, '_'),
        Inflection::ScreamingSnake => {
            let t = separated(s, '_');
            map_chars(t.as_str(), 1)
        },
        Inflection::Kebab => {
            let t = separated(s, '_');
            map_chars(t.as_str(), 2)
        },
    }
}

/// Renames `s` by `i` where a policy is set; else a copy of `s`.
pub fn apply_inflection_opt(i: Option<Inflection>, s: &str) -> (r: String)
    ensures
        r@ == inflect_opt(i, s@),
{
    match i {
        Some(i) => apply_inflection(i, s),
        None => s.to_string(),
    }
}

} // verus!
