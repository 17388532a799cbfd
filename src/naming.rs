use vstd::prelude::*;
use vstd::string::*;

verus! {

pub uninterp spec fn alphanumeric(c: char) -> bool;

pub uninterp spec fn numeric(c: char) -> bool;

/// The Unicode `White_Space` property.
pub open spec fn white_space(c: char) -> bool {
    ('\u{9}' <= c && c <= '\u{d}') || c == ' ' || c == '\u{85}' || c == '\u{a0}' || c == '\u{1680}'
        || ('\u{2000}' <= c && c <= '\u{200a}') || c == '\u{2028}' || c == '\u{2029}' || c == '\u{202f}'
        || c == '\u{205f}' || c == '\u{3000}'
}

/// `s` without its trailing whitespace.
pub open spec fn trimmed_end(s: Seq<char>) -> Seq<char>
    decreases s.len(),
{
    if s.len() > 0 && white_space(s.last()) {
        trimmed_end(s.drop_last())
    } else {
        s
    }
}

/// Relies on `char::is_alphanumeric`: the Unicode `Alphabetic` or `Numeric` property of `c`.
#[verifier::external_body]
fn char_is_alphanumeric(c: char) -> (r: bool)
    ensures
        r == alphanumeric(c),
{
    c.is_alphanumeric()
}

/// Relies on `char::is_numeric`: the Unicode `Numeric` property of `c`.
#[verifier::external_body]
fn char_is_numeric(c: char) -> (r: bool)
    ensures
        r == numeric(c),
{
    c.is_numeric()
}

/// Relies on `str::trim_end`: `s` without its trailing characters of the
/// Unicode `White_Space` property.
#[verifier::external_body]
fn trim_end(s: &str) -> (r: String)
    ensures
        r@ == trimmed_end(s@),
{
    s.trim_end().to_string()
}

/// Relies on `String::push`: appends one character.
#[verifier::external_body]
pub(crate) fn push_char(s: &mut String, c: char)
    ensures
        final(s)@ == old(s)@.push(c),
{
    s.push(c)
}

/// `parts` joined with `sep` between each two neighbours.
pub open spec fn join(parts: Seq<Seq<char>>, sep: Seq<char>) -> Seq<char>
    decreases parts.len(),
{
    if parts.len() == 0 {
        Seq::empty()
    } else if parts.len() == 1 {
        parts[0]
    } else {
        join(parts.drop_last(), sep) + sep + parts.last()
    }
}

pub open spec fn views(v: Seq<String>) -> Seq<Seq<char>> {
    v.map_values(|s: String| s@)
}

/// Joins the strings of `parts`, with `sep` between each two of them.
pub fn join_strings(parts: &Vec<String>, sep: &str) -> (r: String)
    ensures
        r@ == join(views(parts@), sep@),
{
    let n = parts.len();
    if n == 0 {
        return String::new();
    }
    let mut acc = parts[0].clone();
    let mut i: usize = 1;
    assert(views(parts@).subrange(0, 1) =~= seq![parts@[0]@]);
    while i < n
        invariant
            1 <= i <= n,
            n == parts.len(),
            acc@ == join(views(parts@).subrange(0, i as int), sep@),
        decreases n - i,
    {
        acc.append(sep);
        acc.append(parts[i].as_str());
        assert(views(parts@).subrange(0, i + 1).drop_last() =~= views(parts@).subrange(0, i as int));
        i = i + 1;
    }
    assert(views(parts@).subrange(0, n as int) =~= views(parts@));
    acc
}

/// Whether `s` can stand as a field name without quotes.
pub open spec fn is_plain_name(s: Seq<char>) -> bool {
    &&& forall|i: int| 0 <= i < s.len() ==> alphanumeric(#[trigger] s[i]) || s[i] == '_' || s[i] == '$'
    &&& (s.len() == 0 || !numeric(s[0]))
}

pub open spec fn quoted(s: Seq<char>) -> Seq<char> {
    seq!['"'] + s + seq!['"']
}

/// The field name for `s`: `s` itself where it is plain, else `s` in double quotes.
pub open spec fn field_name(s: Seq<char>) -> Seq<char> {
    if is_plain_name(s) { s } else { quoted(s) }
}

/// Wraps `s` in double quotes.
pub fn quote(s: &str) -> (r: String)
    ensures
        r@ == quoted(s@),
{
    let mut r = String::new();
    push_char(&mut r, '"');
    r.append(s);
    push_char(&mut r, '"');
    assert(r@ =~= quoted(s@));
    r
}

/// Converts an arbitrary name to a field name, in double quotes where it holds
/// a character that a bare name cannot hold or starts with a digit.
pub fn raw_name_to_ts_field(value: String) -> (r: String)
    ensures
        r@ == field_name(value@),
{
    let s = value.as_str();
    let n = s.unicode_len();
    let mut valid = true;
    let mut i: usize = 0;
    while i < n
        invariant
            n == s@.len(),
            s@ == value@,
            i <= n,
            valid == forall|j: int| 0 <= j < i ==> alphanumeric(#[trigger] s@[j]) || s@[j] == '_' || s@[j] == '$',
        decreases n - i,
    {
        let c = s.get_char(i);
        if !(char_is_alphanumeric(c) || c == '_' || c == '$') {
            valid = false;
        }
        i = i + 1;
    }
    if n > 0 && char_is_numeric(s.get_char(0)) {
        valid = false;
    }
    if valid {
        value
    } else {
        quote(s)
    }
}

/// `s` without a leading raw-identifier marker `r#`.
pub open spec fn unraw(s: Seq<char>) -> Seq<char> {
    if s.len() >= 2 && s[0] == 'r' && s[1] == '#' { s.subrange(2, s.len() as int) } else { s }
}

/// Converts an identifier to its target-language name: a raw identifier loses its `r#`.
pub fn to_ts_ident(ident: &str) -> (r: String)
    ensures
        r@ == unraw(ident@),
{
    let n = ident.unicode_len();
    if n >= 2 && ident.get_char(0) == 'r' && ident.get_char(1) == '#' {
        ident.substring_char(2, n).to_string()
    } else {
        ident.to_string()
    }
}

/// One documentation line as it stands in a comment block.
pub open spec fn doc_line(line: Seq<char>) -> Seq<char> {
    if trimmed_end(line).len() == 0 {
        seq![' ', '*']
    } else {
        seq![' ', '*'] + trimmed_end(line)
    }
}

pub open spec fn doc_lines(lines: Seq<Seq<char>>) -> Seq<Seq<char>> {
    lines.map_values(|l: Seq<char>| doc_line(l))
}

/// The comment block for documentation lines: empty where there are none.
pub open spec fn doc_block(lines: Seq<Seq<char>>) -> Seq<char> {
    if lines.len() == 0 {
        Seq::empty()
    } else {
        seq!['/', '*', '*', '\n'] + join(doc_lines(lines), seq!['\n'])
            + seq!['\n', ' ', '*', '/', '\n']
    }
}

/// Formats documentation lines as a comment block, one ` *` line for each,
/// with trailing whitespace removed; no lines give an empty string.
pub fn format_docs(lines: &Vec<String>) -> (r: String)
    ensures
        r@ == doc_block(views(lines@)),
{
    let n = lines.len();
    if n == 0 {
        return String::new();
    }
    let mut formatted: Vec<String> = Vec::new();
    let mut i: usize = 0;
    while i < n
        invariant
            i <= n,
            n == lines.len(),
            formatted@.len() == i,
            forall|j: int| 0 <= j < i ==> (#[trigger] formatted@[j])@ == doc_line(lines@[j]@),
        decreases n - i,
    {
        let t = trim_end(lines[i].as_str());
        let mut line = String::from_str(" *");
        proof { reveal_strlit(" *"); }
        if t.unicode_len() > 0 {
            line.append(t.as_str());
        }
        assert(line@ =~= doc_line(lines@[i as int]@));
        formatted.push(line);
        i = i + 1;
    }
    assert(views(formatted@) =~= doc_lines(views(lines@)));
    let body = join_strings(&formatted, "\n");
    let mut r = String::from_str("/**\n");
    r.append(body.as_str());
    r.append("\n */\n");
    proof {
        reveal_strlit("/**\n");
        reveal_strlit("\n");
        reveal_strlit("\n */\n");
        assert("\n"@ =~= seq!['\n']);
        assert("/**\n"@ =~= seq!['/', '*', '*', '\n']);
        assert("\n */\n"@ =~= seq!['\n', ' ', '*', '/', '\n']);
    }
    assert(r@ =~= doc_block(views(lines@)));
    r
}

} // verus!
