use vstd::prelude::*;
use vstd::string::*;
use crate::decl::{decl_check, decl_deps, decl_text, export_path, render_decl};
use crate::deps::dedup;
use crate::descriptor::{TsError, TypeDesc};
use crate::naming::{doc_block, push_char, views};
use crate::types::{Dependency, DepView, dep_view, deps_view};

verus! {

/// Where and how bound files are written.
#[derive(Debug)]
pub struct ExportConfig {
    /// Directory of the types without an export path of their own.
    pub base_dir: String,
    /// Whether import paths end in `.js`, as ES modules ask.
    pub esm: bool,
}

/// Length of the longest common prefix of `a` and `b`, from position `i` on,
/// that ends in a `/`, or `acc` where none does.
pub open spec fn common_dir_from(a: Seq<char>, b: Seq<char>, i: nat, acc: nat) -> nat
    decreases a.len() - i,
{
    if i < a.len() && i < b.len() && a[i as int] == b[i as int] {
        common_dir_from(a, b, i + 1, if a[i as int] == '/' { i + 1 } else { acc })
    } else {
        acc
    }
}

/// Length of the directory prefix that two paths share.
pub open spec fn common_dir(a: Seq<char>, b: Seq<char>) -> nat {
    common_dir_from(a, b, 0, 0)
}

/// Number of `/` in `s`.
pub open spec fn slashes(s: Seq<char>) -> nat
    decreases s.len(),
{
    if s.len() == 0 {
        0
    } else {
        slashes(s.drop_last()) + if s.last() == '/' { 1nat } else { 0nat }
    }
}

/// `../`, `n` times.
pub open spec fn ups(n: nat) -> Seq<char>
    decreases n,
{
    if n == 0 { Seq::empty() } else { ups((n - 1) as nat) + "../"@ }
}

/// `s` without a trailing `.ts`.
pub open spec fn strip_ts(s: Seq<char>) -> Seq<char> {
    if s.len() >= 3 && s.subrange(s.len() - 3, s.len() as int) == ".ts"@ {
        s.subrange(0, s.len() - 3)
    } else {
        s
    }
}

/// `s` with each `\\` written as `/`.
pub open spec fn slashed(s: Seq<char>) -> Seq<char> {
    s.map_values(|c: char| if c == '\\' { '/' } else { c })
}

/// The module path by which the file at `from` imports the file at `to`,
/// both read with `\\` as a separator too.
pub open spec fn relative_import_path(from: Seq<char>, to: Seq<char>, esm: bool) -> Seq<char> {
    relative_slashed(slashed(from), slashed(to), esm)
}

/// The module path by which the file at `from` imports the file at `to`,
/// both with `/` as their separator.
pub open spec fn relative_slashed(from: Seq<char>, to: Seq<char>, esm: bool) -> Seq<char> {
    let j = common_dir(from, to);
    let k = slashes(from.subrange(j as int, from.len() as int));
    (if k == 0 { "./"@ } else { ups(k) }) + strip_ts(to.subrange(j as int, to.len() as int))
        + (if esm { ".js"@ } else { Seq::empty() })
}

/// `import { Name } from "<path>";` and a line break.
pub open spec fn import_text(d: DepView, from: Seq<char>, esm: bool) -> Seq<char> {
    "import { "@ + d.1 + " } from \""@ + relative_import_path(from, d.2, esm) + "\";\n"@
}

/// Imports of the dependencies that are written to another file than `from`.
pub open spec fn imports_text(deps: Seq<DepView>, from: Seq<char>, esm: bool) -> Seq<char>
    decreases deps.len(),
{
    if deps.len() == 0 {
        Seq::empty()
    } else {
        imports_text(deps.drop_last(), from, esm) + if deps.last().2 == from {
            Seq::empty()
        } else {
            import_text(deps.last(), from, esm)
        }
    }
}

/// Whether `s` holds a type named `name` whose identity is not `id`.
pub open spec fn has_clash(s: Seq<DepView>, id: u64, name: Seq<char>) -> bool {
    exists|j: int| 0 <= j < s.len() && (#[trigger] s[j]).1 == name && s[j].0 != id
}

/// The name of the first dependency, from position `i` on, that shares its
/// name with a distinct type among the dependencies or the types exported so far.
pub open spec fn first_clash_from(deps: Seq<DepView>, exported: Seq<DepView>, i: nat) -> Option<Seq<char>>
    decreases deps.len() - i,
{
    if i >= deps.len() {
        None
    } else if has_clash(deps, deps[i as int].0, deps[i as int].1) || has_clash(exported, deps[i as int].0, deps[i as int].1) {
        Some(deps[i as int].1)
    } else {
        first_clash_from(deps, exported, i + 1)
    }
}

/// The name that makes exporting a type fail, if any: its own name where a
/// distinct type of that name is among its dependencies or the types exported
/// so far; else the first dependency's name that clashes in the same way.
pub open spec fn collision(id: u64, name: Seq<char>, deps: Seq<DepView>, exported: Seq<DepView>) -> Option<Seq<char>> {
    if has_clash(deps, id, name) || has_clash(exported, id, name) {
        Some(name)
    } else {
        first_clash_from(deps, exported, 0)
    }
}

/// The text of the file a type is exported to: its documentation, its imports
/// and its exported declaration.
pub open spec fn file_text(d: TypeDesc, cfg: ExportConfig) -> Seq<char> {
    doc_block(views(d.docs@)) + imports_text(dedup(decl_deps(d)), export_path(d, cfg.base_dir@), cfg.esm)
        + "export "@ + decl_text(d) + "\n"@
}

fn common_dir_len(a: &str, b: &str) -> (r: usize)
    ensures
        r == common_dir(a@, b@),
        r <= a@.len(),
        r <= b@.len(),
{
    let na = a.unicode_len();
    let nb = b.unicode_len();
    let mut i: usize = 0;
    let mut acc: usize = 0;
    while i < na && i < nb && a.get_char(i) == b.get_char(i)
        invariant
            na == a@.len(),
            nb == b@.len(),
            i <= na,
            i <= nb,
            acc <= i,
            common_dir_from(a@, b@, i as nat, acc as nat) == common_dir(a@, b@),
        decreases na - i,
    {
        if a.get_char(i) == '/' {
            acc = i + 1;
        }
        i = i + 1;
    }
    acc
}

fn count_slashes(s: &str) -> (r: usize)
    ensures
        r == slashes(s@),
{
    let n = s.unicode_len();
    let mut c: usize = 0;
    let mut i: usize = 0;
    while i < n
        invariant
            n == s@.len(),
            i <= n,
            c == slashes(s@.subrange(0, i as int)),
            c <= i,
        decreases n - i,
    {
        assert(s@.subrange(0, i + 1).drop_last() =~= s@.subrange(0, i as int));
        if s.get_char(i) == '/' {
            c = c + 1;
        }
        i = i + 1;
    }
    assert(s@.subrange(0, n as int) =~= s@);
    c
}

/// Computes the module path by which the file at `from` imports the file at `to`.
pub fn relative_import(from: &str, to: &str, esm: bool) -> (r: String)
    ensures
        r@ == relative_import_path(from@, to@, esm),
{
    let from = normalize_separators(from);
    let to = normalize_separators(to);
    relative_import_slashed(from.as_str(), to.as_str(), esm)
}

/// Writes each `\\` of `s` as `/`.
pub fn normalize_separators(s: &str) -> (r: String)
    ensures
        r@ == slashed(s@),
{
    let n = s.unicode_len();
    let mut r = String::new();
    let mut i: usize = 0;
    while i < n
        invariant
            n == s@.len(),
            i <= n,
            r@ == slashed(s@.subrange(0, i as int)),
        decreases n - i,
    {
        let c = s.get_char(i);
        push_char(&mut r, if c == '\\' { '/' } else { c });
        assert(slashed(s@.subrange(0, i + 1)) =~= slashed(s@.subrange(0, i as int)).push(
            if c == '\\' { '/' } else { c },
        ));
        i = i + 1;
    }
    assert(s@.subrange(0, n as int) =~= s@);
    r
}

fn relative_import_slashed(from: &str, to: &str, esm: bool) -> (r: String)
    ensures
        r@ == relative_slashed(from@, to@, esm),
{
    let j = common_dir_len(from, to);
    let nf = from.unicode_len();
    let nt = to.unicode_len();
    let k = count_slashes(from.substring_char(j, nf));
    let mut r = String::new();
    if k == 0 {
        r.append("./");
    } else {
        let mut i: usize = 0;
        while i < k
            invariant
                i <= k,
                r@ == ups(i as nat),
            decreases k - i,
        {
            r.append("../");
            i = i + 1;
        }
    }
    let rest = to.substring_char(j, nt);
    let nr = nt - j;
    if nr >= 3 && rest.get_char(nr - 3) == '.' && rest.get_char(nr - 2) == 't' && rest.get_char(nr - 1) == 's' {
        proof {
            reveal_strlit(".ts");
            assert(rest@.subrange(nr - 3, nr as int) =~= ".ts"@);
        }
        r.append(rest.substring_char(0, nr - 3));
    } else {
        proof {
            reveal_strlit(".ts");
            if nr >= 3 {
                assert(rest@.subrange(nr - 3, nr as int)[0] == rest@[nr - 3]);
                assert(rest@.subrange(nr - 3, nr as int)[1] == rest@[nr - 2]);
                assert(rest@.subrange(nr - 3, nr as int)[2] == rest@[nr - 1]);
            }
        }
        r.append(rest);
    }
    if esm {
        r.append(".js");
    }
    r
}

/// Renders the import of one dependency into the file at `from`.
pub fn import_line(d: &Dependency, from: &str, esm: bool) -> (r: String)
    ensures
        r@ == import_text((d.type_id, d.ts_name@, d.exported_to@), from@, esm),
{
    let mut r = String::from_str("import { ");
    r.append(d.ts_name.as_str());
    r.append(" } from \"");
    r.append(relative_import(from, d.exported_to.as_str(), esm).as_str());
    r.append("\";\n");
    r
}

fn str_eq(a: &str, b: &str) -> (r: bool)
    ensures
        r == (a@ == b@),
{
    let n = a.unicode_len();
    if n != b.unicode_len() {
        return false;
    }
    let mut i: usize = 0;
    while i < n
        invariant
            n == a@.len(),
            n == b@.len(),
            i <= n,
            forall|k: int| 0 <= k < i ==> a@[k] == b@[k],
        decreases n - i,
    {
        if a.get_char(i) != b.get_char(i) {
            return false;
        }
        i = i + 1;
    }
    assert(a@ =~= b@);
    true
}

/// Renders the imports of `deps` into the file at `from`, leaving out those
/// written to that same file.
pub fn render_imports(deps: &Vec<Dependency>, from: &str, esm: bool) -> (r: String)
    ensures
        r@ == imports_text(deps_view(deps@), from@, esm),
{
    let mut r = String::new();
    let mut i: usize = 0;
    while i < deps.len()
        invariant
            i <= deps@.len(),
            r@ == imports_text(deps_view(deps@).subrange(0, i as int), from@, esm),
        decreases deps@.len() - i,
    {
        assert(deps_view(deps@).subrange(0, i + 1).drop_last() =~= deps_view(deps@).subrange(0, i as int));
        if !str_eq(deps[i].exported_to.as_str(), from) {
            r.append(import_line(&deps[i], from, esm).as_str());
        }
        i = i + 1;
    }
    assert(deps_view(deps@).subrange(0, deps@.len() as int) =~= deps_view(deps@));
    r
}

/// Whether `s` holds a type named `name` whose identity is not `id`.
fn clashes(s: &Vec<Dependency>, id: u64, name: &str) -> (r: bool)
    ensures
        r == has_clash(deps_view(s@), id, name@),
{
    let mut j: usize = 0;
    while j < s.len()
        invariant
            j <= s@.len(),
            forall|k: int| 0 <= k < j ==> !((#[trigger] deps_view(s@)[k]).1 == name@ && deps_view(s@)[k].0 != id),
        decreases s@.len() - j,
    {
        if s[j].type_id != id && str_eq(s[j].ts_name.as_str(), name) {
            assert(deps_view(s@)[j as int].1 == name@);
            return true;
        }
        j = j + 1;
    }
    false
}

/// Finds the name that makes exporting the type `id` named `name` fail, given
/// its dependencies and the types exported so far; `None` where none does.
pub fn find_collision(id: u64, name: &str, deps: &Vec<Dependency>, exported: &Vec<Dependency>) -> (r: Option<String>)
    ensures
        r is None <==> collision(id, name@, deps_view(deps@), deps_view(exported@)) is None,
        r is Some ==> r->Some_0@ == collision(id, name@, deps_view(deps@), deps_view(exported@))->Some_0,
{
    if clashes(deps, id, name) || clashes(exported, id, name) {
        return Some(name.to_string());
    }
    let ghost ds = deps_view(deps@);
    let ghost ex = deps_view(exported@);
    let mut i: usize = 0;
    while i < deps.len()
        invariant
            i <= deps@.len(),
            ds == deps_view(deps@),
            ex == deps_view(exported@),
            !(has_clash(ds, id, name@) || has_clash(ex, id, name@)),
            first_clash_from(ds, ex, 0) == first_clash_from(ds, ex, i as nat),
        decreases deps@.len() - i,
    {
        let did = deps[i].type_id;
        let dname = deps[i].ts_name.as_str();
        assert(ds[i as int] == dep_view(deps@[i as int]));
        if clashes(deps, did, dname) || clashes(exported, did, dname) {
            assert(first_clash_from(ds, ex, i as nat) == Some(ds[i as int].1));
            return Some(deps[i].ts_name.clone());
        }
        i = i + 1;
    }
    None
}

/// One file to write: where, and what.
#[derive(Debug)]
pub struct ExportTarget {
    pub path: String,
    pub content: String,
    /// The exported type, to be added to the types exported so far.
    pub entry: Dependency,
}

/// Renders the file a type is exported to, and where, given the types
/// exported so far. Fails where the description has an error, or where two
/// distinct types of one name meet among the type, its dependencies and the
/// types exported so far.
pub fn export_file(d: &TypeDesc, cfg: &ExportConfig, exported: &Vec<Dependency>) -> (r: Result<ExportTarget, TsError>)
    ensures
        decl_check(*d) is Some ==> r is Err && Some(r->Err_0) == decl_check(*d),
        decl_check(*d) is None ==> (r is Err <==> collision(
            d.type_id,
            d.name@,
            dedup(decl_deps(*d)),
            deps_view(exported@),
        ) is Some),
        decl_check(*d) is None && r is Err ==> r->Err_0 is Collision && r->Err_0->Collision_0@ == collision(
            d.type_id,
            d.name@,
            dedup(decl_deps(*d)),
            deps_view(exported@),
        )->Some_0,
        r is Ok ==> ({
            let t = r->Ok_0;
            &&& t.path@ == export_path(*d, cfg.base_dir@)
            &&& t.content@ == file_text(*d, *cfg)
            &&& dep_view(t.entry) == (d.type_id, d.name@, export_path(*d, cfg.base_dir@))
        }),
{
    let info = match render_decl(d, cfg.base_dir.as_str()) {
        Ok(info) => info,
        Err(e) => return Err(e),
    };
    match find_collision(info.type_id, info.name.as_str(), &info.deps, exported) {
        Some(n) => return Err(TsError::Collision(n)),
        None => {},
    }
    let path = match info.export_to {
        Some(p) => p,
        None => String::new(),
    };
    let mut content = info.docs;
    content.append(render_imports(&info.deps, path.as_str(), cfg.esm).as_str());
    content.append("export ");
    content.append(info.decl.as_str());
    content.append("\n");
    let entry = Dependency { type_id: info.type_id, ts_name: info.name, exported_to: path.clone() };
    Ok(ExportTarget { path, content, entry })
}

/// Renders the file a type is exported to, on its own: as `export_file` does
/// where nothing has been exported before.
pub fn export_to_string(d: &TypeDesc, cfg: &ExportConfig) -> (r: Result<String, TsError>)
    ensures
        decl_check(*d) is Some ==> r is Err && Some(r->Err_0) == decl_check(*d),
        decl_check(*d) is None ==> (r is Err <==> collision(d.type_id, d.name@, dedup(decl_deps(*d)), Seq::empty())
            is Some),
        decl_check(*d) is None && r is Err ==> r->Err_0 is Collision && r->Err_0->Collision_0@ == collision(
            d.type_id,
            d.name@,
            dedup(decl_deps(*d)),
            Seq::empty(),
        )->Some_0,
        r is Ok ==> r->Ok_0@ == file_text(*d, *cfg),
{
    let none: Vec<Dependency> = Vec::new();
    assert(deps_view(none@) =~= Seq::<DepView>::empty());
    match export_file(d, cfg, &none) {
        Ok(t) => Ok(t.content),
        Err(e) => Err(e),
    }
}

} // verus!
