use vstd::prelude::*;

use crate::json::str_eq;
use crate::pptx::archive::{join_path, spec_join_path};
use crate::adapters::safe_filename;
use crate::text::{spec_safe_filename, after_last, after_last_char, chars_of, has_prefix, owned, push_str, starts_with, string_of, sub_chars};

verus! {

/// The file adapter: a local file copied into the output directory.
pub struct FileAdapter;

/// The extensions a local source may have.
pub open spec fn is_supported_ext(ext: Seq<char>) -> bool {
    ext == "md"@ || ext == "txt"@ || ext == "pdf"@
}

/// Whether a local source's extension is one of `md`, `txt`, `pdf`.
pub fn is_supported_extension(ext: &str) -> (r: bool)
    ensures
        r == is_supported_ext(ext@),
{
    str_eq(ext, "md") || str_eq(ext, "txt") || str_eq(ext, "pdf")
}

/// Where a configured path points: `~/...` under the home directory, an
/// absolute path as it is, anything else under the working directory.
pub open spec fn spec_source_path(path: Seq<char>, home: Seq<char>, cwd: Seq<char>) -> Seq<char> {
    if has_prefix(path, "~/"@) {
        spec_join_path(home, path.skip(2))
    } else if has_prefix(path, "/"@) {
        path
    } else {
        spec_join_path(cwd, path)
    }
}

/// Whether a configured path is resolved against the working directory
/// (it starts with neither `~/` nor `/`).
pub fn is_relative_source(path: &str) -> (r: bool)
    ensures
        r == !(has_prefix(path@, "~/"@) || has_prefix(path@, "/"@)),
{
    !(starts_with(path, "~/") || starts_with(path, "/"))
}

pub fn file_source_path(path: &str, home: &str, cwd: &str) -> (r: String)
    ensures
        r@ == spec_source_path(path@, home@, cwd@),
{
    proof {
        reveal_strlit("~/");
    }
    if starts_with(path, "~/") {
        let cs = chars_of(path);
        let rest = string_of(&sub_chars(&cs, 2, cs.len()));
        assert(rest@ =~= path@.skip(2));
        join_path(home, rest.as_str())
    } else if starts_with(path, "/") {
        owned(path)
    } else {
        join_path(cwd, path)
    }
}

/// Index of the last `c` in `s`.
pub open spec fn last_index_of(s: Seq<char>, c: char) -> Option<int>
    decreases s.len(),
{
    if s.len() == 0 {
        None
    } else if s.last() == c {
        Some(s.len() - 1)
    } else {
        last_index_of(s.drop_last(), c)
    }
}

/// `Path::extension` of a file name: what follows its last `.`; none when it
/// has no `.` or only a leading one.
pub open spec fn spec_extension(name: Seq<char>) -> Option<Seq<char>> {
    match last_index_of(name, '.') {
        Some(i) => if i == 0 { None } else { Some(name.skip(i + 1)) },
        None => None,
    }
}

/// `Path::file_stem` of a file name: what precedes its last `.` (the whole
/// name when it has no `.` or only a leading one).
pub open spec fn spec_stem(name: Seq<char>) -> Seq<char> {
    match last_index_of(name, '.') {
        Some(i) => if i == 0 { name } else { name.take(i) },
        None => name,
    }
}

fn last_dot(cs: &Vec<char>) -> (r: Option<usize>)
    ensures
        r matches Some(i) ==> last_index_of(cs@, '.') == Some(i as int) && i < cs@.len(),
        r is None ==> last_index_of(cs@, '.') is None,
{
    let mut j: usize = cs.len();
    assert(cs@.take(j as int) =~= cs@);
    while j > 0 && cs[j - 1] != '.'
        invariant
            j <= cs@.len(),
            last_index_of(cs@, '.') == last_index_of(cs@.take(j as int), '.'),
        decreases j,
    {
        assert(cs@.take(j as int).drop_last() =~= cs@.take(j - 1));
        j -= 1;
    }
    if j == 0 {
        None
    } else {
        Some(j - 1)
    }
}

/// The extension of a file name.
pub fn extension(name: &str) -> (r: Option<String>)
    ensures
        r matches Some(e) ==> spec_extension(name@) == Some(e@),
        r is None ==> spec_extension(name@) is None,
{
    let cs = chars_of(name);
    let n = cs.len();
    match last_dot(&cs) {
        Some(i) => if i == 0 {
            None
        } else {
            let e = sub_chars(&cs, i + 1, cs.len());
            assert(e@ =~= name@.skip(i + 1));
            Some(string_of(&e))
        },
        None => None,
    }
}

/// The stem of a file name.
pub fn stem(name: &str) -> (r: String)
    ensures
        r@ == spec_stem(name@),
{
    let cs = chars_of(name);
    match last_dot(&cs) {
        Some(i) => if i == 0 {
            owned(name)
        } else {
            let e = sub_chars(&cs, 0, i);
            assert(e@ =~= name@.take(i as int));
            string_of(&e)
        },
        None => owned(name),
    }
}

/// The extension of a resolved source path (of its last component), empty
/// when there is none.
pub open spec fn path_ext(path: Seq<char>) -> Seq<char> {
    match spec_extension(after_last(path, '/')) {
        Some(e) => e,
        None => Seq::empty(),
    }
}

pub fn path_extension(path: &str) -> (r: String)
    ensures
        r@ == path_ext(path@),
{
    let name = after_last_char(path, '/');
    match extension(name.as_str()) {
        Some(e) => e,
        None => String::new(),
    }
}

/// The file a local source is copied to: `<title>.<extension>`, the title
/// made safe (`:` and `/` become `-`) so that the file stays in the output
/// directory.
pub fn file_dest_name(title: &str, ext: &str) -> (r: String)
    ensures
        r@ == spec_safe_filename(title@) + "."@ + ext@,
{
    let mut name = safe_filename(title);
    push_str(&mut name, ".");
    push_str(&mut name, ext);
    name
}

} // verus!
