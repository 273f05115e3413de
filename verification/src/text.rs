//! Strings: comparison, suffixes and the paths of files on the tablet.
use vstd::prelude::*;
use vstd::string::StrSliceExecFns;
use vstd::string::StringExecFns;

verus! {

/// The tablet's directory of documents.
pub const XOCHITL_PATH: &'static str = "/home/root/.local/share/remarkable/xochitl";

/// The path of a file in the tablet's directory of documents.
pub open spec fn path_of(name: Seq<char>) -> Seq<char> {
    XOCHITL_PATH@ + "/"@ + name
}

/// A file name and its extension.
pub open spec fn with_ext(stem: Seq<char>, ext: Seq<char>) -> Seq<char> {
    stem + "."@ + ext
}

/// The files that the paths name are in the tablet's directory of documents, under their own
/// names, with their extension behind a dot.
pub proof fn path_is_in_the_directory(name: Seq<char>, stem: Seq<char>, ext: Seq<char>)
    ensures
        path_of(name) == "/home/root/.local/share/remarkable/xochitl/"@ + name,
        path_of(with_ext(stem, ext)) == "/home/root/.local/share/remarkable/xochitl/"@ + stem
            + "."@ + ext,
        with_ext(stem, ext).take(stem.len() as int) == stem,
        with_ext(stem, ext)[stem.len() as int] == '.',
        with_ext(stem, ext).skip(stem.len() + 1int) == ext,
        with_ext(stem, ext).len() == stem.len() + 1 + ext.len(),
{
    reveal_strlit("/home/root/.local/share/remarkable/xochitl");
    reveal_strlit("/home/root/.local/share/remarkable/xochitl/");
    reveal_strlit("/");
    reveal_strlit(".");
    assert("/home/root/.local/share/remarkable/xochitl"@ + "/"@
        =~= "/home/root/.local/share/remarkable/xochitl/"@);
    assert("."@ =~= seq!['.']);
}

/// What is left before a suffix, with the suffix behind it, is the whole.
pub proof fn stripped_is_the_rest(s: Seq<char>, suffix: Seq<char>, rest: Seq<char>)
    ensures
        stripped(s, suffix) == Some(rest) <==> s == rest + suffix,
{
    if s.len() >= suffix.len() {
        let n = s.len() - suffix.len();
        assert(s =~= s.take(n) + s.skip(n));
    }
    if s == rest + suffix {
        assert(s.take(rest.len() as int) =~= rest);
        assert(s.skip(rest.len() as int) =~= suffix);
    }
}

/// Whether two strings hold the same characters.
pub(crate) fn same_text(a: &String, b: &str) -> (r: bool)
    ensures
        r == (a@ == b@),
{
    *a == b.to_owned()
}

/// The path of the file `name` in the tablet's directory of documents.
pub(crate) fn document_path(name: &str) -> (r: String)
    ensures
        r@ == path_of(name@),
{
    let mut path = XOCHITL_PATH.to_owned();
    path.append("/");
    path.append(name);
    path
}

/// The file name `stem` with the extension `ext`.
pub(crate) fn add_ext(stem: &str, ext: &str) -> (r: String)
    ensures
        r@ == with_ext(stem@, ext@),
{
    let mut name = stem.to_owned();
    name.append(".");
    name.append(ext);
    name
}

/// What is left of `s` before the suffix `suffix`, if `s` ends with it.
pub open spec fn stripped(s: Seq<char>, suffix: Seq<char>) -> Option<Seq<char>> {
    if s.len() >= suffix.len() && s.skip(s.len() - suffix.len()) == suffix {
        Some(s.take(s.len() - suffix.len()))
    } else {
        None
    }
}

/// Takes the suffix `suffix` off `s`.
pub(crate) fn strip_suffix(s: &str, suffix: &str) -> (r: Option<String>)
    ensures
        match r {
            Some(stem) => stripped(s@, suffix@) == Some(stem@),
            None => stripped(s@, suffix@) is None,
        },
{
    let n: usize = s.unicode_len();
    let m: usize = suffix.unicode_len();
    if n < m {
        return None;
    }
    let tail = s.substring_char(n - m, n).to_owned();
    if same_text(&tail, suffix) {
        Some(s.substring_char(0, n - m).to_owned())
    } else {
        None
    }
}

} // verus!
