//! Mapping of source paths onto the output tree.
//!
//! Paths are absolute, canonical strings with `/` as separator. A source path
//! keeps, below the output root, exactly the remainder it has below the input
//! root.

use crate::text::{find_last, is_prefix, last_index, occurs_at, same_text};
use vstd::prelude::*;

verus! {

/// The resolved configuration of a run: the input and output roots.
pub struct Opt {
    pub input: String,
    pub output: String,
}

/// An error that stops the run, with a human-readable message.
pub struct GenericError {
    pub message: String,
}

impl GenericError {
    pub fn new(error: String) -> (r: GenericError)
        ensures
            r.message == error,
    {
        GenericError { message: error }
    }

    /// The message as shown to the user.
    pub fn to_string(&self) -> (r: String)
        ensures
            r@ == "[error] "@ + self.message@,
    {
        let mut r = String::from_str("[error] ");
        r.append(self.message.as_str());
        r
    }
}

/// Whether `p` is absolute: it starts at the root `/`.
pub open spec fn is_absolute(p: Seq<char>) -> bool {
    p.len() > 0 && p[0] == '/'
}

/// Both roots of `cfg` and `file` are absolute, as mapping assumes.
pub open spec fn all_absolute(cfg: Opt, file: Seq<char>) -> bool {
    is_absolute(cfg.input@) && is_absolute(cfg.output@) && is_absolute(file)
}

/// The part of `file` below `root`, or `None` where `file` does not lie
/// under `root` (compared component by component on `/`).
pub open spec fn relative_part(root: Seq<char>, file: Seq<char>) -> Option<Seq<char>> {
    if file == root {
        Some(Seq::<char>::empty())
    } else if root.len() > 0 && root.last() == '/' && is_prefix(root, file) {
        Some(file.skip(root.len() as int))
    } else if is_prefix(root.push('/'), file) {
        Some(file.skip(root.len() as int + 1))
    } else {
        None
    }
}

/// `rest` appended below `base`, with one separator between them.
pub open spec fn join(base: Seq<char>, rest: Seq<char>) -> Seq<char> {
    if rest.len() == 0 {
        base
    } else if base.len() > 0 && base.last() == '/' {
        base + rest
    } else {
        base + seq!['/'] + rest
    }
}

/// The index at which the last component of `p` starts.
pub open spec fn name_start(p: Seq<char>) -> int {
    last_index(p, '/') + 1
}

/// The last component of `p`.
pub open spec fn file_name(p: Seq<char>) -> Seq<char> {
    p.skip(name_start(p))
}

/// The index of the dot that starts the extension within the last component,
/// where there is one: a leading dot starts none.
pub open spec fn ext_dot(p: Seq<char>) -> int {
    last_index(file_name(p), '.')
}

/// The extension of `p`, where its last component has one.
pub open spec fn extension(p: Seq<char>) -> Option<Seq<char>> {
    if ext_dot(p) > 0 {
        Some(file_name(p).skip(ext_dot(p) + 1))
    } else {
        None
    }
}

/// `p` with the extension of its last component set to `ext`; a path whose
/// last component is empty is left as it is.
pub open spec fn with_extension(p: Seq<char>, ext: Seq<char>) -> Seq<char> {
    if file_name(p).len() == 0 {
        p
    } else if ext_dot(p) > 0 {
        p.subrange(0, name_start(p) + ext_dot(p) + 1) + ext
    } else {
        p + seq!['.'] + ext
    }
}

/// The asset destination of `file`: its place below the output root.
pub open spec fn asset_target(cfg: Opt, file: Seq<char>) -> Option<Seq<char>> {
    match relative_part(cfg.input@, file) {
        Some(rest) => Some(join(cfg.output@, rest)),
        None => None,
    }
}

/// The page destination of `file`: its asset destination with the
/// extension `html`.
pub open spec fn page_target(cfg: Opt, file: Seq<char>) -> Option<Seq<char>> {
    match asset_target(cfg, file) {
        Some(d) => Some(with_extension(d, "html"@)),
        None => None,
    }
}

/// `entry` of the asset manifest as a path: kept where it is absolute,
/// taken below `root` where it is relative.
pub open spec fn resolve(root: Seq<char>, entry: Seq<char>) -> Seq<char> {
    if entry.len() > 0 && entry[0] == '/' {
        entry
    } else {
        join(root, entry)
    }
}

/// The directory that holds `p`, where `p` has a separator.
pub open spec fn parent(p: Seq<char>) -> Option<Seq<char>> {
    if last_index(p, '/') < 0 {
        None
    } else if last_index(p, '/') == 0 {
        Some(seq!['/'])
    } else {
        Some(p.subrange(0, last_index(p, '/')))
    }
}

/// The message of the error for a path outside the input root.
pub open spec fn outside_message() -> Seq<char> {
    "path is not under the input directory"@
}

/// Computes the part of `file` below `root`.
pub fn strip_root(root: &str, file: &str) -> (r: Option<String>)
    ensures
        r matches Some(s) ==> relative_part(root@, file@) == Some(s@),
        r is None ==> relative_part(root@, file@) is None,
{
    let n = root.unicode_len();
    let m = file.unicode_len();
    if occurs_at(file, root, 0) {
        assert(file@.subrange(0, n as int) == root@);
        if n == m {
            assert(file@ =~= root@);
            return Some(String::new());
        }
        if n > 0 && root.get_char(n - 1) == '/' {
            return Some(String::from_str(file.substring_char(n, m)));
        }
        if file.get_char(n) == '/' {
            assert(file@.subrange(0, n + 1) =~= root@.push('/'));
            return Some(String::from_str(file.substring_char(n + 1, m)));
        }
        assert(file@ != root@);
        assert(!is_prefix(root@.push('/'), file@)) by {
            if is_prefix(root@.push('/'), file@) {
                assert(file@.subrange(0, n + 1)[n as int] == '/');
            }
        }
        None
    } else {
        assert(file@ != root@) by {
            if file@ == root@ {
                assert(file@.subrange(0, n as int) =~= root@);
            }
        }
        assert(!is_prefix(root@.push('/'), file@)) by {
            if is_prefix(root@.push('/'), file@) {
                assert(file@.subrange(0, n as int) =~= root@);
            }
        }
        None
    }
}

/// Appends `rest` below `base`.
pub fn join_path(base: &str, rest: &str) -> (r: String)
    ensures
        r@ == join(base@, rest@),
{
    let mut r = String::from_str(base);
    let n = base.unicode_len();
    if rest.unicode_len() == 0 {
        return r;
    }
    if n == 0 || base.get_char(n - 1) != '/' {
        let sep = "/";
        proof {
            reveal_strlit("/");
        }
        r.append(sep);
    }
    r.append(rest);
    r
}

/// The index at which the last component of `p` starts.
fn name_start_of(p: &str) -> (r: usize)
    ensures
        r == name_start(p@),
        r <= p@.len(),
{
    let n = p.unicode_len();
    proof {
        crate::text::lemma_last_index(p@, '/');
    }
    match find_last(p, '/') {
        Some(i) => {
            assert(i < n);
            i + 1
        },
        None => 0,
    }
}

/// The extension of the last component of `p`, where it has one.
pub fn extension_of(p: &str) -> (r: Option<String>)
    ensures
        r matches Some(e) ==> extension(p@) == Some(e@),
        r is None ==> extension(p@) is None,
{
    let n = p.unicode_len();
    let start = name_start_of(p);
    let name = p.substring_char(start, n);
    assert(name@ =~= file_name(p@));
    proof {
        crate::text::lemma_last_index(name@, '.');
    }
    match find_last(name, '.') {
        Some(d) => {
            if d > 0 {
                Some(String::from_str(name.substring_char(d + 1, name.unicode_len())))
            } else {
                None
            }
        },
        None => None,
    }
}

/// Whether `p` names a Markdown source: its extension is `md`.
pub fn is_markdown(p: &str) -> (r: bool)
    ensures
        r == (extension(p@) == Some("md"@)),
{
    match extension_of(p) {
        Some(e) => same_text(e.as_str(), "md"),
        None => false,
    }
}

/// `p` with the extension of its last component set to `html`.
pub fn with_html_extension(p: &str) -> (r: String)
    ensures
        r@ == with_extension(p@, "html"@),
{
    let n = p.unicode_len();
    let start = name_start_of(p);
    let name = p.substring_char(start, n);
    assert(name@ =~= file_name(p@));
    proof {
        crate::text::lemma_last_index(name@, '.');
    }
    if start == n {
        return String::from_str(p);
    }
    match find_last(name, '.') {
        Some(d) => {
            if d > 0 {
                let mut r = String::from_str(p.substring_char(0, start + d + 1));
                r.append("html");
                return r;
            }
        },
        None => {},
    }
    let mut r = String::from_str(p);
    let dot = ".";
    proof {
        reveal_strlit(".");
    }
    r.append(dot);
    r.append("html");
    r
}

/// The asset destination of `file`: the same remainder below the output root
/// as `file` has below the input root, extension kept. A file outside the
/// input root is an error that stops the run. Both roots and `file` must be
/// absolute.
pub fn destination_for_file(parameters: &Opt, file: &String) -> (r: Result<String, GenericError>)
    requires
        all_absolute(*parameters, file@),
    ensures
        r matches Ok(d) ==> asset_target(*parameters, file@) == Some(d@),
        r matches Err(e) ==> asset_target(*parameters, file@) is None
            && e.message@ == outside_message(),
{
    match strip_root(parameters.input.as_str(), file.as_str()) {
        Some(rest) => Ok(join_path(parameters.output.as_str(), rest.as_str())),
        None => Err(GenericError::new(String::from_str("path is not under the input directory"))),
    }
}

/// The page destination of `file`: its asset destination with the
/// extension `html`. Both roots and `file` must be absolute.
pub fn page_destination(parameters: &Opt, file: &String) -> (r: Result<String, GenericError>)
    requires
        all_absolute(*parameters, file@),
    ensures
        r matches Ok(d) ==> page_target(*parameters, file@) == Some(d@),
        r matches Err(e) ==> page_target(*parameters, file@) is None
            && e.message@ == outside_message(),
{
    match destination_for_file(parameters, file) {
        Ok(d) => Ok(with_html_extension(d.as_str())),
        Err(e) => Err(e),
    }
}

/// Resolves an entry of the asset manifest against the input root.
pub fn resolve_entry(root: &str, entry: &str) -> (r: String)
    ensures
        r@ == resolve(root@, entry@),
{
    if entry.unicode_len() > 0 && entry.get_char(0) == '/' {
        String::from_str(entry)
    } else {
        join_path(root, entry)
    }
}

/// The directory that holds `p`, which must exist before `p` is written.
pub fn parent_dir(p: &str) -> (r: Option<String>)
    ensures
        r matches Some(s) ==> parent(p@) == Some(s@),
        r is None ==> parent(p@) is None,
{
    match find_last(p, '/') {
        Some(i) => {
            if i == 0 {
                let root = "/";
                proof {
                    reveal_strlit("/");
                }
                Some(String::from_str(root))
            } else {
                Some(String::from_str(p.substring_char(0, i)))
            }
        },
        None => None,
    }
}

} // verus!
