//! The checks and path resolution around renaming, creating and deleting the
//! current file; the filesystem work itself happens outside.

use vstd::prelude::*;

use crate::editor::Editor;
use crate::search_ops::focus_at;
use crate::strings::owned;

verus! {

/// Why a file operation is refused.
#[derive(Debug)]
pub enum FileOpError {
    InvalidArgument(String),
    Failed(String),
    /// An I/O error, with its message.
    Io(String),
}

/// Position of the last `/` in `s`, if any.
pub open spec fn last_slash(s: Seq<char>) -> Option<int>
    decreases s.len(),
{
    if s.len() == 0 {
        None
    } else if s.last() == '/' {
        Some(s.len() - 1)
    } else {
        last_slash(s.drop_last())
    }
}

/// The parent directory of a path: everything before its last `/` (the
/// root `/` itself for a file directly under it), or empty when there is
/// no `/`.
pub open spec fn parent_of(s: Seq<char>) -> Seq<char> {
    match last_slash(s) {
        None => Seq::empty(),
        Some(i) => if i == 0 { s.subrange(0, 1) } else { s.subrange(0, i) },
    }
}

/// `dir` joined with a relative path `p`.
pub open spec fn join_spec(dir: Seq<char>, p: Seq<char>) -> Seq<char> {
    if dir.len() == 0 {
        p
    } else if dir.last() == '/' {
        dir + p
    } else {
        dir + seq!['/'] + p
    }
}

/// A path is absolute when it starts with `/`.
pub open spec fn is_absolute(p: Seq<char>) -> bool {
    p.len() > 0 && p[0] == '/'
}

/// `p` resolved against the directory of `base` unless it is absolute.
pub open spec fn resolve_spec(base: Seq<char>, p: Seq<char>) -> Seq<char> {
    if is_absolute(p) {
        p
    } else {
        join_spec(parent_of(base), p)
    }
}

fn last_slash_exec(s: &Vec<char>) -> (r: Option<usize>)
    ensures
        r matches Some(i) ==> i < s@.len() && last_slash(s@) == Some(i as int),
        r is None ==> last_slash(s@) is None,
{
    let mut n: usize = s.len();
    proof {
        assert(s@.subrange(0, n as int) =~= s@);
    }
    while n > 0
        invariant
            n <= s@.len(),
            last_slash(s@) == last_slash(s@.subrange(0, n as int)),
        decreases n,
    {
        let ghost sub = s@.subrange(0, n as int);
        proof {
            assert(sub.drop_last() =~= s@.subrange(0, n - 1));
        }
        if s[n - 1] == '/' {
            return Some(n - 1);
        }
        n = n - 1;
    }
    None
}

/// Resolves `p` against the directory of `base` (absolute paths stay).
pub fn resolve_path(base: &String, p: &String) -> (r: String)
    ensures
        r@ == resolve_spec(base@, p@),
{
    let pv = crate::chars::chars_of(p.as_str());
    if pv.len() > 0 && pv[0] == '/' {
        return p.clone();
    }
    let bv = crate::chars::chars_of(base.as_str());
    let mut out: Vec<char> = Vec::new();
    match last_slash_exec(&bv) {
        None => {
            proof {
                assert(out@ =~= parent_of(bv@));
            }
        },
        Some(i) => {
            let end = if i == 0 { 1 } else { i };
            let mut k: usize = 0;
            while k < end
                invariant
                    k <= end <= bv@.len(),
                    out@ == bv@.subrange(0, k as int),
                decreases end - k,
            {
                out.push(bv[k]);
                k = k + 1;
                proof {
                    assert(out@ =~= bv@.subrange(0, k as int));
                }
            }
            proof {
                assert(out@ =~= parent_of(bv@));
            }
        },
    }
    let ghost dir = out@;
    if out.len() > 0 && out[out.len() - 1] != '/' {
        out.push('/');
    }
    let ghost mid = out@;
    let mut k: usize = 0;
    while k < pv.len()
        invariant
            k <= pv@.len(),
            out@ == mid + pv@.subrange(0, k as int),
        decreases pv@.len() - k,
    {
        out.push(pv[k]);
        k = k + 1;
        proof {
            assert(out@ =~= mid + pv@.subrange(0, k as int));
        }
    }
    proof {
        assert(pv@.subrange(0, pv@.len() as int) =~= pv@);
        assert(dir == parent_of(bv@));
        if dir.len() > 0 && dir.last() != '/' {
            assert(mid =~= dir + seq!['/']);
        }
        assert(out@ =~= join_spec(dir, pv@));
    }
    crate::chars::string_from_chars(out.as_slice())
}

/// `acc` with the segment `cur` added, unless it is empty or `.`.
pub open spec fn push_seg(acc: Seq<Seq<char>>, cur: Seq<char>) -> Seq<Seq<char>> {
    if cur.len() == 0 || cur == seq!['.'] {
        acc
    } else {
        acc.push(cur)
    }
}

/// After the first `n` chars of `s`: the finished segments (without empty
/// and `.` ones) and the segment still being read.
pub open spec fn segs_upto(s: Seq<char>, n: int) -> (Seq<Seq<char>>, Seq<char>)
    decreases n,
{
    if n <= 0 {
        (Seq::empty(), Seq::empty())
    } else {
        let prev = segs_upto(s, n - 1);
        if s[n - 1] == '/' {
            (push_seg(prev.0, prev.1), Seq::empty())
        } else {
            (prev.0, prev.1.push(s[n - 1]))
        }
    }
}

/// Whether a relative path starts with a `.` component.
pub open spec fn starts_with_cur_dir(s: Seq<char>) -> bool {
    s.len() >= 1 && s[0] == '.' && (s.len() == 1 || s[1] == '/')
}

/// The components of a path, as paths compare them: a leading root (as
/// `/`) or, for a relative path, a leading `.`; then the segments between
/// separators, without empty ones (repeated or trailing separators) and
/// without `.` ones.
pub open spec fn path_components(s: Seq<char>) -> Seq<Seq<char>> {
    let last = segs_upto(s, s.len() as int);
    let lead = if is_absolute(s) {
        seq![seq!['/']]
    } else if starts_with_cur_dir(s) {
        seq![seq!['.']]
    } else {
        Seq::empty()
    };
    lead + push_seg(last.0, last.1)
}

/// The contents of a list of char vectors.
pub open spec fn deep_chars(v: Seq<Vec<char>>) -> Seq<Seq<char>> {
    v.map_values(|x: Vec<char>| x@)
}

/// Whether a segment is dropped from a path's components.
fn skipped_segment(cur: &Vec<char>) -> (b: bool)
    ensures
        b == (cur@.len() == 0 || cur@ == seq!['.']),
{
    if cur.len() == 0 {
        return true;
    }
    if cur.len() == 1 && cur[0] == '.' {
        proof {
            assert(cur@ =~= seq!['.']);
        }
        return true;
    }
    proof {
        if cur@ == seq!['.'] {
            assert(cur@[0] == '.');
        }
    }
    false
}

/// The components of path `s` (see `path_components`).
fn components_of(s: &Vec<char>) -> (r: Vec<Vec<char>>)
    ensures
        deep_chars(r@) == path_components(s@),
{
    let mut out: Vec<Vec<char>> = Vec::new();
    if s.len() > 0 && s[0] == '/' {
        let mut root: Vec<char> = Vec::new();
        root.push('/');
        out.push(root);
        proof {
            assert(deep_chars(out@) =~= seq![seq!['/']]);
        }
    } else if s.len() >= 1 && s[0] == '.' && (s.len() == 1 || s[1] == '/') {
        let mut cd: Vec<char> = Vec::new();
        cd.push('.');
        out.push(cd);
        proof {
            assert(deep_chars(out@) =~= seq![seq!['.']]);
        }
    } else {
        proof {
            assert(deep_chars(out@) =~= Seq::<Seq<char>>::empty());
        }
    }
    let ghost lead = deep_chars(out@);
    proof {
        let l = if is_absolute(s@) {
            seq![seq!['/']]
        } else if starts_with_cur_dir(s@) {
            seq![seq!['.']]
        } else {
            Seq::<Seq<char>>::empty()
        };
        assert(lead =~= l);
    }
    let mut cur: Vec<char> = Vec::new();
    let mut i: usize = 0;
    proof {
        assert(lead + segs_upto(s@, 0).0 =~= lead);
    }
    while i < s.len()
        invariant
            i <= s@.len(),
            deep_chars(out@) == lead + segs_upto(s@, i as int).0,
            cur@ == segs_upto(s@, i as int).1,
        decreases s@.len() - i,
    {
        let ghost prev = segs_upto(s@, i as int);
        if s[i] == '/' {
            if !skipped_segment(&cur) {
                let ghost o = out@;
                let ghost c = cur@;
                out.push(cur);
                proof {
                    assert(deep_chars(out@) =~= deep_chars(o).push(c));
                    assert(lead + prev.0.push(c) =~= (lead + prev.0).push(c));
                }
            }
            cur = Vec::new();
        } else {
            cur.push(s[i]);
        }
        i = i + 1;
    }
    let ghost last = segs_upto(s@, s@.len() as int);
    if !skipped_segment(&cur) {
        let ghost o = out@;
        let ghost c = cur@;
        out.push(cur);
        proof {
            assert(deep_chars(out@) =~= deep_chars(o).push(c));
            assert(lead + last.0.push(c) =~= (lead + last.0).push(c));
        }
    }
    out
}

/// Whether two paths are the same path: equal components (see
/// `path_components`).
pub fn same_path(a: &String, b: &String) -> (r: bool)
    ensures
        r == (path_components(a@) == path_components(b@)),
{
    let av = crate::chars::chars_of(a.as_str());
    let bv = crate::chars::chars_of(b.as_str());
    let ca = components_of(&av);
    let cb = components_of(&bv);
    proof {
        assert(av@ == a@);
        assert(bv@ == b@);
        assert(deep_chars(ca@).len() == ca@.len());
        assert(deep_chars(cb@).len() == cb@.len());
    }
    if ca.len() != cb.len() {
        return false;
    }
    let mut i: usize = 0;
    while i < ca.len()
        invariant
            i <= ca@.len() == cb@.len(),
            deep_chars(ca@) == path_components(a@),
            deep_chars(cb@) == path_components(b@),
            forall|j: int| 0 <= j < i ==> ca@[j]@ == cb@[j]@,
        decreases ca@.len() - i,
    {
        if !crate::prompt::same_chars(&ca[i], &cb[i]) {
            proof {
                assert(deep_chars(ca@)[i as int] != deep_chars(cb@)[i as int]);
                assert(path_components(a@)[i as int] != path_components(b@)[i as int]);
            }
            return false;
        }
        i = i + 1;
    }
    proof {
        assert(deep_chars(ca@) =~= deep_chars(cb@));
    }
    true
}

/// The rename to perform: refused without a path or with unsaved changes;
/// `None` when the resolved new path is the current one (the same
/// components, see `path_components`).
pub open spec fn rename_ok(path: Option<String>, modified: bool, new_path: Seq<char>, r: Result<Option<(String, String)>, FileOpError>) -> bool {
    match path {
        None => r matches Err(FileOpError::InvalidArgument(m)) && m@ == "Buffer has no file path"@,
        Some(old) => if modified {
            r matches Err(FileOpError::Failed(m)) && m@ == "Buffer has unsaved changes \u{2014} save first"@
        } else if path_components(resolve_spec(old@, new_path)) == path_components(old@) {
            r matches Ok(None)
        } else {
            r matches Ok(Some(pair)) && pair.0@ == old@ && pair.1@ == resolve_spec(old@, new_path)
        },
    }
}

/// Checks a rename of a file at `path` to `new_path` (relative paths are
/// taken from the file's directory) and gives the old and new paths.
pub fn rename_plan(path: &Option<String>, modified: bool, new_path: &String) -> (r: Result<Option<(String, String)>, FileOpError>)
    ensures
        rename_ok(*path, modified, new_path@, r),
{
    let old = match path {
        None => {
            proof {
                reveal_strlit("Buffer has no file path");
            }
            return Err(FileOpError::InvalidArgument(owned("Buffer has no file path")));
        },
        Some(p) => p,
    };
    if modified {
        proof {
            reveal_strlit("Buffer has unsaved changes \u{2014} save first");
        }
        return Err(FileOpError::Failed(owned("Buffer has unsaved changes \u{2014} save first")));
    }
    let resolved = resolve_path(old, new_path);
    if same_path(&resolved, old) {
        return Ok(None);
    }
    Ok(Some((old.clone(), resolved)))
}

/// Checks a delete of the file at `path`: refused without a path or with
/// unsaved changes; otherwise the path to delete.
pub fn delete_plan(path: &Option<String>, modified: bool) -> (r: Result<String, FileOpError>)
    ensures
        path is None ==> (r matches Err(FileOpError::InvalidArgument(m)) && m@ == "Buffer has no file path"@),
        path is Some && modified ==> (r matches Err(FileOpError::Failed(m)) && m@ == "Buffer has unsaved changes"@),
        path is Some && !modified ==> (r matches Ok(q) && q@ == path->0@),
{
    match path {
        None => {
            proof {
                reveal_strlit("Buffer has no file path");
            }
            Err(FileOpError::InvalidArgument(owned("Buffer has no file path")))
        },
        Some(p) => {
            if modified {
                proof {
                    reveal_strlit("Buffer has unsaved changes");
                }
                Err(FileOpError::Failed(owned("Buffer has unsaved changes")))
            } else {
                Ok(p.clone())
            }
        },
    }
}

/// Where a path given for a file or directory operation points: absolute
/// paths stay; others are taken from the directory of the focused file, or
/// from the working directory when the buffer has no path.
pub open spec fn op_target_spec(buffer_path: Option<String>, p: Seq<char>) -> Seq<char> {
    match buffer_path {
        Some(b) => resolve_spec(b@, p),
        None => if is_absolute(p) {
            p
        } else {
            join_spec(seq!['.'], p)
        },
    }
}

/// The path a file or directory operation works on (see `op_target_spec`).
pub fn op_target(buffer_path: &Option<String>, p: &String) -> (r: String)
    ensures
        r@ == op_target_spec(*buffer_path, p@),
{
    match buffer_path {
        Some(b) => resolve_path(b, p),
        None => {
            let pv = crate::chars::chars_of(p.as_str());
            if pv.len() > 0 && pv[0] == '/' {
                p.clone()
            } else {
                proof {
                    reveal_strlit("./");
                }
                let mut r = owned("./");
                r.append(p.as_str());
                proof {
                    assert(r@ =~= join_spec(seq!['.'], p@));
                }
                r
            }
        },
    }
}

/// `prefix` followed by `path`.
pub open spec fn with_path(prefix: Seq<char>, path: Seq<char>) -> Seq<char> {
    prefix + path
}

fn message(prefix: &str, path: &String) -> (r: String)
    ensures
        r@ == with_path(prefix@, path@),
{
    let mut r = owned(prefix);
    r.append(path.as_str());
    r
}

/// Creating directory `target`: refused when something that is not a
/// directory is there; nothing to do (with a notice) when the directory
/// exists; else `None`: create it.
pub fn create_dir_plan(target: &String, exists: bool, is_dir: bool) -> (r: Result<Option<String>, FileOpError>)
    ensures
        exists && !is_dir ==> (r matches Err(FileOpError::Failed(m)) && m@ == with_path(
            "Path exists and is not a directory: "@,
            target@,
        )),
        exists && is_dir ==> (r matches Ok(Some(m)) && m@ == with_path("Directory already exists: "@, target@)),
        !exists ==> r matches Ok(None),
{
    if exists {
        if !is_dir {
            return Err(FileOpError::Failed(message("Path exists and is not a directory: ", target)));
        }
        return Ok(Some(message("Directory already exists: ", target)));
    }
    Ok(None)
}

/// The notice after directory `target` was created.
pub fn created_dir_notice(target: &String) -> (r: String)
    ensures
        r@ == with_path("Created directory "@, target@),
{
    message("Created directory ", target)
}

/// Deleting directory `target`: refused unless it is a directory.
pub fn delete_dir_plan(target: &String, is_dir: bool) -> (r: Result<(), FileOpError>)
    ensures
        !is_dir ==> (r matches Err(FileOpError::InvalidArgument(m)) && m@ == with_path("Not a directory: "@, target@)),
        is_dir ==> r is Ok,
{
    if !is_dir {
        return Err(FileOpError::InvalidArgument(message("Not a directory: ", target)));
    }
    Ok(())
}

/// OS error codes for a directory that is not empty (Linux, macOS).
pub open spec fn dir_not_empty_code(code: Option<i32>) -> bool {
    code == Some(39i32) || code == Some(66i32)
}

/// The error for a failed removal of directory `target`: "not empty" for
/// that OS error, else the I/O message.
pub fn remove_dir_error(target: &String, os_code: Option<i32>, io_message: String) -> (r: FileOpError)
    ensures
        dir_not_empty_code(os_code) ==> (r matches FileOpError::Failed(m) && m@ == with_path(
            "Directory not empty: "@,
            target@,
        )),
        !dir_not_empty_code(os_code) ==> (r matches FileOpError::Io(m) && m@ == io_message@),
{
    match os_code {
        Some(c) => {
            if c == 39 || c == 66 {
                return FileOpError::Failed(message("Directory not empty: ", target));
            }
        },
        None => {},
    }
    FileOpError::Io(io_message)
}

/// The notice after directory `target` was deleted.
pub fn deleted_dir_notice(target: &String) -> (r: String)
    ensures
        r@ == with_path("Deleted directory "@, target@),
{
    message("Deleted directory ", target)
}

/// A rename failed because source and target are on different devices
/// (`EXDEV`, 18).
pub fn is_cross_device_rename(os_code: Option<i32>) -> (b: bool)
    ensures
        b == (os_code == Some(18i32)),
{
    match os_code {
        Some(c) => c == 18,
        None => false,
    }
}

/// The error for a failed rename of `old_path` to `new_path`.
pub fn rename_error(old_path: &String, new_path: &String, os_code: Option<i32>, io_message: String) -> (r: FileOpError)
    ensures
        os_code == Some(18i32) ==> (r matches FileOpError::Failed(m) && m@ == "Cross-device rename not supported (EXDEV): "@
            + old_path@ + " -> "@ + new_path@),
        os_code != Some(18i32) ==> (r matches FileOpError::Io(m) && m@ == io_message@),
{
    if is_cross_device_rename(os_code) {
        let mut m = owned("Cross-device rename not supported (EXDEV): ");
        m.append(old_path.as_str());
        m.append(" -> ");
        m.append(new_path.as_str());
        FileOpError::Failed(m)
    } else {
        FileOpError::Io(io_message)
    }
}

/// The notice after the focused file moved to `new_path`.
pub fn renamed_notice(new_path: &String) -> (r: String)
    ensures
        r@ == with_path("Renamed to "@, new_path@),
{
    message("Renamed to ", new_path)
}

/// Saving needs a path: the one to write, or the error asking for one.
pub fn save_plan(path: &Option<String>) -> (r: Result<String, FileOpError>)
    ensures
        path is None ==> (r matches Err(FileOpError::InvalidArgument(m)) && m@
            == "No filename. Use :write <filename>"@),
        path matches Some(p) ==> (r matches Ok(q) && q@ == p@),
{
    match path {
        None => {
            proof {
                reveal_strlit("No filename. Use :write <filename>");
            }
            Err(FileOpError::InvalidArgument(owned("No filename. Use :write <filename>")))
        },
        Some(p) => Ok(p.clone()),
    }
}

impl Editor {
    /// Gives the focused view's document a new path (after the file moved).
    pub fn set_focused_path(&mut self, path: String)
        requires
            old(self).core.buffers.wf(),
            old(self).core.buffers.has_view(old(self).core.buffers.focused),
        ensures
            final(self).core.buffers.wf(),
            final(self).core.buffers.views == old(self).core.buffers.views,
            final(self).core.buffers.docs@.len() == old(self).core.buffers.docs@.len(),
            forall|i: int, k: int|
                #[trigger] focus_at(old(self).core.buffers, i, k) ==> {
                    let d0 = old(self).core.buffers.docs@[k];
                    let d1 = final(self).core.buffers.docs@[k];
                    &&& d1.path == Some(path)
                    &&& d1.id == d0.id && d1.text == d0.text && d1.readonly == d0.readonly
                        && d1.modified == d0.modified
                    &&& forall|m: int|
                        0 <= m < old(self).core.buffers.docs@.len() && m != k ==> #[trigger] final(self).core.buffers.docs@[m] == old(self).core.buffers.docs@[m]
                },
    {
        let (_i, k) = match self.core.buffers.locate(self.core.buffers.focused) {
            Some(x) => x,
            None => {
                proof {
                    assert(false);
                }
                return ;
            },
        };
        self.core.buffers.docs[k].path = Some(path);
        proof {
            let o = old(self).core.buffers;
            let b = self.core.buffers;
            assert forall|a: int, c: int| 0 <= a < c < b.docs@.len() implies b.docs@[a].id != b.docs@[c].id by {
                assert(o.docs@[a].id != o.docs@[c].id);
            }
            assert forall|a: int| 0 <= a < b.docs@.len() implies #[trigger] b.docs@[a].id.0 < b.next_doc by {
                assert(o.docs@[a].id.0 < o.next_doc);
            }
            assert forall|a: int| 0 <= a < b.views@.len() implies b.has_doc(#[trigger] b.views@[a].doc) by {
                assert(o.has_doc(o.views@[a].doc));
                let j = choose|j: int| 0 <= j < o.docs@.len() && o.docs@[j].id == o.views@[a].doc;
                assert(b.docs@[j].id == b.views@[a].doc);
            }
        }
    }

    /// Whether the focused view's document has unsaved changes.
    pub fn is_modified(&self) -> (b: bool)
        requires
            self.core.buffers.wf(),
            self.core.buffers.has_view(self.core.buffers.focused),
        ensures
            forall|i: int, k: int| #[trigger] focus_at(self.core.buffers, i, k) ==> b == self.core.buffers.docs@[k].modified,
    {
        match self.core.buffers.locate(self.core.buffers.focused) {
            Some((i, k)) => {
                proof {
                    let b = self.core.buffers;
                    assert forall|i2: int, k2: int| #[trigger] focus_at(b, i2, k2) implies k2 == k by {
                        if i2 != i {
                            if i2 < i {
                                assert(b.views@[i2].id != b.views@[i as int].id);
                            } else {
                                assert(b.views@[i as int].id != b.views@[i2].id);
                            }
                        }
                    }
                }
                self.core.buffers.docs[k].modified
            },
            None => false,
        }
    }

    /// Marks the focused view's document as saved (no unsaved changes).
    pub fn mark_focused_saved(&mut self)
        requires
            old(self).core.buffers.wf(),
            old(self).core.buffers.has_view(old(self).core.buffers.focused),
        ensures
            final(self).core.buffers.wf(),
            final(self).core.buffers.views == old(self).core.buffers.views,
            final(self).core.buffers.docs@.len() == old(self).core.buffers.docs@.len(),
            forall|i: int, k: int|
                #[trigger] focus_at(old(self).core.buffers, i, k) ==> {
                    let d0 = old(self).core.buffers.docs@[k];
                    let d1 = final(self).core.buffers.docs@[k];
                    &&& !d1.modified
                    &&& d1.id == d0.id && d1.text == d0.text && d1.readonly == d0.readonly && d1.path == d0.path
                    &&& forall|m: int|
                        0 <= m < old(self).core.buffers.docs@.len() && m != k ==> #[trigger] final(self).core.buffers.docs@[m] == old(self).core.buffers.docs@[m]
                },
    {
        let (i, k) = match self.core.buffers.locate(self.core.buffers.focused) {
            Some(x) => x,
            None => {
                return ;
            },
        };
        self.core.buffers.docs[k].modified = false;
        proof {
            let o = old(self).core.buffers;
            let b = self.core.buffers;
            assert forall|i2: int, k2: int| #[trigger] focus_at(o, i2, k2) implies k2 == k by {
                if i2 != i {
                    if i2 < i {
                        assert(o.views@[i2].id != o.views@[i as int].id);
                    } else {
                        assert(o.views@[i as int].id != o.views@[i2].id);
                    }
                }
            }
            assert forall|a: int, c: int| 0 <= a < c < b.docs@.len() implies b.docs@[a].id != b.docs@[c].id by {
                assert(o.docs@[a].id != o.docs@[c].id);
            }
            assert forall|a: int| 0 <= a < b.docs@.len() implies #[trigger] b.docs@[a].id.0 < b.next_doc by {
                assert(o.docs@[a].id.0 < o.next_doc);
            }
            assert forall|a: int| 0 <= a < b.views@.len() implies b.has_doc(#[trigger] b.views@[a].doc) by {
                assert(o.has_doc(o.views@[a].doc));
                let j = choose|j: int| 0 <= j < o.docs@.len() && o.docs@[j].id == o.views@[a].doc;
                assert(b.docs@[j].id == b.views@[a].doc);
            }
        }
    }
}

} // verus!
