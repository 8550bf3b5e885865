//! Data and logic for endpoints under `api/client/servers/{server}/files`:
//! the permission-string decoder, the path helpers, copy naming, and the
//! endpoint builders that percent-encode a path into a query string.

use crate::text::{chars_eq, dec_str, push_all, push_str_chars, spec_split, split_chars,
    str_to_chars, string_from_chars};
use crate::Error;
use vstd::prelude::*;
use vstd::string::StringSliceAdditionalSpecFns;
use vstd::utf8::encode_utf8;

verus! {

// ---------------------------------------------------------------------------
// Permission strings
// ---------------------------------------------------------------------------

/// The file type of a Pterodactyl file.
#[derive(Debug, PartialEq, Eq, Copy, Clone, Hash, Structural)]
pub enum PteroFileType {
    /// A normal file
    Normal,
    /// A directory
    Directory,
    /// A symlink
    Symlink,
}

/// The Unix permissions of a Pterodactyl file for a specific user.
#[derive(Debug, PartialEq, Eq, Copy, Clone, Hash, Structural)]
pub struct PteroUserFilePermissions {
    /// Whether the user has read access to this file
    pub read: bool,
    /// Whether the user has write access to this file
    pub write: bool,
    /// Whether this file is executable for the user
    pub executable: bool,
    /// Whether this file has the setuid/setgid flag set
    pub setuid: bool,
    /// Whether this file has the sticky flag set
    pub sticky: bool,
}

/// The Unix permissions of a Pterodactyl file.
#[derive(Debug, PartialEq, Eq, Copy, Clone, Hash, Structural)]
pub struct PteroFilePermissions {
    /// The type of the file
    pub file_type: PteroFileType,
    /// The permissions for the owner of the file
    pub owner: PteroUserFilePermissions,
    /// The permissions for the group owner of the file
    pub group_owner: PteroUserFilePermissions,
    /// The permissions for other users
    pub other_users: PteroUserFilePermissions,
}

/// The file type a mode char stands for.
pub open spec fn spec_file_type(c: char) -> Option<PteroFileType> {
    if c == 'd' {
        Some(PteroFileType::Directory)
    } else if c == 'l' {
        Some(PteroFileType::Symlink)
    } else if c == '-' {
        Some(PteroFileType::Normal)
    } else {
        None
    }
}

/// The per-user permissions a three-char group stands for: `r`/`-`, `w`/`-`,
/// then one of `x`, `s`, `t`, `S`, `T`, `-` for the execute/setuid/sticky
/// combination.
pub open spec fn spec_user_perms(r: char, w: char, x: char) -> Option<PteroUserFilePermissions> {
    let read = if r == 'r' {
        Some(true)
    } else if r == '-' {
        Some(false)
    } else {
        None
    };
    let write = if w == 'w' {
        Some(true)
    } else if w == '-' {
        Some(false)
    } else {
        None
    };
    let exec = if x == 'x' {
        Some((true, false, false))
    } else if x == 's' {
        Some((true, true, false))
    } else if x == 't' {
        Some((true, false, true))
    } else if x == 'S' {
        Some((false, true, false))
    } else if x == 'T' {
        Some((false, false, true))
    } else if x == '-' {
        Some((false, false, false))
    } else {
        None
    };
    match (read, write, exec) {
        (Some(read), Some(write), Some(e)) => Some(
            PteroUserFilePermissions {
                read,
                write,
                executable: e.0,
                setuid: e.1,
                sticky: e.2,
            },
        ),
        _ => None,
    }
}

/// The permissions a ten-char mode string stands for: the file type char,
/// then three three-char user groups.
pub open spec fn spec_parse_permissions(s: Seq<char>) -> Option<PteroFilePermissions> {
    if s.len() != 10 {
        None
    } else {
        match (spec_file_type(s[0]), spec_user_perms(s[1], s[2], s[3]), spec_user_perms(
            s[4],
            s[5],
            s[6],
        ), spec_user_perms(s[7], s[8], s[9])) {
            (Some(t), Some(o), Some(g), Some(u)) => Some(
                PteroFilePermissions { file_type: t, owner: o, group_owner: g, other_users: u },
            ),
            _ => None,
        }
    }
}

fn file_type_exec(c: char) -> (r: Option<PteroFileType>)
    ensures
        r == spec_file_type(c),
{
    if c == 'd' {
        Some(PteroFileType::Directory)
    } else if c == 'l' {
        Some(PteroFileType::Symlink)
    } else if c == '-' {
        Some(PteroFileType::Normal)
    } else {
        None
    }
}

fn user_perms_exec(r: char, w: char, x: char) -> (p: Option<PteroUserFilePermissions>)
    ensures
        p == spec_user_perms(r, w, x),
{
    let read = if r == 'r' {
        true
    } else if r == '-' {
        false
    } else {
        return None;
    };
    let write = if w == 'w' {
        true
    } else if w == '-' {
        false
    } else {
        return None;
    };
    let (executable, setuid, sticky) = if x == 'x' {
        (true, false, false)
    } else if x == 's' {
        (true, true, false)
    } else if x == 't' {
        (true, false, true)
    } else if x == 'S' {
        (false, true, false)
    } else if x == 'T' {
        (false, false, true)
    } else if x == '-' {
        (false, false, false)
    } else {
        return None;
    };
    Some(PteroUserFilePermissions { read, write, executable, setuid, sticky })
}

impl PteroFilePermissions {
    /// Decodes a ten-char Unix mode string, such as `drwxr-xr-x`, into the
    /// file type and the three user permission groups. Any other string is a
    /// [`Error::Json`] error.
    pub fn parse(s: &str) -> (r: Result<PteroFilePermissions, Error>)
        ensures
            match spec_parse_permissions(s@) {
                Some(p) => r == Ok::<PteroFilePermissions, Error>(p),
                None => match r {
                    Err(e) => e is Json,
                    Ok(_) => false,
                },
            },
    {
        let v = str_to_chars(s);
        if v.len() != 10 {
            return Err(Error::Json(String::new()));
        }
        let t = match file_type_exec(v[0]) {
            Some(t) => t,
            None => {
                return Err(Error::Json(String::new()));
            },
        };
        let o = match user_perms_exec(v[1], v[2], v[3]) {
            Some(o) => o,
            None => {
                return Err(Error::Json(String::new()));
            },
        };
        let g = match user_perms_exec(v[4], v[5], v[6]) {
            Some(g) => g,
            None => {
                return Err(Error::Json(String::new()));
            },
        };
        let u = match user_perms_exec(v[7], v[8], v[9]) {
            Some(u) => u,
            None => {
                return Err(Error::Json(String::new()));
            },
        };
        Ok(PteroFilePermissions { file_type: t, owner: o, group_owner: g, other_users: u })
    }
}

// ---------------------------------------------------------------------------
// Path helpers
// ---------------------------------------------------------------------------

/// The index of the last occurrence of `c` in `s`, if any.
pub open spec fn last_ix(s: Seq<char>, c: char) -> Option<nat>
    decreases s.len(),
{
    if s.len() == 0 {
        None
    } else if s.last() == c {
        Some((s.len() - 1) as nat)
    } else {
        last_ix(s.drop_last(), c)
    }
}

proof fn lemma_last_ix(s: Seq<char>, c: char, j: int)
    requires
        0 <= j <= s.len(),
        forall|k: int| j <= k < s.len() ==> s[k] != c,
        j > 0 ==> s[j - 1] == c,
    ensures
        j > 0 ==> last_ix(s, c) == Some((j - 1) as nat),
        j == 0 ==> last_ix(s, c) is None,
    decreases s.len(),
{
    if j == s.len() {
        if j > 0 {
        }
    } else {
        assert(s.len() > 0 && s.last() != c);
        lemma_last_ix(s.drop_last(), c, j);
    }
}

/// The index just after the last slash, or 0 when there is none: where a
/// path splits into directory and file name.
pub open spec fn dir_cut(s: Seq<char>) -> int {
    match last_ix(s, '/') {
        Some(i) => i + 1 as int,
        None => 0,
    }
}

/// Scans for the cut point after the last occurrence of `c`: the returned
/// index is 0 when `c` does not occur, and one past its last occurrence
/// otherwise.
fn rfind_cut(v: &Vec<char>, c: char) -> (j: usize)
    ensures
        j <= v@.len(),
        j > 0 ==> last_ix(v@, c) == Some((j - 1) as nat),
        j == 0 ==> last_ix(v@, c) is None,
{
    let mut j = v.len();
    while j > 0 && v[j - 1] != c
        invariant
            j <= v@.len(),
            forall|k: int| j <= k < v@.len() ==> v@[k] != c,
        decreases j,
    {
        j = j - 1;
    }
    proof {
        lemma_last_ix(v@, c, j as int);
    }
    j
}

/// Splits a path at the start of its file name: everything through the last
/// slash, and everything after it.
pub fn split_dir_filename(file: &str) -> (r: (String, String))
    ensures
        r.0@ == file@.take(dir_cut(file@)),
        r.1@ == file@.skip(dir_cut(file@)),
{
    let v = str_to_chars(file);
    let cut = rfind_cut(&v, '/');
    let dir = crate::text::string_from_chars(&subvec(&v, 0, cut));
    let name = crate::text::string_from_chars(&subvec(&v, cut, v.len()));
    (dir, name)
}

/// The index of the last dot, or the length when there is none: where a file
/// name splits into stem and extension.
pub open spec fn ext_cut(s: Seq<char>) -> int {
    match last_ix(s, '.') {
        Some(i) => i as int,
        None => s.len() as int,
    }
}

/// Splits a file name at its last dot: the stem, and the extension including
/// the dot (empty when there is no dot).
pub fn split_filename_extension(file: &str) -> (r: (String, String))
    ensures
        r.0@ == file@.take(ext_cut(file@)),
        r.1@ == file@.skip(ext_cut(file@)),
{
    let v = str_to_chars(file);
    let j = rfind_cut(&v, '.');
    let cut: usize = if j > 0 {
        j - 1
    } else {
        v.len()
    };
    let stem = crate::text::string_from_chars(&subvec(&v, 0, cut));
    let ext = crate::text::string_from_chars(&subvec(&v, cut, v.len()));
    (stem, ext)
}

fn subvec(v: &Vec<char>, a: usize, b: usize) -> (r: Vec<char>)
    requires
        a <= b <= v@.len(),
    ensures
        r@ == v@.subrange(a as int, b as int),
{
    let mut r: Vec<char> = Vec::new();
    let mut k = a;
    while k < b
        invariant
            a <= k <= b <= v@.len(),
            r@ == v@.subrange(a as int, k as int),
        decreases b - k,
    {
        r.push(v[k]);
        assert(r@ =~= v@.subrange(a as int, k + 1 as int));
        k = k + 1;
    }
    r
}

/// The components of a path: one leading and one trailing slash are
/// dropped, and the rest splits on slashes; an empty path has none.
pub open spec fn spec_file_parts(s: Seq<char>) -> Seq<Seq<char>> {
    let a = if s.len() > 0 && s[0] == '/' {
        s.drop_first()
    } else {
        s
    };
    let b = if a.len() > 0 && a.last() == '/' {
        a.drop_last()
    } else {
        a
    };
    if b.len() == 0 {
        Seq::<Seq<char>>::empty()
    } else {
        spec_split(b, '/')
    }
}

fn file_parts_chars(v: &Vec<char>) -> (r: Vec<Vec<char>>)
    ensures
        r.deep_view() == spec_file_parts(v@),
{
    let n = v.len();
    let a: usize = if n > 0 && v[0] == '/' {
        1
    } else {
        0
    };
    let b: usize = if n > a && v[n - 1] == '/' {
        n - 1
    } else {
        n
    };
    let t = subvec(v, a, b);
    proof {
        if a == 1 {
            if b < n {
                assert(t@ =~= v@.drop_first().drop_last());
            } else {
                assert(t@ =~= v@.drop_first());
            }
        } else {
            if b < n {
                assert(t@ =~= v@.drop_last());
            } else {
                assert(t@ =~= v@);
            }
        }
    }
    if t.len() == 0 {
        let r: Vec<Vec<char>> = Vec::new();
        proof {
            assert(r.deep_view() =~~= Seq::<Seq<char>>::empty());
        }
        r
    } else {
        split_chars(&t, '/')
    }
}

/// The components of a path, as [`spec_file_parts`] gives them.
pub fn file_parts(file: &str) -> (r: Vec<String>)
    ensures
        r.deep_view() == spec_file_parts(file@),
{
    let v = str_to_chars(file);
    let parts = file_parts_chars(&v);
    let mut r: Vec<String> = Vec::new();
    let n = parts.len();
    let mut i: usize = 0;
    while i < n
        invariant
            i <= n,
            n == parts@.len(),
            r.deep_view() == parts.deep_view().take(i as int),
        decreases n - i,
    {
        let ghost pre = r.deep_view();
        r.push(string_from_chars(&parts[i]));
        proof {
            crate::text::lemma_chars_deep_view(parts@[i as int]);
            assert(r.deep_view() =~~= pre.push(parts@[i as int]@));
            assert(r.deep_view() =~~= parts.deep_view().take(i + 1));
        }
        i = i + 1;
    }
    proof {
        assert(parts.deep_view().take(n as int) =~= parts.deep_view());
    }
    r
}

/// The length of the longest common prefix of two component lists.
pub open spec fn common_len(a: Seq<Seq<char>>, b: Seq<Seq<char>>) -> nat
    decreases a.len(),
{
    if a.len() > 0 && b.len() > 0 && a[0] == b[0] {
        1 + common_len(a.drop_first(), b.drop_first())
    } else {
        0
    }
}

proof fn lemma_common_len(a: Seq<Seq<char>>, b: Seq<Seq<char>>, i: int)
    requires
        0 <= i <= a.len(),
        i <= b.len(),
        forall|k: int| 0 <= k < i ==> a[k] == b[k],
        i < a.len() && i < b.len() ==> a[i] != b[i],
    ensures
        common_len(a, b) == i,
    decreases i,
{
    if i == 0 {
    } else {
        lemma_common_len(a.drop_first(), b.drop_first(), i - 1);
    }
}

/// `n` steps up to a parent directory: `../` repeated.
pub open spec fn ups(n: nat) -> Seq<char>
    decreases n,
{
    if n == 0 {
        Seq::<char>::empty()
    } else {
        ups((n - 1) as nat) + seq!['.', '.', '/']
    }
}

/// The components descended into, each followed by a slash.
pub open spec fn downs(parts: Seq<Seq<char>>) -> Seq<char>
    decreases parts.len(),
{
    if parts.len() == 0 {
        Seq::<char>::empty()
    } else {
        downs(parts.drop_last()) + parts.last() + seq!['/']
    }
}

/// The path of `file` relative to the directory `root`: after the common
/// prefix of `root` and `file`'s directory, one `../` per remaining `root`
/// component, then the remaining directory components, then the file name.
pub open spec fn spec_relativize(file: Seq<char>, root: Seq<char>) -> Seq<char> {
    let dir = file.take(dir_cut(file));
    let filename = file.skip(dir_cut(file));
    let rp = spec_file_parts(root);
    let fp = spec_file_parts(dir);
    let c = common_len(rp, fp);
    ups((rp.len() - c) as nat) + downs(fp.skip(c as int)) + filename
}

/// Rewrites `file` relative to the directory `root`, as
/// [`spec_relativize`] prescribes.
pub fn relativize(file: &str, root: &str) -> (r: String)
    ensures
        r@ == spec_relativize(file@, root@),
{
    let fv = str_to_chars(file);
    let cut = rfind_cut(&fv, '/');
    let dir = subvec(&fv, 0, cut);
    let filename = subvec(&fv, cut, fv.len());
    proof {
        assert(dir@ =~= file@.take(dir_cut(file@)));
        assert(filename@ =~= file@.skip(dir_cut(file@)));
    }
    let rv = str_to_chars(root);
    let rp = file_parts_chars(&rv);
    let fp = file_parts_chars(&dir);
    let ghost rpv = rp.deep_view();
    let ghost fpv = fp.deep_view();
    let rn = rp.len();
    let fpn = fp.len();
    let mut c: usize = 0;
    let mut differs = false;
    while c < rn && c < fpn && !differs
        invariant
            c <= rn,
            c <= fpn,
            rn == rp@.len(),
            fpn == fp@.len(),
            rpv == rp.deep_view(),
            fpv == fp.deep_view(),
            forall|k: int| 0 <= k < c ==> rpv[k] == fpv[k],
            differs ==> c < rn && c < fpn && rpv[c as int] != fpv[c as int],
        decreases rn - c + (if differs { 0int } else { 1int }),
    {
        proof {
            crate::text::lemma_chars_deep_view(rp@[c as int]);
            crate::text::lemma_chars_deep_view(fp@[c as int]);
        }
        if chars_eq(&rp[c], &fp[c]) {
            c = c + 1;
        } else {
            differs = true;
        }
    }
    proof {
        lemma_common_len(rpv, fpv, c as int);
    }
    let mut v: Vec<char> = Vec::new();
    let mut k: usize = 0;
    while k < rn - c
        invariant
            k <= rn - c,
            c <= rn,
            v@ == ups(k as nat),
        decreases rn - c - k,
    {
        v.push('.');
        v.push('.');
        v.push('/');
        proof {
            assert(v@ =~= ups((k + 1) as nat));
        }
        k = k + 1;
    }
    let ghost upstr = ups((rn - c) as nat);
    let mut i = c;
    while i < fpn
        invariant
            c <= i <= fpn,
            fpn == fp@.len(),
            fpv == fp.deep_view(),
            upstr == ups((rn - c) as nat),
            v@ == upstr + downs(fpv.subrange(c as int, i as int)),
        decreases fpn - i,
    {
        push_all(&mut v, &fp[i]);
        v.push('/');
        proof {
            crate::text::lemma_chars_deep_view(fp@[i as int]);
            assert(fpv.subrange(c as int, i + 1).drop_last() =~= fpv.subrange(c as int, i as int));
            assert(fpv.subrange(c as int, i + 1).last() == fpv[i as int]);
            assert(v@ =~= upstr + downs(fpv.subrange(c as int, i + 1)));
        }
        i = i + 1;
    }
    push_all(&mut v, &filename);
    proof {
        assert(fpv.subrange(c as int, fpn as int) =~= fpv.skip(c as int));
        assert(v@ =~= spec_relativize(file@, root@));
    }
    string_from_chars(&v)
}

/// Splits a folder path into its parent directory and the folder name, after
/// dropping one trailing slash.
pub fn folder_parts(folder: &str) -> (r: (String, String))
    ensures
        ({
            let t = if folder@.len() > 0 && folder@.last() == '/' {
                folder@.drop_last()
            } else {
                folder@
            };
            r.0@ == t.take(dir_cut(t)) && r.1@ == t.skip(dir_cut(t))
        }),
{
    let v = str_to_chars(folder);
    let n = v.len();
    let b: usize = if n > 0 && v[n - 1] == '/' {
        n - 1
    } else {
        n
    };
    let t = subvec(&v, 0, b);
    proof {
        if b < n {
            assert(t@ =~= folder@.drop_last());
        } else {
            assert(t@ =~= folder@);
        }
    }
    let cut = rfind_cut(&t, '/');
    let dir = crate::text::string_from_chars(&subvec(&t, 0, cut));
    let name = crate::text::string_from_chars(&subvec(&t, cut, t.len()));
    (dir, name)
}

// ---------------------------------------------------------------------------
// Copy naming
// ---------------------------------------------------------------------------

/// The `i`th candidate name for a copy of a file: ` copy` after the stem,
/// numbered from the second candidate on.
pub open spec fn spec_copy_name(dir: Seq<char>, stem: Seq<char>, ext: Seq<char>, i: nat) -> Seq<
    char,
> {
    dir + stem + seq![' ', 'c', 'o', 'p', 'y'] + (if i == 0 {
        Seq::<char>::empty()
    } else {
        seq![' '] + dec_str(i)
    }) + ext
}

/// The first candidate copy name not among `existing`, searching at most
/// `fuel` candidates from the `i`th on (the last candidate searched is kept
/// when the fuel runs out).
pub open spec fn spec_find_copy_name(
    dir: Seq<char>,
    stem: Seq<char>,
    ext: Seq<char>,
    existing: Seq<Seq<char>>,
    i: nat,
    fuel: nat,
) -> Seq<char>
    decreases fuel,
{
    let cand = spec_copy_name(dir, stem, ext, i);
    if fuel == 0 || !existing.contains(cand) {
        cand
    } else {
        spec_find_copy_name(dir, stem, ext, existing, i + 1, (fuel - 1) as nat)
    }
}

fn copy_name(dir: &Vec<char>, stem: &Vec<char>, ext: &Vec<char>, i: u64) -> (r: Vec<char>)
    ensures
        r@ == spec_copy_name(dir@, stem@, ext@, i as nat),
{
    let mut v: Vec<char> = Vec::new();
    push_all(&mut v, dir);
    push_all(&mut v, stem);
    v.push(' ');
    v.push('c');
    v.push('o');
    v.push('p');
    v.push('y');
    if i != 0 {
        v.push(' ');
        let d = crate::text::dec_u64_chars(i);
        push_all(&mut v, &d);
    }
    push_all(&mut v, ext);
    proof {
        assert(v@ =~= spec_copy_name(dir@, stem@, ext@, i as nat));
    }
    v
}

fn contains_chars(names: &Vec<String>, cand: &Vec<char>) -> (r: bool)
    ensures
        r == names.deep_view().contains(cand@),
{
    let n = names.len();
    let mut i: usize = 0;
    while i < n
        invariant
            i <= n,
            n == names@.len(),
            forall|k: int| 0 <= k < i ==> names.deep_view()[k] != cand@,
        decreases n - i,
    {
        if crate::text::chars_eq_str(cand, names[i].as_str()) {
            proof {
                assert(names.deep_view()[i as int] == cand@);
            }
            return true;
        }
        proof {
            assert(names.deep_view()[i as int] == names@[i as int]@);
        }
        i = i + 1;
    }
    proof {
        assert(!names.deep_view().contains(cand@));
    }
    false
}

/// Picks the name for a copy of a file in `dir` with the given stem and
/// extension: the first candidate copy name that none of `existing` carries.
/// Candidate names are numbered, so searching one more candidate than there
/// are existing names always reaches a free one.
pub fn find_copy_name(dir: &str, stem: &str, ext: &str, existing: &Vec<String>) -> (r: String)
    requires
        existing@.len() < usize::MAX,
    ensures
        r@ == spec_find_copy_name(
            dir@,
            stem@,
            ext@,
            existing.deep_view(),
            0,
            existing@.len() + 1,
        ),
{
    let dv = str_to_chars(dir);
    let sv = str_to_chars(stem);
    let ev = str_to_chars(ext);
    let n = existing.len();
    let ghost exv = existing.deep_view();
    let mut i: usize = 0;
    loop
        invariant
            i <= n,
            n < usize::MAX,
            n == existing@.len(),
            exv == existing.deep_view(),
            dv@ == dir@,
            sv@ == stem@,
            ev@ == ext@,
            spec_find_copy_name(dir@, stem@, ext@, exv, 0, (n + 1) as nat) == spec_find_copy_name(
                dir@,
                stem@,
                ext@,
                exv,
                i as nat,
                (n + 1 - i) as nat,
            ),
        decreases n - i,
    {
        let cand = copy_name(&dv, &sv, &ev, i as u64);
        if !contains_chars(existing, &cand) {
            proof {
                assert(spec_find_copy_name(dir@, stem@, ext@, exv, i as nat, (n + 1 - i) as nat)
                    == cand@);
            }
            return string_from_chars(&cand);
        }
        if i == n {
            let next = copy_name(&dv, &sv, &ev, (i + 1) as u64);
            proof {
                assert(spec_find_copy_name(dir@, stem@, ext@, exv, i as nat, (n + 1 - i) as nat)
                    == spec_find_copy_name(dir@, stem@, ext@, exv, (i + 1) as nat, 0nat));
                assert(spec_find_copy_name(dir@, stem@, ext@, exv, (i + 1) as nat, 0nat)
                    == next@);
            }
            return string_from_chars(&next);
        }
        proof {
            assert(spec_find_copy_name(dir@, stem@, ext@, exv, i as nat, (n + 1 - i) as nat)
                == spec_find_copy_name(dir@, stem@, ext@, exv, (i + 1) as nat, (n - i) as nat));
        }
        i = i + 1;
    }
}

// ---------------------------------------------------------------------------
// Endpoint builders
// ---------------------------------------------------------------------------

/// The digit char of a hex value below 16, upper case.
pub open spec fn hex_upper(n: nat) -> char {
    if n == 0 {
        '0'
    } else if n == 1 {
        '1'
    } else if n == 2 {
        '2'
    } else if n == 3 {
        '3'
    } else if n == 4 {
        '4'
    } else if n == 5 {
        '5'
    } else if n == 6 {
        '6'
    } else if n == 7 {
        '7'
    } else if n == 8 {
        '8'
    } else if n == 9 {
        '9'
    } else if n == 10 {
        'A'
    } else if n == 11 {
        'B'
    } else if n == 12 {
        'C'
    } else if n == 13 {
        'D'
    } else if n == 14 {
        'E'
    } else {
        'F'
    }
}

/// Whether a byte stays as it is under percent-encoding: ASCII alphanumerics
/// and `-`, `.`, `_`, `~`.
pub open spec fn unreserved(b: u8) -> bool {
    (48 <= b && b <= 57) || (65 <= b && b <= 90) || (97 <= b && b <= 122) || b == 45 || b == 46
        || b == 95 || b == 126
}

/// The percent-encoding of one byte.
pub open spec fn enc_byte(b: u8) -> Seq<char> {
    if unreserved(b) {
        seq![((b as u32) as char)]
    } else {
        seq!['%', hex_upper((b / 16) as nat), hex_upper((b % 16) as nat)]
    }
}

/// The percent-encoding of a byte string.
pub open spec fn spec_percent_encode(bytes: Seq<u8>) -> Seq<char>
    decreases bytes.len(),
{
    if bytes.len() == 0 {
        Seq::<char>::empty()
    } else {
        enc_byte(bytes[0]) + spec_percent_encode(bytes.drop_first())
    }
}

/// Relies on `urlencoding::encode`: percent-encodes every byte of the
/// string's UTF-8 form except ASCII alphanumerics and `-`, `.`, `_`, `~`,
/// with upper-case hex digits.
#[verifier::external_body]
fn percent_encode(s: &str) -> (r: String)
    ensures
        r@ == spec_percent_encode(s.spec_bytes()),
{
    urlencoding::encode(s).into_owned()
}

/// The endpoint listing a directory of a server.
pub fn list_files_endpoint(server_id: &str, directory: &str) -> (r: String)
    ensures
        r@ == "servers/"@ + server_id@ + "/files/list?directory="@ + spec_percent_encode(
            encode_utf8(directory@),
        ),
{
    let mut v: Vec<char> = Vec::new();
    push_str_chars(&mut v, "servers/");
    push_str_chars(&mut v, server_id);
    push_str_chars(&mut v, "/files/list?directory=");
    let enc = percent_encode(directory);
    push_str_chars(&mut v, enc.as_str());
    string_from_chars(&v)
}

/// The endpoint reading a file of a server.
pub fn file_contents_endpoint(server_id: &str, file: &str) -> (r: String)
    ensures
        r@ == "servers/"@ + server_id@ + "/files/contents?file="@ + spec_percent_encode(
            encode_utf8(file@),
        ),
{
    let mut v: Vec<char> = Vec::new();
    push_str_chars(&mut v, "servers/");
    push_str_chars(&mut v, server_id);
    push_str_chars(&mut v, "/files/contents?file=");
    let enc = percent_encode(file);
    push_str_chars(&mut v, enc.as_str());
    string_from_chars(&v)
}

/// The endpoint producing a one-time download URL for a file of a server.
pub fn file_download_endpoint(server_id: &str, file: &str) -> (r: String)
    ensures
        r@ == "servers/"@ + server_id@ + "/files/download?file="@ + spec_percent_encode(
            encode_utf8(file@),
        ),
{
    let mut v: Vec<char> = Vec::new();
    push_str_chars(&mut v, "servers/");
    push_str_chars(&mut v, server_id);
    push_str_chars(&mut v, "/files/download?file=");
    let enc = percent_encode(file);
    push_str_chars(&mut v, enc.as_str());
    string_from_chars(&v)
}

/// The endpoint overwriting a file of a server.
pub fn write_file_endpoint(server_id: &str, file: &str) -> (r: String)
    ensures
        r@ == "servers/"@ + server_id@ + "/files/write?file="@ + spec_percent_encode(
            encode_utf8(file@),
        ),
{
    let mut v: Vec<char> = Vec::new();
    push_str_chars(&mut v, "servers/");
    push_str_chars(&mut v, server_id);
    push_str_chars(&mut v, "/files/write?file=");
    let enc = percent_encode(file);
    push_str_chars(&mut v, enc.as_str());
    string_from_chars(&v)
}

} // verus!
