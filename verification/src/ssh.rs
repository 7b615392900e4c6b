//! The decisions of the libssh2-based backends: remote and local path
//! arithmetic, permission bits, the authentication plan, and the deletion
//! guard. The network and file work itself stays with the caller.

use vstd::prelude::*;

use crate::security::CredentialSecret;
use crate::text::{
    chars_eq_str, chars_of, last_index_in, last_index_of, lemma_last_index_of, push_range,
    split_chars, split_on, string_from_chars, trim, trim_chars, trim_end_char, trim_end_len,
    is_blank, blank, seqs_view,
};

verus! {

/// The file-type bits of a POSIX mode.
pub open spec fn file_type_bits(perm: u32) -> u32 {
    perm & 0o170000u32
}

/// Whether a POSIX mode describes a directory.
pub fn is_directory_perm(perm: u32) -> (r: bool)
    ensures
        r == (file_type_bits(perm) == 0o040000u32),
{
    (perm & 0o170000u32) == 0o040000u32
}

/// Whether a POSIX mode describes a symbolic link.
pub fn is_symlink_perm(perm: u32) -> (r: bool)
    ensures
        r == (file_type_bits(perm) == 0o120000u32),
{
    (perm & 0o170000u32) == 0o120000u32
}

/// `parent` and `child` joined by one slash: trailing slashes of the parent
/// are dropped first.
pub open spec fn joined(parent: Seq<char>, child: Seq<char>) -> Seq<char> {
    trim_end_char(parent, '/').push('/') + child
}

/// Appends the characters of `s` to `out`.
fn push_all(out: &mut Vec<char>, s: &[char])
    ensures
        final(out)@ == old(out)@ + s@,
{
    push_range(out, s, 0, s.len());
    assert(s@.subrange(0, s@.len() as int) =~= s@);
}

/// Joins a remote parent path and a child name.
pub fn remote_join(parent: &str, child: &str) -> (r: String)
    ensures
        r@ == joined(parent@, child@),
{
    let p = chars_of(parent);
    let c = chars_of(child);
    let n = trim_end_len(p.as_slice(), p.len(), '/');
    assert(p@.take(p.len() as int) =~= p@);
    let mut out: Vec<char> = Vec::new();
    push_range(&mut out, p.as_slice(), 0, n);
    assert(p@.subrange(0, n as int) =~= p@.take(n as int));
    out.push('/');
    push_all(&mut out, c.as_slice());
    assert(out@ =~= joined(parent@, child@));
    string_from_chars(out.as_slice())
}

/// The remote path of a directory entry named `name` under `parent`: the
/// name alone when the parent is blank or `.`, else the two joined.
pub open spec fn child_path(parent: Seq<char>, name: Seq<char>) -> Seq<char> {
    let p = trim(parent);
    if p.len() == 0 || p == "."@ {
        name
    } else {
        joined(p, name)
    }
}

/// The remote path of the entry `name` listed under `parent`.
pub fn remote_child_path(parent: &str, name: &str) -> (r: String)
    ensures
        r@ == child_path(parent@, name@),
{
    let pc = chars_of(parent);
    let p = trim_chars(pc.as_slice());
    if p.len() == 0 || chars_eq_str(p.as_slice(), ".") {
        return name.to_owned();
    }
    let ps = string_from_chars(p.as_slice());
    remote_join(ps.as_str(), name)
}

/// The last segment of a remote path, trailing slashes ignored; `download`
/// when there is none.
pub open spec fn basename_of(path: Seq<char>) -> Seq<char> {
    let t = trim_end_char(path, '/');
    let seg = t.skip(last_index_of(t, '/') + 1);
    if seg.len() == 0 {
        "download"@
    } else {
        seg
    }
}

/// The name a downloaded directory gets locally.
pub fn remote_basename(remote_path: &str) -> (r: String)
    ensures
        r@ == basename_of(remote_path@),
{
    let p = chars_of(remote_path);
    let n = trim_end_len(p.as_slice(), p.len(), '/');
    assert(p@.take(p.len() as int) =~= p@);
    let ghost t = p@.take(n as int);
    proof {
        lemma_last_index_of(t, '/');
    }
    let start: usize = match last_index_in(p.as_slice(), n, '/') {
        Some(i) => i + 1,
        None => 0,
    };
    let mut out: Vec<char> = Vec::new();
    push_range(&mut out, p.as_slice(), start, n);
    assert(out@ =~= t.skip(last_index_of(t, '/') + 1));
    if out.len() == 0 {
        String::from_str("download")
    } else {
        string_from_chars(out.as_slice())
    }
}

/// The last component of a path among `segs` (its pieces between slashes),
/// empty pieces and `.` passed over, as `Path::components` reads it.
pub open spec fn last_component(segs: Seq<Seq<char>>) -> Option<Seq<char>>
    decreases segs.len(),
{
    if segs.len() == 0 {
        None
    } else if segs.last().len() == 0 || segs.last() == "."@ {
        last_component(segs.drop_last())
    } else {
        Some(segs.last())
    }
}

/// The final name of a path, as `Path::file_name` gives it on Unix: the last
/// component, unless there is none or it is `..`.
pub open spec fn file_name_of(path: Seq<char>) -> Option<Seq<char>> {
    match last_component(split_on(path, '/')) {
        None => None,
        Some(c) => if c == ".."@ {
            None
        } else {
            Some(c)
        },
    }
}

/// The final name of a local path.
pub fn path_file_name(path: &str) -> (r: Option<String>)
    ensures
        match r {
            Some(n) => file_name_of(path@) == Some(n@),
            None => file_name_of(path@) is None,
        },
{
    let p = chars_of(path);
    let segs = split_chars(p.as_slice(), '/');
    let ghost sv = seqs_view(segs@);
    assert(sv == split_on(path@, '/'));
    let mut n = segs.len();
    assert(sv.take(n as int) =~= sv);
    while n > 0 && (segs[n - 1].len() == 0 || chars_eq_str(segs[n - 1].as_slice(), "."))
        invariant
            n <= segs.len(),
            sv == seqs_view(segs@),
            last_component(sv) == last_component(sv.take(n as int)),
        decreases n,
    {
        assert(sv.take(n as int).last() == segs@[n - 1]@);
        assert(sv.take(n as int).drop_last() =~= sv.take(n - 1));
        n = n - 1;
    }
    if n == 0 {
        return None;
    }
    let last = segs[n - 1].as_slice();
    assert(sv.take(n as int).last() == last@);
    if chars_eq_str(last, "..") {
        None
    } else {
        Some(string_from_chars(last))
    }
}

/// Where an upload of `local_path` to `remote_path` lands: the local file
/// name (or `upload.bin`) alone for a blank or `.` remote path, appended to a
/// remote path that ends in a slash or names an existing directory, and the
/// remote path itself otherwise.
pub open spec fn upload_destination(local_path: Seq<char>, remote_path: Seq<char>, remote_is_directory: bool) -> Seq<char> {
    let r = trim(remote_path);
    let name = match file_name_of(local_path) {
        Some(n) => n,
        None => "upload.bin"@,
    };
    if r.len() == 0 || r == "."@ {
        name
    } else if r.last() == '/' {
        r + name
    } else if remote_is_directory {
        r.push('/') + name
    } else {
        r
    }
}

/// Where an upload lands; `remote_is_directory` says whether the trimmed
/// remote path names an existing remote directory, and is consulted only
/// when the path neither is blank or `.` nor ends in a slash.
pub fn resolve_upload_destination(local_path: &str, remote_path: &str, remote_is_directory: bool) -> (r: String)
    ensures
        r@ == upload_destination(local_path@, remote_path@, remote_is_directory),
{
    let rc = chars_of(remote_path);
    let r = trim_chars(rc.as_slice());
    let name = match path_file_name(local_path) {
        Some(n) => n,
        None => String::from_str("upload.bin"),
    };
    if r.len() == 0 || chars_eq_str(r.as_slice(), ".") {
        return name;
    }
    let nc = chars_of(name.as_str());
    if r[r.len() - 1] == '/' {
        let mut out = r.clone();
        push_all(&mut out, nc.as_slice());
        return string_from_chars(out.as_slice());
    }
    if remote_is_directory {
        let mut out = r.clone();
        out.push('/');
        push_all(&mut out, nc.as_slice());
        string_from_chars(out.as_slice())
    } else {
        string_from_chars(r.as_slice())
    }
}

/// `name` joined under the local directory `base`, as `Path::join` joins a
/// relative name on Unix.
pub open spec fn local_join(base: Seq<char>, name: Seq<char>) -> Seq<char> {
    if base.len() == 0 {
        name
    } else if base.last() == '/' {
        base + name
    } else {
        base.push('/') + name
    }
}

/// Where a downloaded remote directory goes: inside the local path when that
/// is an existing directory, else at the local path itself.
pub open spec fn download_directory_destination(remote_path: Seq<char>, local_path: Seq<char>, local_is_directory: bool) -> Seq<char> {
    if local_is_directory {
        local_join(local_path, basename_of(remote_path))
    } else {
        local_path
    }
}

/// Where a downloaded remote directory goes; `local_is_directory` says
/// whether the local path is an existing directory.
pub fn resolve_download_directory_destination(remote_path: &str, local_path: &str, local_is_directory: bool) -> (r: String)
    ensures
        r@ == download_directory_destination(remote_path@, local_path@, local_is_directory),
{
    if !local_is_directory {
        return local_path.to_owned();
    }
    let name = remote_basename(remote_path);
    let nc = chars_of(name.as_str());
    let mut out = chars_of(local_path);
    if out.len() == 0 {
        return name;
    }
    if out[out.len() - 1] != '/' {
        out.push('/');
    }
    push_all(&mut out, nc.as_slice());
    string_from_chars(out.as_slice())
}

/// The directory made after `current` when the next piece is `part`: a
/// leading slash is kept for an absolute path.
pub open spec fn next_prefix(current: Seq<char>, part: Seq<char>, absolute: bool) -> Seq<char> {
    if current.len() == 0 {
        if absolute {
            seq!['/'] + part
        } else {
            part
        }
    } else {
        joined(current, part)
    }
}

/// The directories from `current` on, one per non-empty piece of `parts`.
pub open spec fn prefixes_from(parts: Seq<Seq<char>>, current: Seq<char>, absolute: bool) -> Seq<Seq<char>>
    decreases parts.len(),
{
    if parts.len() == 0 {
        Seq::empty()
    } else if parts[0].len() == 0 {
        prefixes_from(parts.drop_first(), current, absolute)
    } else {
        let n = next_prefix(current, parts[0], absolute);
        seq![n] + prefixes_from(parts.drop_first(), n, absolute)
    }
}

/// The directories that creating `path` with all its parents walks through,
/// outermost first.
pub open spec fn directory_prefixes(path: Seq<char>) -> Seq<Seq<char>> {
    prefixes_from(split_on(path, '/'), Seq::empty(), path.len() > 0 && path[0] == '/')
}

/// The directories to create, outermost first, so that `remote_path` exists.
pub fn remote_directory_prefixes(remote_path: &str) -> (r: Vec<String>)
    ensures
        r@.map_values(|s: String| s@) == directory_prefixes(remote_path@),
{
    let p = chars_of(remote_path);
    let absolute = p.len() > 0 && p[0] == '/';
    let parts = split_chars(p.as_slice(), '/');
    let ghost pv = seqs_view(parts@);
    let mut out: Vec<String> = Vec::new();
    let mut current = String::new();
    let mut i: usize = 0;
    assert(pv.skip(0) =~= pv);
    while i < parts.len()
        invariant
            i <= parts.len(),
            pv == seqs_view(parts@),
            pv == split_on(remote_path@, '/'),
            absolute == (remote_path@.len() > 0 && remote_path@[0] == '/'),
            (out.len() == 0) == (current@.len() == 0),
            directory_prefixes(remote_path@) == out@.map_values(|s: String| s@) + prefixes_from(
                pv.skip(i as int),
                current@,
                absolute,
            ),
        decreases parts.len() - i,
    {
        let part = parts[i].as_slice();
        let ghost rest = pv.skip(i as int);
        assert(rest[0] == part@);
        assert(rest.drop_first() =~= pv.skip(i + 1));
        if part.len() > 0 {
            let ps = string_from_chars(part);
            let next = if out.len() == 0 {
                if absolute {
                    let mut s = String::from_str("/");
                    crate::text::push_str(&mut s, ps.as_str());
                    s
                } else {
                    ps
                }
            } else {
                remote_join(current.as_str(), ps.as_str())
            };
            proof {
                reveal_strlit("/");
                assert(next@ == next_prefix(current@, part@, absolute));
            }
            let ghost before = out@;
            out.push(next.clone());
            assert(out@.map_values(|s: String| s@) =~= before.map_values(|s: String| s@).push(next@));
            current = next;
            assert(directory_prefixes(remote_path@) == out@.map_values(|s: String| s@) + prefixes_from(
                pv.skip(i + 1),
                current@,
                absolute,
            ));
        }
        i = i + 1;
    }
    assert(pv.skip(parts.len() as int) =~= Seq::<Seq<char>>::empty());
    assert(out@.map_values(|s: String| s@) + Seq::<Seq<char>>::empty() =~= out@.map_values(|s: String| s@));
    out
}

/// Deletion is refused for a blank path and for the remote root.
pub open spec fn deletion_refused(path: Seq<char>) -> bool {
    is_blank(path) || path == "/"@
}

/// Whether a recursive remote delete of `remote_path` must be refused.
pub fn refuses_deletion(remote_path: &str) -> (r: bool)
    ensures
        r == deletion_refused(remote_path@),
{
    if blank(remote_path) {
        return true;
    }
    let p = chars_of(remote_path);
    chars_eq_str(p.as_slice(), "/")
}

/// How to authenticate an SSH session.
#[derive(Debug)]
pub enum SshAuthPlan {
    Password { username: String, password: String },
    PrivateKeyFile { username: String, private_key_path: String, passphrase: Option<String> },
}

/// Why no SSH authentication can be attempted.
#[derive(Clone, Copy, Debug, PartialEq, Eq, Structural)]
pub enum SshAuthRefusal {
    MissingUsername,
    UnsupportedSecret,
}

/// An authentication plan, its texts taken as character sequences.
pub enum PlanView {
    Password { username: Seq<char>, password: Seq<char> },
    PrivateKeyFile { username: Seq<char>, private_key_path: Seq<char>, passphrase: Option<Seq<char>> },
}

impl View for SshAuthPlan {
    type V = PlanView;

    open spec fn view(&self) -> PlanView {
        match self {
            SshAuthPlan::Password { username, password } => PlanView::Password {
                username: username@,
                password: password@,
            },
            SshAuthPlan::PrivateKeyFile { username, private_key_path, passphrase } => PlanView::PrivateKeyFile {
                username: username@,
                private_key_path: private_key_path@,
                passphrase: crate::config::opt_view(*passphrase),
            },
        }
    }
}

/// The user name to log in with: the one of the credential, else the one of
/// the profile.
pub open spec fn login_name(auth_username: Option<String>, config_username: Option<String>) -> Option<Seq<char>> {
    match auth_username {
        Some(u) => Some(u@),
        None => crate::config::opt_view(config_username),
    }
}

/// The authentication to attempt: a password, or a private-key file with its
/// optional passphrase, for the login name. A missing login name is refused
/// first; other kinds of secret are refused.
pub open spec fn planned_auth(
    auth_username: Option<String>,
    config_username: Option<String>,
    secret: CredentialSecret,
) -> Result<PlanView, SshAuthRefusal> {
    match login_name(auth_username, config_username) {
        None => Err(SshAuthRefusal::MissingUsername),
        Some(u) => match secret {
            CredentialSecret::Password(p) => Ok(PlanView::Password { username: u, password: p@ }),
            CredentialSecret::PrivateKey { private_key_path, passphrase } => Ok(
                PlanView::PrivateKeyFile {
                    username: u,
                    private_key_path: private_key_path@,
                    passphrase: match passphrase {
                        Some(q) => Some(q@),
                        None => None,
                    },
                },
            ),
            _ => Err(SshAuthRefusal::UnsupportedSecret),
        },
    }
}

/// The authentication plan for a credential and a profile user name.
pub fn plan_ssh_auth(
    auth_username: &Option<String>,
    config_username: &Option<String>,
    secret: &CredentialSecret,
) -> (r: Result<SshAuthPlan, SshAuthRefusal>)
    ensures
        match r {
            Ok(p) => planned_auth(*auth_username, *config_username, *secret) == Ok::<PlanView, SshAuthRefusal>(p@),
            Err(e) => planned_auth(*auth_username, *config_username, *secret) == Err::<PlanView, SshAuthRefusal>(e),
        },
{
    let username = match auth_username {
        Some(u) => u.clone(),
        None => match config_username {
            Some(u) => u.clone(),
            None => return Err(SshAuthRefusal::MissingUsername),
        },
    };
    match secret {
        CredentialSecret::Password(p) => Ok(SshAuthPlan::Password { username, password: p.expose().to_owned() }),
        CredentialSecret::PrivateKey { private_key_path, passphrase } => Ok(
            SshAuthPlan::PrivateKeyFile {
                username,
                private_key_path: private_key_path.clone(),
                passphrase: match passphrase {
                    Some(s) => Some(s.expose().to_owned()),
                    None => None,
                },
            },
        ),
        _ => Err(SshAuthRefusal::UnsupportedSecret),
    }
}

/// Whether a remote path refers to the home directory: blank, `.`, `~`, or
/// under `~/`.
pub open spec fn refers_to_home(path: Seq<char>) -> bool {
    let t = trim(path);
    t.len() == 0 || t == "."@ || t == "~"@ || (t.len() >= 2 && t[0] == '~' && t[1] == '/')
}

/// A remote path as the backend uses it: trimmed; blank, `.` and `~` stand
/// for the home directory, and `~/rest` for `rest` under it.
pub open spec fn normalized_remote(path: Seq<char>, home: Seq<char>) -> Seq<char> {
    let t = trim(path);
    if t.len() == 0 || t == "."@ || t == "~"@ {
        home
    } else if t.len() >= 2 && t[0] == '~' && t[1] == '/' {
        joined(home, t.skip(2))
    } else {
        t
    }
}

/// Whether normalizing `path` needs the remote home directory.
pub fn needs_home_directory(path: &str) -> (r: bool)
    ensures
        r == refers_to_home(path@),
{
    let pc = chars_of(path);
    let t = trim_chars(pc.as_slice());
    t.len() == 0 || chars_eq_str(t.as_slice(), ".") || chars_eq_str(t.as_slice(), "~") || (t.len() >= 2 && t[0] == '~'
        && t[1] == '/')
}

/// The remote path the backend uses for `path`; `home` is the remote home
/// directory, consulted only when the path refers to it.
pub fn normalize_remote_path(path: &str, home: &str) -> (r: String)
    ensures
        r@ == normalized_remote(path@, home@),
{
    let pc = chars_of(path);
    let t = trim_chars(pc.as_slice());
    if t.len() == 0 || chars_eq_str(t.as_slice(), ".") || chars_eq_str(t.as_slice(), "~") {
        return home.to_owned();
    }
    if t.len() >= 2 && t[0] == '~' && t[1] == '/' {
        let mut rest: Vec<char> = Vec::new();
        push_range(&mut rest, t.as_slice(), 2, t.len());
        assert(rest@ =~= t@.skip(2));
        let rs = string_from_chars(rest.as_slice());
        return remote_join(home, rs.as_str());
    }
    string_from_chars(t.as_slice())
}

/// The name of a listed entry: its final path component, or the whole path
/// when it has none.
pub fn entry_name(path: &str) -> (r: String)
    ensures
        r@ == match file_name_of(path@) {
            Some(n) => n,
            None => path@,
        },
{
    match path_file_name(path) {
        Some(n) => n,
        None => path.to_owned(),
    }
}

/// Whether a listed name is `.` or `..`, the entries a listing leaves out.
pub fn is_dot_entry(name: &str) -> (r: bool)
    ensures
        r == (name@ == "."@ || name@ == ".."@),
{
    let n = chars_of(name);
    chars_eq_str(n.as_slice(), ".") || chars_eq_str(n.as_slice(), "..")
}

} // verus!
