//! Protocol-neutral capabilities, operation models and remote file metadata.

use vstd::prelude::*;

use crate::session::SessionProfile;
use crate::text::{
    chars_eq_str, chars_less, chars_of, decimal, decimal_string, last_index_in, last_index_of,
    lemma_last_index_of, lemma_seq_less_asymmetric, lemma_seq_less_irreflexive, lemma_seq_less_total, lemma_seq_less_transitive,
    push_range, seq_less, string_from_chars, trim_end_char, trim_end_len,
};

verus! {

broadcast use vstd::seq_lib::group_to_multiset_ensures;

/// Runtime protocol adapter kind.
#[derive(Clone, Copy, Debug, PartialEq, Eq, Structural)]
pub enum Protocol {
    Sftp,
    Scp,
    Ftp,
    Ftps,
    WebDav,
    S3,
    Local,
}

/// Capabilities advertised by a protocol adapter.
#[derive(Clone, Copy, Debug, PartialEq, Eq, Structural)]
pub struct ProtocolCapabilities {
    pub can_list: bool,
    pub can_upload: bool,
    pub can_download: bool,
    pub can_delete: bool,
    pub can_mkdir: bool,
    pub can_rename: bool,
    pub can_recursive_transfer: bool,
    pub can_resume_upload: bool,
    pub can_resume_download: bool,
    pub can_preserve_timestamps: bool,
    pub can_preserve_permissions: bool,
    pub can_chmod: bool,
    pub can_symlink: bool,
    pub can_hash: bool,
    pub can_server_side_copy: bool,
    pub supports_random_access: bool,
    pub uses_real_directories: bool,
    pub uses_object_prefixes: bool,
    pub requires_bucket: bool,
    pub supports_tls_policy: bool,
    pub supports_http_version_policy: bool,
}

/// No capability at all.
pub open spec fn no_capabilities() -> ProtocolCapabilities {
    ProtocolCapabilities {
        can_list: false,
        can_upload: false,
        can_download: false,
        can_delete: false,
        can_mkdir: false,
        can_rename: false,
        can_recursive_transfer: false,
        can_resume_upload: false,
        can_resume_download: false,
        can_preserve_timestamps: false,
        can_preserve_permissions: false,
        can_chmod: false,
        can_symlink: false,
        can_hash: false,
        can_server_side_copy: false,
        supports_random_access: false,
        uses_real_directories: false,
        uses_object_prefixes: false,
        requires_bucket: false,
        supports_tls_policy: false,
        supports_http_version_policy: false,
    }
}

/// SFTP: listing, transfers (recursive too), delete and mkdir over real
/// directories; no rename.
pub open spec fn sftp_capabilities() -> ProtocolCapabilities {
    ProtocolCapabilities {
        can_list: true,
        can_upload: true,
        can_download: true,
        can_delete: true,
        can_mkdir: true,
        can_recursive_transfer: true,
        uses_real_directories: true,
        ..no_capabilities()
    }
}

/// SCP: single-file upload and download only.
pub open spec fn scp_capabilities() -> ProtocolCapabilities {
    ProtocolCapabilities {
        can_upload: true,
        can_download: true,
        uses_real_directories: true,
        ..no_capabilities()
    }
}

/// FTP-like: listing, transfers, delete, mkdir and rename; TLS policy as given.
pub open spec fn ftp_like_capabilities(supports_tls_policy: bool) -> ProtocolCapabilities {
    ProtocolCapabilities {
        can_list: true,
        can_upload: true,
        can_download: true,
        can_delete: true,
        can_mkdir: true,
        can_rename: true,
        can_recursive_transfer: true,
        uses_real_directories: true,
        supports_tls_policy,
        ..no_capabilities()
    }
}

/// WebDAV: like FTP over TLS, with an HTTP version policy.
pub open spec fn webdav_capabilities() -> ProtocolCapabilities {
    ProtocolCapabilities { supports_http_version_policy: true, ..ftp_like_capabilities(true) }
}

/// S3: object prefixes in a bucket, server-side copy, TLS and HTTP policies.
pub open spec fn s3_capabilities() -> ProtocolCapabilities {
    ProtocolCapabilities {
        can_list: true,
        can_upload: true,
        can_download: true,
        can_delete: true,
        can_mkdir: true,
        can_rename: true,
        can_recursive_transfer: true,
        can_server_side_copy: true,
        uses_object_prefixes: true,
        requires_bucket: true,
        supports_tls_policy: true,
        supports_http_version_policy: true,
        ..no_capabilities()
    }
}

impl ProtocolCapabilities {
    pub fn sftp() -> (r: Self)
        ensures
            r == sftp_capabilities(),
    {
        ProtocolCapabilities {
            can_list: true,
            can_upload: true,
            can_download: true,
            can_delete: true,
            can_mkdir: true,
            can_recursive_transfer: true,
            uses_real_directories: true,
            ..Self::empty()
        }
    }

    pub fn scp_transfer_only() -> (r: Self)
        ensures
            r == scp_capabilities(),
    {
        ProtocolCapabilities {
            can_upload: true,
            can_download: true,
            can_recursive_transfer: false,
            uses_real_directories: true,
            ..Self::empty()
        }
    }

    pub fn ftp_like(supports_tls_policy: bool) -> (r: Self)
        ensures
            r == ftp_like_capabilities(supports_tls_policy),
    {
        ProtocolCapabilities {
            can_list: true,
            can_upload: true,
            can_download: true,
            can_delete: true,
            can_mkdir: true,
            can_rename: true,
            can_recursive_transfer: true,
            uses_real_directories: true,
            supports_tls_policy,
            ..Self::empty()
        }
    }

    pub fn webdav() -> (r: Self)
        ensures
            r == webdav_capabilities(),
    {
        ProtocolCapabilities {
            can_list: true,
            can_upload: true,
            can_download: true,
            can_delete: true,
            can_mkdir: true,
            can_rename: true,
            can_recursive_transfer: true,
            uses_real_directories: true,
            supports_tls_policy: true,
            supports_http_version_policy: true,
            ..Self::empty()
        }
    }

    pub fn s3() -> (r: Self)
        ensures
            r == s3_capabilities(),
    {
        ProtocolCapabilities {
            can_list: true,
            can_upload: true,
            can_download: true,
            can_delete: true,
            can_mkdir: true,
            can_rename: true,
            can_recursive_transfer: true,
            can_server_side_copy: true,
            uses_object_prefixes: true,
            requires_bucket: true,
            supports_tls_policy: true,
            supports_http_version_policy: true,
            ..Self::empty()
        }
    }

    pub fn empty() -> (r: Self)
        ensures
            r == no_capabilities(),
    {
        ProtocolCapabilities {
            can_list: false,
            can_upload: false,
            can_download: false,
            can_delete: false,
            can_mkdir: false,
            can_rename: false,
            can_recursive_transfer: false,
            can_resume_upload: false,
            can_resume_download: false,
            can_preserve_timestamps: false,
            can_preserve_permissions: false,
            can_chmod: false,
            can_symlink: false,
            can_hash: false,
            can_server_side_copy: false,
            supports_random_access: false,
            uses_real_directories: false,
            uses_object_prefixes: false,
            requires_bucket: false,
            supports_tls_policy: false,
            supports_http_version_policy: false,
        }
    }
}

impl Default for ProtocolCapabilities {
    fn default() -> (r: Self)
        ensures
            r == no_capabilities(),
    {
        Self::empty()
    }
}

/// Protocol-neutral error categories suitable for CLI/GUI routing.
#[derive(Clone, Copy, Debug, PartialEq, Eq, Structural)]
pub enum RemoteErrorKind {
    AuthFailed,
    NetworkUnreachable,
    Timeout,
    TlsCertificate,
    HostKeyTrust,
    PermissionDenied,
    NotFound,
    ConflictAlreadyExists,
    UnsupportedOperation,
    RateLimited,
    ServiceUnavailable,
    UnknownBackend,
}

/// Supported high-level remote operation kinds.
#[derive(Clone, Copy, Debug, PartialEq, Eq, Structural)]
pub enum RemoteOperation {
    List,
    Upload,
    Download,
    Mkdir,
    Delete,
    Rename,
    Capabilities,
}

/// Action to take when an upload target already exists.
#[derive(Clone, Copy, Debug, PartialEq, Eq, Structural)]
pub enum FileConflictPolicy {
    /// Keep the destination item and skip the conflicting source file.
    KeepExisting,
    /// Replace conflicting files and merge matching directories.
    Replace,
    /// Keep both items by adding an incrementing number to the new name.
    KeepBoth,
}

impl Default for FileConflictPolicy {
    fn default() -> (r: Self)
        ensures
            r == FileConflictPolicy::Replace,
    {
        FileConflictPolicy::Replace
    }
}

/// What an upload does with one destination under a conflict policy.
#[derive(Clone, Copy, Debug, PartialEq, Eq, Structural)]
pub enum ConflictStep {
    /// Write to the destination, replacing a file or merging into a directory.
    Write,
    /// Leave the destination as it is and skip the source.
    Skip,
    /// Write to the first numbered sibling of the destination that is free.
    Renumber,
}

/// A missing destination is written; an existing directory that receives a
/// directory is merged, so that only the conflicting files inside follow the
/// policy; an existing file is kept, replaced or kept beside a numbered copy.
pub open spec fn conflict_step_for(policy: FileConflictPolicy, destination_exists: bool, merge_directory: bool) -> ConflictStep {
    if !destination_exists || merge_directory {
        ConflictStep::Write
    } else {
        match policy {
            FileConflictPolicy::KeepExisting => ConflictStep::Skip,
            FileConflictPolicy::Replace => ConflictStep::Write,
            FileConflictPolicy::KeepBoth => ConflictStep::Renumber,
        }
    }
}

/// What to do with a destination under `policy`; `merge_directory` says that
/// a directory is uploaded onto an existing directory.
pub fn conflict_step(policy: FileConflictPolicy, destination_exists: bool, merge_directory: bool) -> (r: ConflictStep)
    ensures
        r == conflict_step_for(policy, destination_exists, merge_directory),
{
    if !destination_exists || merge_directory {
        ConflictStep::Write
    } else {
        match policy {
            FileConflictPolicy::KeepExisting => ConflictStep::Skip,
            FileConflictPolicy::Replace => ConflictStep::Write,
            FileConflictPolicy::KeepBoth => ConflictStep::Renumber,
        }
    }
}

/// The copy number to try after `copy_number` when keeping both items: none
/// when the candidate is free (it is used) or when the numbers are exhausted
/// (the last candidate is used); otherwise the next number.
pub fn next_copy_number(copy_number: u32, candidate_exists: bool) -> (r: Option<u32>)
    ensures
        r == (if !candidate_exists || copy_number == u32::MAX {
            None
        } else {
            Some((copy_number + 1) as u32)
        }),
{
    if !candidate_exists || copy_number == u32::MAX {
        None
    } else {
        Some(copy_number + 1)
    }
}

/// The suffix ` (n)` that numbers a copy.
pub open spec fn copy_suffix(n: nat) -> Seq<char> {
    seq![' ', '('] + decimal(n) + seq![')']
}

/// The copy number actually used: at least 1.
pub open spec fn effective_copy_number(copy_number: u32) -> nat {
    if copy_number < 1 {
        1
    } else {
        copy_number as nat
    }
}

/// A last path component with ` (n)` added: directly after a directory's
/// name, before the last extension of a file whose name has a non-empty stem,
/// and at the end otherwise.
pub open spec fn numbered_name(name: Seq<char>, n: nat, is_directory: bool) -> Seq<char> {
    let j = last_index_of(name, '.');
    if is_directory {
        name + copy_suffix(n)
    } else if j > 0 {
        name.take(j) + copy_suffix(n) + seq!['.'] + name.skip(j + 1)
    } else {
        name + copy_suffix(n)
    }
}

/// `path` with trailing slashes dropped, a lone `/` kept as it is.
pub open spec fn normalized_path(path: Seq<char>) -> Seq<char> {
    if path == seq!['/'] {
        path
    } else {
        trim_end_char(path, '/')
    }
}

/// The numbered sibling of `path` that keeps both items: the last component of
/// the normalized path is numbered and the parent part is kept.
pub open spec fn numbered_conflict(path: Seq<char>, copy_number: u32, is_directory: bool) -> Seq<char> {
    let norm = normalized_path(path);
    let i = last_index_of(norm, '/');
    let parent = if i < 0 {
        Seq::<char>::empty()
    } else {
        norm.take(i)
    };
    let name = if i < 0 {
        norm
    } else {
        norm.skip(i + 1)
    };
    let numbered = numbered_name(name, effective_copy_number(copy_number), is_directory);
    if parent.len() == 0 {
        if norm.len() > 0 && norm[0] == '/' {
            seq!['/'] + numbered
        } else {
            numbered
        }
    } else {
        parent + seq!['/'] + numbered
    }
}

fn copy_suffix_chars(n: u32) -> (r: Vec<char>)
    ensures
        r@ == copy_suffix(n as nat),
{
    let mut suffix: Vec<char> = Vec::new();
    suffix.push(' ');
    suffix.push('(');
    let digits = decimal_string(n as u64);
    let dv = chars_of(digits.as_str());
    push_range(&mut suffix, dv.as_slice(), 0, dv.len());
    suffix.push(')');
    assert(dv@.subrange(0, dv@.len() as int) =~= dv@);
    assert(suffix@ =~= copy_suffix(n as nat));
    suffix
}

fn numbered_name_chars(name: &[char], n: u32, is_directory: bool) -> (r: Vec<char>)
    ensures
        r@ == numbered_name(name@, n as nat, is_directory),
{
    let suffix = copy_suffix_chars(n);
    let dot = last_index_in(name, name.len(), '.');
    assert(name@.take(name@.len() as int) =~= name@);
    assert(name@.subrange(0, name@.len() as int) =~= name@);
    assert(suffix@.subrange(0, suffix@.len() as int) =~= suffix@);
    let mut numbered: Vec<char> = Vec::new();
    if is_directory {
        push_range(&mut numbered, name, 0, name.len());
        push_range(&mut numbered, suffix.as_slice(), 0, suffix.len());
    } else {
        match dot {
            Some(j) if j > 0 => {
                proof {
                    lemma_last_index_of(name@, '.');
                }
                push_range(&mut numbered, name, 0, j);
                push_range(&mut numbered, suffix.as_slice(), 0, suffix.len());
                numbered.push('.');
                push_range(&mut numbered, name, j + 1, name.len());
                assert(numbered@ =~= name@.take(j as int) + copy_suffix(n as nat) + seq!['.'] + name@.skip(j + 1));
            },
            _ => {
                push_range(&mut numbered, name, 0, name.len());
                push_range(&mut numbered, suffix.as_slice(), 0, suffix.len());
            },
        }
    }
    numbered
}

/// The length of the normalized form of `p`, a prefix of it.
fn normalized_len(p: &[char]) -> (r: usize)
    ensures
        r <= p.len(),
        p@.take(r as int) == normalized_path(p@),
{
    assert(p@.take(p@.len() as int) =~= p@);
    if chars_eq_str(p, "/") {
        proof {
            reveal_strlit("/");
            assert(p@ == seq!['/']);
        }
        p.len()
    } else {
        proof {
            reveal_strlit("/");
            if p@ == seq!['/'] {
                assert(p@ =~= "/"@);
            }
        }
        trim_end_len(p, p.len(), '/')
    }
}

/// Returns the numbered sibling path used by [`FileConflictPolicy::KeepBoth`]:
/// file extensions are kept (`report (1).pdf`), directory names are suffixed
/// directly (`photos (1)`).
pub fn numbered_conflict_path(path: &str, copy_number: u32, is_directory: bool) -> (r: String)
    ensures
        r@ == numbered_conflict(path@, copy_number, is_directory),
        is_directory ==> r@ == normalized_path(path@) + seq![' ', '('] + decimal(effective_copy_number(copy_number))
            + seq![')'],
{
    proof {
        lemma_numbered_conflict_shape(path@, copy_number, is_directory);
    }
    let n: u32 = if copy_number < 1 {
        1
    } else {
        copy_number
    };
    let pv = chars_of(path);
    let p = pv.as_slice();
    let norm_len = normalized_len(p);
    let ghost norm = p@.take(norm_len as int);
    proof {
        lemma_last_index_of(norm, '/');
    }
    let slash = last_index_in(p, norm_len, '/');
    let (parent_to, name_from): (usize, usize) = match slash {
        Some(i) => (i, i + 1),
        None => (0, 0),
    };
    let mut nm: Vec<char> = Vec::new();
    push_range(&mut nm, p, name_from, norm_len);
    assert(nm@ =~= (if last_index_of(norm, '/') < 0 {
        norm
    } else {
        norm.skip(last_index_of(norm, '/') + 1)
    }));
    let numbered = numbered_name_chars(nm.as_slice(), n, is_directory);
    let mut out: Vec<char> = Vec::new();
    if parent_to == 0 {
        if norm_len > 0 && p[0] == '/' {
            out.push('/');
        }
    } else {
        push_range(&mut out, p, 0, parent_to);
        out.push('/');
    }
    assert(parent_to == 0 <==> (if last_index_of(norm, '/') < 0 {
        Seq::<char>::empty()
    } else {
        norm.take(last_index_of(norm, '/'))
    }).len() == 0);
    push_range(&mut out, numbered.as_slice(), 0, numbered.len());
    assert(numbered@.subrange(0, numbered@.len() as int) =~= numbered@);
    assert(norm_len > 0 ==> norm[0] == p@[0]);
    assert(out@ =~= numbered_conflict(path@, copy_number, is_directory));
    string_from_chars(out.as_slice())
}

/// The text before and after the copy number in a numbered sibling of `path`;
/// neither depends on the number.
#[verifier::spinoff_prover]
#[verifier::rlimit(40)]
proof fn lemma_numbered_conflict_parts(path: Seq<char>, is_directory: bool) -> (r: (Seq<char>, Seq<char>))
    ensures
        forall|c: u32| #[trigger] numbered_conflict(path, c, is_directory) == r.0 + decimal(effective_copy_number(c)) + r.1,
        r.0.len() + r.1.len() == normalized_path(path).len() + 3,
{
    let norm = normalized_path(path);
    let i = last_index_of(norm, '/');
    lemma_last_index_of(norm, '/');
    let parent = if i < 0 {
        Seq::<char>::empty()
    } else {
        norm.take(i)
    };
    let name = if i < 0 {
        norm
    } else {
        norm.skip(i + 1)
    };
    let j = last_index_of(name, '.');
    lemma_last_index_of(name, '.');
    let lead = if parent.len() == 0 {
        if norm.len() > 0 && norm[0] == '/' {
            seq!['/']
        } else {
            Seq::<char>::empty()
        }
    } else {
        parent + seq!['/']
    };
    let stem = if !is_directory && j > 0 {
        name.take(j)
    } else {
        name
    };
    let ext = if !is_directory && j > 0 {
        seq!['.'] + name.skip(j + 1)
    } else {
        Seq::<char>::empty()
    };
    let head = lead + stem + seq![' ', '('];
    let tail = seq![')'] + ext;
    assert forall|c: u32| #[trigger] numbered_conflict(path, c, is_directory) == head + decimal(effective_copy_number(c)) + tail by {
        let n = effective_copy_number(c);
        assert(numbered_name(name, n, is_directory) =~= stem + copy_suffix(n) + ext);
        assert(numbered_conflict(path, c, is_directory) =~= head + decimal(n) + tail);
    }
    assert(lead.len() + name.len() == norm.len());
    (head, tail)
}

proof fn lemma_last_index_of_skip(s: Seq<char>, c: char, k: int)
    requires
        0 <= k <= s.len(),
    ensures
        last_index_of(s.skip(k), c) == (if last_index_of(s, c) >= k {
            last_index_of(s, c) - k
        } else {
            -1
        }),
{
    let t = s.skip(k);
    lemma_last_index_of(s, c);
    lemma_last_index_of(t, c);
    let l = last_index_of(s, c);
    let m = last_index_of(t, c);
    if l >= k {
        assert(t[l - k] == s[l]);
        if m > l - k {
            assert(t[m] == s[m + k]);
        }
    } else {
        if m >= 0 {
            assert(t[m] == s[m + k]);
        }
    }
}

/// The numbered sibling of a path: ` (n)` goes right before the last `.` of
/// the last component when that component is a file's name with a non-empty
/// stem, and at the end of the normalized path otherwise (a directory's name
/// is never split at a dot).
pub proof fn lemma_numbered_conflict_shape(path: Seq<char>, copy_number: u32, is_directory: bool)
    ensures
        ({
            let norm = normalized_path(path);
            let d = last_index_of(norm, '.');
            let i = last_index_of(norm, '/');
            let suffix = seq![' ', '('] + decimal(effective_copy_number(copy_number)) + seq![')'];
            if !is_directory && d > i + 1 {
                numbered_conflict(path, copy_number, is_directory) == norm.take(d) + suffix + norm.skip(d)
            } else {
                numbered_conflict(path, copy_number, is_directory) == norm + suffix
            }
        }),
{
    let norm = normalized_path(path);
    let d = last_index_of(norm, '.');
    let i = last_index_of(norm, '/');
    let n = effective_copy_number(copy_number);
    let suffix = seq![' ', '('] + decimal(n) + seq![')'];
    lemma_last_index_of(norm, '/');
    lemma_last_index_of(norm, '.');
    let parent = if i < 0 {
        Seq::<char>::empty()
    } else {
        norm.take(i)
    };
    let name = if i < 0 {
        norm
    } else {
        norm.skip(i + 1)
    };
    let lead = if parent.len() == 0 {
        if norm.len() > 0 && norm[0] == '/' {
            seq!['/']
        } else {
            Seq::<char>::empty()
        }
    } else {
        parent + seq!['/']
    };
    if i < 0 {
        if norm.len() > 0 {
            assert(norm[0] != '/');
        }
        assert(norm.skip(0) =~= norm);
        lemma_last_index_of_skip(norm, '.', 0);
    } else {
        lemma_last_index_of_skip(norm, '.', i + 1);
        if i == 0 {
            assert(lead =~= seq!['/']);
        }
    }
    assert(lead + name =~= norm);
    let j = last_index_of(name, '.');
    assert(j == (if d >= i + 1 {
        d - (i + 1)
    } else {
        -1
    }));
    assert(numbered_conflict(path, copy_number, is_directory) == lead + numbered_name(name, n, is_directory));
    if !is_directory && d > i + 1 {
        assert(j > 0);
        assert(numbered_name(name, n, is_directory) == name.take(j) + suffix + seq!['.'] + name.skip(j + 1));
        lemma_last_index_of(name, '.');
        assert(name[j] == '.');
        assert(lead + (name.take(j) + suffix + seq!['.'] + name.skip(j + 1)) =~= norm.take(d) + suffix + norm.skip(d));
    } else {
        assert(numbered_name(name, n, is_directory) == name + suffix);
        assert(lead + (name + suffix) =~= norm + suffix);
    }
}

/// A numbered sibling is never the path itself: it is longer by the copy
/// suffix ` (n)`.
pub proof fn lemma_numbered_conflict_is_new(path: Seq<char>, copy_number: u32, is_directory: bool)
    ensures
        numbered_conflict(path, copy_number, is_directory).len() == normalized_path(path).len() + copy_suffix(
            effective_copy_number(copy_number),
        ).len(),
        numbered_conflict(path, copy_number, is_directory) != normalized_path(path),
{
    let (head, tail) = lemma_numbered_conflict_parts(path, is_directory);
    assert(numbered_conflict(path, copy_number, is_directory) == head + decimal(effective_copy_number(copy_number)) + tail);
    crate::text::lemma_decimal_digits(effective_copy_number(copy_number));
}

/// Different copy numbers give different siblings, so counting up finds new
/// names.
pub proof fn lemma_numbered_conflicts_distinct(path: Seq<char>, a: u32, b: u32, is_directory: bool)
    requires
        effective_copy_number(a) != effective_copy_number(b),
    ensures
        numbered_conflict(path, a, is_directory) != numbered_conflict(path, b, is_directory),
{
    let (head, tail) = lemma_numbered_conflict_parts(path, is_directory);
    let da = decimal(effective_copy_number(a));
    let db = decimal(effective_copy_number(b));
    assert(numbered_conflict(path, a, is_directory) == head + da + tail);
    assert(numbered_conflict(path, b, is_directory) == head + db + tail);
    crate::text::lemma_decimal_digits(effective_copy_number(a));
    crate::text::lemma_decimal_digits(effective_copy_number(b));
    if head + da + tail == head + db + tail {
        let x = head + da + tail;
        assert(da.len() == db.len());
        assert(x.subrange(head.len() as int, (head.len() + da.len()) as int) =~= da);
        assert((head + db + tail).subrange(head.len() as int, (head.len() + db.len()) as int) =~= db);
        assert(da == db);
    }
}

#[derive(Clone, Debug, PartialEq, Eq)]
pub struct RemoteListRequest {
    pub path: String,
}

#[derive(Clone, Debug, PartialEq, Eq)]
pub struct RemoteTransferRequest {
    pub local_path: String,
    pub remote_path: String,
}

#[derive(Clone, Debug, PartialEq, Eq)]
pub struct RemoteMkdirRequest {
    pub remote_path: String,
    pub create_parents: bool,
}

#[derive(Clone, Debug, PartialEq, Eq)]
pub struct RemoteDeleteRequest {
    pub remote_path: String,
    pub recursive: bool,
}

#[derive(Clone, Debug, PartialEq, Eq)]
pub struct RemoteRenameRequest {
    pub from: String,
    pub to: String,
    pub overwrite: bool,
}

#[derive(Clone, Debug, PartialEq, Eq)]
pub enum RemoteOperationResult {
    Entries(Vec<RemoteFile>),
    Transferred { bytes_done: u64, bytes_total: Option<u64> },
    Completed,
    Capabilities(ProtocolCapabilities),
}

#[derive(Clone, Debug, PartialEq, Eq)]
pub enum RemoteProgressEvent {
    Started { operation: RemoteOperation },
    Bytes { done: u64, total: Option<u64> },
    CurrentFile { path: String },
    Completed,
    Failed { kind: RemoteErrorKind, message: String },
    Cancelled,
}

/// Minimal protocol-neutral remote file model.
#[derive(Clone, Debug, PartialEq, Eq)]
pub struct RemoteFile {
    pub path: String,
    pub name: String,
    pub size: Option<u64>,
    pub is_directory: bool,
    pub is_symlink: bool,
    pub permissions: Option<String>,
}

/// Options for creating a directory.
#[derive(Clone, Copy, Debug, Default, PartialEq, Eq, Structural)]
pub struct CreateDirectoryOptions {
    pub create_parents: bool,
}

/// Options for removing files and directories.
#[derive(Clone, Copy, Debug, Default, PartialEq, Eq, Structural)]
pub struct RemoveOptions {
    pub recursive: bool,
}

/// Options for renaming or moving files.
#[derive(Clone, Copy, Debug, Default, PartialEq, Eq, Structural)]
pub struct RenameOptions {
    pub overwrite: bool,
}

/// Synchronous remote file system that protocol adapters provide.
pub trait RemoteFileSystem {
    type Error;

    fn connect(&mut self, profile: &SessionProfile) -> Result<(), Self::Error>;

    fn disconnect(&mut self) -> Result<(), Self::Error>;

    fn list_directory(&self, path: &str) -> Result<Vec<RemoteFile>, Self::Error>;

    fn create_directory(&self, path: &str, options: CreateDirectoryOptions) -> Result<(), Self::Error>;

    fn remove(&self, path: &str, options: RemoveOptions) -> Result<(), Self::Error>;

    fn rename(&self, from: &str, to: &str, options: RenameOptions) -> Result<(), Self::Error>;

    fn capabilities(&self) -> ProtocolCapabilities;
}

/// An entry of a directory listing, ordered by its name.
pub trait NamedEntry: Sized {
    spec fn entry_name(&self) -> Seq<char>;

    fn name_text(&self) -> (r: &str)
        ensures
            r@ == self.entry_name(),
    ;
}

impl NamedEntry for RemoteFile {
    open spec fn entry_name(&self) -> Seq<char> {
        self.name@
    }

    fn name_text(&self) -> (r: &str) {
        self.name.as_str()
    }
}

/// `a` does not come after `b` in name order.
pub open spec fn name_le<E: NamedEntry>(a: E, b: E) -> bool {
    !seq_less(b.entry_name(), a.entry_name())
}

/// Holds of the entries named `n`.
pub open spec fn name_is<E: NamedEntry>(n: Seq<char>) -> spec_fn(E) -> bool {
    |e: E| e.entry_name() == n
}

/// The entries of `s` named `n`, in their order in `s`.
pub open spec fn named<E: NamedEntry>(s: Seq<E>, n: Seq<char>) -> Seq<E> {
    s.filter(name_is::<E>(n))
}

proof fn lemma_named_single<E: NamedEntry>(e: E, n: Seq<char>)
    ensures
        named(seq![e], n) == if e.entry_name() == n {
            seq![e]
        } else {
            Seq::<E>::empty()
        },
{
    reveal(Seq::filter);
    assert(seq![e] =~= Seq::<E>::empty().push(e));
    Seq::<E>::empty().lemma_filter_push(e, name_is::<E>(n));
    assert(Seq::<E>::empty().filter(name_is::<E>(n)) =~= Seq::<E>::empty());
}

/// Inserting `e` where nothing after it shares its name adds it at the end of
/// the entries of its name and leaves the others alone.
proof fn lemma_named_insert<E: NamedEntry>(o: Seq<E>, p: int, e: E, n: Seq<char>)
    requires
        0 <= p <= o.len(),
        forall|k: int| p <= k < o.len() ==> (#[trigger] o[k]).entry_name() != e.entry_name(),
    ensures
        named(o.insert(p, e), n) == if e.entry_name() == n {
            named(o, n).push(e)
        } else {
            named(o, n)
        },
{
    let f = name_is::<E>(n);
    let a = o.take(p);
    let b = o.skip(p);
    assert(o.insert(p, e) =~= a + seq![e] + b);
    assert(o =~= a + b);
    Seq::filter_distributes_over_add(a + seq![e], b, f);
    Seq::filter_distributes_over_add(a, seq![e], f);
    Seq::filter_distributes_over_add(a, b, f);
    lemma_named_single(e, n);
    if e.entry_name() == n {
        assert forall|k: int| 0 <= k < b.len() implies !f(#[trigger] b[k]) by {
            assert(b[k] == o[p + k]);
        }
        b.lemma_all_neg_filter_empty(f);
        assert(b.filter(f) =~= Seq::<E>::empty());
        assert(named(o.insert(p, e), n) =~= named(o, n).push(e));
    } else {
        assert(named(o.insert(p, e), n) =~= named(o, n));
    }
}

/// The entries of a listing, ordered by name; entries with equal names keep
/// their order.
pub fn sort_by_name<E: NamedEntry>(entries: Vec<E>) -> (r: Vec<E>)
    ensures
        r@.to_multiset() == entries@.to_multiset(),
        forall|i: int, j: int| 0 <= i < j < r@.len() ==> name_le(#[trigger] r@[i], #[trigger] r@[j]),
        forall|n: Seq<char>| #[trigger] named(r@, n) == named(entries@, n),
{
    let mut rest = entries;
    let mut out: Vec<E> = Vec::new();
    proof {
        assert forall|n: Seq<char>| #[trigger] named(out@, n) + named(rest@, n) == named(entries@, n) by {
            reveal(Seq::filter);
            assert(named(out@, n) =~= Seq::<E>::empty());
            assert(named(out@, n) + named(rest@, n) =~= named(rest@, n));
        }
    }
    while rest.len() > 0
        invariant
            rest@.to_multiset().add(out@.to_multiset()) == entries@.to_multiset(),
            forall|i: int, j: int| 0 <= i < j < out@.len() ==> name_le(#[trigger] out@[i], #[trigger] out@[j]),
            forall|n: Seq<char>| #[trigger] named(out@, n) + named(rest@, n) == named(entries@, n),
        decreases rest@.len(),
    {
        let ghost r0 = rest@;
        let e = rest.remove(0);
        let ec = chars_of(e.name_text());
        let mut p: usize = 0;
        while p < out.len() && !chars_less(ec.as_slice(), chars_of(out[p].name_text()).as_slice())
            invariant
                p <= out@.len(),
                ec@ == e.entry_name(),
                forall|k: int| 0 <= k < p ==> name_le(#[trigger] out@[k], e),
            decreases out@.len() - p,
        {
            p = p + 1;
        }
        let ghost o0 = out@;
        proof {
            assert forall|k: int| p <= k < o0.len() implies (#[trigger] o0[k]).entry_name() != e.entry_name() by {
                assert(seq_less(e.entry_name(), o0[p as int].entry_name()));
                if k > p {
                    assert(name_le(o0[p as int], o0[k]));
                    lemma_seq_less_total(o0[p as int].entry_name(), o0[k].entry_name());
                    if seq_less(o0[p as int].entry_name(), o0[k].entry_name()) {
                        lemma_seq_less_transitive(e.entry_name(), o0[p as int].entry_name(), o0[k].entry_name());
                    }
                }
                lemma_seq_less_irreflexive(e.entry_name());
            }
            assert(r0 =~= seq![e] + r0.remove(0));
            assert forall|n: Seq<char>| #[trigger] named(o0.insert(p as int, e), n) + named(r0.remove(0), n) == named(entries@, n) by {
                lemma_named_insert(o0, p as int, e, n);
                lemma_named_single(e, n);
                Seq::filter_distributes_over_add(seq![e], r0.remove(0), name_is::<E>(n));
                assert(named(o0, n) + named(r0, n) == named(entries@, n));
                if e.entry_name() == n {
                    assert(named(o0.insert(p as int, e), n) + named(r0.remove(0), n) =~= named(o0, n) + named(r0, n));
                } else {
                    assert(named(o0.insert(p as int, e), n) + named(r0.remove(0), n) =~= named(o0, n) + named(r0, n));
                }
            }
        }
        out.insert(p, e);
        proof {
            assert(out@ == o0.insert(p as int, e));
            assert forall|i: int, j: int| 0 <= i < j < out@.len() implies name_le(#[trigger] out@[i], #[trigger] out@[j]) by {
                if j < p {
                    assert(out@[i] == o0[i] && out@[j] == o0[j]);
                } else if j == p {
                    assert(out@[i] == o0[i]);
                } else if i == p {
                    assert(out@[j] == o0[j - 1]);
                    assert(seq_less(e.entry_name(), o0[p as int].entry_name()));
                    if j - 1 > p {
                        assert(name_le(o0[p as int], o0[j - 1]));
                    }
                    lemma_seq_less_total(e.entry_name(), o0[j - 1].entry_name());
                    if seq_less(o0[j - 1].entry_name(), e.entry_name()) {
                        lemma_seq_less_total(o0[p as int].entry_name(), o0[j - 1].entry_name());
                        if j - 1 > p {
                            if seq_less(o0[p as int].entry_name(), o0[j - 1].entry_name()) {
                                lemma_seq_less_transitive(e.entry_name(), o0[p as int].entry_name(), o0[j - 1].entry_name());
                                lemma_seq_less_asymmetric(e.entry_name(), o0[j - 1].entry_name());
                            } else {
                                lemma_seq_less_asymmetric(e.entry_name(), o0[p as int].entry_name());
                            }
                        } else {
                            lemma_seq_less_asymmetric(e.entry_name(), o0[p as int].entry_name());
                        }
                    }
                } else if i < p {
                    assert(out@[i] == o0[i] && out@[j] == o0[j - 1]);
                } else {
                    assert(out@[i] == o0[i - 1] && out@[j] == o0[j - 1]);
                }
            }
            assert(rest@ == r0.remove(0));
            assert(r0.remove(0).to_multiset() == r0.to_multiset().remove(r0[0]));
            assert(o0.insert(p as int, e).to_multiset() == o0.to_multiset().insert(e));
            assert(rest@.to_multiset().add(out@.to_multiset()) =~= r0.to_multiset().add(o0.to_multiset()));
        }
    }
    proof {
        assert(rest@ =~= Seq::<E>::empty());
        assert forall|n: Seq<char>| #[trigger] named(out@, n) == named(entries@, n) by {
            reveal(Seq::filter);
            assert(named(rest@, n) =~= Seq::<E>::empty());
            assert(named(out@, n) + named(rest@, n) =~= named(out@, n));
        }
        assert(rest@.to_multiset() =~= vstd::multiset::Multiset::<E>::empty());
        assert(out@.to_multiset() =~= rest@.to_multiset().add(out@.to_multiset()));
    }
    out
}


} // verus!
