//! Session profile persistence: the store contract, an in-memory store, and
//! the tab-separated line format of the session file.

use vstd::prelude::*;

use crate::session::{clone_opt_string, SessionProfile, SessionProtocol};
use crate::table::{SortedTable, TableEntry};
use crate::text::{
    all_digits, is_digit, is_white_space, lemma_decimal_digits, lemma_parse_decimal,
    lemma_split_append_plain, lemma_split_append_sep, lemma_split_on_nonempty, lemma_split_plain,
    no_char, strip_cr,
    blank, chars_eq_str, chars_of, decimal, decimal_string, is_blank, lines_chars, lines_of,
    parse_unsigned, parse_unsigned_chars, push_char, push_str, seqs_view, split_chars, split_on,
    string_from_chars,
};

verus! {

/// The value of a session profile, its strings taken as character sequences.
pub struct ProfileView {
    pub name: Seq<char>,
    pub protocol: SessionProtocol,
    pub host: Seq<char>,
    pub port: Option<u16>,
    pub username: Option<Seq<char>>,
    pub initial_remote_path: Option<Seq<char>>,
    pub credential_ref: Option<Seq<char>>,
}

pub open spec fn opt_view(s: Option<String>) -> Option<Seq<char>> {
    match s {
        Some(v) => Some(v@),
        None => None,
    }
}

impl View for SessionProfile {
    type V = ProfileView;

    open spec fn view(&self) -> ProfileView {
        ProfileView {
            name: self.name@,
            protocol: self.protocol,
            host: self.host@,
            port: self.port,
            username: opt_view(self.username),
            initial_remote_path: opt_view(self.initial_remote_path),
            credential_ref: opt_view(self.credential_ref),
        }
    }
}

impl TableEntry for SessionProfile {
    open spec fn entry_key(&self) -> (Seq<char>, u16) {
        (self.name@, 0)
    }

    fn key_text(&self) -> (r: &str) {
        self.name.as_str()
    }

    fn key_number(&self) -> (r: u16) {
        0
    }

    fn duplicate(&self) -> (r: Self) {
        self.clone()
    }
}

/// `std::io::Error`, carried through opaquely in error values.
#[verifier::external_type_specification]
#[verifier::external_body]
pub struct ExIoError(std::io::Error);

/// The text of an I/O error, through `ToString::to_string` on
/// `std::io::Error` (its `Display`). Nothing is stated of the text: for an
/// error of the operating system it comes from the system's message table.
#[verifier::external_body]
pub(crate) fn io_error_text(error: &std::io::Error) -> String {
    error.to_string()
}

/// Config persistence errors.
#[derive(Debug)]
pub enum ConfigError {
    EmptyProfileName,
    InvalidRecord(String),
    InvalidProtocol(String),
    Io(std::io::Error),
}

/// What a config error says, its texts taken as character sequences.
pub enum ConfigFault {
    EmptyProfileName,
    InvalidRecord(Seq<char>),
    InvalidProtocol(Seq<char>),
    Io,
}

impl View for ConfigError {
    type V = ConfigFault;

    open spec fn view(&self) -> ConfigFault {
        match self {
            ConfigError::EmptyProfileName => ConfigFault::EmptyProfileName,
            ConfigError::InvalidRecord(r) => ConfigFault::InvalidRecord(r@),
            ConfigError::InvalidProtocol(p) => ConfigFault::InvalidProtocol(p@),
            ConfigError::Io(_) => ConfigFault::Io,
        }
    }
}

impl ConfigError {
    /// The error message, as the error's `Display` writes it.
    pub fn message(&self) -> (r: String)
        ensures
            match self@ {
                ConfigFault::EmptyProfileName => r@ == "session profile name cannot be empty"@,
                ConfigFault::InvalidRecord(rec) => r@ == "invalid session record: "@ + rec,
                ConfigFault::InvalidProtocol(p) => r@ == "invalid session protocol: "@ + p,
                ConfigFault::Io => exists|t: Seq<char>| r@ == "config I/O error: "@ + t,
            },
    {
        match self {
            ConfigError::EmptyProfileName => String::from_str("session profile name cannot be empty"),
            ConfigError::InvalidRecord(record) => {
                let mut r = String::from_str("invalid session record: ");
                push_str(&mut r, record.as_str());
                r
            },
            ConfigError::InvalidProtocol(protocol) => {
                let mut r = String::from_str("invalid session protocol: ");
                push_str(&mut r, protocol.as_str());
                r
            },
            ConfigError::Io(error) => {
                let mut r = String::from_str("config I/O error: ");
                let t = io_error_text(error);
                push_str(&mut r, t.as_str());
                assert(r@ == "config I/O error: "@ + t@);
                r
            },
        }
    }
}

/// Session persistence behaviour shared by memory and file stores.
pub trait SessionStore {
    fn save(&mut self, profile: SessionProfile) -> Result<(), ConfigError>;

    fn get(&self, name: &str) -> Result<Option<SessionProfile>, ConfigError>;

    fn list(&self) -> Result<Vec<SessionProfile>, ConfigError>;

    fn remove(&mut self, name: &str) -> Result<bool, ConfigError>;
}

/// A profile may be stored when its name is not blank.
pub open spec fn profile_valid(p: ProfileView) -> bool {
    !is_blank(p.name)
}

/// Rejects profiles whose name is empty or white space only.
pub fn validate_profile(profile: &SessionProfile) -> (r: Result<(), ConfigError>)
    ensures
        r is Ok <==> profile_valid(profile@),
        r matches Err(e) ==> e@ == ConfigFault::EmptyProfileName,
{
    if blank(profile.name.as_str()) {
        return Err(ConfigError::EmptyProfileName);
    }
    Ok(())
}

/// Deterministic in-memory session store, listing profiles in name order.
pub struct InMemorySessionStore {
    profiles: SortedTable<SessionProfile>,
}

/// The profiles of a table, by name.
pub open spec fn profile_map(t: Map<(Seq<char>, u16), SessionProfile>) -> Map<Seq<char>, ProfileView> {
    Map::new(|n: Seq<char>| t.contains_key((n, 0u16)), |n: Seq<char>| t[(n, 0u16)]@)
}

impl InMemorySessionStore {
    /// The stored profiles, by name.
    pub closed spec fn view_map(&self) -> Map<Seq<char>, ProfileView> {
        profile_map(self.profiles.map())
    }

    /// The stored profiles in the order `list` gives them.
    pub closed spec fn listing(&self) -> Seq<SessionProfile> {
        self.profiles.seq()
    }

    pub fn new() -> (r: Self)
        ensures
            r.view_map() == Map::<Seq<char>, ProfileView>::empty(),
    {
        let r = InMemorySessionStore { profiles: SortedTable::new() };
        assert(r.view_map() =~= Map::<Seq<char>, ProfileView>::empty());
        r
    }

    /// Stores `profile` under its name, replacing any profile of that name;
    /// a profile with a blank name is refused and the store is left unchanged.
    pub fn save(&mut self, profile: SessionProfile) -> (r: Result<(), ConfigError>)
        ensures
            r is Ok <==> profile_valid(profile@),
            r matches Err(e) ==> e@ == ConfigFault::EmptyProfileName,
            r is Ok ==> final(self).view_map() == old(self).view_map().insert(profile.name@, profile@),
            r is Err ==> final(self).view_map() == old(self).view_map(),
    {
        validate_profile(&profile)?;
        let ghost name = profile.name@;
        let ghost pv = profile@;
        self.profiles.upsert(profile);
        assert(self.view_map() =~= old(self).view_map().insert(name, pv));
        Ok(())
    }

    /// The profile stored under `name`, if any.
    pub fn get(&self, name: &str) -> (r: Result<Option<SessionProfile>, ConfigError>)
        ensures
            r matches Ok(o) && match o {
                Some(p) => self.view_map().contains_key(name@) && p@ == self.view_map()[name@],
                None => !self.view_map().contains_key(name@),
            },
    {
        let key = chars_of(name);
        match self.profiles.get(key.as_slice(), 0) {
            Some(p) => Ok(Some(p.clone())),
            None => Ok(None),
        }
    }

    /// All stored profiles, in increasing name order.
    pub fn list(&self) -> (r: Result<Vec<SessionProfile>, ConfigError>)
        ensures
            r matches Ok(v) && v@ == self.listing(),
            self.listing().len() == self.view_map().len(),
            forall|i: int, j: int| 0 <= i < j < self.listing().len() ==> crate::text::seq_less(
                #[trigger] self.listing()[i].name@,
                #[trigger] self.listing()[j].name@,
            ),
            forall|i: int| 0 <= i < self.listing().len() ==> self.view_map().contains_key(#[trigger] self.listing()[i].name@)
                && self.view_map()[self.listing()[i].name@] == self.listing()[i]@,
            forall|n: Seq<char>| #[trigger] self.view_map().contains_key(n) ==> exists|i: int| 0 <= i < self.listing().len() && #[trigger] self.listing()[i].name@ == n,
    {
        let entries = self.profiles.entries();
        let mut out: Vec<SessionProfile> = Vec::new();
        let mut i: usize = 0;
        while i < entries.len()
            invariant
                i <= entries.len(),
                entries@ == self.profiles.seq(),
                out@ == entries@.take(i as int),
            decreases entries.len() - i,
        {
            out.push(entries[i].clone());
            i = i + 1;
            assert(out@ =~= entries@.take(i as int));
        }
        assert(entries@.take(entries.len() as int) =~= entries@);
        proof {
            self.lemma_listing();
        }
        Ok(out)
    }

    proof fn lemma_listing(&self)
        requires
            crate::table::keys_increasing(self.profiles.seq()),
        ensures
            self.listing().len() == self.view_map().len(),
            forall|i: int, j: int| 0 <= i < j < self.listing().len() ==> crate::text::seq_less(
                #[trigger] self.listing()[i].name@,
                #[trigger] self.listing()[j].name@,
            ),
            forall|i: int| 0 <= i < self.listing().len() ==> self.view_map().contains_key(#[trigger] self.listing()[i].name@)
                && self.view_map()[self.listing()[i].name@] == self.listing()[i]@,
            forall|n: Seq<char>| #[trigger] self.view_map().contains_key(n) ==> exists|i: int| 0 <= i < self.listing().len() && #[trigger] self.listing()[i].name@ == n,
    {
        let s = self.profiles.seq();
        assert forall|i: int, j: int| 0 <= i < j < s.len() implies crate::text::seq_less(
            #[trigger] s[i].name@,
            #[trigger] s[j].name@,
        ) by {
            assert(crate::table::key_less(s[i].entry_key(), s[j].entry_key()));
        }
        assert forall|i: int| 0 <= i < s.len() implies self.view_map().contains_key(#[trigger] s[i].name@)
            && self.view_map()[s[i].name@] == s[i]@ by {
            crate::table::lemma_entries_map_at(s, i);
        }
        assert forall|n: Seq<char>| #[trigger] self.view_map().contains_key(n) implies exists|i: int| 0 <= i < s.len() && #[trigger] s[i].name@ == n by {
            let i = crate::table::key_index(s, (n, 0u16));
            assert(s[i].name@ == n);
        }
        // the names of the listing are distinct and cover the map's domain
        let names = s.map_values(|p: SessionProfile| p.name@);
        assert forall|i: int, j: int| 0 <= i < names.len() && 0 <= j < names.len() && i != j implies names[i] != names[j] by {
            if i < j {
                assert(crate::table::key_less(s[i].entry_key(), s[j].entry_key()));
            } else {
                assert(crate::table::key_less(s[j].entry_key(), s[i].entry_key()));
            }
            crate::text::lemma_seq_less_irreflexive(names[i]);
        }
        assert(names.no_duplicates());
        names.unique_seq_to_set();
        assert(names.to_set() =~= self.view_map().dom()) by {
            assert forall|n: Seq<char>| names.to_set().contains(n) implies self.view_map().dom().contains(n) by {
                let i = choose|i: int| 0 <= i < names.len() && names[i] == n;
                assert(s[i].name@ == n);
            }
            assert forall|n: Seq<char>| self.view_map().dom().contains(n) implies names.to_set().contains(n) by {
                let i = crate::table::key_index(s, (n, 0u16));
                assert(names[i] == n);
            }
        }
    }

    /// Removes the profile stored under `name`; reports whether there was one.
    pub fn remove(&mut self, name: &str) -> (r: Result<bool, ConfigError>)
        ensures
            r == Ok::<bool, ConfigError>(old(self).view_map().contains_key(name@)),
            final(self).view_map() == old(self).view_map().remove(name@),
    {
        let key = chars_of(name);
        let removed = self.profiles.remove_key(key.as_slice(), 0);
        assert(self.view_map() =~= old(self).view_map().remove(name@));
        Ok(removed.is_some())
    }
}

impl SessionStore for InMemorySessionStore {
    fn save(&mut self, profile: SessionProfile) -> (r: Result<(), ConfigError>)
        ensures
            r is Ok <==> profile_valid(profile@),
            r matches Err(e) ==> e@ == ConfigFault::EmptyProfileName,
            r is Ok ==> final(self).view_map() == old(self).view_map().insert(profile.name@, profile@),
            r is Err ==> final(self).view_map() == old(self).view_map(),
    {
        InMemorySessionStore::save(self, profile)
    }

    fn get(&self, name: &str) -> (r: Result<Option<SessionProfile>, ConfigError>)
        ensures
            r matches Ok(o) && match o {
                Some(p) => self.view_map().contains_key(name@) && p@ == self.view_map()[name@],
                None => !self.view_map().contains_key(name@),
            },
    {
        InMemorySessionStore::get(self, name)
    }

    fn list(&self) -> (r: Result<Vec<SessionProfile>, ConfigError>)
        ensures
            r matches Ok(v) && v@ == self.listing(),
    {
        InMemorySessionStore::list(self)
    }

    fn remove(&mut self, name: &str) -> (r: Result<bool, ConfigError>)
        ensures
            r == Ok::<bool, ConfigError>(old(self).view_map().contains_key(name@)),
            final(self).view_map() == old(self).view_map().remove(name@),
    {
        InMemorySessionStore::remove(self, name)
    }
}

/// A field character as the session file writes it: backslash, tab and
/// newline are written as two-character escapes.
pub open spec fn escape_char(c: char) -> Seq<char> {
    if c == '\\' {
        seq!['\\', '\\']
    } else if c == '\t' {
        seq!['\\', 't']
    } else if c == '\n' {
        seq!['\\', 'n']
    } else {
        seq![c]
    }
}

/// A field as the session file writes it.
pub open spec fn escape_seq(s: Seq<char>) -> Seq<char>
    decreases s.len(),
{
    if s.len() == 0 {
        Seq::empty()
    } else {
        escape_char(s[0]) + escape_seq(s.drop_first())
    }
}

/// A field read back from the session file: the escapes `\\`, `\t` and `\n`
/// stand for backslash, tab and newline; any other backslash is an error.
pub open spec fn unescape_seq(s: Seq<char>) -> Option<Seq<char>>
    decreases s.len(),
{
    if s.len() == 0 {
        Some(Seq::empty())
    } else if s[0] == '\\' {
        if s.len() < 2 {
            None
        } else {
            let c = if s[1] == '\\' {
                Some('\\')
            } else if s[1] == 't' {
                Some('\t')
            } else if s[1] == 'n' {
                Some('\n')
            } else {
                None
            };
            match (c, unescape_seq(s.skip(2))) {
                (Some(c), Some(rest)) => Some(seq![c] + rest),
                _ => None,
            }
        }
    } else {
        match unescape_seq(s.drop_first()) {
            Some(rest) => Some(seq![s[0]] + rest),
            None => None,
        }
    }
}

pub proof fn lemma_escape_append(a: Seq<char>, b: Seq<char>)
    ensures
        escape_seq(a + b) == escape_seq(a) + escape_seq(b),
    decreases a.len(),
{
    if a.len() == 0 {
        assert(a + b =~= b);
        assert(escape_seq(a) =~= Seq::<char>::empty());
        assert(escape_seq(b) =~= Seq::<char>::empty() + escape_seq(b));
    } else {
        assert((a + b).drop_first() =~= a.drop_first() + b);
        lemma_escape_append(a.drop_first(), b);
        assert((a + b)[0] == a[0]);
        assert(escape_seq(a + b) =~= escape_char(a[0]) + escape_seq(a.drop_first() + b));
    }
}

/// Reading an escaped field gives the field back.
pub proof fn lemma_unescape_escape(s: Seq<char>)
    ensures
        unescape_seq(escape_seq(s)) == Some(s),
    decreases s.len(),
{
    if s.len() > 0 {
        lemma_unescape_escape(s.drop_first());
        let e = escape_seq(s);
        let rest = escape_seq(s.drop_first());
        assert(e == escape_char(s[0]) + rest);
        if s[0] == '\\' || s[0] == '\t' || s[0] == '\n' {
            assert(e.skip(2) =~= rest);
            assert(e[0] == '\\');
        } else {
            assert(e.drop_first() =~= rest);
            assert(e[0] == s[0]);
        }
        assert(s =~= seq![s[0]] + s.drop_first());
    } else {
        assert(escape_seq(s) =~= Seq::<char>::empty());
    }
}

/// An escaped field holds neither a tab nor a newline.
pub proof fn lemma_escape_no_separators(s: Seq<char>)
    ensures
        forall|i: int| 0 <= i < escape_seq(s).len() ==> #[trigger] escape_seq(s)[i] != '\t' && escape_seq(s)[i] != '\n',
    decreases s.len(),
{
    if s.len() > 0 {
        lemma_escape_no_separators(s.drop_first());
        let e = escape_seq(s);
        let h = escape_char(s[0]);
        assert(e == h + escape_seq(s.drop_first()));
        assert forall|i: int| 0 <= i < e.len() implies #[trigger] e[i] != '\t' && e[i] != '\n' by {
            if i >= h.len() {
                assert(e[i] == escape_seq(s.drop_first())[i - h.len()]);
            }
        }
    }
}

/// Writes a field for the session file.
pub fn escape(value: &str) -> (r: String)
    ensures
        r@ == escape_seq(value@),
{
    let v = chars_of(value);
    let mut r = String::new();
    let mut i: usize = 0;
    assert(v@.take(0) =~= Seq::<char>::empty());
    assert(escape_seq(Seq::<char>::empty()) =~= Seq::<char>::empty());
    while i < v.len()
        invariant
            v@ == value@,
            i <= v.len(),
            r@ == escape_seq(v@.take(i as int)),
        decreases v.len() - i,
    {
        let c = v[i];
        proof {
            assert(v@.take(i + 1) =~= v@.take(i as int) + seq![c]);
            lemma_escape_append(v@.take(i as int), seq![c]);
            assert(seq![c].drop_first() =~= Seq::<char>::empty());
            assert(escape_seq(seq![c]) =~= escape_char(c) + escape_seq(Seq::<char>::empty()));
        }
        if c == '\\' {
            push_char(&mut r, '\\');
            push_char(&mut r, '\\');
        } else if c == '\t' {
            push_char(&mut r, '\\');
            push_char(&mut r, 't');
        } else if c == '\n' {
            push_char(&mut r, '\\');
            push_char(&mut r, 'n');
        } else {
            push_char(&mut r, c);
        }
        i = i + 1;
        assert(r@ =~= escape_seq(v@.take(i as int)));
    }
    assert(v@.take(v.len() as int) =~= v@);
    r
}

/// Reads a field of the session file; a malformed escape is an invalid record
/// that names the whole field.
pub fn unescape(value: &str) -> (r: Result<String, ConfigError>)
    ensures
        match r {
            Ok(s) => unescape_seq(value@) == Some(s@),
            Err(e) => unescape_seq(value@) is None && e@ == ConfigFault::InvalidRecord(value@),
        },
{
    let v = chars_of(value);
    let mut out: Vec<char> = Vec::new();
    let mut i: usize = 0;
    assert(v@.skip(0) =~= v@);
    while i < v.len()
        invariant
            v@ == value@,
            i <= v.len(),
            unescape_seq(v@) == match unescape_seq(v@.skip(i as int)) {
                Some(rest) => Some(out@ + rest),
                None => None::<Seq<char>>,
            },
        decreases v.len() - i,
    {
        let c = v[i];
        let ghost tail = v@.skip(i as int);
        assert(tail[0] == c);
        if c == '\\' {
            if i + 1 >= v.len() {
                return Err(ConfigError::InvalidRecord(value.to_owned()));
            }
            let d = v[i + 1];
            assert(tail[1] == d);
            assert(tail.skip(2) =~= v@.skip(i + 2));
            let m = if d == '\\' {
                '\\'
            } else if d == 't' {
                '\t'
            } else if d == 'n' {
                '\n'
            } else {
                return Err(ConfigError::InvalidRecord(value.to_owned()));
            };
            proof {
                match unescape_seq(v@.skip(i + 2)) {
                    Some(rest) => {
                        assert(out@.push(m) + rest =~= out@ + (seq![m] + rest));
                    },
                    None => {},
                }
            }
            out.push(m);
            i = i + 2;
        } else {
            assert(tail.drop_first() =~= v@.skip(i + 1));
            proof {
                match unescape_seq(v@.skip(i + 1)) {
                    Some(rest) => {
                        assert(out@.push(c) + rest =~= out@ + (seq![c] + rest));
                    },
                    None => {},
                }
            }
            out.push(c);
            i = i + 1;
        }
    }
    assert(v@.skip(v.len() as int) =~= Seq::<char>::empty());
    assert(out@ + Seq::<char>::empty() =~= out@);
    Ok(string_from_chars(out.as_slice()))
}

/// The protocol named by its exact identifier in the session file.
pub open spec fn protocol_from_identifier(s: Seq<char>) -> Option<SessionProtocol> {
    if s == "sftp"@ {
        Some(SessionProtocol::Sftp)
    } else if s == "scp"@ {
        Some(SessionProtocol::Scp)
    } else if s == "ftp"@ {
        Some(SessionProtocol::Ftp)
    } else if s == "ftps"@ {
        Some(SessionProtocol::Ftps)
    } else if s == "webdav"@ {
        Some(SessionProtocol::WebDav)
    } else if s == "s3"@ {
        Some(SessionProtocol::S3)
    } else if s == "local"@ {
        Some(SessionProtocol::Local)
    } else {
        None
    }
}

/// The identifier the session file writes for a protocol.
pub fn protocol_to_str(protocol: &SessionProtocol) -> (r: &'static str)
    ensures
        r@ == protocol.identifier(),
{
    protocol.as_str()
}

/// Reads a protocol identifier of the session file.
pub fn str_to_protocol(protocol: &str) -> (r: Result<SessionProtocol, ConfigError>)
    ensures
        match r {
            Ok(p) => protocol_from_identifier(protocol@) == Some(p),
            Err(e) => protocol_from_identifier(protocol@) is None && e@ == ConfigFault::InvalidProtocol(protocol@),
        },
{
    let v = chars_of(protocol);
    let v = v.as_slice();
    if chars_eq_str(v, "sftp") {
        Ok(SessionProtocol::Sftp)
    } else if chars_eq_str(v, "scp") {
        Ok(SessionProtocol::Scp)
    } else if chars_eq_str(v, "ftp") {
        Ok(SessionProtocol::Ftp)
    } else if chars_eq_str(v, "ftps") {
        Ok(SessionProtocol::Ftps)
    } else if chars_eq_str(v, "webdav") {
        Ok(SessionProtocol::WebDav)
    } else if chars_eq_str(v, "s3") {
        Ok(SessionProtocol::S3)
    } else if chars_eq_str(v, "local") {
        Ok(SessionProtocol::Local)
    } else {
        Err(ConfigError::InvalidProtocol(protocol.to_owned()))
    }
}

/// The port field: the decimal port, or nothing.
pub open spec fn port_text(port: Option<u16>) -> Seq<char> {
    match port {
        Some(n) => decimal(n as nat),
        None => Seq::empty(),
    }
}

/// Reads the port field: empty for no port, else a `u16` as `str::parse` reads it.
pub open spec fn read_port(f: Seq<char>) -> Result<Option<u16>, ConfigFault> {
    if f.len() == 0 {
        Ok(None)
    } else {
        match parse_unsigned(f, 65535) {
            Some(n) => Ok(Some(n as u16)),
            None => Err(ConfigFault::InvalidRecord("invalid port: "@ + f)),
        }
    }
}

pub fn parse_port(field: &str) -> (r: Result<Option<u16>, ConfigError>)
    ensures
        match r {
            Ok(p) => read_port(field@) == Ok::<Option<u16>, ConfigFault>(p),
            Err(e) => read_port(field@) == Err::<Option<u16>, ConfigFault>(e@),
        },
{
    let v = chars_of(field);
    if v.len() == 0 {
        return Ok(None);
    }
    match parse_unsigned_chars(v.as_slice(), 65535) {
        Some(n) => Ok(Some(n as u16)),
        None => {
            let mut m = String::from_str("invalid port: ");
            push_str(&mut m, field);
            Err(ConfigError::InvalidRecord(m))
        },
    }
}

/// An optional field as the session file writes it; no value is an empty field.
pub open spec fn escape_opt(o: Option<Seq<char>>) -> Seq<char> {
    match o {
        Some(s) => escape_seq(s),
        None => Seq::empty(),
    }
}

/// Reads an optional field: an empty field is no value.
pub open spec fn unescape_opt(f: Seq<char>) -> Option<Option<Seq<char>>> {
    if f.len() == 0 {
        Some(None)
    } else {
        match unescape_seq(f) {
            Some(s) => Some(Some(s)),
            None => None,
        }
    }
}

pub fn escape_option(value: &Option<String>) -> (r: String)
    ensures
        r@ == escape_opt(opt_view(*value)),
{
    match value {
        Some(v) => escape(v.as_str()),
        None => String::new(),
    }
}

pub fn unescape_option(value: &str) -> (r: Result<Option<String>, ConfigError>)
    ensures
        match r {
            Ok(o) => unescape_opt(value@) == Some(opt_view(o)),
            Err(e) => unescape_opt(value@) is None && e@ == ConfigFault::InvalidRecord(value@),
        },
{
    let v = chars_of(value);
    if v.len() == 0 {
        Ok(None)
    } else {
        let s = unescape(value)?;
        Ok(Some(s))
    }
}

/// The fields of the record of `p`, in order.
pub open spec fn record_fields(p: ProfileView) -> Seq<Seq<char>> {
    seq![
        escape_seq(p.name),
        p.protocol.identifier(),
        escape_seq(p.host),
        port_text(p.port),
        escape_opt(p.username),
        escape_opt(p.initial_remote_path),
        escape_opt(p.credential_ref),
    ]
}

/// `fields` joined by `c`.
pub open spec fn join_fields(fields: Seq<Seq<char>>, c: char) -> Seq<char>
    decreases fields.len(),
{
    if fields.len() <= 1 {
        if fields.len() == 1 {
            fields[0]
        } else {
            Seq::empty()
        }
    } else {
        join_fields(fields.drop_last(), c).push(c) + fields.last()
    }
}

/// One profile as a line of the session file (without the line break): its
/// seven fields joined by tabs.
pub open spec fn record_text(p: ProfileView) -> Seq<char> {
    join_fields(record_fields(p), '\t')
}

/// Reads one line of the session file as a profile: seven tab-separated fields.
pub open spec fn read_record(line: Seq<char>) -> Result<ProfileView, ConfigFault> {
    let f = split_on(line, '\t');
    if f.len() != 7 {
        Err(ConfigFault::InvalidRecord(line))
    } else {
        match unescape_seq(f[0]) {
            None => Err(ConfigFault::InvalidRecord(f[0])),
            Some(name) => match protocol_from_identifier(f[1]) {
                None => Err(ConfigFault::InvalidProtocol(f[1])),
                Some(protocol) => match unescape_seq(f[2]) {
                    None => Err(ConfigFault::InvalidRecord(f[2])),
                    Some(host) => match read_port(f[3]) {
                        Err(e) => Err(e),
                        Ok(port) => match unescape_opt(f[4]) {
                            None => Err(ConfigFault::InvalidRecord(f[4])),
                            Some(username) => match unescape_opt(f[5]) {
                                None => Err(ConfigFault::InvalidRecord(f[5])),
                                Some(initial_remote_path) => match unescape_opt(f[6]) {
                                    None => Err(ConfigFault::InvalidRecord(f[6])),
                                    Some(credential_ref) => Ok(
                                        ProfileView {
                                            name,
                                            protocol,
                                            host,
                                            port,
                                            username,
                                            initial_remote_path,
                                            credential_ref,
                                        },
                                    ),
                                },
                            },
                        },
                    },
                },
            },
        }
    }
}

/// Lines that the reader passes over: blank ones and comments.
pub open spec fn skipped_line(l: Seq<char>) -> bool {
    is_blank(l) || (l.len() > 0 && l[0] == '#')
}

/// Reads the lines of a session file into `acc`, in order; a later profile
/// replaces an earlier one of the same name.
pub open spec fn read_lines(lines: Seq<Seq<char>>, acc: Map<Seq<char>, ProfileView>) -> Result<Map<Seq<char>, ProfileView>, ConfigFault>
    decreases lines.len(),
{
    if lines.len() == 0 {
        Ok(acc)
    } else if skipped_line(lines[0]) {
        read_lines(lines.drop_first(), acc)
    } else {
        match read_record(lines[0]) {
            Err(e) => Err(e),
            Ok(p) => if !profile_valid(p) {
                Err(ConfigFault::EmptyProfileName)
            } else {
                read_lines(lines.drop_first(), acc.insert(p.name, p))
            },
        }
    }
}

/// The profiles that a session file holds, or the first error in it.
pub open spec fn read_sessions(input: Seq<char>) -> Result<Map<Seq<char>, ProfileView>, ConfigFault> {
    read_lines(lines_of(input), Map::empty())
}

/// The first line of a session file.
pub open spec fn header_line() -> Seq<char> {
    "# CrossSCP sessions v1"@
}

/// The records of `ps`, each followed by a line break.
pub open spec fn records_text(ps: Seq<ProfileView>) -> Seq<char>
    decreases ps.len(),
{
    if ps.len() == 0 {
        Seq::empty()
    } else {
        records_text(ps.drop_last()) + record_text(ps.last()) + seq!['\n']
    }
}

/// A session file holding `ps`, in that order.
pub open spec fn sessions_text(ps: Seq<ProfileView>) -> Seq<char> {
    header_line().push('\n') + records_text(ps)
}

pub open spec fn profile_views(ps: Seq<SessionProfile>) -> Seq<ProfileView> {
    ps.map_values(|p: SessionProfile| p@)
}

/// Writes one profile as a line of the session file.
pub fn render_record(profile: &SessionProfile) -> (r: String)
    ensures
        r@ == record_text(profile@),
{
    let ghost f = record_fields(profile@);
    let mut r = escape(profile.name.as_str());
    assert(f.take(1).len() == 1);
    assert(r@ == join_fields(f.take(1), '\t'));
    push_char(&mut r, '\t');
    push_str(&mut r, protocol_to_str(&profile.protocol));
    assert(f.take(2).drop_last() =~= f.take(1));
    assert(r@ =~= join_fields(f.take(2), '\t'));
    push_char(&mut r, '\t');
    let h = escape(profile.host.as_str());
    push_str(&mut r, h.as_str());
    assert(f.take(3).drop_last() =~= f.take(2));
    assert(r@ =~= join_fields(f.take(3), '\t'));
    push_char(&mut r, '\t');
    match profile.port {
        Some(port) => {
            let t = decimal_string(port as u64);
            push_str(&mut r, t.as_str());
        },
        None => {},
    }
    assert(f.take(4).drop_last() =~= f.take(3));
    assert(r@ =~= join_fields(f.take(4), '\t'));
    push_char(&mut r, '\t');
    let u = escape_option(&profile.username);
    push_str(&mut r, u.as_str());
    assert(f.take(5).drop_last() =~= f.take(4));
    assert(r@ =~= join_fields(f.take(5), '\t'));
    push_char(&mut r, '\t');
    let pth = escape_option(&profile.initial_remote_path);
    push_str(&mut r, pth.as_str());
    assert(f.take(6).drop_last() =~= f.take(5));
    assert(r@ =~= join_fields(f.take(6), '\t'));
    push_char(&mut r, '\t');
    let c = escape_option(&profile.credential_ref);
    push_str(&mut r, c.as_str());
    assert(f.take(7).drop_last() =~= f.take(6));
    assert(f.take(7) =~= f);
    assert(r@ =~= join_fields(f, '\t'));
    r
}

/// Writes a session file holding `profiles`, in order.
pub fn render_profiles(profiles: &[SessionProfile]) -> (r: String)
    ensures
        r@ == sessions_text(profile_views(profiles@)),
{
    let mut out = String::from_str("# CrossSCP sessions v1");
    push_char(&mut out, '\n');
    let mut i: usize = 0;
    let ghost views = profile_views(profiles@);
    assert(views.take(0) =~= Seq::<ProfileView>::empty());
    assert(out@ =~= header_line().push('\n') + records_text(views.take(0)));
    while i < profiles.len()
        invariant
            i <= profiles.len(),
            views == profile_views(profiles@),
            out@ == header_line().push('\n') + records_text(views.take(i as int)),
        decreases profiles.len() - i,
    {
        let line = render_record(&profiles[i]);
        push_str(&mut out, line.as_str());
        push_char(&mut out, '\n');
        i = i + 1;
        assert(views.take(i as int).drop_last() =~= views.take(i - 1));
        assert(out@ =~= header_line().push('\n') + records_text(views.take(i as int)));
    }
    assert(views.take(profiles.len() as int) =~= views);
    out
}

/// Reads one line of the session file as a profile.
pub fn parse_record(line: &[char]) -> (r: Result<SessionProfile, ConfigError>)
    ensures
        match r {
            Ok(p) => read_record(line@) == Ok::<ProfileView, ConfigFault>(p@),
            Err(e) => read_record(line@) == Err::<ProfileView, ConfigFault>(e@),
        },
{
    let fields = split_chars(line, '\t');
    if fields.len() != 7 {
        return Err(ConfigError::InvalidRecord(string_from_chars(line)));
    }
    assert(fields@[0]@ == split_on(line@, '\t')[0]);
    assert(fields@[1]@ == split_on(line@, '\t')[1]);
    assert(fields@[2]@ == split_on(line@, '\t')[2]);
    assert(fields@[3]@ == split_on(line@, '\t')[3]);
    assert(fields@[4]@ == split_on(line@, '\t')[4]);
    assert(fields@[5]@ == split_on(line@, '\t')[5]);
    assert(fields@[6]@ == split_on(line@, '\t')[6]);
    let f0 = string_from_chars(fields[0].as_slice());
    let f1 = string_from_chars(fields[1].as_slice());
    let f2 = string_from_chars(fields[2].as_slice());
    let f3 = string_from_chars(fields[3].as_slice());
    let f4 = string_from_chars(fields[4].as_slice());
    let f5 = string_from_chars(fields[5].as_slice());
    let f6 = string_from_chars(fields[6].as_slice());
    let name = unescape(f0.as_str())?;
    let protocol = str_to_protocol(f1.as_str())?;
    let host = unescape(f2.as_str())?;
    let port = parse_port(f3.as_str())?;
    let username = unescape_option(f4.as_str())?;
    let initial_remote_path = unescape_option(f5.as_str())?;
    let credential_ref = unescape_option(f6.as_str())?;
    Ok(SessionProfile { name, protocol, host, port, username, initial_remote_path, credential_ref })
}

/// Reads a session file into a store.
pub fn parse_profiles(input: &str) -> (r: Result<InMemorySessionStore, ConfigError>)
    ensures
        match r {
            Ok(store) => read_sessions(input@) == Ok::<Map<Seq<char>, ProfileView>, ConfigFault>(store.view_map()),
            Err(e) => read_sessions(input@) == Err::<Map<Seq<char>, ProfileView>, ConfigFault>(e@),
        },
{
    let chars = chars_of(input);
    let lines = lines_chars(chars.as_slice());
    let ghost lv = seqs_view(lines@);
    let mut store = InMemorySessionStore::new();
    let mut i: usize = 0;
    assert(lv.skip(0) =~= lv);
    while i < lines.len()
        invariant
            i <= lines.len(),
            lv == seqs_view(lines@),
            lv == lines_of(input@),
            read_sessions(input@) == read_lines(lv.skip(i as int), store.view_map()),
        decreases lines.len() - i,
    {
        let line = lines[i].as_slice();
        assert(lv.skip(i as int)[0] == line@);
        assert(lv.skip(i as int).drop_first() =~= lv.skip(i + 1));
        let trimmed_blank = {
            let s = string_from_chars(line);
            blank(s.as_str())
        };
        if trimmed_blank || (line.len() > 0 && line[0] == '#') {
            i = i + 1;
        } else {
            let profile = parse_record(line)?;
            store.save(profile)?;
            i = i + 1;
        }
    }
    assert(lv.skip(lines.len() as int) =~= Seq::<Seq<char>>::empty());
    Ok(store)
}

/// A profile that the session file gives back unchanged: its name is not
/// blank and does not start with `#` (the line would read as a comment), no
/// optional field holds an empty text (it would read back as no value), and the
/// credential reference, written last on the line, does not end with a carriage
/// return (line reading drops it).
pub open spec fn round_trips(p: ProfileView) -> bool {
    &&& profile_valid(p)
    &&& p.name[0] != '#'
    &&& p.username matches Some(u) ==> u.len() > 0
    &&& p.initial_remote_path matches Some(r) ==> r.len() > 0
    &&& p.credential_ref matches Some(c) ==> c.len() > 0 && c.last() != '\r'
}

/// The profiles of `ps` inserted into `acc` in order, later ones replacing
/// earlier ones of the same name.
pub open spec fn insert_profiles(ps: Seq<ProfileView>, acc: Map<Seq<char>, ProfileView>) -> Map<Seq<char>, ProfileView>
    decreases ps.len(),
{
    if ps.len() == 0 {
        acc
    } else {
        insert_profiles(ps.drop_first(), acc.insert(ps[0].name, ps[0]))
    }
}

pub(crate) proof fn lemma_split_field(x: Seq<char>, y: Seq<char>, c: char)
    requires
        no_char(y, c),
    ensures
        split_on(x.push(c) + y, c) == split_on(x, c).push(y),
{
    lemma_split_append_sep(x, c);
    lemma_split_append_plain(x.push(c), y, c);
    lemma_split_on_nonempty(x, c);
    assert(Seq::<char>::empty() + y =~= y);
    assert(split_on(x, c).push(Seq::<char>::empty()).update(split_on(x, c).len() as int, y) =~= split_on(x, c).push(y));
}

pub(crate) proof fn lemma_escape_len(s: Seq<char>)
    ensures
        s.len() > 0 ==> escape_seq(s).len() > 0,
        s.len() > 0 ==> escape_seq(s)[0] == escape_char(s[0])[0],
{
    if s.len() > 0 {
        assert(escape_seq(s) == escape_char(s[0]) + escape_seq(s.drop_first()));
    }
}

pub(crate) proof fn lemma_escape_last(s: Seq<char>)
    requires
        s.len() > 0,
        s.last() != '\r',
    ensures
        escape_seq(s).len() > 0,
        escape_seq(s).last() != '\r',
{
    lemma_escape_append(s.drop_last(), seq![s.last()]);
    assert(s.drop_last() + seq![s.last()] =~= s);
    assert(seq![s.last()].drop_first() =~= Seq::<char>::empty());
    assert(escape_seq(seq![s.last()]) =~= escape_char(s.last()) + escape_seq(Seq::<char>::empty()));
}

proof fn lemma_escape_not_blank(s: Seq<char>)
    requires
        !is_blank(s),
    ensures
        !is_blank(escape_seq(s)),
    decreases s.len(),
{
    let e = escape_seq(s);
    assert(e == escape_char(s[0]) + escape_seq(s.drop_first()));
    if is_white_space(s[0]) {
        assert(!is_blank(s.drop_first())) by {
            let k = choose|k: int| 0 <= k < s.len() && !is_white_space(#[trigger] s[k]);
            assert(s.drop_first()[k - 1] == s[k]);
        }
        lemma_escape_not_blank(s.drop_first());
        let k = choose|k: int| 0 <= k < escape_seq(s.drop_first()).len() && !is_white_space(
            #[trigger] escape_seq(s.drop_first())[k],
        );
        assert(e[escape_char(s[0]).len() + k] == escape_seq(s.drop_first())[k]);
    } else {
        assert(!is_white_space(e[0]));
    }
}

pub(crate) proof fn lemma_no_char_escape(s: Seq<char>)
    ensures
        no_char(escape_seq(s), '\t'),
        no_char(escape_seq(s), '\n'),
{
    lemma_escape_no_separators(s);
}

pub(crate) proof fn lemma_decimal_plain(n: nat)
    ensures
        no_char(decimal(n), '\t'),
        no_char(decimal(n), '\n'),
{
    lemma_decimal_digits(n);
    assert forall|i: int| 0 <= i < decimal(n).len() implies #[trigger] decimal(n)[i] != '\t' && decimal(n)[i] != '\n' by {
        assert(is_digit(decimal(n)[i]));
    }
}

proof fn lemma_identifier(p: SessionProtocol)
    ensures
        no_char(p.identifier(), '\t'),
        no_char(p.identifier(), '\n'),
        protocol_from_identifier(p.identifier()) == Some(p),
{
    reveal_strlit("sftp");
    reveal_strlit("scp");
    reveal_strlit("ftp");
    reveal_strlit("ftps");
    reveal_strlit("webdav");
    reveal_strlit("s3");
    reveal_strlit("local");
    match p {
        SessionProtocol::Sftp => {},
        SessionProtocol::Scp => {
            assert("scp"@.len() != "sftp"@.len());
        },
        SessionProtocol::Ftp => {
            assert("ftp"@[0] != "scp"@[0]);
            assert("ftp"@.len() != "sftp"@.len());
        },
        SessionProtocol::Ftps => {
            assert("ftps"@[0] != "sftp"@[0]);
            assert("ftps"@.len() != "scp"@.len());
            assert("ftps"@.len() != "ftp"@.len());
        },
        SessionProtocol::WebDav => {
            assert("webdav"@.len() != "sftp"@.len());
            assert("webdav"@.len() != "scp"@.len());
            assert("webdav"@.len() != "ftp"@.len());
            assert("webdav"@.len() != "ftps"@.len());
        },
        SessionProtocol::S3 => {
            assert("s3"@.len() != "sftp"@.len());
            assert("s3"@.len() != "scp"@.len());
            assert("s3"@.len() != "ftp"@.len());
            assert("s3"@.len() != "ftps"@.len());
            assert("s3"@.len() != "webdav"@.len());
        },
        SessionProtocol::Local => {
            assert("local"@.len() != "sftp"@.len());
            assert("local"@.len() != "scp"@.len());
            assert("local"@.len() != "ftp"@.len());
            assert("local"@.len() != "ftps"@.len());
            assert("local"@.len() != "webdav"@.len());
            assert("local"@.len() != "s3"@.len());
        },
    }
}

proof fn lemma_opt_field(o: Option<Seq<char>>)
    requires
        o matches Some(v) ==> v.len() > 0,
    ensures
        no_char(escape_opt(o), '\t'),
        no_char(escape_opt(o), '\n'),
        unescape_opt(escape_opt(o)) == Some(o),
{
    match o {
        Some(v) => {
            lemma_no_char_escape(v);
            lemma_escape_len(v);
            lemma_unescape_escape(v);
        },
        None => {},
    }
}

proof fn lemma_port_field(port: Option<u16>)
    ensures
        no_char(port_text(port), '\t'),
        no_char(port_text(port), '\n'),
        read_port(port_text(port)) == Ok::<Option<u16>, ConfigFault>(port),
{
    match port {
        Some(n) => {
            lemma_decimal_plain(n as nat);
            lemma_decimal_digits(n as nat);
            lemma_parse_decimal(n as nat, 65535);
        },
        None => {},
    }
}

pub(crate) proof fn lemma_no_char_concat(a: Seq<char>, b: Seq<char>, c: char)
    requires
        no_char(a, c),
        no_char(b, c),
    ensures
        no_char(a + b, c),
{
    assert forall|i: int| 0 <= i < (a + b).len() implies #[trigger] (a + b)[i] != c by {
        if i >= a.len() {
            assert((a + b)[i] == b[i - a.len()]);
        }
    }
}

pub(crate) proof fn lemma_join_split(fields: Seq<Seq<char>>, c: char)
    requires
        fields.len() >= 1,
        forall|i: int| 0 <= i < fields.len() ==> no_char(#[trigger] fields[i], c),
    ensures
        split_on(join_fields(fields, c), c) == fields,
    decreases fields.len(),
{
    if fields.len() == 1 {
        assert(no_char(fields[0], c));
        lemma_split_plain(fields[0], c);
        assert(seq![fields[0]] =~= fields);
    } else {
        let pre = fields.drop_last();
        assert forall|i: int| 0 <= i < pre.len() implies no_char(#[trigger] pre[i], c) by {
            assert(pre[i] == fields[i]);
        }
        lemma_join_split(pre, c);
        assert(no_char(fields.last(), c));
        lemma_split_field(join_fields(pre, c), fields.last(), c);
        assert(pre.push(fields.last()) =~= fields);
    }
}

pub(crate) proof fn lemma_join_no_char(fields: Seq<Seq<char>>, c: char, d: char)
    requires
        c != d,
        forall|i: int| 0 <= i < fields.len() ==> no_char(#[trigger] fields[i], d),
    ensures
        no_char(join_fields(fields, c), d),
    decreases fields.len(),
{
    if fields.len() == 1 {
        assert(no_char(fields[0], d));
    } else if fields.len() > 1 {
        let pre = fields.drop_last();
        assert forall|i: int| 0 <= i < pre.len() implies no_char(#[trigger] pre[i], d) by {
            assert(pre[i] == fields[i]);
        }
        lemma_join_no_char(pre, c, d);
        let j = join_fields(pre, c);
        assert(no_char(fields.last(), d));
        assert(no_char(seq![c], d));
        lemma_no_char_concat(j, seq![c], d);
        assert(j.push(c) =~= j + seq![c]);
        lemma_no_char_concat(j.push(c), fields.last(), d);
    }
}

pub(crate) proof fn lemma_join_prefix(fields: Seq<Seq<char>>, c: char, k: int)
    requires
        fields.len() >= 1,
        0 <= k < fields[0].len(),
    ensures
        join_fields(fields, c).len() > k,
        join_fields(fields, c)[k] == fields[0][k],
    decreases fields.len(),
{
    if fields.len() > 1 {
        let pre = fields.drop_last();
        lemma_join_prefix(pre, c, k);
        let j = join_fields(pre, c);
        assert((j.push(c) + fields.last())[k] == j[k]);
    }
}

proof fn lemma_record_fields_plain(p: ProfileView)
    requires
        round_trips(p),
    ensures
        forall|i: int| 0 <= i < 7 ==> no_char(#[trigger] record_fields(p)[i], '\t') && no_char(record_fields(p)[i], '\n'),
        record_fields(p).len() == 7,
{
    lemma_no_char_escape(p.name);
    lemma_no_char_escape(p.host);
    lemma_identifier(p.protocol);
    lemma_port_field(p.port);
    lemma_opt_field(p.username);
    lemma_opt_field(p.initial_remote_path);
    lemma_opt_field(p.credential_ref);
}

proof fn lemma_record_reads_back(p: ProfileView)
    requires
        round_trips(p),
    ensures
        read_record(record_text(p)) == Ok::<ProfileView, ConfigFault>(p),
{
    lemma_record_fields_plain(p);
    lemma_join_split(record_fields(p), '\t');
    lemma_identifier(p.protocol);
    lemma_port_field(p.port);
    lemma_opt_field(p.username);
    lemma_opt_field(p.initial_remote_path);
    lemma_opt_field(p.credential_ref);
    lemma_unescape_escape(p.name);
    lemma_unescape_escape(p.host);
}

proof fn lemma_record_not_skipped(p: ProfileView)
    requires
        round_trips(p),
    ensures
        !skipped_line(record_text(p)),
{
    let f0 = escape_seq(p.name);
    let f = record_fields(p);
    assert(f[0] == f0);
    lemma_escape_not_blank(p.name);
    let k = choose|k: int| 0 <= k < f0.len() && !is_white_space(#[trigger] f0[k]);
    lemma_join_prefix(f, '\t', k);
    lemma_escape_len(p.name);
    lemma_join_prefix(f, '\t', 0);
}

proof fn lemma_record_line_end(p: ProfileView)
    requires
        round_trips(p),
    ensures
        no_char(record_text(p), '\n'),
        strip_cr(record_text(p)) == record_text(p),
{
    lemma_record_fields_plain(p);
    lemma_join_no_char(record_fields(p), '\t', '\n');
    let f = record_fields(p);
    let pre = f.drop_last();
    let j = join_fields(pre, '\t');
    assert(join_fields(f, '\t') == j.push('\t') + f.last());
    match p.credential_ref {
        Some(c) => {
            lemma_escape_last(c);
            assert(f.last() == escape_seq(c));
            assert((j.push('\t') + f.last()).last() == f.last().last());
        },
        None => {
            assert(f.last() =~= Seq::<char>::empty());
            assert(j.push('\t') + f.last() =~= j.push('\t'));
        },
    }
}

/// A record written for a profile that round-trips reads back as that
/// profile, is not passed over, and holds no line break.
proof fn lemma_record_round_trip(p: ProfileView)
    requires
        round_trips(p),
    ensures
        read_record(record_text(p)) == Ok::<ProfileView, ConfigFault>(p),
        !skipped_line(record_text(p)),
        no_char(record_text(p), '\n'),
        strip_cr(record_text(p)) == record_text(p),
{
    lemma_record_reads_back(p);
    lemma_record_not_skipped(p);
    lemma_record_line_end(p);
}

proof fn lemma_sessions_split(ps: Seq<ProfileView>)
    requires
        forall|i: int| 0 <= i < ps.len() ==> round_trips(#[trigger] ps[i]),
    ensures
        split_on(sessions_text(ps), '\n') == seq![header_line()] + ps.map_values(|p: ProfileView| record_text(p)) + seq![Seq::<char>::empty()],
    decreases ps.len(),
{
    if ps.len() == 0 {
        reveal_strlit("# CrossSCP sessions v1");
        assert(no_char(header_line(), '\n'));
        lemma_split_plain(header_line(), '\n');
        lemma_split_append_sep(header_line(), '\n');
        assert(sessions_text(ps) =~= header_line().push('\n'));
        assert(seq![header_line()] + ps.map_values(|p: ProfileView| record_text(p)) + seq![Seq::<char>::empty()] =~= seq![header_line(), Seq::<char>::empty()]);
    } else {
        let qs = ps.drop_last();
        let p = ps.last();
        assert forall|i: int| 0 <= i < qs.len() implies round_trips(#[trigger] qs[i]) by {
            assert(qs[i] == ps[i]);
        }
        lemma_sessions_split(qs);
        lemma_record_round_trip(p);
        let x = sessions_text(qs);
        assert(sessions_text(ps) =~= (x + record_text(p)).push('\n'));
        lemma_split_append_sep(x + record_text(p), '\n');
        lemma_split_append_plain(x, record_text(p), '\n');
        let prev = seq![header_line()] + qs.map_values(|p: ProfileView| record_text(p));
        assert(split_on(x, '\n') == prev + seq![Seq::<char>::empty()]);
        assert(Seq::<char>::empty() + record_text(p) =~= record_text(p));
        assert((prev + seq![Seq::<char>::empty()]).update(prev.len() as int, record_text(p)) =~= prev.push(record_text(p)));
        assert(seq![header_line()] + ps.map_values(|p: ProfileView| record_text(p)) =~= prev.push(record_text(p)));
    }
}

proof fn lemma_read_records(ps: Seq<ProfileView>, acc: Map<Seq<char>, ProfileView>)
    requires
        forall|i: int| 0 <= i < ps.len() ==> round_trips(#[trigger] ps[i]),
    ensures
        read_lines(ps.map_values(|p: ProfileView| record_text(p)), acc) == Ok::<Map<Seq<char>, ProfileView>, ConfigFault>(insert_profiles(ps, acc)),
    decreases ps.len(),
{
    let lines = ps.map_values(|p: ProfileView| record_text(p));
    if ps.len() > 0 {
        lemma_record_round_trip(ps[0]);
        assert(lines[0] == record_text(ps[0]));
        assert(lines.drop_first() =~= ps.drop_first().map_values(|p: ProfileView| record_text(p)));
        assert forall|i: int| 0 <= i < ps.drop_first().len() implies round_trips(#[trigger] ps.drop_first()[i]) by {
            assert(ps.drop_first()[i] == ps[i + 1]);
        }
        lemma_read_records(ps.drop_first(), acc.insert(ps[0].name, ps[0]));
    }
}

/// Writing profiles to a session file and reading it back gives the profiles
/// again, as the store that was written holds them (later profiles of a name
/// replacing earlier ones), provided each of them round-trips.
pub proof fn lemma_sessions_round_trip(ps: Seq<ProfileView>)
    requires
        forall|i: int| 0 <= i < ps.len() ==> round_trips(#[trigger] ps[i]),
    ensures
        read_sessions(sessions_text(ps)) == Ok::<Map<Seq<char>, ProfileView>, ConfigFault>(insert_profiles(ps, Map::empty())),
{
    lemma_sessions_split(ps);
    let recs = ps.map_values(|p: ProfileView| record_text(p));
    let segs = split_on(sessions_text(ps), '\n');
    assert(segs.last() == Seq::<char>::empty());
    let body = segs.take(segs.len() - 1);
    assert(body =~= seq![header_line()] + recs);
    reveal_strlit("# CrossSCP sessions v1");
    assert(strip_cr(header_line()) == header_line());
    assert forall|i: int| 0 <= i < recs.len() implies strip_cr(#[trigger] recs[i]) == recs[i] by {
        lemma_record_round_trip(ps[i]);
    }
    let lines = lines_of(sessions_text(ps));
    assert(lines =~= seq![header_line()] + recs);
    assert(skipped_line(header_line()));
    assert(lines.drop_first() =~= recs);
    lemma_read_records(ps, Map::empty());
}

proof fn lemma_insert_profiles_distinct(ps: Seq<ProfileView>, acc: Map<Seq<char>, ProfileView>)
    requires
        forall|i: int, j: int| 0 <= i < j < ps.len() ==> #[trigger] ps[i].name != #[trigger] ps[j].name,
    ensures
        forall|n: Seq<char>| #[trigger] insert_profiles(ps, acc).contains_key(n) <==> (acc.contains_key(n) || exists|i: int| 0 <= i < ps.len() && #[trigger] ps[i].name == n),
        forall|i: int| 0 <= i < ps.len() ==> #[trigger] insert_profiles(ps, acc)[ps[i].name] == ps[i],
        forall|n: Seq<char>| acc.contains_key(n) && !(exists|i: int| 0 <= i < ps.len() && #[trigger] ps[i].name == n) ==> #[trigger] insert_profiles(ps, acc)[n] == acc[n],
    decreases ps.len(),
{
    if ps.len() > 0 {
        let rest = ps.drop_first();
        let acc2 = acc.insert(ps[0].name, ps[0]);
        assert forall|i: int, j: int| 0 <= i < j < rest.len() implies #[trigger] rest[i].name != #[trigger] rest[j].name by {
            assert(rest[i] == ps[i + 1]);
            assert(rest[j] == ps[j + 1]);
        }
        lemma_insert_profiles_distinct(rest, acc2);
        let r = insert_profiles(ps, acc);
        assert(r == insert_profiles(rest, acc2));
        assert forall|n: Seq<char>| #[trigger] r.contains_key(n) <==> (acc.contains_key(n) || exists|i: int| 0 <= i < ps.len() && #[trigger] ps[i].name == n) by {
            if exists|i: int| 0 <= i < rest.len() && #[trigger] rest[i].name == n {
                let i = choose|i: int| 0 <= i < rest.len() && #[trigger] rest[i].name == n;
                assert(ps[i + 1].name == n);
            }
            if exists|i: int| 0 <= i < ps.len() && #[trigger] ps[i].name == n {
                let i = choose|i: int| 0 <= i < ps.len() && #[trigger] ps[i].name == n;
                if i > 0 {
                    assert(rest[i - 1].name == n);
                }
            }
        }
        assert forall|i: int| 0 <= i < ps.len() implies #[trigger] r[ps[i].name] == ps[i] by {
            if i > 0 {
                assert(rest[i - 1] == ps[i]);
            } else {
                assert(!(exists|j: int| 0 <= j < rest.len() && #[trigger] rest[j].name == ps[0].name)) by {
                    if exists|j: int| 0 <= j < rest.len() && #[trigger] rest[j].name == ps[0].name {
                        let j = choose|j: int| 0 <= j < rest.len() && #[trigger] rest[j].name == ps[0].name;
                        assert(ps[j + 1].name == ps[0].name);
                    }
                }
            }
        }
        assert forall|n: Seq<char>| acc.contains_key(n) && !(exists|i: int| 0 <= i < ps.len() && #[trigger] ps[i].name == n) implies #[trigger] r[n] == acc[n] by {
            assert(ps[0].name != n);
            if exists|i: int| 0 <= i < rest.len() && #[trigger] rest[i].name == n {
                let i = choose|i: int| 0 <= i < rest.len() && #[trigger] rest[i].name == n;
                assert(ps[i + 1].name == n);
            }
        }
    }
}

/// Inserting profiles with distinct names into an empty map gives back a map
/// that holds exactly them.
pub proof fn lemma_insert_profiles_listing(ps: Seq<ProfileView>, m: Map<Seq<char>, ProfileView>)
    requires
        forall|i: int, j: int| 0 <= i < j < ps.len() ==> #[trigger] ps[i].name != #[trigger] ps[j].name,
        forall|i: int| 0 <= i < ps.len() ==> m.contains_key(#[trigger] ps[i].name) && m[ps[i].name] == ps[i],
        forall|n: Seq<char>| #[trigger] m.contains_key(n) ==> exists|i: int| 0 <= i < ps.len() && #[trigger] ps[i].name == n,
    ensures
        insert_profiles(ps, Map::empty()) == m,
{
    lemma_insert_profiles_distinct(ps, Map::empty());
    let r = insert_profiles(ps, Map::empty());
    assert forall|n: Seq<char>| #[trigger] r.contains_key(n) <==> m.contains_key(n) by {}
    assert forall|n: Seq<char>| #[trigger] r.contains_key(n) implies r[n] == m[n] by {
        let i = choose|i: int| 0 <= i < ps.len() && #[trigger] ps[i].name == n;
    }
    assert(r =~= m);
}

/// A store's listing, written to a session file and read back, gives the
/// store's profiles again, provided each profile round-trips: the file store
/// keeps its profiles across a reopen.
pub proof fn lemma_store_file_round_trip(store: &InMemorySessionStore, listing: Seq<SessionProfile>)
    requires
        listing == store.listing(),
        forall|i: int, j: int| 0 <= i < j < listing.len() ==> crate::text::seq_less(
            #[trigger] listing[i].name@,
            #[trigger] listing[j].name@,
        ),
        forall|i: int| 0 <= i < listing.len() ==> store.view_map().contains_key(#[trigger] listing[i].name@)
            && store.view_map()[listing[i].name@] == listing[i]@,
        forall|n: Seq<char>| #[trigger] store.view_map().contains_key(n) ==> exists|i: int| 0 <= i < listing.len() && #[trigger] listing[i].name@ == n,
        forall|i: int| 0 <= i < listing.len() ==> round_trips(#[trigger] listing[i]@),
    ensures
        read_sessions(sessions_text(profile_views(listing))) == Ok::<Map<Seq<char>, ProfileView>, ConfigFault>(store.view_map()),
{
    let ps = profile_views(listing);
    assert forall|i: int| 0 <= i < ps.len() implies round_trips(#[trigger] ps[i]) by {
        assert(ps[i] == listing[i]@);
    }
    lemma_sessions_round_trip(ps);
    assert forall|i: int, j: int| 0 <= i < j < ps.len() implies #[trigger] ps[i].name != #[trigger] ps[j].name by {
        assert(crate::text::seq_less(listing[i].name@, listing[j].name@));
        crate::text::lemma_seq_less_irreflexive(listing[i].name@);
    }
    assert forall|n: Seq<char>| #[trigger] store.view_map().contains_key(n) implies exists|i: int| 0 <= i < ps.len() && #[trigger] ps[i].name == n by {
        let i = choose|i: int| 0 <= i < listing.len() && #[trigger] listing[i].name@ == n;
        assert(ps[i].name == n);
    }
    lemma_insert_profiles_listing(ps, store.view_map());
}

} // verus!
