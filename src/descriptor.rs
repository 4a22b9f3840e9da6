//! Parsing of connection descriptors: `key=value` pairs separated by `;`.
use vstd::prelude::*;
use crate::error::{BridgeError, ErrorClass};
use crate::text::{find_char, first_index_of, lower_of, str_eq, to_lower, trim, trim_of};

verus! {

/// The value of a text of decimal digits.
pub open spec fn digits_value(d: Seq<char>) -> int
    decreases d.len(),
{
    if d.len() == 0 {
        0
    } else {
        digits_value(d.drop_last()) * 10 + (d.last() as int - '0' as int)
    }
}

/// A port text without its optional leading `+`.
pub open spec fn port_digits(s: Seq<char>) -> Seq<char> {
    if s.len() > 0 && s[0] == '+' {
        s.subrange(1, s.len() as int)
    } else {
        s
    }
}

/// A port number as `u16`'s `FromStr` reads it: an optional `+` and at least one
/// ASCII digit, with a value that fits.
pub open spec fn port_of(s: Seq<char>) -> Option<u16> {
    let d = port_digits(s);
    if d.len() > 0 && all_digits(d) && digits_value(d) <= 65535 {
        Some(digits_value(d) as u16)
    } else {
        None
    }
}

/// Every character of `d` is an ASCII digit.
pub open spec fn all_digits(d: Seq<char>) -> bool {
    forall|i: int| 0 <= i < d.len() ==> '0' <= #[trigger] d[i] <= '9'
}

proof fn lemma_digits_prefix(d: Seq<char>, k: int)
    requires
        all_digits(d),
        0 <= k <= d.len(),
    ensures
        0 <= digits_value(d.subrange(0, k)) <= digits_value(d),
    decreases d.len(),
{
    if k < d.len() {
        let e = d.drop_last();
        assert(e.subrange(0, k) =~= d.subrange(0, k));
        lemma_digits_prefix(e, k);
        lemma_digits_prefix(e, e.len() as int);
        assert(e.subrange(0, e.len() as int) =~= e);
    } else {
        assert(d.subrange(0, k) =~= d);
        if d.len() > 0 {
            let e = d.drop_last();
            lemma_digits_prefix(e, e.len() as int);
            assert(e.subrange(0, e.len() as int) =~= e);
        }
    }
}

/// Reads a port number as `u16`'s `FromStr` does.
pub fn parse_port(s: &str) -> (r: Option<u16>)
    ensures
        r == port_of(s@),
{
    let n = s.unicode_len();
    let start: usize = if n > 0 && s.get_char(0) == '+' {
        1
    } else {
        0
    };
    let ghost d = port_digits(s@);
    proof {
        assert(d =~= s@.subrange(start as int, n as int));
    }
    if start >= n {
        return None;
    }
    let mut v: u32 = 0;
    let mut i: usize = start;
    while i < n
        invariant
            n == s@.len(),
            start <= i <= n,
            d == s@.subrange(start as int, n as int),
            d == port_digits(s@),
            all_digits(d.subrange(0, i - start)),
            v as int == digits_value(d.subrange(0, i - start)),
            v <= 65535,
        decreases n - i,
    {
        let c = s.get_char(i);
        if !('0' <= c && c <= '9') {
            proof {
                assert(d[i - start] == c);
                assert(!all_digits(d));
            }
            return None;
        }
        let nv: u32 = v * 10 + (c as u32 - '0' as u32);
        proof {
            let p = d.subrange(0, i - start + 1);
            assert(p.drop_last() =~= d.subrange(0, i - start));
            assert(p.last() == c);
            assert(all_digits(p));
        }
        if nv > 65535 {
            proof {
                if all_digits(d) {
                    lemma_digits_prefix(d, i - start + 1);
                    assert(digits_value(d) > 65535);
                }
            }
            return None;
        }
        v = nv;
        i = i + 1;
    }
    proof {
        assert(d.subrange(0, n - start) =~= d);
    }
    Some(v as u16)
}

/// `v` equals `true` when ASCII case is ignored.
pub open spec fn is_true_word(v: Seq<char>) -> bool {
    v.len() == 4 && (v[0] == 't' || v[0] == 'T') && (v[1] == 'r' || v[1] == 'R') && (v[2] == 'u'
        || v[2] == 'U') && (v[3] == 'e' || v[3] == 'E')
}

/// Whether a trust flag value turns certificate trust on.
pub open spec fn enables_trust(v: Seq<char>) -> bool {
    is_true_word(v) || v == seq!['1']
}

/// What a recognized key sets.
#[derive(Clone, Copy, Debug, PartialEq, Eq, Structural)]
pub enum KeyRole {
    Host,
    Port,
    User,
    Password,
    Database,
    TrustCert,
    Other,
}

/// The role of a lower-cased key.
pub open spec fn role_of(k: Seq<char>) -> KeyRole {
    if k == "server"@ || k == "host"@ {
        KeyRole::Host
    } else if k == "port"@ {
        KeyRole::Port
    } else if k == "user id"@ || k == "uid"@ || k == "user"@ {
        KeyRole::User
    } else if k == "password"@ || k == "pwd"@ {
        KeyRole::Password
    } else if k == "database"@ || k == "initial catalog"@ {
        KeyRole::Database
    } else if k == "trust server certificate"@ {
        KeyRole::TrustCert
    } else {
        KeyRole::Other
    }
}

/// Driver settings read from a descriptor.
pub struct ConnSettings {
    /// Server name; empty when the descriptor gave none.
    pub host: String,
    pub port: Option<u16>,
    /// User name; no credential is used when empty.
    pub user: String,
    pub password: String,
    pub database: Option<String>,
    pub trust_cert: bool,
}

/// The mathematical value of [`ConnSettings`].
pub struct SettingsView {
    pub host: Seq<char>,
    pub port: Option<u16>,
    pub user: Seq<char>,
    pub password: Seq<char>,
    pub database: Option<Seq<char>>,
    pub trust_cert: bool,
}

impl View for ConnSettings {
    type V = SettingsView;

    open spec fn view(&self) -> SettingsView {
        SettingsView {
            host: self.host@,
            port: self.port,
            user: self.user@,
            password: self.password@,
            database: match self.database {
                Some(d) => Some(d@),
                None => None,
            },
            trust_cert: self.trust_cert,
        }
    }
}

/// Settings before any pair is read.
pub open spec fn empty_settings() -> SettingsView {
    SettingsView {
        host: seq![],
        port: None,
        user: seq![],
        password: seq![],
        database: None,
        trust_cert: false,
    }
}

/// The effect of one recognized key with its (trimmed) value.
pub open spec fn apply_key(st: SettingsView, role: KeyRole, v: Seq<char>) -> SettingsView {
    match role {
        KeyRole::Host => SettingsView { host: v, ..st },
        KeyRole::Port => match port_of(v) {
            Some(n) => SettingsView { port: Some(n), ..st },
            None => st,
        },
        KeyRole::User => SettingsView { user: v, ..st },
        KeyRole::Password => SettingsView { password: v, ..st },
        KeyRole::Database => SettingsView { database: Some(v), ..st },
        KeyRole::TrustCert => if enables_trust(v) {
            SettingsView { trust_cert: true, ..st }
        } else {
            st
        },
        KeyRole::Other => st,
    }
}

/// The effect of one `;`-separated segment: blank segments and segments
/// without `=` are skipped; the key is trimmed and lower-cased, the value
/// trimmed.
pub open spec fn apply_segment(st: SettingsView, seg: Seq<char>) -> SettingsView {
    let part = trim_of(seg);
    if part.len() == 0 {
        st
    } else {
        match first_index_of(part, '=') {
            None => st,
            Some(p) => apply_key(
                st,
                role_of(lower_of(trim_of(part.subrange(0, p)))),
                trim_of(part.subrange(p + 1, part.len() as int)),
            ),
        }
    }
}

/// Reads `s` from position `i`, the current segment having started at `start`.
pub open spec fn parse_from(s: Seq<char>, i: int, start: int, st: SettingsView) -> SettingsView
    decreases s.len() - i,
{
    if i >= s.len() {
        apply_segment(st, s.subrange(start, s.len() as int))
    } else if s[i] == ';' {
        parse_from(s, i + 1, i + 1, apply_segment(st, s.subrange(start, i)))
    } else {
        parse_from(s, i + 1, start, st)
    }
}

/// The settings that a descriptor describes, later pairs overriding earlier.
pub open spec fn settings_of(s: Seq<char>) -> SettingsView {
    parse_from(s, 0, 0, empty_settings())
}

/// A descriptor is usable when it names a server.
pub open spec fn descriptor_ok(s: Seq<char>) -> bool {
    settings_of(s).host.len() > 0
}

fn key_role(k: &str) -> (r: KeyRole)
    ensures
        r == role_of(k@),
{
    if str_eq(k, "server") || str_eq(k, "host") {
        KeyRole::Host
    } else if str_eq(k, "port") {
        KeyRole::Port
    } else if str_eq(k, "user id") || str_eq(k, "uid") || str_eq(k, "user") {
        KeyRole::User
    } else if str_eq(k, "password") || str_eq(k, "pwd") {
        KeyRole::Password
    } else if str_eq(k, "database") || str_eq(k, "initial catalog") {
        KeyRole::Database
    } else if str_eq(k, "trust server certificate") {
        KeyRole::TrustCert
    } else {
        KeyRole::Other
    }
}

fn trust_value(v: &str) -> (r: bool)
    ensures
        r == enables_trust(v@),
{
    proof {
        reveal_strlit("1");
        assert("1"@ =~= seq!['1']);
    }
    if str_eq(v, "1") {
        return true;
    }
    if v.unicode_len() != 4 {
        return false;
    }
    let c0 = v.get_char(0);
    let c1 = v.get_char(1);
    let c2 = v.get_char(2);
    let c3 = v.get_char(3);
    (c0 == 't' || c0 == 'T') && (c1 == 'r' || c1 == 'R') && (c2 == 'u' || c2 == 'U') && (c3 == 'e'
        || c3 == 'E')
}

impl ConnSettings {
    pub fn empty() -> (r: ConnSettings)
        ensures
            r@ == empty_settings(),
    {
        ConnSettings {
            host: String::new(),
            port: None,
            user: String::new(),
            password: String::new(),
            database: None,
            trust_cert: false,
        }
    }

    /// The user and password, combined into one credential, when a user is given.
    pub fn credential(&self) -> (r: Option<(String, String)>)
        ensures
            r matches Some(c) ==> self.user@.len() > 0 && c.0@ == self.user@ && c.1@
                == self.password@,
            r is None ==> self.user@.len() == 0,
    {
        if self.user.unicode_len() == 0 {
            None
        } else {
            Some((self.user.clone(), self.password.clone()))
        }
    }

    fn apply_segment(&mut self, seg: &str)
        ensures
            final(self)@ == apply_segment(old(self)@, seg@),
    {
        let part = trim(seg);
        if part.unicode_len() == 0 {
            return;
        }
        let n = part.unicode_len();
        match find_char(part, '=') {
            None => {},
            Some(p) => {
                let key = to_lower(trim(part.substring_char(0, p)));
                let value = trim(part.substring_char(p + 1, n));
                match key_role(key.as_str()) {
                    KeyRole::Host => {
                        self.host = value.to_owned();
                    },
                    KeyRole::Port => {
                        match parse_port(value) {
                            Some(port) => {
                                self.port = Some(port);
                            },
                            None => {},
                        }
                    },
                    KeyRole::User => {
                        self.user = value.to_owned();
                    },
                    KeyRole::Password => {
                        self.password = value.to_owned();
                    },
                    KeyRole::Database => {
                        self.database = Some(value.to_owned());
                    },
                    KeyRole::TrustCert => {
                        if trust_value(value) {
                            self.trust_cert = true;
                        }
                    },
                    KeyRole::Other => {},
                }
            },
        }
    }
}

/// Reads a descriptor into settings. Fails, as a connectivity error, exactly
/// when no server is named.
pub fn parse_connection_string(s: &str) -> (r: Result<ConnSettings, BridgeError>)
    ensures
        r matches Ok(c) ==> descriptor_ok(s@) && c@ == settings_of(s@),
        r matches Err(e) ==> !descriptor_ok(s@) && e.class == ErrorClass::Connectivity,
{
    let n = s.unicode_len();
    let mut st = ConnSettings::empty();
    let mut start: usize = 0;
    let mut i: usize = 0;
    while i < n
        invariant
            n == s@.len(),
            start <= i <= n,
            parse_from(s@, i as int, start as int, st@) == settings_of(s@),
        decreases n - i,
    {
        if s.get_char(i) == ';' {
            st.apply_segment(s.substring_char(start, i));
            start = i + 1;
        }
        i = i + 1;
    }
    st.apply_segment(s.substring_char(start, n));
    if st.host.unicode_len() == 0 {
        Err(BridgeError::new(ErrorClass::Connectivity, "Failed to parse connection string: no server given"))
    } else {
        Ok(st)
    }
}

} // verus!
