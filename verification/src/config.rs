//! The configuration file: one proxied homeserver per section, with defaults for
//! all of them in the section `Default`.

use vstd::prelude::*;
use crate::text::{parse_number, same, trimmed};

verus! {

/// Why a configuration was refused.
#[derive(Debug)]
pub struct PanConfigError(pub String);

/// How much the daemon logs.
#[derive(Debug, Clone, Copy, PartialEq, Eq, Structural)]
pub enum LogLevel {
    Error,
    Warning,
    Info,
    Debug,
}

/// The settings of one proxied homeserver.
#[derive(Debug, Clone)]
pub struct ServerConfig {
    pub name: String,
    /// The URL of the homeserver.
    pub homeserver: String,
    /// The IP address to listen on.
    pub listen_address: String,
    pub listen_port: u16,
    /// The URL of a proxy on the way to the homeserver.
    pub proxy: Option<String>,
    pub ssl: bool,
    pub ignore_verification: bool,
    pub use_keyring: bool,
    pub search_requests: bool,
    pub index_encrypted_only: bool,
    pub indexing_batch_size: u32,
    /// The delay between two batches of history, in milliseconds.
    pub history_fetch_delay: u32,
    pub drop_old_keys: bool,
}

/// The whole configuration.
#[derive(Debug)]
pub struct PanConfig {
    pub log_level: LogLevel,
    pub debug_encryption: bool,
    pub notifications: bool,
    /// The servers under their section names, in the order of the file.
    pub servers: indexmap::IndexMap<String, ServerConfig>,
}

/// What the settings of a homeserver mean.
#[verifier::ext_equal]
pub struct ServerView {
    pub name: Seq<char>,
    pub homeserver: Seq<char>,
    pub listen_address: Seq<char>,
    pub listen_port: nat,
    pub proxy: Option<Seq<char>>,
    pub ssl: bool,
    pub ignore_verification: bool,
    pub use_keyring: bool,
    pub search_requests: bool,
    pub index_encrypted_only: bool,
    pub indexing_batch_size: nat,
    pub history_fetch_delay: nat,
    pub drop_old_keys: bool,
}

impl View for ServerConfig {
    type V = ServerView;

    open spec fn view(&self) -> ServerView {
        ServerView {
            name: self.name@,
            homeserver: self.homeserver@,
            listen_address: self.listen_address@,
            listen_port: self.listen_port as nat,
            proxy: match self.proxy {
                Some(p) => Some(p@),
                None => None,
            },
            ssl: self.ssl,
            ignore_verification: self.ignore_verification,
            use_keyring: self.use_keyring,
            search_requests: self.search_requests,
            index_encrypted_only: self.index_encrypted_only,
            indexing_batch_size: self.indexing_batch_size as nat,
            history_fetch_delay: self.history_fetch_delay as nat,
            drop_old_keys: self.drop_old_keys,
        }
    }
}

/// What a configuration means: its servers in order.
#[verifier::ext_equal]
pub struct ConfigView {
    pub log_level: LogLevel,
    pub debug_encryption: bool,
    pub notifications: bool,
    pub servers: Seq<(Seq<char>, ServerView)>,
}

impl View for PanConfig {
    type V = ConfigView;

    open spec fn view(&self) -> ConfigView {
        ConfigView {
            log_level: self.log_level,
            debug_encryption: self.debug_encryption,
            notifications: self.notifications,
            servers: servers_held(self.servers),
        }
    }
}

/// A section of an INI file: its name, and its keys, each with its value if it has one.
#[derive(Debug)]
pub struct IniSection {
    pub name: String,
    pub entries: Vec<(String, Option<String>)>,
}

/// An INI file, with its sections in order.
#[derive(Debug)]
pub struct IniFile {
    pub sections: Vec<IniSection>,
}

/// What an INI file means: the names of its sections in order, and the values under a
/// section and a key.
pub struct IniView {
    pub sections: Seq<Seq<char>>,
    pub values: Map<(Seq<char>, Seq<char>), Seq<char>>,
}

/// The value under a key in a list of keys and values.
pub open spec fn entry_value(entries: Seq<(String, Option<String>)>, key: Seq<char>) -> Option<
    Seq<char>,
>
    decreases entries.len(),
{
    if entries.len() == 0 {
        None
    } else if entries[0].0@ == key {
        match entries[0].1 {
            Some(v) => Some(v@),
            None => None,
        }
    } else {
        entry_value(entries.drop_first(), key)
    }
}

/// The value under a section and a key.
pub open spec fn value_in(sections: Seq<IniSection>, section: Seq<char>, key: Seq<char>) -> Option<
    Seq<char>,
>
    decreases sections.len(),
{
    if sections.len() == 0 {
        None
    } else if sections[0].name@ == section {
        entry_value(sections[0].entries@, key)
    } else {
        value_in(sections.drop_first(), section, key)
    }
}

impl View for IniFile {
    type V = IniView;

    open spec fn view(&self) -> IniView {
        IniView {
            sections: self.sections@.map_values(|s: IniSection| s.name@),
            values: Map::new(
                |p: (Seq<char>, Seq<char>)| value_in(self.sections@, p.0, p.1) is Some,
                |p: (Seq<char>, Seq<char>)| value_in(self.sections@, p.0, p.1).unwrap(),
            ),
        }
    }
}

impl IniFile {
    /// Whether no section comes twice.
    pub open spec fn wf(&self) -> bool {
        self@.sections.no_duplicates()
    }

    /// The value under a section and a key.
    pub fn get(&self, section: &str, key: &str) -> (r: Option<String>)
        ensures
            r is Some <==> self@.values.contains_key((section@, key@)),
            r matches Some(v) ==> v@ == self@.values[(section@, key@)],
    {
        let mut i: usize = 0;
        assert(self.sections@.skip(0) == self.sections@);
        while i < self.sections.len()
            invariant
                i <= self.sections@.len(),
                value_in(self.sections@.skip(i as int), section@, key@) == value_in(
                    self.sections@,
                    section@,
                    key@,
                ),
            decreases self.sections@.len() - i,
        {
            assert(self.sections@.skip(i as int)[0] == self.sections@[i as int]);
            assert(self.sections@.skip(i as int).drop_first() == self.sections@.skip(i + 1));
            if same(self.sections[i].name.as_str(), section) {
                return find_entry(&self.sections[i].entries, key);
            }
            i = i + 1;
        }
        None
    }

    /// The names of the sections, in order.
    fn names(&self) -> (r: Vec<String>)
        ensures
            r@.map_values(|s: String| s@) == self@.sections,
    {
        let mut out: Vec<String> = Vec::new();
        let mut i: usize = 0;
        while i < self.sections.len()
            invariant
                i <= self.sections@.len(),
                out@.len() == i,
                forall|j: int| 0 <= j < i ==> (#[trigger] out@[j])@ == self.sections@[j].name@,
            decreases self.sections@.len() - i,
        {
            out.push(self.sections[i].name.clone());
            i = i + 1;
        }
        assert(out@.map_values(|s: String| s@) =~= self@.sections);
        out
    }
}

/// The value under a key in a list of keys and values.
fn find_entry(entries: &Vec<(String, Option<String>)>, key: &str) -> (r: Option<String>)
    ensures
        r is Some <==> entry_value(entries@, key@) is Some,
        r matches Some(v) ==> entry_value(entries@, key@) == Some(v@),
{
    let mut i: usize = 0;
    assert(entries@.skip(0) == entries@);
    while i < entries.len()
        invariant
            i <= entries@.len(),
            entry_value(entries@.skip(i as int), key@) == entry_value(entries@, key@),
        decreases entries@.len() - i,
    {
        assert(entries@.skip(i as int)[0] == entries@[i as int]);
        assert(entries@.skip(i as int).drop_first() == entries@.skip(i + 1));
        if same(entries[i].0.as_str(), key) {
            return match &entries[i].1 {
                Some(v) => Some(v.clone()),
                None => None,
            };
        }
        i = i + 1;
    }
    None
}

/// Why `url` refuses a text.
#[verifier::external_type_specification]
#[verifier::external_body]
pub struct ExParseError(url::ParseError);

/// A map that keeps its keys in the order in which they came.
#[verifier::external_type_specification]
#[verifier::external_body]
#[verifier::reject_recursive_types(K)]
#[verifier::reject_recursive_types(V)]
#[verifier::reject_recursive_types(S)]
pub struct ExIndexMap<K, V, S>(indexmap::IndexMap<K, V, S>);

/// What `configparser` makes of a text, or why it refuses it.
pub uninterp spec fn ini_parsed(text: Seq<char>) -> Result<IniView, Seq<char>>;

/// The URL that `url` reads out of a text, written out in full.
pub uninterp spec fn url_parsed(text: Seq<char>) -> Option<Seq<char>>;

/// A text in lower case.
pub uninterp spec fn lowercased(text: Seq<char>) -> Seq<char>;

/// The servers in a map, in order.
pub uninterp spec fn servers_held(m: indexmap::IndexMap<String, ServerConfig>) -> Seq<
    (Seq<char>, ServerView),
>;

/// An ASCII character in lower case.
pub open spec fn ascii_lower(c: char) -> char {
    if 'A' <= c <= 'Z' {
        (c as int + 32) as char
    } else {
        c
    }
}

/// Whether all characters are ASCII.
pub open spec fn all_ascii(s: Seq<char>) -> bool {
    forall|i: int| 0 <= i < s.len() ==> #[trigger] s[i] as int <= 127
}

/// A text in lower case: ASCII letter by letter, and any other text as Unicode has it.
pub open spec fn lowered(text: Seq<char>) -> Seq<char> {
    if all_ascii(text) {
        text.map_values(|c: char| ascii_lower(c))
    } else {
        lowercased(text)
    }
}

/// `Ini::read` on a parser made by `Ini::new_cs`, which keeps the case of names: what it
/// returns, or its complaint, depends on the text alone. It returns a map of sections that
/// keeps their order, so that none comes twice. The parser counts lines from one in 31 bits,
/// and goes one beyond the last.
#[verifier::external_body]
fn read_ini(text: String) -> (r: Result<IniFile, String>)
    requires
        text@.len() < 0x7fff_fffe,
    ensures
        r is Ok <==> ini_parsed(text@) is Ok,
        r matches Ok(ini) ==> ini_parsed(text@)->Ok_0 == ini@,
        r matches Ok(ini) ==> ini.wf(),
        r matches Err(why) ==> ini_parsed(text@)->Err_0 == why@,
{
    let map = configparser::ini::Ini::new_cs().read(text)?;
    let sections = map.into_iter().map(|(name, entries)| IniSection {
        name,
        entries: entries.into_iter().collect(),
    }).collect();
    Ok(IniFile { sections })
}

/// `url::Url::parse`, and the URL written out: both depend on the text alone.
#[verifier::external_body]
fn parse_url(text: &str) -> (r: Result<String, url::ParseError>)
    ensures
        r is Ok <==> url_parsed(text@) is Some,
        r matches Ok(u) ==> url_parsed(text@) == Some(u@),
{
    url::Url::parse(text).map(String::from)
}

/// `str::to_lowercase`, which goes by Unicode and depends on the text alone. On ASCII
/// it changes the capital letters and nothing else.
#[verifier::external_body]
fn lower_case(text: &str) -> (r: String)
    ensures
        r@ == lowercased(text@),
        all_ascii(text@) ==> r@ == text@.map_values(|c: char| ascii_lower(c)),
{
    text.to_lowercase()
}

/// `IndexMap::new` holds nothing.
#[verifier::external_body]
fn no_servers() -> (r: indexmap::IndexMap<String, ServerConfig>)
    ensures
        servers_held(r) == Seq::<(Seq<char>, ServerView)>::empty(),
{
    indexmap::IndexMap::new()
}

/// `IndexMap::insert` puts a new key last; a key that is there keeps its place and
/// gets the new value.
#[verifier::external_body]
fn put_server(m: &mut indexmap::IndexMap<String, ServerConfig>, name: String, server: ServerConfig)
    ensures
        (forall|i: int|
            0 <= i < servers_held(*old(m)).len() ==> (#[trigger] servers_held(*old(m))[i]).0
                != name@) ==> servers_held(*final(m)) == servers_held(*old(m)).push(
            (name@, server@),
        ),
        forall|i: int|
            0 <= i < servers_held(*old(m)).len() && (#[trigger] servers_held(*old(m))[i]).0 == name@
                ==> servers_held(*final(m)) == servers_held(*old(m)).update(i, (name@, server@)),
{
    m.insert(name, server);
}

/// `IndexMap::is_empty`.
#[verifier::external_body]
fn servers_empty(m: &indexmap::IndexMap<String, ServerConfig>) -> (r: bool)
    ensures
        r == (servers_held(*m).len() == 0),
{
    m.is_empty()
}

/// The value of a setting: that of the section, or else that of `Default`.
pub open spec fn setting(ini: IniView, section: Seq<char>, key: Seq<char>) -> Option<Seq<char>> {
    if ini.values.contains_key((section, key)) {
        Some(ini.values[(section, key)])
    } else if ini.values.contains_key(("Default"@, key)) {
        Some(ini.values[("Default"@, key)])
    } else {
        None
    }
}

/// The truth value that a word in lower case stands for.
pub open spec fn bool_word(word: Seq<char>) -> Option<bool> {
    if word == "true"@ || word == "yes"@ || word == "on"@ || word == "1"@ {
        Some(true)
    } else if word == "false"@ || word == "no"@ || word == "off"@ || word == "0"@ {
        Some(false)
    } else {
        None
    }
}

/// What is wrong with a switch, where something is.
pub open spec fn switch_error(ini: IniView, section: Seq<char>, key: Seq<char>) -> Option<
    Seq<char>,
> {
    match setting(ini, section, key) {
        Some(v) => if bool_word(lowered(v)) is None {
            Some("Invalid boolean '"@ + lowered(v) + "' for key '"@ + key + "'"@)
        } else {
            None
        },
        None => None,
    }
}

/// A switch, with its default.
pub open spec fn switch_value(
    ini: IniView,
    section: Seq<char>,
    key: Seq<char>,
    default: bool,
) -> bool {
    match setting(ini, section, key) {
        Some(v) => bool_word(lowered(v)).unwrap(),
        None => default,
    }
}

/// The number in a setting, where it is one of at most `max`.
pub open spec fn number_in(v: Seq<char>, max: nat) -> Option<nat> {
    match crate::text::number_value(crate::text::trim(v)) {
        Some(n) => if n <= max {
            Some(n)
        } else {
            None
        },
        None => None,
    }
}

/// What is wrong with a number, where something is.
pub open spec fn number_error(ini: IniView, section: Seq<char>, key: Seq<char>, max: nat) -> Option<
    Seq<char>,
> {
    match setting(ini, section, key) {
        Some(v) => if number_in(v, max) is None {
            Some("Invalid integer '"@ + v + "' for key '"@ + key + "'"@)
        } else {
            None
        },
        None => None,
    }
}

/// A number, with its default.
pub open spec fn number_setting(
    ini: IniView,
    section: Seq<char>,
    key: Seq<char>,
    max: nat,
    default: nat,
) -> nat {
    match setting(ini, section, key) {
        Some(v) => number_in(v, max).unwrap(),
        None => default,
    }
}

/// A complaint about a section.
pub open spec fn in_section(section: Seq<char>, what: Seq<char>) -> Seq<char> {
    "["@ + section + "] "@ + what
}

/// The address under `literal` in a list of IP addresses and the ways to write them.
pub open spec fn listed_address(
    addresses: Seq<(Seq<char>, Seq<char>)>,
    literal: Seq<char>,
) -> Option<Seq<char>>
    decreases addresses.len(),
{
    if addresses.len() == 0 {
        None
    } else if addresses[0].0 == literal {
        Some(addresses[0].1)
    } else {
        listed_address(addresses.drop_first(), literal)
    }
}

/// The text of the address that a section listens on.
pub open spec fn address_setting(ini: IniView, section: Seq<char>) -> Seq<char> {
    match setting(ini, section, "ListenAddress"@) {
        Some(v) => v,
        None => "localhost"@,
    }
}

/// The IP address that a text means.
pub open spec fn address_of(addresses: Seq<(Seq<char>, Seq<char>)>, text: Seq<char>) -> Option<
    Seq<char>,
> {
    if text == "localhost"@ {
        Some("127.0.0.1"@)
    } else {
        listed_address(addresses, text)
    }
}

/// What is wrong with a section, where something is: the first of its complaints.
pub open spec fn server_error(
    ini: IniView,
    section: Seq<char>,
    addresses: Seq<(Seq<char>, Seq<char>)>,
) -> Option<Seq<char>> {
    let homeserver = setting(ini, section, "Homeserver"@);
    let proxy = setting(ini, section, "Proxy"@);
    let batch = number_setting(ini, section, "IndexingBatchSize"@, u32::MAX as nat, 100);
    let delay = number_setting(ini, section, "HistoryFetchDelay"@, u32::MAX as nat, 3000);
    if homeserver is None {
        Some(in_section(section, "Homeserver is required"@))
    } else if url_parsed(homeserver.unwrap()) is None {
        Some(in_section(section, "Invalid Homeserver URL"@))
    } else if address_of(addresses, address_setting(ini, section)) is None {
        Some(in_section(section, "Invalid ListenAddress"@))
    } else if number_error(ini, section, "ListenPort"@, u16::MAX as nat) is Some {
        number_error(ini, section, "ListenPort"@, u16::MAX as nat)
    } else if proxy is Some && url_parsed(proxy.unwrap()) is None {
        Some(in_section(section, "Invalid Proxy URL"@))
    } else if switch_error(ini, section, "UseSSL"@) is Some {
        switch_error(ini, section, "UseSSL"@)
    } else if switch_error(ini, section, "IgnoreVerification"@) is Some {
        switch_error(ini, section, "IgnoreVerification"@)
    } else if switch_error(ini, section, "UseKeyring"@) is Some {
        switch_error(ini, section, "UseKeyring"@)
    } else if switch_error(ini, section, "SearchRequests"@) is Some {
        switch_error(ini, section, "SearchRequests"@)
    } else if switch_error(ini, section, "IndexEncryptedOnly"@) is Some {
        switch_error(ini, section, "IndexEncryptedOnly"@)
    } else if switch_error(ini, section, "DropOldKeys"@) is Some {
        switch_error(ini, section, "DropOldKeys"@)
    } else if number_error(ini, section, "IndexingBatchSize"@, u32::MAX as nat) is Some {
        number_error(ini, section, "IndexingBatchSize"@, u32::MAX as nat)
    } else if !(1 < batch <= 1000) {
        Some(in_section(section, "IndexingBatchSize must be between 1 and 1000"@))
    } else if number_error(ini, section, "HistoryFetchDelay"@, u32::MAX as nat) is Some {
        number_error(ini, section, "HistoryFetchDelay"@, u32::MAX as nat)
    } else if !(100 < delay <= 10000) {
        Some(in_section(section, "HistoryFetchDelay must be between 100 and 10000 ms"@))
    } else {
        None
    }
}

/// What a section without errors says.
pub open spec fn server_view(
    ini: IniView,
    section: Seq<char>,
    addresses: Seq<(Seq<char>, Seq<char>)>,
) -> ServerView {
    ServerView {
        name: section,
        homeserver: url_parsed(setting(ini, section, "Homeserver"@).unwrap()).unwrap(),
        listen_address: address_of(addresses, address_setting(ini, section)).unwrap(),
        listen_port: number_setting(ini, section, "ListenPort"@, u16::MAX as nat, 8009),
        proxy: match setting(ini, section, "Proxy"@) {
            Some(p) => url_parsed(p),
            None => None,
        },
        ssl: switch_value(ini, section, "UseSSL"@, true),
        ignore_verification: switch_value(ini, section, "IgnoreVerification"@, false),
        use_keyring: switch_value(ini, section, "UseKeyring"@, true),
        search_requests: switch_value(ini, section, "SearchRequests"@, false),
        index_encrypted_only: switch_value(ini, section, "IndexEncryptedOnly"@, true),
        indexing_batch_size: number_setting(
            ini,
            section,
            "IndexingBatchSize"@,
            u32::MAX as nat,
            100,
        ),
        history_fetch_delay: number_setting(
            ini,
            section,
            "HistoryFetchDelay"@,
            u32::MAX as nat,
            3000,
        ),
        drop_old_keys: switch_value(ini, section, "DropOldKeys"@, false),
    }
}

/// The servers in a list of sections, or what is wrong with the first bad one.
pub open spec fn servers_view(
    ini: IniView,
    sections: Seq<Seq<char>>,
    addresses: Seq<(Seq<char>, Seq<char>)>,
) -> Result<Seq<(Seq<char>, ServerView)>, Seq<char>>
    decreases sections.len(),
{
    if sections.len() == 0 {
        Ok(Seq::empty())
    } else {
        let section = sections.last();
        match servers_view(ini, sections.drop_last(), addresses) {
            Err(e) => Err(e),
            Ok(before) => if section == "Default"@ {
                Ok(before)
            } else {
                match server_error(ini, section, addresses) {
                    Some(e) => Err(e),
                    None => Ok(before.push((section, server_view(ini, section, addresses)))),
                }
            },
        }
    }
}

/// The log level that a word in lower case stands for.
pub open spec fn level_word(word: Seq<char>) -> LogLevel {
    if word == "error"@ {
        LogLevel::Error
    } else if word == "info"@ {
        LogLevel::Info
    } else if word == "debug"@ {
        LogLevel::Debug
    } else {
        LogLevel::Warning
    }
}

/// What an INI file says, or what is wrong with it.
pub open spec fn config_view(ini: IniView, addresses: Seq<(Seq<char>, Seq<char>)>) -> Result<
    ConfigView,
    Seq<char>,
> {
    if switch_error(ini, "Default"@, "DebugEncryption"@) is Some {
        Err(switch_error(ini, "Default"@, "DebugEncryption"@).unwrap())
    } else if switch_error(ini, "Default"@, "Notifications"@) is Some {
        Err(switch_error(ini, "Default"@, "Notifications"@).unwrap())
    } else {
        match servers_view(ini, ini.sections, addresses) {
            Err(e) => Err(e),
            Ok(servers) => Ok(
                ConfigView {
                    log_level: match setting(ini, "Default"@, "LogLevel"@) {
                        Some(v) => level_word(lowered(v)),
                        None => LogLevel::Warning,
                    },
                    debug_encryption: switch_value(ini, "Default"@, "DebugEncryption"@, false),
                    notifications: switch_value(ini, "Default"@, "Notifications"@, true),
                    servers,
                },
            ),
        }
    }
}

/// What a configuration file at `path` says, or why it is refused.
pub open spec fn file_view(
    path: Seq<char>,
    text: Seq<char>,
    addresses: Seq<(Seq<char>, Seq<char>)>,
) -> Result<ConfigView, Seq<char>> {
    match ini_parsed(text) {
        Ok(ini) => config_view(ini, addresses),
        Err(why) => Err(
            "Failed to read config "@ + path + ": couldn't read "@ + path + ": "@ + why,
        ),
    }
}

/// A list of addresses by the characters of their texts.
pub open spec fn address_views(addresses: Seq<(String, String)>) -> Seq<(Seq<char>, Seq<char>)> {
    addresses.map_values(|p: (String, String)| (p.0@, p.1@))
}

/// The texts that stand for the addresses of a list of sections, where they need to
/// be read as IP addresses.
pub open spec fn literals_of(ini: IniView, sections: Seq<Seq<char>>) -> Seq<Seq<char>>
    decreases sections.len(),
{
    if sections.len() == 0 {
        Seq::empty()
    } else {
        let before = literals_of(ini, sections.drop_last());
        let text = address_setting(ini, sections.last());
        if sections.last() == "Default"@ || text == "localhost"@ {
            before
        } else {
            before.push(text)
        }
    }
}

/// What is wrong with a section stays wrong, whatever follows it.
proof fn lemma_error_stays(
    ini: IniView,
    sections: Seq<Seq<char>>,
    addresses: Seq<(Seq<char>, Seq<char>)>,
    n: int,
)
    requires
        0 <= n <= sections.len(),
        servers_view(ini, sections.take(n), addresses) is Err,
    ensures
        servers_view(ini, sections, addresses) == servers_view(ini, sections.take(n), addresses),
    decreases sections.len() - n,
{
    if n < sections.len() {
        assert(sections.drop_last().take(n) == sections.take(n));
        lemma_error_stays(ini, sections.drop_last(), addresses, n);
    } else {
        assert(sections.take(n) == sections);
    }
}

/// Every configured server comes from one of the sections, and from none twice.
proof fn lemma_servers(
    ini: IniView,
    sections: Seq<Seq<char>>,
    addresses: Seq<(Seq<char>, Seq<char>)>,
)
    requires
        sections.no_duplicates(),
        servers_view(ini, sections, addresses) is Ok,
    ensures
        forall|i: int|
            0 <= i < servers_view(ini, sections, addresses)->Ok_0.len() ==> {
                let server = #[trigger] servers_view(ini, sections, addresses)->Ok_0[i];
                &&& sections.contains(server.0)
                &&& server.0 != "Default"@
                &&& server_error(ini, server.0, addresses) is None
                &&& server.1 == server_view(ini, server.0, addresses)
            },
        forall|i: int, j: int|
            0 <= i < j < servers_view(ini, sections, addresses)->Ok_0.len()
                ==> servers_view(ini, sections, addresses)->Ok_0[i].0 != servers_view(
                ini,
                sections,
                addresses,
            )->Ok_0[j].0,
    decreases sections.len(),
{
    if sections.len() > 0 {
        let before = sections.drop_last();
        assert(before.no_duplicates());
        lemma_servers(ini, before, addresses);
        let old_servers = servers_view(ini, before, addresses)->Ok_0;
        let servers = servers_view(ini, sections, addresses)->Ok_0;
        assert forall|i: int| 0 <= i < servers.len() implies {
            let server = #[trigger] servers[i];
            &&& sections.contains(server.0)
            &&& server.0 != "Default"@
            &&& server_error(ini, server.0, addresses) is None
            &&& server.1 == server_view(ini, server.0, addresses)
        } by {
            if i < old_servers.len() {
                assert(servers[i] == old_servers[i]);
                let k = choose|k: int| 0 <= k < before.len() && before[k] == servers[i].0;
                assert(sections[k] == servers[i].0);
            } else {
                assert(sections[sections.len() - 1] == servers[i].0);
            }
        }
        assert forall|i: int, j: int| 0 <= i < j < servers.len() implies servers[i].0
            != servers[j].0 by {
            assert(servers[i] == old_servers[i]);
            let k = choose|k: int| 0 <= k < before.len() && before[k] == old_servers[i].0;
            if j < old_servers.len() {
                assert(servers[j] == old_servers[j]);
            } else {
                assert(sections[k] != sections[sections.len() - 1]);
            }
        }
    }
}

/// Whether no server comes twice, none is called `Default`, and the size of the
/// batches and the delay between them are within bounds.
pub open spec fn well_configured(servers: Seq<(Seq<char>, ServerView)>) -> bool {
    &&& forall|i: int, j: int|
        0 <= i < j < servers.len() ==> (#[trigger] servers[i]).0 != (#[trigger] servers[j]).0
    &&& forall|i: int|
        0 <= i < servers.len() ==> {
            let (name, server) = #[trigger] servers[i];
            &&& name == server.name
            &&& name != "Default"@
            &&& 1 < server.indexing_batch_size <= 1000
            &&& 100 < server.history_fetch_delay <= 10000
            &&& server.listen_port <= u16::MAX
        }
}

/// The servers of an INI file without a repeated section are well configured, where
/// they are accepted.
proof fn lemma_well_configured(ini: IniView, addresses: Seq<(Seq<char>, Seq<char>)>)
    requires
        ini.sections.no_duplicates(),
        servers_view(ini, ini.sections, addresses) is Ok,
    ensures
        well_configured(servers_view(ini, ini.sections, addresses)->Ok_0),
{
    lemma_servers(ini, ini.sections, addresses);
    let servers = servers_view(ini, ini.sections, addresses)->Ok_0;
    assert forall|i: int| 0 <= i < servers.len() implies (#[trigger] servers[i]).1.listen_port
        <= u16::MAX by {
        let name = servers[i].0;
        assert(server_error(ini, name, addresses) is None);
        assert(number_error(ini, name, "ListenPort"@, u16::MAX as nat) is None);
    }
}

/// The value of a setting: that of the section, or else that of `Default`.
fn lookup(ini: &IniFile, section: &str, key: &str) -> (r: Option<String>)
    ensures
        r is Some <==> setting(ini@, section@, key@) is Some,
        r matches Some(v) ==> setting(ini@, section@, key@) == Some(v@),
{
    match ini.get(section, key) {
        Some(v) => Some(v),
        None => ini.get("Default", key),
    }
}

/// A complaint about the value of a key.
fn bad_value(kind: &str, value: &str, key: &str) -> (r: PanConfigError)
    ensures
        r.0@ == kind@ + value@ + "' for key '"@ + key@ + "'"@,
{
    PanConfigError(
        kind.to_owned().concat(value).concat("' for key '").concat(key).concat("'"),
    )
}

/// A complaint about a section.
fn bad_section(section: &str, what: &str) -> (r: PanConfigError)
    ensures
        r.0@ == in_section(section@, what@),
{
    PanConfigError("[".to_owned().concat(section).concat("] ").concat(what))
}

/// The truth value that a word in lower case stands for.
fn read_word(word: &str) -> (r: Option<bool>)
    ensures
        r == bool_word(word@),
{
    if same(word, "true") || same(word, "yes") || same(word, "on") || same(word, "1") {
        Some(true)
    } else if same(word, "false") || same(word, "no") || same(word, "off") || same(word, "0") {
        Some(false)
    } else {
        None
    }
}

/// Reads a switch.
fn read_switch(ini: &IniFile, section: &str, key: &str, default: bool) -> (r: Result<
    bool,
    PanConfigError,
>)
    ensures
        r is Err <==> switch_error(ini@, section@, key@) is Some,
        r matches Err(e) ==> switch_error(ini@, section@, key@) == Some(e.0@),
        r matches Ok(b) ==> b == switch_value(ini@, section@, key@, default),
{
    match lookup(ini, section, key) {
        None => Ok(default),
        Some(v) => {
            let word = lower_case(v.as_str());
            match read_word(word.as_str()) {
                Some(b) => Ok(b),
                None => Err(bad_value("Invalid boolean '", word.as_str(), key)),
            }
        },
    }
}

/// Reads a number of at most `max`.
fn read_number(
    ini: &IniFile,
    section: &str,
    key: &str,
    max: u32,
    default: u32,
) -> (r: Result<u32, PanConfigError>)
    ensures
        r is Err <==> number_error(ini@, section@, key@, max as nat) is Some,
        r matches Err(e) ==> number_error(ini@, section@, key@, max as nat) == Some(
            e.0@,
        ),
        r matches Ok(n) ==> n == number_setting(
            ini@,
            section@,
            key@,
            max as nat,
            default as nat,
        ),
        default <= max ==> (r matches Ok(n) ==> n <= max),
{
    match lookup(ini, section, key) {
        None => Ok(default),
        Some(v) => match parse_number(trimmed(v.as_str()), max) {
            Some(n) => Ok(n),
            None => Err(bad_value("Invalid integer '", v.as_str(), key)),
        },
    }
}

/// The text of the address that a section listens on.
fn read_address(ini: &IniFile, section: &str) -> (r: String)
    ensures
        r@ == address_setting(ini@, section@),
{
    match lookup(ini, section, "ListenAddress") {
        Some(v) => v,
        None => "localhost".to_owned(),
    }
}

/// The IP address that a text means.
fn find_address(addresses: &Vec<(String, String)>, text: &str) -> (r: Option<String>)
    ensures
        r is Some <==> address_of(address_views(addresses@), text@) is Some,
        r matches Some(a) ==> address_of(address_views(addresses@), text@) == Some(a@),
{
    if same(text, "localhost") {
        return Some("127.0.0.1".to_owned());
    }
    let ghost all = address_views(addresses@);
    let mut i: usize = 0;
    assert(all.skip(0) == all);
    while i < addresses.len()
        invariant
            i <= addresses@.len(),
            all == address_views(addresses@),
            text@ != "localhost"@,
            listed_address(all.skip(i as int), text@) == listed_address(all, text@),
        decreases addresses@.len() - i,
    {
        assert(all.skip(i as int)[0] == (addresses@[i as int].0@, addresses@[i as int].1@));
        assert(all.skip(i as int).drop_first() == all.skip(i + 1));
        if same(addresses[i].0.as_str(), text) {
            return Some(addresses[i].1.clone());
        }
        i = i + 1;
    }
    None
}

/// Reads the section of one server.
fn read_server(
    ini: &IniFile,
    section: &str,
    addresses: &Vec<(String, String)>,
) -> (r: Result<ServerConfig, PanConfigError>)
    ensures
        r is Err <==> server_error(ini@, section@, address_views(addresses@)) is Some,
        r matches Err(e) ==> server_error(
            ini@,
            section@,
            address_views(addresses@),
        ) == Some(e.0@),
        r matches Ok(s) ==> s@ == server_view(
            ini@,
            section@,
            address_views(addresses@),
        ),
{
    let homeserver = match lookup(ini, section, "Homeserver") {
        Some(text) => match parse_url(text.as_str()) {
            Ok(url) => url,
            Err(_) => {
                return Err(bad_section(section, "Invalid Homeserver URL"));
            },
        },
        None => {
            return Err(bad_section(section, "Homeserver is required"));
        },
    };
    let address = read_address(ini, section);
    let listen_address = match find_address(addresses, address.as_str()) {
        Some(a) => a,
        None => {
            return Err(bad_section(section, "Invalid ListenAddress"));
        },
    };
    let listen_port = match read_number(ini, section, "ListenPort", 65535, 8009) {
        Ok(n) => n as u16,
        Err(e) => {
            return Err(e);
        },
    };
    let proxy = match lookup(ini, section, "Proxy") {
        Some(text) => match parse_url(text.as_str()) {
            Ok(url) => Some(url),
            Err(_) => {
                return Err(bad_section(section, "Invalid Proxy URL"));
            },
        },
        None => None,
    };
    let ssl = match read_switch(ini, section, "UseSSL", true) {
        Ok(b) => b,
        Err(e) => {
            return Err(e);
        },
    };
    let ignore_verification = match read_switch(ini, section, "IgnoreVerification", false) {
        Ok(b) => b,
        Err(e) => {
            return Err(e);
        },
    };
    let use_keyring = match read_switch(ini, section, "UseKeyring", true) {
        Ok(b) => b,
        Err(e) => {
            return Err(e);
        },
    };
    let search_requests = match read_switch(ini, section, "SearchRequests", false) {
        Ok(b) => b,
        Err(e) => {
            return Err(e);
        },
    };
    let index_encrypted_only = match read_switch(ini, section, "IndexEncryptedOnly", true) {
        Ok(b) => b,
        Err(e) => {
            return Err(e);
        },
    };
    let drop_old_keys = match read_switch(ini, section, "DropOldKeys", false) {
        Ok(b) => b,
        Err(e) => {
            return Err(e);
        },
    };
    let indexing_batch_size = match read_number(ini, section, "IndexingBatchSize", u32::MAX, 100) {
        Ok(n) => n,
        Err(e) => {
            return Err(e);
        },
    };
    if !(1 < indexing_batch_size && indexing_batch_size <= 1000) {
        return Err(bad_section(section, "IndexingBatchSize must be between 1 and 1000"));
    }
    let history_fetch_delay = match read_number(ini, section, "HistoryFetchDelay", u32::MAX, 3000) {
        Ok(n) => n,
        Err(e) => {
            return Err(e);
        },
    };
    if !(100 < history_fetch_delay && history_fetch_delay <= 10000) {
        return Err(bad_section(section, "HistoryFetchDelay must be between 100 and 10000 ms"));
    }
    Ok(
        ServerConfig {
            name: section.to_owned(),
            homeserver,
            listen_address,
            listen_port,
            proxy,
            ssl,
            ignore_verification,
            use_keyring,
            search_requests,
            index_encrypted_only,
            indexing_batch_size,
            history_fetch_delay,
            drop_old_keys,
        },
    )
}

/// The log level that a word in lower case stands for.
fn read_level(word: &str) -> (r: LogLevel)
    ensures
        r == level_word(word@),
{
    if same(word, "error") {
        LogLevel::Error
    } else if same(word, "info") {
        LogLevel::Info
    } else if same(word, "debug") {
        LogLevel::Debug
    } else {
        LogLevel::Warning
    }
}

/// Reads the sections of all servers.
fn read_servers(ini: &IniFile, addresses: &Vec<(String, String)>) -> (r: Result<
    indexmap::IndexMap<String, ServerConfig>,
    PanConfigError,
>)
    requires
        ini.wf(),
    ensures
        ({
            let ini = ini@;
            let expected = servers_view(ini, ini.sections, address_views(addresses@));
            match r {
                Ok(m) => expected == Ok::<Seq<(Seq<char>, ServerView)>, Seq<char>>(servers_held(m)),
                Err(e) => expected == Err::<Seq<(Seq<char>, ServerView)>, Seq<char>>(e.0@),
            }
        }),
{
    let names = ini.names();
    let ghost contents = ini@;
    let ghost sections = contents.sections;
    let ghost known = address_views(addresses@);
    let mut servers = no_servers();
    let mut i: usize = 0;
    assert(servers_view(contents, sections.take(0), known) == Ok::<
        Seq<(Seq<char>, ServerView)>,
        Seq<char>,
    >(servers_held(servers)));
    while i < names.len()
        invariant
            i <= names@.len(),
            contents == ini@,
            sections == contents.sections,
            sections.no_duplicates(),
            known == address_views(addresses@),
            names@.map_values(|s: String| s@) == sections,
            servers_view(contents, sections.take(i as int), known) == Ok::<
                Seq<(Seq<char>, ServerView)>,
                Seq<char>,
            >(servers_held(servers)),
        decreases names@.len() - i,
    {
        let section = names[i].as_str();
        let ghost before = sections.take(i as int);
        let ghost now = sections.take(i + 1);
        assert(sections[i as int] == section@);
        assert(now.drop_last() == before);
        assert(now.last() == section@);
        if !same(section, "Default") {
            match read_server(ini, section, addresses) {
                Ok(server) => {
                    proof {
                        assert(before.no_duplicates());
                        lemma_servers(contents, before, known);
                        let held = servers_held(servers);
                        assert forall|j: int| 0 <= j < held.len() implies (#[trigger] held[j]).0
                            != section@ by {
                            let k = choose|k: int| 0 <= k < before.len() && before[k] == held[j].0;
                            assert(sections[k] != sections[i as int]);
                        }
                    }
                    put_server(&mut servers, section.to_owned(), server);
                },
                Err(e) => {
                    proof {
                        lemma_error_stays(contents, sections, known, i + 1);
                    }
                    return Err(e);
                },
            }
        }
        i = i + 1;
    }
    assert(sections.take(i as int) == sections);
    Ok(servers)
}

/// What an INI file says. `addresses` lists the texts that were found to be IP addresses,
/// each with the address as it is written out.
pub fn config_of(ini: &IniFile, addresses: &Vec<(String, String)>) -> (r: Result<
    PanConfig,
    PanConfigError,
>)
    requires
        ini.wf(),
    ensures
        ({
            let expected = config_view(ini@, address_views(addresses@));
            match r {
                Ok(c) => expected == Ok::<ConfigView, Seq<char>>(c@),
                Err(e) => expected == Err::<ConfigView, Seq<char>>(e.0@),
            }
        }),
        r matches Ok(c) ==> well_configured(c@.servers),
{
    let log_level = match lookup(ini, "Default", "LogLevel") {
        Some(v) => {
            let word = lower_case(v.as_str());
            read_level(word.as_str())
        },
        None => LogLevel::Warning,
    };
    let debug_encryption = match read_switch(ini, "Default", "DebugEncryption", false) {
        Ok(b) => b,
        Err(e) => {
            return Err(e);
        },
    };
    let notifications = match read_switch(ini, "Default", "Notifications", true) {
        Ok(b) => b,
        Err(e) => {
            return Err(e);
        },
    };
    match read_servers(ini, addresses) {
        Ok(servers) => {
            proof {
                lemma_well_configured(ini@, address_views(addresses@));
            }
            Ok(PanConfig { log_level, debug_encryption, notifications, servers })
        },
        Err(e) => Err(e),
    }
}

/// Reads a configuration. `path` names the file in complaints, and `addresses` lists
/// the texts that were found to be IP addresses, each with the address as it is
/// written out.
pub fn read_config(path: &str, text: String, addresses: &Vec<(String, String)>) -> (r: Result<
    PanConfig,
    PanConfigError,
>)
    requires
        text@.len() < 0x7fff_fffe,
    ensures
        ({
            let expected = file_view(path@, text@, address_views(addresses@));
            match r {
                Ok(c) => expected == Ok::<ConfigView, Seq<char>>(c@),
                Err(e) => expected == Err::<ConfigView, Seq<char>>(e.0@),
            }
        }),
        r matches Ok(c) ==> well_configured(c@.servers),
{
    match read_ini(text) {
        Ok(ini) => config_of(&ini, addresses),
        Err(why) => Err(
            PanConfigError(
                "Failed to read config ".to_owned().concat(path).concat(
                    ": couldn't read ",
                ).concat(path).concat(": ").concat(why.as_str()),
            ),
        ),
    }
}

/// The texts in a configuration that stand for addresses to listen on, in the order
/// of their sections; none where the text is no INI file.
pub fn address_literals(text: String) -> (r: Vec<String>)
    requires
        text@.len() < 0x7fff_fffe,
    ensures
        r@.map_values(|s: String| s@) == match ini_parsed(text@) {
            Ok(ini) => literals_of(ini, ini.sections),
            Err(_) => Seq::empty(),
        },
{
    let mut out: Vec<String> = Vec::new();
    let ini = match read_ini(text) {
        Ok(ini) => ini,
        Err(_) => {
            return out;
        },
    };
    let names = ini.names();
    let ghost contents = ini@;
    let ghost sections = contents.sections;
    let mut i: usize = 0;
    assert(literals_of(contents, sections.take(0)) == Seq::<Seq<char>>::empty());
    while i < names.len()
        invariant
            i <= names@.len(),
            contents == ini@,
            sections == contents.sections,
            names@.map_values(|s: String| s@) == sections,
            out@.map_values(|s: String| s@) == literals_of(contents, sections.take(i as int)),
        decreases names@.len() - i,
    {
        let section = names[i].as_str();
        let ghost now = sections.take(i + 1);
        assert(sections[i as int] == section@);
        assert(now.drop_last() == sections.take(i as int));
        assert(now.last() == section@);
        let address = read_address(&ini, section);
        if !same(section, "Default") && !same(address.as_str(), "localhost") {
            let ghost before = out@.map_values(|s: String| s@);
            out.push(address);
            assert(out@.map_values(|s: String| s@) =~= before.push(address@));
        }
        i = i + 1;
    }
    assert(sections.take(i as int) == sections);
    out
}

impl ServerConfig {
    /// A copy.
    pub fn copy(&self) -> (r: ServerConfig)
        ensures
            r@ == self@,
    {
        ServerConfig {
            name: self.name.clone(),
            homeserver: self.homeserver.clone(),
            listen_address: self.listen_address.clone(),
            listen_port: self.listen_port,
            proxy: match &self.proxy {
                Some(p) => Some(p.clone()),
                None => None,
            },
            ssl: self.ssl,
            ignore_verification: self.ignore_verification,
            use_keyring: self.use_keyring,
            search_requests: self.search_requests,
            index_encrypted_only: self.index_encrypted_only,
            indexing_batch_size: self.indexing_batch_size,
            history_fetch_delay: self.history_fetch_delay,
            drop_old_keys: self.drop_old_keys,
        }
    }
}

impl PanConfig {
    /// Whether there is a server to run.
    pub fn has_servers(&self) -> (r: bool)
        ensures
            r == (self@.servers.len() > 0),
    {
        !servers_empty(&self.servers)
    }
}

} // verus!
