//! Laws of the configuration file.

use vstd::prelude::*;
use crate::config::{
    address_literals, config_of, read_config, IniFile, IniSection, IniView, LogLevel, PanConfig,
    PanConfigError, ServerView,
};

verus! {

/// Whether a section is the first of its name in a file.
pub open spec fn first_section(sections: Seq<IniSection>, i: int, name: Seq<char>) -> bool {
    &&& 0 <= i < sections.len()
    &&& sections[i].name@ == name
    &&& forall|j: int| 0 <= j < i ==> (#[trigger] sections[j]).name@ != name
}

/// Whether an entry is the first of its key in a section.
pub open spec fn first_entry(
    entries: Seq<(String, Option<String>)>,
    i: int,
    key: Seq<char>,
) -> bool {
    &&& 0 <= i < entries.len()
    &&& entries[i].0@ == key
    &&& forall|j: int| 0 <= j < i ==> (#[trigger] entries[j]).0@ != key
}

/// The value of the first entry with a key.
proof fn lemma_entry(entries: Seq<(String, Option<String>)>, i: int, key: Seq<char>)
    requires
        first_entry(entries, i, key),
    ensures
        crate::config::entry_value(entries, key) == match entries[i].1 {
            Some(v) => Some(v@),
            None => None,
        },
    decreases entries.len(),
{
    if i > 0 {
        let rest = entries.drop_first();
        assert forall|j: int| 0 <= j < i - 1 implies (#[trigger] rest[j]).0@ != key by {
            assert(rest[j] == entries[j + 1]);
        }
        assert(entries[0].0@ != key);
        lemma_entry(rest, i - 1, key);
    }
}

/// The value in the first section of a name.
proof fn lemma_section_value(
    sections: Seq<IniSection>,
    i: int,
    name: Seq<char>,
    key: Seq<char>,
)
    requires
        first_section(sections, i, name),
    ensures
        crate::config::value_in(sections, name, key) == crate::config::entry_value(
            sections[i].entries@,
            key,
        ),
    decreases sections.len(),
{
    if i > 0 {
        let rest = sections.drop_first();
        assert forall|j: int| 0 <= j < i - 1 implies (#[trigger] rest[j]).name@ != name by {
            assert(rest[j] == sections[j + 1]);
        }
        assert(sections[0].name@ != name);
        lemma_section_value(rest, i - 1, name, key);
    }
}

/// What stands under a key of a section is found, and nothing is found where no value stands.
pub proof fn values_are_found(
    ini: IniFile,
    section: &str,
    key: &str,
    r: Option<String>,
    i: int,
    k: int,
)
    requires
        call_ensures(IniFile::get, (&ini, section, key), r),
        first_section(ini.sections@, i, section@),
        first_entry(ini.sections@[i].entries@, k, key@),
    ensures
        match ini.sections@[i].entries@[k].1 {
            Some(v) => r matches Some(found) && found@ == v@,
            None => r is None,
        },
{
    lemma_section_value(ini.sections@, i, section@, key@);
    lemma_entry(ini.sections@[i].entries@, k, key@);
}

/// What a file says under a key for a section: what stands in the section or, where nothing
/// stands there, what stands in `Default`.
pub open spec fn says(ini: IniView, section: Seq<char>, key: Seq<char>) -> Option<Seq<char>> {
    if ini.values.contains_key((section, key)) {
        Some(ini.values[(section, key)])
    } else if ini.values.contains_key(("Default"@, key)) {
        Some(ini.values[("Default"@, key)])
    } else {
        None
    }
}

/// Whether a text of ASCII is a word in small letters, but for the case of its letters.
pub open spec fn spells(text: Seq<char>, word: Seq<char>) -> bool {
    &&& text.len() == word.len()
    &&& forall|i: int|
        0 <= i < text.len() ==> (#[trigger] text[i]) as int <= 127 && if 'A' <= text[i] <= 'Z' {
            text[i] as int + 32 == word[i] as int
        } else {
            text[i] == word[i]
        }
}

/// A text that spells a word is that word once it is in lower case.
proof fn lemma_spells(text: Seq<char>, word: Seq<char>)
    requires
        spells(text, word),
    ensures
        crate::config::lowered(text) == word,
{
    assert(crate::config::all_ascii(text));
    let lower = text.map_values(|c: char| crate::config::ascii_lower(c));
    assert forall|i: int| 0 <= i < text.len() implies lower[i] == word[i] by {
        let c = text[i];
        assert(lower[i] == crate::config::ascii_lower(c));
        assert(c as int <= 127);
    }
    assert(lower =~= word);
}

/// Whether a text stands for yes.
pub open spec fn means_yes(text: Seq<char>) -> bool {
    spells(text, "true"@) || spells(text, "yes"@) || spells(text, "on"@) || spells(text, "1"@)
}

/// Whether a text stands for no.
pub open spec fn means_no(text: Seq<char>) -> bool {
    spells(text, "false"@) || spells(text, "no"@) || spells(text, "off"@) || spells(text, "0"@)
}

/// Whether a switch is as a file says, and as its default where the file says nothing.
pub open spec fn switched(said: Option<Seq<char>>, default: bool, on: bool) -> bool {
    match said {
        None => on == default,
        Some(v) => (means_yes(v) ==> on) && (means_no(v) ==> !on),
    }
}

/// Whether a number is as a file says, and as its default where the file says nothing.
pub open spec fn counted(said: Option<Seq<char>>, default: nat, n: nat) -> bool {
    match said {
        None => n == default,
        Some(v) => crate::text::number_value(crate::text::trim(v)) == Some(n),
    }
}

/// Whether an address is as a file says: that of this machine for its name and where the file
/// says nothing, and else the one that the text was read as.
pub open spec fn listens(
    said: Option<Seq<char>>,
    addresses: Seq<(String, String)>,
    address: Seq<char>,
) -> bool {
    match said {
        None => address == "127.0.0.1"@,
        Some(v) => if v == "localhost"@ {
            address == "127.0.0.1"@
        } else {
            exists|i: int|
                0 <= i < addresses.len() && (#[trigger] addresses[i]).0@ == v && addresses[i].1@
                    == address && forall|j: int| 0 <= j < i ==> (#[trigger] addresses[j]).0@ != v
        },
    }
}

/// A listed address.
proof fn lemma_listed(addresses: Seq<(String, String)>, literal: Seq<char>)
    ensures
        match crate::config::listed_address(crate::config::address_views(addresses), literal) {
            Some(a) => exists|i: int|
                0 <= i < addresses.len() && (#[trigger] addresses[i]).0@ == literal
                    && addresses[i].1@ == a && forall|j: int|
                    0 <= j < i ==> (#[trigger] addresses[j]).0@ != literal,
            None => forall|i: int|
                0 <= i < addresses.len() ==> (#[trigger] addresses[i]).0@ != literal,
        },
    decreases addresses.len(),
{
    let views = crate::config::address_views(addresses);
    if addresses.len() > 0 {
        let rest = addresses.drop_first();
        assert(views[0] == (addresses[0].0@, addresses[0].1@));
        assert(views.drop_first() =~= crate::config::address_views(rest));
        lemma_listed(rest, literal);
        if addresses[0].0@ != literal {
            match crate::config::listed_address(views.drop_first(), literal) {
                Some(a) => {
                    let i = choose|i: int|
                        0 <= i < rest.len() && (#[trigger] rest[i]).0@ == literal && rest[i].1@ == a
                            && forall|j: int| 0 <= j < i ==> (#[trigger] rest[j]).0@ != literal;
                    assert(addresses[i + 1] == rest[i]);
                    assert forall|j: int| 0 <= j < i + 1 implies (#[trigger] addresses[j]).0@
                        != literal by {
                        if j > 0 {
                            assert(rest[j - 1] == addresses[j]);
                        }
                    }
                },
                None => {
                    assert forall|j: int| 0 <= j < addresses.len() implies (
                    #[trigger] addresses[j]).0@ != literal by {
                        if j > 0 {
                            assert(rest[j - 1] == addresses[j]);
                        }
                    }
                },
            }
        }
    }
}

/// The words of a switch.
proof fn lemma_switch(ini: IniView, section: Seq<char>, key: Seq<char>, default: bool)
    requires
        crate::config::switch_error(ini, section, key) is None,
    ensures
        switched(
            says(ini, section, key),
            default,
            crate::config::switch_value(ini, section, key, default),
        ),
{
    if let Some(v) = says(ini, section, key) {
        lemma_words(v);
    }
}

/// The words that stand for yes and no.
proof fn lemma_words(v: Seq<char>)
    ensures
        means_yes(v) ==> crate::config::bool_word(crate::config::lowered(v)) == Some(true),
        means_no(v) ==> crate::config::bool_word(crate::config::lowered(v)) == Some(false),
{
    reveal_strlit("true");
    reveal_strlit("yes");
    reveal_strlit("on");
    reveal_strlit("1");
    reveal_strlit("false");
    reveal_strlit("no");
    reveal_strlit("off");
    reveal_strlit("0");
    assert("true"@.len() == 4 && "yes"@.len() == 3 && "on"@.len() == 2 && "1"@.len() == 1
        && "false"@.len() == 5 && "no"@.len() == 2 && "off"@.len() == 3 && "0"@.len() == 1);
    assert("yes"@[0] == 'y' && "off"@[0] == 'o' && "on"@[0] == 'o' && "no"@[0] == 'n' && "1"@[0]
        == '1' && "0"@[0] == '0');
    if spells(v, "true"@) {
        lemma_spells(v, "true"@);
    }
    if spells(v, "yes"@) {
        lemma_spells(v, "yes"@);
    }
    if spells(v, "on"@) {
        lemma_spells(v, "on"@);
    }
    if spells(v, "1"@) {
        lemma_spells(v, "1"@);
    }
    if spells(v, "false"@) {
        lemma_spells(v, "false"@);
    }
    if spells(v, "no"@) {
        lemma_spells(v, "no"@);
    }
    if spells(v, "off"@) {
        lemma_spells(v, "off"@);
    }
    if spells(v, "0"@) {
        lemma_spells(v, "0"@);
    }
}

/// Whether the settings of a server are those that a file has for its section.
pub open spec fn configured(
    ini: IniView,
    addresses: Seq<(String, String)>,
    section: Seq<char>,
    s: ServerView,
) -> bool {
    &&& s.name == section
    &&& says(ini, section, "Homeserver"@) is Some
    &&& crate::config::url_parsed(says(ini, section, "Homeserver"@).unwrap()) == Some(s.homeserver)
    &&& listens(says(ini, section, "ListenAddress"@), addresses, s.listen_address)
    &&& counted(says(ini, section, "ListenPort"@), 8009, s.listen_port)
    &&& s.proxy is Some <==> says(ini, section, "Proxy"@) is Some
    &&& s.proxy is Some ==> crate::config::url_parsed(says(ini, section, "Proxy"@).unwrap())
        == s.proxy
    &&& switched(says(ini, section, "UseSSL"@), true, s.ssl)
    &&& switched(says(ini, section, "IgnoreVerification"@), false, s.ignore_verification)
    &&& switched(says(ini, section, "UseKeyring"@), true, s.use_keyring)
    &&& switched(says(ini, section, "SearchRequests"@), false, s.search_requests)
    &&& switched(says(ini, section, "IndexEncryptedOnly"@), true, s.index_encrypted_only)
    &&& switched(says(ini, section, "DropOldKeys"@), false, s.drop_old_keys)
    &&& counted(says(ini, section, "IndexingBatchSize"@), 100, s.indexing_batch_size)
    &&& 1 < s.indexing_batch_size <= 1000
    &&& counted(says(ini, section, "HistoryFetchDelay"@), 3000, s.history_fetch_delay)
    &&& 100 < s.history_fetch_delay <= 10000
    &&& s.listen_port < 65536
}

/// A section without errors is configured as it says.
proof fn lemma_configured(ini: IniView, addresses: Seq<(String, String)>, section: Seq<char>)
    requires
        crate::config::server_error(
            ini,
            section,
            crate::config::address_views(addresses),
        ) is None,
    ensures
        configured(
            ini,
            addresses,
            section,
            crate::config::server_view(ini, section, crate::config::address_views(addresses)),
        ),
{
    lemma_switch(ini, section, "UseSSL"@, true);
    lemma_switch(ini, section, "IgnoreVerification"@, false);
    lemma_switch(ini, section, "UseKeyring"@, true);
    lemma_switch(ini, section, "SearchRequests"@, false);
    lemma_switch(ini, section, "IndexEncryptedOnly"@, true);
    lemma_switch(ini, section, "DropOldKeys"@, false);
    if let Some(v) = says(ini, section, "ListenAddress"@) {
        lemma_listed(addresses, v);
    }
}

/// The names of servers, in order.
pub open spec fn names(servers: Seq<(Seq<char>, ServerView)>) -> Seq<Seq<char>> {
    servers.map_values(|p: (Seq<char>, ServerView)| p.0)
}

/// The servers of a list of sections.
proof fn lemma_servers(ini: IniView, sections: Seq<Seq<char>>, addresses: Seq<(String, String)>)
    requires
        crate::config::servers_view(
            ini,
            sections,
            crate::config::address_views(addresses),
        ) is Ok,
    ensures
        ({
            let servers = crate::config::servers_view(
                ini,
                sections,
                crate::config::address_views(addresses),
            )->Ok_0;
            &&& names(servers) == sections.filter(|s: Seq<char>| s != "Default"@)
            &&& forall|i: int|
                0 <= i < servers.len() ==> configured(
                    ini,
                    addresses,
                    (#[trigger] servers[i]).0,
                    servers[i].1,
                )
        }),
    decreases sections.len(),
{
    reveal(Seq::filter);
    let views = crate::config::address_views(addresses);
    let keep = |s: Seq<char>| s != "Default"@;
    if sections.len() > 0 {
        let less = sections.drop_last();
        lemma_servers(ini, less, addresses);
        let before = crate::config::servers_view(ini, less, views)->Ok_0;
        let section = sections.last();
        let servers = crate::config::servers_view(ini, sections, views)->Ok_0;
        if section != "Default"@ {
            lemma_configured(ini, addresses, section);
            assert(servers == before.push((section, crate::config::server_view(ini, section, views))));
            assert(names(servers) =~= names(before).push(section));
        }
    } else {
        assert(names(
            crate::config::servers_view(ini, sections, views)->Ok_0,
        ) =~= sections.filter(keep));
    }
}

/// Every section but `Default` gives one server, under its name and in the order of the file,
/// with the settings of its section; what a section does not say, `Default` says for it, and
/// what neither says has its default.
pub proof fn servers_are_configured(
    ini: IniFile,
    addresses: Vec<(String, String)>,
    r: Result<PanConfig, PanConfigError>,
    i: int,
)
    requires
        call_ensures(config_of, (&ini, &addresses), r),
    ensures
        r matches Ok(c) ==> {
            &&& names(c@.servers) == ini@.sections.filter(|s: Seq<char>| s != "Default"@)
            &&& 0 <= i < c@.servers.len() ==> configured(
                ini@,
                addresses@,
                c@.servers[i].0,
                c@.servers[i].1,
            )
        },
{
    if let Ok(c) = r {
        lemma_servers(ini@, ini@.sections, addresses@);
        if 0 <= i < c@.servers.len() {
            assert(configured(ini@, addresses@, c@.servers[i].0, c@.servers[i].1));
        }
    }
}

/// The section `Default` says how much is logged, whether encryption is, and whether there are
/// notifications. Warnings are logged where it says nothing that makes sense.
pub proof fn logging_is_configured(
    ini: IniFile,
    addresses: Vec<(String, String)>,
    r: Result<PanConfig, PanConfigError>,
)
    requires
        call_ensures(config_of, (&ini, &addresses), r),
    ensures
        r matches Ok(c) ==> {
            let level = says(ini@, "Default"@, "LogLevel"@);
            &&& level is None ==> c.log_level == LogLevel::Warning
            &&& level matches Some(v) ==> {
                &&& spells(v, "error"@) ==> c.log_level == LogLevel::Error
                &&& spells(v, "warning"@) ==> c.log_level == LogLevel::Warning
                &&& spells(v, "info"@) ==> c.log_level == LogLevel::Info
                &&& spells(v, "debug"@) ==> c.log_level == LogLevel::Debug
            }
            &&& switched(says(ini@, "Default"@, "DebugEncryption"@), false, c.debug_encryption)
            &&& switched(says(ini@, "Default"@, "Notifications"@), true, c.notifications)
        },
{
    if r is Ok {
        lemma_switch(ini@, "Default"@, "DebugEncryption"@, false);
        lemma_switch(ini@, "Default"@, "Notifications"@, true);
        reveal_strlit("error");
        reveal_strlit("warning");
        reveal_strlit("info");
        reveal_strlit("debug");
        assert("error"@.len() == 5 && "warning"@.len() == 7 && "info"@.len() == 4 && "debug"@.len()
            == 5);
        assert("error"@[0] == 'e' && "debug"@[0] == 'd');
        if let Some(v) = says(ini@, "Default"@, "LogLevel"@) {
            if spells(v, "error"@) {
                lemma_spells(v, "error"@);
            }
            if spells(v, "warning"@) {
                lemma_spells(v, "warning"@);
            }
            if spells(v, "info"@) {
                lemma_spells(v, "info"@);
            }
            if spells(v, "debug"@) {
                lemma_spells(v, "debug"@);
            }
        }
    }
}

/// A complaint about a section, where a condition holds.
pub open spec fn complaint(section: Seq<char>, bad: bool, what: Seq<char>) -> Option<Seq<char>> {
    if bad {
        Some("["@ + section + "] "@ + what)
    } else {
        None
    }
}

/// The complaint about a switch, where its value is no word for yes or no.
pub open spec fn switch_complaint(ini: IniView, section: Seq<char>, key: Seq<char>) -> Option<
    Seq<char>,
> {
    match says(ini, section, key) {
        Some(v) => {
            let word = crate::config::lowered(v);
            if seq!["true"@, "yes"@, "on"@, "1"@, "false"@, "no"@, "off"@, "0"@].contains(word) {
                None
            } else {
                Some("Invalid boolean '"@ + word + "' for key '"@ + key + "'"@)
            }
        },
        None => None,
    }
}

/// The complaint about a number, where its value is none below a bound.
pub open spec fn number_complaint(
    ini: IniView,
    section: Seq<char>,
    key: Seq<char>,
    bound: nat,
) -> Option<Seq<char>> {
    match says(ini, section, key) {
        Some(v) => if crate::text::number_value(crate::text::trim(v)) is Some
            && crate::text::number_value(crate::text::trim(v)).unwrap() < bound {
            None
        } else {
            Some("Invalid integer '"@ + v + "' for key '"@ + key + "'"@)
        },
        None => None,
    }
}

/// Whether the number that a file says is out of its range.
pub open spec fn out_of_range(said: Option<Seq<char>>, least: nat, most: nat) -> bool {
    match said {
        None => false,
        Some(v) => match crate::text::number_value(crate::text::trim(v)) {
            Some(n) => !(least <= n <= most),
            None => false,
        },
    }
}

/// Whether a text is not known to be an address.
pub open spec fn no_address(said: Option<Seq<char>>, addresses: Seq<(String, String)>) -> bool {
    match said {
        None => false,
        Some(v) => v != "localhost"@ && forall|i: int|
            0 <= i < addresses.len() ==> (#[trigger] addresses[i]).0@ != v,
    }
}

/// Whether a text is there and is no URL.
pub open spec fn no_url(said: Option<Seq<char>>) -> bool {
    said is Some && crate::config::url_parsed(said.unwrap()) is None
}

/// What can be wrong with a section, in the order in which it is looked for.
pub open spec fn complaints(
    ini: IniView,
    section: Seq<char>,
    addresses: Seq<(String, String)>,
) -> Seq<Option<Seq<char>>> {
    seq![
        complaint(
            section,
            says(ini, section, "Homeserver"@) is None,
            "Homeserver is required"@,
        ),
        complaint(section, no_url(says(ini, section, "Homeserver"@)), "Invalid Homeserver URL"@),
        complaint(
            section,
            no_address(says(ini, section, "ListenAddress"@), addresses),
            "Invalid ListenAddress"@,
        ),
        number_complaint(ini, section, "ListenPort"@, 65536),
        complaint(section, no_url(says(ini, section, "Proxy"@)), "Invalid Proxy URL"@),
        switch_complaint(ini, section, "UseSSL"@),
        switch_complaint(ini, section, "IgnoreVerification"@),
        switch_complaint(ini, section, "UseKeyring"@),
        switch_complaint(ini, section, "SearchRequests"@),
        switch_complaint(ini, section, "IndexEncryptedOnly"@),
        switch_complaint(ini, section, "DropOldKeys"@),
        number_complaint(ini, section, "IndexingBatchSize"@, 4294967296),
        complaint(
            section,
            out_of_range(says(ini, section, "IndexingBatchSize"@), 2, 1000),
            "IndexingBatchSize must be between 1 and 1000"@,
        ),
        number_complaint(ini, section, "HistoryFetchDelay"@, 4294967296),
        complaint(
            section,
            out_of_range(says(ini, section, "HistoryFetchDelay"@), 101, 10000),
            "HistoryFetchDelay must be between 100 and 10000 ms"@,
        ),
    ]
}

/// Whether a text is the first of some complaints.
pub open spec fn is_first(all: Seq<Option<Seq<char>>>, what: Seq<char>) -> bool {
    exists|i: int|
        0 <= i < all.len() && (#[trigger] all[i]) == Some(what) && forall|j: int|
            0 <= j < i ==> (#[trigger] all[j]) is None
}

/// Whether there is nothing to complain about.
pub open spec fn no_complaint(all: Seq<Option<Seq<char>>>) -> bool {
    forall|i: int| 0 <= i < all.len() ==> (#[trigger] all[i]) is None
}

/// The words of a switch, and the complaint about it.
proof fn lemma_switch_complaint(ini: IniView, section: Seq<char>, key: Seq<char>)
    ensures
        switch_complaint(ini, section, key) == crate::config::switch_error(ini, section, key),
{
    if let Some(v) = says(ini, section, key) {
        let word = crate::config::lowered(v);
        let all = seq!["true"@, "yes"@, "on"@, "1"@, "false"@, "no"@, "off"@, "0"@];
        assert(all[0] == "true"@ && all[1] == "yes"@ && all[2] == "on"@ && all[3] == "1"@ && all[4]
            == "false"@ && all[5] == "no"@ && all[6] == "off"@ && all[7] == "0"@);
        assert(all.contains(word) == (crate::config::bool_word(word) is Some));
    }
}

/// The first complaint about a section.
proof fn lemma_first_complaint(
    ini: IniView,
    section: Seq<char>,
    addresses: Seq<(String, String)>,
)
    ensures
        match crate::config::server_error(
            ini,
            section,
            crate::config::address_views(addresses),
        ) {
            Some(e) => is_first(complaints(ini, section, addresses), e),
            None => no_complaint(complaints(ini, section, addresses)),
        },
{
    let all = complaints(ini, section, addresses);
    let error = crate::config::server_error(
        ini,
        section,
        crate::config::address_views(addresses),
    );
    lemma_switch_complaint(ini, section, "UseSSL"@);
    lemma_switch_complaint(ini, section, "IgnoreVerification"@);
    lemma_switch_complaint(ini, section, "UseKeyring"@);
    lemma_switch_complaint(ini, section, "SearchRequests"@);
    lemma_switch_complaint(ini, section, "IndexEncryptedOnly"@);
    lemma_switch_complaint(ini, section, "DropOldKeys"@);
    if let Some(v) = says(ini, section, "ListenAddress"@) {
        lemma_listed(addresses, v);
    }
    assert(number_complaint(ini, section, "ListenPort"@, 65536) == crate::config::number_error(
        ini,
        section,
        "ListenPort"@,
        65535,
    ));
    assert(number_complaint(ini, section, "IndexingBatchSize"@, 4294967296)
        == crate::config::number_error(ini, section, "IndexingBatchSize"@, 4294967295));
    assert(number_complaint(ini, section, "HistoryFetchDelay"@, 4294967296)
        == crate::config::number_error(ini, section, "HistoryFetchDelay"@, 4294967295));
    let n: int = if all[0] is Some {
        0
    } else if all[1] is Some {
        1
    } else if all[2] is Some {
        2
    } else if all[3] is Some {
        3
    } else if all[4] is Some {
        4
    } else if all[5] is Some {
        5
    } else if all[6] is Some {
        6
    } else if all[7] is Some {
        7
    } else if all[8] is Some {
        8
    } else if all[9] is Some {
        9
    } else if all[10] is Some {
        10
    } else if all[11] is Some {
        11
    } else if all[12] is Some {
        12
    } else if all[13] is Some {
        13
    } else if all[14] is Some {
        14
    } else {
        15
    };
    assert forall|j: int| 0 <= j < n implies (#[trigger] all[j]) is None by {
        assert(j == 0 || j == 1 || j == 2 || j == 3 || j == 4 || j == 5 || j == 6 || j == 7 || j
            == 8 || j == 9 || j == 10 || j == 11 || j == 12 || j == 13 || j == 14);
    }
    if n < 15 {
        assert(error == all[n]);
    } else {
        assert(error is None);
    }
}

/// The first section with something to complain about.
proof fn lemma_first_bad(ini: IniView, sections: Seq<Seq<char>>, addresses: Seq<(String, String)>)
    ensures
        match crate::config::servers_view(
            ini,
            sections,
            crate::config::address_views(addresses),
        ) {
            Ok(_) => forall|i: int|
                0 <= i < sections.len() && (#[trigger] sections[i]) != "Default"@ ==> no_complaint(
                    complaints(ini, sections[i], addresses),
                ),
            Err(e) => exists|n: int|
                0 <= n < sections.len() && (#[trigger] sections[n]) != "Default"@ && is_first(
                    complaints(ini, sections[n], addresses),
                    e,
                ) && forall|i: int|
                    0 <= i < n && (#[trigger] sections[i]) != "Default"@ ==> no_complaint(
                        complaints(ini, sections[i], addresses),
                    ),
        },
    decreases sections.len(),
{
    let views = crate::config::address_views(addresses);
    if sections.len() > 0 {
        let less = sections.drop_last();
        let last = sections.len() - 1;
        lemma_first_bad(ini, less, addresses);
        lemma_first_complaint(ini, sections.last(), addresses);
        assert(forall|i: int| 0 <= i < less.len() ==> #[trigger] less[i] == sections[i]);
        match crate::config::servers_view(ini, less, views) {
            Ok(_) => {
                assert forall|i: int|
                    0 <= i < last && (#[trigger] sections[i])
                        != "Default"@ implies no_complaint(
                    complaints(ini, sections[i], addresses),
                ) by {
                    assert(less[i] == sections[i]);
                }
                assert(sections[last] == sections.last());
            },
            Err(e) => {
                let n = choose|n: int|
                    0 <= n < less.len() && (#[trigger] less[n]) != "Default"@ && is_first(
                        complaints(ini, less[n], addresses),
                        e,
                    ) && forall|i: int|
                        0 <= i < n && (#[trigger] less[i]) != "Default"@ ==> no_complaint(
                            complaints(ini, less[i], addresses),
                        );
                assert(sections[n] == less[n]);
                assert forall|i: int|
                    0 <= i < n && (#[trigger] sections[i])
                        != "Default"@ implies no_complaint(
                    complaints(ini, sections[i], addresses),
                ) by {
                    assert(less[i] == sections[i]);
                }
            },
        }
    }
}

/// Whether something is wrong with a section of a file, and it is what is said, and nothing
/// is wrong with the sections before it.
pub open spec fn first_bad_section(
    ini: IniView,
    addresses: Seq<(String, String)>,
    n: int,
    what: Seq<char>,
) -> bool {
    &&& 0 <= n < ini.sections.len()
    &&& ini.sections[n] != "Default"@
    &&& is_first(complaints(ini, ini.sections[n], addresses), what)
    &&& forall|i: int|
        0 <= i < n && (#[trigger] ini.sections[i]) != "Default"@ ==> no_complaint(
            complaints(ini, ini.sections[i], addresses),
        )
}

/// A configuration is refused where something is wrong with it, and then with the first
/// complaint there is: about the two switches of all servers, and then about one section
/// after the other.
pub proof fn bad_configurations_are_refused(
    ini: IniFile,
    addresses: Vec<(String, String)>,
    r: Result<PanConfig, PanConfigError>,
)
    requires
        call_ensures(config_of, (&ini, &addresses), r),
    ensures
        ({
            let debug = switch_complaint(ini@, "Default"@, "DebugEncryption"@);
            let notify = switch_complaint(ini@, "Default"@, "Notifications"@);
            match r {
                Ok(_) => {
                    &&& debug is None
                    &&& notify is None
                    &&& forall|i: int|
                        0 <= i < ini@.sections.len() && (#[trigger] ini@.sections[i])
                            != "Default"@ ==> no_complaint(
                            complaints(ini@, ini@.sections[i], addresses@),
                        )
                },
                Err(e) => if debug is Some {
                    debug == Some(e.0@)
                } else if notify is Some {
                    notify == Some(e.0@)
                } else {
                    exists|n: int| #[trigger] first_bad_section(ini@, addresses@, n, e.0@)
                },
            }
        }),
{
    lemma_switch_complaint(ini@, "Default"@, "DebugEncryption"@);
    lemma_switch_complaint(ini@, "Default"@, "Notifications"@);
    lemma_first_bad(ini@, ini@.sections, addresses@);
    if let Err(e) = r {
        if switch_complaint(ini@, "Default"@, "DebugEncryption"@) is None && switch_complaint(
            ini@,
            "Default"@,
            "Notifications"@,
        ) is None {
            let sections = ini@.sections;
            let n = choose|n: int|
                0 <= n < sections.len() && (#[trigger] sections[n]) != "Default"@ && is_first(
                    complaints(ini@, sections[n], addresses@),
                    e.0@,
                ) && forall|i: int|
                    0 <= i < n && (#[trigger] sections[i]) != "Default"@ ==> no_complaint(
                        complaints(ini@, sections[i], addresses@),
                    );
            assert(first_bad_section(ini@, addresses@, n, e.0@));
        }
    }
}

/// The text of a file is read as what the INI file in it says; a text that is none is refused
/// with the path of the file and the reason.
pub proof fn files_are_read(
    path: &str,
    text: String,
    addresses: Vec<(String, String)>,
    r: Result<PanConfig, PanConfigError>,
    ini: IniFile,
    said: Result<PanConfig, PanConfigError>,
)
    requires
        call_ensures(read_config, (path, text, &addresses), r),
        call_ensures(config_of, (&ini, &addresses), said),
    ensures
        crate::config::ini_parsed(text@) == Ok::<IniView, Seq<char>>(ini@) ==> match (r, said) {
            (Ok(a), Ok(b)) => a@ == b@,
            (Err(a), Err(b)) => a.0@ == b.0@,
            _ => false,
        },
        crate::config::ini_parsed(text@) matches Err(why) ==> (r matches Err(e) && e.0@
            == "Failed to read config "@ + path@ + ": couldn't read "@ + path@ + ": "@ + why),
{
}

/// Whether a section has a text that must be read as an address.
pub open spec fn has_literal(ini: IniView, section: Seq<char>) -> bool {
    &&& section != "Default"@
    &&& says(ini, section, "ListenAddress"@) is Some
    &&& says(ini, section, "ListenAddress"@) != Some("localhost"@)
}

/// The texts of some sections that must be read as addresses.
proof fn lemma_literals(ini: IniView, sections: Seq<Seq<char>>)
    ensures
        crate::config::literals_of(ini, sections) == sections.filter(
            |s: Seq<char>| has_literal(ini, s),
        ).map_values(|s: Seq<char>| says(ini, s, "ListenAddress"@).unwrap()),
    decreases sections.len(),
{
    reveal(Seq::filter);
    let keep = |s: Seq<char>| has_literal(ini, s);
    let text = |s: Seq<char>| says(ini, s, "ListenAddress"@).unwrap();
    if sections.len() > 0 {
        lemma_literals(ini, sections.drop_last());
        let section = sections.last();
        let less = sections.drop_last().filter(keep);
        if has_literal(ini, section) {
            assert(sections.filter(keep) =~= less.push(section));
            assert(less.push(section).map_values(text) =~= less.map_values(text).push(
                text(section),
            ));
        } else {
            assert(sections.filter(keep) =~= less);
        }
    } else {
        assert(crate::config::literals_of(ini, sections) =~= sections.filter(keep).map_values(
            text,
        ));
    }
}

/// The texts that must be read as addresses are those under which servers are to listen, in
/// the order of their sections, but for the name of this machine.
pub proof fn addresses_are_collected(text: String, r: Vec<String>)
    requires
        call_ensures(address_literals, (text,), r),
    ensures
        crate::config::ini_parsed(text@) matches Ok(ini) ==> r@.map_values(|s: String| s@)
            == ini.sections.filter(|s: Seq<char>| has_literal(ini, s)).map_values(
            |s: Seq<char>| says(ini, s, "ListenAddress"@).unwrap(),
        ),
        crate::config::ini_parsed(text@) is Err ==> r@.len() == 0,
{
    if let Ok(ini) = crate::config::ini_parsed(text@) {
        lemma_literals(ini, ini.sections);
    }
    assert(r@.map_values(|s: String| s@).len() == r@.len());
}

/// There is something to run where there is a server.
pub proof fn servers_are_run(c: PanConfig, r: bool)
    requires
        call_ensures(PanConfig::has_servers, (&c,), r),
    ensures
        r <==> c@.servers.len() > 0,
{
}

} // verus!
