//! The configuration file.

use pantalaimon::config::{
    address_literals, config_of, read_config, IniFile, IniSection, LogLevel, PanConfig,
};

fn read(text: &str) -> Result<PanConfig, String> {
    let addresses: Vec<(String, String)> = address_literals(text.to_owned())
        .into_iter()
        .filter(|a| a == "0.0.0.0" || a == "::1")
        .map(|a| (a.clone(), a))
        .collect();
    read_config("/etc/pan.conf", text.to_owned(), &addresses).map_err(|e| e.0)
}

#[test]
fn readme_example() {
    let c = read(
        "[Default]\nLogLevel = Info\n\n[my-server]\nHomeserver = https://matrix.example.com\n\
         ListenAddress = localhost\nListenPort = 8009\nUseKeyring = True\n",
    )
    .unwrap();
    assert_eq!(c.log_level, LogLevel::Info);
    assert!(!c.debug_encryption);
    assert!(c.notifications);
    assert!(c.has_servers());
    assert_eq!(c.servers.len(), 1);
    let s = &c.servers["my-server"];
    assert_eq!(s.name, "my-server");
    assert_eq!(s.homeserver, "https://matrix.example.com/");
    assert_eq!(s.listen_address, "127.0.0.1");
    assert_eq!(s.listen_port, 8009);
    assert!(s.proxy.is_none());
    assert!(s.ssl && s.use_keyring && s.index_encrypted_only);
    assert!(!s.ignore_verification && !s.search_requests && !s.drop_old_keys);
    assert_eq!(s.indexing_batch_size, 100);
    assert_eq!(s.history_fetch_delay, 3000);
    let copy = s.copy();
    assert_eq!(copy.homeserver, s.homeserver);
}

#[test]
fn container_example() {
    let c = read(
        "[Default]\nLogLevel = Info\n[b]\nHomeserver = http://host.containers.internal:8448/\n\
         ListenAddress = 0.0.0.0\nListenPort = 8010\nUseKeyring = False\nUseSSL = False\n\
         Proxy = http://proxy:3128\n[a]\nHomeserver = https://x\nListenAddress = ::1\n",
    )
    .unwrap();
    let names: Vec<&String> = c.servers.keys().collect();
    assert_eq!(names, vec!["b", "a"], "the order of the file stays");
    let b = &c.servers["b"];
    assert_eq!(b.listen_address, "0.0.0.0");
    assert_eq!(b.listen_port, 8010);
    assert!(!b.ssl && !b.use_keyring);
    assert_eq!(b.proxy.as_deref(), Some("http://proxy:3128/"));
    assert_eq!(c.servers["a"].listen_address, "::1");
}

#[test]
fn defaults_come_from_the_default_section() {
    let c = read(
        "[Default]\nloglevel = Debug\nLogLevel = DEBUG\nHomeserver = https://d\nIgnoreVerification = yes\n\
         DebugEncryption = on\nNotifications = 0\nListenPort = 1\n[s]\nListenPort =  65535 \n",
    )
    .unwrap();
    assert_eq!(c.log_level, LogLevel::Debug);
    assert!(c.debug_encryption && !c.notifications);
    let s = &c.servers["s"];
    assert_eq!(s.homeserver, "https://d/");
    assert!(s.ignore_verification);
    assert_eq!(s.listen_port, 65535);
    assert!(!read("[Default]\nHomeserver = https://d\n").unwrap().has_servers());
    assert_eq!(read("").unwrap().log_level, LogLevel::Warning);
    assert_eq!(read("[Default]\nLogLevel = odd\n").unwrap().log_level, LogLevel::Warning);
    assert_eq!(read("[Default]\nLogLevel = Error\n").unwrap().log_level, LogLevel::Error);
}

#[test]
fn errors_name_what_is_wrong() {
    let with = |line: &str| read(&format!("[s]\nHomeserver = https://d\n{line}\n")).unwrap_err();
    assert_eq!(read("[s]\nListenPort = 1\n").unwrap_err(), "[s] Homeserver is required");
    assert_eq!(read("[s]\nHomeserver = nowhere\n").unwrap_err(), "[s] Invalid Homeserver URL");
    assert_eq!(with("ListenAddress = example.org"), "[s] Invalid ListenAddress");
    assert_eq!(with("ListenPort = 65536"), "Invalid integer '65536' for key 'ListenPort'");
    assert_eq!(with("ListenPort = x"), "Invalid integer 'x' for key 'ListenPort'");
    assert_eq!(with("Proxy = nowhere"), "[s] Invalid Proxy URL");
    assert_eq!(with("UseSSL = Maybe"), "Invalid boolean 'maybe' for key 'UseSSL'");
    assert_eq!(with("UseKeyring = 2"), "Invalid boolean '2' for key 'UseKeyring'");
    assert_eq!(with("IndexingBatchSize = 1"), "[s] IndexingBatchSize must be between 1 and 1000");
    assert_eq!(with("IndexingBatchSize = 1001"), "[s] IndexingBatchSize must be between 1 and 1000");
    assert_eq!(
        with("HistoryFetchDelay = 100"),
        "[s] HistoryFetchDelay must be between 100 and 10000 ms"
    );
    assert_eq!(
        read("[Default]\nNotifications = x\n").unwrap_err(),
        "Invalid boolean 'x' for key 'Notifications'"
    );
    assert_eq!(
        read("[s\n").unwrap_err(),
        "Failed to read config /etc/pan.conf: couldn't read /etc/pan.conf: \
         line 1: Found opening bracket for section name but no closing bracket"
    );
    let ok = read("[s]\nHomeserver = https://d\nIndexingBatchSize = 2\nHistoryFetchDelay = 101\n").unwrap();
    assert_eq!(ok.servers["s"].indexing_batch_size, 2);
    assert_eq!(ok.servers["s"].history_fetch_delay, 101);
}

#[test]
fn plain_files_are_read_too() {
    let entry = |k: &str, v: Option<&str>| (k.to_owned(), v.map(str::to_owned));
    let ini = IniFile {
        sections: vec![
            IniSection { name: "Default".to_owned(), entries: vec![entry("UseSSL", Some("off"))] },
            IniSection {
                name: "s".to_owned(),
                entries: vec![entry("UseSSL", None), entry("Homeserver", Some("https://d"))],
            },
        ],
    };
    assert_eq!(ini.get("s", "Homeserver").as_deref(), Some("https://d"));
    assert_eq!(ini.get("s", "UseSSL"), None);
    let c = config_of(&ini, &vec![]).map_err(|e| e.0).unwrap();
    assert!(!c.servers["s"].ssl);
    assert_eq!(
        address_literals("[Default]\nListenAddress = 9.9.9.9\n[a]\n[b]\nListenAddress = localhost\n".to_owned()),
        vec!["9.9.9.9"]
    );
}
