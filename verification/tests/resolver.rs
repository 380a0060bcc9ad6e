use signit::error::Error;
use signit::resolver::{
    fetched_key_texts, is_whitespace, keys_url, loaded_key, lookup_identity, message_source,
    parsed_keys, private_key_path, public_key_source, remote_key_texts, resolve_private_key_path,
    KeySource, MessageSource,
};

fn text(s: &str) -> Option<String> {
    Some(s.to_string())
}

#[test]
fn given_message_goes_before_file_and_standard_input() {
    assert_eq!(message_source(text("m"), text("in.txt")), MessageSource::Given("m".to_string()));
    assert_eq!(message_source(text("m"), None), MessageSource::Given("m".to_string()));
    assert_eq!(message_source(text(""), text("in.txt")), MessageSource::Given(String::new()));
    assert_eq!(message_source(None, text("in.txt")), MessageSource::File("in.txt".to_string()));
    assert_eq!(message_source(None, None), MessageSource::StandardInput);
}

#[test]
fn given_private_key_path_is_taken() {
    assert_eq!(private_key_path(text("/keys/k"), text("/home/u")), Ok("/keys/k".to_string()));
    assert_eq!(private_key_path(text("/keys/k"), None), Ok("/keys/k".to_string()));
    assert_eq!(resolve_private_key_path(text("relative/key")), Ok("relative/key".to_string()));
}

#[test]
fn default_private_key_is_under_the_home_directory() {
    assert_eq!(private_key_path(None, text("/home/u")), Ok("/home/u/.ssh/id_ed25519".to_string()));
    assert_eq!(private_key_path(None, text("/home/u/")), Ok("/home/u/.ssh/id_ed25519".to_string()));
    assert_eq!(private_key_path(None, text("/")), Ok("/.ssh/id_ed25519".to_string()));
    assert_eq!(private_key_path(None, text("")), Ok(".ssh/id_ed25519".to_string()));
    assert_eq!(private_key_path(None, text("/home/ü")), Ok("/home/ü/.ssh/id_ed25519".to_string()));
}

#[test]
fn default_private_key_is_what_a_path_buffer_gives() {
    for home in ["/home/u", "/home/u/", "/", "", "rel", "/a//"] {
        let mut path = std::path::PathBuf::from(home);
        path.push(".ssh");
        path.push("id_ed25519");
        assert_eq!(
            private_key_path(None, text(home)),
            Ok(path.to_str().unwrap().to_string()),
            "{:?}",
            home
        );
    }
}

#[test]
fn no_home_directory_gives_no_default_key() {
    assert_eq!(private_key_path(None, None), Err(Error::NoDefaultKeyLocation));
}

#[test]
fn resolved_default_follows_the_home_directory() {
    match dirs::home_dir().and_then(|home| home.to_str().map(|h| h.to_string())) {
        Some(home) => assert_eq!(resolve_private_key_path(None), private_key_path(None, Some(home))),
        None => assert_eq!(resolve_private_key_path(None), Err(Error::NoDefaultKeyLocation)),
    }
}

#[test]
fn remote_lookup_takes_the_identity_of_the_envelope() {
    assert_eq!(lookup_identity(true, &text("alice")), Ok(text("alice")));
    assert_eq!(lookup_identity(true, &text("")), Ok(text("")));
}

#[test]
fn remote_lookup_without_identity_is_a_configuration_error() {
    assert_eq!(lookup_identity(true, &None), Err(Error::ConfigurationError));
}

#[test]
fn without_remote_lookup_the_identity_is_not_used() {
    assert_eq!(lookup_identity(false, &text("alice")), Ok(None));
    assert_eq!(lookup_identity(false, &None), Ok(None));
}

#[test]
fn key_file_goes_before_published_keys() {
    assert_eq!(public_key_source(text("k.pub"), text("alice")), KeySource::File("k.pub".to_string()));
    assert_eq!(public_key_source(text("k.pub"), None), KeySource::File("k.pub".to_string()));
    assert_eq!(
        public_key_source(None, text("alice")),
        KeySource::Remote("https://github.com/alice.keys".to_string())
    );
    assert_eq!(public_key_source(None, None), KeySource::Nowhere);
}

#[test]
fn address_of_published_keys() {
    assert_eq!(keys_url("alice"), "https://github.com/alice.keys");
    assert_eq!(keys_url(""), "https://github.com/.keys");
    assert_eq!(keys_url("a/b c"), "https://github.com/a/b c.keys");
}

#[test]
fn only_the_ed25519_line_gives_a_key() {
    let body = "ssh-ed25519 AAAAC3NzaC1lZDI1NTE5AAAAIJdD7y3aLq454yWBdwLWbieU1ebz9/cu7/QEXn9OIeZJ comment\nssh-rsa AAAAB3NzaC1yc2EAAAADAQABAAABAQC7\n\n";
    assert_eq!(
        remote_key_texts(body),
        vec!["AAAAC3NzaC1lZDI1NTE5AAAAIJdD7y3aLq454yWBdwLWbieU1ebz9/cu7/QEXn9OIeZJ".to_string()]
    );
}

#[test]
fn key_texts_come_in_the_order_of_the_lines() {
    let body = "ssh-rsa R1\nssh-ed25519 E1\necdsa-sha2-nistp256 C1 host\nssh-ed25519 E2 laptop\nssh-ed25519 E3";
    assert_eq!(remote_key_texts(body), vec!["E1".to_string(), "E2".to_string(), "E3".to_string()]);
}

#[test]
fn lines_without_a_second_word_give_no_key() {
    assert_eq!(remote_key_texts("ssh-ed25519\nssh-ed25519 \nssh-ed25519   \t\n"), Vec::<String>::new());
    assert_eq!(remote_key_texts(""), Vec::<String>::new());
    assert_eq!(remote_key_texts("\n\n\n"), Vec::<String>::new());
    assert_eq!(remote_key_texts("ssh-ed2551 KEY\n ssh-ed25519 KEY\nSSH-ED25519 KEY"), Vec::<String>::new());
}

#[test]
fn the_marker_is_a_prefix_of_the_line() {
    assert_eq!(remote_key_texts("ssh-ed25519-cert KEY c"), vec!["KEY".to_string()]);
    assert_eq!(remote_key_texts("ssh-ed25519KEY second third"), vec!["second".to_string()]);
}

#[test]
fn any_blank_separates_the_words() {
    assert_eq!(remote_key_texts("ssh-ed25519\tKEY\tc"), vec!["KEY".to_string()]);
    assert_eq!(remote_key_texts("ssh-ed25519 \u{a0}\u{3000} KEY\u{2003}c"), vec!["KEY".to_string()]);
    assert_eq!(remote_key_texts("ssh-ed25519 KEY\r\nssh-ed25519 K2\r\n"), vec!["KEY".to_string(), "K2".to_string()]);
    assert_eq!(remote_key_texts("ssh-ed25519 KÉY😀 c"), vec!["KÉY😀".to_string()]);
}

#[test]
fn key_texts_are_what_the_standard_splitting_gives() {
    let bodies = [
        "ssh-ed25519 AAAA comment\nssh-rsa BBBB\n\n",
        "ssh-ed25519 A\rssh-ed25519 B\n",
        "ssh-ed25519\u{b}A\u{c}B\n\nssh-ed25519 C",
        "x\nssh-ed25519 \u{85}K\u{1680}\n",
        "ssh-ed25519 K\u{200b}L M",
        "ssh-ed25519",
        "\nssh-ed25519 only\n",
    ];
    for body in bodies {
        let expected: Vec<String> = body
            .lines()
            .filter(|line| line.starts_with("ssh-ed25519"))
            .filter_map(|line| line.split_whitespace().nth(1))
            .map(|key| key.to_string())
            .collect();
        assert_eq!(remote_key_texts(body), expected, "{:?}", body);
    }
}

#[test]
fn blanks_are_the_white_space_characters() {
    for code in 0u32..0x3100 {
        if let Some(c) = char::from_u32(code) {
            assert_eq!(is_whitespace(c), c.is_whitespace(), "U+{:04X}", code);
        }
    }
    assert!(!is_whitespace('\u{feff}'));
    assert!(!is_whitespace('\u{10ffff}'));
}

#[test]
fn fetched_list_gives_its_key_texts() {
    assert_eq!(
        fetched_key_texts(text("ssh-ed25519 AAAA comment\nssh-rsa BBBB\n\n")),
        Ok(vec!["AAAA".to_string()])
    );
}

#[test]
fn fetched_list_without_ed25519_line_gives_no_key_and_no_error() {
    assert_eq!(fetched_key_texts(text("ssh-rsa BBBB\n")), Ok(Vec::new()));
    assert_eq!(fetched_key_texts(text("")), Ok(Vec::new()));
}

#[test]
fn failed_fetch_is_a_key_fetch_error() {
    assert_eq!(fetched_key_texts(None), Err(Error::KeyFetchError));
}

#[test]
fn unparsed_keys_are_passed_over() {
    assert_eq!(parsed_keys::<u8>(vec![Some(1), None, Some(3), None, None, Some(6)]), vec![1u8, 3, 6]);
    assert_eq!(parsed_keys::<u8>(vec![None, None]), Vec::<u8>::new());
    assert_eq!(parsed_keys::<u8>(Vec::new()), Vec::<u8>::new());
    assert_eq!(parsed_keys::<&str>(vec![Some("a"), Some("b")]), vec!["a", "b"]);
}

#[test]
fn key_that_did_not_load_is_a_key_load_error() {
    assert_eq!(loaded_key::<u8>(Some(5)), Ok(5u8));
    assert_eq!(loaded_key::<u8>(None), Err(Error::KeyLoadError));
}

#[test]
fn every_error_has_its_description() {
    let all = [
        Error::MalformedEnvelope,
        Error::InvalidSignatureEncoding,
        Error::UnsupportedKeyAlgorithm,
        Error::KeyLoadError,
        Error::NoDefaultKeyLocation,
        Error::KeyFetchError,
        Error::ConfigurationError,
    ];
    for (i, a) in all.iter().enumerate() {
        assert!(!a.describe().is_empty());
        for b in all.iter().skip(i + 1) {
            assert_ne!(a, b);
            assert_ne!(a.describe(), b.describe());
        }
    }
    assert_eq!(Error::InvalidSignatureEncoding.describe(), "Signature not proper base64!");
    assert_eq!(Error::ConfigurationError.describe(), "No github user in message!");
}
