use aws_client_id_secret_hash::{Config, LoadedConfig};

fn loaded(client_id: &str, client_secret: &str, missing_client_id: bool, missing_client_secret: bool) -> LoadedConfig {
    LoadedConfig {
        config: Config { client_id: client_id.to_string(), client_secret: client_secret.to_string() },
        missing_client_id,
        missing_client_secret,
    }
}

#[test]
fn both_keys_present() {
    let r = Config::parse_config("client_id = abc\nclient_secret = xyz\n");
    assert_eq!(r, Some(loaded("abc", "xyz", false, false)));
}

#[test]
fn values_are_trimmed() {
    let r = Config::parse_config("client_id =   abc   \nclient_secret=\txyz \n");
    assert_eq!(r, Some(loaded("abc", "xyz", false, false)));
}

#[test]
fn missing_secret_is_empty_and_noted() {
    let r = Config::parse_config("client_id = abc\n");
    assert_eq!(r, Some(loaded("abc", "", false, true)));
}

#[test]
fn missing_id_is_empty_and_noted() {
    let r = Config::parse_config("client_secret = xyz\n");
    assert_eq!(r, Some(loaded("", "xyz", true, false)));
}

#[test]
fn empty_file_misses_both() {
    let r = Config::parse_config("");
    assert_eq!(r, Some(loaded("", "", true, true)));
}

#[test]
fn keys_in_a_named_section_do_not_count() {
    let r = Config::parse_config("[aws]\nclient_id = abc\nclient_secret = xyz\n");
    assert_eq!(r, Some(loaded("", "", true, true)));
}

#[test]
fn first_value_of_a_repeated_key_wins() {
    let r = Config::parse_config("client_id = first\nclient_id = second\nclient_secret = s\n");
    assert_eq!(r, Some(loaded("first", "s", false, false)));
}

#[test]
fn malformed_file_asks_for_creation() {
    assert_eq!(Config::parse_config("[unclosed\nclient_id = abc\n"), None);
    assert_eq!(Config::parse_config("= value without key\n"), None);
}

#[test]
fn created_config_reads_back_trimmed_lines() {
    let ini = Config::create_config("  my-id \n", "my secret\r\n");
    let r = Config::from_ini(&ini);
    assert_eq!(r, loaded("my-id", "my secret", false, false));
}

#[test]
fn created_config_from_empty_lines() {
    let ini = Config::create_config("", "\n");
    let r = Config::from_ini(&ini);
    assert_eq!(r, loaded("", "", false, false));
}

#[test]
fn created_config_trims_unicode_whitespace() {
    let ini = Config::create_config("\u{3000}id\u{a0}", "\u{2003}sec\u{85}");
    let r = Config::from_ini(&ini);
    assert_eq!(r, loaded("id", "sec", false, false));
}

#[test]
fn created_config_is_written_with_both_keys() {
    let ini = Config::create_config("id1", "sec1");
    let mut buf: Vec<u8> = Vec::new();
    ini.write_to(&mut buf).unwrap();
    let text = String::from_utf8(buf).unwrap();
    assert_eq!(Config::parse_config(&text), Some(loaded("id1", "sec1", false, false)));
}

#[test]
fn surrogate_escape_asks_for_creation() {
    assert_eq!(Config::parse_config("client_id = abc\nclient_secret = \\xD800\n"), None);
    assert_eq!(Config::parse_config("client_id = \\xdbff\n"), None);
}

#[test]
fn low_surrogate_escape_asks_for_creation() {
    assert_eq!(Config::parse_config("client_id = \\xDC00\n"), None);
    assert_eq!(Config::parse_config("client_id = abc\nclient_secret = \\xdfff\n"), None);
}

#[test]
fn surrogate_escape_in_key_section_or_quotes_asks_for_creation() {
    assert_eq!(Config::parse_config("client\\xDC00_id = abc\n"), None);
    assert_eq!(Config::parse_config("[s\\xD800]\nclient_id = abc\n"), None);
    assert_eq!(Config::parse_config("client_id = \"a\\xDFFF\"\n"), None);
}

#[test]
fn escaped_backslash_before_surrogate_digits_is_read() {
    let r = Config::parse_config("client_id = a\\\\xD800\n");
    assert_eq!(r, Some(loaded("a\\xD800", "", false, true)));
}

#[test]
fn surrogate_digits_in_a_comment_are_read() {
    let r = Config::parse_config("; \\xD800\n# \\xdfff\nclient_id = abc\nclient_secret = s\n");
    assert_eq!(r, Some(loaded("abc", "s", false, false)));
}

#[test]
fn escape_after_other_escape_is_read() {
    let r = Config::parse_config("client_id = \\\\\\x0041\n");
    assert_eq!(r, Some(loaded("\\A", "", false, true)));
}

#[test]
fn malformed_hex_escape_asks_for_creation() {
    assert_eq!(Config::parse_config("client_id = \\xD8zz\n"), None);
    assert_eq!(Config::parse_config("client_id = \\xD8"), None);
}

#[test]
fn ordinary_hex_escape_is_read() {
    let r = Config::parse_config("client_id = \\x0041bc\nclient_secret = \\xd7ff\n");
    assert_eq!(r, Some(loaded("Abc", "\u{d7ff}", false, false)));
}

#[test]
fn created_config_has_only_the_general_section() {
    let ini = Config::create_config("id1", "sec1");
    let mut buf: Vec<u8> = Vec::new();
    ini.write_to(&mut buf).unwrap();
    assert_eq!(String::from_utf8(buf).unwrap(), "client_id=id1\nclient_secret=sec1\n");
    assert_eq!(ini.sections().collect::<Vec<_>>(), vec![None]);
}
