use netflow_indexer::config::{
    add_entry, assemble, load, parse_addresses, parse_decimals, ConfigError, EnvValues,
};
use netflow_indexer::types::Address;

fn cfg_addr(last: u8) -> Address {
    let mut bytes = [0u8; 20];
    bytes[19] = last;
    Address::new(bytes)
}

fn full_env() -> EnvValues {
    EnvValues {
        polygon_rpc_ws: Some(String::from("wss://ws.example")),
        polygon_rpc_http: Some(String::from("https://http.example")),
        database_url: Some(String::from("sqlite://other.db")),
        pol_token_address: Some(String::from("0x0000000000000000000000000000000000001010")),
        pol_token_symbol: Some(String::from("MATIC")),
        pol_token_decimals: Some(String::from("18")),
        binance_addresses: Some(String::from(
            "0x000000000000000000000000000000000000000a, 000000000000000000000000000000000000000B",
        )),
        http_listen_addr: Some(String::from("127.0.0.1:9000")),
    }
}

#[test]
fn addresses_are_split_trimmed_and_read() {
    let csv = " 0x000000000000000000000000000000000000000a ,,\t0xF39Fd6e51aad88F6F4ce6aB8827279cffFb92266\n, ";
    let addrs = parse_addresses(csv).expect("reads");
    assert_eq!(addrs.len(), 2);
    assert_eq!(addrs[0], cfg_addr(0x0a));
    assert_eq!(
        addrs[1],
        Address::new([
            0xf3, 0x9f, 0xd6, 0xe5, 0x1a, 0xad, 0x88, 0xf6, 0xf4, 0xce, 0x6a, 0xb8, 0x82, 0x72,
            0x79, 0xcf, 0xff, 0xb9, 0x22, 0x66
        ])
    );
}

#[test]
fn empty_list_gives_no_address() {
    assert_eq!(parse_addresses("").expect("reads").len(), 0);
    assert_eq!(parse_addresses(" , ,").expect("reads").len(), 0);
}

#[test]
fn unicode_whitespace_is_trimmed() {
    let csv = "\u{a0}0x000000000000000000000000000000000000000c\u{3000}";
    let addrs = parse_addresses(csv).expect("reads");
    assert_eq!(addrs, vec![cfg_addr(0x0c)]);
}

#[test]
fn first_bad_entry_is_reported() {
    let csv = "0x000000000000000000000000000000000000000a, nonsense ,0x12, also bad";
    assert_eq!(parse_addresses(csv).unwrap_err(), b"nonsense".to_vec());
    let short = "0x0a";
    assert_eq!(parse_addresses(short).unwrap_err(), b"0x0a".to_vec());
    let long = "0x000000000000000000000000000000000000000a00";
    assert!(parse_addresses(long).is_err());
}

#[test]
fn decimals_read_as_a_small_number() {
    assert_eq!(parse_decimals("18"), Some(18));
    assert_eq!(parse_decimals("0"), Some(0));
    assert_eq!(parse_decimals("+6"), Some(6));
    assert_eq!(parse_decimals("007"), Some(7));
    assert_eq!(parse_decimals("255"), Some(255));
    assert_eq!(parse_decimals("0255"), Some(255));
    assert_eq!(parse_decimals("256"), None);
    assert_eq!(parse_decimals("99999999999999999999999"), None);
    assert_eq!(parse_decimals(""), None);
    assert_eq!(parse_decimals("+"), None);
    assert_eq!(parse_decimals("-1"), None);
    assert_eq!(parse_decimals("1a"), None);
    assert_eq!(parse_decimals(" 6"), None);
    assert_eq!(parse_decimals("6 "), None);
    assert_eq!(parse_decimals("++6"), None);
    assert_eq!(parse_decimals("2561a"), None);
    assert_eq!(parse_decimals("\u{663}"), None);
    for n in 0..=255u32 {
        assert_eq!(parse_decimals(&n.to_string()), n.to_string().parse::<u8>().ok());
    }
    for n in 256..2000u32 {
        assert_eq!(parse_decimals(&n.to_string()), None);
    }
}

#[test]
fn full_environment_loads() {
    let cfg = load(full_env()).expect("loads");
    assert_eq!(cfg.ws_url, "wss://ws.example");
    assert_eq!(cfg.http_url, "https://http.example");
    assert_eq!(cfg.db_url, "sqlite://other.db");
    let mut token = [0u8; 20];
    token[18] = 0x10;
    token[19] = 0x10;
    assert_eq!(cfg.pol_token, Address::new(token));
    assert_eq!(cfg.pol_symbol, "MATIC");
    assert_eq!(cfg.pol_decimals, Some(18));
    assert_eq!(cfg.binance_addrs, vec![cfg_addr(0x0a), cfg_addr(0x0b)]);
    assert_eq!(cfg.http_listen_addr, "127.0.0.1:9000");
}

#[test]
fn defaults_fill_what_is_not_set() {
    let mut env = full_env();
    env.database_url = None;
    env.pol_token_symbol = None;
    env.pol_token_decimals = None;
    env.http_listen_addr = None;
    let cfg = load(env).expect("loads");
    assert_eq!(cfg.db_url, "sqlite://netflow.db");
    assert_eq!(cfg.pol_symbol, "POL");
    assert_eq!(cfg.pol_decimals, None);
    assert_eq!(cfg.http_listen_addr, "0.0.0.0:8080");
    let mut env = full_env();
    env.pol_token_decimals = Some(String::from("eighteen"));
    assert_eq!(load(env).expect("loads").pol_decimals, None);
}

#[test]
fn each_missing_or_bad_value_has_its_error() {
    let mut env = full_env();
    env.polygon_rpc_ws = None;
    env.polygon_rpc_http = None;
    assert_eq!(load(env).unwrap_err(), ConfigError::MissingWsUrl);
    let mut env = full_env();
    env.polygon_rpc_http = None;
    env.pol_token_address = None;
    assert_eq!(load(env).unwrap_err(), ConfigError::MissingHttpUrl);
    let mut env = full_env();
    env.pol_token_address = None;
    env.binance_addresses = None;
    assert_eq!(load(env).unwrap_err(), ConfigError::MissingTokenAddress);
    let mut env = full_env();
    env.pol_token_address = Some(String::from(" 0x0000000000000000000000000000000000001010"));
    assert_eq!(load(env).unwrap_err(), ConfigError::InvalidTokenAddress);
    let mut env = full_env();
    env.binance_addresses = None;
    assert_eq!(load(env).unwrap_err(), ConfigError::MissingAddresses);
    let mut env = full_env();
    env.binance_addresses = Some(String::from("0x00, 0x000000000000000000000000000000000000000a"));
    assert_eq!(load(env).unwrap_err(), ConfigError::InvalidAddress);
}

#[test]
fn trimming_agrees_with_the_standard_library() {
    let spaces: Vec<char> = (0..=0x10ffffu32)
        .filter_map(char::from_u32)
        .filter(|c| c.is_whitespace())
        .collect();
    assert_eq!(spaces.len(), 25);
    for c in spaces.iter() {
        let text = format!("{c}{c}0x0a{c}b{c}");
        assert_eq!(netflow_indexer::config::trim_text(text.as_bytes()), text.trim().as_bytes());
        let only = format!("{c}");
        assert_eq!(netflow_indexer::config::trim_text(only.as_bytes()), b"");
    }
    let samples = [
        "",
        " ",
        "a",
        " a",
        "a ",
        "  a b  ",
        "\t\r\n x \u{85}\u{a0}",
        "\u{1680}\u{2000}\u{200a}\u{2028}\u{2029}\u{202f}\u{205f}\u{3000}y\u{3000}",
        "\u{200b}z\u{200b}",
        "\u{e9}\u{20ac} \u{1f600}",
        "\u{80}x\u{9f}",
        "\u{2001}\u{e2}\u{80}",
    ];
    for s in samples.iter() {
        assert_eq!(netflow_indexer::config::trim_text(s.as_bytes()), s.trim().as_bytes(), "{s:?}");
    }
    for c in (0..=0x3100u32).filter_map(char::from_u32) {
        let text = format!("{c}m{c}");
        assert_eq!(netflow_indexer::config::trim_text(text.as_bytes()), text.trim().as_bytes());
    }
}

#[test]
fn entry_is_added_passed_over_or_refused() {
    let mut found = vec![cfg_addr(1)];
    assert_eq!(add_entry(&mut found, b"", None), Ok(()));
    assert_eq!(add_entry(&mut found, b"", Some(cfg_addr(9))), Ok(()));
    assert_eq!(found, vec![cfg_addr(1)]);
    assert_eq!(add_entry(&mut found, b"0x02", Some(cfg_addr(2))), Ok(()));
    assert_eq!(found, vec![cfg_addr(1), cfg_addr(2)]);
    assert_eq!(add_entry(&mut found, b"zz", None), Err(b"zz".to_vec()));
    assert_eq!(found, vec![cfg_addr(1), cfg_addr(2)]);
}

#[test]
fn assembling_decides_on_what_was_read() {
    let cfg = assemble(full_env(), Some(cfg_addr(7)), Ok(vec![cfg_addr(8)])).expect("assembles");
    assert_eq!(cfg.pol_token, cfg_addr(7));
    assert_eq!(cfg.binance_addrs, vec![cfg_addr(8)]);
    assert_eq!(cfg.pol_decimals, Some(18));
    assert_eq!(
        assemble(full_env(), None, Ok(vec![cfg_addr(8)])).unwrap_err(),
        ConfigError::InvalidTokenAddress
    );
    assert_eq!(
        assemble(full_env(), Some(cfg_addr(7)), Err(b"bad".to_vec())).unwrap_err(),
        ConfigError::InvalidAddress
    );
    assert_eq!(
        assemble(full_env(), None, Err(b"bad".to_vec())).unwrap_err(),
        ConfigError::InvalidTokenAddress
    );
    let mut env = full_env();
    env.pol_token_address = None;
    assert_eq!(
        assemble(env, Some(cfg_addr(7)), Ok(Vec::new())).unwrap_err(),
        ConfigError::MissingTokenAddress
    );
    let mut env = full_env();
    env.binance_addresses = None;
    assert_eq!(
        assemble(env, Some(cfg_addr(7)), Ok(vec![cfg_addr(8)])).unwrap_err(),
        ConfigError::MissingAddresses
    );
    let cfg = assemble(full_env(), Some(cfg_addr(7)), Ok(Vec::new())).expect("assembles");
    assert!(cfg.binance_addrs.is_empty());
}
