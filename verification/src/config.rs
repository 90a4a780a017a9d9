//! The configuration of one indexer instance, and how it is put together
//! from the values that the environment holds.

use vstd::prelude::*;
use vstd::string::*;
use vstd::utf8::encode_utf8;
use crate::types::Address;

verus! {

/// Where to listen and what to watch: the feed endpoints, the store, the
/// token, and the wallets of the exchange.
#[derive(Clone, Debug)]
pub struct AppConfig {
    pub ws_url: String,
    pub http_url: String,
    pub db_url: String,
    pub pol_token: Address,
    pub pol_symbol: String,
    pub pol_decimals: Option<u8>,
    pub binance_addrs: Vec<Address>,
    pub http_listen_addr: String,
}

/// The values of the environment variables that the configuration is made
/// from; `None` stands for a variable that is not set.
#[derive(Clone, Debug)]
pub struct EnvValues {
    pub polygon_rpc_ws: Option<String>,
    pub polygon_rpc_http: Option<String>,
    pub database_url: Option<String>,
    pub pol_token_address: Option<String>,
    pub pol_token_symbol: Option<String>,
    pub pol_token_decimals: Option<String>,
    pub binance_addresses: Option<String>,
    pub http_listen_addr: Option<String>,
}

/// Why no configuration could be made.
#[derive(Clone, Copy, Debug, PartialEq, Eq, Structural)]
pub enum ConfigError {
    /// The websocket endpoint is not set.
    MissingWsUrl,
    /// The HTTP endpoint is not set.
    MissingHttpUrl,
    /// The token address is not set.
    MissingTokenAddress,
    /// The token address is no address.
    InvalidTokenAddress,
    /// The list of wallets is not set.
    MissingAddresses,
    /// An entry of the list of wallets is no address.
    InvalidAddress,
}

/// The address that `ethers` reads from a text, given by its UTF-8 bytes,
/// or `None` where it reads none.
pub uninterp spec fn parsed_address(text: Seq<u8>) -> Option<Seq<u8>>;

/// Calls `Address::from_str` of `ethers` on the text that `text` encodes.
///
/// Trusted, not proved: whether an address is read, and which, depends on
/// the bytes of `text` alone. Bytes that are no valid UTF-8 give `None`.
#[verifier::external_body]
fn address_from_text(text: &[u8]) -> (r: Option<Address>)
    ensures
        match r {
            Some(a) => parsed_address(text@) == Some(a@),
            None => parsed_address(text@) is None,
        },
{
    match core::str::from_utf8(text) {
        Ok(s) => match s.parse::<ethers::types::Address>() {
            Ok(a) => Some(Address { bytes: a.0 }),
            Err(_) => None,
        },
        Err(_) => None,
    }
}

/// Whether three bytes encode one of the white-space characters that take
/// three bytes: U+1680, U+2000 to U+200A, U+2028, U+2029, U+202F, U+205F
/// and U+3000.
pub open spec fn is_wide_space(b0: u8, b1: u8, b2: u8) -> bool {
    ||| b0 == 0xe1 && b1 == 0x9a && b2 == 0x80
    ||| b0 == 0xe2 && b1 == 0x80 && (0x80 <= b2 <= 0x8a || b2 == 0xa8 || b2 == 0xa9 || b2 == 0xaf)
    ||| b0 == 0xe2 && b1 == 0x81 && b2 == 0x9f
    ||| b0 == 0xe3 && b1 == 0x80 && b2 == 0x80
}

/// The number of bytes of the white-space character that the text begins
/// with, and zero where it begins with none. White space is what Unicode
/// calls so: U+0009 to U+000D, U+0020, U+0085, U+00A0 and the wide ones.
pub open spec fn space_prefix_len(text: Seq<u8>) -> nat {
    if text.len() >= 1 && (0x09 <= text[0] <= 0x0d || text[0] == 0x20) {
        1
    } else if text.len() >= 2 && text[0] == 0xc2 && (text[1] == 0x85 || text[1] == 0xa0) {
        2
    } else if text.len() >= 3 && is_wide_space(text[0], text[1], text[2]) {
        3
    } else {
        0
    }
}

/// The number of bytes of the white-space character that the text ends
/// with, and zero where it ends with none.
pub open spec fn space_suffix_len(text: Seq<u8>) -> nat {
    let n = text.len() as int;
    if n >= 1 && (0x09 <= text[n - 1] <= 0x0d || text[n - 1] == 0x20) {
        1
    } else if n >= 2 && text[n - 2] == 0xc2 && (text[n - 1] == 0x85 || text[n - 1] == 0xa0) {
        2
    } else if n >= 3 && is_wide_space(text[n - 3], text[n - 2], text[n - 1]) {
        3
    } else {
        0
    }
}

/// The text without the white space it begins with.
pub open spec fn trimmed_start(text: Seq<u8>) -> Seq<u8>
    decreases text.len(),
{
    let n = space_prefix_len(text);
    if n == 0 {
        text
    } else {
        trimmed_start(text.skip(n as int))
    }
}

/// The text without the white space it ends with.
pub open spec fn trimmed_end(text: Seq<u8>) -> Seq<u8>
    decreases text.len(),
{
    let n = space_suffix_len(text);
    if n == 0 {
        text
    } else {
        trimmed_end(text.take(text.len() - n))
    }
}

/// A text, given by its UTF-8 bytes, without its leading and trailing
/// white space.
pub open spec fn trimmed_text(text: Seq<u8>) -> Seq<u8> {
    trimmed_end(trimmed_start(text))
}

/// Whether three bytes encode a wide white-space character.
fn wide_space(b0: u8, b1: u8, b2: u8) -> (r: bool)
    ensures
        r == is_wide_space(b0, b1, b2),
{
    (b0 == 0xe1 && b1 == 0x9a && b2 == 0x80) || (b0 == 0xe2 && b1 == 0x80 && ((0x80 <= b2 && b2
        <= 0x8a) || b2 == 0xa8 || b2 == 0xa9 || b2 == 0xaf)) || (b0 == 0xe2 && b1 == 0x81 && b2
        == 0x9f) || (b0 == 0xe3 && b1 == 0x80 && b2 == 0x80)
}

/// The length of the white-space character at the start of
/// `text[from..to]`.
fn space_at_start(text: &[u8], from: usize, to: usize) -> (n: usize)
    requires
        from <= to <= text@.len(),
    ensures
        n == space_prefix_len(text@.subrange(from as int, to as int)),
        n <= to - from,
{
    let len = to - from;
    if len >= 1 && ((0x09 <= text[from] && text[from] <= 0x0d) || text[from] == 0x20) {
        1
    } else if len >= 2 && text[from] == 0xc2 && (text[from + 1] == 0x85 || text[from + 1] == 0xa0) {
        2
    } else if len >= 3 && wide_space(text[from], text[from + 1], text[from + 2]) {
        3
    } else {
        0
    }
}

/// The length of the white-space character at the end of `text[from..to]`.
fn space_at_end(text: &[u8], from: usize, to: usize) -> (n: usize)
    requires
        from <= to <= text@.len(),
    ensures
        n == space_suffix_len(text@.subrange(from as int, to as int)),
        n <= to - from,
{
    let len = to - from;
    if len >= 1 && ((0x09 <= text[to - 1] && text[to - 1] <= 0x0d) || text[to - 1] == 0x20) {
        1
    } else if len >= 2 && text[to - 2] == 0xc2 && (text[to - 1] == 0x85 || text[to - 1] == 0xa0) {
        2
    } else if len >= 3 && wide_space(text[to - 3], text[to - 2], text[to - 1]) {
        3
    } else {
        0
    }
}

/// Removes leading and trailing white space from a text given by its
/// UTF-8 bytes.
pub fn trim_text(text: &[u8]) -> (r: &[u8])
    ensures
        r@ == trimmed_text(text@),
{
    let len = text.len();
    let mut from: usize = 0;
    assert(text@.subrange(0, len as int) =~= text@);
    loop
        invariant
            from <= len,
            len == text@.len(),
            trimmed_start(text@) == trimmed_start(text@.subrange(from as int, len as int)),
        ensures
            from <= len,
            trimmed_start(text@) == text@.subrange(from as int, len as int),
        decreases len - from,
    {
        let n = space_at_start(text, from, len);
        if n == 0 {
            break;
        }
        assert(text@.subrange(from as int, len as int).skip(n as int) =~= text@.subrange(
            from + n,
            len as int,
        ));
        from += n;
    }
    let mut to: usize = len;
    loop
        invariant
            from <= to <= len,
            len == text@.len(),
            trimmed_start(text@) == text@.subrange(from as int, len as int),
            trimmed_text(text@) == trimmed_end(text@.subrange(from as int, to as int)),
        ensures
            from <= to <= len,
            trimmed_text(text@) == text@.subrange(from as int, to as int),
        decreases to - from,
    {
        let n = space_at_end(text, from, to);
        if n == 0 {
            break;
        }
        assert(text@.subrange(from as int, to as int).take(to - from - n) =~= text@.subrange(
            from as int,
            to - n,
        ));
        to -= n;
    }
    vstd::slice::slice_subrange(text, from, to)
}

/// The byte that separates the entries of a list.
pub open spec fn comma() -> u8 {
    0x2c
}

/// The entries of a comma-separated list, in order. A list without a comma
/// has one entry, which may be empty.
pub open spec fn list_entries(text: Seq<u8>) -> Seq<Seq<u8>>
    decreases text.len(),
{
    if text.len() == 0 {
        seq![Seq::<u8>::empty()]
    } else {
        let before = list_entries(text.drop_last());
        if text.last() == comma() {
            before.push(Seq::<u8>::empty())
        } else {
            before.drop_last().push(before.last().push(text.last()))
        }
    }
}

/// The addresses found so far after one more entry: an entry that is
/// empty once trimmed is passed over, one that reads as an address is
/// added, and any other one is the error. `parsed` is what the trimmed
/// entry reads as.
pub open spec fn entry_added(found: Seq<Seq<u8>>, text: Seq<u8>, parsed: Option<Seq<u8>>) -> Result<
    Seq<Seq<u8>>,
    Seq<u8>,
> {
    if text.len() == 0 {
        Ok(found)
    } else {
        match parsed {
            Some(a) => Ok(found.push(a)),
            None => Err(text),
        }
    }
}

/// The addresses that a sequence of list entries holds: each entry is
/// trimmed, an empty one is passed over, and every other one has to read
/// as an address. The first entry that does not is the error.
pub open spec fn entries_addresses(entries: Seq<Seq<u8>>) -> Result<Seq<Seq<u8>>, Seq<u8>>
    decreases entries.len(),
{
    if entries.len() == 0 {
        Ok(Seq::<Seq<u8>>::empty())
    } else {
        match entries_addresses(entries.drop_last()) {
            Err(bad) => Err(bad),
            Ok(found) => entry_added(
                found,
                trimmed_text(entries.last()),
                parsed_address(trimmed_text(entries.last())),
            ),
        }
    }
}

/// The addresses that a comma-separated list holds.
pub open spec fn listed_addresses(csv: Seq<u8>) -> Result<Seq<Seq<u8>>, Seq<u8>> {
    entries_addresses(list_entries(csv))
}

/// The views of a list of addresses.
pub open spec fn address_views(addrs: Seq<Address>) -> Seq<Seq<u8>> {
    Seq::new(addrs.len(), |i: int| addrs[i]@)
}

/// Splits a comma-separated list into its entries.
fn split_list(text: &[u8]) -> (entries: Vec<Vec<u8>>)
    ensures
        Seq::new(entries@.len(), |i: int| entries@[i]@) == list_entries(text@),
{
    let mut done: Vec<Vec<u8>> = Vec::new();
    let mut current: Vec<u8> = Vec::new();
    let mut i: usize = 0;
    while i < text.len()
        invariant
            i <= text@.len(),
            list_entries(text@.take(i as int)) == Seq::new(done@.len(), |k: int| done@[k]@).push(
                current@,
            ),
        decreases text@.len() - i,
    {
        let ghost before = list_entries(text@.take(i as int));
        let ghost done_before = Seq::new(done@.len(), |k: int| done@[k]@);
        let ghost current_before = current@;
        assert(text@.take(i + 1).drop_last() =~= text@.take(i as int));
        if text[i] == 0x2c {
            done.push(current);
            current = Vec::new();
        } else {
            current.push(text[i]);
        }
        i += 1;
    }
    assert(text@.take(text@.len() as int) =~= text@);
    let ghost done_before = Seq::new(done@.len(), |k: int| done@[k]@);
    let ghost current_before = current@;
    done.push(current);
    done
}

/// Adds what one trimmed entry holds to the addresses found so far.
/// `parsed` is what the entry reads as. An empty entry adds nothing, and
/// an entry that reads as no address is returned as the error, with the
/// addresses found so far left as they were.
pub fn add_entry(found: &mut Vec<Address>, text: &[u8], parsed: Option<Address>) -> (r: Result<
    (),
    Vec<u8>,
>)
    ensures
        text@.len() == 0 ==> r is Ok && final(found)@ == old(found)@,
        text@.len() > 0 && parsed is Some ==> r is Ok && final(found)@ == old(found)@.push(
            parsed->0,
        ),
        text@.len() > 0 && parsed is None ==> r is Err && r->Err_0@ == text@ && final(found)@
            == old(found)@,
        match r {
            Ok(()) => entry_added(
                address_views(old(found)@),
                text@,
                match parsed {
                    Some(a) => Some(a@),
                    None => None,
                },
            ) == Ok::<Seq<Seq<u8>>, Seq<u8>>(address_views(final(found)@)),
            Err(bad) => entry_added(
                address_views(old(found)@),
                text@,
                match parsed {
                    Some(a) => Some(a@),
                    None => None,
                },
            ) == Err::<Seq<Seq<u8>>, Seq<u8>>(bad@),
        },
{
    if text.len() == 0 {
        return Ok(());
    }
    match parsed {
        Some(a) => {
            found.push(a);
            assert(address_views(found@) =~= address_views(old(found)@).push(a@));
            Ok(())
        },
        None => Err(vstd::slice::slice_to_vec(text)),
    }
}

/// Reads the wallets of a comma-separated list. Entries are trimmed, empty
/// entries are passed over. Fails on the first entry that is no address,
/// with the text of that entry.
pub fn parse_addresses(csv: &str) -> (r: Result<Vec<Address>, Vec<u8>>)
    ensures
        match r {
            Ok(addrs) => listed_addresses(encode_utf8(csv@)) == Ok::<Seq<Seq<u8>>, Seq<u8>>(
                address_views(addrs@),
            ),
            Err(bad) => listed_addresses(encode_utf8(csv@)) == Err::<Seq<Seq<u8>>, Seq<u8>>(bad@),
        },
{
    let entries = split_list(csv.as_bytes());
    let ghost views = Seq::new(entries@.len(), |k: int| entries@[k]@);
    let mut found: Vec<Address> = Vec::new();
    let mut i: usize = 0;
    assert(views.take(0) =~= Seq::<Seq<u8>>::empty());
    assert(address_views(found@) =~= Seq::<Seq<u8>>::empty());
    while i < entries.len()
        invariant
            i <= entries@.len(),
            views == Seq::new(entries@.len(), |k: int| entries@[k]@),
            views == list_entries(encode_utf8(csv@)),
            entries_addresses(views.take(i as int)) == Ok::<Seq<Seq<u8>>, Seq<u8>>(
                address_views(found@),
            ),
        decreases entries@.len() - i,
    {
        assert(views.take(i + 1).drop_last() =~= views.take(i as int));
        let text = trim_text(entries[i].as_slice());
        match add_entry(&mut found, text, address_from_text(text)) {
            Ok(()) => {},
            Err(bad) => {
                proof {
                    lemma_error_stays(views, i + 1);
                }
                return Err(bad);
            },
        }
        i += 1;
    }
    assert(views.take(entries@.len() as int) =~= views);
    Ok(found)
}

/// Once a prefix of the entries has failed, the whole list fails with the
/// same entry.
proof fn lemma_error_stays(entries: Seq<Seq<u8>>, n: int)
    requires
        0 <= n <= entries.len(),
        entries_addresses(entries.take(n)) is Err,
    ensures
        entries_addresses(entries) == entries_addresses(entries.take(n)),
    decreases entries.len() - n,
{
    if n < entries.len() {
        assert(entries.take(n + 1).drop_last() =~= entries.take(n));
        lemma_error_stays(entries, n + 1);
    } else {
        assert(entries.take(n) =~= entries);
    }
}

/// The value of a string of decimal digits.
pub open spec fn digits_value(digits: Seq<u8>) -> nat
    decreases digits.len(),
{
    if digits.len() == 0 {
        0
    } else {
        digits_value(digits.drop_last()) * 10 + (digits.last() - 0x30) as nat
    }
}

/// Whether every byte is a decimal digit.
pub open spec fn all_digits(digits: Seq<u8>) -> bool {
    forall|i: int| 0 <= i < digits.len() ==> 0x30 <= #[trigger] digits[i] <= 0x39
}

/// The number below 256 that a text spells in decimal digits, with an
/// optional plus sign before them; `None` for every other text.
pub open spec fn decimal_u8(text: Seq<u8>) -> Option<u8> {
    let digits = if text.len() > 0 && text[0] == 0x2b {
        text.skip(1)
    } else {
        text
    };
    if digits.len() == 0 || !all_digits(digits) || digits_value(digits) > 255 {
        None
    } else {
        Some(digits_value(digits) as u8)
    }
}

/// Reads a count of decimal places.
pub fn parse_decimals(text: &str) -> (r: Option<u8>)
    ensures
        r == decimal_u8(encode_utf8(text@)),
{
    let bytes = text.as_bytes();
    let start: usize = if bytes.len() > 0 && bytes[0] == 0x2b {
        1
    } else {
        0
    };
    if start == bytes.len() {
        return None;
    }
    let ghost digits = bytes@.skip(start as int);
    let mut value: u32 = 0;
    let mut too_large = false;
    let mut i: usize = start;
    while i < bytes.len()
        invariant
            start <= i <= bytes@.len(),
            start < bytes@.len(),
            bytes@ == encode_utf8(text@),
            start == (if bytes@.len() > 0 && bytes@[0] == 0x2b {
                1int
            } else {
                0int
            }),
            digits == bytes@.skip(start as int),
            all_digits(digits.take(i - start)),
            too_large ==> digits_value(digits.take(i - start)) > 255,
            !too_large ==> value == digits_value(digits.take(i - start)) && value <= 255,
        decreases bytes@.len() - i,
    {
        let b = bytes[i];
        assert(digits.take(i - start + 1).drop_last() =~= digits.take(i - start));
        if b < 0x30 || b > 0x39 {
            assert(digits[i - start] == b);
            return None;
        }
        if !too_large {
            value = value * 10 + (b - 0x30) as u32;
            if value > 255 {
                too_large = true;
            }
        }
        assert(all_digits(digits.take(i - start + 1)));
        i += 1;
    }
    assert(digits.take(bytes@.len() - start) =~= digits);
    assert(bytes@.skip(0) =~= bytes@);
    if too_large {
        None
    } else {
        Some(value as u8)
    }
}

/// The first reason, in the order in which the variables are read, for
/// which no configuration can be made, or `None` where one can. `token` is
/// what the token address reads as, and `wallets` what the list of wallets
/// holds.
pub open spec fn assembly_error(
    env: EnvValues,
    token: Option<Seq<u8>>,
    wallets: Result<Seq<Seq<u8>>, Seq<u8>>,
) -> Option<ConfigError> {
    if env.polygon_rpc_ws is None {
        Some(ConfigError::MissingWsUrl)
    } else if env.polygon_rpc_http is None {
        Some(ConfigError::MissingHttpUrl)
    } else if env.pol_token_address is None {
        Some(ConfigError::MissingTokenAddress)
    } else if token is None {
        Some(ConfigError::InvalidTokenAddress)
    } else if env.binance_addresses is None {
        Some(ConfigError::MissingAddresses)
    } else if wallets is Err {
        Some(ConfigError::InvalidAddress)
    } else {
        None
    }
}

/// What the token address of the environment reads as; `None` also where
/// it is not set.
pub open spec fn token_in(env: EnvValues) -> Option<Seq<u8>> {
    match env.pol_token_address {
        Some(text) => parsed_address(encode_utf8(text@)),
        None => None,
    }
}

/// What the list of wallets of the environment holds; no wallet where it
/// is not set.
pub open spec fn wallets_in(env: EnvValues) -> Result<Seq<Seq<u8>>, Seq<u8>> {
    match env.binance_addresses {
        Some(csv) => listed_addresses(encode_utf8(csv@)),
        None => Ok(Seq::<Seq<u8>>::empty()),
    }
}

/// The first reason for which the environment gives no configuration;
/// `None` where it gives one.
pub open spec fn load_error(env: EnvValues) -> Option<ConfigError> {
    assembly_error(env, token_in(env), wallets_in(env))
}

/// Makes the configuration from the values of the environment, given what
/// the token address reads as (`token`) and what the list of wallets holds
/// (`wallets`). The two endpoints, the token address and the list of
/// wallets have to be set; the store defaults to `sqlite://netflow.db`,
/// the token symbol to `POL` and the listen address to `0.0.0.0:8080`.
/// Decimals that are not set, or do not read as a number below 256, are
/// left open.
pub fn assemble(env: EnvValues, token: Option<Address>, wallets: Result<Vec<Address>, Vec<u8>>) -> (r:
    Result<AppConfig, ConfigError>)
    ensures
        match r {
            Err(e) => assembly_error(
                env,
                match token {
                    Some(a) => Some(a@),
                    None => None,
                },
                match wallets {
                    Ok(addrs) => Ok(address_views(addrs@)),
                    Err(bad) => Err(bad@),
                },
            ) == Some(e),
            Ok(cfg) => {
                &&& assembly_error(
                    env,
                    match token {
                        Some(a) => Some(a@),
                        None => None,
                    },
                    match wallets {
                        Ok(addrs) => Ok(address_views(addrs@)),
                        Err(bad) => Err(bad@),
                    },
                ) is None
                &&& cfg.ws_url@ == env.polygon_rpc_ws->0@
                &&& cfg.http_url@ == env.polygon_rpc_http->0@
                &&& cfg.db_url@ == match env.database_url {
                    Some(url) => url@,
                    None => "sqlite://netflow.db"@,
                }
                &&& token == Some(cfg.pol_token)
                &&& cfg.pol_symbol@ == match env.pol_token_symbol {
                    Some(symbol) => symbol@,
                    None => "POL"@,
                }
                &&& cfg.pol_decimals == match env.pol_token_decimals {
                    Some(text) => decimal_u8(encode_utf8(text@)),
                    None => None,
                }
                &&& wallets == Ok::<Vec<Address>, Vec<u8>>(cfg.binance_addrs)
                &&& cfg.http_listen_addr@ == match env.http_listen_addr {
                    Some(addr) => addr@,
                    None => "0.0.0.0:8080"@,
                }
            },
        },
{
    let ws_url = match env.polygon_rpc_ws {
        Some(url) => url,
        None => {
            return Err(ConfigError::MissingWsUrl);
        },
    };
    let http_url = match env.polygon_rpc_http {
        Some(url) => url,
        None => {
            return Err(ConfigError::MissingHttpUrl);
        },
    };
    let db_url = match env.database_url {
        Some(url) => url,
        None => "sqlite://netflow.db".to_owned(),
    };
    if env.pol_token_address.is_none() {
        return Err(ConfigError::MissingTokenAddress);
    }
    let pol_token = match token {
        Some(a) => a,
        None => {
            return Err(ConfigError::InvalidTokenAddress);
        },
    };
    let pol_symbol = match env.pol_token_symbol {
        Some(symbol) => symbol,
        None => "POL".to_owned(),
    };
    let pol_decimals = match env.pol_token_decimals {
        Some(text) => parse_decimals(text.as_str()),
        None => None,
    };
    if env.binance_addresses.is_none() {
        return Err(ConfigError::MissingAddresses);
    }
    let binance_addrs = match wallets {
        Ok(addrs) => addrs,
        Err(_) => {
            return Err(ConfigError::InvalidAddress);
        },
    };
    let http_listen_addr = match env.http_listen_addr {
        Some(addr) => addr,
        None => "0.0.0.0:8080".to_owned(),
    };
    Ok(
        AppConfig {
            ws_url,
            http_url,
            db_url,
            pol_token,
            pol_symbol,
            pol_decimals,
            binance_addrs,
            http_listen_addr,
        },
    )
}

/// Makes the configuration from the values of the environment: reads the
/// token address and the list of wallets, and assembles the rest around
/// them.
pub fn load(env: EnvValues) -> (r: Result<AppConfig, ConfigError>)
    ensures
        match r {
            Err(e) => load_error(env) == Some(e),
            Ok(cfg) => {
                &&& load_error(env) is None
                &&& cfg.ws_url@ == env.polygon_rpc_ws->0@
                &&& cfg.http_url@ == env.polygon_rpc_http->0@
                &&& cfg.db_url@ == match env.database_url {
                    Some(url) => url@,
                    None => "sqlite://netflow.db"@,
                }
                &&& parsed_address(encode_utf8(env.pol_token_address->0@)) == Some(cfg.pol_token@)
                &&& cfg.pol_symbol@ == match env.pol_token_symbol {
                    Some(symbol) => symbol@,
                    None => "POL"@,
                }
                &&& cfg.pol_decimals == match env.pol_token_decimals {
                    Some(text) => decimal_u8(encode_utf8(text@)),
                    None => None,
                }
                &&& listed_addresses(encode_utf8(env.binance_addresses->0@)) == Ok::<
                    Seq<Seq<u8>>,
                    Seq<u8>,
                >(address_views(cfg.binance_addrs@))
                &&& cfg.http_listen_addr@ == match env.http_listen_addr {
                    Some(addr) => addr@,
                    None => "0.0.0.0:8080"@,
                }
            },
        },
{
    let token = match &env.pol_token_address {
        Some(text) => address_from_text(text.as_str().as_bytes()),
        None => None,
    };
    let wallets = match &env.binance_addresses {
        Some(csv) => parse_addresses(csv.as_str()),
        None => Ok(Vec::new()),
    };
    assert(address_views(Seq::<Address>::empty()) =~= Seq::<Seq<u8>>::empty());
    assemble(env, token, wallets)
}

} // verus!
