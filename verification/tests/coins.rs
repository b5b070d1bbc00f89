use record_stream::error::DecodeError;
use record_stream::error::Field;
use record_stream::fields::read_hex_u64;
use record_stream::fields::write_height;
use record_stream::fields::write_hex;
use record_stream::fields::write_identifier;
use record_stream::visitors::CoinConfig;
use record_stream::visitors::CoinConfigVisitor;
use serde_json::Value;

const OWNER: &str = "0x000102030405060708090a0b0c0d0e0f101112131415161718191a1b1c1d1e1f";
const ASSET: &str = "ffeeddccbbaa99887766554433221100FFEEDDCCBBAA99887766554433221100";

fn json(text: &str) -> Value {
    match serde_json::from_str(text) {
        Ok(value) => value,
        Err(e) => panic!("bad test input {text}: {e}"),
    }
}

fn pair(key: &str, value: &str) -> (String, Value) {
    (key.to_string(), Value::String(value.to_string()))
}

fn owner_bytes() -> [u8; 32] {
    let mut bytes = [0u8; 32];
    for (i, b) in bytes.iter_mut().enumerate() {
        *b = i as u8;
    }
    bytes
}

fn asset_bytes() -> [u8; 32] {
    let half = [
        0xff, 0xee, 0xdd, 0xcc, 0xbb, 0xaa, 0x99, 0x88, 0x77, 0x66, 0x55, 0x44, 0x33, 0x22, 0x11,
        0x00,
    ];
    let mut bytes = [0u8; 32];
    bytes[..16].copy_from_slice(&half);
    bytes[16..].copy_from_slice(&half);
    bytes
}

fn required() -> Vec<(String, Value)> {
    vec![pair("owner", OWNER), pair("amount", "0x2a"), pair("asset_id", ASSET)]
}

fn decode(pairs: &[(String, Value)]) -> Result<CoinConfig, DecodeError> {
    CoinConfigVisitor.visit_map(pairs)
}

fn with(key: &str, value: &str) -> Result<CoinConfig, DecodeError> {
    let mut pairs = required();
    pairs.push(pair(key, value));
    decode(&pairs)
}

#[test]
fn hex_amount_decodes_to_integer() {
    let coin = decode(&required());
    assert_eq!(
        coin,
        Ok(CoinConfig {
            tx_id: None,
            output_index: None,
            tx_pointer_block_height: None,
            tx_pointer_tx_idx: None,
            maturity: None,
            owner: owner_bytes(),
            amount: 42,
            asset_id: asset_bytes(),
        })
    );
}

#[test]
fn coin_with_every_field() {
    let value = json(&format!(
        r#"{{
            "tx_id": "{ASSET}",
            "output_index": "0xff",
            "tx_pointer_block_height": "4294967295",
            "tx_pointer_tx_idx": "0xFFFF",
            "maturity": "0",
            "owner": "{OWNER}",
            "amount": "0xffffffffffffffff",
            "asset_id": "0x{ASSET}",
            "comment": ["not", "a", "field"]
        }}"#
    ));
    assert_eq!(
        CoinConfig::deserialize(&value),
        Ok(CoinConfig {
            tx_id: Some(asset_bytes()),
            output_index: Some(255),
            tx_pointer_block_height: Some(u32::MAX),
            tx_pointer_tx_idx: Some(65535),
            maturity: Some(0),
            owner: owner_bytes(),
            amount: u64::MAX,
            asset_id: asset_bytes(),
        })
    );
}

#[test]
fn missing_required_field() {
    let pairs = vec![pair("amount", "0x2a"), pair("asset_id", ASSET), pair("maturity", "1")];
    let result = decode(&pairs);
    assert_eq!(result, Err(DecodeError::MissingField(Field::Owner)));
    match result {
        Err(e) => assert_eq!(e.message(), "missing field: owner"),
        Ok(coin) => panic!("decoded {coin:?}"),
    }
}

#[test]
fn missing_fields_are_named_in_order() {
    assert_eq!(decode(&[]), Err(DecodeError::MissingField(Field::Owner)));
    assert_eq!(decode(&[pair("owner", OWNER)]), Err(DecodeError::MissingField(Field::Amount)));
    assert_eq!(
        decode(&[pair("owner", OWNER), pair("amount", "0x0")]),
        Err(DecodeError::MissingField(Field::AssetId))
    );
    assert_eq!(
        decode(&[pair("asset_id", ASSET), pair("owner", OWNER)]),
        Err(DecodeError::MissingField(Field::Amount))
    );
}

#[test]
fn malformed_value_comes_before_missing_field() {
    let result = decode(&[pair("amount", "0xzz")]);
    assert_eq!(result, Err(DecodeError::MalformedField(Field::Amount)));
    match result {
        Err(e) => assert_eq!(e.message(), "malformed field: amount"),
        Ok(coin) => panic!("decoded {coin:?}"),
    }
}

#[test]
fn first_malformed_pair_is_reported() {
    let pairs = vec![
        pair("owner", OWNER),
        pair("maturity", "x"),
        pair("amount", "nothex"),
        pair("maturity", "7"),
    ];
    assert_eq!(decode(&pairs), Err(DecodeError::MalformedField(Field::Maturity)));
}

#[test]
fn last_pair_under_a_key_counts() {
    let mut pairs = required();
    pairs.push(pair("amount", "0x10"));
    pairs.push(pair("maturity", "3"));
    pairs.push(pair("maturity", "9"));
    match decode(&pairs) {
        Ok(coin) => {
            assert_eq!(coin.amount, 16);
            assert_eq!(coin.maturity, Some(9));
        }
        Err(e) => panic!("{}", e.message()),
    }
}

#[test]
fn unknown_keys_are_passed_over() {
    let mut pairs = required();
    pairs.insert(0, ("note".to_string(), json(r#"{"amount": "bad"}"#)));
    pairs.push(("Owner".to_string(), json("17")));
    match decode(&pairs) {
        Ok(coin) => assert_eq!(coin.amount, 42),
        Err(e) => panic!("{}", e.message()),
    }
}

#[test]
fn amount_conventions() {
    let amount = |text: &str| match with("amount", text) {
        Ok(coin) => Some(coin.amount),
        Err(e) => {
            assert_eq!(e, DecodeError::MalformedField(Field::Amount));
            None
        }
    };
    assert_eq!(amount("0x0"), Some(0));
    assert_eq!(amount("0x0000000000000000000000000000002A"), Some(42));
    assert_eq!(amount("0xDeadBeef"), Some(0xdead_beef));
    assert_eq!(amount("0x+2a"), Some(42));
    // the two leading bytes are dropped whatever they are
    assert_eq!(amount("zz2a"), Some(42));
    assert_eq!(amount("0X10"), Some(16));
    assert_eq!(amount("0xffffffffffffffff"), Some(u64::MAX));
    assert_eq!(amount("0x10000000000000000"), None);
    assert_eq!(amount("0x"), None);
    assert_eq!(amount("0x+"), None);
    assert_eq!(amount("0x-1"), None);
    assert_eq!(amount("0x2a "), None);
    assert_eq!(amount("0x2g"), None);
    assert_eq!(amount("0x_2a"), None);
    assert_eq!(amount("2a"), None);
    assert_eq!(amount("4"), None);
    assert_eq!(amount(""), None);
    assert_eq!(amount("\u{20ac}2a"), None);
    assert_eq!(amount("\u{e9}2a"), Some(42));
}

#[test]
fn amount_has_to_be_a_string() {
    let mut pairs = required();
    pairs.push(("amount".to_string(), json("42")));
    assert_eq!(decode(&pairs), Err(DecodeError::MalformedField(Field::Amount)));
}

#[test]
fn indices_are_bounded_by_their_width() {
    match with("output_index", "0xff") {
        Ok(coin) => assert_eq!(coin.output_index, Some(255)),
        Err(e) => panic!("{}", e.message()),
    }
    assert_eq!(with("output_index", "0x100"), Err(DecodeError::MalformedField(Field::OutputIndex)));
    match with("tx_pointer_tx_idx", "0xffff") {
        Ok(coin) => assert_eq!(coin.tx_pointer_tx_idx, Some(65535)),
        Err(e) => panic!("{}", e.message()),
    }
    assert_eq!(
        with("tx_pointer_tx_idx", "0x10000"),
        Err(DecodeError::MalformedField(Field::TxPointerTxIdx))
    );
}

#[test]
fn heights_are_decimal() {
    let height = |text: &str| match with("tx_pointer_block_height", text) {
        Ok(coin) => coin.tx_pointer_block_height,
        Err(e) => {
            assert_eq!(e, DecodeError::MalformedField(Field::TxPointerBlockHeight));
            None
        }
    };
    assert_eq!(height("0"), Some(0));
    assert_eq!(height("12"), Some(12));
    assert_eq!(height("+12"), Some(12));
    assert_eq!(height("0012"), Some(12));
    assert_eq!(height("4294967295"), Some(u32::MAX));
    assert_eq!(height("4294967296"), None);
    assert_eq!(height("0x12"), None);
    assert_eq!(height("1a"), None);
    assert_eq!(height("-1"), None);
    assert_eq!(height(""), None);
    assert_eq!(height(" 1"), None);
}

#[test]
fn identifier_conventions() {
    let owner = |text: &str| match with("owner", text) {
        Ok(coin) => Some(coin.owner),
        Err(e) => {
            assert_eq!(e, DecodeError::MalformedField(Field::Owner));
            None
        }
    };
    assert_eq!(owner(OWNER), Some(owner_bytes()));
    assert_eq!(owner(&OWNER[2..]), Some(owner_bytes()));
    assert_eq!(owner(ASSET), Some(asset_bytes()));
    // what follows the 64 digits is not looked at
    assert_eq!(owner(&format!("{OWNER}zz")), Some(owner_bytes()));
    assert_eq!(owner(&OWNER[..OWNER.len() - 1]), None);
    assert_eq!(owner(&format!("0X{}", &OWNER[2..])), None);
    assert_eq!(owner(&format!("g{}", &OWNER[3..])), None);
    assert_eq!(owner(""), None);
    assert_eq!(owner("0x"), None);
}

#[test]
fn tx_id_and_asset_id_are_identifiers() {
    match with("tx_id", OWNER) {
        Ok(coin) => {
            assert_eq!(coin.tx_id, Some(owner_bytes()));
            assert_eq!(coin.asset_id, asset_bytes());
        }
        Err(e) => panic!("{}", e.message()),
    }
    assert_eq!(with("tx_id", "12"), Err(DecodeError::MalformedField(Field::TxId)));
    assert_eq!(with("asset_id", "12"), Err(DecodeError::MalformedField(Field::AssetId)));
}

#[test]
fn coin_has_to_be_a_map() {
    assert_eq!(CoinConfig::deserialize(&json("[]")), Err(DecodeError::ExpectedMap));
    assert_eq!(CoinConfig::deserialize(&json("null")), Err(DecodeError::ExpectedMap));
    assert_eq!(
        CoinConfig::deserialize(&json("{}")),
        Err(DecodeError::MissingField(Field::Owner))
    );
}

#[test]
fn written_amounts_are_read_back() {
    assert_eq!(write_hex(0), "0x0");
    assert_eq!(write_hex(42), "0x2a");
    assert_eq!(write_hex(255), "0xff");
    assert_eq!(write_hex(4096), "0x1000");
    assert_eq!(write_hex(u64::MAX), "0xffffffffffffffff");
    for n in [0, 1, 9, 10, 15, 16, 42, 0xdead_beef, u64::MAX - 1, u64::MAX] {
        assert_eq!(read_hex_u64(&Value::String(write_hex(n))), Some(n));
    }
    match with("amount", &write_hex(42)) {
        Ok(coin) => assert_eq!(coin.amount, 42),
        Err(e) => panic!("{}", e.message()),
    }
}

#[test]
fn written_coin_is_read_back() {
    let coin = CoinConfig {
        tx_id: Some(asset_bytes()),
        output_index: Some(255),
        tx_pointer_block_height: Some(4_000_000_000),
        tx_pointer_tx_idx: Some(4096),
        maturity: Some(0),
        owner: owner_bytes(),
        amount: 42,
        asset_id: [0xab; 32],
    };
    let pairs = coin.to_pairs();
    assert_eq!(
        pairs,
        vec![
            pair("tx_id", &ASSET.to_lowercase()),
            pair("output_index", "0xff"),
            pair("tx_pointer_block_height", "4000000000"),
            pair("tx_pointer_tx_idx", "0x1000"),
            pair("maturity", "0"),
            pair("owner", &OWNER[2..]),
            pair("amount", "0x2a"),
            pair("asset_id", &"ab".repeat(32)),
        ]
    );
    assert_eq!(decode(&pairs), Ok(coin.clone()));
    let text = Value::Object(pairs.into_iter().collect()).to_string();
    assert_eq!(CoinConfig::deserialize(&json(&text)), Ok(coin));
}

#[test]
fn absent_fields_are_not_written() {
    let coin = CoinConfig {
        tx_id: None,
        output_index: None,
        tx_pointer_block_height: None,
        tx_pointer_tx_idx: None,
        maturity: None,
        owner: [0; 32],
        amount: u64::MAX,
        asset_id: [0xff; 32],
    };
    let pairs = coin.to_pairs();
    assert_eq!(
        pairs,
        vec![
            pair("owner", &"00".repeat(32)),
            pair("amount", "0xffffffffffffffff"),
            pair("asset_id", &"ff".repeat(32)),
        ]
    );
    assert_eq!(decode(&pairs), Ok(coin));
}

#[test]
fn written_identifiers_and_heights_are_read_back() {
    assert_eq!(write_identifier(&owner_bytes()), &OWNER[2..]);
    assert_eq!(write_identifier(&asset_bytes()), ASSET.to_lowercase());
    assert_eq!(write_height(0), "0");
    assert_eq!(write_height(u32::MAX), "4294967295");
    match with("maturity", &write_height(123456)) {
        Ok(coin) => assert_eq!(coin.maturity, Some(123456)),
        Err(e) => panic!("{}", e.message()),
    }
    match with("tx_id", &write_identifier(&[0x5a; 32])) {
        Ok(coin) => assert_eq!(coin.tx_id, Some([0x5a; 32])),
        Err(e) => panic!("{}", e.message()),
    }
}
