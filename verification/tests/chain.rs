use fuel_core_chain_config::ContractConfig;
use fuel_core_chain_config::MessageConfig;
use fuel_core_types::fuel_tx::ConsensusParameters;
use fuel_core_types::fuel_vm::GasCosts;
use record_stream::error::DecodeError;
use record_stream::error::Field;
use record_stream::visitors::CoinDeserializer;
use record_stream::visitors::CoinVisitor;
use record_stream::visitors::ConsensusConfig;
use record_stream::visitors::Data;
use record_stream::visitors::DataVisitor;
use record_stream::visitors::StateConfig;
use record_stream::visitors::StateConfigVisitor;
use serde_json::Value;

fn json(text: &str) -> Value {
    match serde_json::from_str(text) {
        Ok(value) => value,
        Err(e) => panic!("bad test input {text}: {e}"),
    }
}

fn list(text: &str) -> Vec<Value> {
    match json(text) {
        Value::Array(items) => items,
        other => panic!("not a list: {other}"),
    }
}

fn pairs_of(text: &str) -> Vec<(String, Value)> {
    match json(text) {
        Value::Object(map) => map.into_iter().collect(),
        other => panic!("not a map: {other}"),
    }
}

fn to_json<T: serde::Serialize>(value: &T) -> Value {
    match serde_json::to_value(value) {
        Ok(value) => value,
        Err(e) => panic!("{e}"),
    }
}

fn state(text: &str) -> Result<StateConfig, DecodeError> {
    StateConfig::deserialize(&json(text))
}

fn chain_pairs() -> Vec<(String, Value)> {
    vec![
        ("chain_name".to_string(), json(r#""local""#)),
        ("block_gas_limit".to_string(), json("1000000")),
        ("initial_state".to_string(), json(r#"{"height": "7", "coins": []}"#)),
        ("transaction_parameters".to_string(), to_json(&ConsensusParameters::DEFAULT)),
        ("gas_costs".to_string(), to_json(&GasCosts::default())),
        ("consensus".to_string(), json(r#"{"PoA": {"signing_key": "k1"}}"#)),
    ]
}

fn chain(pairs: &[(String, Value)]) -> Result<Data, DecodeError> {
    DataVisitor.visit_map(pairs)
}

fn replaced(key: &str, value: Value) -> Vec<(String, Value)> {
    let mut pairs = chain_pairs();
    for pair in pairs.iter_mut() {
        if pair.0 == key {
            pair.1 = value.clone();
        }
    }
    pairs
}

fn without(key: &str) -> Vec<(String, Value)> {
    chain_pairs().into_iter().filter(|pair| pair.0 != key).collect()
}

fn failure<T: std::fmt::Debug>(result: Result<T, DecodeError>) -> DecodeError {
    match result {
        Err(e) => e,
        Ok(value) => panic!("decoded {value:?}"),
    }
}

#[test]
fn objects_are_numbered() {
    let out = CoinVisitor.visit_seq(&list(r#"[{"a":1}, 5, {"b":2}, null, {}]"#));
    assert_eq!(out, json(r#"{"0": {"a":1}, "1": {"b":2}, "2": {}}"#));
}

#[test]
fn numbers_are_written_in_decimal() {
    let items: Vec<Value> = (0..12).map(|i| json(&format!(r#"{{"n":{i}}}"#))).collect();
    let out = CoinVisitor.visit_seq(&items);
    let map = match out {
        Value::Object(map) => map,
        other => panic!("not a map: {other}"),
    };
    assert_eq!(map.len(), 12);
    assert_eq!(map.get("0"), Some(&json(r#"{"n":0}"#)));
    assert_eq!(map.get("9"), Some(&json(r#"{"n":9}"#)));
    assert_eq!(map.get("10"), Some(&json(r#"{"n":10}"#)));
    assert_eq!(map.get("11"), Some(&json(r#"{"n":11}"#)));
}

#[test]
fn no_objects_no_entries() {
    assert_eq!(CoinVisitor.visit_seq(&list(r#"[1, "a", [{}]]"#)), json("{}"));
    assert_eq!(CoinVisitor.visit_seq(&[]), json("{}"));
}

#[test]
fn coins_section_has_to_be_a_list() {
    assert_eq!(CoinDeserializer.deserialize(&json("[]")), Ok(Some(vec![])));
    assert_eq!(
        CoinDeserializer.deserialize(&json(r#"[{"owner": "x"}, 3]"#)),
        Ok(Some(vec![]))
    );
    assert_eq!(CoinDeserializer.deserialize(&json("{}")), Err(DecodeError::ExpectedList));
    assert_eq!(CoinDeserializer.deserialize(&json("null")), Err(DecodeError::ExpectedList));
}

#[test]
fn empty_state() {
    let state = match state("{}") {
        Ok(state) => state,
        Err(e) => panic!("{}", e.message()),
    };
    assert_eq!(state.coins, None);
    assert_eq!(state.contracts, None);
    assert_eq!(state.messages, None);
    assert_eq!(state.height, None);
}

#[test]
fn state_with_every_section() {
    let message = MessageConfig::default();
    let document = format!(
        r#"{{"coins": [{{"amount": "0x1"}}], "contracts": null, "messages": [{}], "height": "12", "more": 1}}"#,
        to_json(&message)
    );
    let state = match state(&document) {
        Ok(state) => state,
        Err(e) => panic!("{}", e.message()),
    };
    assert_eq!(state.coins, Some(vec![]));
    assert_eq!(state.contracts, None);
    assert_eq!(state.messages, Some(vec![message]));
    assert_eq!(state.height, Some(12));
}

#[test]
fn state_with_empty_contracts() {
    let state = match state(r#"{"contracts": []}"#) {
        Ok(state) => state,
        Err(e) => panic!("{}", e.message()),
    };
    assert_eq!(state.contracts, Some(Vec::<ContractConfig>::new()));
}

#[test]
fn state_failures() {
    assert_eq!(failure(state(r#"{"coins": 1}"#)), DecodeError::ExpectedList);
    assert_eq!(
        failure(state(r#"{"contracts": [{"code": 1}]}"#)),
        DecodeError::MalformedField(Field::Contracts)
    );
    assert_eq!(
        failure(state(r#"{"messages": "none"}"#)),
        DecodeError::MalformedField(Field::Messages)
    );
    assert_eq!(failure(state(r#"{"height": 12}"#)), DecodeError::MalformedField(Field::Height));
    assert_eq!(failure(state(r#"{"height": "0x12"}"#)), DecodeError::MalformedField(Field::Height));
    assert_eq!(failure(state("[]")), DecodeError::ExpectedMap);
}

#[test]
fn state_reports_first_failing_pair() {
    let pairs = vec![
        ("height".to_string(), json(r#""1""#)),
        ("messages".to_string(), json("1")),
        ("coins".to_string(), json("1")),
    ];
    assert_eq!(
        failure(StateConfigVisitor.visit_map(&pairs)),
        DecodeError::MalformedField(Field::Messages)
    );
}

#[test]
fn consensus_is_tagged_by_its_name() {
    assert_eq!(
        ConsensusConfig::from_value(&json(r#"{"PoA": {"signing_key": "abc", "x": 1}}"#)),
        Some(ConsensusConfig::PoA { signing_key: "abc".to_string() })
    );
    assert_eq!(ConsensusConfig::from_value(&json(r#"{"PoA": {}}"#)), None);
    assert_eq!(ConsensusConfig::from_value(&json(r#"{"PoA": {"signing_key": 1}}"#)), None);
    assert_eq!(ConsensusConfig::from_value(&json(r#"{"PoA": "abc"}"#)), None);
    assert_eq!(
        ConsensusConfig::from_value(&json(r#"{"PoA": ["abc"]}"#)),
        Some(ConsensusConfig::PoA { signing_key: "abc".to_string() })
    );
    assert_eq!(ConsensusConfig::from_value(&json(r#"{"PoA": []}"#)), None);
    assert_eq!(ConsensusConfig::from_value(&json(r#"{"PoA": ["abc", "d"]}"#)), None);
    assert_eq!(ConsensusConfig::from_value(&json(r#"{"PoA": [7]}"#)), None);
    assert_eq!(ConsensusConfig::from_value(&json(r#"{"PoW": {"signing_key": "abc"}}"#)), None);
    assert_eq!(
        ConsensusConfig::from_value(&json(r#"{"PoA": {"signing_key": "abc"}, "PoB": 1}"#)),
        None
    );
    assert_eq!(ConsensusConfig::from_value(&json("{}")), None);
    assert_eq!(ConsensusConfig::from_value(&json(r#""PoA""#)), None);
}

#[test]
fn chain_with_every_field() {
    let mut pairs = chain_pairs();
    pairs.push(("extra".to_string(), json("[1]")));
    let data = match chain(&pairs) {
        Ok(data) => data,
        Err(e) => panic!("{}", e.message()),
    };
    assert_eq!(data.chain_name, "local");
    assert_eq!(data.block_gas_limit, 1_000_000);
    match data.initial_state {
        Some(state) => {
            assert_eq!(state.height, Some(7));
            assert_eq!(state.coins, Some(vec![]));
            assert_eq!(state.contracts, None);
        }
        None => panic!("no initial state"),
    }
    assert_eq!(data.transaction_parameters, ConsensusParameters::DEFAULT);
    assert_eq!(data.gas_costs, GasCosts::default());
    assert_eq!(data.consensus, ConsensusConfig::PoA { signing_key: "k1".to_string() });
}

#[test]
fn chain_from_the_pairs_of_a_map() {
    let document = Value::Object(chain_pairs().into_iter().collect());
    let pairs = pairs_of(&document.to_string());
    match chain(&pairs) {
        Ok(data) => assert_eq!(data.chain_name, "local"),
        Err(e) => panic!("{}", e.message()),
    }
}

#[test]
fn initial_state_may_be_null_but_not_absent() {
    match chain(&replaced("initial_state", Value::Null)) {
        Ok(data) => assert!(data.initial_state.is_none()),
        Err(e) => panic!("{}", e.message()),
    }
    assert_eq!(
        failure(chain(&without("initial_state"))),
        DecodeError::MissingField(Field::InitialState)
    );
}

#[test]
fn gas_limit_is_no_negative_number() {
    match chain(&replaced("block_gas_limit", json("0"))) {
        Ok(data) => assert_eq!(data.block_gas_limit, 0),
        Err(e) => panic!("{}", e.message()),
    }
    match chain(&replaced("block_gas_limit", json("9223372036854775807"))) {
        Ok(data) => assert_eq!(data.block_gas_limit, 9223372036854775807),
        Err(e) => panic!("{}", e.message()),
    }
    let bad = DecodeError::MalformedField(Field::BlockGasLimit);
    assert_eq!(failure(chain(&replaced("block_gas_limit", json("-1")))), bad);
    assert_eq!(failure(chain(&replaced("block_gas_limit", json("-9223372036854775808")))), bad);
    assert_eq!(failure(chain(&replaced("block_gas_limit", json("9223372036854775808")))), bad);
    assert_eq!(failure(chain(&replaced("block_gas_limit", json("1.5")))), bad);
    assert_eq!(failure(chain(&replaced("block_gas_limit", json(r#""1""#)))), bad);
}

#[test]
fn chain_missing_fields_are_named_in_order() {
    assert_eq!(failure(chain(&[])), DecodeError::MissingField(Field::ChainName));
    assert_eq!(
        failure(chain(&without("block_gas_limit"))),
        DecodeError::MissingField(Field::BlockGasLimit)
    );
    assert_eq!(
        failure(chain(&without("transaction_parameters"))),
        DecodeError::MissingField(Field::TransactionParameters)
    );
    assert_eq!(failure(chain(&without("gas_costs"))), DecodeError::MissingField(Field::GasCosts));
    let e = failure(chain(&without("consensus")));
    assert_eq!(e, DecodeError::MissingField(Field::Consensus));
    assert_eq!(e.message(), "missing field: consensus");
}

#[test]
fn chain_malformed_fields() {
    assert_eq!(
        failure(chain(&replaced("chain_name", json("1")))),
        DecodeError::MalformedField(Field::ChainName)
    );
    assert_eq!(
        failure(chain(&replaced("transaction_parameters", json("7")))),
        DecodeError::MalformedField(Field::TransactionParameters)
    );
    assert_eq!(
        failure(chain(&replaced("gas_costs", json(r#"{"add": "x"}"#)))),
        DecodeError::MalformedField(Field::GasCosts)
    );
    assert_eq!(
        failure(chain(&replaced("consensus", json(r#"{"PoA": 1}"#)))),
        DecodeError::MalformedField(Field::Consensus)
    );
}

#[test]
fn failure_inside_initial_state_ends_the_pass() {
    assert_eq!(
        failure(chain(&replaced("initial_state", json(r#"{"height": "x"}"#)))),
        DecodeError::MalformedField(Field::Height)
    );
    assert_eq!(
        failure(chain(&replaced("initial_state", json("3")))),
        DecodeError::ExpectedMap
    );
}
