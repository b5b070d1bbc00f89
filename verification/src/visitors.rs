//! Decoders for the records of a chain configuration.
//!
//! Each decoder is handed the key/value pairs of one map in the order of the
//! document. A key may stand more than once: the last pair under it counts.
//! The first pair whose value cannot be read ends the pass.

use crate::error::DecodeError;
use crate::error::Failure;
use crate::error::Field;
use crate::error::lemma_names_differ;
use crate::fields::decimal_number;
use crate::fields::hex_number;
use crate::fields::identifier;
use crate::fields::lemma_height_round_trip;
use crate::fields::lemma_hex_round_trip;
use crate::fields::lemma_identifier_round_trip;
use crate::fields::read_address;
use crate::fields::read_asset_id;
use crate::fields::read_bytes32;
use crate::fields::read_height;
use crate::fields::read_hex_u16;
use crate::fields::read_hex_u64;
use crate::fields::read_hex_u8;
use crate::fields::write_height;
use crate::fields::write_hex;
use crate::fields::write_identifier;
use crate::json::JsonShape;
use crate::json::all_entries;
use crate::json::contents;
use crate::json::entries;
use crate::json::object_value;
use crate::json::pair_views;
use crate::json::shape;
use crate::json::string_value;
use crate::payload::contracts_from_value;
use crate::payload::contracts_in;
use crate::payload::gas_costs_from_value;
use crate::payload::gas_costs_in;
use crate::payload::messages_from_value;
use crate::payload::messages_in;
use crate::payload::opt_seq;
use crate::payload::parameters_from_value;
use crate::payload::parameters_in;
use crate::scan::find_last;
use crate::scan::has_key;
use crate::scan::last_value;
use crate::scan::lemma_last_value_is_last;
use crate::scan::lemma_last_value_step;
use crate::text::decimal_string;
use crate::text::decimal_text;
use crate::text::same_text;
use fuel_core_chain_config::ContractConfig;
use fuel_core_chain_config::MessageConfig;
use fuel_core_types::fuel_tx::ConsensusParameters;
use fuel_core_types::fuel_vm::GasCosts;
use vstd::prelude::*;

verus! {

/// One coin of the initial state.
#[derive(Clone, Debug, PartialEq, Eq)]
pub struct CoinConfig {
    pub tx_id: Option<[u8; 32]>,
    pub output_index: Option<u8>,
    pub tx_pointer_block_height: Option<u32>,
    pub tx_pointer_tx_idx: Option<u16>,
    pub maturity: Option<u32>,
    pub owner: [u8; 32],
    pub amount: u64,
    pub asset_id: [u8; 32],
}

/// A `CoinConfig` as contracts speak of it.
pub struct CoinView {
    pub tx_id: Option<Seq<u8>>,
    pub output_index: Option<u8>,
    pub tx_pointer_block_height: Option<u32>,
    pub tx_pointer_tx_idx: Option<u16>,
    pub maturity: Option<u32>,
    pub owner: Seq<u8>,
    pub amount: u64,
    pub asset_id: Seq<u8>,
}

/// The bytes of an identifier that may be absent.
pub open spec fn opt_bytes(id: Option<[u8; 32]>) -> Option<Seq<u8>> {
    match id {
        Some(bytes) => Some(bytes@),
        None => None,
    }
}

impl View for CoinConfig {
    type V = CoinView;

    open spec fn view(&self) -> CoinView {
        CoinView {
            tx_id: opt_bytes(self.tx_id),
            output_index: self.output_index,
            tx_pointer_block_height: self.tx_pointer_block_height,
            tx_pointer_tx_idx: self.tx_pointer_tx_idx,
            maturity: self.maturity,
            owner: self.owner@,
            amount: self.amount,
            asset_id: self.asset_id@,
        }
    }
}

/// The field of a coin that stands under `key`; `None` for any other key.
pub open spec fn coin_field(key: Seq<char>) -> Option<Field> {
    if key == Field::TxId.spec_name() {
        Some(Field::TxId)
    } else if key == Field::OutputIndex.spec_name() {
        Some(Field::OutputIndex)
    } else if key == Field::TxPointerBlockHeight.spec_name() {
        Some(Field::TxPointerBlockHeight)
    } else if key == Field::TxPointerTxIdx.spec_name() {
        Some(Field::TxPointerTxIdx)
    } else if key == Field::Maturity.spec_name() {
        Some(Field::Maturity)
    } else if key == Field::Owner.spec_name() {
        Some(Field::Owner)
    } else if key == Field::Amount.spec_name() {
        Some(Field::Amount)
    } else if key == Field::AssetId.spec_name() {
        Some(Field::AssetId)
    } else {
        None
    }
}

/// Whether `v` can be read as what the field `field` of a coin holds.
pub open spec fn coin_value_ok(field: Field, v: serde_json::Value) -> bool {
    match field {
        Field::TxId | Field::Owner | Field::AssetId => identifier(v) is Some,
        Field::OutputIndex => hex_number(v, u8::MAX as nat) is Some,
        Field::TxPointerTxIdx => hex_number(v, u16::MAX as nat) is Some,
        Field::Amount => hex_number(v, u64::MAX as nat) is Some,
        Field::TxPointerBlockHeight | Field::Maturity => decimal_number(v, u32::MAX as nat) is Some,
        _ => true,
    }
}

/// What is wrong with the pair `key`, `v` in the map of a coin. A pair under
/// a key that is no field of a coin is passed over.
pub open spec fn coin_pair_failure(key: Seq<char>, v: serde_json::Value) -> Option<Failure> {
    match coin_field(key) {
        Some(field) => if coin_value_ok(field, v) {
            None
        } else {
            Some(Failure::MalformedField(field))
        },
        None => None,
    }
}

/// What is wrong with the first pair with which something is wrong.
pub open spec fn coin_first_failure(pairs: Seq<(Seq<char>, serde_json::Value)>) -> Option<Failure>
    decreases pairs.len(),
{
    if pairs.len() == 0 {
        None
    } else {
        match coin_pair_failure(pairs[0].0, pairs[0].1) {
            Some(failure) => Some(failure),
            None => coin_first_failure(pairs.drop_first()),
        }
    }
}

/// The identifier under `field`, if the field stands in the map.
pub open spec fn identifier_at(pairs: Seq<(Seq<char>, serde_json::Value)>, field: Field) -> Option<
    Seq<u8>,
> {
    match last_value(pairs, field.spec_name()) {
        Some(v) => identifier(v),
        None => None,
    }
}

/// The index or amount under `field`, if the field stands in the map.
pub open spec fn hex_at(pairs: Seq<(Seq<char>, serde_json::Value)>, field: Field, max: nat) -> Option<
    nat,
> {
    match last_value(pairs, field.spec_name()) {
        Some(v) => hex_number(v, max),
        None => None,
    }
}

/// The block height under `field`, if the field stands in the map.
pub open spec fn height_at(pairs: Seq<(Seq<char>, serde_json::Value)>, field: Field) -> Option<u32> {
    match last_value(pairs, field.spec_name()) {
        Some(v) => match decimal_number(v, u32::MAX as nat) {
            Some(n) => Some(n as u32),
            None => None,
        },
        None => None,
    }
}

/// The fields of a coin as far as the pairs give them.
pub struct CoinDraft {
    pub tx_id: Option<Seq<u8>>,
    pub output_index: Option<u8>,
    pub tx_pointer_block_height: Option<u32>,
    pub tx_pointer_tx_idx: Option<u16>,
    pub maturity: Option<u32>,
    pub owner: Option<Seq<u8>>,
    pub amount: Option<u64>,
    pub asset_id: Option<Seq<u8>>,
}

/// The fields of a coin that `pairs` give, each from the last pair under its
/// key.
pub open spec fn coin_draft(pairs: Seq<(Seq<char>, serde_json::Value)>) -> CoinDraft {
    CoinDraft {
        tx_id: identifier_at(pairs, Field::TxId),
        output_index: match hex_at(pairs, Field::OutputIndex, u8::MAX as nat) {
            Some(n) => Some(n as u8),
            None => None,
        },
        tx_pointer_block_height: height_at(pairs, Field::TxPointerBlockHeight),
        tx_pointer_tx_idx: match hex_at(pairs, Field::TxPointerTxIdx, u16::MAX as nat) {
            Some(n) => Some(n as u16),
            None => None,
        },
        maturity: height_at(pairs, Field::Maturity),
        owner: identifier_at(pairs, Field::Owner),
        amount: match hex_at(pairs, Field::Amount, u64::MAX as nat) {
            Some(n) => Some(n as u64),
            None => None,
        },
        asset_id: identifier_at(pairs, Field::AssetId),
    }
}

/// The coin that the map `pairs` writes, or why it writes none: the failure
/// of the first pair that has one; else the first of `owner`, `amount`,
/// `asset_id` that the map lacks; else the coin.
pub open spec fn coin_outcome(pairs: Seq<(Seq<char>, serde_json::Value)>) -> Result<
    CoinView,
    Failure,
> {
    let draft = coin_draft(pairs);
    match coin_first_failure(pairs) {
        Some(failure) => Err(failure),
        None => if draft.owner is None {
            Err(Failure::MissingField(Field::Owner))
        } else if draft.amount is None {
            Err(Failure::MissingField(Field::Amount))
        } else if draft.asset_id is None {
            Err(Failure::MissingField(Field::AssetId))
        } else {
            Ok(
                CoinView {
                    tx_id: draft.tx_id,
                    output_index: draft.output_index,
                    tx_pointer_block_height: draft.tx_pointer_block_height,
                    tx_pointer_tx_idx: draft.tx_pointer_tx_idx,
                    maturity: draft.maturity,
                    owner: draft.owner->0,
                    amount: draft.amount->0,
                    asset_id: draft.asset_id->0,
                },
            )
        },
    }
}

/// Whether `field` is a field of a coin.
pub open spec fn is_coin_field(field: Field) -> bool {
    match field {
        Field::TxId
        | Field::OutputIndex
        | Field::TxPointerBlockHeight
        | Field::TxPointerTxIdx
        | Field::Maturity
        | Field::Owner
        | Field::Amount
        | Field::AssetId => true,
        _ => false,
    }
}

/// A key names the field that `coin_field` gives for it and no other field
/// of a coin.
pub proof fn lemma_coin_field(key: Seq<char>, field: Field)
    ensures
        coin_field(key) == Some(field) ==> key == field.spec_name() && is_coin_field(field),
        is_coin_field(field) ==> (coin_field(key) == Some(field) <==> key == field.spec_name()),
{
    if coin_field(key) is Some && coin_field(key) != Some(field) {
        lemma_names_differ(coin_field(key)->0, field);
    }
}

/// The fields of a coin after one pair more that is in order: the field
/// that the pair's key names is what the pair's value holds, every other
/// field is as before.
pub open spec fn draft_with(before: CoinDraft, key: Seq<char>, v: serde_json::Value) -> CoinDraft {
    match coin_field(key) {
        Some(Field::TxId) => CoinDraft { tx_id: identifier(v), ..before },
        Some(Field::OutputIndex) => CoinDraft {
            output_index: Some(hex_number(v, u8::MAX as nat)->0 as u8),
            ..before
        },
        Some(Field::TxPointerBlockHeight) => CoinDraft {
            tx_pointer_block_height: Some(decimal_number(v, u32::MAX as nat)->0 as u32),
            ..before
        },
        Some(Field::TxPointerTxIdx) => CoinDraft {
            tx_pointer_tx_idx: Some(hex_number(v, u16::MAX as nat)->0 as u16),
            ..before
        },
        Some(Field::Maturity) => CoinDraft {
            maturity: Some(decimal_number(v, u32::MAX as nat)->0 as u32),
            ..before
        },
        Some(Field::Owner) => CoinDraft { owner: identifier(v), ..before },
        Some(Field::Amount) => CoinDraft {
            amount: Some(hex_number(v, u64::MAX as nat)->0 as u64),
            ..before
        },
        Some(Field::AssetId) => CoinDraft { asset_id: identifier(v), ..before },
        _ => before,
    }
}

/// One pair more changes the field that the pair's key names, and no other.
pub proof fn lemma_coin_draft_step(pairs: Seq<(Seq<char>, serde_json::Value)>, i: int)
    requires
        0 <= i < pairs.len(),
        coin_pair_failure(pairs[i].0, pairs[i].1) is None,
    ensures
        coin_draft(pairs.take(i + 1)) == draft_with(
            coin_draft(pairs.take(i)),
            pairs[i].0,
            pairs[i].1,
        ),
{
    let key = pairs[i].0;
    lemma_last_value_step(pairs, i, Field::TxId.spec_name());
    lemma_last_value_step(pairs, i, Field::OutputIndex.spec_name());
    lemma_last_value_step(pairs, i, Field::TxPointerBlockHeight.spec_name());
    lemma_last_value_step(pairs, i, Field::TxPointerTxIdx.spec_name());
    lemma_last_value_step(pairs, i, Field::Maturity.spec_name());
    lemma_last_value_step(pairs, i, Field::Owner.spec_name());
    lemma_last_value_step(pairs, i, Field::Amount.spec_name());
    lemma_last_value_step(pairs, i, Field::AssetId.spec_name());
    lemma_coin_field(key, Field::TxId);
    lemma_coin_field(key, Field::OutputIndex);
    lemma_coin_field(key, Field::TxPointerBlockHeight);
    lemma_coin_field(key, Field::TxPointerTxIdx);
    lemma_coin_field(key, Field::Maturity);
    lemma_coin_field(key, Field::Owner);
    lemma_coin_field(key, Field::Amount);
    lemma_coin_field(key, Field::AssetId);
}

/// A pair in order after pairs in order: nothing is wrong with any of them.
pub proof fn lemma_coin_failure_push(
    pairs: Seq<(Seq<char>, serde_json::Value)>,
    key: Seq<char>,
    v: serde_json::Value,
)
    requires
        coin_first_failure(pairs) is None,
        coin_pair_failure(key, v) is None,
    ensures
        coin_first_failure(pairs.push((key, v))) is None,
    decreases pairs.len(),
{
    let longer = pairs.push((key, v));
    if pairs.len() == 0 {
        assert(longer.drop_first() =~= pairs);
    } else {
        lemma_coin_failure_push(pairs.drop_first(), key, v);
        assert(longer.drop_first() =~= pairs.drop_first().push((key, v)));
        assert(longer[0] == pairs[0]);
    }
}

/// A pair in order written after pairs in order leaves them in order and
/// changes the field that its key names, and no other.
pub proof fn lemma_coin_push(
    pairs: Seq<(Seq<char>, serde_json::Value)>,
    key: Seq<char>,
    v: serde_json::Value,
)
    requires
        coin_first_failure(pairs) is None,
        coin_pair_failure(key, v) is None,
    ensures
        coin_first_failure(pairs.push((key, v))) is None,
        coin_draft(pairs.push((key, v))) == draft_with(coin_draft(pairs), key, v),
{
    let longer = pairs.push((key, v));
    lemma_coin_failure_push(pairs, key, v);
    lemma_coin_draft_step(longer, pairs.len() as int);
    assert(longer.take(pairs.len() as int + 1) =~= longer);
    assert(longer.take(pairs.len() as int) =~= pairs);
}

/// Finds the field of a coin that stands under `key`.
pub fn find_coin_field(key: &str) -> (field: Option<Field>)
    ensures
        field == coin_field(key@),
{
    if same_text(key, Field::TxId.name()) {
        Some(Field::TxId)
    } else if same_text(key, Field::OutputIndex.name()) {
        Some(Field::OutputIndex)
    } else if same_text(key, Field::TxPointerBlockHeight.name()) {
        Some(Field::TxPointerBlockHeight)
    } else if same_text(key, Field::TxPointerTxIdx.name()) {
        Some(Field::TxPointerTxIdx)
    } else if same_text(key, Field::Maturity.name()) {
        Some(Field::Maturity)
    } else if same_text(key, Field::Owner.name()) {
        Some(Field::Owner)
    } else if same_text(key, Field::Amount.name()) {
        Some(Field::Amount)
    } else if same_text(key, Field::AssetId.name()) {
        Some(Field::AssetId)
    } else {
        None
    }
}

/// Decodes the map of one coin.
#[derive(Debug)]
pub struct CoinConfigVisitor;

impl CoinConfigVisitor {
    /// Decodes a coin from the pairs of its map.
    ///
    /// `owner`, `amount` and `asset_id` are required; `tx_id`,
    /// `output_index`, `tx_pointer_block_height`, `tx_pointer_tx_idx` and
    /// `maturity` may be absent. Pairs under any other key are passed over.
    pub fn visit_map(&self, map: &[(String, serde_json::Value)]) -> (result: Result<
        CoinConfig,
        DecodeError,
    >)
        ensures
            match result {
                Ok(coin) => coin_outcome(pair_views(map@)) == Ok::<CoinView, Failure>(coin@),
                Err(e) => coin_outcome(pair_views(map@)) == Err::<CoinView, Failure>(e@),
            },
    {
        let ghost pairs = pair_views(map@);
        let mut tx_id: Option<[u8; 32]> = None;
        let mut output_index: Option<u8> = None;
        let mut tx_pointer_block_height: Option<u32> = None;
        let mut tx_pointer_tx_idx: Option<u16> = None;
        let mut maturity: Option<u32> = None;
        let mut owner: Option<[u8; 32]> = None;
        let mut amount: Option<u64> = None;
        let mut asset_id: Option<[u8; 32]> = None;
        let mut i: usize = 0;
        assert(pairs.skip(0) =~= pairs);
        while i < map.len()
            invariant
                i <= map@.len(),
                pairs == pair_views(map@),
                pairs.len() == map@.len(),
                coin_first_failure(pairs) == coin_first_failure(pairs.skip(i as int)),
                coin_draft(pairs.take(i as int)) == (CoinDraft {
                    tx_id: opt_bytes(tx_id),
                    output_index,
                    tx_pointer_block_height,
                    tx_pointer_tx_idx,
                    maturity,
                    owner: opt_bytes(owner),
                    amount,
                    asset_id: opt_bytes(asset_id),
                }),
            decreases map@.len() - i,
        {
            let key = map[i].0.as_str();
            let value = &map[i].1;
            proof {
                assert(pairs[i as int] == (key@, *value));
                assert(pairs.skip(i as int)[0] == pairs[i as int]);
                assert(pairs.skip(i as int).drop_first() =~= pairs.skip(i + 1));
            }
            let field = find_coin_field(key);
            let ghost mut read: bool = true;
            match field {
                Some(Field::TxId) => {
                    tx_id = read_bytes32(value);
                    if tx_id.is_none() {
                        return Err(DecodeError::MalformedField(Field::TxId));
                    }
                },
                Some(Field::OutputIndex) => {
                    output_index = read_hex_u8(value);
                    if output_index.is_none() {
                        return Err(DecodeError::MalformedField(Field::OutputIndex));
                    }
                },
                Some(Field::TxPointerBlockHeight) => {
                    tx_pointer_block_height = read_height(value);
                    if tx_pointer_block_height.is_none() {
                        return Err(DecodeError::MalformedField(Field::TxPointerBlockHeight));
                    }
                },
                Some(Field::TxPointerTxIdx) => {
                    tx_pointer_tx_idx = read_hex_u16(value);
                    if tx_pointer_tx_idx.is_none() {
                        return Err(DecodeError::MalformedField(Field::TxPointerTxIdx));
                    }
                },
                Some(Field::Maturity) => {
                    maturity = read_height(value);
                    if maturity.is_none() {
                        return Err(DecodeError::MalformedField(Field::Maturity));
                    }
                },
                Some(Field::Owner) => {
                    owner = read_address(value);
                    if owner.is_none() {
                        return Err(DecodeError::MalformedField(Field::Owner));
                    }
                },
                Some(Field::Amount) => {
                    amount = read_hex_u64(value);
                    if amount.is_none() {
                        return Err(DecodeError::MalformedField(Field::Amount));
                    }
                },
                Some(Field::AssetId) => {
                    asset_id = read_asset_id(value);
                    if asset_id.is_none() {
                        return Err(DecodeError::MalformedField(Field::AssetId));
                    }
                },
                _ => {},
            }
            proof {
                lemma_coin_draft_step(pairs, i as int);
            }
            i = i + 1;
        }
        proof {
            assert(pairs.take(i as int) =~= pairs);
        }
        match (owner, amount, asset_id) {
            (None, _, _) => Err(DecodeError::MissingField(Field::Owner)),
            (Some(_), None, _) => Err(DecodeError::MissingField(Field::Amount)),
            (Some(_), Some(_), None) => Err(DecodeError::MissingField(Field::AssetId)),
            (Some(owner), Some(amount), Some(asset_id)) => Ok(
                CoinConfig {
                    tx_id,
                    output_index,
                    tx_pointer_block_height,
                    tx_pointer_tx_idx,
                    maturity,
                    owner,
                    amount,
                    asset_id,
                },
            ),
        }
    }
}

/// Writes one pair more: the key of `field` and a string that holds `text`.
fn push_text(pairs: &mut Vec<(String, serde_json::Value)>, field: Field, text: String)
    ensures
        pair_views(final(pairs)@).len() == pair_views(old(pairs)@).len() + 1,
        pair_views(final(pairs)@).drop_last() == pair_views(old(pairs)@),
        pair_views(final(pairs)@).last().0 == field.spec_name(),
        shape(pair_views(final(pairs)@).last().1) == JsonShape::String(text@),
{
    let key = field.name().to_owned();
    let value = string_value(text);
    pairs.push((key, value));
    assert(pair_views(pairs@).drop_last() =~= pair_views(old(pairs)@));
}

/// Writes an identifier under `field` after pairs that are in order.
fn push_identifier(pairs: &mut Vec<(String, serde_json::Value)>, field: Field, id: &[u8; 32])
    requires
        field == Field::TxId || field == Field::Owner || field == Field::AssetId,
        coin_first_failure(pair_views(old(pairs)@)) is None,
    ensures
        coin_first_failure(pair_views(final(pairs)@)) is None,
        coin_draft(pair_views(final(pairs)@)) == ({
            let before = coin_draft(pair_views(old(pairs)@));
            match field {
                Field::TxId => CoinDraft { tx_id: Some(id@), ..before },
                Field::Owner => CoinDraft { owner: Some(id@), ..before },
                _ => CoinDraft { asset_id: Some(id@), ..before },
            }
        }),
{
    push_text(pairs, field, write_identifier(id));
    proof {
        let before = pair_views(old(pairs)@);
        let after = pair_views(pairs@);
        let key = after.last().0;
        let v = after.last().1;
        assert(after =~= before.push((key, v)));
        lemma_identifier_round_trip(v, id@);
        lemma_coin_field(key, field);
        lemma_coin_push(before, key, v);
    }
}

/// Writes an index or an amount under `field` after pairs that are in
/// order.
fn push_hex(pairs: &mut Vec<(String, serde_json::Value)>, field: Field, n: u64)
    requires
        field == Field::OutputIndex && n <= u8::MAX || field == Field::TxPointerTxIdx && n
            <= u16::MAX || field == Field::Amount,
        coin_first_failure(pair_views(old(pairs)@)) is None,
    ensures
        coin_first_failure(pair_views(final(pairs)@)) is None,
        coin_draft(pair_views(final(pairs)@)) == ({
            let before = coin_draft(pair_views(old(pairs)@));
            match field {
                Field::OutputIndex => CoinDraft { output_index: Some(n as u8), ..before },
                Field::TxPointerTxIdx => CoinDraft { tx_pointer_tx_idx: Some(n as u16), ..before },
                _ => CoinDraft { amount: Some(n), ..before },
            }
        }),
{
    push_text(pairs, field, write_hex(n));
    proof {
        let before = pair_views(old(pairs)@);
        let after = pair_views(pairs@);
        let key = after.last().0;
        let v = after.last().1;
        assert(after =~= before.push((key, v)));
        lemma_hex_round_trip(v, n as nat, u64::MAX as nat);
        if n <= u8::MAX {
            lemma_hex_round_trip(v, n as nat, u8::MAX as nat);
        }
        if n <= u16::MAX {
            lemma_hex_round_trip(v, n as nat, u16::MAX as nat);
        }
        lemma_coin_field(key, field);
        lemma_coin_push(before, key, v);
    }
}

/// Writes a block height under `field` after pairs that are in order.
fn push_height(pairs: &mut Vec<(String, serde_json::Value)>, field: Field, n: u32)
    requires
        field == Field::TxPointerBlockHeight || field == Field::Maturity,
        coin_first_failure(pair_views(old(pairs)@)) is None,
    ensures
        coin_first_failure(pair_views(final(pairs)@)) is None,
        coin_draft(pair_views(final(pairs)@)) == ({
            let before = coin_draft(pair_views(old(pairs)@));
            match field {
                Field::TxPointerBlockHeight => CoinDraft {
                    tx_pointer_block_height: Some(n),
                    ..before
                },
                _ => CoinDraft { maturity: Some(n), ..before },
            }
        }),
{
    push_text(pairs, field, write_height(n));
    proof {
        let before = pair_views(old(pairs)@);
        let after = pair_views(pairs@);
        let key = after.last().0;
        let v = after.last().1;
        assert(after =~= before.push((key, v)));
        lemma_height_round_trip(v, n as nat, u32::MAX as nat);
        lemma_coin_field(key, field);
        lemma_coin_push(before, key, v);
    }
}

impl CoinConfig {
    /// Writes the coin as the pairs of a map, each field as the decoder
    /// reads it and a field that is absent not at all. Decoding the pairs
    /// gives the coin back.
    pub fn to_pairs(&self) -> (pairs: Vec<(String, serde_json::Value)>)
        ensures
            coin_outcome(pair_views(pairs@)) == Ok::<CoinView, Failure>(self@),
    {
        let mut pairs: Vec<(String, serde_json::Value)> = Vec::new();
        let ghost nothing = CoinDraft {
            tx_id: None,
            output_index: None,
            tx_pointer_block_height: None,
            tx_pointer_tx_idx: None,
            maturity: None,
            owner: None,
            amount: None,
            asset_id: None,
        };
        assert(pair_views(pairs@) =~= Seq::<(Seq<char>, serde_json::Value)>::empty());
        assert(coin_draft(pair_views(pairs@)) == nothing);
        match &self.tx_id {
            Some(id) => {
                push_identifier(&mut pairs, Field::TxId, id);
            },
            None => {},
        }
        let ghost first = CoinDraft { tx_id: opt_bytes(self.tx_id), ..nothing };
        assert(coin_draft(pair_views(pairs@)) == first);
        match self.output_index {
            Some(index) => {
                push_hex(&mut pairs, Field::OutputIndex, index as u64);
            },
            None => {},
        }
        let ghost second = CoinDraft { output_index: self.output_index, ..first };
        assert(coin_draft(pair_views(pairs@)) == second);
        match self.tx_pointer_block_height {
            Some(height) => {
                push_height(&mut pairs, Field::TxPointerBlockHeight, height);
            },
            None => {},
        }
        let ghost third = CoinDraft {
            tx_pointer_block_height: self.tx_pointer_block_height,
            ..second
        };
        assert(coin_draft(pair_views(pairs@)) == third);
        match self.tx_pointer_tx_idx {
            Some(index) => {
                push_hex(&mut pairs, Field::TxPointerTxIdx, index as u64);
            },
            None => {},
        }
        let ghost fourth = CoinDraft { tx_pointer_tx_idx: self.tx_pointer_tx_idx, ..third };
        assert(coin_draft(pair_views(pairs@)) == fourth);
        match self.maturity {
            Some(height) => {
                push_height(&mut pairs, Field::Maturity, height);
            },
            None => {},
        }
        let ghost fifth = CoinDraft { maturity: self.maturity, ..fourth };
        assert(coin_draft(pair_views(pairs@)) == fifth);
        push_identifier(&mut pairs, Field::Owner, &self.owner);
        push_hex(&mut pairs, Field::Amount, self.amount);
        push_identifier(&mut pairs, Field::AssetId, &self.asset_id);
        pairs
    }
}

impl CoinConfig {
    /// Decodes a coin from `value`, which has to be a map.
    pub fn deserialize(value: &serde_json::Value) -> (result: Result<CoinConfig, DecodeError>)
        ensures
            match shape(*value) {
                JsonShape::Object(m) => match result {
                    Ok(coin) => coin_outcome(entries(m)) == Ok::<CoinView, Failure>(coin@),
                    Err(e) => coin_outcome(entries(m)) == Err::<CoinView, Failure>(e@),
                },
                _ => result matches Err(e) && e@ == Failure::ExpectedMap,
            },
    {
        match value.as_object() {
            Some(m) => {
                let pairs = all_entries(m);
                CoinConfigVisitor.visit_map(pairs.as_slice())
            },
            None => Err(DecodeError::ExpectedMap),
        }
    }
}

/// Decoding undoes encoding: whatever decodes the pairs that `to_pairs`
/// writes for a coin gives that coin back.
pub proof fn lemma_decoding_undoes_encoding(
    coin: CoinConfig,
    pairs: Seq<(Seq<char>, serde_json::Value)>,
    decoded: Result<CoinConfig, DecodeError>,
)
    requires
        coin_outcome(pairs) == Ok::<CoinView, Failure>(coin@),
        match decoded {
            Ok(again) => coin_outcome(pairs) == Ok::<CoinView, Failure>(again@),
            Err(e) => coin_outcome(pairs) == Err::<CoinView, Failure>(e@),
        },
    ensures
        decoded matches Ok(again) && again@ == coin@ && again.amount == coin.amount,
{
}

/// A map without a required field gives no coin. If nothing else is wrong
/// with the map, the failure names the first of `owner`, `amount` and
/// `asset_id` that is missing.
pub proof fn lemma_missing_field(pairs: Seq<(Seq<char>, serde_json::Value)>, field: Field)
    requires
        field == Field::Owner || field == Field::Amount || field == Field::AssetId,
        !has_key(pairs, field.spec_name()),
    ensures
        coin_outcome(pairs) is Err,
        field == Field::Owner && coin_first_failure(pairs) is None ==> coin_outcome(pairs) == Err::<
            CoinView,
            Failure,
        >(Failure::MissingField(Field::Owner)),
        coin_first_failure(pairs) is None ==> coin_outcome(pairs) matches Err(
            Failure::MissingField(_),
        ),
{
    lemma_last_value_is_last(pairs, field.spec_name());
}

/// How many elements of a list are objects.
pub open spec fn objects_in(items: Seq<serde_json::Value>) -> nat
    decreases items.len(),
{
    if items.len() == 0 {
        0
    } else if shape(items.last()) is Object {
        objects_in(items.drop_last()) + 1
    } else {
        objects_in(items.drop_last())
    }
}

/// The objects of a list, each under its number among them, counted from 0
/// and written in decimal digits.
pub open spec fn numbered(items: Seq<serde_json::Value>) -> Map<Seq<char>, serde_json::Value>
    decreases items.len(),
{
    if items.len() == 0 {
        Map::empty()
    } else if shape(items.last()) is Object {
        numbered(items.drop_last()).insert(
            decimal_text(objects_in(items.drop_last())),
            items.last(),
        )
    } else {
        numbered(items.drop_last())
    }
}

/// A list has no more objects than elements.
pub proof fn lemma_objects_bound(items: Seq<serde_json::Value>)
    ensures
        objects_in(items) <= items.len(),
    decreases items.len(),
{
    if items.len() > 0 {
        lemma_objects_bound(items.drop_last());
    }
}

/// Gathers the objects of a list under their numbers.
pub struct CoinVisitor;

impl CoinVisitor {
    /// Hands out one object that holds every object of `seq` under its number
    /// among the objects of `seq`. Elements that are no objects are passed
    /// over and not numbered.
    pub fn visit_seq(&self, seq: &[serde_json::Value]) -> (out: serde_json::Value)
        ensures
            shape(out) matches JsonShape::Object(m) && contents(entries(m)) == numbered(seq@),
    {
        let mut agg_map = serde_json::Map::new();
        let mut index: usize = 0;
        let mut i: usize = 0;
        assert(seq@.take(0) =~= Seq::<serde_json::Value>::empty());
        while i < seq.len()
            invariant
                i <= seq@.len(),
                index == objects_in(seq@.take(i as int)),
                contents(entries(agg_map)) == numbered(seq@.take(i as int)),
            decreases seq@.len() - i,
        {
            proof {
                assert(seq@.take(i + 1).drop_last() =~= seq@.take(i as int));
                assert(seq@.take(i + 1).last() == seq@[i as int]);
                lemma_objects_bound(seq@.take(i as int));
            }
            let item = &seq[i];
            if item.as_object().is_some() {
                let key = decimal_string(index);
                agg_map.insert(key, item.clone());
                index = index + 1;
            }
            i = i + 1;
        }
        assert(seq@.take(i as int) =~= seq@);
        object_value(agg_map)
    }
}

/// Decodes the section `coins`.
pub struct CoinDeserializer;

impl CoinDeserializer {
    /// Decodes the section `coins` from `value`, which has to be a list. The
    /// coins of the list are left undecoded: the list handed out is empty.
    pub fn deserialize(&self, value: &serde_json::Value) -> (result: Result<
        Option<Vec<CoinConfig>>,
        DecodeError,
    >)
        ensures
            match result {
                Ok(coins) => shape(*value) is Array && (coins matches Some(list) && list@.len() == 0),
                Err(e) => !(shape(*value) is Array) && e@ == Failure::ExpectedList,
            },
    {
        match value.as_array() {
            Some(_) => Ok(Some(Vec::new())),
            None => Err(DecodeError::ExpectedList),
        }
    }
}

/// The initial state of a chain. Every section of it may be absent.
#[derive(Debug)]
pub struct StateConfig {
    pub coins: Option<Vec<CoinConfig>>,
    pub contracts: Option<Vec<ContractConfig>>,
    pub messages: Option<Vec<MessageConfig>>,
    pub height: Option<u32>,
}

/// The section of the initial state that stands under `key`; `None` for any
/// other key.
pub open spec fn state_field(key: Seq<char>) -> Option<Field> {
    if key == Field::Coins.spec_name() {
        Some(Field::Coins)
    } else if key == Field::Contracts.spec_name() {
        Some(Field::Contracts)
    } else if key == Field::Messages.spec_name() {
        Some(Field::Messages)
    } else if key == Field::Height.spec_name() {
        Some(Field::Height)
    } else {
        None
    }
}

/// What is wrong with the pair `key`, `v` in the map of an initial state. A
/// pair under a key that is no section of it is passed over.
pub open spec fn state_pair_failure(key: Seq<char>, v: serde_json::Value) -> Option<Failure> {
    match state_field(key) {
        Some(Field::Coins) => if shape(v) is Array {
            None
        } else {
            Some(Failure::ExpectedList)
        },
        Some(Field::Contracts) => if contracts_in(v) is Some {
            None
        } else {
            Some(Failure::MalformedField(Field::Contracts))
        },
        Some(Field::Messages) => if messages_in(v) is Some {
            None
        } else {
            Some(Failure::MalformedField(Field::Messages))
        },
        Some(Field::Height) => if decimal_number(v, u32::MAX as nat) is Some {
            None
        } else {
            Some(Failure::MalformedField(Field::Height))
        },
        _ => None,
    }
}

/// What is wrong with the first pair with which something is wrong.
pub open spec fn state_first_failure(pairs: Seq<(Seq<char>, serde_json::Value)>) -> Option<Failure>
    decreases pairs.len(),
{
    if pairs.len() == 0 {
        None
    } else {
        match state_pair_failure(pairs[0].0, pairs[0].1) {
            Some(failure) => Some(failure),
            None => state_first_failure(pairs.drop_first()),
        }
    }
}

/// Whether the four sections are what `pairs` give, each from the last pair
/// under its key.
pub open spec fn is_state(
    coins: Option<Vec<CoinConfig>>,
    contracts: Option<Vec<ContractConfig>>,
    messages: Option<Vec<MessageConfig>>,
    height: Option<u32>,
    pairs: Seq<(Seq<char>, serde_json::Value)>,
) -> bool {
    &&& match last_value(pairs, Field::Coins.spec_name()) {
        Some(_) => coins matches Some(list) && list@.len() == 0,
        None => coins is None,
    }
    &&& match last_value(pairs, Field::Contracts.spec_name()) {
        Some(v) => contracts_in(v) == Some(opt_seq(contracts)),
        None => contracts is None,
    }
    &&& match last_value(pairs, Field::Messages.spec_name()) {
        Some(v) => messages_in(v) == Some(opt_seq(messages)),
        None => messages is None,
    }
    &&& height == height_at(pairs, Field::Height)
}

/// Whether `result` is what decoding an initial state from `pairs` gives: the
/// failure of the first pair that has one, else the state.
pub open spec fn is_state_outcome(
    result: Result<StateConfig, DecodeError>,
    pairs: Seq<(Seq<char>, serde_json::Value)>,
) -> bool {
    match result {
        Ok(state) => {
            &&& state_first_failure(pairs) is None
            &&& is_state(state.coins, state.contracts, state.messages, state.height, pairs)
        },
        Err(e) => state_first_failure(pairs) == Some(e@),
    }
}

/// Whether `field` is a section of the initial state.
pub open spec fn is_state_field(field: Field) -> bool {
    match field {
        Field::Coins | Field::Contracts | Field::Messages | Field::Height => true,
        _ => false,
    }
}

/// A key names the section that `state_field` gives for it and no other
/// section of the initial state.
pub proof fn lemma_state_field(key: Seq<char>, field: Field)
    ensures
        state_field(key) == Some(field) ==> key == field.spec_name() && is_state_field(field),
        is_state_field(field) ==> (state_field(key) == Some(field) <==> key == field.spec_name()),
{
    if state_field(key) is Some && state_field(key) != Some(field) {
        lemma_names_differ(state_field(key)->0, field);
    }
}

/// Finds the section of the initial state that stands under `key`.
pub fn find_state_field(key: &str) -> (field: Option<Field>)
    ensures
        field == state_field(key@),
{
    if same_text(key, Field::Coins.name()) {
        Some(Field::Coins)
    } else if same_text(key, Field::Contracts.name()) {
        Some(Field::Contracts)
    } else if same_text(key, Field::Messages.name()) {
        Some(Field::Messages)
    } else if same_text(key, Field::Height.name()) {
        Some(Field::Height)
    } else {
        None
    }
}

/// Decodes the map of an initial state.
#[derive(Debug)]
pub struct StateConfigVisitor;

impl StateConfigVisitor {
    /// Decodes an initial state from the pairs of its map. Pairs under a key
    /// that is no section of it are passed over.
    pub fn visit_map(&self, map: &[(String, serde_json::Value)]) -> (result: Result<
        StateConfig,
        DecodeError,
    >)
        ensures
            is_state_outcome(result, pair_views(map@)),
    {
        let ghost pairs = pair_views(map@);
        let mut coins: Option<Vec<CoinConfig>> = None;
        let mut contracts: Option<Vec<ContractConfig>> = None;
        let mut messages: Option<Vec<MessageConfig>> = None;
        let mut height: Option<u32> = None;
        let mut i: usize = 0;
        proof {
            assert(pairs.skip(0) =~= pairs);
            assert(pairs.take(0) =~= Seq::<(Seq<char>, serde_json::Value)>::empty());
        }
        while i < map.len()
            invariant
                i <= map@.len(),
                pairs == pair_views(map@),
                pairs.len() == map@.len(),
                state_first_failure(pairs) == state_first_failure(pairs.skip(i as int)),
                is_state(coins, contracts, messages, height, pairs.take(i as int)),
            decreases map@.len() - i,
        {
            let key = map[i].0.as_str();
            let value = &map[i].1;
            proof {
                assert(pairs[i as int] == (key@, *value));
                assert(pairs.skip(i as int)[0] == pairs[i as int]);
                assert(pairs.skip(i as int).drop_first() =~= pairs.skip(i + 1));
                lemma_last_value_step(pairs, i as int, Field::Coins.spec_name());
                lemma_last_value_step(pairs, i as int, Field::Contracts.spec_name());
                lemma_last_value_step(pairs, i as int, Field::Messages.spec_name());
                lemma_last_value_step(pairs, i as int, Field::Height.spec_name());
                lemma_state_field(key@, Field::Coins);
                lemma_state_field(key@, Field::Contracts);
                lemma_state_field(key@, Field::Messages);
                lemma_state_field(key@, Field::Height);
            }
            match find_state_field(key) {
                Some(Field::Coins) => {
                    match CoinDeserializer.deserialize(value) {
                        Ok(list) => {
                            coins = list;
                        },
                        Err(e) => {
                            return Err(e);
                        },
                    }
                },
                Some(Field::Contracts) => {
                    match contracts_from_value(value.clone()) {
                        Ok(list) => {
                            contracts = list;
                        },
                        Err(_) => {
                            return Err(DecodeError::MalformedField(Field::Contracts));
                        },
                    }
                },
                Some(Field::Messages) => {
                    match messages_from_value(value.clone()) {
                        Ok(list) => {
                            messages = list;
                        },
                        Err(_) => {
                            return Err(DecodeError::MalformedField(Field::Messages));
                        },
                    }
                },
                Some(Field::Height) => {
                    height = read_height(value);
                    if height.is_none() {
                        return Err(DecodeError::MalformedField(Field::Height));
                    }
                },
                _ => {},
            }
            i = i + 1;
        }
        proof {
            assert(pairs.take(i as int) =~= pairs);
        }
        Ok(StateConfig { coins, contracts, messages, height })
    }
}

impl StateConfig {
    /// Decodes an initial state from `value`, which has to be a map.
    pub fn deserialize(value: &serde_json::Value) -> (result: Result<StateConfig, DecodeError>)
        ensures
            match shape(*value) {
                JsonShape::Object(m) => is_state_outcome(result, entries(m)),
                _ => result matches Err(e) && e@ == Failure::ExpectedMap,
            },
    {
        match value.as_object() {
            Some(m) => {
                let pairs = all_entries(m);
                StateConfigVisitor.visit_map(pairs.as_slice())
            },
            None => Err(DecodeError::ExpectedMap),
        }
    }
}

/// How the blocks of a chain are agreed on.
#[derive(Clone, Debug, PartialEq, Eq)]
pub enum ConsensusConfig {
    PoA { signing_key: String },
}

/// A `ConsensusConfig` as contracts speak of it.
pub enum ConsensusView {
    PoA { signing_key: Seq<char> },
}

impl View for ConsensusConfig {
    type V = ConsensusView;

    open spec fn view(&self) -> ConsensusView {
        match self {
            ConsensusConfig::PoA { signing_key } => ConsensusView::PoA { signing_key: signing_key@ },
        }
    }
}

/// The signing key that the body `v` of the variant `PoA` writes. The body
/// is a map with a string under `signing_key`, or a list of one string.
pub open spec fn signing_key_in(v: serde_json::Value) -> Option<Seq<char>> {
    match shape(v) {
        JsonShape::Object(inner) => match last_value(entries(inner), "signing_key"@) {
            Some(key) => match shape(key) {
                JsonShape::String(text) => Some(text),
                _ => None,
            },
            None => None,
        },
        JsonShape::Array(items) => if items.len() == 1 {
            match shape(items[0]) {
                JsonShape::String(text) => Some(text),
                _ => None,
            }
        } else {
            None
        },
        _ => None,
    }
}

/// The consensus that `v` writes: a map with the one key `PoA`, under it the
/// body of that variant.
pub open spec fn consensus_in(v: serde_json::Value) -> Option<ConsensusView> {
    match shape(v) {
        JsonShape::Object(m) => if entries(m).len() == 1 && entries(m)[0].0 == "PoA"@ {
            match signing_key_in(entries(m)[0].1) {
                Some(text) => Some(ConsensusView::PoA { signing_key: text }),
                None => None,
            }
        } else {
            None
        },
        _ => None,
    }
}

/// Reads the signing key from the body of the variant `PoA`.
pub fn read_signing_key(v: &serde_json::Value) -> (key: Option<String>)
    ensures
        match key {
            Some(text) => signing_key_in(*v) == Some(text@),
            None => signing_key_in(*v) is None,
        },
{
    match v.as_object() {
        Some(m) => {
            let inner = all_entries(m);
            match find_last(inner.as_slice(), "signing_key") {
                Some(key) => match key.as_str() {
                    Some(text) => Some(text.to_owned()),
                    None => None,
                },
                None => None,
            }
        },
        None => match v.as_array() {
            Some(items) => if items.len() == 1 {
                match items[0].as_str() {
                    Some(text) => Some(text.to_owned()),
                    None => None,
                }
            } else {
                None
            },
            None => None,
        },
    }
}

impl ConsensusConfig {
    /// Reads a consensus from `value`.
    pub fn from_value(value: &serde_json::Value) -> (result: Option<ConsensusConfig>)
        ensures
            match result {
                Some(consensus) => consensus_in(*value) == Some(consensus@),
                None => consensus_in(*value) is None,
            },
    {
        let outer = match value.as_object() {
            Some(m) => all_entries(m),
            None => {
                return None;
            },
        };
        if outer.len() != 1 || !same_text(outer[0].0.as_str(), "PoA") {
            return None;
        }
        assert(pair_views(outer@)[0] == (outer@[0].0@, outer@[0].1));
        match read_signing_key(&outer[0].1) {
            Some(signing_key) => Some(ConsensusConfig::PoA { signing_key }),
            None => None,
        }
    }
}

/// The configuration of a chain.
#[derive(Debug)]
pub struct Data {
    pub chain_name: String,
    pub block_gas_limit: u64,
    pub initial_state: Option<StateConfig>,
    pub transaction_parameters: ConsensusParameters,
    pub gas_costs: GasCosts,
    pub consensus: ConsensusConfig,
}

/// The field of a chain configuration that stands under `key`; `None` for
/// any other key.
pub open spec fn chain_field(key: Seq<char>) -> Option<Field> {
    if key == Field::ChainName.spec_name() {
        Some(Field::ChainName)
    } else if key == Field::BlockGasLimit.spec_name() {
        Some(Field::BlockGasLimit)
    } else if key == Field::InitialState.spec_name() {
        Some(Field::InitialState)
    } else if key == Field::TransactionParameters.spec_name() {
        Some(Field::TransactionParameters)
    } else if key == Field::GasCosts.spec_name() {
        Some(Field::GasCosts)
    } else if key == Field::Consensus.spec_name() {
        Some(Field::Consensus)
    } else {
        None
    }
}

/// The gas limit that `v` holds: a number that is an integer from 0 to the
/// largest `i64`. A negative number is no gas limit.
pub open spec fn gas_limit_in(v: serde_json::Value) -> Option<u64> {
    match shape(v) {
        JsonShape::Number(Some(n)) => if 0 <= n <= i64::MAX {
            Some(n as u64)
        } else {
            None
        },
        _ => None,
    }
}

/// What is wrong with `v` as an initial state that may be `null`.
pub open spec fn initial_state_failure(v: serde_json::Value) -> Option<Failure> {
    match shape(v) {
        JsonShape::Null => None,
        JsonShape::Object(m) => state_first_failure(entries(m)),
        _ => Some(Failure::ExpectedMap),
    }
}

/// Whether `state` is the initial state that `v` writes: none for `null`,
/// else the one decoded from the map `v`.
pub open spec fn is_initial_state(state: Option<StateConfig>, v: serde_json::Value) -> bool {
    match shape(v) {
        JsonShape::Null => state is None,
        JsonShape::Object(m) => state matches Some(s) && is_state(
            s.coins,
            s.contracts,
            s.messages,
            s.height,
            entries(m),
        ),
        _ => false,
    }
}

/// What is wrong with the pair `key`, `v` in the map of a chain
/// configuration. A pair under a key that is no field of it is passed over.
pub open spec fn chain_pair_failure(key: Seq<char>, v: serde_json::Value) -> Option<Failure> {
    match chain_field(key) {
        Some(Field::ChainName) => if shape(v) is String {
            None
        } else {
            Some(Failure::MalformedField(Field::ChainName))
        },
        Some(Field::BlockGasLimit) => if gas_limit_in(v) is Some {
            None
        } else {
            Some(Failure::MalformedField(Field::BlockGasLimit))
        },
        Some(Field::InitialState) => initial_state_failure(v),
        Some(Field::TransactionParameters) => if parameters_in(v) is Some {
            None
        } else {
            Some(Failure::MalformedField(Field::TransactionParameters))
        },
        Some(Field::GasCosts) => if gas_costs_in(v) is Some {
            None
        } else {
            Some(Failure::MalformedField(Field::GasCosts))
        },
        Some(Field::Consensus) => if consensus_in(v) is Some {
            None
        } else {
            Some(Failure::MalformedField(Field::Consensus))
        },
        _ => None,
    }
}

/// What is wrong with the first pair with which something is wrong.
pub open spec fn chain_first_failure(pairs: Seq<(Seq<char>, serde_json::Value)>) -> Option<Failure>
    decreases pairs.len(),
{
    if pairs.len() == 0 {
        None
    } else {
        match chain_pair_failure(pairs[0].0, pairs[0].1) {
            Some(failure) => Some(failure),
            None => chain_first_failure(pairs.drop_first()),
        }
    }
}

/// The first field, in the order of the record, that `pairs` lack.
pub open spec fn chain_missing(pairs: Seq<(Seq<char>, serde_json::Value)>) -> Option<Field> {
    if last_value(pairs, Field::ChainName.spec_name()) is None {
        Some(Field::ChainName)
    } else if last_value(pairs, Field::BlockGasLimit.spec_name()) is None {
        Some(Field::BlockGasLimit)
    } else if last_value(pairs, Field::InitialState.spec_name()) is None {
        Some(Field::InitialState)
    } else if last_value(pairs, Field::TransactionParameters.spec_name()) is None {
        Some(Field::TransactionParameters)
    } else if last_value(pairs, Field::GasCosts.spec_name()) is None {
        Some(Field::GasCosts)
    } else if last_value(pairs, Field::Consensus.spec_name()) is None {
        Some(Field::Consensus)
    } else {
        None
    }
}

/// Whether the six fields are what `pairs` give as far as they give them,
/// each from the last pair under its key.
pub open spec fn is_chain(
    chain_name: Option<String>,
    block_gas_limit: Option<u64>,
    initial_state: Option<Option<StateConfig>>,
    transaction_parameters: Option<ConsensusParameters>,
    gas_costs: Option<GasCosts>,
    consensus: Option<ConsensusConfig>,
    pairs: Seq<(Seq<char>, serde_json::Value)>,
) -> bool {
    &&& match last_value(pairs, Field::ChainName.spec_name()) {
        Some(v) => chain_name matches Some(name) && shape(v) == JsonShape::String(name@),
        None => chain_name is None,
    }
    &&& match last_value(pairs, Field::BlockGasLimit.spec_name()) {
        Some(v) => block_gas_limit is Some && block_gas_limit == gas_limit_in(v),
        None => block_gas_limit is None,
    }
    &&& match last_value(pairs, Field::InitialState.spec_name()) {
        Some(v) => initial_state matches Some(state) && is_initial_state(state, v),
        None => initial_state is None,
    }
    &&& match last_value(pairs, Field::TransactionParameters.spec_name()) {
        Some(v) => transaction_parameters is Some && transaction_parameters == parameters_in(v),
        None => transaction_parameters is None,
    }
    &&& match last_value(pairs, Field::GasCosts.spec_name()) {
        Some(v) => gas_costs is Some && gas_costs == gas_costs_in(v),
        None => gas_costs is None,
    }
    &&& match last_value(pairs, Field::Consensus.spec_name()) {
        Some(v) => consensus matches Some(c) && consensus_in(v) == Some(c@),
        None => consensus is None,
    }
}

/// Whether `result` is what decoding a chain configuration from `pairs`
/// gives: the failure of the first pair that has one; else the first field
/// that is missing; else the configuration.
pub open spec fn is_chain_outcome(
    result: Result<Data, DecodeError>,
    pairs: Seq<(Seq<char>, serde_json::Value)>,
) -> bool {
    match result {
        Ok(data) => {
            &&& chain_first_failure(pairs) is None
            &&& chain_missing(pairs) is None
            &&& is_chain(
                Some(data.chain_name),
                Some(data.block_gas_limit),
                Some(data.initial_state),
                Some(data.transaction_parameters),
                Some(data.gas_costs),
                Some(data.consensus),
                pairs,
            )
        },
        Err(e) => match chain_first_failure(pairs) {
            Some(failure) => e@ == failure,
            None => chain_missing(pairs) matches Some(field) && e@ == Failure::MissingField(field),
        },
    }
}

/// Whether `field` is a field of a chain configuration.
pub open spec fn is_chain_field(field: Field) -> bool {
    match field {
        Field::ChainName
        | Field::BlockGasLimit
        | Field::InitialState
        | Field::TransactionParameters
        | Field::GasCosts
        | Field::Consensus => true,
        _ => false,
    }
}

/// A key names the field that `chain_field` gives for it and no other field
/// of a chain configuration.
pub proof fn lemma_chain_field(key: Seq<char>, field: Field)
    ensures
        chain_field(key) == Some(field) ==> key == field.spec_name() && is_chain_field(field),
        is_chain_field(field) ==> (chain_field(key) == Some(field) <==> key == field.spec_name()),
{
    if chain_field(key) is Some && chain_field(key) != Some(field) {
        lemma_names_differ(chain_field(key)->0, field);
    }
}

/// Finds the field of a chain configuration that stands under `key`.
pub fn find_chain_field(key: &str) -> (field: Option<Field>)
    ensures
        field == chain_field(key@),
{
    if same_text(key, Field::ChainName.name()) {
        Some(Field::ChainName)
    } else if same_text(key, Field::BlockGasLimit.name()) {
        Some(Field::BlockGasLimit)
    } else if same_text(key, Field::InitialState.name()) {
        Some(Field::InitialState)
    } else if same_text(key, Field::TransactionParameters.name()) {
        Some(Field::TransactionParameters)
    } else if same_text(key, Field::GasCosts.name()) {
        Some(Field::GasCosts)
    } else if same_text(key, Field::Consensus.name()) {
        Some(Field::Consensus)
    } else {
        None
    }
}

/// Reads a gas limit.
pub fn read_gas_limit(v: &serde_json::Value) -> (limit: Option<u64>)
    ensures
        limit == gas_limit_in(*v),
{
    match v.as_i64() {
        Some(n) => if n >= 0 {
            Some(n as u64)
        } else {
            None
        },
        None => None,
    }
}

/// Reads an initial state that may be `null`.
pub fn read_initial_state(v: &serde_json::Value) -> (result: Result<
    Option<StateConfig>,
    DecodeError,
>)
    ensures
        match result {
            Ok(state) => initial_state_failure(*v) is None && is_initial_state(state, *v),
            Err(e) => initial_state_failure(*v) == Some(e@),
        },
{
    if v.is_null() {
        Ok(None)
    } else {
        match StateConfig::deserialize(v) {
            Ok(state) => Ok(Some(state)),
            Err(e) => Err(e),
        }
    }
}

/// Decodes the map of a chain configuration.
#[derive(Debug)]
pub struct DataVisitor;

impl DataVisitor {
    /// Decodes a chain configuration from the pairs of its map. All six
    /// fields are required; `initial_state` may hold `null`. Pairs under any
    /// other key are passed over.
    pub fn visit_map(&self, map: &[(String, serde_json::Value)]) -> (result: Result<
        Data,
        DecodeError,
    >)
        ensures
            is_chain_outcome(result, pair_views(map@)),
    {
        let ghost pairs = pair_views(map@);
        let mut chain_name: Option<String> = None;
        let mut block_gas_limit: Option<u64> = None;
        let mut initial_state: Option<Option<StateConfig>> = None;
        let mut transaction_parameters: Option<ConsensusParameters> = None;
        let mut gas_costs: Option<GasCosts> = None;
        let mut consensus: Option<ConsensusConfig> = None;
        let mut i: usize = 0;
        proof {
            assert(pairs.skip(0) =~= pairs);
            assert(pairs.take(0) =~= Seq::<(Seq<char>, serde_json::Value)>::empty());
        }
        while i < map.len()
            invariant
                i <= map@.len(),
                pairs == pair_views(map@),
                pairs.len() == map@.len(),
                chain_first_failure(pairs) == chain_first_failure(pairs.skip(i as int)),
                is_chain(
                    chain_name,
                    block_gas_limit,
                    initial_state,
                    transaction_parameters,
                    gas_costs,
                    consensus,
                    pairs.take(i as int),
                ),
            decreases map@.len() - i,
        {
            let key = map[i].0.as_str();
            let value = &map[i].1;
            proof {
                assert(pairs[i as int] == (key@, *value));
                assert(pairs.skip(i as int)[0] == pairs[i as int]);
                assert(pairs.skip(i as int).drop_first() =~= pairs.skip(i + 1));
                lemma_last_value_step(pairs, i as int, Field::ChainName.spec_name());
                lemma_last_value_step(pairs, i as int, Field::BlockGasLimit.spec_name());
                lemma_last_value_step(pairs, i as int, Field::InitialState.spec_name());
                lemma_last_value_step(pairs, i as int, Field::TransactionParameters.spec_name());
                lemma_last_value_step(pairs, i as int, Field::GasCosts.spec_name());
                lemma_last_value_step(pairs, i as int, Field::Consensus.spec_name());
                lemma_chain_field(key@, Field::ChainName);
                lemma_chain_field(key@, Field::BlockGasLimit);
                lemma_chain_field(key@, Field::InitialState);
                lemma_chain_field(key@, Field::TransactionParameters);
                lemma_chain_field(key@, Field::GasCosts);
                lemma_chain_field(key@, Field::Consensus);
            }
            match find_chain_field(key) {
                Some(Field::ChainName) => {
                    match value.as_str() {
                        Some(name) => {
                            chain_name = Some(name.to_owned());
                        },
                        None => {
                            return Err(DecodeError::MalformedField(Field::ChainName));
                        },
                    }
                },
                Some(Field::BlockGasLimit) => {
                    block_gas_limit = read_gas_limit(value);
                    if block_gas_limit.is_none() {
                        return Err(DecodeError::MalformedField(Field::BlockGasLimit));
                    }
                },
                Some(Field::InitialState) => {
                    match read_initial_state(value) {
                        Ok(state) => {
                            initial_state = Some(state);
                        },
                        Err(e) => {
                            return Err(e);
                        },
                    }
                },
                Some(Field::TransactionParameters) => {
                    match parameters_from_value(value.clone()) {
                        Ok(parameters) => {
                            transaction_parameters = Some(parameters);
                        },
                        Err(_) => {
                            return Err(DecodeError::MalformedField(Field::TransactionParameters));
                        },
                    }
                },
                Some(Field::GasCosts) => {
                    match gas_costs_from_value(value.clone()) {
                        Ok(costs) => {
                            gas_costs = Some(costs);
                        },
                        Err(_) => {
                            return Err(DecodeError::MalformedField(Field::GasCosts));
                        },
                    }
                },
                Some(Field::Consensus) => {
                    consensus = ConsensusConfig::from_value(value);
                    if consensus.is_none() {
                        return Err(DecodeError::MalformedField(Field::Consensus));
                    }
                },
                _ => {},
            }
            i = i + 1;
        }
        proof {
            assert(pairs.take(i as int) =~= pairs);
        }
        let chain_name = match chain_name {
            Some(name) => name,
            None => {
                return Err(DecodeError::MissingField(Field::ChainName));
            },
        };
        let block_gas_limit = match block_gas_limit {
            Some(limit) => limit,
            None => {
                return Err(DecodeError::MissingField(Field::BlockGasLimit));
            },
        };
        let initial_state = match initial_state {
            Some(state) => state,
            None => {
                return Err(DecodeError::MissingField(Field::InitialState));
            },
        };
        let transaction_parameters = match transaction_parameters {
            Some(parameters) => parameters,
            None => {
                return Err(DecodeError::MissingField(Field::TransactionParameters));
            },
        };
        let gas_costs = match gas_costs {
            Some(costs) => costs,
            None => {
                return Err(DecodeError::MissingField(Field::GasCosts));
            },
        };
        let consensus = match consensus {
            Some(consensus) => consensus,
            None => {
                return Err(DecodeError::MissingField(Field::Consensus));
            },
        };
        Ok(
            Data {
                chain_name,
                block_gas_limit,
                initial_state,
                transaction_parameters,
                gas_costs,
                consensus,
            },
        )
    }
}

} // verus!
