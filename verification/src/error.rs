//! The fields that the decoders know by name, and the ways a decode pass fails.

use vstd::prelude::*;
use vstd::string::StringExecFns;

verus! {

/// A key that one of the decoders recognises.
#[derive(Clone, Copy, Debug, PartialEq, Eq, Structural)]
pub enum Field {
    TxId,
    OutputIndex,
    TxPointerBlockHeight,
    TxPointerTxIdx,
    Maturity,
    Owner,
    Amount,
    AssetId,
    Coins,
    Contracts,
    Messages,
    Height,
    ChainName,
    BlockGasLimit,
    InitialState,
    TransactionParameters,
    GasCosts,
    Consensus,
    Documents,
    Journal,
}

impl Field {
    /// The key under which the field stands in a document.
    pub open spec fn spec_name(self) -> Seq<char> {
        match self {
            Field::TxId => "tx_id"@,
            Field::OutputIndex => "output_index"@,
            Field::TxPointerBlockHeight => "tx_pointer_block_height"@,
            Field::TxPointerTxIdx => "tx_pointer_tx_idx"@,
            Field::Maturity => "maturity"@,
            Field::Owner => "owner"@,
            Field::Amount => "amount"@,
            Field::AssetId => "asset_id"@,
            Field::Coins => "coins"@,
            Field::Contracts => "contracts"@,
            Field::Messages => "messages"@,
            Field::Height => "height"@,
            Field::ChainName => "chain_name"@,
            Field::BlockGasLimit => "block_gas_limit"@,
            Field::InitialState => "initial_state"@,
            Field::TransactionParameters => "transaction_parameters"@,
            Field::GasCosts => "gas_costs"@,
            Field::Consensus => "consensus"@,
            Field::Documents => "documents"@,
            Field::Journal => "journal"@,
        }
    }

    /// The key under which the field stands in a document.
    pub fn name(self) -> (text: &'static str)
        ensures
            text@ == self.spec_name(),
    {
        match self {
            Field::TxId => "tx_id",
            Field::OutputIndex => "output_index",
            Field::TxPointerBlockHeight => "tx_pointer_block_height",
            Field::TxPointerTxIdx => "tx_pointer_tx_idx",
            Field::Maturity => "maturity",
            Field::Owner => "owner",
            Field::Amount => "amount",
            Field::AssetId => "asset_id",
            Field::Coins => "coins",
            Field::Contracts => "contracts",
            Field::Messages => "messages",
            Field::Height => "height",
            Field::ChainName => "chain_name",
            Field::BlockGasLimit => "block_gas_limit",
            Field::InitialState => "initial_state",
            Field::TransactionParameters => "transaction_parameters",
            Field::GasCosts => "gas_costs",
            Field::Consensus => "consensus",
            Field::Documents => "documents",
            Field::Journal => "journal",
        }
    }
}

/// No two fields stand under the same key.
pub proof fn lemma_names_differ(a: Field, b: Field)
    requires
        a != b,
    ensures
        a.spec_name() != b.spec_name(),
{
    reveal_strlit("tx_id");
    reveal_strlit("output_index");
    reveal_strlit("tx_pointer_block_height");
    reveal_strlit("tx_pointer_tx_idx");
    reveal_strlit("maturity");
    reveal_strlit("owner");
    reveal_strlit("amount");
    reveal_strlit("asset_id");
    reveal_strlit("coins");
    reveal_strlit("contracts");
    reveal_strlit("messages");
    reveal_strlit("height");
    reveal_strlit("chain_name");
    reveal_strlit("block_gas_limit");
    reveal_strlit("initial_state");
    reveal_strlit("transaction_parameters");
    reveal_strlit("gas_costs");
    reveal_strlit("consensus");
    reveal_strlit("documents");
    reveal_strlit("journal");
    if a.spec_name() == b.spec_name() {
        assert(a.spec_name().len() == b.spec_name().len());
        assert(a.spec_name()[0] == b.spec_name()[0]);
        assert(a.spec_name()[1] == b.spec_name()[1]);
        assert(a.spec_name()[2] == b.spec_name()[2]);
        assert(a.spec_name()[3] == b.spec_name()[3]);
    }
}

/// Why a decode pass was given up. Every one of these ends the pass: nothing
/// of what was decoded before it is handed out.
#[derive(Clone, Debug, PartialEq, Eq)]
pub enum DecodeError {
    /// A map was expected at this place and something else stands there.
    ExpectedMap,
    /// A list was expected at this place and something else stands there.
    ExpectedList,
    /// A map with a closed set of keys holds this other key.
    UnexpectedKey(String),
    /// The map ended without this required field.
    MissingField(Field),
    /// The value under this field cannot be read as what the field holds.
    MalformedField(Field),
}

/// A `DecodeError` as contracts speak of it.
pub enum Failure {
    ExpectedMap,
    ExpectedList,
    UnexpectedKey(Seq<char>),
    MissingField(Field),
    MalformedField(Field),
}

impl Failure {
    /// The failure in words.
    pub open spec fn message(self) -> Seq<char> {
        match self {
            Failure::ExpectedMap => "invalid type: expected a map"@,
            Failure::ExpectedList => "invalid type: expected a list"@,
            Failure::UnexpectedKey(key) => "unexpected key: "@ + key,
            Failure::MissingField(field) => "missing field: "@ + field.spec_name(),
            Failure::MalformedField(field) => "malformed field: "@ + field.spec_name(),
        }
    }
}

impl View for DecodeError {
    type V = Failure;

    open spec fn view(&self) -> Failure {
        match self {
            DecodeError::ExpectedMap => Failure::ExpectedMap,
            DecodeError::ExpectedList => Failure::ExpectedList,
            DecodeError::UnexpectedKey(key) => Failure::UnexpectedKey(key@),
            DecodeError::MissingField(field) => Failure::MissingField(*field),
            DecodeError::MalformedField(field) => Failure::MalformedField(*field),
        }
    }
}

impl DecodeError {
    /// The failure in words, as a caller would show it.
    pub fn message(&self) -> (text: String)
        ensures
            text@ == self@.message(),
    {
        match self {
            DecodeError::ExpectedMap => String::from_str("invalid type: expected a map"),
            DecodeError::ExpectedList => String::from_str("invalid type: expected a list"),
            DecodeError::UnexpectedKey(key) => String::from_str("unexpected key: ").concat(
                key.as_str(),
            ),
            DecodeError::MissingField(field) => String::from_str("missing field: ").concat(
                field.name(),
            ),
            DecodeError::MalformedField(field) => String::from_str("malformed field: ").concat(
                field.name(),
            ),
        }
    }
}

} // verus!
