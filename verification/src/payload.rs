//! The records of a chain configuration that this library carries through
//! without looking inside: contracts, messages, consensus parameters and gas
//! costs. Each is decoded from a JSON value by its own decoder in the crate
//! that defines it.

use fuel_core_chain_config::ContractConfig;
use fuel_core_chain_config::MessageConfig;
use fuel_core_types::fuel_tx::ConsensusParameters;
use fuel_core_types::fuel_vm::GasCosts;
use vstd::prelude::*;

verus! {

#[verifier::external_type_specification]
#[verifier::external_body]
pub struct ExContractConfig(ContractConfig);

#[verifier::external_type_specification]
#[verifier::external_body]
pub struct ExMessageConfig(MessageConfig);

#[verifier::external_type_specification]
#[verifier::external_body]
pub struct ExConsensusParameters(ConsensusParameters);

#[verifier::external_type_specification]
#[verifier::external_body]
pub struct ExGasCosts(GasCosts);

#[verifier::external_type_specification]
#[verifier::external_body]
pub struct ExJsonError(serde_json::Error);

/// The list of contracts that `v` decodes to, which may be absent; `None` if
/// `v` does not decode to one.
pub uninterp spec fn contracts_in(v: serde_json::Value) -> Option<Option<Seq<ContractConfig>>>;

/// The list of messages that `v` decodes to, which may be absent; `None` if
/// `v` does not decode to one.
pub uninterp spec fn messages_in(v: serde_json::Value) -> Option<Option<Seq<MessageConfig>>>;

/// The consensus parameters that `v` decodes to; `None` if it decodes to none.
pub uninterp spec fn parameters_in(v: serde_json::Value) -> Option<ConsensusParameters>;

/// The gas costs that `v` decodes to; `None` if it decodes to none.
pub uninterp spec fn gas_costs_in(v: serde_json::Value) -> Option<GasCosts>;

/// The elements of a list that may be absent.
pub open spec fn opt_seq<T>(list: Option<Vec<T>>) -> Option<Seq<T>> {
    match list {
        Some(items) => Some(items@),
        None => None,
    }
}

/// `serde_json::from_value` at `Option<Vec<ContractConfig>>`: what the value
/// decodes to is a function of the value.
#[verifier::external_body]
pub(crate) fn contracts_from_value(v: serde_json::Value) -> (r: Result<
    Option<Vec<ContractConfig>>,
    serde_json::Error,
>)
    ensures
        match r {
            Ok(list) => contracts_in(v) == Some(opt_seq(list)),
            Err(_) => contracts_in(v) is None,
        },
{
    serde_json::from_value(v)
}

/// `serde_json::from_value` at `Option<Vec<MessageConfig>>`: what the value
/// decodes to is a function of the value.
#[verifier::external_body]
pub(crate) fn messages_from_value(v: serde_json::Value) -> (r: Result<
    Option<Vec<MessageConfig>>,
    serde_json::Error,
>)
    ensures
        match r {
            Ok(list) => messages_in(v) == Some(opt_seq(list)),
            Err(_) => messages_in(v) is None,
        },
{
    serde_json::from_value(v)
}

/// `serde_json::from_value` at `ConsensusParameters`: what the value decodes
/// to is a function of the value.
#[verifier::external_body]
pub(crate) fn parameters_from_value(v: serde_json::Value) -> (r: Result<
    ConsensusParameters,
    serde_json::Error,
>)
    ensures
        match r {
            Ok(parameters) => parameters_in(v) == Some(parameters),
            Err(_) => parameters_in(v) is None,
        },
{
    serde_json::from_value(v)
}

/// `serde_json::from_value` at `GasCosts`: what the value decodes to is a
/// function of the value.
#[verifier::external_body]
pub(crate) fn gas_costs_from_value(v: serde_json::Value) -> (r: Result<GasCosts, serde_json::Error>)
    ensures
        match r {
            Ok(costs) => gas_costs_in(v) == Some(costs),
            Err(_) => gas_costs_in(v) is None,
        },
{
    serde_json::from_value(v)
}

} // verus!
