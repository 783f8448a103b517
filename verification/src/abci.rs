//! What the application reports back about a transaction.

use crate::any::Any;
use crate::errors::Error;
use vstd::prelude::*;

verus! {

/// A unit of work.
pub type Gas = u64;

/// A key and a value that describe an event.
#[derive(Clone, Debug, Default, PartialEq, Eq)]
pub struct Attribute {
    pub key: String,
    pub value: String,
}

/// An event whose attributes are text.
#[derive(Clone, Debug, Default, PartialEq, Eq)]
pub struct StringEvent {
    pub event_type: String,
    pub attributes: Vec<Attribute>,
}

/// The log of one message of a transaction, with the events it gave rise to.
#[derive(Clone, Debug, Default, PartialEq, Eq)]
pub struct AbciMessageLog {
    pub msg_index: u32,
    pub log: String,
    pub events: Vec<StringEvent>,
}

/// How much gas a transaction may use and how much it used.
#[derive(Copy, Clone, Debug, Default, PartialEq, Eq)]
pub struct GasInfo {
    /// The most units of work the transaction may perform.
    pub gas_wanted: Gas,
    /// The units of work it performed.
    pub gas_used: Gas,
}

/// The result of one message: its kind and the bytes it returned.
#[derive(Clone, Debug, PartialEq, Eq, PartialOrd, Ord)]
pub struct MsgData {
    pub msg_type: String,
    pub data: Vec<u8>,
}

/// A key and a value that describe an event of the consensus engine, and
/// whether the event is indexed by them.
#[derive(Clone, Debug, Default, PartialEq, Eq)]
pub struct EventAttribute {
    pub key: String,
    pub value: String,
    pub index: bool,
}

/// An event as the consensus engine reports it.
#[derive(Clone, Debug, Default, PartialEq, Eq)]
pub struct Event {
    pub kind: String,
    pub attributes: Vec<EventAttribute>,
}

/// What the application answers to a transaction.
#[derive(Clone, Debug, PartialEq, Eq)]
pub struct TxResponse {
    pub height: i64,
    pub txhash: String,
    pub codespace: String,
    pub code: u32,
    pub data: String,
    pub raw_log: String,
    pub logs: Vec<AbciMessageLog>,
    pub info: String,
    pub gas_wanted: i64,
    pub gas_used: i64,
    pub tx: Option<Any>,
    pub timestamp: String,
    pub events: Vec<Event>,
}

/// The result of running a transaction: its data, its log, its events and
/// the responses of its messages.
#[derive(Clone, Debug, PartialEq, Eq)]
pub struct AbciResult {
    pub data: Vec<u8>,
    pub log: String,
    pub events: Vec<Event>,
    pub msg_responses: Vec<Any>,
}

/// What a simulated transaction used and gave.
#[derive(Clone, Debug, PartialEq, Eq)]
pub struct SimulationResponse {
    pub gas_info: Option<GasInfo>,
    pub result: Option<AbciResult>,
}

/// One page of the transactions that a search found.
#[derive(Clone, Debug, PartialEq, Eq)]
pub struct SearchTxsResult {
    pub total_count: u64,
    pub count: u64,
    pub page_number: u64,
    pub page_total: u64,
    pub limit: u64,
    pub txs: Vec<TxResponse>,
}

/// The results of the messages of a transaction.
#[derive(Clone, Debug, PartialEq, Eq)]
pub struct TxMsgData {
    pub data: Vec<MsgData>,
    pub msg_responses: Vec<Any>,
}

impl TxMsgData {
    /// The results of a transaction, which may not hold responses of the
    /// newer kind: where `msg_responses` is not empty the data are refused
    /// with `TxMsgDataUnsupported`.
    pub fn from_parts(data: Vec<MsgData>, msg_responses: Vec<Any>) -> (r: Result<TxMsgData, Error>)
        ensures
            r.is_ok() == (msg_responses@.len() == 0),
            r matches Ok(t) ==> t.data == data && t.msg_responses == msg_responses,
            r matches Err(e) ==> e is TxMsgDataUnsupported,
    {
        if msg_responses.len() != 0 {
            return Err(Error::TxMsgDataUnsupported);
        }
        Ok(TxMsgData { data, msg_responses })
    }
}

} // verus!
