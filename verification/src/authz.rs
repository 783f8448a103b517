//! Messages of the authorization module.

use crate::any::Any;
use vstd::prelude::*;

verus! {

/// An unrestricted permission to execute one kind of message on behalf of
/// the granter.
#[derive(Clone, Debug, PartialEq, Eq)]
pub struct GenericAuthorization {
    /// The fully qualified name of the message kind.
    pub msg: String,
}

/// The grants that expire together: the type URLs of their messages.
#[derive(Clone, Debug, PartialEq, Eq)]
pub struct GrantQueueItem {
    pub msg_type_urls: Vec<String>,
}

/// The results of the messages that were executed under a grant.
#[derive(Clone, Debug, PartialEq, Eq)]
pub struct MsgExecResponse {
    pub results: Vec<Vec<u8>>,
}

/// The messages that `grantee` executes under the grants given to it.
#[derive(Clone, Debug, PartialEq, Eq)]
pub struct MsgExec {
    pub grantee: String,
    pub msgs: Vec<Any>,
}

/// The answer to a grant.
#[derive(Clone, Debug, PartialEq, Eq)]
pub struct MsgGrantResponse {}

/// Takes back the grant that `granter` gave to `grantee` for one kind of
/// message.
#[derive(Clone, Debug, PartialEq, Eq)]
pub struct MsgRevoke {
    pub granter: String,
    pub grantee: String,
    pub msg_type_url: String,
}

/// The answer to a revocation.
#[derive(Clone, Debug, PartialEq, Eq)]
pub struct MsgRevokeResponse {}

} // verus!
